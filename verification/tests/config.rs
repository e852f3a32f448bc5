//! The connection in force in a directory, and saving it.

use std::path::Path;

use chrono::Utc;
use nb_config::config::Config;
use nb_config::connection::JupyterConnection;
use nb_config::store::{normalize_root, resolve_project_root, ConnectionStore, Directory};
use tempfile::TempDir;

fn make_connection(server_url: &str, token: &str) -> JupyterConnection {
    JupyterConnection {
        server_url: server_url.to_string(),
        token: token.to_string(),
        connected_at: Utc::now().naive_utc(),
        working_dir: None,
        last_validated: None,
        env_manager: None,
        project_root: None,
        ydoc_available: None,
    }
}

fn directory(path: &Path) -> Directory {
    Directory {
        path: path.as_os_str().as_encoded_bytes().to_vec(),
        canonical: path.canonicalize().ok().map(|p| p.into_os_string().into_encoded_bytes()),
    }
}

#[test]
fn test_resolve_connection_priority() {
    let saved = Config {
        connection: Some(make_connection("http://saved:8888", "saved_token")),
    };
    // CLI args beat saved; partial CLI args fall back to saved.
    assert_eq!(
        saved
            .resolve_connection(Some("http://cli:9999".into()), Some("cli_token".into()))
            .unwrap(),
        Some(("http://cli:9999".to_string(), "cli_token".to_string()))
    );
    assert_eq!(
        saved.resolve_connection(Some("http://cli:9999".into()), None).unwrap(),
        Some(("http://saved:8888".to_string(), "saved_token".to_string()))
    );
    assert_eq!(
        saved.resolve_connection(None, None).unwrap(),
        Some(("http://saved:8888".to_string(), "saved_token".to_string()))
    );
    // No saved connection and no args → None.
    assert_eq!(Config::default().resolve_connection(None, None).unwrap(), None);
}

fn store_with(projects: &[(&str, &str)]) -> ConnectionStore {
    let mut store = ConnectionStore::default();
    store.version = "2".to_string();
    for (root, token) in projects {
        store.projects.insert((*root).to_string(), make_connection("http://srv", token));
    }
    store
}

/// A directory below `root` that has its canonical path.
fn below(root: &Path, names: &[&str]) -> Directory {
    let mut path = root.canonicalize().unwrap();
    for name in names {
        path.push(name);
    }
    let bytes = path.into_os_string().into_encoded_bytes();
    Directory { path: bytes.clone(), canonical: Some(bytes) }
}

fn canonical_text(dir: &TempDir) -> String {
    dir.path().canonicalize().unwrap().to_str().unwrap().to_string()
}

// ==================== PROJECT-ROOT RESOLUTION ====================

#[test]
fn test_resolve_project_root_matches_cwd_and_ancestors() {
    let store = store_with(&[("/home/user/proj", "tok")]);
    for cwd in ["/home/user/proj", "/home/user/proj/notebooks/2024"] {
        let (root, conn) =
            resolve_project_root(&store, &directory(Path::new(cwd))).expect("match");
        assert_eq!(root, "/home/user/proj");
        assert_eq!(conn.token, "tok");
    }
}

#[test]
fn test_resolve_project_root_deepest_wins() {
    let store = store_with(&[("/home/user/proj", "root"), ("/home/user/proj/sub", "sub")]);
    let (root, conn) =
        resolve_project_root(&store, &directory(Path::new("/home/user/proj/sub/deep")))
            .expect("match");
    assert_eq!(root, "/home/user/proj/sub");
    assert_eq!(conn.token, "sub");
}

#[test]
fn test_resolve_project_root_no_false_prefix_match() {
    // /home/user/proj must not match /home/user/proj2, siblings, or an
    // empty store.
    let store = store_with(&[("/home/user/proj", "tok")]);
    for cwd in ["/home/user/proj2", "/home/other/proj"] {
        assert!(resolve_project_root(&store, &directory(Path::new(cwd))).is_none());
    }
    assert!(resolve_project_root(
        &ConnectionStore::default(),
        &directory(Path::new("/anywhere"))
    )
    .is_none());
}

#[test]
fn equally_deep_roots_resolve_to_the_last_in_order() {
    let store = store_with(&[("/a/b", "plain"), ("/a/b/", "slash"), ("/a//b", "double")]);
    let (root, conn) =
        resolve_project_root(&store, &directory(Path::new("/a/b/c"))).expect("match");
    assert_eq!(root, "/a/b/");
    assert_eq!(conn.token, "slash");
}

#[test]
fn empty_root_matches_every_directory_last() {
    let store = store_with(&[("", "any"), ("/", "root")]);
    let (root, _) = resolve_project_root(&store, &directory(Path::new("/q"))).expect("match");
    assert_eq!(root, "/");
    let (root, _) = resolve_project_root(&store, &directory(Path::new("q"))).expect("match");
    assert_eq!(root, "");
    assert_eq!(Config::load(None, &store).connection.unwrap().token, "any");
}

// ==================== RESOLVE CONFIG ====================

#[test]
fn test_resolve_config_uses_store_connection() {
    let tmp = TempDir::new().unwrap();
    let store = store_with(&[(&normalize_root(&directory(tmp.path())), "tok")]);
    let config = Config::resolve_config(&directory(tmp.path()), &store);
    assert_eq!(config.connection.unwrap().token, "tok");
}

#[test]
fn test_resolve_config_default_when_nothing_matches() {
    let tmp = TempDir::new().unwrap();
    let config = Config::resolve_config(&directory(tmp.path()), &ConnectionStore::default());
    assert!(config.connection.is_none());
}

#[test]
fn load_without_a_current_directory_finds_nothing() {
    let store = store_with(&[("/", "tok")]);
    assert!(Config::load(None, &store).connection.is_none());
    let here = directory(Path::new("/"));
    assert_eq!(Config::load(Some(here), &store).connection.unwrap().token, "tok");
}

#[test]
fn cloned_config_keeps_its_connection() {
    let mut connection = make_connection("http://h:1", "t");
    connection.env_manager = Some("uv".to_string());
    connection.ydoc_available = Some(true);
    let config = Config { connection: Some(connection) };
    let copy = config.clone().connection.unwrap();
    assert_eq!(copy.server_url, "http://h:1");
    assert_eq!(copy.token, "t");
    assert_eq!(copy.env_manager, Some("uv".to_string()));
    assert_eq!(copy.project_root, None);
    assert_eq!(copy.ydoc_available, Some(true));
    assert_eq!(copy.connected_at, config.connection.unwrap().connected_at);
}

// ==================== CONNECT, STATUS, DISCONNECT ====================

#[test]
fn test_status_from_subdirectory_finds_project_connection() {
    let tmp = TempDir::new().unwrap();
    let mut store = ConnectionStore::default();
    store
        .projects
        .insert(canonical_text(&tmp), make_connection("http://127.0.0.1:8888", "tok"));
    let sub = below(tmp.path(), &["notebooks", "2024"]);
    let config = Config::load(Some(sub), &store);
    assert_eq!(config.connection.unwrap().server_url, "http://127.0.0.1:8888");
}

#[test]
fn test_status_deepest_recorded_root_wins() {
    let tmp = TempDir::new().unwrap();
    let root = canonical_text(&tmp);
    let mut store = ConnectionStore::default();
    store.projects.insert(root.clone(), make_connection("http://root:8888", "root"));
    store
        .projects
        .insert(format!("{}/notebooks", root), make_connection("http://sub:8888", "sub"));
    let deep = below(tmp.path(), &["notebooks", "2024", "jan"]);
    let config = Config::load(Some(deep), &store);
    assert_eq!(config.connection.unwrap().server_url, "http://sub:8888");
}

#[test]
fn test_disconnect_when_connected() {
    let tmp = TempDir::new().unwrap();
    let mut store = ConnectionStore::default();
    store
        .projects
        .insert(canonical_text(&tmp), make_connection("http://127.0.0.1:8888", "tok"));
    Config { connection: None }.save(&directory(tmp.path()), &mut store);
    assert!(store.projects.is_empty());
    assert!(Config::load(Some(directory(tmp.path())), &store).connection.is_none());
}

#[test]
fn test_disconnect_when_not_connected() {
    let tmp = TempDir::new().unwrap();
    let mut store = store_with(&[("/elsewhere", "tok")]);
    Config { connection: None }.save(&directory(tmp.path()), &mut store);
    assert_eq!(store.projects.len(), 1);
    assert_eq!(store.projects.get("/elsewhere").unwrap().token, "tok");
    assert_eq!(store.version, "2");
}

#[test]
fn test_disconnect_from_subdirectory_clears_project_connection() {
    let tmp = TempDir::new().unwrap();
    let mut store = ConnectionStore::default();
    store
        .projects
        .insert(canonical_text(&tmp), make_connection("http://127.0.0.1:8888", "tok"));
    Config { connection: None }.save(&below(tmp.path(), &["notebooks"]), &mut store);
    assert!(store.projects.is_empty());
}

#[test]
fn test_connect_from_subdirectory_updates_project_connection() {
    let tmp = TempDir::new().unwrap();
    let root = canonical_text(&tmp);
    let mut store = ConnectionStore::default();
    store.projects.insert(root.clone(), make_connection("http://127.0.0.1:8888", "old"));
    let config = Config { connection: Some(make_connection("http://127.0.0.1:9999", "new")) };
    config.save(&below(tmp.path(), &["notebooks"]), &mut store);
    assert_eq!(store.projects.len(), 1);
    assert_eq!(store.projects.get(&root).unwrap().server_url, "http://127.0.0.1:9999");
    assert_eq!(store.projects.get(&root).unwrap().token, "new");
}

#[test]
fn test_connect_with_empty_store_creates_entry_keyed_by_cwd() {
    let tmp = TempDir::new().unwrap();
    let mut store = ConnectionStore::default();
    let config = Config { connection: Some(make_connection("http://127.0.0.1:9999", "tok")) };
    config.save(&directory(tmp.path()), &mut store);
    let root = canonical_text(&tmp);
    assert_eq!(store.projects.get(&root).unwrap().server_url, "http://127.0.0.1:9999");
    assert_eq!(store.projects.len(), 1);
}

#[test]
fn disconnect_uncovers_the_outer_project() {
    let mut store = store_with(&[("/a", "outer"), ("/a/b", "inner")]);
    let cwd = directory(Path::new("/a/b/c"));
    Config { connection: None }.save(&cwd, &mut store);
    assert!(store.projects.get("/a/b").is_none());
    assert_eq!(Config::load(Some(cwd), &store).connection.unwrap().token, "outer");
}

#[test]
fn disconnect_undoes_connect() {
    let mut store = store_with(&[("/other", "tok")]);
    let cwd = directory(Path::new("/fresh"));
    Config { connection: Some(make_connection("http://h", "new")) }.save(&cwd, &mut store);
    assert_eq!(store.projects.len(), 2);
    Config { connection: None }.save(&cwd, &mut store);
    assert_eq!(store.projects.len(), 1);
    assert_eq!(store.projects.get("/other").unwrap().token, "tok");
}

#[test]
fn record_puts_the_connection_under_the_given_root() {
    let mut store = store_with(&[("/a", "tok")]);
    Config { connection: Some(make_connection("http://h", "new")) }
        .record("/a/b".to_string(), &mut store);
    assert_eq!(store.projects.get("/a").unwrap().token, "tok");
    assert_eq!(store.projects.get("/a/b").unwrap().token, "new");
}

// ==================== COMPONENTS IN ANOTHER SYNTAX ====================

fn list(components: &[&str]) -> Vec<Vec<u8>> {
    components.iter().map(|c| c.as_bytes().to_vec()).collect()
}

fn windows_store() -> (ConnectionStore, Vec<Vec<Vec<u8>>>) {
    let store = store_with(&[(r"C:\p", "outer"), (r"C:\p\sub", "inner"), (r"D:\q", "other")]);
    let roots =
        vec![list(&["C:", r"\", "p"]), list(&["C:", r"\", "p", "sub"]), list(&["D:", r"\", "q"])];
    (store, roots)
}

#[test]
fn load_at_takes_the_deepest_root() {
    let (store, roots) = windows_store();
    let token = |here: &[&str]| {
        Config::load_at(&list(here), &roots, &store).connection.map(|c| c.token)
    };
    assert_eq!(token(&["C:", r"\", "p", "sub", "x"]), Some("inner".to_string()));
    assert_eq!(token(&["C:", r"\", "p", "subway"]), Some("outer".to_string()));
    assert_eq!(token(&["D:", r"\", "q"]), Some("other".to_string()));
    assert_eq!(token(&["D:", r"\"]), None);
}

#[test]
fn save_at_updates_the_deepest_root() {
    let (mut store, roots) = windows_store();
    let here = list(&["C:", r"\", "p", "sub", "x"]);
    Config { connection: Some(make_connection("http://h", "new")) }.save_at(
        r"C:\p\sub\x".to_string(),
        &here,
        &roots,
        &mut store,
    );
    assert_eq!(store.projects.len(), 3);
    assert_eq!(store.projects.get(r"C:\p\sub").unwrap().token, "new");
    Config { connection: None }.save_at(r"C:\p\sub\x".to_string(), &here, &roots, &mut store);
    assert_eq!(store.projects.len(), 2);
    assert!(store.projects.get(r"C:\p\sub").is_none());
    assert_eq!(store.projects.get(r"C:\p").unwrap().token, "outer");
}

#[test]
fn save_at_records_the_directory_outside_all_roots() {
    let (mut store, roots) = windows_store();
    Config { connection: Some(make_connection("http://h", "new")) }.save_at(
        r"D:\r".to_string(),
        &list(&["D:", r"\", "r"]),
        &roots,
        &mut store,
    );
    assert_eq!(store.projects.len(), 4);
    assert_eq!(store.projects.get(r"D:\r").unwrap().token, "new");
}

#[test]
fn unrelated_roots_do_not_matter() {
    let cwd = Directory { path: b"/a/b/c".to_vec(), canonical: None };
    let few = store_with(&[("/a", "tok")]);
    let more = store_with(&[("/a", "tok"), ("/a/bc", "no"), ("/a/b/c/d", "no")]);
    assert_eq!(resolve_project_root(&few, &cwd).unwrap().0, "/a");
    assert_eq!(resolve_project_root(&more, &cwd).unwrap().0, "/a");
}

// ==================== KEYS AND ORDER ====================

#[test]
fn normalizing_a_key_changes_nothing() {
    for path in [b"/caf\xc3\xa9".to_vec(), vec![0x2f, 0x61, 0xff, 0x62], b"rel/./x/".to_vec()] {
        let key = normalize_root(&Directory { path, canonical: None });
        let again = Directory { path: key.as_bytes().to_vec(), canonical: None };
        assert_eq!(normalize_root(&again), key);
    }
}

#[test]
fn links_share_the_key_of_their_directory() {
    let plain = Directory { path: b"/real".to_vec(), canonical: Some(b"/real".to_vec()) };
    let link = Directory { path: b"/link".to_vec(), canonical: Some(b"/real".to_vec()) };
    assert_eq!(normalize_root(&plain), "/real");
    assert_eq!(normalize_root(&link), "/real");
    let gone = Directory { path: b"/gone".to_vec(), canonical: None };
    assert_eq!(normalize_root(&gone), "/gone");
}

#[test]
fn keys_are_lossy_text() {
    let odd = Directory { path: vec![0x2f, 0x61, 0xff, 0x62], canonical: None };
    assert_eq!(normalize_root(&odd), "/a\u{fffd}b");
    let fine = Directory { path: "/caf\u{e9}".as_bytes().to_vec(), canonical: None };
    assert_eq!(normalize_root(&fine), "/caf\u{e9}");
}

#[test]
fn projects_are_kept_once_and_in_order() {
    let roots = ["/b", "/a", "/\u{e9}", "/a/c", "", "/b", "/a\u{10000}", "/a\u{ffff}"];
    let mut store = ConnectionStore::default();
    let mut reference = std::collections::BTreeMap::new();
    for (i, root) in roots.iter().enumerate() {
        store.projects.insert(root.to_string(), make_connection("http://h", &i.to_string()));
        reference.insert(root.to_string(), i.to_string());
    }
    assert_eq!(store.projects.len(), reference.len());
    for (i, (root, token)) in reference.iter().enumerate() {
        assert_eq!(&store.projects.at(i).root, root);
        assert_eq!(&store.projects.at(i).connection.token, token);
    }
    store.projects.remove("/a");
    store.projects.remove("/not there");
    assert!(store.projects.get("/a").is_none());
    assert_eq!(store.projects.get("/b").unwrap().token, "5");
    assert_eq!(store.projects.len(), reference.len() - 1);
    assert!(!store.projects.is_empty());
}
