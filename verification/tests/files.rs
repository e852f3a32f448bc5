//! The trust checks, and the steps of loading and saving the store.

use std::path::Path;

use chrono::Utc;
use nb_config::config::Config;
use nb_config::connection::JupyterConnection;
use nb_config::load::{load_store, load_store_from, LoadAction, LoadEvent, LoadedStore};
use nb_config::location::{store_path, ConfigError};
use nb_config::save::{
    save_store_to, temp_name, Outcome, SaveAction, SaveError, SaveEvent, StorePlace,
};
use nb_config::store::{ConnectionStore, Directory};
use nb_config::trust::{
    check_config_meta, check_config_path, check_save_target, FileMeta, FileOwner, IoFailure,
    Violation,
};
use tempfile::TempDir;

const UID: u32 = 1000;

fn file(uid: u32, mode: u32) -> FileMeta {
    FileMeta { is_file: true, owner: Some(FileOwner { uid, mode }) }
}

fn link() -> FileMeta {
    FileMeta { is_file: false, owner: Some(FileOwner { uid: UID, mode: 0o120777 }) }
}

fn denied(message: &str) -> IoFailure {
    IoFailure { not_found: false, message: message.to_string() }
}

fn finished(action: LoadAction) -> LoadedStore {
    match action {
        LoadAction::Finish(loaded) => loaded,
        other => panic!("not finished: {:?}", other),
    }
}

fn make_connection(server_url: &str, token: &str) -> JupyterConnection {
    JupyterConnection {
        server_url: server_url.to_string(),
        token: token.to_string(),
        connected_at: Utc::now().naive_utc(),
        working_dir: None,
        last_validated: None,
        env_manager: None,
        project_root: None,
        ydoc_available: None,
    }
}

fn one_project() -> ConnectionStore {
    let mut store = ConnectionStore::default();
    store.projects.insert("/p".to_string(), make_connection("http://h:8888", "t"));
    store
}

/// How the file system examines a path without following a link.
fn examined(path: &Path) -> LoadEvent {
    match path.symlink_metadata() {
        Ok(meta) => LoadEvent::Examined(Ok(FileMeta { is_file: meta.is_file(), owner: None })),
        Err(e) => LoadEvent::Examined(Err(IoFailure {
            not_found: e.kind() == std::io::ErrorKind::NotFound,
            message: e.to_string(),
        })),
    }
}

// ==================== TRUST CHECKS ====================

#[test]
fn private_files_are_trusted() {
    for mode in [0o100600, 0o100644, 0o100755, 0o100400, 0] {
        assert_eq!(check_config_meta(&file(UID, mode), UID), Ok(()));
    }
    assert_eq!(check_config_meta(&FileMeta { is_file: true, owner: None }, UID), Ok(()));
}

#[test]
fn untrusted_files_are_told_apart() {
    assert_eq!(check_config_meta(&link(), UID), Err("not a regular file".to_string()));
    assert_eq!(
        check_config_meta(&FileMeta { is_file: false, owner: None }, UID),
        Err("not a regular file".to_string())
    );
    assert_eq!(
        check_config_meta(&file(0, 0o100666), UID),
        Err("owned by uid 0, not 1000".to_string())
    );
    for mode in [0o100666, 0o100620, 0o100602, 0o022] {
        assert_eq!(
            check_config_meta(&file(UID, mode), UID),
            Err("writable by group or others (fix: chmod go-w the file)".to_string())
        );
    }
    assert_eq!(Violation::NotRegularFile.reason(), "not a regular file");
}

#[test]
fn check_config_path_passes_failures_on() {
    assert!(check_config_path(Ok(file(UID, 0o100600)), UID).is_ok());
    let failure = check_config_path(Err(denied("no access")), UID).unwrap_err();
    assert_eq!((failure.not_found, failure.message.as_str()), (false, "no access"));
    let failure = check_config_path(Ok(link()), UID).unwrap_err();
    assert_eq!((failure.not_found, failure.message.as_str()), (false, "not a regular file"));
}

#[test]
fn save_target_must_be_free_or_trusted() {
    assert_eq!(check_save_target(b"/s", None, UID), Ok(()));
    assert_eq!(check_save_target(b"/s", Some(file(UID, 0o100600)), UID), Ok(()));
    assert_eq!(
        check_save_target(b"/s", Some(file(7, 0o100600)), UID),
        Err("refusing to write connection store to /s: owned by uid 7, not 1000".to_string())
    );
}

// ==================== LOADING ====================

#[test]
fn test_load_store_missing_file_is_empty() {
    let tmp = TempDir::new().unwrap();
    let path = tmp.path().join("connections.json");
    let loaded = finished(load_store_from(b"connections.json", UID, examined(&path)));
    assert!(loaded.store.projects.is_empty());
    assert!(loaded.warning.unwrap().starts_with("Warning: missing connection store connections.json: "));
}

#[test]
fn test_load_store_malformed_is_empty_without_panicking() {
    let action = load_store_from(b"/s", UID, LoadEvent::Read(Ok("{{{ not json".to_string())));
    assert!(matches!(&action, LoadAction::Parse(text) if text == "{{{ not json"));
    let parsed: Result<serde_json::Value, serde_json::Error> =
        serde_json::from_str("{{{ not json");
    let reason = parsed.unwrap_err().to_string();
    let loaded =
        finished(load_store_from(b"/s", UID, LoadEvent::Parsed(Err(reason.clone()))));
    assert!(loaded.store.projects.is_empty());
    assert_eq!(
        loaded.warning.unwrap(),
        format!("Warning: ignoring malformed connection store /s: {}", reason)
    );
}

#[test]
fn test_load_store_untrusted_is_empty() {
    let loaded =
        finished(load_store_from(b"/s", UID, LoadEvent::Examined(Ok(file(UID, 0o100666)))));
    assert!(loaded.store.projects.is_empty());
    assert_eq!(
        loaded.warning.unwrap(),
        "Warning: ignoring untrusted connection store /s: \
         writable by group or others (fix: chmod go-w the file)"
    );
}

#[test]
fn test_load_store_rejects_symlinked_store() {
    let loaded = finished(load_store_from(b"/s", UID, LoadEvent::Examined(Ok(link()))));
    assert!(loaded.store.projects.is_empty());
    assert_eq!(
        loaded.warning.unwrap(),
        "Warning: ignoring untrusted connection store /s: not a regular file"
    );
}

#[test]
fn directory_in_place_of_the_store_is_rejected() {
    let tmp = TempDir::new().unwrap();
    let loaded = finished(load_store_from(b"/s", UID, examined(tmp.path())));
    assert!(loaded.store.projects.is_empty());
    assert!(loaded.warning.unwrap().ends_with("not a regular file"));
}

#[test]
fn file_swapped_in_before_opening_is_rejected() {
    let fine = file(UID, 0o100600);
    assert!(matches!(
        load_store_from(b"/s", UID, LoadEvent::Examined(Ok(fine))),
        LoadAction::Open
    ));
    let loaded =
        finished(load_store_from(b"/s", UID, LoadEvent::Opened(Ok(Some(file(0, 0o100600))))));
    assert!(loaded.store.projects.is_empty());
    assert_eq!(
        loaded.warning.unwrap(),
        "Warning: ignoring untrusted connection store /s: owned by uid 0, not 1000"
    );
}

#[test]
fn trusted_store_is_loaded_as_parsed() {
    let fine = file(UID, 0o100600);
    assert!(matches!(
        load_store_from(b"/s", UID, LoadEvent::Opened(Ok(Some(fine)))),
        LoadAction::Read
    ));
    assert!(matches!(load_store_from(b"/s", UID, LoadEvent::Opened(Ok(None))), LoadAction::Read));
    let loaded = finished(load_store_from(b"/s", UID, LoadEvent::Parsed(Ok(one_project()))));
    assert_eq!(loaded.store.projects.len(), 1);
    assert_eq!(loaded.store.projects.get("/p").unwrap().server_url, "http://h:8888");
    assert_eq!(loaded.store.projects.get("/p").unwrap().token, "t");
    assert!(loaded.warning.is_none());
}

#[test]
fn failures_while_loading_are_warned_of() {
    for event in [
        LoadEvent::Examined(Err(denied("no access"))),
        LoadEvent::Opened(Err(denied("no access"))),
        LoadEvent::Read(Err(denied("no access"))),
    ] {
        let loaded = finished(load_store_from(&[0x2f, 0xff], UID, event));
        assert!(loaded.store.projects.is_empty());
        assert_eq!(
            loaded.warning.unwrap(),
            "Warning: ignoring untrusted connection store /\u{fffd}: no access"
        );
    }
    let gone = IoFailure { not_found: true, message: "gone".to_string() };
    let loaded = finished(load_store_from(b"/s", UID, LoadEvent::Opened(Err(gone))));
    assert!(loaded.store.projects.is_empty());
    assert_eq!(loaded.warning.unwrap(), "Warning: missing connection store /s: gone");
}

#[test]
fn loading_starts_by_examining_the_path() {
    let action = load_store(Ok(b"/s".to_vec()));
    assert!(matches!(&action, LoadAction::Examine(path) if path == b"/s"));
    let loaded = finished(load_store(Err(ConfigError::NoConfigDir)));
    assert!(loaded.store.projects.is_empty());
    assert_eq!(
        loaded.warning.unwrap(),
        "Warning: could not determine connection store path: \
         Could not determine config directory"
    );
}

// ==================== SAVING ====================

fn place() -> StorePlace {
    StorePlace::unix(b"/c/nb/connections.json".to_vec())
}

fn failed(event: SaveEvent) -> SaveError {
    save_store_to(&place(), UID, event).unwrap_err()
}

fn next(event: SaveEvent) -> SaveAction {
    save_store_to(&place(), UID, event).unwrap()
}

/// The two files that saving works on: modes and texts.
struct Files {
    temp: Option<(u32, String)>,
    store: Option<(u32, String)>,
}

/// Saves `text` to `place` on files kept in memory. The step after `steps`
/// others fails, if it comes to that.
fn save_in_memory(
    place: &StorePlace,
    text: &str,
    steps: usize,
    files: &mut Files,
) -> Result<(), SaveError> {
    let target = files.store.as_ref().map(|(mode, _)| file(UID, 0o100000 | mode));
    let mut event = SaveEvent::Examined(target);
    let mut taken = 0;
    loop {
        let action = save_store_to(place, UID, event)?;
        let fails = taken == steps;
        let outcome = if fails { Outcome::Failed } else { Outcome::Done };
        taken += 1;
        event = match action {
            SaveAction::CreateDir(_) => SaveEvent::CreatedDir(outcome),
            SaveAction::RestrictDir(_, _) => SaveEvent::RestrictedDir(outcome),
            SaveAction::Serialize => {
                SaveEvent::Serialized(if fails { None } else { Some(text.to_string()) })
            }
            SaveAction::CreateTemp(_, mode, text) => {
                if !fails {
                    let mode = files.temp.as_ref().map_or(mode, |(old, _)| *old);
                    files.temp = Some((mode, String::new()));
                }
                SaveEvent::CreatedTemp(outcome, text)
            }
            SaveAction::RestrictTemp(_, mode, text) => {
                if !fails {
                    files.temp.as_mut().unwrap().0 = mode;
                }
                SaveEvent::RestrictedTemp(outcome, text)
            }
            SaveAction::WriteTemp(_, text) => {
                if !fails {
                    files.temp.as_mut().unwrap().1 = text;
                }
                SaveEvent::WroteTemp(outcome)
            }
            SaveAction::Replace(_, _) => {
                if !fails {
                    files.store = files.temp.take();
                }
                SaveEvent::Replaced(outcome)
            }
            SaveAction::Finish => return Ok(()),
        };
    }
}

#[test]
fn test_save_store_refuses_untrusted_existing_target() {
    let error = failed(SaveEvent::Examined(Some(file(UID, 0o100666))));
    assert!(matches!(&error, SaveError::Plain(message) if message
        == "refusing to write connection store to /c/nb/connections.json: \
            writable by group or others (fix: chmod go-w the file)"));
}

#[test]
fn test_connect_refuses_to_overwrite_untrusted_store() {
    for meta in [file(UID, 0o100666), file(0, 0o100600), link()] {
        match failed(SaveEvent::Examined(Some(meta))) {
            SaveError::Plain(message) => {
                assert!(message.contains("refusing to write connection store"))
            }
            other => panic!("not refused: {:?}", other),
        }
    }
}

#[test]
fn saving_takes_its_steps_in_order() {
    let dir = b"/c/nb".to_vec();
    let temp = b"/c/nb/connections.json.tmp".to_vec();
    for target in [None, Some(file(UID, 0o100600))] {
        assert!(matches!(next(SaveEvent::Examined(target)), SaveAction::CreateDir(d) if d == dir));
    }
    assert!(matches!(
        next(SaveEvent::CreatedDir(Outcome::Done)),
        SaveAction::RestrictDir(d, 0o700) if d == dir
    ));
    for outcome in [Outcome::Done, Outcome::Failed] {
        assert!(matches!(next(SaveEvent::RestrictedDir(outcome)), SaveAction::Serialize));
    }
    assert!(matches!(
        next(SaveEvent::Serialized(Some("{}".to_string()))),
        SaveAction::CreateTemp(t, 0o600, text) if t == temp && text == "{}"
    ));
    assert!(matches!(
        next(SaveEvent::CreatedTemp(Outcome::Done, "{}".to_string())),
        SaveAction::RestrictTemp(t, 0o600, text) if t == temp && text == "{}"
    ));
    assert!(matches!(
        next(SaveEvent::RestrictedTemp(Outcome::Done, "{}".to_string())),
        SaveAction::WriteTemp(t, text) if t == temp && text == "{}"
    ));
    assert!(matches!(
        next(SaveEvent::WroteTemp(Outcome::Done)),
        SaveAction::Replace(t, p) if t == temp && p == b"/c/nb/connections.json"
    ));
    assert!(matches!(next(SaveEvent::Replaced(Outcome::Done)), SaveAction::Finish));
}

#[test]
fn failures_while_saving_are_reported() {
    let cases = [
        (SaveEvent::CreatedDir(Outcome::Failed), "Failed to create nb config directory"),
        (SaveEvent::Serialized(None), "Failed to serialize connection store"),
        (
            SaveEvent::CreatedTemp(Outcome::Failed, "{}".to_string()),
            "Failed to write /c/nb/connections.json.tmp",
        ),
        (
            SaveEvent::WroteTemp(Outcome::Failed),
            "Failed to write /c/nb/connections.json.tmp",
        ),
        (
            SaveEvent::Replaced(Outcome::Failed),
            "Failed to move store into place at /c/nb/connections.json",
        ),
    ];
    for (event, expected) in cases {
        match failed(event) {
            SaveError::Context(message) => assert_eq!(message, expected),
            other => panic!("unexpected: {:?}", other),
        }
    }
    assert!(matches!(
        failed(SaveEvent::RestrictedTemp(Outcome::Failed, "{}".to_string())),
        SaveError::Cause
    ));
}

#[test]
fn saving_to_the_root_is_impossible() {
    match save_store_to(&StorePlace::unix(b"/".to_vec()), UID, SaveEvent::Examined(None)) {
        Err(SaveError::Plain(message)) => {
            assert_eq!(message, "Connection store path has no parent")
        }
        other => panic!("unexpected: {:?}", other),
    }
}

#[test]
fn failed_save_keeps_the_store() {
    for steps in 0..8 {
        let mut files = Files {
            temp: Some((0o644, "left over".to_string())),
            store: Some((0o600, "old".to_string())),
        };
        let result = save_in_memory(&place(), "new", steps, &mut files);
        // Setting the directory's mode may fail, and there are seven steps.
        assert_eq!(result.is_ok(), steps == 1 || steps == 7);
        let expected = if result.is_ok() { "new" } else { "old" };
        assert_eq!(files.store, Some((0o600, expected.to_string())));
        if let Some((mode, text)) = files.temp {
            assert!(text.is_empty() || text == "left over" || mode == 0o600);
        }
    }
}

#[test]
fn parts_of_a_place_are_told_apart() {
    assert_eq!(temp_name(), "connections.json.tmp");
    assert_eq!(place().dir.unwrap(), b"/c/nb");
    assert_eq!(place().temp, b"/c/nb/connections.json.tmp");
    let bare = StorePlace::unix(b"connections.json".to_vec());
    assert_eq!(bare.dir.unwrap(), b"");
    assert_eq!(bare.temp, b"connections.json.tmp");
    let usual = store_path(None, Some(b"/c".to_vec())).unwrap().unix_path();
    let usual = StorePlace::unix(usual);
    assert_eq!(usual.path, b"/c/nb/connections.json");
    assert_ne!(usual.temp, usual.path);
}

#[test]
fn parts_of_a_place_may_come_from_the_system() {
    let native = StorePlace {
        path: br"d\connections.json".to_vec(),
        dir: Some(b"d".to_vec()),
        temp: br"d\connections.json.tmp".to_vec(),
    };
    assert!(matches!(
        save_store_to(&native, UID, SaveEvent::Examined(None)),
        Ok(SaveAction::CreateDir(dir)) if dir == b"d"
    ));
    assert!(matches!(
        save_store_to(&native, UID, SaveEvent::WroteTemp(Outcome::Done)),
        Ok(SaveAction::Replace(temp, path)) if temp == native.temp && path == native.path
    ));
}

/// The store in JSON, as far as this test needs it.
fn to_json(store: &ConnectionStore) -> String {
    let mut projects = serde_json::Map::new();
    for i in 0..store.projects.len() {
        let project = store.projects.at(i);
        let mut entry = serde_json::Map::new();
        entry.insert("server_url".to_string(), project.connection.server_url.as_str().into());
        entry.insert("token".to_string(), project.connection.token.as_str().into());
        projects.insert(project.root.clone(), entry.into());
    }
    let mut whole = serde_json::Map::new();
    whole.insert("version".to_string(), store.version.as_str().into());
    whole.insert("projects".to_string(), projects.into());
    serde_json::to_string_pretty(&whole).unwrap()
}

fn from_json(text: &str) -> ConnectionStore {
    let whole: serde_json::Value = serde_json::from_str(text).unwrap();
    let mut store = ConnectionStore::default();
    store.version = whole["version"].as_str().unwrap().to_string();
    for (root, entry) in whole["projects"].as_object().unwrap() {
        let server_url = entry["server_url"].as_str().unwrap();
        let token = entry["token"].as_str().unwrap();
        store.projects.insert(root.clone(), make_connection(server_url, token));
    }
    store
}

#[test]
fn test_store_roundtrip_via_explicit_path() {
    let tmp = TempDir::new().unwrap();
    let path = tmp.path().join("connections.json").to_str().unwrap().as_bytes().to_vec();
    let store = one_project();
    let mut files = Files { temp: None, store: None };
    save_in_memory(&StorePlace::unix(path.clone()), &to_json(&store), 7, &mut files).unwrap();

    let (mode, content) = files.store.unwrap();
    let meta = file(UID, 0o100000 | mode);
    let mut event = LoadEvent::Examined(Ok(meta));
    let loaded = loop {
        event = match load_store_from(&path, UID, event) {
            LoadAction::Examine(_) => panic!("examined twice"),
            LoadAction::Open => LoadEvent::Opened(Ok(Some(meta))),
            LoadAction::Read => LoadEvent::Read(Ok(content.clone())),
            LoadAction::Parse(text) => LoadEvent::Parsed(Ok(from_json(&text))),
            LoadAction::Finish(loaded) => break loaded,
        };
    };
    assert!(loaded.warning.is_none());
    assert_eq!(loaded.store.projects.len(), 1);
    assert_eq!(loaded.store.projects.get("/p").unwrap().server_url, "http://h:8888");
    assert_eq!(loaded.store.projects.get("/p").unwrap().token, "t");
}

#[test]
fn saved_store_is_trusted() {
    let mode = match next(SaveEvent::CreatedTemp(Outcome::Done, "{}".to_string())) {
        SaveAction::RestrictTemp(_, mode, _) => mode,
        other => panic!("unexpected: {:?}", other),
    };
    assert_eq!(mode & 0o077, 0);
    assert_eq!(check_config_meta(&file(UID, 0o100000 | mode), UID), Ok(()));
}

#[test]
fn test_status_with_malformed_store_json() {
    let parsed: Result<serde_json::Value, serde_json::Error> =
        serde_json::from_str("{{{ not valid json");
    let event = LoadEvent::Parsed(Err(parsed.unwrap_err().to_string()));
    let loaded = finished(load_store_from(b"connections.json", UID, event));
    assert!(loaded.store.projects.is_empty());
    assert!(loaded.warning.unwrap().contains("malformed connection store"));
}

#[test]
fn test_status_with_incomplete_connection_object() {
    let tmp = TempDir::new().unwrap();
    let root = tmp.path().canonicalize().unwrap();
    let content = format!(
        r#"{{"version":"2","projects":{{"{}":{{"server_url":"http://127.0.0.1:8888"}}}}}}"#,
        root.display()
    );
    let action =
        load_store_from(b"connections.json", UID, LoadEvent::Read(Ok(content.clone())));
    assert!(matches!(&action, LoadAction::Parse(text) if *text == content));
    // The text is JSON, but its one connection lacks the token.
    let value: serde_json::Value = serde_json::from_str(&content).unwrap();
    let entry = &value["projects"][root.to_str().unwrap()];
    assert_eq!(entry["server_url"].as_str(), Some("http://127.0.0.1:8888"));
    assert!(entry.get("token").is_none());
    let event = LoadEvent::Parsed(Err("missing field `token`".to_string()));
    let loaded = finished(load_store_from(b"connections.json", UID, event));
    assert!(loaded.store.projects.is_empty());
    assert_eq!(
        loaded.warning.unwrap(),
        "Warning: ignoring malformed connection store connections.json: missing field `token`"
    );
    let cwd = Directory { path: root.to_str().unwrap().as_bytes().to_vec(), canonical: None };
    assert!(Config::load(Some(cwd), &loaded.store).connection.is_none());
}
