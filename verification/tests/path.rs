//! Paths, held against those of the standard library.

use std::path::Path;

use nb_config::location::{store_dir, store_path, ConfigError, Location};
use nb_config::path::{components_start_with, join, parent, path_components};
use nb_config::store::deepest_root;
use nb_config::text::{
    bytes_to_text, compare_bytes, compare_texts, decimal_text, Standing,
};

const PATHS: [&str; 30] = [
    "", "/", "//", ".", "./", "./.", "..", "/.", "/..", "a", "a/", "a//", "/a", "//a", "/a/b",
    "/a/bc", "/a//b", "/a/./b", "/a/b/", "/a/b/.", "a/b", "./a/b", "a/./b", "a/../b", "../a",
    ".a", "a.", "/a/.b", "/a/b/..", "/caf\u{e9}/x",
];

fn std_components(path: &str) -> Vec<Vec<u8>> {
    Path::new(path)
        .components()
        .map(|c| c.as_os_str().as_encoded_bytes().to_vec())
        .collect()
}

#[test]
fn components_agree_with_std() {
    for path in PATHS {
        assert_eq!(path_components(path.as_bytes()), std_components(path), "{:?}", path);
    }
    assert_eq!(
        path_components(b"/a//./b/"),
        vec![b"/".to_vec(), b"a".to_vec(), b"b".to_vec()]
    );
}

#[test]
fn starts_with_agrees_with_std() {
    for path in PATHS {
        for base in PATHS {
            assert_eq!(
                components_start_with(
                    &path_components(path.as_bytes()),
                    &path_components(base.as_bytes())
                ),
                Path::new(path).starts_with(Path::new(base)),
                "{:?} {:?}",
                path,
                base
            );
        }
    }
}

#[test]
fn join_agrees_with_std() {
    for base in PATHS {
        for name in PATHS {
            assert_eq!(
                join(base.as_bytes(), name.as_bytes()),
                Path::new(base).join(name).into_os_string().into_encoded_bytes(),
                "{:?} {:?}",
                base,
                name
            );
        }
    }
}

#[test]
fn parent_agrees_with_std() {
    for path in PATHS {
        assert_eq!(
            parent(path.as_bytes()),
            Path::new(path).parent().map(|p| p.as_os_str().as_encoded_bytes().to_vec()),
            "{:?}",
            path
        );
    }
    assert_eq!(parent(b"/a//b"), Some(b"/a".to_vec()));
    assert_eq!(parent(b"/"), None);
    assert_eq!(parent(b""), None);
    assert_eq!(parent(b"b"), Some(b"".to_vec()));
}

#[test]
fn siblings_are_apart() {
    let proj = path_components(b"/home/user/proj");
    assert!(!components_start_with(&path_components(b"/home/user/proj2"), &proj));
    assert!(!components_start_with(&path_components(b"/home/user/proj2/x"), &proj));
    assert!(components_start_with(&path_components(b"/home/user/proj/x"), &proj));
}

#[test]
fn deepest_root_prefers_depth_then_the_last() {
    let roots: Vec<Vec<Vec<u8>>> =
        ["/a", "/a/b", "/x/y/z", "/a/b/"].iter().map(|r| path_components(r.as_bytes())).collect();
    assert_eq!(deepest_root(&path_components(b"/a/b/c"), &roots), Some(3));
    assert_eq!(deepest_root(&path_components(b"/a/c"), &roots), Some(0));
    assert_eq!(deepest_root(&path_components(b"/b"), &roots), None);
    assert_eq!(deepest_root(&path_components(b"/b"), &Vec::new()), None);
}

fn unix(place: Result<Location, ConfigError>) -> Vec<u8> {
    place.unwrap().unix_path()
}

#[test]
fn store_lives_where_it_is_told_to() {
    assert_eq!(
        unix(store_path(Some(b"/tmp/home".to_vec()), Some(b"/home/u/.config".to_vec()))),
        b"/tmp/home/connections.json"
    );
    assert_eq!(
        unix(store_path(None, Some(b"/home/u/.config".to_vec()))),
        b"/home/u/.config/nb/connections.json"
    );
    assert_eq!(
        unix(store_path(Some(Vec::new()), Some(b"/home/u/.config/".to_vec()))),
        b"/home/u/.config/nb/connections.json"
    );
    assert_eq!(unix(store_dir(None, Some(b"/c".to_vec()))), b"/c/nb");
    assert_eq!(unix(store_dir(Some(b"/h/".to_vec()), None)), b"/h/");
    let odd = vec![0x2f, 0xff, 0xfe];
    assert_eq!(unix(store_dir(Some(odd.clone()), Some(b"/c".to_vec()))), odd);
}

#[test]
fn store_is_found_by_names_on_any_system() {
    let base = br"\\?\C:\Users\u".to_vec();
    assert_eq!(
        store_path(None, Some(base.clone())),
        Ok(Location {
            base: base.clone(),
            names: vec!["nb".to_string(), "connections.json".to_string()],
        })
    );
    assert_eq!(
        store_path(Some(base.clone()), None),
        Ok(Location { base: base.clone(), names: vec!["connections.json".to_string()] })
    );
    assert_eq!(
        store_dir(Some(base.clone()), None),
        Ok(Location { base, names: Vec::new() })
    );
}

#[test]
fn store_without_a_config_dir_is_nowhere() {
    assert_eq!(store_dir(None, None), Err(ConfigError::NoConfigDir));
    assert_eq!(store_path(Some(Vec::new()), None), Err(ConfigError::NoConfigDir));
    assert_eq!(ConfigError::NoConfigDir.message(), "Could not determine config directory");
}

#[test]
fn texts_are_ordered_by_their_bytes() {
    let texts = ["", "a", "ab", "b", "\u{e9}", "\u{ffff}", "\u{10000}"];
    for (i, a) in texts.iter().enumerate() {
        for (j, b) in texts.iter().enumerate() {
            let expected = if i < j {
                Standing::Before
            } else if i == j {
                Standing::Same
            } else {
                Standing::After
            };
            assert_eq!(compare_texts(a, b), expected, "{:?} {:?}", a, b);
        }
    }
    assert_eq!(compare_bytes(&[1, 2], &[1, 2, 0]), Standing::Before);
    assert_eq!(compare_bytes(&[2], &[1, 2]), Standing::After);
}

#[test]
fn numbers_are_written_in_decimal() {
    for n in [0u32, 7, 9, 10, 42, 1000, 65534, 4294967295] {
        assert_eq!(decimal_text(n), n.to_string());
    }
}

#[test]
fn bytes_read_as_text() {
    assert_eq!(bytes_to_text("na\u{ef}ve".as_bytes()), "na\u{ef}ve");
    assert_eq!(bytes_to_text(&[0x61, 0xff, 0x62]), "a\u{fffd}b");
}
