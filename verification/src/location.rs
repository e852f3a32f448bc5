//! Where the connection store lives.

use vstd::prelude::*;
use vstd::utf8::encode_utf8;

use crate::path::{
    components, copy_bytes, join, joined, law_child_is_inside, law_parent_exists,
    law_parent_of_child, parent_of, path_starts_with, DOT, SEPARATOR,
};

verus! {

/// The store's directory in the user's configuration directory.
pub const STORE_DIR_NAME: &'static str = "nb";

/// The store's file in its directory.
pub const STORE_FILE_NAME: &'static str = "connections.json";

/// Why a configuration could not be found.
#[derive(Clone, Copy, Debug, PartialEq, Eq, Structural)]
pub enum ConfigError {
    NoConfigDir,
}

impl ConfigError {
    /// The error in words.
    pub open spec fn words(self) -> Seq<char> {
        "Could not determine config directory"@
    }

    /// The error in words.
    pub fn message(&self) -> (text: String)
        ensures
            text@ == self.words(),
    {
        "Could not determine config directory".to_owned()
    }
}

/// A place in the file system: what is reached from `base` by the names, one
/// after the other. How they make up a path is for the system to say.
#[derive(Debug, PartialEq, Eq)]
pub struct Location {
    pub base: Vec<u8>,
    pub names: Vec<String>,
}

/// What a [`Location`] says.
#[verifier::ext_equal]
pub struct LocationView {
    pub base: Seq<u8>,
    pub names: Seq<Seq<char>>,
}

impl View for Location {
    type V = LocationView;

    open spec fn view(&self) -> LocationView {
        LocationView {
            base: self.base@,
            names: self.names@.map_values(|name: String| name@),
        }
    }
}

impl LocationView {
    /// What `name` names in this place.
    pub open spec fn child(self, name: Seq<char>) -> LocationView {
        LocationView { names: self.names.push(name), ..self }
    }
}

/// The path of a place, in Unix syntax.
pub open spec fn unix_path_of(place: LocationView) -> Seq<u8>
    decreases place.names.len(),
{
    if place.names.len() == 0 {
        place.base
    } else {
        joined(
            unix_path_of(LocationView { names: place.names.drop_last(), ..place }),
            encode_utf8(place.names.last()),
        )
    }
}

impl Location {
    /// The path of this place, in Unix syntax.
    pub fn unix_path(&self) -> (path: Vec<u8>)
        ensures
            path@ == unix_path_of(self@),
    {
        let mut path = copy_bytes(self.base.as_slice());
        let mut i: usize = 0;
        while i < self.names.len()
            invariant
                i <= self.names.len(),
                path@ == unix_path_of(
                    (LocationView { names: self@.names.take(i as int), ..self@ }),
                ),
            decreases self.names.len() - i,
        {
            path = join(path.as_slice(), self.names[i].as_str().as_bytes());
            i += 1;
            assert(self@.names.take(i as int).drop_last() =~= self@.names.take(i - 1));
        }
        assert(self@.names.take(i as int) =~= self@.names);
        path
    }
}

/// The store's directory: `config_home`, the directory set for the purpose,
/// unless it is missing or empty; else the one named for the store in
/// `config_dir`, the user's configuration directory.
pub open spec fn store_dir_of(
    config_home: Option<Seq<u8>>,
    config_dir: Option<Seq<u8>>,
) -> Option<LocationView> {
    if config_home matches Some(home) && home.len() > 0 {
        Some(LocationView { base: config_home->0, names: Seq::empty() })
    } else {
        match config_dir {
            Some(dir) => Some(LocationView { base: dir, names: seq![STORE_DIR_NAME@] }),
            None => None,
        }
    }
}

/// The store's file.
pub open spec fn store_path_of(
    config_home: Option<Seq<u8>>,
    config_dir: Option<Seq<u8>>,
) -> Option<LocationView> {
    match store_dir_of(config_home, config_dir) {
        Some(dir) => Some(dir.child(STORE_FILE_NAME@)),
        None => None,
    }
}

/// The bytes of an optional byte string.
pub open spec fn bytes_view(bytes: Option<Vec<u8>>) -> Option<Seq<u8>> {
    match bytes {
        Some(b) => Some(b@),
        None => None,
    }
}

/// The directory that holds the store: `config_home` when set, else the
/// user's configuration directory plus `nb`. It fails where there is neither.
pub fn store_dir(config_home: Option<Vec<u8>>, config_dir: Option<Vec<u8>>) -> (dir: Result<
    Location,
    ConfigError,
>)
    ensures
        match dir {
            Ok(d) => store_dir_of(bytes_view(config_home), bytes_view(config_dir)) == Some(d@),
            Err(_) => store_dir_of(bytes_view(config_home), bytes_view(config_dir)) is None,
        },
        config_home matches Some(home) ==> home@.len() > 0 ==> (dir matches Ok(d) && unix_path_of(
            d@,
        ) == home@),
        (config_home matches Some(home) && home@.len() > 0) ==> (dir matches Ok(d) && d.base@
            == config_home->0@ && d.names@.len() == 0),
        (config_home matches Some(home) ==> home@.len() == 0) ==> match config_dir {
            Some(base) => {
                &&& dir is Ok
                &&& dir->Ok_0.base@ == base@
                &&& dir->Ok_0.names@.len() == 1
                &&& dir->Ok_0.names@[0]@ == "nb"@
            },
            None => dir == Err::<Location, ConfigError>(ConfigError::NoConfigDir),
        },
{
    if let Some(home) = config_home {
        if home.len() > 0 {
            return Ok(Location { base: home, names: Vec::new() });
        }
    }
    match config_dir {
        Some(base) => Ok(Location { base, names: vec![STORE_DIR_NAME.to_owned()] }),
        None => Err(ConfigError::NoConfigDir),
    }
}

/// The file that holds the store, in the directory that [`store_dir`] gives.
pub fn store_path(config_home: Option<Vec<u8>>, config_dir: Option<Vec<u8>>) -> (path: Result<
    Location,
    ConfigError,
>)
    ensures
        match path {
            Ok(p) => store_path_of(bytes_view(config_home), bytes_view(config_dir)) == Some(p@),
            Err(_) => store_path_of(bytes_view(config_home), bytes_view(config_dir)) is None,
        },
        (config_home matches Some(home) && home@.len() > 0) ==> (path matches Ok(p) && p.base@
            == config_home->0@ && p.names@.len() == 1),
        (config_home matches Some(home) ==> home@.len() == 0) ==> match config_dir {
            Some(base) => {
                &&& path is Ok
                &&& path->Ok_0.base@ == base@
                &&& path->Ok_0.names@.len() == 2
                &&& path->Ok_0.names@[0]@ == "nb"@
            },
            None => path == Err::<Location, ConfigError>(ConfigError::NoConfigDir),
        },
        path matches Ok(p) ==> p.names@.last()@ == "connections.json"@,
{
    match store_dir(config_home, config_dir) {
        Ok(dir) => {
            let mut path = dir;
            path.names.push(STORE_FILE_NAME.to_owned());
            Ok(path)
        },
        Err(error) => Err(error),
    }
}

/// A place is its base and its names, and the path of a name in it is that
/// name looked up in its own path.
pub proof fn law_place_is_reached_by_names(
    place: Location,
    base: Seq<u8>,
    names: Seq<Seq<char>>,
    name: Seq<char>,
)
    ensures
        place@.base == place.base@,
        place@.names.len() == place.names@.len(),
        forall|i: int|
            0 <= i < place.names@.len() ==> #[trigger] place@.names[i] == place.names@[i]@,
        unix_path_of((LocationView { base, names: Seq::empty() })) == base,
        unix_path_of((LocationView { base, names: names.push(name) })) == joined(
            unix_path_of((LocationView { base, names })),
            encode_utf8(name),
        ),
{
    assert(names.push(name).drop_last() =~= names);
}

/// The store lies in the directory set for the purpose, if one is set that is
/// not empty, and else below the user's configuration directory. Without
/// either it lies nowhere.
pub proof fn law_store_is_where_it_was_set(
    config_home: Option<Seq<u8>>,
    config_dir: Option<Seq<u8>>,
)
    ensures
        ({
            let set = config_home is Some && config_home->0.len() > 0;
            let place = store_path_of(config_home, config_dir);
            &&& place is Some <==> set || config_dir is Some
            &&& set ==> place->0.base == config_home->0 && place->0.names
                == seq!["connections.json"@]
            &&& !set && config_dir is Some ==> place->0.base == config_dir->0 && place->0.names
                == seq!["nb"@, "connections.json"@]
            &&& place is Some ==> store_dir_of(config_home, config_dir) == Some(
                LocationView { base: place->0.base, names: place->0.names.drop_last() },
            )
            &&& place is None ==> store_dir_of(config_home, config_dir) is None
        }),
{
    if let Some(dir) = store_dir_of(config_home, config_dir) {
        let place = store_path_of(config_home, config_dir)->0;
        assert(place.names.drop_last() =~= dir.names);
        if config_home is Some && config_home->0.len() > 0 {
            assert(place.names =~= seq!["connections.json"@]);
        } else {
            assert(place.names =~= seq!["nb"@, "connections.json"@]);
        }
    }
}

/// An optional byte string is read as its bytes, if there is one.
pub proof fn law_bytes_view_says_all(bytes: Option<Vec<u8>>)
    ensures
        bytes_view(bytes) is Some == bytes is Some,
        bytes matches Some(b) ==> bytes_view(bytes) == Some(b@),
{
}

/// The store's file name is an ordinary one.
pub(crate) proof fn lemma_store_file_name()
    ensures
        encode_utf8(STORE_FILE_NAME@).len() == 16,
        forall|i: int|
            0 <= i < encode_utf8(STORE_FILE_NAME@).len() ==> encode_utf8(STORE_FILE_NAME@)[i]
                != SEPARATOR,
{
    reveal_strlit("connections.json");
    vstd::utf8::is_ascii_chars_encode_utf8(STORE_FILE_NAME@);
}

/// In Unix syntax, the store's file lies in the store's directory, which is
/// the one that is made when it is saved.
pub proof fn law_store_lies_in_its_dir(config_home: Option<Seq<u8>>, config_dir: Option<Seq<u8>>)
    requires
        store_dir_of(config_home, config_dir) is Some,
    ensures
        ({
            let dir = unix_path_of(store_dir_of(config_home, config_dir)->0);
            let path = unix_path_of(store_path_of(config_home, config_dir)->0);
            &&& store_path_of(config_home, config_dir) is Some
            &&& path == joined(dir, encode_utf8(STORE_FILE_NAME@))
            &&& path_starts_with(path, dir)
            &&& components(path) == components(dir).push(encode_utf8(STORE_FILE_NAME@))
            &&& parent_of(path) is Some
            &&& components(parent_of(path)->0) == components(dir)
        }),
{
    let place = store_dir_of(config_home, config_dir)->0;
    let dir = unix_path_of(place);
    let path = unix_path_of(place.child(STORE_FILE_NAME@));
    let name = encode_utf8(STORE_FILE_NAME@);
    assert(seq![DOT].len() == 1);
    assert(place.child(STORE_FILE_NAME@).names.drop_last() =~= place.names);
    lemma_store_file_name();
    law_child_is_inside(dir, name);
    law_parent_exists(path);
    law_parent_of_child(dir, name, parent_of(path)->0);
}

} // verus!
