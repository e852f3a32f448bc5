//! What the operations promise together: each law speaks of calls, of what
//! goes into them and of what comes out.

use vstd::prelude::*;
use vstd::utf8::{encode_utf8, valid_utf8};

use crate::config::{
    connection_in_force, law_connected_just_inside_roots, law_load_gives_what_was_saved, Config,
};
use crate::connection::JupyterConnection;
use crate::load::{load_store_from, LoadAction, LoadEvent};
use crate::location::{store_path, ConfigError, Location};
use crate::path::{
    components, join, law_child_is_inside, law_parent_means, law_piece_is_a_component,
    law_separator_ends_a_piece, parent, path_components, DOT, SEPARATOR,
};
use crate::save::{
    law_store_and_temp_share_a_directory, save_store_to, Outcome, SaveAction, SaveError,
    SaveEvent, StorePlace,
};
use crate::store::{
    law_key_spells_the_path, law_project_root_means, lies_in, normalize_root, resolve_project_root,
    root_key, ConnectionStore, Directory,
};
use crate::trust::{check_config_meta, law_trusted_means, FileMeta};

verus! {

/// Looking a name up in a directory adds that name, whatever it is, to the
/// directory's components and changes none of them.
pub proof fn law_join_adds_the_name(
    base: &[u8],
    name: &[u8],
    path: Vec<u8>,
    slice: &[u8],
    before: Vec<Vec<u8>>,
    after: Vec<Vec<u8>>,
)
    requires
        name@.len() > 0,
        name@ != seq![DOT],
        forall|i: int| 0 <= i < name@.len() ==> name@[i] != SEPARATOR,
        call_ensures(join, (base, name), path),
        slice@ == path@,
        call_ensures(path_components, (base,), before),
        call_ensures(path_components, (slice,), after),
    ensures
        after@.len() == before@.len() + 1,
        after@[before@.len() as int]@ == name@,
        forall|k: int| 0 <= k < before@.len() ==> (#[trigger] after@[k])@ == before@[k]@,
{
    law_child_is_inside(base@, name@);
}

/// The parent of what is looked up in a directory has the components of that
/// directory.
pub proof fn law_parent_undoes_join(
    base: &[u8],
    name: &[u8],
    path: Vec<u8>,
    slice: &[u8],
    dir: Option<Vec<u8>>,
)
    requires
        name@.len() > 0,
        name@ != seq![DOT],
        forall|i: int| 0 <= i < name@.len() ==> name@[i] != SEPARATOR,
        call_ensures(join, (base, name), path),
        slice@ == path@,
        call_ensures(parent, (slice,), dir),
    ensures
        dir is Some,
        dir->0@.is_prefix_of(path@),
        components(dir->0@) == components(base@),
{
    law_child_is_inside(base@, name@);
    law_parent_means(path@);
    assert(seq![SEPARATOR][0] == SEPARATOR);
    assert(components(path@).drop_last() =~= components(base@));
}

/// A separator at the end of a path, alone or with `.` behind it, adds
/// nothing to its components. The empty path has none, and a separator alone
/// is the root directory.
pub proof fn law_trailing_separator_adds_nothing(
    path: &[u8],
    longer: &[u8],
    before: Vec<Vec<u8>>,
    after: Vec<Vec<u8>>,
)
    requires
        call_ensures(path_components, (path,), before),
        call_ensures(path_components, (longer,), after),
        longer@ == path@.push(SEPARATOR) || longer@ == path@.push(SEPARATOR).push(DOT),
    ensures
        path@.len() > 0 ==> {
            &&& after@.len() == before@.len()
            &&& forall|k: int| 0 <= k < before@.len() ==> (#[trigger] after@[k])@ == before@[k]@
        },
        path@.len() == 0 ==> {
            &&& before@.len() == 0
            &&& after@.len() == 1
            &&& after@[0]@ == seq![SEPARATOR]
        },
{
    let n = path@.len() as int;
    law_separator_ends_a_piece(longer@, n);
    assert(longer@.take(n) =~= path@);
    if longer@.len() == n + 1 {
        assert(longer@.take(n + 1) =~= longer@);
    } else {
        assert(longer@.subrange(n + 1, n + 2) =~= seq![DOT]);
        assert(longer@.take(n + 2) =~= longer@);
        law_piece_is_a_component(longer@, n + 1, n + 2);
    }
    if n == 0 {
        assert(path@ =~= longer@.take(0));
    }
}

/// The key of a directory spells its canonical path or, where there is none,
/// the path by which it is known.
pub proof fn law_normalized_root_spells_the_path(dir: Directory, key: String)
    requires
        call_ensures(normalize_root, (&dir,), key),
    ensures
        dir.canonical matches Some(canonical) ==> (valid_utf8(canonical@) ==> encode_utf8(key@)
            == canonical@),
        dir.canonical is None && valid_utf8(dir.path@) ==> encode_utf8(key@) == dir.path@,
{
    law_key_spells_the_path(dir);
}

/// Resolving a directory finds a recorded root, with the connection recorded
/// there, whose components are the first ones of the directory's, and no
/// recorded root of which that is true has more. It finds nothing just if it
/// is true of no recorded root.
pub proof fn law_resolved_root_is_the_deepest(
    store: ConnectionStore,
    dir: Directory,
    key: String,
    found: Option<(String, &JupyterConnection)>,
)
    requires
        store.projects@.dom().finite(),
        call_ensures(normalize_root, (&dir,), key),
        call_ensures(resolve_project_root, (&store, &dir), found),
    ensures
        ({
            let here = components(encode_utf8(key@));
            match found {
                Some((root, connection)) => {
                    &&& store.projects@.contains_key(root@)
                    &&& connection@ == store.projects@[root@]
                    &&& components(encode_utf8(root@)).is_prefix_of(here)
                    &&& forall|other: Seq<char>| #[trigger]
                        store.projects@.contains_key(other) && components(
                            encode_utf8(other),
                        ).is_prefix_of(here) ==> components(encode_utf8(other)).len()
                            <= components(encode_utf8(root@)).len()
                },
                None => forall|other: Seq<char>| #[trigger]
                    store.projects@.contains_key(other) ==> !components(
                        encode_utf8(other),
                    ).is_prefix_of(here),
            }
        }),
{
    law_project_root_means(store.projects@.dom(), root_key(dir));
    assert forall|other: Seq<char>| store.projects@.contains_key(other) implies
        #[trigger] store.projects@.dom().contains(other) by {}
}

/// A directory whose path is just that of a recorded root, or below it, is
/// connected: loading there gives a connection. Elsewhere it gives none.
pub proof fn law_loading_is_connected_just_inside_roots(
    dir: Directory,
    key: String,
    store: ConnectionStore,
    config: Config,
)
    requires
        store.projects@.dom().finite(),
        call_ensures(normalize_root, (&dir,), key),
        call_ensures(Config::load, (Some(dir), &store), config),
    ensures
        config.connection is Some <==> exists|root: Seq<char>| #[trigger]
            store.projects@.contains_key(root) && components(encode_utf8(root)).is_prefix_of(
                components(encode_utf8(key@)),
            ),
{
    law_connected_just_inside_roots(store@, root_key(dir));
    if exists|root: Seq<char>| #[trigger]
        store@.projects.contains_key(root) && lies_in(root_key(dir), root) {
        let root = choose|root: Seq<char>| #[trigger]
            store@.projects.contains_key(root) && lies_in(root_key(dir), root);
        assert(store.projects@.contains_key(root));
    }
    if exists|root: Seq<char>| #[trigger]
        store.projects@.contains_key(root) && components(encode_utf8(root)).is_prefix_of(
            components(encode_utf8(key@)),
        ) {
        let root = choose|root: Seq<char>| #[trigger]
            store.projects@.contains_key(root) && components(encode_utf8(root)).is_prefix_of(
                components(encode_utf8(key@)),
            );
        assert(store@.projects.contains_key(root) && lies_in(root_key(dir), root));
    }
}

/// What is saved in a directory is what is loaded there afterwards.
pub proof fn law_loading_gives_what_was_saved(
    config: Config,
    dir: Directory,
    store: &mut ConnectionStore,
    loaded: Config,
)
    requires
        old(store).projects@.dom().finite(),
        config.connection is Some,
        call_ensures(Config::save, (&config, &dir, store), ()),
        call_ensures(Config::load, (Some(dir), &*final(store)), loaded),
    ensures
        loaded.connection is Some,
        loaded.connection->0.server_url@ == config.connection->0.server_url@,
        loaded.connection->0.token@ == config.connection->0.token@,
        loaded.connection->0@ == config.connection->0@,
        final(store).version@ == old(store).version@,
{
    law_load_gives_what_was_saved(old(store)@, root_key(dir), config.connection->0@);
    assert(connection_in_force(final(store)@, root_key(dir)) == Some(config.connection->0@));
}

/// A server and a token given on the command line are used, whatever is
/// saved. If one is missing, what is saved is used, and else nothing.
pub proof fn law_given_server_is_used(
    config: Config,
    server: Option<String>,
    token: Option<String>,
    chosen: Result<Option<(String, String)>, ConfigError>,
)
    requires
        call_ensures(Config::resolve_connection, (&config, server, token), chosen),
    ensures
        chosen is Ok,
        server is Some && token is Some ==> chosen->Ok_0 == Some((server->0, token->0)),
        server is None || token is None ==> match chosen->Ok_0 {
            Some((s, t)) => {
                &&& config.connection is Some
                &&& s@ == config.connection->0.server_url@
                &&& t@ == config.connection->0.token@
            },
            None => config.connection is None,
        },
{
}

/// The store's file is called `connections.json`. It lies in the directory
/// set for the purpose, if one is set that is not empty, and else in `nb` in
/// the user's configuration directory.
pub proof fn law_store_path_is_where_it_was_set(
    config_home: Option<Vec<u8>>,
    config_dir: Option<Vec<u8>>,
    path: Result<Location, ConfigError>,
)
    requires
        call_ensures(store_path, (config_home, config_dir), path),
    ensures
        ({
            let set = config_home is Some && config_home->0@.len() > 0;
            &&& path is Ok <==> set || config_dir is Some
            &&& path is Ok ==> path->Ok_0.names@.last()@ == "connections.json"@
            &&& set ==> path->Ok_0.base@ == config_home->0@ && path->Ok_0.names@.len() == 1
            &&& !set && config_dir is Some ==> {
                &&& path->Ok_0.base@ == config_dir->0@
                &&& path->Ok_0.names@.len() == 2
                &&& path->Ok_0.names@[0]@ == "nb"@
            }
        }),
{
}

/// A file passes the trust check just if it is a regular file and, where
/// files have owners, belongs to the user and can be written neither by the
/// group nor by others.
pub proof fn law_trust_check_passes_own_files(
    meta: FileMeta,
    uid: u32,
    checked: Result<(), String>,
)
    requires
        call_ensures(check_config_meta, (&meta, uid), checked),
    ensures
        checked is Ok <==> meta.is_file && (meta.owner matches Some(owner) ==> owner.uid == uid
            && owner.mode & 0o020 == 0 && owner.mode & 0o002 == 0),
{
    law_trusted_means(meta, uid);
}

/// Loading hands on all that it is given: what was read is parsed, and what
/// was parsed is the store, with nothing to warn of.
pub proof fn law_loading_hands_on_what_it_is_given(
    path: &[u8],
    uid: u32,
    text: String,
    parsing: LoadAction,
    store: ConnectionStore,
    done: LoadAction,
)
    requires
        call_ensures(load_store_from, (path, uid, LoadEvent::Read(Ok(text))), parsing),
        call_ensures(load_store_from, (path, uid, LoadEvent::Parsed(Ok(store))), done),
    ensures
        parsing matches LoadAction::Parse(t) && t@ == text@,
        done matches LoadAction::Finish(loaded) && loaded.store@ == store@ && loaded.warning is None,
{
}

/// Whatever goes wrong while loading, loading ends, the store is empty, and
/// there is a warning.
pub proof fn law_bad_stores_count_as_empty(
    path: &[u8],
    uid: u32,
    event: LoadEvent,
    next: LoadAction,
)
    requires
        call_ensures(load_store_from, (path, uid, event), next),
        match event {
            LoadEvent::Examined(lstat) => lstat matches Ok(meta) ==> !meta.is_file,
            LoadEvent::Opened(opened) => opened matches Ok(meta) ==> (meta matches Some(m)
                && !m.is_file),
            LoadEvent::Read(contents) => contents is Err,
            LoadEvent::Parsed(parsed) => parsed is Err,
        },
    ensures
        next is Finish,
        next->Finish_0.store.version@.len() == 0,
        forall|root: Seq<char>| !#[trigger] next->Finish_0.store.projects@.contains_key(root),
        next->Finish_0.warning is Some,
{
}

/// The directory that saving creates is the one in which the store lies, and
/// the text is written, whole, beside the store before it is moved to its
/// path.
pub proof fn law_saving_goes_through_the_stores_directory(
    path: Vec<u8>,
    uid: u32,
    text: String,
    place: StorePlace,
    first: Result<SaveAction, SaveError>,
    write: Result<SaveAction, SaveError>,
    last: Result<SaveAction, SaveError>,
)
    requires
        components(path@).len() > 0,
        components(path@).last() != seq![SEPARATOR],
        call_ensures(StorePlace::unix, (path,), place),
        call_ensures(save_store_to, (&place, uid, SaveEvent::Examined(None)), first),
        call_ensures(
            save_store_to,
            (&place, uid, SaveEvent::RestrictedTemp(Outcome::Done, text)),
            write,
        ),
        call_ensures(save_store_to, (&place, uid, SaveEvent::WroteTemp(Outcome::Done)), last),
    ensures
        first matches Ok(SaveAction::CreateDir(dir)) && dir@.is_prefix_of(path@) && components(dir@)
            == components(path@).drop_last(),
        write matches Ok(SaveAction::WriteTemp(temp, t)) && t@ == text@ && components(temp@)
            == components(path@).drop_last().push(encode_utf8("connections.json"@ + ".tmp"@)),
        last matches Ok(SaveAction::Replace(temp, target)) && temp@ == write->Ok_0->WriteTemp_0@
            && target@ == path@,
{
    law_store_and_temp_share_a_directory(path@);
}

} // verus!
