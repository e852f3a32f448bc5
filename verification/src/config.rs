//! The connection in force in a directory, and how it is recorded.

use vstd::prelude::*;
use vstd::utf8::encode_utf8;

use crate::connection::{text_view, ConnectionView, JupyterConnection};
use crate::location::ConfigError;
use crate::path::{byte_views, components, law_starts_with_is_an_order};
use crate::store::{
    component_lists, deepest, deepest_root, depth, is_project_root, law_directory_lies_in_itself,
    law_project_root_exists, law_project_root_is_unique, lies_in, normalize_root, project_root,
    resolve_project_root, root_key, ConnectionStore, Directory, StoreView,
};
use crate::text::text_precedes;

verus! {

/// The resolved connection of a directory; `None` means that no recorded
/// project root matches.
#[derive(Debug)]
pub struct Config {
    pub connection: Option<JupyterConnection>,
}

/// What an optional connection says.
pub open spec fn connection_view(connection: Option<JupyterConnection>) -> Option<ConnectionView> {
    match connection {
        Some(c) => Some(c@),
        None => None,
    }
}

/// The connection in force in the directory with the key `cwd`.
pub open spec fn connection_in_force(store: StoreView, cwd: Seq<char>) -> Option<ConnectionView> {
    match project_root(store.projects.dom(), cwd) {
        Some(root) => Some(store.projects[root]),
        None => None,
    }
}

/// The store with `connection` recorded for `root`, or with `root` forgotten.
pub open spec fn recorded(
    store: StoreView,
    root: Seq<char>,
    connection: Option<ConnectionView>,
) -> StoreView {
    StoreView {
        projects: match connection {
            Some(c) => store.projects.insert(root, c),
            None => store.projects.remove(root),
        },
        ..store
    }
}

/// The root under which a connection made in the directory with the key `cwd`
/// is recorded: its project root, or else the directory itself.
pub open spec fn home_root(store: StoreView, cwd: Seq<char>) -> Seq<char> {
    match project_root(store.projects.dom(), cwd) {
        Some(root) => root,
        None => cwd,
    }
}

/// The store after `connection` was saved in the directory with the key `cwd`.
pub open spec fn saved(
    store: StoreView,
    cwd: Seq<char>,
    connection: Option<ConnectionView>,
) -> StoreView {
    recorded(store, home_root(store, cwd), connection)
}

/// The directory that is meant when the current one cannot be told: the empty
/// path.
pub open spec fn cwd_key(cwd: Option<Directory>) -> Seq<char> {
    match cwd {
        Some(dir) => root_key(dir),
        None => Seq::empty(),
    }
}

/// What the saved connection, or the given server and token, come to: both
/// of the latter if both are given, else what is saved.
pub open spec fn chosen_server(
    connection: Option<ConnectionView>,
    cli_server: Option<Seq<char>>,
    cli_token: Option<Seq<char>>,
) -> Option<(Seq<char>, Seq<char>)> {
    match (cli_server, cli_token) {
        (Some(server), Some(token)) => Some((server, token)),
        _ => match connection {
            Some(c) => Some((c.server_url, c.token)),
            None => None,
        },
    }
}

impl Clone for Config {
    /// A second copy, with the same connection.
    fn clone(&self) -> (copy: Self)
        ensures
            copy == *self,
    {
        match &self.connection {
            Some(connection) => Config { connection: Some(connection.clone()) },
            None => Config { connection: None },
        }
    }
}

impl Default for Config {
    /// No connection.
    fn default() -> (config: Self)
        ensures
            config.connection is None,
    {
        Config { connection: None }
    }
}

impl Config {
    /// The connection for the directory `cwd`: the one of the recorded
    /// project root that is its deepest ancestor-or-equal. Where the current
    /// directory cannot be told, the empty path stands for it. Paths are in
    /// Unix syntax; [`Config::load_at`] is for those that are not.
    pub fn load(cwd: Option<Directory>, store: &ConnectionStore) -> (config: Self)
        ensures
            connection_view(config.connection) == connection_in_force(store@, cwd_key(cwd)),
            cwd matches Some(dir) ==> connection_view(config.connection) == connection_in_force(
                store@,
                root_key(dir),
            ),
            cwd is None ==> connection_view(config.connection) == connection_in_force(
                store@,
                Seq::empty(),
            ),
    {
        match cwd {
            Some(dir) => Config::resolve_config(&dir, store),
            None => Config::resolve_config(&Directory { path: Vec::new(), canonical: None }, store),
        }
    }

    /// The connection for the directory `cwd`, copied from the store.
    pub fn resolve_config(cwd: &Directory, store: &ConnectionStore) -> (config: Self)
        ensures
            connection_view(config.connection) == connection_in_force(store@, root_key(*cwd)),
    {
        match resolve_project_root(store, cwd) {
            Some((_, connection)) => Config { connection: Some(connection.clone()) },
            None => Config { connection: None },
        }
    }

    /// Records the connection under `root`; without a connection, forgets
    /// what is recorded there.
    pub fn record(&self, root: String, store: &mut ConnectionStore)
        ensures
            final(store)@ == recorded(old(store)@, root@, connection_view(self.connection)),
    {
        match &self.connection {
            Some(connection) => {
                store.projects.insert(root, connection.clone());
            },
            None => {
                store.projects.remove(root.as_str());
            },
        }
    }

    /// Saves the connection to the store, keyed by the project root of `cwd`:
    /// inside a recorded root that entry is updated, else `cwd` itself is
    /// recorded. Without a connection the entry is removed. Paths are in Unix
    /// syntax; [`Config::save_at`] is for those that are not.
    pub fn save(&self, cwd: &Directory, store: &mut ConnectionStore)
        ensures
            final(store)@ == saved(
                old(store)@,
                root_key(*cwd),
                connection_view(self.connection),
            ),
    {
        let key = match resolve_project_root(&*store, cwd) {
            Some((root, _)) => root,
            None => normalize_root(cwd),
        };
        self.record(key, store);
    }

    /// The connection for a directory, where paths are not in Unix syntax.
    /// The directory is given by its components, `here`, and so are the
    /// store's roots, in order.
    pub fn load_at(
        here: &Vec<Vec<u8>>,
        roots: &Vec<Vec<Vec<u8>>>,
        store: &ConnectionStore,
    ) -> (config: Self)
        requires
            roots@.len() == store.projects.roots().len(),
        ensures
            connection_view(config.connection) == match deepest(
                byte_views(here@),
                component_lists(roots@),
            ) {
                Some(best) => Some(store@.projects[store.projects.roots()[best]]),
                None => None,
            },
    {
        match deepest_root(here, roots) {
            Some(best) => Config { connection: Some(store.projects.at(best).connection.clone()) },
            None => Config { connection: None },
        }
    }

    /// Saves the connection to the store, where paths are not in Unix syntax.
    /// The directory is given by its key and by its components, `here`, and
    /// the store's roots by theirs, in order. Inside a recorded root that
    /// entry is updated or removed, else the one under `key`.
    pub fn save_at(
        &self,
        key: String,
        here: &Vec<Vec<u8>>,
        roots: &Vec<Vec<Vec<u8>>>,
        store: &mut ConnectionStore,
    )
        requires
            roots@.len() == old(store).projects.roots().len(),
        ensures
            final(store)@ == recorded(
                old(store)@,
                match deepest(byte_views(here@), component_lists(roots@)) {
                    Some(best) => old(store).projects.roots()[best],
                    None => key@,
                },
                connection_view(self.connection),
            ),
    {
        let root = match deepest_root(here, roots) {
            Some(best) => store.projects.at(best).root.clone(),
            None => key,
        };
        self.record(root, store);
    }

    /// The server and token to use: those given on the command line if both
    /// are, else those of the saved connection.
    pub fn resolve_connection(
        &self,
        cli_server: Option<String>,
        cli_token: Option<String>,
    ) -> (chosen: Result<Option<(String, String)>, ConfigError>)
        ensures
            chosen is Ok,
            match chosen->Ok_0 {
                Some((server, token)) => Some((server@, token@)),
                None => None,
            } == chosen_server(
                connection_view(self.connection),
                text_view(cli_server),
                text_view(cli_token),
            ),
            cli_server is Some && cli_token is Some ==> chosen == Ok::<_, ConfigError>(
                Some((cli_server->0, cli_token->0)),
            ),
            cli_server is None || cli_token is None ==> match chosen->Ok_0 {
                Some((server, token)) => {
                    &&& self.connection is Some
                    &&& server@ == self.connection->0.server_url@
                    &&& token@ == self.connection->0.token@
                },
                None => self.connection is None,
            },
    {
        if let (Some(server), Some(token)) = (cli_server, cli_token) {
            return Ok(Some((server, token)));
        }
        if let Some(connection) = &self.connection {
            return Ok(Some((connection.server_url.clone(), connection.token.clone())));
        }
        Ok(None)
    }
}

/// What an optional connection says is what the connection says, if there is
/// one.
pub proof fn law_connection_view_says_all(connection: Option<JupyterConnection>)
    ensures
        connection_view(connection) is Some == connection is Some,
        connection matches Some(c) ==> connection_view(connection) == Some(c@),
{
}

/// Whether `root` is the nearest recorded root to the directory with the key
/// `cwd`, by the components of their paths: its components are the first ones
/// of the directory's, and every other recorded root of which that is true
/// has fewer, or as many and comes before it in order.
pub open spec fn is_nearest(store: StoreView, cwd: Seq<char>, root: Seq<char>) -> bool {
    let here = components(encode_utf8(cwd));
    let inner = components(encode_utf8(root));
    &&& store.projects.contains_key(root)
    &&& inner.is_prefix_of(here)
    &&& forall|other: Seq<char>| #[trigger]
        store.projects.contains_key(other) && components(encode_utf8(other)).is_prefix_of(here)
            && other != root ==> components(encode_utf8(other)).len() < inner.len() || (components(
            encode_utf8(other),
        ).len() == inner.len() && text_precedes(other, root))
}

/// Whether the directory with the key `cwd` lies outside all recorded roots:
/// the components of none of them are the first ones of the directory's.
pub open spec fn is_outside(store: StoreView, cwd: Seq<char>) -> bool {
    forall|root: Seq<char>| #[trigger]
        store.projects.contains_key(root) ==> !components(encode_utf8(root)).is_prefix_of(
            components(encode_utf8(cwd)),
        )
}

/// The connection of the nearest recorded root is in force in a directory,
/// and outside all recorded roots none is.
pub proof fn law_nearest_connection_is_in_force(
    store: StoreView,
    cwd: Seq<char>,
    root: Seq<char>,
)
    ensures
        is_nearest(store, cwd, root) ==> connection_in_force(store, cwd) == Some(
            store.projects[root],
        ),
        is_outside(store, cwd) ==> connection_in_force(store, cwd) is None,
{
    lemma_nearest(store, cwd, root);
}

/// Saving in a directory records or removes the nearest recorded root, and
/// outside all of them the directory itself. Nothing else changes.
pub proof fn law_save_records_the_nearest_root(
    store: StoreView,
    cwd: Seq<char>,
    root: Seq<char>,
    connection: ConnectionView,
)
    ensures
        is_nearest(store, cwd, root) || (is_outside(store, cwd) && root == cwd) ==> {
            &&& saved(store, cwd, Some(connection)).projects == store.projects.insert(
                root,
                connection,
            )
            &&& saved(store, cwd, None).projects == store.projects.remove(root)
        },
        saved(store, cwd, Some(connection)).version == store.version,
        saved(store, cwd, None).version == store.version,
{
    lemma_nearest(store, cwd, root);
}

/// The nearest recorded root of a directory is its project root.
proof fn lemma_nearest(store: StoreView, cwd: Seq<char>, root: Seq<char>)
    ensures
        is_nearest(store, cwd, root) ==> project_root(store.projects.dom(), cwd) == Some(root),
        is_outside(store, cwd) ==> project_root(store.projects.dom(), cwd) is None,
{
    let roots = store.projects.dom();
    if is_nearest(store, cwd, root) {
        assert forall|other: Seq<char>| #[trigger]
            roots.contains(other) && lies_in(cwd, other) && other != root implies depth(other)
            < depth(root) || (depth(other) == depth(root) && text_precedes(other, root)) by {
            assert(store.projects.contains_key(other));
        }
        law_project_root_is_unique(roots, cwd, root);
    }
    if is_outside(store, cwd) && project_root(roots, cwd) is Some {
        let found = choose|found: Seq<char>| is_project_root(roots, cwd, found);
        assert(store.projects.contains_key(found));
    }
}

/// Recording puts the connection under the root, or removes what is there,
/// and leaves every other project and the version as they were.
pub proof fn law_recorded_means(
    store: StoreView,
    root: Seq<char>,
    connection: Option<ConnectionView>,
    other: Seq<char>,
)
    ensures
        ({
            let after = recorded(store, root, connection);
            &&& after.version == store.version
            &&& after.projects.contains_key(root) == connection is Some
            &&& connection is Some ==> after.projects[root] == connection->0
            &&& other != root ==> after.projects.contains_key(other)
                == store.projects.contains_key(other)
            &&& other != root && store.projects.contains_key(other) ==> after.projects[other]
                == store.projects[other]
        }),
{
}

/// A directory is looked up under the key that it is recorded under, and a
/// directory that cannot be told under the empty text.
pub proof fn law_directory_is_looked_up_by_its_key(dir: Directory)
    ensures
        cwd_key(Some(dir)) == root_key(dir),
        cwd_key(None).len() == 0,
{
}

/// What was saved in a directory is what loading gives there, and in every
/// one with the same canonical path.
pub proof fn law_loading_where_it_was_saved(
    store: StoreView,
    dir: Directory,
    again: Directory,
    connection: ConnectionView,
)
    requires
        store.projects.dom().finite(),
    ensures
        ({
            let after = saved(store, root_key(dir), Some(connection));
            let same = {
                &&& dir.canonical is Some
                &&& again.canonical is Some
                &&& again.canonical->0@ == dir.canonical->0@
            };
            &&& connection_in_force(after, cwd_key(Some(dir))) == Some(connection)
            &&& same ==> connection_in_force(after, cwd_key(Some(again))) == Some(connection)
        }),
{
    law_load_gives_what_was_saved(store, root_key(dir), connection);
}

/// The command line comes first: a server and a token given there are used,
/// whatever is saved. If one of them is missing, the saved connection is used,
/// and if there is none, nothing.
pub proof fn law_command_line_comes_first(
    connection: Option<ConnectionView>,
    server: Option<Seq<char>>,
    token: Option<Seq<char>>,
)
    ensures
        server is Some && token is Some ==> chosen_server(connection, server, token) == Some(
            (server->0, token->0),
        ),
        server is None || token is None ==> {
            &&& chosen_server(connection, server, token) is Some == connection is Some
            &&& connection is Some ==> chosen_server(connection, server, token) == Some(
                (connection->0.server_url, connection->0.token),
            )
        },
{
}

/// Some connection is in force in a directory just if the directory lies in
/// a recorded root.
pub proof fn law_connected_just_inside_roots(store: StoreView, cwd: Seq<char>)
    requires
        store.projects.dom().finite(),
    ensures
        connection_in_force(store, cwd) is Some <==> exists|root: Seq<char>| #[trigger]
            store.projects.contains_key(root) && lies_in(cwd, root),
{
    if connection_in_force(store, cwd) is Some {
        let root = choose|root: Seq<char>| is_project_root(store.projects.dom(), cwd, root);
        assert(store.projects.contains_key(root) && lies_in(cwd, root));
    }
    if exists|root: Seq<char>| #[trigger]
        store.projects.contains_key(root) && lies_in(cwd, root) {
        let root = choose|root: Seq<char>| #[trigger]
            store.projects.contains_key(root) && lies_in(cwd, root);
        law_project_root_exists(store.projects.dom(), cwd, root);
    }
}

/// What was saved in a directory is in force there.
pub proof fn law_load_gives_what_was_saved(
    store: StoreView,
    cwd: Seq<char>,
    connection: ConnectionView,
)
    requires
        store.projects.dom().finite(),
    ensures
        connection_in_force(saved(store, cwd, Some(connection)), cwd) == Some(connection),
{
    let roots = store.projects.dom();
    let after = saved(store, cwd, Some(connection)).projects.dom();
    match project_root(roots, cwd) {
        Some(_) => {
            assert(after =~= roots);
        },
        None => {
            assert(after =~= roots.insert(cwd));
            law_directory_lies_in_itself(cwd);
            assert forall|other: Seq<char>| #[trigger]
                after.contains(other) && lies_in(cwd, other) && other != cwd implies false by {
                law_project_root_exists(roots, cwd, other);
            }
            assert(is_project_root(after, cwd, cwd));
            law_project_root_is_unique(after, cwd, cwd);
        },
    }
}

/// Saving in any directory of a project changes what is in force in all of
/// the project: it updates the project's entry and makes no new one.
pub proof fn law_save_updates_the_project(
    store: StoreView,
    cwd: Seq<char>,
    elsewhere: Seq<char>,
    connection: ConnectionView,
)
    requires
        project_root(store.projects.dom(), cwd) is Some,
        project_root(store.projects.dom(), elsewhere) == project_root(store.projects.dom(), cwd),
    ensures
        saved(store, cwd, Some(connection)).projects.dom() == store.projects.dom(),
        connection_in_force(saved(store, cwd, Some(connection)), elsewhere) == Some(connection),
{
    assert(saved(store, cwd, Some(connection)).projects.dom() =~= store.projects.dom());
}

/// Outside all recorded roots, saving records the directory itself.
pub proof fn law_save_records_the_directory(
    store: StoreView,
    cwd: Seq<char>,
    connection: ConnectionView,
)
    requires
        forall|root: Seq<char>| #[trigger]
            store.projects.contains_key(root) ==> !lies_in(cwd, root),
    ensures
        saved(store, cwd, Some(connection)).projects == store.projects.insert(cwd, connection),
        !store.projects.contains_key(cwd),
{
    law_directory_lies_in_itself(cwd);
    if project_root(store.projects.dom(), cwd) is Some {
        let root = choose|root: Seq<char>| is_project_root(store.projects.dom(), cwd, root);
        assert(store.projects.contains_key(root));
    }
}

/// Saving touches one entry: every other project keeps its connection, and
/// the version stays.
pub proof fn law_save_keeps_other_projects(
    store: StoreView,
    cwd: Seq<char>,
    connection: Option<ConnectionView>,
    other: Seq<char>,
)
    requires
        other != home_root(store, cwd),
    ensures
        saved(store, cwd, connection).version == store.version,
        saved(store, cwd, connection).projects.contains_key(other)
            == store.projects.contains_key(other),
        store.projects.contains_key(other) ==> saved(store, cwd, connection).projects[other]
            == store.projects[other],
{
}

/// Disconnecting removes the project's entry. If the directory lies in no
/// other recorded root, nothing is in force there afterwards.
pub proof fn law_disconnect_removes_the_project(store: StoreView, cwd: Seq<char>, root: Seq<char>)
    requires
        project_root(store.projects.dom(), cwd) == Some(root),
    ensures
        !saved(store, cwd, None).projects.contains_key(root),
        (forall|other: Seq<char>| #[trigger]
            store.projects.contains_key(other) && lies_in(cwd, other) ==> other == root)
            ==> connection_in_force(saved(store, cwd, None), cwd) is None,
{
    let after = saved(store, cwd, None).projects.dom();
    if project_root(after, cwd) is Some {
        let other = choose|other: Seq<char>| is_project_root(after, cwd, other);
        assert(after.contains(other));
        assert(store.projects.contains_key(other));
    }
}

/// Where nothing is in force, disconnecting changes nothing.
pub proof fn law_disconnect_without_connection(store: StoreView, cwd: Seq<char>)
    requires
        store.projects.dom().finite(),
        connection_in_force(store, cwd) is None,
    ensures
        saved(store, cwd, None) == store,
{
    law_directory_lies_in_itself(cwd);
    if store.projects.contains_key(cwd) {
        law_project_root_exists(store.projects.dom(), cwd, cwd);
    }
    assert(saved(store, cwd, None).projects =~= store.projects);
}

/// Where nothing was in force, disconnecting undoes connecting.
pub proof fn law_disconnect_undoes_connect(
    store: StoreView,
    cwd: Seq<char>,
    connection: ConnectionView,
)
    requires
        store.projects.dom().finite(),
        connection_in_force(store, cwd) is None,
    ensures
        saved(saved(store, cwd, Some(connection)), cwd, None) == store,
{
    let roots = store.projects.dom();
    let after = saved(store, cwd, Some(connection)).projects.dom();
    law_directory_lies_in_itself(cwd);
    assert forall|other: Seq<char>| #[trigger]
        after.contains(other) && lies_in(cwd, other) && other != cwd implies false by {
        law_project_root_exists(roots, cwd, other);
    }
    assert(is_project_root(after, cwd, cwd));
    law_project_root_is_unique(after, cwd, cwd);
    if store.projects.contains_key(cwd) {
        law_project_root_exists(roots, cwd, cwd);
    }
    assert(saved(saved(store, cwd, Some(connection)), cwd, None).projects =~= store.projects);
}

/// A subdirectory belongs to the project of its directory, unless a root is
/// recorded in between.
pub proof fn law_subdirectory_shares_the_project(
    store: StoreView,
    cwd: Seq<char>,
    sub: Seq<char>,
)
    requires
        lies_in(sub, cwd),
        forall|root: Seq<char>| #[trigger]
            store.projects.contains_key(root) && lies_in(sub, root) ==> lies_in(cwd, root),
    ensures
        project_root(store.projects.dom(), sub) == project_root(store.projects.dom(), cwd),
        connection_in_force(store, sub) == connection_in_force(store, cwd),
{
    let roots = store.projects.dom();
    assert forall|root: Seq<char>| #[trigger] roots.contains(root) implies lies_in(sub, root)
        == lies_in(cwd, root) by {
        assert(store.projects.contains_key(root));
        law_starts_with_is_an_order(
            encode_utf8(sub),
            encode_utf8(cwd),
            encode_utf8(root),
        );
    }
    assert forall|root: Seq<char>| is_project_root(roots, sub, root) == is_project_root(
        roots,
        cwd,
        root,
    ) by {}
    if project_root(roots, cwd) is Some {
        let root = choose|root: Seq<char>| is_project_root(roots, cwd, root);
        assert(is_project_root(roots, sub, root));
        law_project_root_is_unique(roots, sub, root);
    } else if project_root(roots, sub) is Some {
        let root = choose|root: Seq<char>| is_project_root(roots, sub, root);
        assert(is_project_root(roots, cwd, root));
    }
}

} // verus!
