//! The connection store, and how the project of a directory is found in it.

use vstd::prelude::*;
use vstd::utf8::{encode_utf8, valid_utf8};

use crate::connection::{ConnectionView, JupyterConnection};
use crate::path::{
    byte_views, components, components_start_with, law_starts_with_is_an_order, path_components,
    path_starts_with,
};
use crate::projects::ProjectMap;
use crate::text::{
    bytes_to_text, law_text_order, law_text_reads_back, lossy_utf8, read_as_text, text_precedes,
};

verus! {

/// Connections keyed by the project root where the user last connected.
#[derive(Debug)]
pub struct ConnectionStore {
    pub version: String,
    pub projects: ProjectMap,
}

/// What a [`ConnectionStore`] says.
#[verifier::ext_equal]
pub struct StoreView {
    pub version: Seq<char>,
    pub projects: Map<Seq<char>, ConnectionView>,
}

/// What the empty store says.
pub open spec fn empty_store() -> StoreView {
    StoreView { version: Seq::empty(), projects: Map::empty() }
}

/// The empty store has no version and no projects.
pub proof fn law_empty_store_says_nothing()
    ensures
        empty_store().version.len() == 0,
        forall|root: Seq<char>| !#[trigger] empty_store().projects.contains_key(root),
{
}

impl View for ConnectionStore {
    type V = StoreView;

    open spec fn view(&self) -> StoreView {
        StoreView { version: self.version@, projects: self.projects@ }
    }
}

/// What a store says leaves nothing out: it is its version and its projects.
pub proof fn law_store_says_all(a: ConnectionStore, b: ConnectionStore)
    ensures
        a@ == b@ <==> a.version@ == b.version@ && a.projects@ == b.projects@,
        a@.projects == a.projects@,
        a@.version == a.version@,
{
}

impl Default for ConnectionStore {
    /// The empty store.
    fn default() -> (store: Self)
        ensures
            store@ == empty_store(),
            store.version@.len() == 0,
            store.projects@ == Map::<Seq<char>, ConnectionView>::empty(),
    {
        ConnectionStore { version: String::new(), projects: ProjectMap::new() }
    }
}

/// A directory: the path by which it is known, and its canonical path, free
/// of symbolic links, if the system could tell it.
#[derive(Debug)]
pub struct Directory {
    pub path: Vec<u8>,
    pub canonical: Option<Vec<u8>>,
}

/// The path that stands for a directory: the canonical one if there is one.
pub open spec fn best_path(dir: Directory) -> Seq<u8> {
    match dir.canonical {
        Some(canonical) => canonical@,
        None => dir.path@,
    }
}

/// The store key of a directory.
pub open spec fn root_key(dir: Directory) -> Seq<char> {
    read_as_text(best_path(dir))
}

/// The key under which a project root is recorded: its canonical path, so
/// that a root recorded through a link is found again from the directory
/// itself. Where there is none, the path as it is.
pub fn normalize_root(dir: &Directory) -> (key: String)
    ensures
        key@ == root_key(*dir),
{
    match &dir.canonical {
        Some(canonical) => bytes_to_text(canonical.as_slice()),
        None => bytes_to_text(dir.path.as_slice()),
    }
}

/// The key of a directory spells its canonical path or, where there is none,
/// the path by which it is known. A path that is not UTF-8 is read with
/// replacements.
pub proof fn law_key_spells_the_path(dir: Directory)
    ensures
        ({
            let path = if dir.canonical is Some {
                dir.canonical->0@
            } else {
                dir.path@
            };
            &&& valid_utf8(path) ==> encode_utf8(root_key(dir)) == path
            &&& !valid_utf8(path) ==> root_key(dir) == lossy_utf8(path)
        }),
{
    law_text_reads_back(Seq::empty(), best_path(dir));
}

/// A directory has one key, through whatever links it is reached.
pub proof fn law_links_share_a_key(dir: Directory, link: Directory)
    requires
        dir.canonical is Some,
        link.canonical is Some,
        dir.canonical->0@ == link.canonical->0@,
    ensures
        root_key(dir) == root_key(link),
{
}

/// A key is its own key: the directory at the path that a key spells has that
/// key.
pub proof fn law_normalizing_again_changes_nothing(dir: Directory, again: Directory)
    requires
        best_path(again) == encode_utf8(root_key(dir)),
    ensures
        root_key(again) == root_key(dir),
{
    vstd::utf8::encode_utf8_valid_utf8(root_key(dir));
    vstd::utf8::encode_utf8_decode_utf8(root_key(dir));
}

/// Whether `root` is `cwd` or an ancestor of it.
pub open spec fn lies_in(cwd: Seq<char>, root: Seq<char>) -> bool {
    path_starts_with(encode_utf8(cwd), encode_utf8(root))
}

/// A directory lies in a root just if the first components of its path are
/// those of the root's, byte for byte.
pub proof fn law_lies_in_means(cwd: Seq<char>, root: Seq<char>)
    ensures
        lies_in(cwd, root) <==> components(encode_utf8(root)).is_prefix_of(
            components(encode_utf8(cwd)),
        ),
        depth(root) == components(encode_utf8(root)).len(),
{
}

/// A directory lies in itself.
pub proof fn law_directory_lies_in_itself(cwd: Seq<char>)
    ensures
        lies_in(cwd, cwd),
{
    law_starts_with_is_an_order(encode_utf8(cwd), encode_utf8(cwd), encode_utf8(cwd));
}

/// How many components a root has.
pub open spec fn depth(root: Seq<char>) -> nat {
    components(encode_utf8(root)).len()
}

/// Whether `root` is the project root of `cwd`: of the recorded roots that
/// `cwd` lies in, the deepest. Roots can be equally deep only if they are
/// spellings of one path; then the last in order counts.
pub open spec fn is_project_root(roots: Set<Seq<char>>, cwd: Seq<char>, root: Seq<char>) -> bool {
    &&& roots.contains(root)
    &&& lies_in(cwd, root)
    &&& forall|other: Seq<char>| #[trigger]
        roots.contains(other) && lies_in(cwd, other) && other != root ==> depth(other) < depth(root)
            || (depth(other) == depth(root) && text_precedes(other, root))
}

/// The project root of `cwd`, if it has one.
pub open spec fn project_root(roots: Set<Seq<char>>, cwd: Seq<char>) -> Option<Seq<char>> {
    if exists|root: Seq<char>| is_project_root(roots, cwd, root) {
        Some(choose|root: Seq<char>| is_project_root(roots, cwd, root))
    } else {
        None
    }
}

/// A directory has at most one project root.
pub proof fn law_project_root_is_unique(roots: Set<Seq<char>>, cwd: Seq<char>, root: Seq<char>)
    requires
        is_project_root(roots, cwd, root),
    ensures
        project_root(roots, cwd) == Some(root),
{
    let found = choose|root: Seq<char>| is_project_root(roots, cwd, root);
    assert(roots.contains(found) && roots.contains(root));
    law_text_order(found, root, found);
}

/// A root that a directory does not lie in does not matter to it: whether it
/// is recorded changes nothing about the directory's project root.
pub proof fn law_unrelated_root_does_not_matter(
    a: Set<Seq<char>>,
    b: Set<Seq<char>>,
    cwd: Seq<char>,
    root: Seq<char>,
)
    requires
        !lies_in(cwd, root),
        a.remove(root) == b.remove(root),
    ensures
        project_root(a, cwd) == project_root(b, cwd),
{
    assert forall|other: Seq<char>|
        #![trigger a.contains(other)]
        #![trigger b.contains(other)]
        other != root implies a.contains(other) == b.contains(other) by {
        assert(b.remove(root).contains(other) == b.contains(other));
    }
    if project_root(a, cwd) is Some {
        let found = choose|found: Seq<char>| is_project_root(a, cwd, found);
        assert(is_project_root(b, cwd, found));
        law_project_root_is_unique(b, cwd, found);
    } else if project_root(b, cwd) is Some {
        let found = choose|found: Seq<char>| is_project_root(b, cwd, found);
        assert(is_project_root(a, cwd, found));
    }
}

/// The nearest root wins: the project root of a directory lies in every
/// recorded root that the directory lies in.
pub proof fn law_nearest_root_wins(
    roots: Set<Seq<char>>,
    cwd: Seq<char>,
    root: Seq<char>,
    other: Seq<char>,
)
    requires
        project_root(roots, cwd) == Some(root),
        roots.contains(other),
        lies_in(cwd, other),
    ensures
        roots.contains(root),
        lies_in(cwd, root),
        lies_in(root, other),
        depth(other) <= depth(root),
{
    let here = components(encode_utf8(cwd));
    let inner = components(encode_utf8(root));
    let outer = components(encode_utf8(other));
    assert(is_project_root(roots, cwd, root));
    assert(outer.len() <= inner.len());
    assert forall|k: int| 0 <= k < outer.len() implies outer[k] == inner[k] by {
        assert(outer[k] == here[k]);
        assert(inner[k] == here[k]);
    }
    assert(outer =~= inner.subrange(0, outer.len() as int));
}

/// The project root of a directory is a recorded root whose components are
/// the first ones of the directory's. No recorded root of which that is true
/// has more of them, and of those that have as many it is the last in order.
/// There is none just if it is true of no recorded root.
pub proof fn law_project_root_means(roots: Set<Seq<char>>, cwd: Seq<char>)
    requires
        roots.finite(),
    ensures
        ({
            let here = components(encode_utf8(cwd));
            match project_root(roots, cwd) {
                Some(root) => {
                    &&& roots.contains(root)
                    &&& components(encode_utf8(root)).is_prefix_of(here)
                    &&& forall|other: Seq<char>| #[trigger]
                        roots.contains(other) && components(encode_utf8(other)).is_prefix_of(here)
                            && other != root ==> {
                            let inner = components(encode_utf8(root)).len();
                            let outer = components(encode_utf8(other)).len();
                            outer < inner || (outer == inner && text_precedes(other, root))
                        }
                },
                None => forall|other: Seq<char>| #[trigger]
                    roots.contains(other) ==> !components(encode_utf8(other)).is_prefix_of(here),
            }
        }),
{
    if project_root(roots, cwd) is None {
        assert forall|other: Seq<char>| #[trigger] roots.contains(other) implies !components(
            encode_utf8(other),
        ).is_prefix_of(components(encode_utf8(cwd))) by {
            if lies_in(cwd, other) {
                law_project_root_exists(roots, cwd, other);
            }
        }
    }
}

/// Of the roots that a directory lies in, equally deep ones name the same
/// path.
pub proof fn law_equally_deep_roots_are_one(cwd: Seq<char>, a: Seq<char>, b: Seq<char>)
    requires
        lies_in(cwd, a),
        lies_in(cwd, b),
        depth(a) == depth(b),
    ensures
        components(encode_utf8(a)) == components(encode_utf8(b)),
{
}

/// A directory that lies in some recorded root has a project root.
pub proof fn law_project_root_exists(roots: Set<Seq<char>>, cwd: Seq<char>, root: Seq<char>)
    requires
        roots.finite(),
        roots.contains(root),
        lies_in(cwd, root),
    ensures
        project_root(roots, cwd) is Some,
    decreases roots.len(),
{
    let others = roots.remove(root);
    if exists|other: Seq<char>| #[trigger] others.contains(other) && lies_in(cwd, other) {
        let other = choose|other: Seq<char>| #[trigger]
            others.contains(other) && lies_in(cwd, other);
        law_project_root_exists(others, cwd, other);
        let best = choose|root: Seq<char>| is_project_root(others, cwd, root);
        law_text_order(best, root, best);
        let deepest = if depth(best) < depth(root) || (depth(best) == depth(root)
            && text_precedes(best, root)) {
            root
        } else {
            best
        };
        assert forall|other: Seq<char>| #[trigger]
            roots.contains(other) && lies_in(cwd, other) && other != deepest implies depth(other)
            < depth(deepest) || (depth(other) == depth(deepest) && text_precedes(other, deepest)) by {
            if other != root {
                assert(others.contains(other));
                law_text_order(other, best, root);
            }
        }
        assert(is_project_root(roots, cwd, deepest));
    } else {
        assert forall|other: Seq<char>| #[trigger]
            roots.contains(other) && lies_in(cwd, other) && other != root implies depth(other)
            < depth(root) by {
            assert(others.contains(other));
        }
        assert(is_project_root(roots, cwd, root));
    }
}

/// The components of several paths.
pub open spec fn component_lists(paths: Seq<Vec<Vec<u8>>>) -> Seq<Seq<Seq<u8>>> {
    paths.map_values(|path: Vec<Vec<u8>>| byte_views(path@))
}

/// Whether the directory with the components `cwd` belongs to the root with
/// the number `best`: of the roots that `cwd` starts with the deepest, and of
/// equally deep ones the last.
pub open spec fn is_deepest(cwd: Seq<Seq<u8>>, roots: Seq<Seq<Seq<u8>>>, best: int) -> bool {
    &&& 0 <= best < roots.len()
    &&& roots[best].is_prefix_of(cwd)
    &&& forall|k: int|
        0 <= k < roots.len() && (#[trigger] roots[k]).is_prefix_of(cwd) ==> roots[k].len()
            < roots[best].len() || (roots[k].len() == roots[best].len() && k <= best)
}

/// The number of the root that the directory with the components `cwd`
/// belongs to, if there is one.
pub open spec fn deepest(cwd: Seq<Seq<u8>>, roots: Seq<Seq<Seq<u8>>>) -> Option<int> {
    if exists|best: int| is_deepest(cwd, roots, best) {
        Some(choose|best: int| is_deepest(cwd, roots, best))
    } else {
        None
    }
}

/// A directory belongs to one root at most.
pub proof fn law_deepest_is_unique(cwd: Seq<Seq<u8>>, roots: Seq<Seq<Seq<u8>>>, best: int)
    requires
        is_deepest(cwd, roots, best),
    ensures
        deepest(cwd, roots) == Some(best),
{
}

/// Where some root holds the directory, one of them is the deepest.
proof fn lemma_deepest_exists(cwd: Seq<Seq<u8>>, roots: Seq<Seq<Seq<u8>>>, k: int)
    requires
        0 <= k < roots.len(),
        roots[k].is_prefix_of(cwd),
    ensures
        exists|best: int| is_deepest(cwd, roots, best),
    decreases roots.len(),
{
    let last = roots.len() - 1;
    let rest = roots.drop_last();
    if exists|i: int| 0 <= i < rest.len() && (#[trigger] rest[i]).is_prefix_of(cwd) {
        let i = choose|i: int| 0 <= i < rest.len() && (#[trigger] rest[i]).is_prefix_of(cwd);
        lemma_deepest_exists(cwd, rest, i);
        let b = choose|b: int| is_deepest(cwd, rest, b);
        let best = if roots[last].is_prefix_of(cwd) && rest[b].len() <= roots[last].len() {
            last
        } else {
            b
        };
        assert forall|n: int|
            0 <= n < roots.len() && (#[trigger] roots[n]).is_prefix_of(cwd) implies roots[n].len()
            < roots[best].len() || (roots[n].len() == roots[best].len() && n <= best) by {
            if n < last {
                assert(rest[n] == roots[n]);
            }
        }
        assert(is_deepest(cwd, roots, best));
    } else {
        assert forall|n: int| 0 <= n < last implies !(#[trigger] roots[n]).is_prefix_of(cwd) by {
            assert(rest[n] == roots[n]);
        }
        assert(is_deepest(cwd, roots, last));
    }
}

/// The root that a directory belongs to, by components, holds the directory.
/// No root that holds it has more components, and of those with as many it
/// is the last. There is none just if no root holds the directory.
pub proof fn law_deepest_means(cwd: Seq<Seq<u8>>, roots: Seq<Seq<Seq<u8>>>)
    ensures
        match deepest(cwd, roots) {
            Some(best) => {
                &&& 0 <= best < roots.len()
                &&& roots[best].is_prefix_of(cwd)
                &&& forall|k: int|
                    0 <= k < roots.len() && (#[trigger] roots[k]).is_prefix_of(cwd)
                        ==> roots[k].len() <= roots[best].len()
                &&& forall|k: int|
                    best < k < roots.len() && (#[trigger] roots[k]).is_prefix_of(cwd)
                        ==> roots[k].len() < roots[best].len()
            },
            None => forall|k: int|
                0 <= k < roots.len() ==> !(#[trigger] roots[k]).is_prefix_of(cwd),
        },
{
    if deepest(cwd, roots) is None {
        assert forall|k: int| 0 <= k < roots.len() implies !(#[trigger] roots[k]).is_prefix_of(
            cwd,
        ) by {
            if roots[k].is_prefix_of(cwd) {
                lemma_deepest_exists(cwd, roots, k);
            }
        }
    }
}

/// Lists of components are read as they are, byte for byte.
pub proof fn law_component_lists_say_all(paths: Seq<Vec<Vec<u8>>>, i: int, j: int)
    requires
        0 <= i < paths.len(),
    ensures
        component_lists(paths).len() == paths.len(),
        component_lists(paths)[i].len() == paths[i]@.len(),
        0 <= j < paths[i]@.len() ==> component_lists(paths)[i][j] == paths[i]@[j]@,
{
}

/// The components of several roots.
pub open spec fn root_components(roots: Seq<Seq<char>>) -> Seq<Seq<Seq<u8>>> {
    roots.map_values(|root: Seq<char>| components(encode_utf8(root)))
}

/// Of roots in order, the one that a directory belongs to by the components
/// is its project root. So finding it by components in Unix syntax and
/// finding it by paths come to the same.
pub proof fn law_deepest_is_the_project_root(roots: Seq<Seq<char>>, cwd: Seq<char>)
    requires
        forall|i: int, j: int|
            0 <= i < j < roots.len() ==> text_precedes(#[trigger] roots[i], #[trigger] roots[j]),
    ensures
        project_root(roots.to_set(), cwd) == match deepest(
            components(encode_utf8(cwd)),
            root_components(roots),
        ) {
            Some(best) => Some(roots[best]),
            None => None,
        },
{
    let here = components(encode_utf8(cwd));
    let lists = root_components(roots);
    let set = roots.to_set();
    if exists|best: int| is_deepest(here, lists, best) {
        let best = choose|best: int| is_deepest(here, lists, best);
        let root = roots[best];
        assert forall|other: Seq<char>| #[trigger]
            set.contains(other) && lies_in(cwd, other) && other != root implies depth(other)
            < depth(root) || (depth(other) == depth(root) && text_precedes(other, root)) by {
            let k = choose|k: int| 0 <= k < roots.len() && roots[k] == other;
            assert(lists[k].is_prefix_of(here));
        }
        law_project_root_is_unique(set, cwd, root);
    } else if project_root(set, cwd) is Some {
        let root = choose|root: Seq<char>| is_project_root(set, cwd, root);
        let best = choose|best: int| 0 <= best < roots.len() && roots[best] == root;
        assert forall|k: int|
            0 <= k < lists.len() && (#[trigger] lists[k]).is_prefix_of(here) implies lists[k].len()
            < lists[best].len() || (lists[k].len() == lists[best].len() && k <= best) by {
            assert(set.contains(roots[k]));
            law_text_order(roots[k], root, root);
        }
        assert(is_deepest(here, lists, best));
    }
}

/// Which of several roots `cwd` belongs to, all given by their components:
/// the deepest of those that `cwd` starts with, and of equally deep ones the
/// last.
pub fn deepest_root(cwd: &Vec<Vec<u8>>, roots: &Vec<Vec<Vec<u8>>>) -> (found: Option<usize>)
    ensures
        match found {
            Some(best) => {
                &&& is_deepest(byte_views(cwd@), component_lists(roots@), best as int)
                &&& deepest(byte_views(cwd@), component_lists(roots@)) == Some(best as int)
            },
            None => {
                &&& forall|k: int|
                    0 <= k < roots@.len() ==> !(#[trigger] component_lists(
                        roots@,
                    )[k]).is_prefix_of(byte_views(cwd@))
                &&& deepest(byte_views(cwd@), component_lists(roots@)) is None
            },
        },
{
    let ghost here = byte_views(cwd@);
    let ghost lists = component_lists(roots@);
    let mut best: Option<usize> = None;
    let mut i: usize = 0;
    while i < roots.len()
        invariant
            i <= roots.len(),
            here == byte_views(cwd@),
            lists == component_lists(roots@),
            match best {
                Some(b) => b < i && is_deepest(here, lists.take(i as int), b as int),
                None => forall|k: int|
                    0 <= k < i ==> !(#[trigger] lists[k]).is_prefix_of(here),
            },
        decreases roots.len() - i,
    {
        if components_start_with(cwd, &roots[i]) {
            let deeper = match best {
                Some(b) => roots[b].len() <= roots[i].len(),
                None => true,
            };
            if deeper {
                best = Some(i);
            }
        }
        i += 1;
    }
    assert(lists.take(i as int) =~= lists);
    proof {
        if let Some(b) = best {
            law_deepest_is_unique(here, lists, b as int);
        }
    }
    best
}

/// The project root of the directory with the normalized path `cwd`, and the
/// connection recorded there.
pub fn find_project_root<'a>(store: &'a ConnectionStore, cwd: &str) -> (found: Option<
    (String, &'a JupyterConnection),
>)
    ensures
        match found {
            Some((root, connection)) => {
                &&& is_project_root(store@.projects.dom(), cwd@, root@)
                &&& project_root(store@.projects.dom(), cwd@) == Some(root@)
                &&& connection@ == store@.projects[root@]
            },
            None => {
                &&& forall|root: Seq<char>|
                    #![trigger store@.projects.contains_key(root)]
                    store@.projects.contains_key(root) ==> !lies_in(cwd@, root)
                &&& project_root(store@.projects.dom(), cwd@) is None
            },
        },
{
    let n = store.projects.len();
    let here = path_components(cwd.as_bytes());
    let mut roots: Vec<Vec<Vec<u8>>> = Vec::new();
    let ghost keys = store.projects.roots();
    let mut i: usize = 0;
    while i < n
        invariant
            i <= n,
            n == store.projects.roots().len(),
            keys == store.projects.roots(),
            roots@.len() == i,
            forall|k: int|
                #![trigger roots@[k]]
                0 <= k < i ==> byte_views(roots@[k]@) == components(encode_utf8(keys[k])),
        decreases n - i,
    {
        roots.push(path_components(store.projects.at(i).root.as_str().as_bytes()));
        i += 1;
    }
    proof {
        assert(component_lists(roots@) =~= root_components(keys));
        law_deepest_is_the_project_root(keys, cwd@);
    }
    match deepest_root(&here, &roots) {
        Some(best) => {
            let project = store.projects.at(best);
            Some((project.root.clone(), &project.connection))
        },
        None => {
            assert forall|root: Seq<char>| #[trigger]
                store@.projects.contains_key(root) implies !lies_in(cwd@, root) by {
                let k = choose|k: int| 0 <= k < keys.len() && keys[k] == root;
                assert(!component_lists(roots@)[k].is_prefix_of(byte_views(here@)));
            }
            None
        },
    }
}

/// The recorded project root that is the deepest ancestor-or-equal of `cwd`,
/// component by component, and the connection recorded there. Paths are in
/// Unix syntax; where they are not, [`deepest_root`] finds the root by the
/// components.
pub fn resolve_project_root<'a>(store: &'a ConnectionStore, cwd: &Directory) -> (found: Option<
    (String, &'a JupyterConnection),
>)
    ensures
        match found {
            Some((root, connection)) => {
                &&& is_project_root(store@.projects.dom(), root_key(*cwd), root@)
                &&& project_root(store@.projects.dom(), root_key(*cwd)) == Some(root@)
                &&& connection@ == store@.projects[root@]
            },
            None => {
                &&& forall|root: Seq<char>|
                    #![trigger store@.projects.contains_key(root)]
                    store@.projects.contains_key(root) ==> !lies_in(root_key(*cwd), root)
                &&& project_root(store@.projects.dom(), root_key(*cwd)) is None
            },
        },
{
    let key = normalize_root(cwd);
    find_project_root(store, key.as_str())
}

} // verus!
