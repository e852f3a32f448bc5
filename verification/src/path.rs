//! File-system paths in Unix syntax, as the byte strings that they are.
//!
//! A path is read as a list of components: the root directory if the path
//! starts with a separator, then what stands between separators. Repeated and
//! trailing separators count for nothing, and neither does `.`, except at the
//! very start of a path. Every question about how two paths relate is a
//! question about their components.

use vstd::prelude::*;

verus! {

/// The byte that separates components, `/`. A component that is this byte
/// alone is the root directory.
pub const SEPARATOR: u8 = 0x2f;

/// The byte of which the current directory's name, `.`, is made.
pub const DOT: u8 = 0x2e;

/// How many bytes of `path` stand before its first separator.
pub open spec fn piece_len(path: Seq<u8>) -> nat
    decreases path.len(),
{
    if path.len() == 0 || path[0] == SEPARATOR {
        0
    } else {
        1 + piece_len(path.skip(1))
    }
}

/// What follows the first separator of `path`.
pub open spec fn after_piece(path: Seq<u8>) -> Seq<u8> {
    if piece_len(path) < path.len() {
        path.skip(piece_len(path) as int + 1)
    } else {
        Seq::empty()
    }
}

/// Whether the text between two separators is a component; `first` tells
/// whether it stands at the very start of the path.
pub open spec fn is_component(piece: Seq<u8>, first: bool) -> bool {
    piece.len() > 0 && (first || piece != seq![DOT])
}

/// The components of `path` other than the root directory; `first` tells
/// whether `path` is a whole path or the rest of one.
pub open spec fn names(path: Seq<u8>, first: bool) -> Seq<Seq<u8>>
    decreases path.len(),
{
    if path.len() == 0 {
        Seq::empty()
    } else {
        let piece = path.take(piece_len(path) as int);
        let rest = names(after_piece(path), false);
        if is_component(piece, first) {
            seq![piece] + rest
        } else {
            rest
        }
    }
}

/// Whether `path` starts at the root directory.
pub open spec fn is_absolute(path: Seq<u8>) -> bool {
    path.len() > 0 && path[0] == SEPARATOR
}

/// The components of `path`.
pub open spec fn components(path: Seq<u8>) -> Seq<Seq<u8>> {
    if is_absolute(path) {
        seq![seq![SEPARATOR]] + names(path, true)
    } else {
        names(path, true)
    }
}

/// Whether `base` is `path` or an ancestor of it, component by component.
pub open spec fn path_starts_with(path: Seq<u8>, base: Seq<u8>) -> bool {
    components(base).is_prefix_of(components(path))
}

/// `name` looked up in the directory `base`.
pub open spec fn joined(base: Seq<u8>, name: Seq<u8>) -> Seq<u8> {
    if is_absolute(name) {
        name
    } else if base.len() == 0 || base.last() == SEPARATOR {
        base + name
    } else {
        base + seq![SEPARATOR] + name
    }
}

/// Whether `path` has a last component that can be taken off: it has one, and
/// that is not the root directory.
pub open spec fn has_parent(path: Seq<u8>) -> bool {
    names(path, true).len() > 0
}

/// Whether `parent` is `path` without its last component: of all leading
/// parts of `path` that lack just that component, the shortest.
pub open spec fn is_parent(path: Seq<u8>, parent: Seq<u8>) -> bool {
    &&& has_parent(path)
    &&& parent.is_prefix_of(path)
    &&& components(parent) == components(path).drop_last()
    &&& forall|n: int|
        0 <= n < parent.len() ==> components(#[trigger] path.take(n)) != components(
            path,
        ).drop_last()
}

/// `path` without its last component, if it has one that can be taken off.
pub open spec fn parent_of(path: Seq<u8>) -> Option<Seq<u8>> {
    if has_parent(path) {
        Some(choose|dir: Seq<u8>| is_parent(path, dir))
    } else {
        None
    }
}

/// The byte sequences that a list of byte strings holds.
pub open spec fn byte_views(list: Seq<Vec<u8>>) -> Seq<Seq<u8>> {
    list.map_values(|bytes: Vec<u8>| bytes@)
}

/// Each byte string of a list is read as its own bytes.
pub proof fn law_byte_views_say_all(list: Seq<Vec<u8>>)
    ensures
        byte_views(list).len() == list.len(),
        forall|i: int| 0 <= i < list.len() ==> #[trigger] byte_views(list)[i] == list[i]@,
{
}

proof fn lemma_piece_len(path: Seq<u8>)
    ensures
        piece_len(path) <= path.len(),
        forall|i: int| 0 <= i < piece_len(path) ==> path[i] != SEPARATOR,
        piece_len(path) < path.len() ==> path[piece_len(path) as int] == SEPARATOR,
        after_piece(path).len() < path.len() || path.len() == 0,
    decreases path.len(),
{
    if path.len() > 0 && path[0] != SEPARATOR {
        lemma_piece_len(path.skip(1));
        assert forall|i: int| 0 <= i < piece_len(path) implies path[i] != SEPARATOR by {
            if i > 0 {
                assert(path[i] == path.skip(1)[i - 1]);
            }
        }
    }
}

/// The piece length is the only length with nothing but other bytes before
/// it and a separator, or the end, after it.
proof fn lemma_piece_len_is(path: Seq<u8>, n: int)
    requires
        0 <= n <= path.len(),
        forall|i: int| 0 <= i < n ==> path[i] != SEPARATOR,
        n < path.len() ==> path[n] == SEPARATOR,
    ensures
        piece_len(path) == n,
{
    lemma_piece_len(path);
    let m = piece_len(path) as int;
    if m < n {
        assert(path[m] == SEPARATOR);
    } else if n < m {
        assert(path[n] == SEPARATOR);
    }
}

/// A separator splits the components of a path.
proof fn lemma_names_split(a: Seq<u8>, b: Seq<u8>, first: bool)
    ensures
        names(a + seq![SEPARATOR] + b, first) == names(a, first) + names(b, false),
    decreases a.len(),
{
    let whole = a + seq![SEPARATOR] + b;
    lemma_piece_len(a);
    let n = piece_len(a) as int;
    assert(forall|i: int| 0 <= i < n ==> whole[i] == a[i]);
    lemma_piece_len_is(whole, n);
    assert(whole.take(n) =~= a.take(n));
    if n == a.len() {
        assert(a.take(n) =~= a);
        assert(after_piece(whole) =~= b);
        assert(names(Seq::<u8>::empty(), false) =~= Seq::empty());
    } else {
        assert(after_piece(whole) =~= after_piece(a) + seq![SEPARATOR] + b);
        lemma_names_split(after_piece(a), b, false);
    }
    assert(names(whole, first) =~= names(a, first) + names(b, false));
}

/// Text without separators is one component, if it is one at all.
proof fn lemma_names_of_piece(piece: Seq<u8>, first: bool)
    requires
        forall|i: int| 0 <= i < piece.len() ==> piece[i] != SEPARATOR,
    ensures
        names(piece, first) == (if is_component(piece, first) {
            seq![piece]
        } else {
            Seq::empty()
        }),
{
    lemma_piece_len_is(piece, piece.len() as int);
    assert(piece.take(piece.len() as int) =~= piece);
    assert(names(Seq::<u8>::empty(), false) =~= Seq::empty());
    assert(seq![piece] + Seq::<Seq<u8>>::empty() =~= seq![piece]);
}

/// A path is read piece by piece. The piece from `i` to `j`, which follows a
/// separator or starts the path, adds itself to the components of what stands
/// before it. It adds nothing just if it is empty or, unless it starts the
/// path, `.`.
pub proof fn law_piece_is_a_component(path: Seq<u8>, i: int, j: int)
    requires
        0 <= i <= j <= path.len(),
        i == 0 || path[i - 1] == SEPARATOR,
        forall|k: int| i <= k < j ==> path[k] != SEPARATOR,
    ensures
        i < j && (i == 0 || path.subrange(i, j) != seq![DOT]) ==> components(path.take(j))
            == components(path.take(i)).push(path.subrange(i, j)),
        i == j || (i > 0 && path.subrange(i, j) == seq![DOT]) ==> components(path.take(j))
            == components(path.take(i)),
{
    let piece = path.subrange(i, j);
    lemma_names_of_piece(piece, i == 0);
    if i == 0 {
        assert(path.take(j) =~= piece);
        assert(components(path.take(0)) =~= Seq::empty());
    } else {
        let a = path.take(i - 1);
        assert(path.take(j) =~= a + seq![SEPARATOR] + piece);
        assert(path.take(i) =~= a + seq![SEPARATOR] + Seq::empty());
        lemma_names_split(a, piece, true);
        lemma_names_split(a, Seq::empty(), true);
        assert(names(path.take(i), true) =~= names(a, true));
    }
    if i < j && (i == 0 || piece != seq![DOT]) {
        assert(components(path.take(j)) =~= components(path.take(i)).push(piece));
    } else {
        assert(components(path.take(j)) =~= components(path.take(i)));
    }
}

/// A separator ends a piece. At the start of a path it is the root directory,
/// elsewhere it adds nothing, and what was read before it stays.
pub proof fn law_separator_ends_a_piece(path: Seq<u8>, j: int)
    requires
        0 <= j < path.len(),
        path[j] == SEPARATOR,
    ensures
        components(path.take(0)) == Seq::<Seq<u8>>::empty(),
        j == 0 ==> components(path.take(1)) == seq![seq![SEPARATOR]],
        j > 0 ==> components(path.take(j + 1)) == components(path.take(j)),
        components(path.take(j)).is_prefix_of(components(path)),
        components(path.take(j + 1)).is_prefix_of(components(path)),
{
    let a = path.take(j);
    let rest = path.skip(j + 1);
    assert(path =~= a + seq![SEPARATOR] + rest);
    assert(path.take(j + 1) =~= a + seq![SEPARATOR] + Seq::empty());
    lemma_names_split(a, rest, true);
    lemma_names_split(a, Seq::empty(), true);
    assert(names(path.take(j + 1), true) =~= names(a, true));
    assert(components(path.take(0)) =~= Seq::empty());
    if j == 0 {
        assert(a =~= path.take(0));
        assert(components(path.take(1)) =~= seq![seq![SEPARATOR]]);
        assert(components(path) =~= seq![seq![SEPARATOR]] + names(rest, false));
    } else {
        assert(components(path.take(j + 1)) =~= components(a));
        assert(components(path) =~= components(a) + names(rest, false));
    }
}

/// What is looked up in a directory has the components of that directory,
/// followed by those of its own name.
pub proof fn law_joined_components(base: Seq<u8>, name: Seq<u8>)
    requires
        !is_absolute(name),
    ensures
        components(joined(base, name)) == components(base) + names(name, base.len() == 0),
{
    let whole = joined(base, name);
    if base.len() == 0 {
        assert(whole =~= name);
        assert(components(base) =~= Seq::empty());
    } else if base.last() == SEPARATOR {
        let a = base.drop_last();
        assert(base =~= a + seq![SEPARATOR] + Seq::empty());
        assert(whole =~= a + seq![SEPARATOR] + name);
        lemma_names_split(a, name, true);
        lemma_names_split(a, Seq::empty(), true);
        assert(names(base, true) =~= names(a, true));
    } else {
        lemma_names_split(base, name, true);
    }
    assert(components(whole) =~= components(base) + names(name, base.len() == 0));
}

/// An entry of a directory lies in that directory, one component deeper.
pub proof fn law_child_is_inside(base: Seq<u8>, name: Seq<u8>)
    requires
        name.len() > 0,
        name != seq![DOT],
        forall|i: int| 0 <= i < name.len() ==> name[i] != SEPARATOR,
    ensures
        path_starts_with(joined(base, name), base),
        components(joined(base, name)) == components(base).push(name),
{
    law_joined_components(base, name);
    lemma_names_of_piece(name, base.len() == 0);
    assert(components(joined(base, name)) =~= components(base).push(name));
}

/// What is looked up in a directory is spelled out: the directory, a
/// separator if it does not end in one, and the name. A name that starts with
/// a separator stands for itself.
pub proof fn law_joined_bytes(base: Seq<u8>, name: Seq<u8>)
    ensures
        name.len() > 0 && name[0] == SEPARATOR ==> joined(base, name) == name,
        name.len() == 0 || name[0] != SEPARATOR ==> {
            let path = joined(base, name);
            let gap = path.len() - base.len() - name.len();
            &&& gap == 0 || gap == 1
            &&& gap == 0 <==> base.len() == 0 || base[base.len() - 1] == SEPARATOR
            &&& gap == 1 ==> path[base.len() as int] == SEPARATOR
            &&& path.take(base.len() as int) == base
            &&& path.skip(base.len() + gap) == name
        },
{
    let path = joined(base, name);
    if !is_absolute(name) {
        let gap = path.len() - base.len() - name.len();
        assert(path.take(base.len() as int) =~= base);
        assert(path.skip(base.len() + gap) =~= name);
    }
}

/// A path lies in another just if the components of the other are its first
/// ones, each the same byte for byte.
pub proof fn law_starts_with_means(path: Seq<u8>, base: Seq<u8>)
    ensures
        path_starts_with(path, base) <==> components(base).len() <= components(path).len()
            && forall|k: int|
            0 <= k < components(base).len() ==> #[trigger] components(base)[k] == components(
                path,
            )[k],
{
    let p = components(path);
    let b = components(base);
    if b.len() <= p.len() && forall|k: int| 0 <= k < b.len() ==> #[trigger] b[k] == p[k] {
        assert(b =~= p.subrange(0, b.len() as int));
    }
}

/// A path lies in itself, and what lies in an inner directory lies in every
/// outer one.
pub proof fn law_starts_with_is_an_order(path: Seq<u8>, inner: Seq<u8>, outer: Seq<u8>)
    ensures
        path_starts_with(path, path),
        path_starts_with(path, inner) && path_starts_with(inner, outer) ==> path_starts_with(
            path,
            outer,
        ),
        path_starts_with(path, inner) && path_starts_with(inner, path) ==> components(path)
            == components(inner),
{
    let p = components(path);
    let i = components(inner);
    let o = components(outer);
    if i.is_prefix_of(p) && o.is_prefix_of(i) {
        assert(forall|k: int| 0 <= k < o.len() ==> o[k] == i[k]);
        assert(forall|k: int| 0 <= k < i.len() ==> i[k] == p[k]);
        assert(o =~= p.subrange(0, o.len() as int));
    }
    if i.is_prefix_of(p) && p.is_prefix_of(i) {
        assert(p =~= i);
    }
}

/// Two differently named entries of a directory have nothing in common:
/// what lies in one does not lie in the other, however alike the names
/// begin.
pub proof fn law_siblings_are_apart(
    base: Seq<u8>,
    name: Seq<u8>,
    other: Seq<u8>,
    path: Seq<u8>,
)
    requires
        name.len() > 0,
        name != seq![DOT],
        other.len() > 0,
        other != seq![DOT],
        forall|i: int| 0 <= i < name.len() ==> name[i] != SEPARATOR,
        forall|i: int| 0 <= i < other.len() ==> other[i] != SEPARATOR,
        name != other,
        path_starts_with(path, joined(base, other)),
    ensures
        !path_starts_with(path, joined(base, name)),
{
    law_child_is_inside(base, name);
    law_child_is_inside(base, other);
    let n = components(base).len() as int;
    assert(components(joined(base, name))[n] == name);
    assert(components(joined(base, other))[n] == other);
    assert(components(path)[n] == other);
}

/// Every path with a last component has a leading part that lacks just it.
proof fn lemma_shorter_names(path: Seq<u8>, first: bool) -> (n: int)
    requires
        names(path, first).len() > 0,
    ensures
        0 <= n <= path.len(),
        names(path.take(n), first) == names(path, first).drop_last(),
        is_absolute(path) ==> n > 0,
    decreases path.len(),
{
    lemma_piece_len(path);
    let m = piece_len(path) as int;
    let piece = path.take(m);
    let rest = after_piece(path);
    if names(rest, false).len() == 0 {
        assert(path.take(0) =~= Seq::empty());
        assert(names(path, first).drop_last() =~= Seq::empty());
        0
    } else {
        let k = lemma_shorter_names(rest, false);
        let n = m + 1 + k;
        assert(path =~= piece + seq![SEPARATOR] + rest);
        assert(path.take(n) =~= piece + seq![SEPARATOR] + rest.take(k));
        lemma_names_split(piece, rest, first);
        lemma_names_split(piece, rest.take(k), first);
        assert(names(path.take(n), first) =~= names(path, first).drop_last());
        n
    }
}

/// Every path with a last component has a parent.
proof fn lemma_shorter_components(path: Seq<u8>) -> (n: int)
    requires
        has_parent(path),
    ensures
        0 <= n <= path.len(),
        components(path.take(n)) == components(path).drop_last(),
{
    let n = lemma_shorter_names(path, true);
    assert(components(path.take(n)) =~= components(path).drop_last());
    n
}

/// A path of more than the root directory has a parent.
pub proof fn law_parent_exists(path: Seq<u8>)
    requires
        components(path).len() > 0,
        components(path).last() != seq![SEPARATOR],
    ensures
        parent_of(path) is Some,
        is_parent(path, parent_of(path)->0),
{
    assert(has_parent(path)) by {
        if names(path, true).len() == 0 {
            assert(components(path) =~= seq![seq![SEPARATOR]]);
        }
    }
    let n = lemma_shorter_components(path);
    let m = lemma_least_shorter(path, n);
    assert(path.take(m).is_prefix_of(path));
    assert forall|k: int| 0 <= k < path.take(m).len() implies components(#[trigger] path.take(k))
        != components(path).drop_last() by {}
    assert(is_parent(path, path.take(m)));
}

/// The parent of a path is its shortest leading part with all its components
/// but the last. A path has one just if it has a component that is not the
/// root directory.
pub proof fn law_parent_means(path: Seq<u8>)
    ensures
        parent_of(path) is Some <==> components(path).len() > 0 && components(path).last()
            != seq![SEPARATOR],
        parent_of(path) matches Some(dir) ==> {
            &&& dir.len() < path.len()
            &&& dir == path.take(dir.len() as int)
            &&& components(dir) == components(path).drop_last()
            &&& forall|n: int|
                0 <= n < dir.len() ==> components(#[trigger] path.take(n)) != components(dir)
        },
{
    let all = components(path);
    if all.len() > 0 && all.last() != seq![SEPARATOR] {
        law_parent_exists(path);
        let dir = parent_of(path)->0;
        assert(dir =~= path.take(dir.len() as int));
        assert(path.take(path.len() as int) =~= path);
        assert(all.drop_last().len() < all.len());
    } else if has_parent(path) {
        lemma_names_have_no_separator(path, true);
        assert(all.last() == names(path, true).last());
        assert(names(path, true).contains(names(path, true).last()));
        assert(all.last()[0] == SEPARATOR);
    }
}

/// No name holds a separator.
proof fn lemma_names_have_no_separator(path: Seq<u8>, first: bool)
    ensures
        forall|name: Seq<u8>, i: int| #[trigger]
            names(path, first).contains(name) && 0 <= i < name.len() ==> #[trigger] name[i]
                != SEPARATOR,
        forall|name: Seq<u8>| #[trigger] names(path, first).contains(name) ==> name.len() > 0,
    decreases path.len(),
{
    if path.len() > 0 {
        lemma_piece_len(path);
        let piece = path.take(piece_len(path) as int);
        let rest = names(after_piece(path), false);
        lemma_names_have_no_separator(after_piece(path), false);
        assert forall|name: Seq<u8>| #[trigger] names(path, first).contains(name) implies name
            == piece && is_component(piece, first) || rest.contains(name) by {
            let all = names(path, first);
            let k = choose|k: int| 0 <= k < all.len() && all[k] == name;
            if is_component(piece, first) {
                if k > 0 {
                    assert(rest[k - 1] == name);
                }
            } else {
                assert(rest[k] == name);
            }
        }
    }
}

/// Of the leading parts that lack just the last component, one is shortest.
proof fn lemma_least_shorter(path: Seq<u8>, n: int) -> (m: int)
    requires
        0 <= n <= path.len(),
        components(path.take(n)) == components(path).drop_last(),
    ensures
        0 <= m <= n,
        components(path.take(m)) == components(path).drop_last(),
        forall|k: int|
            0 <= k < m ==> components(#[trigger] path.take(k)) != components(path).drop_last(),
    decreases n,
{
    if exists|k: int|
        0 <= k < n && components(#[trigger] path.take(k)) == components(path).drop_last() {
        let k = choose|k: int|
            0 <= k < n && components(#[trigger] path.take(k)) == components(path).drop_last();
        lemma_least_shorter(path, k)
    } else {
        n
    }
}

/// A path has at most one parent.
pub proof fn law_parent_is_unique(path: Seq<u8>, a: Seq<u8>, b: Seq<u8>)
    requires
        is_parent(path, a),
        is_parent(path, b),
    ensures
        a == b,
{
    assert(a =~= path.take(a.len() as int));
    assert(b =~= path.take(b.len() as int));
}

/// The parent of a directory's entry is that directory, up to separators
/// and `.` that count for nothing.
pub proof fn law_parent_of_child(base: Seq<u8>, name: Seq<u8>, dir: Seq<u8>)
    requires
        name.len() > 0,
        name != seq![DOT],
        forall|i: int| 0 <= i < name.len() ==> name[i] != SEPARATOR,
        is_parent(joined(base, name), dir),
    ensures
        components(dir) == components(base),
{
    law_child_is_inside(base, name);
    assert(components(base).push(name).drop_last() =~= components(base));
}

/// A copy of some bytes.
pub(crate) fn copy_bytes(bytes: &[u8]) -> (copy: Vec<u8>)
    ensures
        copy@ == bytes@,
{
    vstd::slice::slice_to_vec(bytes)
}

/// Whether two byte strings are the same.
pub(crate) fn same_bytes(a: &[u8], b: &[u8]) -> (same: bool)
    ensures
        same == (a@ == b@),
{
    if a.len() != b.len() {
        return false;
    }
    let mut i: usize = 0;
    while i < a.len()
        invariant
            i <= a.len(),
            a.len() == b.len(),
            forall|k: int| 0 <= k < i ==> a@[k] == b@[k],
        decreases a.len() - i,
    {
        if a[i] != b[i] {
            return false;
        }
        i += 1;
    }
    assert(a@ =~= b@);
    true
}

/// The components of `path`, each as the bytes that name it.
pub fn path_components(path: &[u8]) -> (list: Vec<Vec<u8>>)
    ensures
        byte_views(list@) == components(path@),
        list@.len() == components(path@).len(),
        forall|k: int| 0 <= k < list@.len() ==> (#[trigger] list@[k])@ == components(path@)[k],
{
    let mut list: Vec<Vec<u8>> = Vec::new();
    if path.len() > 0 && path[0] == SEPARATOR {
        let mut root: Vec<u8> = Vec::new();
        root.push(SEPARATOR);
        list.push(root);
        assert(byte_views(list@) =~= seq![seq![SEPARATOR]]);
    } else {
        assert(byte_views(list@) =~= Seq::empty());
    }
    let mut start: usize = 0;
    assert(path@.skip(0) =~= path@);
    assert(components(path@) =~= byte_views(list@) + names(path@.skip(0), true));
    while start < path.len()
        invariant
            start <= path.len(),
            components(path@) == byte_views(list@) + names(path@.skip(start as int), start == 0),
        decreases path.len() - start,
    {
        let ghost rest = path@.skip(start as int);
        let mut end: usize = start;
        while end < path.len() && path[end] != SEPARATOR
            invariant
                start <= end <= path.len(),
                forall|k: int| start <= k < end ==> path@[k] != SEPARATOR,
            decreases path.len() - end,
        {
            end += 1;
        }
        proof {
            lemma_piece_len_is(rest, end - start);
            assert(rest.take(end - start) =~= path@.subrange(start as int, end as int));
            if end < path.len() {
                assert(after_piece(rest) =~= path@.skip(end + 1));
            }
        }
        let ghost before = byte_views(list@);
        let ghost piece = path@.subrange(start as int, end as int);
        let dot = end == start + 1 && path[start] == DOT;
        assert(dot == (piece == seq![DOT])) by {
            if dot {
                assert(piece =~= seq![DOT]);
            } else if piece == seq![DOT] {
                assert(piece[0] == path@[start as int]);
            }
        }
        if end > start && (start == 0 || !dot) {
            list.push(copy_bytes(vstd::slice::slice_subrange(path, start, end)));
            assert(byte_views(list@) =~= before.push(piece));
        }
        assert(byte_views(list@) + names(after_piece(rest), false) =~= components(path@));
        if end < path.len() {
            start = end + 1;
        } else {
            start = end;
            assert(path@.skip(start as int) =~= after_piece(rest));
        }
    }
    assert(path@.skip(start as int) =~= Seq::empty());
    assert(byte_views(list@) =~= components(path@));
    assert forall|k: int| 0 <= k < list@.len() implies (#[trigger] list@[k])@ == components(
        path@,
    )[k] by {
        assert(byte_views(list@)[k] == list@[k]@);
    }
    list
}

/// Whether the first components of `list` are those of `base`.
pub fn components_start_with(list: &Vec<Vec<u8>>, base: &Vec<Vec<u8>>) -> (inside: bool)
    ensures
        inside == byte_views(base@).is_prefix_of(byte_views(list@)),
        inside <==> base@.len() <= list@.len() && forall|k: int|
            0 <= k < base@.len() ==> (#[trigger] base@[k])@ == list@[k]@,
{
    if base.len() > list.len() {
        return false;
    }
    let mut i: usize = 0;
    while i < base.len()
        invariant
            i <= base.len() <= list.len(),
            forall|k: int| 0 <= k < i ==> (#[trigger] base@[k])@ == list@[k]@,
        decreases base.len() - i,
    {
        if !same_bytes(base[i].as_slice(), list[i].as_slice()) {
            assert(byte_views(base@)[i as int] != byte_views(list@)[i as int]);
            return false;
        }
        i += 1;
    }
    assert(byte_views(base@) =~= byte_views(list@).subrange(0, base.len() as int));
    true
}

/// `name` looked up in the directory `base`; an absolute `name` stands for
/// itself.
pub fn join(base: &[u8], name: &[u8]) -> (path: Vec<u8>)
    ensures
        path@ == joined(base@, name@),
{
    if name.len() > 0 && name[0] == SEPARATOR {
        return copy_bytes(name);
    }
    let mut path = copy_bytes(base);
    if base.len() > 0 && base[base.len() - 1] != SEPARATOR {
        path.push(SEPARATOR);
    }
    let mut tail = copy_bytes(name);
    path.append(&mut tail);
    assert(path@ =~= joined(base@, name@));
    path
}

/// `path` without its last component, or nothing if it has none that can be
/// taken off.
pub fn parent(path: &[u8]) -> (dir: Option<Vec<u8>>)
    ensures
        match dir {
            Some(d) => is_parent(path@, d@) && parent_of(path@) == Some(d@),
            None => parent_of(path@) is None,
        },
{
    let mut wanted = path_components(path);
    let ghost all = components(path@);
    if path.len() > 0 && path[0] == SEPARATOR {
        if wanted.len() == 1 {
            assert(byte_views(wanted@).len() == 1);
            return None;
        }
    } else if wanted.len() == 0 {
        assert(byte_views(wanted@).len() == 0);
        return None;
    }
    assert(byte_views(wanted@).len() == wanted@.len());
    wanted.pop();
    assert(byte_views(wanted@) =~= all.drop_last());
    let mut n: usize = 0;
    while n < path.len()
        invariant
            n <= path.len(),
            has_parent(path@),
            byte_views(wanted@) == components(path@).drop_last(),
            forall|k: int|
                0 <= k < n ==> components(#[trigger] path@.take(k)) != components(
                    path@,
                ).drop_last(),
        decreases path.len() - n,
    {
        let head = vstd::slice::slice_subrange(path, 0, n);
        assert(head@ =~= path@.take(n as int));
        let list = path_components(head);
        if list.len() == wanted.len() && components_start_with(&list, &wanted) {
            assert(byte_views(list@) =~= byte_views(wanted@));
            assert(forall|k: int| 0 <= k < n ==> #[trigger] head@.take(k) == path@.take(k));
            proof {
                assert(is_parent(path@, head@));
                law_parent_is_unique(path@, head@, choose|d: Seq<u8>| is_parent(path@, d));
            }
            return Some(copy_bytes(head));
        }
        assert(byte_views(list@) != byte_views(wanted@)) by {
            assert(byte_views(list@).len() == list.len());
            assert(byte_views(wanted@).len() == wanted.len());
        }
        n += 1;
    }
    proof {
        let k = lemma_shorter_components(path@);
        assert(path@.take(path@.len() as int) =~= path@);
        assert(components(path@).len() == components(path@).drop_last().len() + 1);
        assert(components(path@.take(k)) == components(path@).drop_last());
    }
    None
}

} // verus!
