//! File-system paths as byte strings.
//!
//! A path is a byte string with `/` between its components. Its component list
//! writes the root directory as the empty byte string: no other component is empty.

use vstd::prelude::*;

use crate::seqs;
use crate::seqs::{bytes_equal, copy_bytes, split_bytes};

verus! {

/// The component that stands for the root directory.
pub open spec fn root_component() -> Seq<u8> {
    Seq::empty()
}

/// The component `.`.
pub open spec fn current_component() -> Seq<u8> {
    seq![46u8]
}

/// The component `..`.
pub open spec fn parent_component() -> Seq<u8> {
    seq![46u8, 46u8]
}

/// The path separator.
pub const SEPARATOR: u8 = 47;

/// A path is absolute when it starts at the root directory.
pub open spec fn is_absolute(path: Seq<u8>) -> bool {
    path.len() > 0 && path[0] == SEPARATOR
}

/// A piece after the first that stands for a component.
pub open spec fn is_inner_component(piece: Seq<u8>) -> bool {
    piece.len() > 0 && piece != current_component()
}

/// The pieces after the first that stand for components.
pub open spec fn inner_components(pieces: Seq<Seq<u8>>) -> Seq<Seq<u8>>
    decreases pieces.len(),
{
    if pieces.len() <= 1 {
        Seq::empty()
    } else {
        let before = inner_components(pieces.drop_last());
        if is_inner_component(pieces.last()) {
            before.push(pieces.last())
        } else {
            before
        }
    }
}

/// The components of a path: repeated separators, a trailing separator and `.`
/// anywhere but at the start of a relative path contribute nothing.
pub open spec fn components(path: Seq<u8>) -> Seq<Seq<u8>> {
    if path.len() == 0 {
        Seq::empty()
    } else {
        let pieces = seqs::split_at_each(path, SEPARATOR);
        seq![pieces[0]] + inner_components(pieces)
    }
}

/// `prefix` leads to `path` component by component.
pub open spec fn path_starts_with(path: Seq<u8>, prefix: Seq<u8>) -> bool {
    components(prefix).is_prefix_of(components(path))
}

/// The names left after `.` and `..` have been resolved from the root.
pub open spec fn resolved_names(list: Seq<Seq<u8>>) -> Seq<Seq<u8>>
    decreases list.len(),
{
    if list.len() == 0 {
        Seq::empty()
    } else {
        let before = resolved_names(list.drop_last());
        let last = list.last();
        if last == root_component() || last == current_component() {
            before
        } else if last == parent_component() {
            if before.len() == 0 {
                before
            } else {
                before.drop_last()
            }
        } else {
            before.push(last)
        }
    }
}

/// The absolute path that visits the given names in turn.
pub open spec fn absolute_path(names: Seq<Seq<u8>>) -> Seq<u8> {
    seq![SEPARATOR] + seqs::join_with(names, SEPARATOR)
}

/// The path with `.` and `..` resolved from the root.
pub open spec fn normalized(path: Seq<u8>) -> Seq<u8> {
    absolute_path(resolved_names(components(path)))
}

/// A byte string without separators.
pub open spec fn is_clear(name: Seq<u8>) -> bool {
    forall|j: int| 0 <= j < name.len() ==> #[trigger] name[j] != SEPARATOR
}

/// A name that a directory entry can have.
pub open spec fn is_name(name: Seq<u8>) -> bool {
    &&& name.len() > 0
    &&& name != current_component()
    &&& name != parent_component()
    &&& is_clear(name)
}

/// Two paths overlap when one leads to the other.
pub open spec fn overlapping(left: Seq<u8>, right: Seq<u8>) -> bool {
    path_starts_with(left, right) || path_starts_with(right, left)
}

/// Joining follows an absolute second path and otherwise puts one separator between.
pub open spec fn joined(base: Seq<u8>, rest: Seq<u8>) -> Seq<u8> {
    if is_absolute(rest) {
        rest
    } else if base.len() == 0 || base.last() == SEPARATOR {
        base + rest
    } else {
        base.push(SEPARATOR) + rest
    }
}

/// Every inner component of pieces without separators is a component without separators.
proof fn lemma_inner_components_clear(pieces: Seq<Seq<u8>>)
    requires
        forall|i: int| 0 <= i < pieces.len() ==> is_clear(#[trigger] pieces[i]),
    ensures
        forall|i: int|
            0 <= i < inner_components(pieces).len() ==> is_inner_component(
                #[trigger] inner_components(pieces)[i],
            ) && is_clear(inner_components(pieces)[i]),
    decreases pieces.len(),
{
    if pieces.len() > 1 {
        let head = pieces.drop_last();
        assert forall|i: int| 0 <= i < head.len() implies is_clear(#[trigger] head[i]) by {
            assert(is_clear(pieces[i]));
        }
        lemma_inner_components_clear(head);
        assert(is_clear(pieces[pieces.len() - 1]));
        let all = inner_components(pieces);
        assert forall|i: int| 0 <= i < all.len() implies is_inner_component(#[trigger] all[i])
            && is_clear(all[i]) by {
            if i < inner_components(head).len() {
                assert(all[i] == inner_components(head)[i]);
            }
        }
    }
}

/// No component holds a separator.
pub proof fn lemma_components_clear(path: Seq<u8>)
    ensures
        forall|i: int| 0 <= i < components(path).len() ==> is_clear(#[trigger] components(path)[i]),
{
    if path.len() > 0 {
        let separates = seqs::is_exactly(SEPARATOR);
        let pieces = seqs::split_at_each(path, SEPARATOR);
        seqs::lemma_split_nonempty(path, separates);
        seqs::lemma_split_pieces_clear(path, separates);
        assert forall|i: int| 0 <= i < pieces.len() implies is_clear(#[trigger] pieces[i]) by {
            assert forall|j: int| 0 <= j < pieces[i].len() implies #[trigger] pieces[i][j]
                != SEPARATOR by {
                assert(!separates(pieces[i][j]));
            }
        }
        lemma_inner_components_clear(pieces);
        assert forall|i: int| 0 <= i < components(path).len() implies is_clear(
            #[trigger] components(path)[i],
        ) by {
            if i == 0 {
                assert(is_clear(pieces[0]));
            } else {
                assert(components(path)[i] == inner_components(pieces)[i - 1]);
            }
        }
    }
}

/// Resolving separator-free components leaves only directory-entry names.
pub proof fn lemma_resolved_names_are_names(list: Seq<Seq<u8>>)
    requires
        forall|i: int| 0 <= i < list.len() ==> is_clear(#[trigger] list[i]),
    ensures
        forall|i: int|
            0 <= i < resolved_names(list).len() ==> is_name(#[trigger] resolved_names(list)[i]),
    decreases list.len(),
{
    if list.len() > 0 {
        let head = list.drop_last();
        assert forall|i: int| 0 <= i < head.len() implies is_clear(#[trigger] head[i]) by {
            assert(is_clear(list[i]));
        }
        lemma_resolved_names_are_names(head);
        assert(is_clear(list[list.len() - 1]));
        if list.last().len() == 0 {
            assert(list.last() =~= root_component());
        }
        let all = resolved_names(list);
        assert forall|i: int| 0 <= i < all.len() implies is_name(#[trigger] all[i]) by {
            if i < resolved_names(head).len() {
                assert(all[i] == resolved_names(head)[i]);
            }
        }
    }
}

/// Names are inner components, so none of them is dropped.
proof fn lemma_inner_components_of_names(first: Seq<u8>, names: Seq<Seq<u8>>)
    requires
        forall|i: int| 0 <= i < names.len() ==> is_name(#[trigger] names[i]),
    ensures
        inner_components(seq![first] + names) == names,
    decreases names.len(),
{
    let list = seq![first] + names;
    if names.len() == 0 {
        assert(list.len() == 1);
        assert(inner_components(list) =~= names);
    } else {
        lemma_inner_components_of_names(first, names.drop_last());
        assert(list.drop_last() =~= seq![first] + names.drop_last());
        assert(list.last() == names.last());
        assert(is_name(names[names.len() - 1]));
        assert(names.drop_last().push(names.last()) =~= names);
    }
}

/// An absolute path built from names has the root and those names as its components.
pub proof fn lemma_components_of_absolute_path(names: Seq<Seq<u8>>)
    requires
        forall|i: int| 0 <= i < names.len() ==> is_name(#[trigger] names[i]),
    ensures
        components(absolute_path(names)) == seq![root_component()] + names,
{
    let path = absolute_path(names);
    let separates = seqs::is_exactly(SEPARATOR);
    if names.len() == 0 {
        assert(path =~= seq![SEPARATOR]);
        assert(path.drop_last() =~= Seq::<u8>::empty());
        assert(seqs::split_where(path.drop_last(), separates) =~= seq![Seq::<u8>::empty()]);
        let pieces = seqs::split_where(path, separates);
        assert(pieces =~= seq![Seq::<u8>::empty(), Seq::<u8>::empty()]);
        assert(pieces.drop_last() =~= seq![Seq::<u8>::empty()]);
        assert(inner_components(pieces.drop_last()) =~= Seq::<Seq<u8>>::empty());
        assert(inner_components(pieces) =~= names);
        assert(components(path) =~= seq![root_component()] + names);
    } else {
        let all = seq![Seq::<u8>::empty()] + names;
        assert forall|i: int, j: int| 0 <= i < all.len() && 0 <= j < all[i].len() implies
            #[trigger] all[i][j] != SEPARATOR by {
            if i > 0 {
                assert(is_name(names[i - 1]));
                assert(all[i] == names[i - 1]);
                assert(names[i - 1][j] != SEPARATOR);
            }
        }
        lemma_join_prepend(Seq::<u8>::empty(), names, SEPARATOR);
        assert(path =~= seqs::join_with(all, SEPARATOR));
        seqs::lemma_split_of_join(all, SEPARATOR);
        lemma_inner_components_of_names(Seq::<u8>::empty(), names);
        assert(components(path) =~= seq![root_component()] + names);
    }
}

/// Joining with one more piece in front.
proof fn lemma_join_prepend(first: Seq<u8>, names: Seq<Seq<u8>>, separator: u8)
    requires
        names.len() > 0,
    ensures
        seqs::join_with(seq![first] + names, separator) == first.push(separator) + seqs::join_with(
            names,
            separator,
        ),
    decreases names.len(),
{
    let all = seq![first] + names;
    if names.len() == 1 {
        assert(all.drop_last() =~= seq![first]);
        assert(seqs::join_with(all.drop_last(), separator) == first);
        assert(seqs::join_with(all, separator) =~= first.push(separator) + names[0]);
    } else {
        lemma_join_prepend(first, names.drop_last(), separator);
        assert(all.drop_last() =~= seq![first] + names.drop_last());
        assert(all.last() == names.last());
        assert(seqs::join_with(all, separator) =~= first.push(separator) + seqs::join_with(names, separator));
    }
}

/// Names resolve to themselves behind the root.
proof fn lemma_resolved_names_of_names(names: Seq<Seq<u8>>)
    requires
        forall|i: int| 0 <= i < names.len() ==> is_name(#[trigger] names[i]),
    ensures
        resolved_names(seq![root_component()] + names) == names,
    decreases names.len(),
{
    let list = seq![root_component()] + names;
    if names.len() == 0 {
        assert(list.drop_last() =~= Seq::<Seq<u8>>::empty());
        assert(list.last() == root_component());
        assert(resolved_names(list.drop_last()) =~= Seq::<Seq<u8>>::empty());
        assert(resolved_names(list) =~= names);
    } else {
        lemma_resolved_names_of_names(names.drop_last());
        assert(list.drop_last() =~= seq![root_component()] + names.drop_last());
        assert(list.last() == names.last());
        assert(is_name(names[names.len() - 1]));
        assert(names.drop_last().push(names.last()) =~= names);
    }
}

/// Normalization leaves an absolute path without `.`, `..` or repeated separators,
/// so normalizing once more changes nothing.
pub proof fn lemma_normalization_is_idempotent(path: Seq<u8>)
    ensures
        is_absolute(normalized(path)),
        normalized(normalized(path)) == normalized(path),
        components(normalized(path)) == seq![root_component()] + resolved_names(components(path)),
{
    let names = resolved_names(components(path));
    lemma_components_clear(path);
    lemma_resolved_names_are_names(components(path));
    lemma_components_of_absolute_path(names);
    lemma_resolved_names_of_names(names);
}

/// Path overlap does not depend on the order of its arguments.
pub proof fn lemma_overlap_is_symmetric(left: Seq<u8>, right: Seq<u8>)
    ensures
        overlapping(left, right) == overlapping(right, left),
        overlapping(left, left),
{
}

/// Tells whether a path is absolute.
pub fn path_is_absolute(path: &[u8]) -> (absolute: bool)
    ensures
        absolute == is_absolute(path@),
{
    path.len() > 0 && path[0] == SEPARATOR
}

fn is_dot(piece: &[u8]) -> (dot: bool)
    ensures
        dot == (piece@ == current_component()),
{
    let dot = piece.len() == 1 && piece[0] == 46;
    proof {
        if dot {
            assert(piece@ =~= current_component());
        }
    }
    dot
}

fn is_dot_dot(piece: &[u8]) -> (dots: bool)
    ensures
        dots == (piece@ == parent_component()),
{
    let dots = piece.len() == 2 && piece[0] == 46 && piece[1] == 46;
    proof {
        if dots {
            assert(piece@ =~= parent_component());
        }
    }
    dots
}

/// The components of a path, the root directory as an empty byte string.
pub fn path_components(path: &[u8]) -> (list: Vec<Vec<u8>>)
    ensures
        seqs::views(list@) == components(path@),
{
    if path.len() == 0 {
        let list: Vec<Vec<u8>> = Vec::new();
        assert(seqs::views(list@) =~= components(path@));
        return list;
    }
    let pieces = split_bytes(path, SEPARATOR);
    proof {
        seqs::lemma_split_nonempty(path@, seqs::is_exactly(SEPARATOR));
        assert(seqs::views(pieces@).len() == pieces@.len());
    }
    let ghost all = seqs::views(pieces@);
    let mut list: Vec<Vec<u8>> = Vec::new();
    list.push(copy_bytes(pieces[0].as_slice()));
    let mut i: usize = 1;
    proof {
        assert(all.take(1).len() == 1);
        assert(inner_components(all.take(1)) =~= Seq::<Seq<u8>>::empty());
        assert(seqs::views(list@) =~= seq![all[0]] + inner_components(all.take(1)));
    }
    while i < pieces.len()
        invariant
            1 <= i <= pieces.len(),
            all == seqs::views(pieces@),
            seqs::views(list@) == seq![all[0]] + inner_components(all.take(i as int)),
        decreases pieces.len() - i,
    {
        proof {
            assert(all.take(i + 1).drop_last() =~= all.take(i as int));
            assert(all.take(i + 1).last() == pieces@[i as int]@);
            if pieces@[i as int]@.len() == 0 {
                assert(!is_inner_component(pieces@[i as int]@));
            }
        }
        let ghost before = list@;
        if pieces[i].len() > 0 && !is_dot(pieces[i].as_slice()) {
            list.push(copy_bytes(pieces[i].as_slice()));
            proof {
                assert(seqs::views(list@) =~= seqs::views(before).push(pieces@[i as int]@));
                assert(seqs::views(list@) =~= seq![all[0]] + inner_components(all.take(i + 1)));
            }
        }
        i = i + 1;
    }
    proof {
        assert(all.take(all.len() as int) =~= all);
    }
    list
}

/// Tells whether `prefix` is where `list` starts.
pub fn list_starts_with(list: &Vec<Vec<u8>>, prefix: &Vec<Vec<u8>>) -> (starts: bool)
    ensures
        starts == seqs::views(prefix@).is_prefix_of(seqs::views(list@)),
{
    if prefix.len() > list.len() {
        return false;
    }
    let mut i: usize = 0;
    while i < prefix.len()
        invariant
            prefix.len() <= list.len(),
            i <= prefix.len(),
            forall|k: int| 0 <= k < i ==> seqs::views(prefix@)[k] == seqs::views(list@)[k],
        decreases prefix.len() - i,
    {
        if !bytes_equal(prefix[i].as_slice(), list[i].as_slice()) {
            proof {
                assert(seqs::views(prefix@)[i as int] != seqs::views(list@)[i as int]);
                assert(seqs::views(list@).subrange(0, prefix@.len() as int)[i as int]
                    != seqs::views(prefix@)[i as int]);
            }
            return false;
        }
        i = i + 1;
    }
    assert(seqs::views(list@).subrange(0, prefix@.len() as int) =~= seqs::views(prefix@));
    true
}

/// Tells whether `prefix` leads to `path`.
pub fn path_has_prefix(path: &[u8], prefix: &[u8]) -> (starts: bool)
    ensures
        starts == path_starts_with(path@, prefix@),
{
    let list = path_components(path);
    let start = path_components(prefix);
    list_starts_with(&list, &start)
}

/// Tells whether two paths have the same components.
pub fn paths_equal(left: &[u8], right: &[u8]) -> (equal: bool)
    ensures
        equal == (components(left@) == components(right@)),
{
    let mine = path_components(left);
    let other = path_components(right);
    let starts = list_starts_with(&mine, &other);
    proof {
        assert(seqs::views(mine@).len() == mine@.len());
        assert(seqs::views(other@).len() == other@.len());
        if starts && mine@.len() == other@.len() {
            assert(seqs::views(mine@) =~= seqs::views(other@));
        }
    }
    starts && mine.len() == other.len()
}

/// Tells whether one path leads to the other, or both are the same.
pub fn paths_overlap(left: &[u8], right: &[u8]) -> (overlap: bool)
    ensures
        overlap == overlapping(left@, right@),
{
    path_has_prefix(left, right) || path_has_prefix(right, left)
}

/// Resolves `.` and `..` in a component list from the root.
pub fn resolve_components(list: &Vec<Vec<u8>>) -> (names: Vec<Vec<u8>>)
    ensures
        seqs::views(names@) == resolved_names(seqs::views(list@)),
{
    let ghost all = seqs::views(list@);
    let mut names: Vec<Vec<u8>> = Vec::new();
    let mut i: usize = 0;
    proof {
        assert(all.take(0) =~= Seq::<Seq<u8>>::empty());
        assert(seqs::views(names@) =~= resolved_names(all.take(0)));
    }
    while i < list.len()
        invariant
            i <= list.len(),
            all == seqs::views(list@),
            seqs::views(names@) == resolved_names(all.take(i as int)),
        decreases list.len() - i,
    {
        let ghost before = names@;
        proof {
            assert(all.take(i + 1).drop_last() =~= all.take(i as int));
            assert(all.take(i + 1).last() == list@[i as int]@);
            assert(seqs::views(before).len() == before.len());
            if list@[i as int]@.len() == 0 {
                assert(list@[i as int]@ =~= root_component());
            }
        }
        let piece = list[i].as_slice();
        if piece.len() == 0 || is_dot(piece) {
        } else if is_dot_dot(piece) {
            let _ = names.pop();
            proof {
                if before.len() > 0 {
                    assert(seqs::views(names@) =~= seqs::views(before).drop_last());
                }
            }
        } else {
            names.push(copy_bytes(piece));
            proof {
                assert(seqs::views(names@) =~= seqs::views(before).push(piece@));
            }
        }
        i = i + 1;
    }
    proof {
        assert(all.take(all.len() as int) =~= all);
    }
    names
}

/// Builds the absolute path that visits the given names in turn.
pub fn absolute_from_names(names: &Vec<Vec<u8>>) -> (path: Vec<u8>)
    ensures
        path@ == absolute_path(seqs::views(names@)),
{
    let ghost all = seqs::views(names@);
    let mut path: Vec<u8> = Vec::new();
    path.push(SEPARATOR);
    let mut i: usize = 0;
    proof {
        assert(all.take(0) =~= Seq::<Seq<u8>>::empty());
        assert(path@ =~= absolute_path(all.take(0)));
    }
    while i < names.len()
        invariant
            i <= names.len(),
            all == seqs::views(names@),
            path@ == absolute_path(all.take(i as int)),
        decreases names.len() - i,
    {
        proof {
            assert(all.take(i + 1).drop_last() =~= all.take(i as int));
            assert(all.take(i + 1).last() == names@[i as int]@);
        }
        let ghost before = path@;
        if i > 0 {
            path.push(SEPARATOR);
        }
        path.extend_from_slice(names[i].as_slice());
        proof {
            if i == 0 {
                assert(seqs::join_with(all.take(0), SEPARATOR) =~= Seq::<u8>::empty());
                assert(path@ =~= before + names@[i as int]@);
            } else {
                assert(path@ =~= before.push(SEPARATOR) + names@[i as int]@);
            }
            assert(path@ =~= absolute_path(all.take(i + 1)));
        }
        i = i + 1;
    }
    proof {
        assert(all.take(all.len() as int) =~= all);
    }
    path
}

/// Resolves `.` and `..` in a path from the root.
pub fn normalize_path(path: &[u8]) -> (result: Vec<u8>)
    ensures
        result@ == normalized(path@),
{
    absolute_from_names(&resolve_components(&path_components(path)))
}

/// Joins two paths.
pub fn join_paths(base: &[u8], rest: &[u8]) -> (path: Vec<u8>)
    ensures
        path@ == joined(base@, rest@),
{
    if path_is_absolute(rest) {
        return copy_bytes(rest);
    }
    let mut path = copy_bytes(base);
    if base.len() > 0 && base[base.len() - 1] != SEPARATOR {
        path.push(SEPARATOR);
    }
    path.extend_from_slice(rest);
    assert(path@ =~= joined(base@, rest@));
    path
}

/// A name that is gone back from leaves the way as it was, and so do empty components and those
/// that stay where they are.
pub proof fn lemma_going_back_undoes_a_name(list: Seq<Seq<u8>>, name: Seq<u8>)
    requires
        is_name(name),
    ensures
        resolved_names(list.push(name)) == resolved_names(list).push(name),
        resolved_names(list.push(name).push(seq![46u8, 46u8])) == resolved_names(list),
        resolved_names(list.push(seq![46u8])) == resolved_names(list),
        resolved_names(list.push(Seq::empty())) == resolved_names(list),
        resolved_names(seq![seq![46u8, 46u8]]) == Seq::<Seq<u8>>::empty(),
{
    assert(list.push(name).drop_last() =~= list);
    let two = list.push(name).push(seq![46u8, 46u8]);
    assert(two.drop_last() =~= list.push(name));
    assert(resolved_names(list).push(name).drop_last() =~= resolved_names(list));
    assert(list.push(seq![46u8]).drop_last() =~= list);
    assert(list.push(Seq::empty()).drop_last() =~= list);
    assert(seq![46u8, 46u8].len() == 2 && seq![46u8].len() == 1);
    assert(seq![46u8, 46u8] != seq![46u8]) by {
        assert(seq![46u8, 46u8].len() != seq![46u8].len());
    }
    let back = seq![46u8, 46u8];
    assert(back == parent_component() && back.len() != root_component().len());
    assert(two.last() == back);
    assert(resolved_names(two) == resolved_names(list.push(name)).drop_last());
    let up = seq![back];
    assert(up.last() == back);
    assert(up.drop_last() =~= Seq::<Seq<u8>>::empty());
    assert(resolved_names(up.drop_last()) =~= Seq::<Seq<u8>>::empty());
    assert(resolved_names(up) =~= Seq::<Seq<u8>>::empty());
}

/// Two absolute paths overlap exactly where the names of one start the names of the other.
pub proof fn lemma_paths_overlap_by_their_names(left: Seq<Seq<u8>>, right: Seq<Seq<u8>>)
    requires
        forall|i: int| 0 <= i < left.len() ==> is_name(#[trigger] left[i]),
        forall|i: int| 0 <= i < right.len() ==> is_name(#[trigger] right[i]),
    ensures
        overlapping(absolute_path(left), absolute_path(right)) <==> left.is_prefix_of(right)
            || right.is_prefix_of(left),
        normalized(absolute_path(left)) == absolute_path(left),
{
    lemma_components_of_absolute_path(left);
    lemma_components_of_absolute_path(right);
    lemma_resolved_names_of_names(left);
    let one = seq![root_component()] + left;
    let other = seq![root_component()] + right;
    assert(one.skip(1) =~= left && other.skip(1) =~= right);
    lemma_prefix_behind_root(left, right);
    lemma_prefix_behind_root(right, left);
}

proof fn lemma_prefix_behind_root(short: Seq<Seq<u8>>, long: Seq<Seq<u8>>)
    ensures
        (seq![root_component()] + short).is_prefix_of(seq![root_component()] + long)
            <==> short.is_prefix_of(long),
{
    let one = seq![root_component()] + short;
    let other = seq![root_component()] + long;
    if one.is_prefix_of(other) {
        assert forall|i: int| 0 <= i < short.len() implies short[i] == long[i] by {
            assert(one[i + 1] == other[i + 1]);
        }
        assert(short =~= long.take(short.len() as int));
    }
    if short.is_prefix_of(long) {
        assert forall|i: int| 0 <= i < one.len() implies one[i] == other[i] by {
            if i > 0 {
                assert(short[i - 1] == long[i - 1]);
            }
        }
        assert(one =~= other.take(one.len() as int));
    }
}

/// Joining a name to an absolute path leads to that name below it.
pub proof fn lemma_joined_names_lie_below(names: Seq<Seq<u8>>, name: Seq<u8>)
    requires
        names.len() > 0,
        forall|i: int| 0 <= i < names.len() ==> is_name(#[trigger] names[i]),
        is_name(name),
    ensures
        joined(absolute_path(names), name) == absolute_path(names.push(name)),
        joined(absolute_path(names), absolute_path(names)) == absolute_path(names),
{
    let base = absolute_path(names);
    assert(name[0] != SEPARATOR);
    let pieces = names.push(name);
    assert(pieces.drop_last() =~= names);
    assert(pieces.last() == name);
    let joined_names = seqs::join_with(names, SEPARATOR);
    assert(names.last().len() > 0);
    lemma_join_ends_with_last(names);
    assert(base.last() == names.last().last());
    let last = names.last();
    assert(last[last.len() - 1] != SEPARATOR);
    assert(joined(base, name) =~= absolute_path(pieces));
}

proof fn lemma_join_ends_with_last(names: Seq<Seq<u8>>)
    requires
        names.len() > 0,
        names.last().len() > 0,
    ensures
        seqs::join_with(names, SEPARATOR).len() > 0,
        seqs::join_with(names, SEPARATOR).last() == names.last().last(),
{
}

} // verus!
