//! Where the packs of a locked graph come from.

use vstd::prelude::*;
use vstd::utf8::*;

use crate::capture;
use crate::error::GitSource;
use crate::path;
use crate::path::{absolute_from_names, path_components};
use crate::seqs;
use crate::seqs::{bytes_before, bytes_equal, copy_bytes, split_bytes};
use crate::text::text_equal;

verus! {

/// Where a pack comes from; `T` is the type of text.
#[derive(Clone, Debug, PartialEq, Eq)]
pub enum LockSource<T = String> {
    /// The root pack.
    Root,
    /// A directory, relative to the root pack.
    Local(T),
    /// An exact Git commit.
    Git(GitSource<T>),
}

impl View for LockSource<String> {
    type V = LockSource<Seq<char>>;

    open spec fn view(&self) -> LockSource<Seq<char>> {
        match *self {
            LockSource::Root => LockSource::Root,
            LockSource::Local(locator) => LockSource::Local(locator@),
            LockSource::Git(source) => LockSource::Git(source@),
        }
    }
}

/// One text comes before another in the order of their bytes.
pub open spec fn text_less(left: Seq<char>, right: Seq<char>) -> bool {
    seqs::bytes_less(encode_utf8(left), encode_utf8(right))
}

/// One Git source comes before another: by repository, then commit, then subdirectory.
pub open spec fn git_less(left: GitSource<Seq<char>>, right: GitSource<Seq<char>>) -> bool {
    if left.url != right.url {
        text_less(left.url, right.url)
    } else if left.commit != right.commit {
        text_less(left.commit, right.commit)
    } else {
        text_less(left.subdir, right.subdir)
    }
}

/// One source comes before another: the root first, then directories, then Git commits.
///
/// That this is the order in which locks hold their sources is assumed here: sources are
/// compared by what they are first, in the order of the variants of [`LockSource`], and by
/// their texts next, in the order of the fields of [`GitSource`].
pub open spec fn source_less(left: LockSource<Seq<char>>, right: LockSource<Seq<char>>) -> bool {
    match left {
        LockSource::Root => right !is Root,
        LockSource::Local(mine) => match right {
            LockSource::Root => false,
            LockSource::Local(other) => text_less(mine, other),
            LockSource::Git(_) => true,
        },
        LockSource::Git(mine) => match right {
            LockSource::Git(other) => git_less(mine, other),
            _ => false,
        },
    }
}

/// Tells whether one text comes before another in the order of their bytes.
pub fn text_before(left: &str, right: &str) -> (before: bool)
    ensures
        before == text_less(left@, right@),
{
    bytes_before(left.as_bytes(), right.as_bytes())
}

/// Tells whether two Git sources are the same.
pub fn same_git_source(left: &GitSource, right: &GitSource) -> (same: bool)
    ensures
        same == (left@ == right@),
{
    text_equal(left.url.as_str(), right.url.as_str()) && text_equal(
        left.commit.as_str(),
        right.commit.as_str(),
    ) && text_equal(left.subdir.as_str(), right.subdir.as_str())
}

impl LockSource {
    /// Tells whether two sources are the same.
    pub fn is_same(&self, other: &LockSource) -> (same: bool)
        ensures
            same == (self@ == other@),
    {
        match self {
            LockSource::Root => match other {
                LockSource::Root => true,
                _ => false,
            },
            LockSource::Local(mine) => match other {
                LockSource::Local(locator) => text_equal(mine.as_str(), locator.as_str()),
                _ => false,
            },
            LockSource::Git(mine) => match other {
                LockSource::Git(source) => same_git_source(mine, source),
                _ => false,
            },
        }
    }

    /// Tells whether this source comes before another.
    pub fn is_before(&self, other: &LockSource) -> (before: bool)
        ensures
            before == source_less(self@, other@),
    {
        match self {
            LockSource::Root => match other {
                LockSource::Root => false,
                _ => true,
            },
            LockSource::Local(mine) => match other {
                LockSource::Root => false,
                LockSource::Local(locator) => text_before(mine.as_str(), locator.as_str()),
                LockSource::Git(_) => true,
            },
            LockSource::Git(mine) => match other {
                LockSource::Git(source) => {
                    if !text_equal(mine.url.as_str(), source.url.as_str()) {
                        text_before(mine.url.as_str(), source.url.as_str())
                    } else if !text_equal(mine.commit.as_str(), source.commit.as_str()) {
                        text_before(mine.commit.as_str(), source.commit.as_str())
                    } else {
                        text_before(mine.subdir.as_str(), source.subdir.as_str())
                    }
                },
                _ => false,
            },
        }
    }

    /// Copies the source.
    pub fn copied(&self) -> (copy: LockSource)
        ensures
            copy@ == self@,
    {
        match self {
            LockSource::Root => LockSource::Root,
            LockSource::Local(locator) => LockSource::Local(locator.clone()),
            LockSource::Git(source) => LockSource::Git(source.copied()),
        }
    }
}

/// Sources are totally ordered: of two different ones exactly one comes first, and the order
/// carries over.
pub proof fn lemma_sources_are_ordered(
    a: LockSource<Seq<char>>,
    b: LockSource<Seq<char>>,
    c: LockSource<Seq<char>>,
)
    ensures
        !source_less(a, a),
        a != b ==> source_less(a, b) != source_less(b, a),
        source_less(a, b) && source_less(b, c) ==> source_less(a, c),
{
    lemma_text_order(text_of(a, 0), text_of(b, 0), text_of(c, 0));
    lemma_text_order(text_of(a, 1), text_of(b, 1), text_of(c, 1));
    lemma_text_order(text_of(a, 2), text_of(b, 2), text_of(c, 2));
}

spec fn text_of(source: LockSource<Seq<char>>, index: int) -> Seq<char> {
    match source {
        LockSource::Root => Seq::empty(),
        LockSource::Local(locator) => locator,
        LockSource::Git(git) => if index == 0 {
            git.url
        } else if index == 1 {
            git.commit
        } else {
            git.subdir
        },
    }
}

/// Texts are totally ordered by their bytes.
pub proof fn lemma_text_order(a: Seq<char>, b: Seq<char>, c: Seq<char>)
    ensures
        !text_less(a, a),
        a != b ==> text_less(a, b) != text_less(b, a),
        text_less(a, b) && text_less(b, c) ==> text_less(a, c),
{
    let x = encode_utf8(a);
    let y = encode_utf8(b);
    let z = encode_utf8(c);
    seqs::lemma_bytes_less_irreflexive(x);
    if a != b {
        if x == y {
            crate::text::lemma_encoding_injective(a, b);
        }
        seqs::lemma_bytes_less_total(x, y);
        if seqs::bytes_less(x, y) && seqs::bytes_less(y, x) {
            seqs::lemma_bytes_less_transitive(x, y, x);
        }
    }
    if seqs::bytes_less(x, y) && seqs::bytes_less(y, z) {
        seqs::lemma_bytes_less_transitive(x, y, z);
    }
}

/// The components that a locator leads to: `..` gives up the last component, unless it is the
/// root directory; names are added.
pub open spec fn located(start: Seq<Seq<u8>>, way: Seq<Seq<u8>>) -> Seq<Seq<u8>>
    decreases way.len(),
{
    if way.len() == 0 {
        start
    } else {
        let before = located(start, way.drop_last());
        if way.last() == path::parent_component() {
            if before.len() == 0 || before.last() == path::root_component() {
                before
            } else {
                before.drop_last()
            }
        } else {
            before.push(way.last())
        }
    }
}

/// The path that components spell out.
pub open spec fn spelled(components: Seq<Seq<u8>>) -> Seq<u8> {
    if components.len() > 0 && components[0] == path::root_component() {
        path::absolute_path(components.skip(1))
    } else {
        seqs::join_with(components, path::SEPARATOR)
    }
}

fn spell(list: &Vec<Vec<u8>>) -> (result: Vec<u8>)
    ensures
        result@ == spelled(seqs::views(list@)),
{
    let ghost all = seqs::views(list@);
    if list.len() > 0 && list[0].len() == 0 {
        proof {
            assert(all[0] == list@[0]@);
            assert(all[0] =~= path::root_component());
        }
        let mut names: Vec<Vec<u8>> = Vec::new();
        let mut i: usize = 1;
        proof {
            assert(seqs::views(names@) =~= all.subrange(1, 1));
        }
        while i < list.len()
            invariant
                1 <= i <= list.len(),
                all == seqs::views(list@),
                seqs::views(names@) == all.subrange(1, i as int),
            decreases list.len() - i,
        {
            let ghost before = names@;
            names.push(copy_bytes(list[i].as_slice()));
            proof {
                assert(all[i as int] == list@[i as int]@);
                assert(seqs::views(names@) =~= seqs::views(before).push(all[i as int]));
                assert(all.subrange(1, i + 1) =~= all.subrange(1, i as int).push(all[i as int]));
            }
            i = i + 1;
        }
        proof {
            assert(all.skip(1) =~= all.subrange(1, all.len() as int));
        }
        return absolute_from_names(&names);
    }
    proof {
        if all.len() > 0 {
            assert(all[0] == list@[0]@);
        }
    }
    let mut result: Vec<u8> = Vec::new();
    let mut i: usize = 0;
    proof {
        assert(all.take(0) =~= Seq::<Seq<u8>>::empty());
        assert(result@ =~= seqs::join_with(all.take(0), path::SEPARATOR));
    }
    while i < list.len()
        invariant
            i <= list.len(),
            all == seqs::views(list@),
            result@ == seqs::join_with(all.take(i as int), path::SEPARATOR),
        decreases list.len() - i,
    {
        let ghost before = result@;
        proof {
            assert(all.take(i + 1).drop_last() =~= all.take(i as int));
            assert(all.take(i + 1).last() == list@[i as int]@);
        }
        if i > 0 {
            result.push(path::SEPARATOR);
        }
        result.extend_from_slice(list[i].as_slice());
        proof {
            if i == 0 {
                assert(before =~= Seq::<u8>::empty());
                assert(result@ =~= list@[i as int]@);
                assert(all.take(1)[0] == list@[0]@);
            } else {
                assert(result@ =~= before.push(path::SEPARATOR) + list@[i as int]@);
            }
        }
        i = i + 1;
    }
    proof {
        assert(all.take(all.len() as int) =~= all);
    }
    result
}

/// Returns the directory that a locator names, relative to the root pack.
pub fn resolve_locator(root_source: &[u8], locator: &[u8]) -> (resolved: Vec<u8>)
    ensures
        resolved@ == if locator@ == path::current_component() {
            root_source@
        } else {
            spelled(
                located(
                    path::components(root_source@),
                    capture::locator_components(locator@),
                ),
            )
        },
{
    if locator.len() == 1 && locator[0] == 46 {
        proof {
            assert(locator@ =~= path::current_component());
        }
        return copy_bytes(root_source);
    }
    proof {
        if locator@ == path::current_component() {
            assert(locator@.len() == 1 && locator@[0] == 46);
        }
    }
    let pieces = split_bytes(locator, path::SEPARATOR);
    let ghost way = seqs::views(pieces@);
    let mut list = path_components(root_source);
    let ghost start = seqs::views(list@);
    let above: [u8; 2] = [46, 46];
    let mut i: usize = 0;
    proof {
        assert(way.take(0) =~= Seq::<Seq<u8>>::empty());
        assert(above@ =~= path::parent_component());
    }
    while i < pieces.len()
        invariant
            i <= pieces.len(),
            way == seqs::views(pieces@),
            above@ == path::parent_component(),
            seqs::views(list@) == located(start, way.take(i as int)),
        decreases pieces.len() - i,
    {
        let ghost before = list@;
        let piece = pieces[i].as_slice();
        proof {
            assert(way.take(i + 1).drop_last() =~= way.take(i as int));
            assert(way.take(i + 1).last() == piece@);
            assert(seqs::views(before).len() == before.len());
            if before.len() > 0 {
                assert(seqs::views(before).last() == before.last()@);
                if before.last()@.len() == 0 {
                    assert(before.last()@ =~= path::root_component());
                }
            }
        }
        if bytes_equal(piece, above.as_slice()) {
            if list.len() > 0 && list[list.len() - 1].len() > 0 {
                let _ = list.pop();
                proof {
                    assert(seqs::views(list@) =~= seqs::views(before).drop_last());
                }
            }
        } else {
            list.push(copy_bytes(piece));
            proof {
                assert(seqs::views(list@) =~= seqs::views(before).push(piece@));
            }
        }
        i = i + 1;
    }
    proof {
        assert(way.take(way.len() as int) =~= way);
    }
    spell(&list)
}

/// Going down a way of names adds them behind the start.
pub proof fn lemma_located_names_lie_below(start: Seq<Seq<u8>>, way: Seq<Seq<u8>>)
    requires
        forall|i: int| 0 <= i < way.len() ==> #[trigger] way[i] != seq![46u8, 46u8],
    ensures
        located(start, way) == start + way,
    decreases way.len(),
{
    if way.len() == 0 {
        assert(start + way =~= start);
    } else {
        lemma_located_names_lie_below(start, way.drop_last());
        assert(way[way.len() - 1] != seq![46u8, 46u8]);
        assert((start + way.drop_last()).push(way.last()) =~= start + way);
    }
}

/// Going up takes back the last name, whatever the way to it was, and stays at the root.
pub proof fn lemma_located_parents_lie_above(start: Seq<Seq<u8>>, way: Seq<Seq<u8>>, name: Seq<u8>)
    requires
        name.len() > 0,
        name != seq![46u8, 46u8],
    ensures
        located(start, way.push(name).push(seq![46u8, 46u8])) == located(start, way),
        located(seq![Seq::<u8>::empty()], seq![seq![46u8, 46u8]]) == seq![Seq::<u8>::empty()],
{
    let down = way.push(name);
    let back = down.push(seq![46u8, 46u8]);
    assert(back.drop_last() =~= down);
    assert(down.drop_last() =~= way);
    assert(located(start, down) == located(start, way).push(name));
    assert(located(start, way).push(name).drop_last() =~= located(start, way));
    let top = seq![Seq::<u8>::empty()];
    let up = seq![seq![46u8, 46u8]];
    assert(up.drop_last() =~= Seq::<Seq<u8>>::empty());
    assert(located(top, up.drop_last()) == top);
    assert(up.last() == path::parent_component());
    assert(top.last() == path::root_component());
}

} // verus!
