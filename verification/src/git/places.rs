//! The places in a pack that its trees stand for: no two of them are the same.

use vstd::prelude::*;
use vstd::utf8::*;

use crate::git::reader;
use crate::git::reader::WalkModel;
use crate::git::tree;
use crate::git::tree::TreeEntry;

verus! {

/// A path is a place or lies below it; everything lies below the root.
pub open spec fn is_within(place: Seq<char>, path: Seq<char>) -> bool {
    place.len() == 0 || path == place || place.push('/').is_prefix_of(path)
}

/// A path lies neither below a tree that is still to be visited nor above it, and no file was
/// found at or below it.
pub open spec fn keeps_apart(walk: WalkModel, path: Seq<char>) -> bool {
    &&& forall|i: int|
        0 <= i < walk.stack.len() ==> !is_within(#[trigger] walk.stack[i].parent, path)
            && !is_within(path, walk.stack[i].parent)
    &&& forall|k: int| 0 <= k < walk.blobs.len() ==> !is_within(path, #[trigger] walk.blobs[k].path)
}

/// Trees that are still to be visited lie apart from each other and from what was found, and
/// no file was found twice.
pub open spec fn are_apart(walk: WalkModel) -> bool {
    &&& forall|i: int, j: int|
        0 <= i < walk.stack.len() && 0 <= j < walk.stack.len() && i != j ==> !is_within(
            #[trigger] walk.stack[i].parent,
            #[trigger] walk.stack[j].parent,
        )
    &&& forall|i: int, k: int|
        0 <= i < walk.stack.len() && 0 <= k < walk.blobs.len() ==> !is_within(
            #[trigger] walk.stack[i].parent,
            #[trigger] walk.blobs[k].path,
        )
    &&& forall|i: int, j: int|
        0 <= i < j < walk.blobs.len() ==> #[trigger] walk.blobs[i].path
            != #[trigger] walk.blobs[j].path
}

/// The path of an entry below `parent`.
pub open spec fn entry_path(parent: Seq<char>, entry: TreeEntry<Seq<char>, Seq<u8>>) -> Seq<char> {
    reader::logical_path(parent, decode_utf8(entry.name))
}

/// The entries from `next` on stand for places of their own, apart from everything else.
pub open spec fn entries_apart(
    walk: WalkModel,
    parent: Seq<char>,
    entries: Seq<TreeEntry<Seq<char>, Seq<u8>>>,
    next: int,
) -> bool {
    &&& are_apart(walk)
    &&& tree::names_distinct(entries)
    &&& tree::names_are_leaves(entries)
    &&& forall|i: int|
        next <= i < entries.len() && valid_utf8((#[trigger] entries[i]).name) ==> keeps_apart(
            walk,
            entry_path(parent, entries[i]),
        )
}

proof fn lemma_encoded_slash(chars: Seq<char>)
    ensures
        chars.contains('/') ==> encode_utf8(chars).contains(47u8),
    decreases chars.len(),
{
    if chars.contains('/') {
        let i = choose|i: int| 0 <= i < chars.len() && chars[i] == '/';
        let head = encode_scalar(chars[0] as u32);
        let tail = encode_utf8(chars.drop_first());
        assert(encode_utf8(chars) == head + tail);
        if i == 0 {
            let slash = seq!['/'];
            assert(is_ascii_chars(slash));
            is_ascii_chars_encode_utf8(slash);
            assert(slash.drop_first() =~= Seq::<char>::empty());
            assert(encode_utf8(slash) =~= head);
            assert(encode_utf8(slash)[0] == slash[0] as u8);
            assert((head + tail)[0] == 47);
        } else {
            assert(chars.drop_first()[i - 1] == '/');
            lemma_encoded_slash(chars.drop_first());
            let k = choose|k: int| 0 <= k < tail.len() && tail[k] == 47;
            assert((head + tail)[head.len() + k] == 47);
        }
    }
}

/// The text of a name is neither empty nor holds a separator.
proof fn lemma_decoded_name(name: Seq<u8>)
    requires
        valid_utf8(name),
        name.len() > 0,
        !name.contains(47u8),
    ensures
        decode_utf8(name).len() > 0,
        !decode_utf8(name).contains('/'),
        encode_utf8(decode_utf8(name)) == name,
{
    decode_utf8_encode_utf8(name);
    lemma_encoded_slash(decode_utf8(name));
}

/// Different names below one place stand apart.
proof fn lemma_siblings(parent: Seq<char>, left: Seq<char>, right: Seq<char>)
    requires
        left.len() > 0,
        right.len() > 0,
        !left.contains('/'),
        !right.contains('/'),
        left != right,
    ensures
        !is_within(reader::logical_path(parent, left), reader::logical_path(parent, right)),
{
    reveal_strlit("/");
    let start = if parent.len() == 0 {
        Seq::empty()
    } else {
        parent + "/"@
    };
    let a = reader::logical_path(parent, left);
    let b = reader::logical_path(parent, right);
    assert(a =~= start + left);
    assert(b =~= start + right);
    if a == b {
        assert(left =~= a.skip(start.len() as int));
        assert(right =~= a.skip(start.len() as int));
    }
    if a.push('/').is_prefix_of(b) {
        let k = a.len() as int;
        assert(a.push('/')[k] == '/');
        assert(b[k] == '/');
        assert(right[k - start.len()] == '/');
    }
}

/// What lies below a place that stands apart from another stands apart from it too.
proof fn lemma_below(parent: Seq<char>, name: Seq<char>, place: Seq<char>)
    requires
        parent.len() > 0,
        name.len() > 0,
        !name.contains('/'),
        !is_within(parent, place),
    ensures
        !is_within(reader::logical_path(parent, name), place),
        !is_within(place, parent) ==> !is_within(place, reader::logical_path(parent, name)),
{
    reveal_strlit("/");
    let start = parent.push('/');
    let path = reader::logical_path(parent, name);
    assert(path =~= start + name);
    assert(start.is_prefix_of(path)) by {
        assert(start =~= path.subrange(0, start.len() as int));
    }
    if path == place {
        assert(start.is_prefix_of(place));
    }
    if path.push('/').is_prefix_of(place) {
        assert(start =~= place.subrange(0, start.len() as int)) by {
            assert forall|i: int| 0 <= i < start.len() implies start[i] == place[i] by {
                assert(path.push('/')[i] == place.subrange(0, path.len() as int + 1)[i]);
                assert(path.push('/')[i] == path[i]);
                assert(path[i] == start[i]);
            }
        }
        assert(start.is_prefix_of(place));
    }
    if !is_within(place, parent) && is_within(place, path) {
        if path == place {
        } else {
            let end = place.push('/');
            assert(end.is_prefix_of(path));
            let k = place.len() as int;
            assert(end[k] == '/');
            assert(path[k] == '/') by {
                assert(end[k] == path.subrange(0, end.len() as int)[k]);
            }
            if k >= start.len() {
                assert(name[k - start.len()] == '/');
            } else if k == parent.len() {
                assert(place =~= parent) by {
                    assert forall|i: int| 0 <= i < k implies place[i] == parent[i] by {
                        assert(end[i] == path.subrange(0, end.len() as int)[i]);
                    }
                }
            } else {
                assert(end =~= parent.subrange(0, end.len() as int)) by {
                    assert forall|i: int| 0 <= i < end.len() implies end[i] == parent[i] by {
                        assert(end[i] == path.subrange(0, end.len() as int)[i]);
                    }
                }
                assert(end.is_prefix_of(parent));
            }
        }
    }
}

/// The entries of a tree that stands apart stand for places of their own.
pub proof fn lemma_tree_entered(
    walk: WalkModel,
    parent: Seq<char>,
    entries: Seq<TreeEntry<Seq<char>, Seq<u8>>>,
)
    requires
        are_apart(walk),
        keeps_apart(walk, parent),
        tree::names_distinct(entries),
        tree::names_are_leaves(entries),
    ensures
        entries_apart(walk, parent, entries, 0),
{
    assert forall|i: int|
        0 <= i < entries.len() && valid_utf8((#[trigger] entries[i]).name) implies keeps_apart(
        walk,
        entry_path(parent, entries[i]),
    ) by {
        let name = decode_utf8(entries[i].name);
        lemma_decoded_name(entries[i].name);
        let path = entry_path(parent, entries[i]);
        assert forall|s: int| 0 <= s < walk.stack.len() implies !is_within(
            #[trigger] walk.stack[s].parent,
            path,
        ) && !is_within(path, walk.stack[s].parent) by {
            lemma_below(parent, name, walk.stack[s].parent);
        }
        assert forall|k: int| 0 <= k < walk.blobs.len() implies !is_within(
            path,
            #[trigger] walk.blobs[k].path,
        ) by {
            lemma_below(parent, name, walk.blobs[k].path);
        }
    }
}

/// Taking in an entry leaves the entries behind it places of their own.
pub proof fn lemma_entry_placed(
    walk: WalkModel,
    parent: Seq<char>,
    entries: Seq<TreeEntry<Seq<char>, Seq<u8>>>,
    next: int,
    after: WalkModel,
)
    requires
        0 <= next < entries.len(),
        entries_apart(walk, parent, entries, next),
        valid_utf8(entries[next].name),
        reader::placed(walk, entries[next], entry_path(parent, entries[next])) == Ok::<
            WalkModel,
            crate::git::issue::GitAcquisitionIssue<Seq<char>>,
        >(after),
    ensures
        entries_apart(after, parent, entries, next + 1),
{
    let path = entry_path(parent, entries[next]);
    assert(keeps_apart(walk, path));
    lemma_decoded_name(entries[next].name);
    assert(are_apart(after)) by {
        assert forall|i: int, j: int|
            0 <= i < after.stack.len() && 0 <= j < after.stack.len() && i != j implies !is_within(
            #[trigger] after.stack[i].parent,
            #[trigger] after.stack[j].parent,
        ) by {
            if i < walk.stack.len() && j < walk.stack.len() {
                assert(after.stack[i] == walk.stack[i]);
                assert(after.stack[j] == walk.stack[j]);
                assert(!is_within(walk.stack[i].parent, walk.stack[j].parent));
            } else if i < walk.stack.len() {
                assert(after.stack[i] == walk.stack[i]);
                assert(!is_within(walk.stack[i].parent, path));
            } else {
                assert(after.stack[j] == walk.stack[j]);
                assert(!is_within(path, walk.stack[j].parent));
            }
        }
        assert forall|i: int, k: int|
            0 <= i < after.stack.len() && 0 <= k < after.blobs.len() implies !is_within(
            #[trigger] after.stack[i].parent,
            #[trigger] after.blobs[k].path,
        ) by {
            if i < walk.stack.len() && k < walk.blobs.len() {
                assert(!is_within(walk.stack[i].parent, walk.blobs[k].path));
            } else if i < walk.stack.len() {
                assert(!is_within(walk.stack[i].parent, path));
            } else {
                assert(!is_within(path, walk.blobs[k].path));
            }
        }
        assert forall|i: int, j: int| 0 <= i < j < after.blobs.len() implies #[trigger] after.blobs[i].path
            != #[trigger] after.blobs[j].path by {
            if j < walk.blobs.len() {
                assert(walk.blobs[i].path != walk.blobs[j].path);
            } else {
                assert(!is_within(path, walk.blobs[i].path));
            }
        }
    }
    assert forall|i: int|
        next + 1 <= i < entries.len() && valid_utf8(
            (#[trigger] entries[i]).name,
        ) implies keeps_apart(after, entry_path(parent, entries[i])) by {
        let other = entry_path(parent, entries[i]);
        lemma_decoded_name(entries[i].name);
        assert(entries[next].name != entries[i].name);
        lemma_siblings(parent, decode_utf8(entries[i].name), decode_utf8(entries[next].name));
        lemma_siblings(parent, decode_utf8(entries[next].name), decode_utf8(entries[i].name));
        assert(keeps_apart(walk, other));
        assert forall|s: int| 0 <= s < after.stack.len() implies !is_within(
            #[trigger] after.stack[s].parent,
            other,
        ) && !is_within(other, after.stack[s].parent) by {
            if s < walk.stack.len() {
                assert(after.stack[s] == walk.stack[s]);
                assert(!is_within(walk.stack[s].parent, other));
            }
        }
        assert forall|k: int| 0 <= k < after.blobs.len() implies !is_within(
            other,
            #[trigger] after.blobs[k].path,
        ) by {
            if k < walk.blobs.len() {
                assert(after.blobs[k] == walk.blobs[k]);
                assert(!is_within(other, walk.blobs[k].path));
            }
        }
    }
}

} // verus!
