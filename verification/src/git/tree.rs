//! Raw Git commits and trees.

use vstd::prelude::*;
use vstd::utf8::*;

use crate::git::issue::{malformed, GitAcquisitionIssue};
use crate::git::object;
use crate::git::object::{encode_hex, GitObjectFormat, GitObjectKind};
use crate::limits::{MAX_PACK_TREE_BYTES, MAX_PACK_TREE_ENTRIES};
use crate::seqs;
use crate::seqs::{bytes_equal, copy_bytes, find_byte, split_bytes};
use crate::sort;
use crate::sort::stable_order;
use crate::text;
use crate::text::{lossy_text, utf8_text};

verus! {

/// Most raw tree bytes read for one pack.
pub const MAX_TOTAL_RAW_TREE_BYTES: u64 = MAX_PACK_TREE_BYTES;

/// Most tree entries looked at for one pack.
pub const MAX_GIT_TRAVERSAL_ENTRIES: usize = MAX_PACK_TREE_ENTRIES * 32;

/// The mode of a tree entry; `T` is the type of the text that spells an unknown one.
#[derive(Debug)]
pub enum TreeMode<T = String> {
    Tree,
    Regular(u32),
    Symlink,
    Gitlink,
    Unsupported(T),
}

impl View for TreeMode<String> {
    type V = TreeMode<Seq<char>>;

    open spec fn view(&self) -> TreeMode<Seq<char>> {
        match *self {
            TreeMode::Tree => TreeMode::Tree,
            TreeMode::Regular(mode) => TreeMode::Regular(mode),
            TreeMode::Symlink => TreeMode::Symlink,
            TreeMode::Gitlink => TreeMode::Gitlink,
            TreeMode::Unsupported(spelling) => TreeMode::Unsupported(spelling@),
        }
    }
}

/// The mode that a tree entry's leading digits spell.
pub open spec fn mode_of(spelling: Seq<u8>) -> TreeMode<Seq<char>> {
    if spelling == encode_utf8("40000"@) {
        TreeMode::Tree
    } else if spelling == encode_utf8("100644"@) {
        TreeMode::Regular(0o644)
    } else if spelling == encode_utf8("100755"@) {
        TreeMode::Regular(0o755)
    } else if spelling == encode_utf8("120000"@) {
        TreeMode::Symlink
    } else if spelling == encode_utf8("160000"@) {
        TreeMode::Gitlink
    } else {
        TreeMode::Unsupported(text::utf8_lossy(spelling))
    }
}

/// Regular modes are the two that Git commits.
pub open spec fn is_committed_mode<T>(mode: TreeMode<T>) -> bool {
    mode matches TreeMode::Regular(bits) ==> bits == 0o644 || bits == 0o755
}

/// How Git spells a mode.
pub open spec fn mode_spelling(mode: TreeMode<Seq<char>>) -> Seq<char> {
    match mode {
        TreeMode::Tree => "40000"@,
        TreeMode::Regular(bits) => if bits == 0o644 {
            "100644"@
        } else {
            "100755"@
        },
        TreeMode::Symlink => "120000"@,
        TreeMode::Gitlink => "160000"@,
        TreeMode::Unsupported(spelling) => spelling,
    }
}

impl TreeMode<String> {
    /// Reads a mode from its spelling.
    pub fn from_bytes(bytes: &[u8]) -> (mode: TreeMode)
        ensures
            mode@ == mode_of(bytes@),
            is_committed_mode(mode),
            valid_utf8(bytes@) ==> encode_utf8(mode_spelling(mode@)) == bytes@,
    {
        if bytes_equal(bytes, "40000".as_bytes()) {
            TreeMode::Tree
        } else if bytes_equal(bytes, "100644".as_bytes()) {
            TreeMode::Regular(0o644)
        } else if bytes_equal(bytes, "100755".as_bytes()) {
            TreeMode::Regular(0o755)
        } else if bytes_equal(bytes, "120000".as_bytes()) {
            TreeMode::Symlink
        } else if bytes_equal(bytes, "160000".as_bytes()) {
            TreeMode::Gitlink
        } else {
            TreeMode::Unsupported(lossy_text(bytes))
        }
    }

    /// Returns how Git spells the mode.
    pub fn as_str(&self) -> (spelling: &str)
        requires
            is_committed_mode(*self),
        ensures
            spelling@ == mode_spelling(self@),
    {
        match self {
            TreeMode::Tree => "40000",
            TreeMode::Regular(bits) => if *bits == 0o644 {
                "100644"
            } else {
                "100755"
            },
            TreeMode::Symlink => "120000",
            TreeMode::Gitlink => "160000",
            TreeMode::Unsupported(spelling) => spelling.as_str(),
        }
    }
}

/// Reading a mode and spelling it again gives back a valid UTF-8 spelling.
pub proof fn lemma_mode_spelling_round_trip(spelling: Seq<char>)
    requires
        mode_of(encode_utf8(spelling)) !is Unsupported,
    ensures
        mode_spelling(mode_of(encode_utf8(spelling))) == spelling,
{
    if encode_utf8(spelling) == encode_utf8("40000"@) {
        text::lemma_encoding_injective(spelling, "40000"@);
    } else if encode_utf8(spelling) == encode_utf8("100644"@) {
        text::lemma_encoding_injective(spelling, "100644"@);
    } else if encode_utf8(spelling) == encode_utf8("100755"@) {
        text::lemma_encoding_injective(spelling, "100755"@);
    } else if encode_utf8(spelling) == encode_utf8("120000"@) {
        text::lemma_encoding_injective(spelling, "120000"@);
    } else {
        text::lemma_encoding_injective(spelling, "160000"@);
    }
}

/// One entry of a tree: mode, raw name and object ID. `T` is the type of texts, `B` that of
/// byte strings.
#[derive(Debug)]
pub struct TreeEntry<T = String, B = Vec<u8>> {
    pub mode: TreeMode<T>,
    pub name: B,
    pub oid: T,
}

impl View for TreeEntry<String, Vec<u8>> {
    type V = TreeEntry<Seq<char>, Seq<u8>>;

    open spec fn view(&self) -> TreeEntry<Seq<char>, Seq<u8>> {
        TreeEntry { mode: self.mode@, name: self.name@, oid: self.oid@ }
    }
}

/// Work done on trees of one pack: entries looked at and raw tree bytes read.
#[derive(Clone, Copy, Debug, PartialEq, Eq, Structural)]
pub struct TraversalBudget {
    pub entries: usize,
    pub raw_tree_bytes: u64,
}

/// The sum, or the largest 64-bit number where the sum is larger.
pub open spec fn saturating_sum(a: nat, b: nat) -> nat {
    if a + b > u64::MAX {
        u64::MAX as nat
    } else {
        a + b
    }
}

impl TraversalBudget {
    /// No work done yet.
    pub fn fresh() -> (budget: Self)
        ensures
            budget.entries == 0,
            budget.raw_tree_bytes == 0,
    {
        TraversalBudget { entries: 0, raw_tree_bytes: 0 }
    }

    /// Adds the bytes of one raw tree; the total stays added also where it is too large.
    pub fn charge_tree(&mut self, bytes: usize) -> (charged: Result<(), GitAcquisitionIssue>)
        ensures
            final(self).entries == old(self).entries,
            final(self).raw_tree_bytes == saturating_sum(
                old(self).raw_tree_bytes as nat,
                bytes as nat,
            ),
            charged is Ok <==> final(self).raw_tree_bytes <= MAX_TOTAL_RAW_TREE_BYTES,
            charged matches Err(issue) ==> issue@ == (GitAcquisitionIssue::<
                Seq<char>,
            >::RawTreesTooLarge {
                limit: MAX_TOTAL_RAW_TREE_BYTES,
                actual: final(self).raw_tree_bytes,
            }),
    {
        self.raw_tree_bytes = self.raw_tree_bytes.saturating_add(bytes as u64);
        if self.raw_tree_bytes > MAX_TOTAL_RAW_TREE_BYTES {
            return Err(
                GitAcquisitionIssue::RawTreesTooLarge {
                    limit: MAX_TOTAL_RAW_TREE_BYTES,
                    actual: self.raw_tree_bytes,
                },
            );
        }
        Ok(())
    }

    /// Adds one entry, unless the budget is used up.
    pub fn charge_entry(&mut self) -> (charged: Result<(), GitAcquisitionIssue>)
        requires
            old(self).entries <= MAX_GIT_TRAVERSAL_ENTRIES,
        ensures
            charged is Ok <==> old(self).entries < MAX_GIT_TRAVERSAL_ENTRIES,
            charged is Ok ==> *final(self) == (TraversalBudget {
                entries: (old(self).entries + 1) as usize,
                raw_tree_bytes: old(self).raw_tree_bytes,
            }),
            charged matches Err(issue) ==> *final(self) == *old(self) && issue@ == (
            GitAcquisitionIssue::<Seq<char>>::TraversalLimitExceeded {
                limit: MAX_GIT_TRAVERSAL_ENTRIES,
            }),
    {
        if self.entries == MAX_GIT_TRAVERSAL_ENTRIES {
            return Err(
                GitAcquisitionIssue::TraversalLimitExceeded { limit: MAX_GIT_TRAVERSAL_ENTRIES },
            );
        }
        self.entries = self.entries + 1;
        Ok(())
    }
}

/// A malformed tree.
pub open spec fn bad_tree(detail: Seq<char>) -> GitAcquisitionIssue<Seq<char>> {
    GitAcquisitionIssue::MalformedObject { kind: GitObjectKind::Tree, detail }
}

/// What reading tree entries from the front of a byte string gives: the entries or the first
/// issue, and the number of entries charged by then.
pub open spec fn scan_tree(bytes: Seq<u8>, format: GitObjectFormat, charged: nat) -> (
    Result<Seq<TreeEntry<Seq<char>, Seq<u8>>>, GitAcquisitionIssue<Seq<char>>>,
    nat,
)
    decreases bytes.len(),
{
    if bytes.len() == 0 {
        (Ok(Seq::empty()), charged)
    } else {
        let space = seqs::first_index_of(bytes, 32u8);
        let tail = bytes.skip(space + 1);
        let nul = seqs::first_index_of(tail, 0u8);
        let name = tail.take(nul);
        let id = tail.skip(nul + 1);
        let id_length = (format.digits() / 2) as int;
        if space >= bytes.len() {
            (Err(bad_tree("tree entry has no mode separator"@)), charged)
        } else if nul >= tail.len() {
            (Err(bad_tree("tree entry has no name terminator"@)), charged)
        } else if name.len() == 0 || name.contains(47u8) {
            (Err(bad_tree("tree entry has an invalid raw name"@)), charged)
        } else if charged >= MAX_GIT_TRAVERSAL_ENTRIES {
            (
                Err(
                    GitAcquisitionIssue::TraversalLimitExceeded {
                        limit: MAX_GIT_TRAVERSAL_ENTRIES,
                    },
                ),
                charged,
            )
        } else if id.len() < id_length {
            (Err(bad_tree("tree entry has a truncated object ID"@)), charged + 1)
        } else {
            proof {
                seqs::lemma_first_index_of(bytes, 32u8);
                seqs::lemma_first_index_of(tail, 0u8);
            }
            let entry = TreeEntry {
                mode: mode_of(bytes.take(space)),
                name,
                oid: object::hex_text(id.take(id_length)),
            };
            let (rest, count) = scan_tree(id.skip(id_length), format, charged + 1);
            (
                match rest {
                    Ok(entries) => Ok(seq![entry] + entries),
                    Err(issue) => Err(issue),
                },
                count,
            )
        }
    }
}

/// Every entry has a name of its own.
pub open spec fn names_distinct(entries: Seq<TreeEntry<Seq<char>, Seq<u8>>>) -> bool {
    forall|i: int, j: int|
        0 <= i < j < entries.len() ==> (#[trigger] entries[i]).name != (#[trigger] entries[j]).name
}

/// Every name is that of a directory entry: not empty, and without a separator.
pub open spec fn names_are_leaves(entries: Seq<TreeEntry<Seq<char>, Seq<u8>>>) -> bool {
    forall|i: int|
        0 <= i < entries.len() ==> (#[trigger] entries[i]).name.len() > 0
            && !entries[i].name.contains(47u8)
}

/// The entries of a raw tree have names of directory entries.
pub proof fn lemma_scanned_names(bytes: Seq<u8>, format: GitObjectFormat, charged: nat)
    ensures
        scan_tree(bytes, format, charged).0 matches Ok(entries) ==> names_are_leaves(entries),
    decreases bytes.len(),
{
    if bytes.len() > 0 && scan_tree(bytes, format, charged).0 is Ok {
        let space = seqs::first_index_of(bytes, 32u8);
        let tail = bytes.skip(space + 1);
        let nul = seqs::first_index_of(tail, 0u8);
        let id = tail.skip(nul + 1);
        let id_length = (format.digits() / 2) as int;
        seqs::lemma_first_index_of(bytes, 32u8);
        seqs::lemma_first_index_of(tail, 0u8);
        lemma_scanned_names(id.skip(id_length), format, charged + 1);
    }
}

/// What a raw tree says: its entries in order, each under a name of its own.
pub open spec fn parsed_tree(bytes: Seq<u8>, format: GitObjectFormat, charged: nat) -> Result<
    Seq<TreeEntry<Seq<char>, Seq<u8>>>,
    GitAcquisitionIssue<Seq<char>>,
> {
    match scan_tree(bytes, format, charged).0 {
        Err(issue) => Err(issue),
        Ok(entries) => if names_distinct(entries) {
            Ok(entries)
        } else {
            Err(bad_tree("tree contains duplicate names"@))
        },
    }
}

/// The entries of a raw tree do not depend on what was charged before, as long as they can be
/// charged.
pub proof fn lemma_parsing_ignores_the_budget(
    bytes: Seq<u8>,
    format: GitObjectFormat,
    charged: nat,
    fewer: nat,
)
    requires
        fewer <= charged,
        parsed_tree(bytes, format, charged) is Ok,
    ensures
        parsed_tree(bytes, format, fewer) == parsed_tree(bytes, format, charged),
{
    lemma_scanning_ignores_the_budget(bytes, format, charged, fewer);
}

proof fn lemma_scanning_ignores_the_budget(
    bytes: Seq<u8>,
    format: GitObjectFormat,
    charged: nat,
    fewer: nat,
)
    requires
        fewer <= charged,
        scan_tree(bytes, format, charged).0 is Ok,
    ensures
        scan_tree(bytes, format, fewer).0 == scan_tree(bytes, format, charged).0,
    decreases bytes.len(),
{
    if bytes.len() > 0 {
        let space = seqs::first_index_of(bytes, 32u8);
        let tail = bytes.skip(space + 1);
        let nul = seqs::first_index_of(tail, 0u8);
        let id = tail.skip(nul + 1);
        let id_length = (format.digits() / 2) as int;
        seqs::lemma_first_index_of(bytes, 32u8);
        seqs::lemma_first_index_of(tail, 0u8);
        lemma_scanning_ignores_the_budget(
            id.skip(id_length),
            format,
            charged + 1,
            fewer + 1,
        );
    }
}

/// The scan with entries that were read before.
spec fn prepended(
    before: Seq<TreeEntry<Seq<char>, Seq<u8>>>,
    scan: (Result<Seq<TreeEntry<Seq<char>, Seq<u8>>>, GitAcquisitionIssue<Seq<char>>>, nat),
) -> (Result<Seq<TreeEntry<Seq<char>, Seq<u8>>>, GitAcquisitionIssue<Seq<char>>>, nat) {
    (
        match scan.0 {
            Ok(entries) => Ok(before + entries),
            Err(issue) => Err(issue),
        },
        scan.1,
    )
}

fn names_are_distinct(entries: &Vec<TreeEntry>) -> (distinct: bool)
    ensures
        distinct == names_distinct(seqs::views(entries@)),
{
    let ghost listed = seqs::views(entries@);
    let mut names: Vec<Vec<u8>> = Vec::new();
    let mut i: usize = 0;
    while i < entries.len()
        invariant
            i <= entries.len(),
            names.len() == i,
            listed == seqs::views(entries@),
            forall|k: int| 0 <= k < i ==> (#[trigger] names@[k])@ == listed[k].name,
        decreases entries.len() - i,
    {
        names.push(copy_bytes(entries[i].name.as_slice()));
        i = i + 1;
    }
    let order = stable_order(&names);
    let ghost keys = seqs::views(names@);
    assert forall|k: int| 0 <= k < keys.len() implies #[trigger] keys[k] == listed[k].name by {
        assert(keys[k] == names@[k]@);
    }
    let mut j: usize = 1;
    while j < order.len()
        invariant
            1 <= j,
            listed == seqs::views(entries@),
            order.len() == names.len(),
            keys == seqs::views(names@),
            keys.len() == listed.len(),
            forall|k: int| 0 <= k < keys.len() ==> #[trigger] keys[k] == listed[k].name,
            sort::is_stable_order(keys, order@),
            forall|k: int|
                0 < k < j && k < order.len() ==> keys[order@[k - 1] as int]
                    != keys[#[trigger] order@[k] as int],
        decreases order.len() - j,
    {
        let a: usize = order[j - 1];
        let b: usize = order[j];
        assert(sort::precedes(keys, order@[j - 1] as int, order@[j as int] as int));
        if bytes_equal(names[a].as_slice(), names[b].as_slice()) {
            proof {
                assert(keys[a as int] == keys[b as int]);
                assert(listed[a as int].name == listed[b as int].name);
                seqs::lemma_bytes_less_irreflexive(keys[a as int]);
                assert(a < b < listed.len());
                assert(listed[a as int].name == listed[b as int].name);
                assert(!names_distinct(listed));
            }
            return false;
        }
        j = j + 1;
    }
    proof {
        lemma_no_equal_neighbours(keys, order@);
        assert(names_distinct(listed)) by {
            assert forall|x: int, y: int| 0 <= x < y < listed.len() implies (
            #[trigger] listed[x]).name != (#[trigger] listed[y]).name by {
                assert(keys[x] != keys[y]);
            }
        }
    }
    true
}

/// Where no neighbours in key order are equal, no two keys are.
proof fn lemma_no_equal_neighbours(keys: Seq<Seq<u8>>, order: Seq<usize>)
    requires
        keys.len() <= usize::MAX,
        sort::is_stable_order(keys, order),
        forall|k: int|
            0 < k < order.len() ==> keys[order[k - 1] as int] != keys[#[trigger] order[k] as int],
    ensures
        forall|x: int, y: int|
            0 <= x < y < keys.len() ==> #[trigger] keys[x] != #[trigger] keys[y],
{
    assert forall|x: int, y: int| 0 <= x < y < keys.len() implies #[trigger] keys[x]
        != #[trigger] keys[y] by {
        assert(keys.len() == order.len());
        if keys[x] == keys[y] {
            assert(order.contains(x as usize));
            assert(order.contains(y as usize));
            let p = choose|p: int| 0 <= p < order.len() && order[p] == x as usize;
            let q = choose|q: int| 0 <= q < order.len() && order[q] == y as usize;
            seqs::lemma_bytes_less_irreflexive(keys[x]);
            assert(order[p] as int == x && order[q] as int == y);
            if q < p {
                assert(sort::precedes(keys, order[q] as int, order[p] as int));
            }
            assert(p < q);
            let n = order[p + 1] as int;
            assert(sort::precedes(keys, order[p] as int, order[p + 1] as int));
            if p + 1 < q {
                assert(sort::precedes(keys, order[p + 1] as int, order[q] as int));
            }
            assert(keys[order[p + 1 - 1] as int] != keys[order[p + 1] as int]);
            assert(seqs::bytes_less(keys[x], keys[n]));
            if seqs::bytes_less(keys[n], keys[y]) {
                seqs::lemma_bytes_less_transitive(keys[x], keys[n], keys[y]);
            }
        }
    }
}

fn contains_byte(s: &[u8], value: u8) -> (found: bool)
    ensures
        found == s@.contains(value),
{
    let index: usize = find_byte(s, 0, value);
    proof {
        assert(s@.skip(0) =~= s@);
        seqs::lemma_first_index_of(s@, value);
    }
    index < s.len()
}

/// Reads the entries of a raw tree and charges them to the budget one by one.
pub fn parse_tree(bytes: &[u8], format: GitObjectFormat, budget: &mut TraversalBudget) -> (parsed:
    Result<Vec<TreeEntry>, GitAcquisitionIssue>)
    requires
        old(budget).entries <= MAX_GIT_TRAVERSAL_ENTRIES,
    ensures
        final(budget).raw_tree_bytes == old(budget).raw_tree_bytes,
        final(budget).entries <= MAX_GIT_TRAVERSAL_ENTRIES,
        final(budget).entries == scan_tree(bytes@, format, old(budget).entries as nat).1,
        match parsed {
            Ok(entries) => {
                &&& parsed_tree(bytes@, format, old(budget).entries as nat) == Ok::<
                    Seq<TreeEntry<Seq<char>, Seq<u8>>>,
                    GitAcquisitionIssue<Seq<char>>,
                >(seqs::views(entries@))
                &&& forall|i: int|
                    0 <= i < entries@.len() ==> is_committed_mode((#[trigger] entries@[i]).mode)
            },
            Err(issue) => parsed_tree(bytes@, format, old(budget).entries as nat) == Err::<
                Seq<TreeEntry<Seq<char>, Seq<u8>>>,
                GitAcquisitionIssue<Seq<char>>,
            >(issue@),
        },
{
    let ghost start = budget.entries as nat;
    let mut entries: Vec<TreeEntry> = Vec::new();
    let mut position: usize = 0;
    let id_length: usize = format.raw_len();
    proof {
        assert(bytes@.skip(0) =~= bytes@);
        assert(seqs::views(entries@) =~= Seq::empty());
        let scan = scan_tree(bytes@, format, start);
        if let Ok(list) = scan.0 {
            assert(Seq::empty() + list =~= list);
        }
    }
    while position < bytes.len()
        invariant
            position <= bytes.len(),
            start == old(budget).entries,
            id_length == format.digits() / 2,
            budget.entries <= MAX_GIT_TRAVERSAL_ENTRIES,
            budget.raw_tree_bytes == old(budget).raw_tree_bytes,
            forall|i: int|
                0 <= i < entries@.len() ==> is_committed_mode((#[trigger] entries@[i]).mode),
            scan_tree(bytes@, format, start) == prepended(
                seqs::views(entries@),
                scan_tree(bytes@.skip(position as int), format, budget.entries as nat),
            ),
        decreases bytes.len() - position,
    {
        let ghost rest = bytes@.skip(position as int);
        let ghost charged = budget.entries as nat;
        let mode_end: usize = find_byte(bytes, position, 32);
        proof {
            seqs::lemma_first_index_of(rest, 32u8);
        }
        if mode_end == bytes.len() {
            return Err(malformed(GitObjectKind::Tree, "tree entry has no mode separator"));
        }
        let mode = TreeMode::from_bytes(&bytes[position..mode_end]);
        let name_start: usize = mode_end + 1;
        let name_end: usize = find_byte(bytes, name_start, 0);
        let ghost space = mode_end - position;
        let ghost tail = rest.skip(space + 1);
        proof {
            assert(bytes@.skip(name_start as int) =~= tail);
            assert(rest.take(space) =~= bytes@.subrange(position as int, mode_end as int));
            seqs::lemma_first_index_of(tail, 0u8);
        }
        if name_end == bytes.len() {
            return Err(malformed(GitObjectKind::Tree, "tree entry has no name terminator"));
        }
        let name = copy_bytes(&bytes[name_start..name_end]);
        let ghost nul = name_end - name_start;
        proof {
            assert(name@ =~= tail.take(nul));
        }
        if name.len() == 0 || contains_byte(name.as_slice(), 47) {
            return Err(malformed(GitObjectKind::Tree, "tree entry has an invalid raw name"));
        }
        match budget.charge_entry() {
            Ok(()) => {},
            Err(issue) => {
                return Err(issue);
            },
        }
        let id_start: usize = name_end + 1;
        let ghost id = tail.skip(nul + 1);
        proof {
            assert(bytes@.skip(id_start as int) =~= id);
        }
        if bytes.len() - id_start < id_length {
            return Err(malformed(GitObjectKind::Tree, "tree entry has a truncated object ID"));
        }
        let id_end: usize = id_start + id_length;
        let oid = encode_hex(&bytes[id_start..id_end]);
        let ghost before = entries@;
        let entry = TreeEntry { mode, name, oid };
        proof {
            assert(id.take(id_length as int) =~= bytes@.subrange(id_start as int, id_end as int));
            assert(id.skip(id_length as int) =~= bytes@.skip(id_end as int));
            let scan = scan_tree(bytes@.skip(id_end as int), format, charged + 1);
            if let Ok(list) = scan.0 {
                assert(seqs::views(before) + (seq![entry@] + list) =~= seqs::views(before).push(
                    entry@,
                ) + list);
            }
        }
        entries.push(entry);
        proof {
            assert(seqs::views(entries@) =~= seqs::views(before).push(entry@));
        }
        position = id_end;
    }
    proof {
        assert(bytes@.skip(position as int) =~= Seq::empty());
        assert(seqs::views(entries@) + Seq::empty() =~= seqs::views(entries@));
    }
    if !names_are_distinct(&entries) {
        return Err(malformed(GitObjectKind::Tree, "tree contains duplicate names"));
    }
    Ok(entries)
}

/// A malformed commit.
pub open spec fn bad_commit(detail: Seq<char>) -> GitAcquisitionIssue<Seq<char>> {
    GitAcquisitionIssue::MalformedObject { kind: GitObjectKind::Commit, detail }
}

/// The position of the first empty line, or the length where there is none.
pub open spec fn headers_end(bytes: Seq<u8>) -> int
    decreases bytes.len(),
{
    if bytes.len() < 2 {
        bytes.len() as int
    } else if bytes[0] == 10 && bytes[1] == 10 {
        0
    } else {
        1 + headers_end(bytes.skip(1))
    }
}

/// The bytes that start a tree header.
pub open spec fn tree_header() -> Seq<u8> {
    encode_utf8("tree "@)
}

/// The tree that header lines name, if any: a second one, or one that is no object ID, is an
/// issue.
pub open spec fn named_tree(lines: Seq<Seq<u8>>, format: GitObjectFormat) -> Result<
    Option<Seq<char>>,
    GitAcquisitionIssue<Seq<char>>,
>
    decreases lines.len(),
{
    if lines.len() == 0 {
        Ok(None)
    } else {
        match named_tree(lines.drop_last(), format) {
            Err(issue) => Err(issue),
            Ok(before) => {
                let line = lines.last();
                let value = line.skip(tree_header().len() as int);
                if !tree_header().is_prefix_of(line) {
                    Ok(before)
                } else if !valid_utf8(value) {
                    Err(bad_commit("tree ID is not ASCII"@))
                } else if !object::is_hex_id(value, format.digits()) {
                    Err(bad_commit("tree ID has the wrong object format"@))
                } else if before is Some {
                    Err(bad_commit("commit contains duplicate tree headers"@))
                } else {
                    Ok(Some(decode_utf8(value)))
                }
            },
        }
    }
}

/// The tree of a raw commit.
pub open spec fn commit_tree(bytes: Seq<u8>, format: GitObjectFormat) -> Result<
    Seq<char>,
    GitAcquisitionIssue<Seq<char>>,
> {
    if headers_end(bytes) >= bytes.len() {
        Err(bad_commit("commit has no header terminator"@))
    } else {
        match named_tree(seqs::split_at_each(bytes.take(headers_end(bytes)), 10u8), format) {
            Err(issue) => Err(issue),
            Ok(None) => Err(bad_commit("commit has no tree header"@)),
            Ok(Some(tree)) => Ok(tree),
        }
    }
}

fn find_headers_end(bytes: &[u8]) -> (end: usize)
    ensures
        end == headers_end(bytes@),
        end <= bytes.len(),
{
    let mut i: usize = 0;
    proof {
        assert(bytes@.skip(0) =~= bytes@);
    }
    while i < bytes.len()
        invariant
            i <= bytes.len(),
            headers_end(bytes@) == i + headers_end(bytes@.skip(i as int)),
        decreases bytes.len() - i,
    {
        if bytes.len() - i < 2 {
            return bytes.len();
        }
        if bytes[i] == 10 && bytes[i + 1] == 10 {
            return i;
        }
        proof {
            assert(bytes@.skip(i as int).skip(1) =~= bytes@.skip(i + 1));
        }
        i = i + 1;
    }
    i
}

/// Tells whether a byte string starts with `prefix`.
pub fn bytes_start_with(bytes: &[u8], prefix: &[u8]) -> (starts: bool)
    ensures
        starts == prefix@.is_prefix_of(bytes@),
{
    if bytes.len() < prefix.len() {
        return false;
    }
    let starts = bytes_equal(&bytes[0..prefix.len()], prefix);
    assert(bytes@.subrange(0, prefix@.len() as int) =~= bytes@.take(prefix@.len() as int));
    starts
}

/// Reads the tree that a raw commit names.
pub fn parse_commit_tree(bytes: &[u8], format: GitObjectFormat) -> (tree: Result<
    String,
    GitAcquisitionIssue,
>)
    ensures
        match tree {
            Ok(tree) => {
                &&& commit_tree(bytes@, format) == Ok::<
                    Seq<char>,
                    GitAcquisitionIssue<Seq<char>>,
                >(tree@)
                &&& object::is_hex_id(encode_utf8(tree@), format.digits())
            },
            Err(issue) => commit_tree(bytes@, format) == Err::<
                Seq<char>,
                GitAcquisitionIssue<Seq<char>>,
            >(issue@),
        },
{
    let end: usize = find_headers_end(bytes);
    if end == bytes.len() {
        return Err(malformed(GitObjectKind::Commit, "commit has no header terminator"));
    }
    let lines = split_bytes(&bytes[0..end], 10);
    let ghost all = seqs::views(lines@);
    let mut tree: Option<String> = None;
    let mut i: usize = 0;
    proof {
        assert(bytes@.subrange(0, end as int) =~= bytes@.take(end as int));
        assert(all.take(0) =~= Seq::<Seq<u8>>::empty());
    }
    while i < lines.len()
        invariant
            i <= lines.len(),
            all == seqs::views(lines@),
            end == headers_end(bytes@),
            end < bytes.len(),
            all == seqs::split_at_each(bytes@.take(end as int), 10u8),
            tree matches Some(id) ==> object::is_hex_id(encode_utf8(id@), format.digits()),
            named_tree(all.take(i as int), format) == Ok::<
                Option<Seq<char>>,
                GitAcquisitionIssue<Seq<char>>,
            >(
                match tree {
                    Some(id) => Some(id@),
                    None => None,
                },
            ),
        decreases lines.len() - i,
    {
        let line = lines[i].as_slice();
        let prefix = "tree ".as_bytes();
        proof {
            assert(all.take(i + 1).drop_last() =~= all.take(i as int));
            assert(all.take(i + 1).last() == line@);
        }
        if bytes_start_with(line, prefix) {
            let value = &line[prefix.len()..line.len()];
            proof {
                assert(value@ =~= line@.skip(tree_header().len() as int));
            }
            match utf8_text(value) {
                None => {
                    proof {
                        lemma_named_tree_keeps_issue(all, format, i + 1);
                    }
                    return Err(malformed(GitObjectKind::Commit, "tree ID is not ASCII"));
                },
                Some(id) => {
                    proof {
                        encode_utf8_decode_utf8(id@);
                    }
                    if !format.is_id(value) {
                        proof {
                            lemma_named_tree_keeps_issue(all, format, i + 1);
                        }
                        return Err(
                            malformed(GitObjectKind::Commit, "tree ID has the wrong object format"),
                        );
                    }
                    if tree.is_some() {
                        proof {
                            lemma_named_tree_keeps_issue(all, format, i + 1);
                        }
                        return Err(
                            malformed(
                                GitObjectKind::Commit,
                                "commit contains duplicate tree headers",
                            ),
                        );
                    }
                    tree = Some(id);
                },
            }
        }
        i = i + 1;
    }
    proof {
        assert(all.take(all.len() as int) =~= all);
    }
    match tree {
        Some(id) => Ok(id),
        None => Err(malformed(GitObjectKind::Commit, "commit has no tree header")),
    }
}

/// An issue in the first lines is the issue of all lines.
proof fn lemma_named_tree_keeps_issue(lines: Seq<Seq<u8>>, format: GitObjectFormat, count: int)
    requires
        0 <= count <= lines.len(),
        named_tree(lines.take(count), format) is Err,
    ensures
        named_tree(lines, format) == named_tree(lines.take(count), format),
    decreases lines.len() - count,
{
    if count == lines.len() {
        assert(lines.take(count) =~= lines);
    } else {
        assert(lines.take(count + 1).drop_last() =~= lines.take(count));
        lemma_named_tree_keeps_issue(lines, format, count + 1);
    }
}

/// The tree of a commit is the one that its first header line names: whatever other headers and
/// whatever message follow, as long as no other line is a tree header.
pub proof fn lemma_commits_name_their_tree(
    id: Seq<char>,
    others: Seq<Seq<u8>>,
    message: Seq<u8>,
    format: GitObjectFormat,
)
    requires
        object::is_hex_id(encode_utf8(id), format.digits()),
        others.len() > 0,
        forall|i: int, j: int|
            0 <= i < others.len() && 0 <= j < others[i].len() ==> #[trigger] others[i][j] != 10u8,
        forall|i: int|
            0 <= i < others.len() ==> !encode_utf8("tree "@).is_prefix_of(#[trigger] others[i])
                && others[i].len() > 0,
    ensures
        ({
            let lines = seq![encode_utf8("tree "@) + encode_utf8(id)] + others;
            commit_tree(seqs::join_with(lines, 10u8) + seq![10u8, 10u8] + message, format) == Ok::<
                Seq<char>,
                GitAcquisitionIssue<Seq<char>>,
            >(id)
        }),
{
    let start = encode_utf8("tree "@);
    let raw = encode_utf8(id);
    let first = start + raw;
    let lines = seq![first] + others;
    reveal_strlit("tree ");
    assert(is_ascii_chars("tree "@));
    is_ascii_chars_encode_utf8("tree "@);
    assert("tree "@.len() == 5);
    assert forall|j: int| 0 <= j < first.len() implies #[trigger] first[j] != 10u8 by {
        if j < start.len() {
            assert("tree "@[j] as u8 == start[j]);
        } else {
            assert(object::is_lower_hex(raw[j - start.len()]));
        }
    }
    assert forall|i: int, j: int|
        0 <= i < lines.len() && 0 <= j < lines[i].len() implies #[trigger] lines[i][j] != 10u8 by {
        if i > 0 {
            assert(lines[i] == others[i - 1]);
        }
    }
    assert forall|i: int| 0 <= i < lines.len() implies (#[trigger] lines[i]).len() > 0 by {
        if i > 0 {
            assert(lines[i] == others[i - 1]);
        }
    }
    let headers = seqs::join_with(lines, 10u8);
    seqs::lemma_split_of_join(lines, 10u8);
    lemma_headers_end(lines, message);
    let bytes = headers + seq![10u8, 10u8] + message;
    assert(bytes.take(headers.len() as int) =~= headers);
    lemma_named_tree(id, others, others.len() as int, format);
    assert(others.take(others.len() as int) =~= others);
}

proof fn lemma_named_tree(
    id: Seq<char>,
    others: Seq<Seq<u8>>,
    count: int,
    format: GitObjectFormat,
)
    requires
        object::is_hex_id(encode_utf8(id), format.digits()),
        0 <= count <= others.len(),
        forall|i: int|
            0 <= i < others.len() ==> !encode_utf8("tree "@).is_prefix_of(#[trigger] others[i]),
    ensures
        named_tree(
            seq![encode_utf8("tree "@) + encode_utf8(id)] + others.take(count),
            format,
        ) == Ok::<Option<Seq<char>>, GitAcquisitionIssue<Seq<char>>>(Some(id)),
    decreases count,
{
    let start = encode_utf8("tree "@);
    let first = start + encode_utf8(id);
    let lines = seq![first] + others.take(count);
    if count == 0 {
        assert(lines =~= seq![first]);
        assert(lines.drop_last() =~= Seq::<Seq<u8>>::empty());
        assert(first.take(start.len() as int) =~= start);
        assert(start.is_prefix_of(first));
        assert(first.skip(start.len() as int) =~= encode_utf8(id));
        encode_utf8_valid_utf8(id);
        encode_utf8_decode_utf8(id);
        assert(named_tree(lines.drop_last(), format) == Ok::<
            Option<Seq<char>>,
            GitAcquisitionIssue<Seq<char>>,
        >(None));
    } else {
        lemma_named_tree(id, others, count - 1, format);
        assert(lines.drop_last() =~= seq![first] + others.take(count - 1));
        assert(lines.last() == others[count - 1]);
    }
}

/// Lines that are not empty end at the first empty line.
proof fn lemma_headers_end(lines: Seq<Seq<u8>>, message: Seq<u8>)
    requires
        lines.len() > 0,
        forall|i: int, j: int|
            0 <= i < lines.len() && 0 <= j < lines[i].len() ==> #[trigger] lines[i][j] != 10u8,
        forall|i: int| 0 <= i < lines.len() ==> (#[trigger] lines[i]).len() > 0,
    ensures
        headers_end(seqs::join_with(lines, 10u8) + seq![10u8, 10u8] + message) == seqs::join_with(
            lines,
            10u8,
        ).len(),
{
    lemma_no_empty_line(lines);
    lemma_headers_end_at(seqs::join_with(lines, 10u8), message);
}

/// No line of joined lines is empty: no separator starts or ends them or follows another.
proof fn lemma_no_empty_line(lines: Seq<Seq<u8>>)
    requires
        lines.len() > 0,
        forall|i: int, j: int|
            0 <= i < lines.len() && 0 <= j < lines[i].len() ==> #[trigger] lines[i][j] != 10u8,
        forall|i: int| 0 <= i < lines.len() ==> (#[trigger] lines[i]).len() > 0,
    ensures
        is_dense(seqs::join_with(lines, 10u8)),
    decreases lines.len(),
{
    let joined = seqs::join_with(lines, 10u8);
    if lines.len() == 1 {
        assert(joined == lines[0]);
        assert(lines[0].len() > 0);
        assert forall|i: int| 0 <= i < joined.len() implies #[trigger] joined[i] != 10u8 by {
            assert(lines[0][i] != 10u8);
        }
    } else {
        let before = lines.drop_last();
        let last = lines.last();
        assert forall|i: int, j: int|
            0 <= i < before.len() && 0 <= j < before[i].len() implies #[trigger] before[i][j]
            != 10u8 by {
            assert(lines[i][j] != 10u8);
        }
        assert forall|i: int| 0 <= i < before.len() implies (#[trigger] before[i]).len() > 0 by {
            assert(lines[i].len() > 0);
        }
        lemma_no_empty_line(before);
        let head = seqs::join_with(before, 10u8);
        assert(joined =~= head.push(10u8) + last);
        assert(lines[lines.len() - 1].len() > 0);
        assert forall|j: int| 0 <= j < last.len() implies #[trigger] last[j] != 10u8 by {
            assert(lines[lines.len() - 1][j] != 10u8);
        }
        assert forall|i: int| 0 <= i < joined.len() - 1 implies !(#[trigger] joined[i] == 10u8
            && joined[i + 1] == 10u8) by {
            if i < head.len() - 1 {
                assert(joined[i] == head[i] && joined[i + 1] == head[i + 1]);
            } else if i == head.len() - 1 {
                assert(joined[i] == head.last());
            } else {
                assert(joined[i + 1] == last[i - head.len()]);
            }
        }
        assert(joined.last() == last.last());
        assert(last[last.len() - 1] != 10u8);
    }
}

spec fn is_dense(bytes: Seq<u8>) -> bool {
    &&& bytes.len() > 0
    &&& bytes.last() != 10u8
    &&& forall|i: int|
        0 <= i < bytes.len() - 1 ==> !(#[trigger] bytes[i] == 10u8 && bytes[i + 1] == 10u8)
}

proof fn lemma_headers_end_at(dense: Seq<u8>, message: Seq<u8>)
    requires
        is_dense(dense),
    ensures
        headers_end(dense + seq![10u8, 10u8] + message) == dense.len(),
    decreases dense.len(),
{
    let bytes = dense + seq![10u8, 10u8] + message;
    let rest = dense.skip(1);
    assert(bytes[0] == dense[0]);
    if dense.len() == 1 {
        assert(bytes.skip(1) =~= seq![10u8, 10u8] + message);
        assert(headers_end(bytes.skip(1)) == 0);
    } else {
        assert(bytes[1] == dense[1]);
        assert(rest.last() == dense.last());
        assert forall|i: int| 0 <= i < rest.len() - 1 implies !(#[trigger] rest[i] == 10u8
            && rest[i + 1] == 10u8) by {
            assert(rest[i] == dense[i + 1] && rest[i + 1] == dense[i + 2]);
        }
        lemma_headers_end_at(rest, message);
        assert(bytes.skip(1) =~= rest + seq![10u8, 10u8] + message);
    }
}

/// Modes mean what Git says: directories, the two kinds of regular files with their permissions,
/// symbolic links and links to other repositories, each with its one spelling.
pub proof fn lemma_modes_mean_what_they_spell(spelling: Seq<u8>)
    ensures
        mode_of(spelling) is Tree <==> spelling == encode_utf8("40000"@),
        mode_of(spelling) == TreeMode::<Seq<char>>::Regular(0o644u32) <==> spelling == encode_utf8(
            "100644"@,
        ),
        mode_of(spelling) == TreeMode::<Seq<char>>::Regular(0o755u32) <==> spelling == encode_utf8(
            "100755"@,
        ),
        mode_of(spelling) is Regular <==> spelling == encode_utf8("100644"@) || spelling
            == encode_utf8("100755"@),
        mode_of(spelling) is Symlink <==> spelling == encode_utf8("120000"@),
        mode_of(spelling) is Gitlink <==> spelling == encode_utf8("160000"@),
{
    lemma_mode_spellings_differ("40000"@, "100644"@);
    lemma_mode_spellings_differ("40000"@, "100755"@);
    lemma_mode_spellings_differ("40000"@, "120000"@);
    lemma_mode_spellings_differ("40000"@, "160000"@);
    lemma_mode_spellings_differ("100644"@, "100755"@);
    lemma_mode_spellings_differ("100644"@, "120000"@);
    lemma_mode_spellings_differ("100644"@, "160000"@);
    lemma_mode_spellings_differ("100755"@, "120000"@);
    lemma_mode_spellings_differ("100755"@, "160000"@);
    lemma_mode_spellings_differ("120000"@, "160000"@);
    reveal_strlit("40000");
    reveal_strlit("100644");
    reveal_strlit("100755");
    reveal_strlit("120000");
    reveal_strlit("160000");
    assert("40000"@.len() == 5 && "100644"@.len() == 6 && "100755"@.len() == 6);
    assert("120000"@.len() == 6 && "160000"@.len() == 6);
    assert("100644"@[3] == '6' && "100755"@[3] == '7' && "120000"@[3] == '0');
    assert("160000"@[3] == '0' && "120000"@[1] == '2' && "160000"@[1] == '6');
    assert("100644"@[1] == '0' && "100755"@[1] == '0');
}

proof fn lemma_mode_spellings_differ(left: Seq<char>, right: Seq<char>)
    ensures
        encode_utf8(left) == encode_utf8(right) ==> left == right,
{
    if encode_utf8(left) == encode_utf8(right) {
        text::lemma_encoding_injective(left, right);
    }
}

/// A raw tree entry: the spelling of its mode, its name and its raw object ID.
pub struct RawEntry {
    pub mode: Seq<u8>,
    pub name: Seq<u8>,
    pub id: Seq<u8>,
}

/// A raw entry that Git can write: its mode has no space, its name is that of a directory entry
/// without a zero byte, and its object ID has the length of the format.
pub open spec fn is_raw_entry(entry: RawEntry, format: GitObjectFormat) -> bool {
    &&& !entry.mode.contains(32u8)
    &&& !entry.name.contains(0u8)
    &&& entry.name.len() > 0
    &&& !entry.name.contains(47u8)
    &&& entry.id.len() == format.digits() / 2
}

/// Raw entries as Git writes them, one behind the other.
pub open spec fn written(entries: Seq<RawEntry>) -> Seq<u8>
    decreases entries.len(),
{
    if entries.len() == 0 {
        Seq::empty()
    } else {
        entries[0].mode + seq![32u8] + entries[0].name + seq![0u8] + entries[0].id + written(
            entries.skip(1),
        )
    }
}

/// Reading a raw tree gives back what was written: every entry with its mode, its name and its
/// object ID, in their order, and nothing else.
pub proof fn lemma_written_trees_are_read_back(
    entries: Seq<RawEntry>,
    format: GitObjectFormat,
    charged: nat,
)
    requires
        forall|i: int| 0 <= i < entries.len() ==> is_raw_entry(#[trigger] entries[i], format),
        charged + entries.len() <= MAX_GIT_TRAVERSAL_ENTRIES,
    ensures
        scan_tree(written(entries), format, charged).1 == charged + entries.len(),
        scan_tree(written(entries), format, charged).0 matches Ok(read) && read.len()
            == entries.len() && forall|i: int|
            0 <= i < entries.len() ==> (#[trigger] read[i]).mode == mode_of(entries[i].mode)
                && read[i].name == entries[i].name && read[i].oid == object::hex_text(entries[i].id),
    decreases entries.len(),
{
    if entries.len() > 0 {
        let entry = entries[0];
        let rest = entries.skip(1);
        let bytes = written(entries);
        assert(is_raw_entry(entries[0], format));
        assert forall|i: int| 0 <= i < rest.len() implies is_raw_entry(
            #[trigger] rest[i],
            format,
        ) by {
            assert(rest[i] == entries[i + 1]);
        }
        lemma_written_trees_are_read_back(rest, format, charged + 1);
        let behind = entry.name + seq![0u8] + entry.id + written(rest);
        assert(bytes =~= entry.mode + seq![32u8] + behind);
        lemma_first_separator(entry.mode, 32u8, behind);
        let space = entry.mode.len() as int;
        let tail = bytes.skip(space + 1);
        assert(tail =~= behind);
        let last = entry.id + written(rest);
        assert(behind =~= entry.name + seq![0u8] + last);
        lemma_first_separator(entry.name, 0u8, last);
        let nul = entry.name.len() as int;
        let id = tail.skip(nul + 1);
        assert(id =~= last);
        let id_length = (format.digits() / 2) as int;
        assert(id.take(id_length) =~= entry.id);
        assert(id.skip(id_length) =~= written(rest));
        assert(bytes.take(space) =~= entry.mode);
        assert(tail.take(nul) =~= entry.name);
        let found = TreeEntry {
            mode: mode_of(entry.mode),
            name: entry.name,
            oid: object::hex_text(entry.id),
        };
        let after = scan_tree(written(rest), format, charged + 1).0->Ok_0;
        let read = scan_tree(bytes, format, charged).0->Ok_0;
        assert(read =~= seq![found] + after);
        assert forall|i: int| 0 <= i < entries.len() implies (#[trigger] read[i]).mode == mode_of(
            entries[i].mode,
        ) && read[i].name == entries[i].name && read[i].oid == object::hex_text(entries[i].id) by {
            if i > 0 {
                assert(read[i] == after[i - 1]);
                assert(rest[i - 1] == entries[i]);
            }
        }
    }
}

proof fn lemma_first_separator(head: Seq<u8>, separator: u8, tail: Seq<u8>)
    requires
        !head.contains(separator),
    ensures
        seqs::first_index_of(head + seq![separator] + tail, separator) == head.len(),
{
    let whole = head + seq![separator] + tail;
    seqs::lemma_first_index_of(whole, separator);
    let found = seqs::first_index_of(whole, separator);
    assert(whole[head.len() as int] == separator);
    if found < head.len() {
        assert(whole[found] == head[found]);
        assert(head.contains(separator));
    }
}

} // verus!
