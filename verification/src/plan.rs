//! The parts of a prepared plan: captured inputs, findings, artifacts and operations.

use vstd::prelude::*;
use vstd::utf8::*;

use crate::codec;
use crate::codec::push_be;
use crate::seqs;
use crate::text;
use crate::text::text_equal;

verus! {

/// Kind of a captured input.
#[derive(Debug, Clone, Copy, PartialEq, Eq, Structural)]
pub enum InputKind {
    Source,
    Lock,
    Config,
    Asset,
    Component,
    Other,
}

/// A named input with the digest that it was captured at; `T` is the type of text.
#[derive(Debug)]
pub struct PlanInput<T = String> {
    pub kind: InputKind,
    pub name: T,
    pub digest: T,
}

impl View for PlanInput<String> {
    type V = PlanInput<Seq<char>>;

    open spec fn view(&self) -> PlanInput<Seq<char>> {
        PlanInput { kind: self.kind, name: self.name@, digest: self.digest@ }
    }
}

/// Builds an input.
pub fn plan_input(kind: InputKind, name: String, digest: &str) -> (input: PlanInput)
    ensures
        input@ == (PlanInput { kind, name: name@, digest: digest@ }),
{
    PlanInput { kind, name, digest: digest.to_owned() }
}

/// Copies an input.
pub fn copy_input(input: &PlanInput) -> (copy: PlanInput)
    ensures
        copy@ == input@,
{
    PlanInput { kind: input.kind, name: input.name.clone(), digest: input.digest.clone() }
}

/// A finding of the preparation, shown to whoever approves the plan.
#[derive(Debug)]
pub struct Finding<T = String> {
    pub code: T,
    pub message: T,
    pub approval_required: bool,
}

impl View for Finding<String> {
    type V = Finding<Seq<char>>;

    open spec fn view(&self) -> Finding<Seq<char>> {
        Finding {
            code: self.code@,
            message: self.message@,
            approval_required: self.approval_required,
        }
    }
}

/// Copies a finding.
pub fn copy_finding(finding: &Finding) -> (copy: Finding)
    ensures
        copy@ == finding@,
{
    Finding {
        code: finding.code.clone(),
        message: finding.message.clone(),
        approval_required: finding.approval_required,
    }
}

/// Where the bytes of a decoded archive tree came from.
#[derive(Debug)]
pub struct Provenance<T = String> {
    pub payload: T,
    pub decoder: T,
}

impl View for Provenance<String> {
    type V = Provenance<Seq<char>>;

    open spec fn view(&self) -> Provenance<Seq<char>> {
        Provenance { payload: self.payload@, decoder: self.decoder@ }
    }
}

/// The provenance of a tree, where it has one.
pub open spec fn provenance_view(provenance: Option<Provenance>) -> Option<Provenance<Seq<char>>> {
    match provenance {
        Some(value) => Some(value@),
        None => None,
    }
}

/// Copies the provenance of a tree.
pub fn copy_provenance(provenance: &Option<Provenance>) -> (copy: Option<Provenance>)
    ensures
        provenance_view(copy) == provenance_view(*provenance),
{
    match provenance {
        Some(value) => Some(
            Provenance { payload: value.payload.clone(), decoder: value.decoder.clone() },
        ),
        None => None,
    }
}

/// What an operation does at its destination.
#[derive(Debug)]
pub enum Action<T = String> {
    EnsureDirectory { mode: u32 },
    ReplaceDirectory { mode: u32 },
    PlaceFile { artifact: T, mode: u32 },
    ReplaceFile { artifact: T, mode: u32 },
    PlaceSymlink { object: T },
    ReplaceSymlink { object: T },
    PlaceTree { tree: T, provenance: Option<Provenance<T>> },
    ReplaceTree { tree: T, provenance: Option<Provenance<T>> },
    RemoveLeaf,
    AssertExact { state: T },
    AssertAbsent,
}

impl View for Action<String> {
    type V = Action<Seq<char>>;

    open spec fn view(&self) -> Action<Seq<char>> {
        match *self {
            Action::EnsureDirectory { mode } => Action::EnsureDirectory { mode },
            Action::ReplaceDirectory { mode } => Action::ReplaceDirectory { mode },
            Action::PlaceFile { artifact, mode } => Action::PlaceFile { artifact: artifact@, mode },
            Action::ReplaceFile { artifact, mode } => Action::ReplaceFile {
                artifact: artifact@,
                mode,
            },
            Action::PlaceSymlink { object } => Action::PlaceSymlink { object: object@ },
            Action::ReplaceSymlink { object } => Action::ReplaceSymlink { object: object@ },
            Action::PlaceTree { tree, provenance } => Action::PlaceTree {
                tree: tree@,
                provenance: provenance_view(provenance),
            },
            Action::ReplaceTree { tree, provenance } => Action::ReplaceTree {
                tree: tree@,
                provenance: provenance_view(provenance),
            },
            Action::RemoveLeaf => Action::RemoveLeaf,
            Action::AssertExact { state } => Action::AssertExact { state: state@ },
            Action::AssertAbsent => Action::AssertAbsent,
        }
    }
}

/// An operation on one destination below a target authority.
#[derive(Debug)]
pub struct Operation<T = String> {
    pub authority: T,
    pub relative_path: T,
    pub action: Action<T>,
}

impl View for Operation<String> {
    type V = Operation<Seq<char>>;

    open spec fn view(&self) -> Operation<Seq<char>> {
        Operation {
            authority: self.authority@,
            relative_path: self.relative_path@,
            action: self.action@,
        }
    }
}

/// An operation acts on a destination.
pub open spec fn acts_on(
    operation: Operation<Seq<char>>,
    authority: Seq<char>,
    relative_path: Seq<char>,
) -> bool {
    operation.authority == authority && operation.relative_path == relative_path
}

/// Some operation acts on a destination.
pub open spec fn is_destination(
    operations: Seq<Operation<Seq<char>>>,
    authority: Seq<char>,
    relative_path: Seq<char>,
) -> bool {
    exists|i: int|
        0 <= i < operations.len() && acts_on(#[trigger] operations[i], authority, relative_path)
}

/// Tells whether some operation acts on a destination.
pub fn has_destination(operations: &Vec<Operation>, authority: &str, relative_path: &str) -> (found:
    bool)
    ensures
        found == is_destination(seqs::views(operations@), authority@, relative_path@),
{
    let ghost all = seqs::views(operations@);
    let mut i: usize = 0;
    while i < operations.len()
        invariant
            i <= operations.len(),
            all == seqs::views(operations@),
            forall|k: int| 0 <= k < i ==> !acts_on(#[trigger] all[k], authority@, relative_path@),
        decreases operations.len() - i,
    {
        proof {
            assert(all[i as int] == operations@[i as int]@);
        }
        if text_equal(operations[i].authority.as_str(), authority) && text_equal(
            operations[i].relative_path.as_str(),
            relative_path,
        ) {
            return true;
        }
        i = i + 1;
    }
    false
}

/// Text with its length in bytes before it, as digests of identities take it.
pub open spec fn framed(value: Seq<char>) -> Seq<u8> {
    codec::be(encode_utf8(value).len(), 8) + encode_utf8(value)
}

/// Appends text with its length in bytes before it.
pub fn append_identity_text(bytes: &mut Vec<u8>, value: &str)
    ensures
        final(bytes)@ == old(bytes)@ + framed(value@),
{
    let ghost before = bytes@;
    let encoded = value.as_bytes();
    let length: usize = encoded.len();
    push_be(bytes, length as u64, 8);
    bytes.extend_from_slice(encoded);
    proof {
        assert(bytes@ =~= before + framed(value@));
    }
}

/// A list of texts, each framed.
pub open spec fn framed_all(values: Seq<Seq<char>>) -> Seq<u8>
    decreases values.len(),
{
    if values.len() == 0 {
        Seq::empty()
    } else {
        framed(values[0]) + framed_all(values.skip(1))
    }
}

/// The encoded length of a text can be counted in eight bytes.
pub open spec fn is_countable(value: Seq<char>) -> bool {
    encode_utf8(value).len() <= u64::MAX
}

/// Nothing that follows a framed text can be taken for a part of it: where two framed texts
/// with something behind them are the same bytes, the texts are equal, and so is the rest.
pub proof fn lemma_framing_ends_itself(
    left: Seq<char>,
    left_rest: Seq<u8>,
    right: Seq<char>,
    right_rest: Seq<u8>,
)
    requires
        is_countable(left),
        is_countable(right),
        framed(left) + left_rest == framed(right) + right_rest,
    ensures
        left == right,
        left_rest == right_rest,
{
    let left_bytes = encode_utf8(left);
    let right_bytes = encode_utf8(right);
    let left_count = codec::be(left_bytes.len(), 8);
    let right_count = codec::be(right_bytes.len(), 8);
    codec::lemma_be_len(left_bytes.len(), 8);
    codec::lemma_be_len(right_bytes.len(), 8);
    let whole = framed(left) + left_rest;
    assert(whole.take(8) =~= left_count);
    assert(whole.take(8) =~= right_count);
    codec::lemma_pow256_values();
    codec::lemma_be_round_trip(left_bytes.len(), 8);
    codec::lemma_be_round_trip(right_bytes.len(), 8);
    let end = (8 + left_bytes.len()) as int;
    assert(whole.subrange(8, end) =~= left_bytes);
    assert(whole.subrange(8, end) =~= right_bytes);
    text::lemma_encoding_injective(left, right);
    assert(whole.skip(end) =~= left_rest);
    assert(whole.skip(end) =~= right_rest);
}

/// Lists of framed texts are the same bytes only where the lists are equal.
pub proof fn lemma_framed_lists_are_distinct(left: Seq<Seq<char>>, right: Seq<Seq<char>>)
    requires
        forall|i: int| 0 <= i < left.len() ==> is_countable(#[trigger] left[i]),
        forall|i: int| 0 <= i < right.len() ==> is_countable(#[trigger] right[i]),
        framed_all(left) == framed_all(right),
    ensures
        left == right,
    decreases left.len(),
{
    if left.len() > 0 {
        codec::lemma_be_len(encode_utf8(left[0]).len(), 8);
        assert(framed_all(left).len() >= 8);
    }
    if right.len() > 0 {
        codec::lemma_be_len(encode_utf8(right[0]).len(), 8);
        assert(framed_all(right).len() >= 8);
    }
    if left.len() == 0 || right.len() == 0 {
        assert(left =~= right);
    } else {
        lemma_framing_ends_itself(
            left[0],
            framed_all(left.skip(1)),
            right[0],
            framed_all(right.skip(1)),
        );
        lemma_framed_lists_are_distinct(left.skip(1), right.skip(1));
        assert(left =~= seq![left[0]] + left.skip(1));
        assert(right =~= seq![right[0]] + right.skip(1));
    }
}

} // verus!
