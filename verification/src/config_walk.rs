//! Reading the documents of a configuration, each of them once.

use vstd::prelude::*;
use vstd::utf8::*;

use crate::config_documents;
use crate::config_documents::{LockedNode, NodeModel};
use crate::graph_sources;
use crate::graph_sources::text_before;
use crate::lifecycle::{LOCKED_COMPONENT_PROFILES_INPUT, LOCKED_COMPONENT_PROFILE_INPUT_PREFIX};
use crate::plan;
use crate::plan::{append_identity_text, plan_input, InputKind, PlanInput};
use crate::prepare_error::StaticPrepareError;
use crate::seqs;
use crate::text;
use crate::text::{concat2, concat3, concat4, decimal_text, text_equal};

verus! {

/// A document of the configuration; `T` is the type of text.
#[derive(Debug)]
pub struct DocumentId<T = String> {
    pub label: T,
    pub identity: T,
    pub path: T,
}

impl View for DocumentId<String> {
    type V = DocumentId<Seq<char>>;

    open spec fn view(&self) -> DocumentId<Seq<char>> {
        DocumentId { label: self.label@, identity: self.identity@, path: self.path@ }
    }
}

/// One document comes before another: by label, then content, then path.
pub open spec fn document_less(left: DocumentId<Seq<char>>, right: DocumentId<Seq<char>>) -> bool {
    if left.label != right.label {
        graph_sources::text_less(left.label, right.label)
    } else if left.identity != right.identity {
        graph_sources::text_less(left.identity, right.identity)
    } else {
        graph_sources::text_less(left.path, right.path)
    }
}

/// Documents are totally ordered: of two different ones exactly one comes first, and the
/// order carries over.
pub proof fn lemma_documents_are_ordered(
    a: DocumentId<Seq<char>>,
    b: DocumentId<Seq<char>>,
    c: DocumentId<Seq<char>>,
)
    ensures
        !document_less(a, a),
        a != b ==> document_less(a, b) != document_less(b, a),
        document_less(a, b) && document_less(b, c) ==> document_less(a, c),
{
    graph_sources::lemma_text_order(a.label, b.label, c.label);
    graph_sources::lemma_text_order(a.identity, b.identity, c.identity);
    graph_sources::lemma_text_order(a.path, b.path, c.path);
}

impl DocumentId {
    /// Tells whether two documents are the same.
    pub fn is_same(&self, other: &DocumentId) -> (same: bool)
        ensures
            same == (self@ == other@),
    {
        text_equal(self.label.as_str(), other.label.as_str()) && text_equal(
            self.identity.as_str(),
            other.identity.as_str(),
        ) && text_equal(self.path.as_str(), other.path.as_str())
    }

    /// Tells whether a document comes before another.
    pub fn is_before(&self, other: &DocumentId) -> (before: bool)
        ensures
            before == document_less(self@, other@),
    {
        if !text_equal(self.label.as_str(), other.label.as_str()) {
            text_before(self.label.as_str(), other.label.as_str())
        } else if !text_equal(self.identity.as_str(), other.identity.as_str()) {
            text_before(self.identity.as_str(), other.identity.as_str())
        } else {
            text_before(self.path.as_str(), other.path.as_str())
        }
    }

    /// Copies the identifier.
    pub fn copied(&self) -> (copy: DocumentId)
        ensures
            copy@ == self@,
    {
        DocumentId {
            label: self.label.clone(),
            identity: self.identity.clone(),
            path: self.path.clone(),
        }
    }

    /// Builds the bytes whose digest identifies a captured document.
    pub fn identity_preimage(&self) -> (bytes: Vec<u8>)
        ensures
            bytes@ == config_documents::domain("malm-captured-config-document"@)
                + plan::framed_all(seq![self@.label, self@.identity, self@.path]),
    {
        let mut bytes: Vec<u8> = Vec::new();
        bytes.extend_from_slice("malm-captured-config-document".as_bytes());
        bytes.push(0);
        proof {
            assert(bytes@ =~= config_documents::domain("malm-captured-config-document"@));
        }
        append_identity_text(&mut bytes, self.label.as_str());
        append_identity_text(&mut bytes, self.identity.as_str());
        append_identity_text(&mut bytes, self.path.as_str());
        proof {
            reveal_with_fuel(plan::framed_all, 4);
            let values = seq![self@.label, self@.identity, self@.path];
            assert(values.skip(1) =~= seq![self@.identity, self@.path]);
            assert(values.skip(1).skip(1) =~= seq![self@.path]);
            assert(values.skip(1).skip(1).skip(1) =~= Seq::<Seq<char>>::empty());
            assert(plan::framed_all(values.skip(1).skip(1)) =~= plan::framed(self@.path));
            assert(plan::framed_all(values.skip(1)) =~= plan::framed(self@.identity) + plan::framed(
                self@.path,
            ));
            assert(bytes@ =~= config_documents::domain("malm-captured-config-document"@)
                + plan::framed_all(values));
        }
        bytes
    }
}

/// Captured documents have different identities where they differ.
pub proof fn lemma_document_identities_differ(
    left: DocumentId<Seq<char>>,
    right: DocumentId<Seq<char>>,
)
    requires
        plan::is_countable(left.label) && plan::is_countable(left.identity) && plan::is_countable(
            left.path,
        ),
        plan::is_countable(right.label) && plan::is_countable(right.identity)
            && plan::is_countable(right.path),
        plan::framed_all(seq![left.label, left.identity, left.path]) == plan::framed_all(
            seq![right.label, right.identity, right.path],
        ),
    ensures
        left == right,
{
    let mine = seq![left.label, left.identity, left.path];
    let other = seq![right.label, right.identity, right.path];
    plan::lemma_framed_lists_are_distinct(mine, other);
    assert(mine[0] == other[0] && mine[1] == other[1] && mine[2] == other[2]);
}

/// Which documents were queued, and what was read of the first of them.
pub struct WalkModel {
    /// The documents in the order in which they were first named.
    pub queued: Seq<DocumentId<Seq<char>>>,
    /// The digests of the documents that were read, in the same order.
    pub digests: Seq<Seq<char>>,
}

/// The queue with a document that was named: it is queued once only.
pub open spec fn queued_once(
    queued: Seq<DocumentId<Seq<char>>>,
    named: DocumentId<Seq<char>>,
) -> Seq<DocumentId<Seq<char>>> {
    if queued.contains(named) {
        queued
    } else {
        queued.push(named)
    }
}

/// The queue with all documents that were named, in their order.
pub open spec fn queued_all(
    queued: Seq<DocumentId<Seq<char>>>,
    named: Seq<DocumentId<Seq<char>>>,
) -> Seq<DocumentId<Seq<char>>>
    decreases named.len(),
{
    if named.len() == 0 {
        queued
    } else {
        queued_once(queued_all(queued, named.drop_last()), named.last())
    }
}

/// Nothing is lost from the queue, nothing stands in it twice, and everything that was named
/// stands in it.
pub proof fn lemma_queue_keeps_order(
    queued: Seq<DocumentId<Seq<char>>>,
    named: Seq<DocumentId<Seq<char>>>,
)
    requires
        queued.no_duplicates(),
    ensures
        queued_all(queued, named).no_duplicates(),
        queued.is_prefix_of(queued_all(queued, named)),
        forall|i: int|
            0 <= i < named.len() ==> queued_all(queued, named).contains(#[trigger] named[i]),
    decreases named.len(),
{
    let all = queued_all(queued, named);
    if named.len() > 0 {
        let head = named.drop_last();
        let before = queued_all(queued, head);
        lemma_queue_keeps_order(queued, head);
        if !before.contains(named.last()) {
            assert(all =~= before.push(named.last()));
            assert(all.take(before.len() as int) =~= before);
            assert(all.take(queued.len() as int) =~= before.take(queued.len() as int));
        }
        assert forall|i: int| 0 <= i < named.len() implies all.contains(#[trigger] named[i]) by {
            if i < head.len() {
                assert(before.contains(head[i]));
                let k = choose|k: int| 0 <= k < before.len() && before[k] == head[i];
                assert(all[k] == before[k]);
            } else if !before.contains(named.last()) {
                assert(all[before.len() as int] == named[i]);
            }
        }
    } else {
        assert(queued.take(queued.len() as int) =~= queued);
    }
}

/// A walk over the documents of a configuration, starting at its entry point.
#[derive(Debug)]
pub struct DocumentWalk {
    queued: Vec<DocumentId>,
    digests: Vec<String>,
}

impl DocumentWalk {
    #[verifier::type_invariant]
    spec fn inv(self) -> bool {
        &&& self.queued@.len() > 0
        &&& self.digests@.len() <= self.queued@.len()
        &&& seqs::views(self.queued@).no_duplicates()
    }

    /// What the walk has queued and read.
    pub closed spec fn model(self) -> WalkModel {
        WalkModel { queued: seqs::views(self.queued@), digests: seqs::views(self.digests@) }
    }

    /// Starts a walk at an entry point.
    pub fn start(entry: DocumentId) -> (walk: Self)
        ensures
            walk.model().queued == seq![entry@],
            walk.model().digests == Seq::<Seq<char>>::empty(),
    {
        let mut queued: Vec<DocumentId> = Vec::new();
        let ghost viewed = entry@;
        queued.push(entry);
        proof {
            assert(seqs::views(queued@) =~= seq![viewed]);
        }
        let walk = DocumentWalk { queued, digests: Vec::new() };
        proof {
            assert(seqs::views(walk.digests@) =~= Seq::<Seq<char>>::empty());
        }
        walk
    }

    /// Returns the next document to read, or `None` where every named document was read.
    pub fn next(&self) -> (next: Option<&DocumentId>)
        ensures
            self.model().queued.no_duplicates(),
            self.model().digests.len() <= self.model().queued.len(),
            match next {
                Some(id) => self.model().digests.len() < self.model().queued.len() && id@
                    == self.model().queued[self.model().digests.len() as int],
                None => self.model().digests.len() == self.model().queued.len(),
            },
    {
        proof {
            use_type_invariant(self);
        }
        if self.digests.len() < self.queued.len() {
            Some(&self.queued[self.digests.len()])
        } else {
            None
        }
    }

    /// Returns the error for a document that is not in its pack; `shown` is how the document
    /// is displayed.
    pub fn missing(&self, shown: &str) -> (error: StaticPrepareError)
        ensures
            error@ == if self.model().digests.len() == 0 {
                StaticPrepareError::<Seq<char>, Seq<u8>>::MissingRootConfig
            } else {
                StaticPrepareError::<Seq<char>, Seq<u8>>::MissingConfigDocument {
                    document: shown@,
                }
            },
    {
        if self.digests.len() == 0 {
            StaticPrepareError::MissingRootConfig
        } else {
            StaticPrepareError::MissingConfigDocument { document: shown.to_owned() }
        }
    }

    /// Takes the digest of the next document, and the documents that it names.
    pub fn supply(self, digest: String, named: Vec<DocumentId>) -> (walk: Self)
        requires
            self.model().digests.len() < self.model().queued.len(),
        ensures
            walk.model().digests == self.model().digests.push(digest@),
            walk.model().queued == queued_all(self.model().queued, seqs::views(named@)),
    {
        proof {
            use_type_invariant(&self);
        }
        let ghost start = self.model().queued;
        let ghost all = seqs::views(named@);
        let DocumentWalk { queued, digests } = self;
        let mut queued = queued;
        let mut digests = digests;
        let ghost read = digests@;
        let ghost viewed = digest@;
        proof {
            assert(all.take(0) =~= Seq::<DocumentId<Seq<char>>>::empty());
        }
        for id in it: named.into_iter()
            invariant
                all == seqs::views(it.seq()),
                it.index() <= it.seq().len(),
                seqs::views(queued@) == queued_all(start, all.take(it.index() as int)),
        {
            proof {
                let i = it.index() as int;
                assert(all.take(i + 1).drop_last() =~= all.take(i));
                assert(all.take(i + 1).last() == id@);
            }
            if !contains_document(&queued, &id) {
                let ghost before = queued@;
                let ghost viewed = id@;
                queued.push(id);
                proof {
                    assert(seqs::views(queued@) =~= seqs::views(before).push(viewed));
                }
            }
        }
        digests.push(digest);
        proof {
            assert(all.take(all.len() as int) =~= all);
            assert(seqs::views(digests@) =~= seqs::views(read).push(viewed));
            lemma_queue_keeps_order(start, all);
            assert(seqs::views(queued@).len() == queued@.len());
        }
        DocumentWalk { queued, digests }
    }

    /// Returns the documents of a finished walk in their order.
    pub fn into_documents(self) -> (documents: Vec<CapturedDocument>)
        requires
            self.model().digests.len() == self.model().queued.len(),
        ensures
            are_captured(seqs::views(documents@), self.model()),
    {
        proof {
            use_type_invariant(&self);
        }
        let ghost model = self.model();
        let DocumentWalk { queued, digests } = self;
        let mut documents: Vec<CapturedDocument> = Vec::new();
        let mut i: usize = 0;
        while i < queued.len()
            invariant
                i <= queued.len(),
                queued@.len() == digests@.len(),
                model.queued == seqs::views(queued@),
                model.digests == seqs::views(digests@),
                model.queued.no_duplicates(),
                are_captured_until(seqs::views(documents@), model, i as int),
            decreases queued.len() - i,
        {
            proof {
                assert(model.queued[i as int] == queued@[i as int]@);
                assert(model.digests[i as int] == digests@[i as int]@);
            }
            insert_document(
                &mut documents,
                CapturedDocument { id: queued[i].copied(), digest: digests[i].clone() },
                Ghost(model),
                Ghost(i as int),
            );
            i = i + 1;
        }
        documents
    }
}

fn contains_document(list: &Vec<DocumentId>, id: &DocumentId) -> (found: bool)
    ensures
        found == seqs::views(list@).contains(id@),
{
    let ghost all = seqs::views(list@);
    let mut i: usize = 0;
    while i < list.len()
        invariant
            i <= list.len(),
            all == seqs::views(list@),
            forall|k: int| 0 <= k < i ==> #[trigger] all[k] != id@,
        decreases list.len() - i,
    {
        proof {
            assert(all[i as int] == list@[i as int]@);
        }
        if list[i].is_same(id) {
            return true;
        }
        i = i + 1;
    }
    false
}

/// A document with the digest that it was captured at.
#[derive(Debug)]
pub struct CapturedDocument<T = String> {
    pub id: DocumentId<T>,
    pub digest: T,
}

impl View for CapturedDocument<String> {
    type V = CapturedDocument<Seq<char>>;

    open spec fn view(&self) -> CapturedDocument<Seq<char>> {
        CapturedDocument { id: self.id@, digest: self.digest@ }
    }
}

/// A captured document was read at this place of the walk.
pub open spec fn was_read_at(
    document: CapturedDocument<Seq<char>>,
    model: WalkModel,
    index: int,
) -> bool {
    document.id == model.queued[index] && document.digest == model.digests[index]
}

/// Some captured document is the one that was read at this place of the walk.
pub open spec fn holds_read(
    documents: Seq<CapturedDocument<Seq<char>>>,
    model: WalkModel,
    index: int,
) -> bool {
    exists|k: int| 0 <= k < documents.len() && was_read_at(#[trigger] documents[k], model, index)
}

/// The document was read among the first of the walk.
pub open spec fn was_read_before(
    document: CapturedDocument<Seq<char>>,
    model: WalkModel,
    count: int,
) -> bool {
    exists|i: int| 0 <= i < count && #[trigger] was_read_at(document, model, i)
}

/// The first so many documents of a walk, in the order of the documents.
pub open spec fn are_captured_until(
    documents: Seq<CapturedDocument<Seq<char>>>,
    model: WalkModel,
    count: int,
) -> bool {
    &&& documents.len() == count
    &&& forall|j: int, k: int|
        0 <= j < k < documents.len() ==> document_less(
            (#[trigger] documents[j]).id,
            (#[trigger] documents[k]).id,
        )
    &&& forall|k: int|
        0 <= k < documents.len() ==> was_read_before(#[trigger] documents[k], model, count)
    &&& forall|i: int| 0 <= i < count ==> #[trigger] holds_read(documents, model, i)
}

/// The documents of a finished walk, each once, in the order of the documents.
pub open spec fn are_captured(
    documents: Seq<CapturedDocument<Seq<char>>>,
    model: WalkModel,
) -> bool {
    are_captured_until(documents, model, model.queued.len() as int)
}

fn insert_document(
    documents: &mut Vec<CapturedDocument>,
    added: CapturedDocument,
    Ghost(model): Ghost<WalkModel>,
    Ghost(count): Ghost<int>,
)
    requires
        0 <= count < model.queued.len(),
        model.queued.len() == model.digests.len(),
        model.queued.no_duplicates(),
        was_read_at(added@, model, count),
        are_captured_until(seqs::views(old(documents)@), model, count),
    ensures
        are_captured_until(seqs::views(final(documents)@), model, count + 1),
{
    let ghost before = seqs::views(documents@);
    let ghost fresh = added@;
    let mut position: usize = 0;
    while position < documents.len() && documents[position].id.is_before(&added.id)
        invariant
            position <= documents.len(),
            before == seqs::views(documents@),
            fresh == added@,
            forall|k: int|
                0 <= k < position ==> document_less((#[trigger] before[k]).id, fresh.id),
        decreases documents.len() - position,
    {
        proof {
            assert(before[position as int] == documents@[position as int]@);
        }
        position = position + 1;
    }
    proof {
        if position < before.len() {
            assert(before[position as int] == documents@[position as int]@);
            assert(!document_less(before[position as int].id, fresh.id));
        }
    }
    documents.insert(position, added);
    proof {
        let after = seqs::views(documents@);
        let p = position as int;
        assert(after =~= before.insert(p, fresh));
        assert forall|k: int| p <= k < before.len() implies document_less(
            fresh.id,
            (#[trigger] before[k]).id,
        ) by {
            assert(was_read_before(before[p], model, count));
            let i = choose|i: int| 0 <= i < count && #[trigger] was_read_at(before[p], model, i);
            assert(model.queued[i] != model.queued[count]);
            lemma_documents_are_ordered(fresh.id, before[p].id, before[k].id);
            if k > p {
                assert(document_less(before[p].id, before[k].id));
            }
        }
        assert forall|j: int, k: int| 0 <= j < k < after.len() implies document_less(
            (#[trigger] after[j]).id,
            (#[trigger] after[k]).id,
        ) by {
            let jj = if j < p { j } else { j - 1 };
            let kk = if k < p { k } else { k - 1 };
            if j != p && k != p {
                assert(document_less(before[jj].id, before[kk].id));
            } else if j == p {
                assert(document_less(fresh.id, before[kk].id));
            } else {
                assert(document_less(before[jj].id, fresh.id));
            }
        }
        assert forall|k: int| 0 <= k < after.len() implies was_read_before(
            #[trigger] after[k],
            model,
            count + 1,
        ) by {
            if k == p {
                assert(was_read_at(after[k], model, count));
            } else {
                let kk = if k < p { k } else { k - 1 };
                assert(was_read_before(before[kk], model, count));
                let i = choose|i: int|
                    0 <= i < count && #[trigger] was_read_at(before[kk], model, i);
                assert(was_read_at(after[k], model, i));
            }
        }
        assert forall|i: int| 0 <= i < count + 1 implies #[trigger] holds_read(after, model, i) by {
            if i == count {
                assert(was_read_at(after[p], model, i));
            } else {
                assert(holds_read(before, model, i));
                let k = choose|k: int|
                    0 <= k < before.len() && was_read_at(#[trigger] before[k], model, i);
                let kk = if k < p { k } else { k + 1 };
                assert(after[kk] == before[k]);
            }
        }
    }
}

/// The name of the input that holds the execution profile of a component.
pub open spec fn profile_input_name(node_id: Seq<char>, component: Seq<char>) -> Seq<char> {
    LOCKED_COMPONENT_PROFILE_INPUT_PREFIX@ + node_id + ":"@ + component
}

/// The inputs with the execution profiles of a node's components.
pub open spec fn node_profile_inputs(node: NodeModel) -> Seq<PlanInput<Seq<char>>> {
    Seq::new(
        node.components.len(),
        |i: int|
            PlanInput {
                kind: InputKind::Other,
                name: profile_input_name(node.node_id, node.components[i].name),
                digest: node.components[i].execution_profile,
            },
    )
}

/// The inputs with the execution profiles of all nodes' components, in their order.
pub open spec fn profile_inputs_of(nodes: Seq<NodeModel>) -> Seq<PlanInput<Seq<char>>>
    decreases nodes.len(),
{
    if nodes.len() == 0 {
        Seq::empty()
    } else {
        profile_inputs_of(nodes.drop_last()) + node_profile_inputs(nodes.last())
    }
}

/// Builds the inputs with the execution profiles of all nodes' components.
pub fn component_profile_inputs(nodes: &Vec<LockedNode>) -> (inputs: Vec<PlanInput>)
    ensures
        seqs::views(inputs@) == profile_inputs_of(seqs::views(nodes@)),
{
    let ghost all = seqs::views(nodes@);
    let mut inputs: Vec<PlanInput> = Vec::new();
    let mut i: usize = 0;
    proof {
        assert(all.take(0) =~= Seq::<NodeModel>::empty());
        assert(seqs::views(inputs@) =~= Seq::<PlanInput<Seq<char>>>::empty());
    }
    while i < nodes.len()
        invariant
            i <= nodes.len(),
            all == seqs::views(nodes@),
            seqs::views(inputs@) == profile_inputs_of(all.take(i as int)),
        decreases nodes.len() - i,
    {
        let node = &nodes[i];
        let ghost done = seqs::views(inputs@);
        let ghost wanted = node_profile_inputs(node@);
        let mut k: usize = 0;
        proof {
            assert(all.take(i + 1).drop_last() =~= all.take(i as int));
            assert(all.take(i + 1).last() == node@);
            assert(done =~= done + wanted.take(0));
        }
        while k < node.components.len()
            invariant
                k <= node.components.len(),
                wanted == node_profile_inputs(node@),
                seqs::views(inputs@) == done + wanted.take(k as int),
            decreases node.components.len() - k,
        {
            let component = &node.components[k];
            let ghost before = inputs@;
            let input = plan_input(
                InputKind::Other,
                concat4(
                    LOCKED_COMPONENT_PROFILE_INPUT_PREFIX,
                    node.node_id.as_str(),
                    ":",
                    component.name.as_str(),
                ),
                component.execution_profile.as_str(),
            );
            let ghost viewed = input@;
            inputs.push(input);
            proof {
                assert(node@.components[k as int] == component@);
                assert(seqs::views(inputs@) =~= seqs::views(before).push(viewed));
                assert(wanted[k as int] == viewed);
                assert(done + wanted.take(k + 1) =~= (done + wanted.take(k as int)).push(viewed));
            }
            k = k + 1;
        }
        proof {
            assert(wanted.take(wanted.len() as int) =~= wanted);
        }
        i = i + 1;
    }
    proof {
        assert(all.take(all.len() as int) =~= all);
    }
    inputs
}

/// A pack of the graph with the digest of its content.
#[derive(Debug)]
pub struct PackContent<T = String> {
    pub node_id: T,
    pub content_digest: T,
}

impl View for PackContent<String> {
    type V = PackContent<Seq<char>>;

    open spec fn view(&self) -> PackContent<Seq<char>> {
        PackContent { node_id: self.node_id@, content_digest: self.content_digest@ }
    }
}

/// A captured document with the digest of its identity.
#[derive(Debug)]
pub struct IdentifiedDocument<T = String> {
    pub digest: T,
    pub identity_digest: T,
}

impl View for IdentifiedDocument<String> {
    type V = IdentifiedDocument<Seq<char>>;

    open spec fn view(&self) -> IdentifiedDocument<Seq<char>> {
        IdentifiedDocument { digest: self.digest@, identity_digest: self.identity_digest@ }
    }
}

/// The input of a pack.
pub open spec fn pack_input(pack: PackContent<Seq<char>>) -> PlanInput<Seq<char>> {
    PlanInput {
        kind: InputKind::Source,
        name: "pack:"@ + pack.node_id,
        digest: pack.content_digest,
    }
}

/// The inputs of the document at a place: its bytes, and its identity.
pub open spec fn document_inputs(
    documents: Seq<IdentifiedDocument<Seq<char>>>,
    index: int,
) -> Seq<PlanInput<Seq<char>>> {
    let start = "config-document:"@ + text::decimal(index as nat);
    seq![
        PlanInput {
            kind: InputKind::Config,
            name: start + ":bytes"@,
            digest: documents[index].digest,
        },
        PlanInput {
            kind: InputKind::Config,
            name: start + ":identity"@,
            digest: documents[index].identity_digest,
        },
    ]
}

/// The inputs of the first so many documents.
pub open spec fn all_document_inputs(
    documents: Seq<IdentifiedDocument<Seq<char>>>,
    count: int,
) -> Seq<PlanInput<Seq<char>>>
    decreases count,
{
    if count <= 0 {
        Seq::empty()
    } else {
        all_document_inputs(documents, count - 1) + document_inputs(documents, count - 1)
    }
}

/// The inputs of an evaluated graph: the lock, its packs in dependency order, the execution
/// profiles of their components with the digest over all of them, and the documents.
pub open spec fn evaluation_inputs_of(
    graph_digest: Seq<char>,
    packs: Seq<PackContent<Seq<char>>>,
    nodes: Seq<NodeModel>,
    profiles_digest: Seq<char>,
    documents: Seq<IdentifiedDocument<Seq<char>>>,
) -> Seq<PlanInput<Seq<char>>> {
    seq![
        PlanInput { kind: InputKind::Lock, name: "locked-graph"@, digest: graph_digest },
    ] + Seq::new(packs.len(), |i: int| pack_input(packs[i])) + profile_inputs_of(nodes) + seq![
        PlanInput {
            kind: InputKind::Other,
            name: LOCKED_COMPONENT_PROFILES_INPUT@,
            digest: profiles_digest,
        },
    ] + all_document_inputs(documents, documents.len() as int)
}

/// Builds the inputs of an evaluated graph.
pub fn evaluation_inputs(
    graph_digest: &str,
    packs: &Vec<PackContent>,
    nodes: &Vec<LockedNode>,
    profiles_digest: &str,
    documents: &Vec<IdentifiedDocument>,
) -> (inputs: Vec<PlanInput>)
    ensures
        seqs::views(inputs@) == evaluation_inputs_of(
            graph_digest@,
            seqs::views(packs@),
            seqs::views(nodes@),
            profiles_digest@,
            seqs::views(documents@),
        ),
{
    let ghost contents = seqs::views(packs@);
    let ghost captured = seqs::views(documents@);
    let ghost lock = PlanInput {
        kind: InputKind::Lock,
        name: "locked-graph"@,
        digest: graph_digest@,
    };
    let ghost sources = Seq::new(contents.len(), |k: int| pack_input(contents[k]));
    let mut inputs: Vec<PlanInput> = Vec::new();
    inputs.push(plan_input(InputKind::Lock, "locked-graph".to_owned(), graph_digest));
    let mut i: usize = 0;
    proof {
        assert(seqs::views(inputs@) =~= seq![lock] + sources.take(0));
    }
    while i < packs.len()
        invariant
            i <= packs.len(),
            contents == seqs::views(packs@),
            sources == Seq::new(contents.len(), |k: int| pack_input(contents[k])),
            seqs::views(inputs@) == seq![lock] + sources.take(i as int),
        decreases packs.len() - i,
    {
        let ghost before = inputs@;
        let input = plan_input(
            InputKind::Source,
            concat2("pack:", packs[i].node_id.as_str()),
            packs[i].content_digest.as_str(),
        );
        let ghost viewed = input@;
        inputs.push(input);
        proof {
            assert(contents[i as int] == packs@[i as int]@);
            assert(sources[i as int] == viewed);
            assert(seqs::views(inputs@) =~= seqs::views(before).push(viewed));
            assert(seq![lock] + sources.take(i + 1) =~= (seq![lock] + sources.take(
                i as int,
            )).push(viewed));
        }
        i = i + 1;
    }
    let ghost listed = inputs@;
    let mut profiles = component_profile_inputs(nodes);
    let ghost of_nodes = profiles@;
    inputs.append(&mut profiles);
    let ghost profiled = inputs@;
    let overall = plan_input(
        InputKind::Other,
        LOCKED_COMPONENT_PROFILES_INPUT.to_owned(),
        profiles_digest,
    );
    let ghost over = overall@;
    inputs.push(overall);
    let ghost start = seqs::views(inputs@);
    proof {
        assert(sources.take(sources.len() as int) =~= sources);
        assert(seqs::views(profiled) =~= seqs::views(listed) + seqs::views(of_nodes));
        assert(start =~= seqs::views(profiled) + seq![over]);
    }
    let mut i: usize = 0;
    proof {
        assert(start =~= start + all_document_inputs(captured, 0));
    }
    while i < documents.len()
        invariant
            i <= documents.len(),
            captured == seqs::views(documents@),
            seqs::views(inputs@) == start + all_document_inputs(captured, i as int),
        decreases documents.len() - i,
    {
        let ghost before = inputs@;
        let number = decimal_text(i as u64);
        let bytes = plan_input(
            InputKind::Config,
            concat3("config-document:", number.as_str(), ":bytes"),
            documents[i].digest.as_str(),
        );
        let identity = plan_input(
            InputKind::Config,
            concat3("config-document:", number.as_str(), ":identity"),
            documents[i].identity_digest.as_str(),
        );
        let ghost first = bytes@;
        let ghost second = identity@;
        inputs.push(bytes);
        inputs.push(identity);
        proof {
            assert(captured[i as int] == documents@[i as int]@);
            let pair = document_inputs(captured, i as int);
            assert(pair =~= seq![first, second]);
            assert(seqs::views(inputs@) =~= seqs::views(before) + pair);
            assert((start + all_document_inputs(captured, i as int)) + pair =~= start + (
            all_document_inputs(captured, i as int) + pair));
        }
        i = i + 1;
    }
    inputs
}

/// Nothing is queued but what was queued or named.
pub proof fn lemma_only_named_documents_are_queued(
    queued: Seq<DocumentId<Seq<char>>>,
    named: Seq<DocumentId<Seq<char>>>,
    id: DocumentId<Seq<char>>,
)
    requires
        queued_all(queued, named).contains(id),
    ensures
        queued.contains(id) || named.contains(id),
    decreases named.len(),
{
    if named.len() > 0 {
        let before = queued_all(queued, named.drop_last());
        let all = queued_all(queued, named);
        let k = choose|k: int| 0 <= k < all.len() && all[k] == id;
        if k < before.len() {
            assert(before[k] == id);
            assert(before.contains(id));
            lemma_only_named_documents_are_queued(queued, named.drop_last(), id);
            if named.drop_last().contains(id) {
                let i = choose|i: int|
                    0 <= i < named.drop_last().len() && named.drop_last()[i] == id;
                assert(named[i] == id);
            }
        } else {
            assert(named[named.len() - 1] == id);
        }
    }
}

/// The inputs of an evaluation tell of the locked graph that it was made from, of every pack by its
/// content, and of all execution profiles.
pub proof fn lemma_evaluation_inputs_tell_of_the_graph(
    graph_digest: Seq<char>,
    packs: Seq<PackContent<Seq<char>>>,
    nodes: Seq<NodeModel>,
    profiles_digest: Seq<char>,
    documents: Seq<IdentifiedDocument<Seq<char>>>,
    pack: int,
)
    ensures
        ({
            let inputs = evaluation_inputs_of(
                graph_digest,
                packs,
                nodes,
                profiles_digest,
                documents,
            );
            let shared = 1 + packs.len() + profile_inputs_of(nodes).len();
            &&& inputs[0].kind is Lock
            &&& inputs[0].name == "locked-graph"@
            &&& inputs[0].digest == graph_digest
            &&& 0 <= pack < packs.len() ==> inputs[1 + pack].kind is Source && inputs[1 + pack].name
                == "pack:"@ + packs[pack].node_id && inputs[1 + pack].digest
                == packs[pack].content_digest
            &&& inputs.subrange(1 + packs.len() as int, shared as int) == profile_inputs_of(nodes)
            &&& inputs[shared as int].name == "locked-component-profiles"@
            &&& inputs[shared as int].digest == profiles_digest
        }),
{
    let inputs = evaluation_inputs_of(graph_digest, packs, nodes, profiles_digest, documents);
    let shared = 1 + packs.len() + profile_inputs_of(nodes).len();
    assert(inputs.subrange(1 + packs.len() as int, shared as int) =~= profile_inputs_of(nodes));
    if 0 <= pack < packs.len() {
        assert(inputs[1 + pack] == pack_input(packs[pack]));
    }
}

/// The inputs of an evaluation tell of every document by its bytes and by its identity.
pub proof fn lemma_evaluation_inputs_tell_of_the_documents(
    graph_digest: Seq<char>,
    packs: Seq<PackContent<Seq<char>>>,
    nodes: Seq<NodeModel>,
    profiles_digest: Seq<char>,
    documents: Seq<IdentifiedDocument<Seq<char>>>,
    document: int,
)
    requires
        0 <= document < documents.len(),
    ensures
        ({
            let inputs = evaluation_inputs_of(
                graph_digest,
                packs,
                nodes,
                profiles_digest,
                documents,
            );
            let first = inputs.len() - 2 * documents.len();
            let bytes = inputs[first + 2 * document];
            let identity = inputs[first + 2 * document + 1];
            &&& first == 2 + packs.len() + profile_inputs_of(nodes).len()
            &&& bytes.kind is Config
            &&& bytes.digest == documents[document].digest
            &&& bytes.name == "config-document:"@ + text::decimal(document as nat) + ":bytes"@
            &&& identity.kind is Config
            &&& identity.digest == documents[document].identity_digest
            &&& identity.name == "config-document:"@ + text::decimal(document as nat)
                + ":identity"@
        }),
{
    let inputs = evaluation_inputs_of(graph_digest, packs, nodes, profiles_digest, documents);
    let tail = all_document_inputs(documents, documents.len() as int);
    lemma_document_inputs(documents, documents.len() as int);
    let first = inputs.len() - tail.len();
    assert(inputs[first + 2 * document] == tail[2 * document]);
    assert(inputs[first + 2 * document + 1] == tail[2 * document + 1]);
    assert(tail[2 * document] == document_inputs(documents, document)[0]);
}

proof fn lemma_document_inputs(documents: Seq<IdentifiedDocument<Seq<char>>>, count: int)
    requires
        0 <= count <= documents.len(),
    ensures
        all_document_inputs(documents, count).len() == 2 * count,
        forall|d: int|
            0 <= d < count ==> all_document_inputs(documents, count)[2 * d] == #[trigger]
                document_inputs(documents, d)[0] && all_document_inputs(documents, count)[2 * d + 1]
                == document_inputs(documents, d)[1],
    decreases count,
{
    if count > 0 {
        lemma_document_inputs(documents, count - 1);
    }
}

/// Every component of every locked pack has an input with its execution profile, named after the
/// pack and the component, and no other input stands among them.
pub proof fn lemma_every_component_has_its_profile(nodes: Seq<NodeModel>)
    ensures
        forall|n: int, c: int|
            0 <= n < nodes.len() && 0 <= c < nodes[n].components.len() ==> profile_inputs_of(
                nodes,
            ).contains(
                PlanInput {
                    kind: InputKind::Other,
                    name: "locked-component-profile:"@ + nodes[n].node_id + ":"@
                        + (#[trigger] nodes[n].components[c]).name,
                    digest: nodes[n].components[c].execution_profile,
                },
            ),
        profile_inputs_of(nodes).len() == component_count(nodes),
    decreases nodes.len(),
{
    if nodes.len() > 0 {
        let before = nodes.drop_last();
        let fewer = profile_inputs_of(before);
        let own = node_profile_inputs(nodes.last());
        let all = profile_inputs_of(nodes);
        lemma_every_component_has_its_profile(before);
        assert forall|n: int, c: int|
            0 <= n < nodes.len() && 0 <= c < nodes[n].components.len() implies all.contains(
            PlanInput {
                kind: InputKind::Other,
                name: "locked-component-profile:"@ + nodes[n].node_id + ":"@
                    + (#[trigger] nodes[n].components[c]).name,
                digest: nodes[n].components[c].execution_profile,
            },
        ) by {
            let input = PlanInput {
                kind: InputKind::Other,
                name: "locked-component-profile:"@ + nodes[n].node_id + ":"@
                    + nodes[n].components[c].name,
                digest: nodes[n].components[c].execution_profile,
            };
            if n < before.len() {
                assert(before[n].components[c] == nodes[n].components[c]);
                assert(fewer.contains(input));
                let k = choose|k: int| 0 <= k < fewer.len() && fewer[k] == input;
                assert(all[k] == input);
            } else {
                assert(own[c] == input);
                assert(all[fewer.len() + c] == input);
            }
        }
    }
}

/// How many components packs have together.
pub open spec fn component_count(nodes: Seq<NodeModel>) -> nat
    decreases nodes.len(),
{
    if nodes.len() == 0 {
        0
    } else {
        component_count(nodes.drop_last()) + nodes.last().components.len()
    }
}

} // verus!
