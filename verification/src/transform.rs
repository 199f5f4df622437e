//! What a plan records of the format transforms that made its outputs.

use vstd::prelude::*;

use crate::config_walk::DocumentId;
use crate::plan::{Finding, InputKind, PlanInput};
use crate::prepare_error::StaticPrepareError;
use crate::seqs;
use crate::text;
use crate::text::{concat2, concat4, decimal_text, text_equal};

verus! {

/// Severity of a diagnostic.
#[derive(Debug, Clone, Copy, PartialEq, Eq, Structural)]
pub enum Severity {
    Error,
    Warning,
    Info,
}

impl Severity {
    /// The word for the severity in finding codes.
    pub open spec fn words(self) -> Seq<char> {
        match self {
            Severity::Error => "error"@,
            Severity::Warning => "warning"@,
            Severity::Info => "info"@,
        }
    }

    /// Returns the word for the severity in finding codes.
    pub fn name(self) -> (name: &'static str)
        ensures
            name@ == self.words(),
    {
        match self {
            Severity::Error => "error",
            Severity::Warning => "warning",
            Severity::Info => "info",
        }
    }
}

/// Where a diagnostic points to; `T` is the type of text.
#[derive(Debug)]
#[allow(inconsistent_fields)]
pub enum Location<T = String> {
    Source { document: DocumentId<T>, start: u64, end: u64 },
    Output { start: u64, end: u64 },
}

impl View for Location<String> {
    type V = Location<Seq<char>>;

    open spec fn view(&self) -> Location<Seq<char>> {
        match *self {
            Location::Source { document, start, end } => Location::Source {
                document: document@,
                start,
                end,
            },
            Location::Output { start, end } => Location::Output { start, end },
        }
    }
}

/// A location that may be missing, as contracts speak of it.
pub open spec fn location_view(location: Option<Location>) -> Option<Location<Seq<char>>> {
    match location {
        Some(value) => Some(value@),
        None => None,
    }
}

/// What a transform tells of its work; `N` is the type of its list of notes.
#[derive(Debug)]
pub struct Diagnostic<T = String, N = Vec<String>> {
    pub severity: Severity,
    pub code: T,
    pub message: T,
    pub primary: Option<Location<T>>,
    pub notes: N,
}

/// What a diagnostic holds.
pub type DiagnosticModel = Diagnostic<Seq<char>, Seq<Seq<char>>>;

impl View for Diagnostic {
    type V = DiagnosticModel;

    open spec fn view(&self) -> DiagnosticModel {
        Diagnostic {
            severity: self.severity,
            code: self.code@,
            message: self.message@,
            primary: location_view(self.primary),
            notes: seqs::views(self.notes@),
        }
    }
}

/// The finding about the diagnostic at a place.
pub open spec fn diagnostic_finding(
    output: Seq<char>,
    diagnostics: Seq<DiagnosticModel>,
    index: int,
) -> Finding<Seq<char>> {
    let diagnostic = diagnostics[index];
    Finding {
        code: "transform-"@ + diagnostic.severity.words() + "-"@ + output + ("-"@ + text::decimal(
            index as nat,
        )),
        message: diagnostic.message,
        approval_required: diagnostic.severity !is Info,
    }
}

/// The findings about all diagnostics, in their order.
pub open spec fn diagnostic_findings(output: Seq<char>, diagnostics: Seq<DiagnosticModel>) -> Seq<
    Finding<Seq<char>>,
> {
    Seq::new(diagnostics.len(), |i: int| diagnostic_finding(output, diagnostics, i))
}

/// Appends the findings about all diagnostics of a transform.
pub fn append_transform_findings(
    findings: &mut Vec<Finding>,
    output: &str,
    diagnostics: &Vec<Diagnostic>,
)
    ensures
        seqs::views(final(findings)@) == seqs::views(old(findings)@) + diagnostic_findings(
            output@,
            seqs::views(diagnostics@),
        ),
{
    let ghost start = seqs::views(findings@);
    let ghost all = seqs::views(diagnostics@);
    let ghost wanted = diagnostic_findings(output@, all);
    let mut i: usize = 0;
    proof {
        assert(start =~= start + wanted.take(0));
    }
    while i < diagnostics.len()
        invariant
            i <= diagnostics.len(),
            all == seqs::views(diagnostics@),
            wanted == diagnostic_findings(output@, all),
            seqs::views(findings@) == start + wanted.take(i as int),
        decreases diagnostics.len() - i,
    {
        let diagnostic = &diagnostics[i];
        let ghost before = findings@;
        let number = decimal_text(i as u64);
        let ending = concat2("-", number.as_str());
        let approval_required = match diagnostic.severity {
            Severity::Error | Severity::Warning => true,
            Severity::Info => false,
        };
        let code = concat4("transform-", diagnostic.severity.name(), "-", output);
        let finding = Finding {
            code: concat2(code.as_str(), ending.as_str()),
            message: diagnostic.message.clone(),
            approval_required,
        };
        let ghost viewed = finding@;
        findings.push(finding);
        proof {
            assert(all[i as int] == diagnostic@);
            assert(wanted[i as int] == viewed);
            assert(seqs::views(findings@) =~= seqs::views(before).push(viewed));
            assert(start + wanted.take(i + 1) =~= (start + wanted.take(i as int)).push(viewed));
        }
        i = i + 1;
    }
    proof {
        assert(wanted.take(wanted.len() as int) =~= wanted);
    }
}

/// A document that a configuration was evaluated from, with its length.
#[derive(Debug)]
pub struct SourceDocument<T = String> {
    pub id: DocumentId<T>,
    pub byte_len: u64,
}

impl View for SourceDocument<String> {
    type V = SourceDocument<Seq<char>>;

    open spec fn view(&self) -> SourceDocument<Seq<char>> {
        SourceDocument { id: self.id@, byte_len: self.byte_len }
    }
}

/// The place of a document among others.
pub open spec fn document_place(
    documents: Seq<SourceDocument<Seq<char>>>,
    id: DocumentId<Seq<char>>,
) -> Option<int>
    decreases documents.len(),
{
    if documents.len() == 0 {
        None
    } else {
        match document_place(documents.drop_last(), id) {
            Some(place) => Some(place),
            None => if documents.last().id == id {
                Some(documents.len() - 1)
            } else {
                None
            },
        }
    }
}

fn find_document(documents: &Vec<SourceDocument>, id: &DocumentId) -> (place: Option<usize>)
    ensures
        match place {
            Some(at) => at < documents.len() && document_place(seqs::views(documents@), id@)
                == Some(at as int),
            None => document_place(seqs::views(documents@), id@) is None,
        },
{
    let ghost all = seqs::views(documents@);
    let mut i: usize = 0;
    proof {
        assert(all.take(0) =~= Seq::<SourceDocument<Seq<char>>>::empty());
    }
    while i < documents.len()
        invariant
            i <= documents.len(),
            all == seqs::views(documents@),
            document_place(all.take(i as int), id@) is None,
        decreases documents.len() - i,
    {
        proof {
            assert(all.take(i + 1).drop_last() =~= all.take(i as int));
            assert(all.take(i + 1).last() == documents@[i as int]@);
        }
        if documents[i].id.is_same(id) {
            proof {
                lemma_place_stays(all, id@, i + 1);
            }
            return Some(i);
        }
        i = i + 1;
    }
    proof {
        assert(all.take(all.len() as int) =~= all);
    }
    None
}

proof fn lemma_place_stays(
    documents: Seq<SourceDocument<Seq<char>>>,
    id: DocumentId<Seq<char>>,
    count: int,
)
    requires
        0 <= count <= documents.len(),
        document_place(documents.take(count), id) is Some,
    ensures
        document_place(documents, id) == document_place(documents.take(count), id),
    decreases documents.len() - count,
{
    if count == documents.len() {
        assert(documents.take(count) =~= documents);
    } else {
        assert(documents.take(count + 1).drop_last() =~= documents.take(count));
        lemma_place_stays(documents, id, count + 1);
    }
}

/// A location as plans record it: with the length of the document that it points into.
#[derive(Debug)]
#[allow(inconsistent_fields)]
pub enum RecordedLocation<T = String> {
    Source { document: DocumentId<T>, byte_len: u64, start: u64, end: u64 },
    Output { start: u64, end: u64 },
}

impl View for RecordedLocation<String> {
    type V = RecordedLocation<Seq<char>>;

    open spec fn view(&self) -> RecordedLocation<Seq<char>> {
        match *self {
            RecordedLocation::Source { document, byte_len, start, end } =>
                RecordedLocation::Source { document: document@, byte_len, start, end },
            RecordedLocation::Output { start, end } => RecordedLocation::Output { start, end },
        }
    }
}

impl RecordedLocation {
    fn is_same(&self, other: &RecordedLocation) -> (same: bool)
        ensures
            same == (self@ == other@),
    {
        match (self, other) {
            (
                RecordedLocation::Source { document, byte_len, start, end },
                RecordedLocation::Source {
                    document: other_document,
                    byte_len: other_len,
                    start: other_start,
                    end: other_end,
                },
            ) => document.is_same(other_document) && *byte_len == *other_len && *start
                == *other_start && *end == *other_end,
            (
                RecordedLocation::Output { start, end },
                RecordedLocation::Output { start: other_start, end: other_end },
            ) => *start == *other_start && *end == *other_end,
            _ => false,
        }
    }
}

/// A recorded location that may be missing, as contracts speak of it.
pub open spec fn recorded_location_view(location: Option<RecordedLocation>) -> Option<
    RecordedLocation<Seq<char>>,
> {
    match location {
        Some(value) => Some(value@),
        None => None,
    }
}

/// A diagnostic as plans record it; `warns` tells a warning from information.
#[derive(Debug)]
pub struct RecordedDiagnostic<T = String, N = Vec<String>> {
    pub warns: bool,
    pub code: T,
    pub message: T,
    pub primary: Option<RecordedLocation<T>>,
    pub notes: N,
}

/// What a recorded diagnostic holds.
pub type RecordedDiagnosticModel = RecordedDiagnostic<Seq<char>, Seq<Seq<char>>>;

impl View for RecordedDiagnostic {
    type V = RecordedDiagnosticModel;

    open spec fn view(&self) -> RecordedDiagnosticModel {
        RecordedDiagnostic {
            warns: self.warns,
            code: self.code@,
            message: self.message@,
            primary: recorded_location_view(self.primary),
            notes: seqs::views(self.notes@),
        }
    }
}

/// Models of failures.
pub type PrepareErrorModel = StaticPrepareError<Seq<char>, Seq<u8>>;

/// A location as it is recorded.
pub open spec fn recorded_location_of(
    location: Option<Location<Seq<char>>>,
    documents: Seq<SourceDocument<Seq<char>>>,
) -> Result<Option<RecordedLocation<Seq<char>>>, PrepareErrorModel> {
    match location {
        None => Ok(None),
        Some(Location::Output { start, end }) => Ok(Some(RecordedLocation::Output { start, end })),
        Some(Location::Source { document, start, end }) => match document_place(
            documents,
            document,
        ) {
            Some(place) => Ok(
                Some(
                    RecordedLocation::Source {
                        document,
                        byte_len: documents[place].byte_len,
                        start,
                        end,
                    },
                ),
            ),
            None => Err(
                StaticPrepareError::TransformContract {
                    detail: "transform diagnostic references an unknown source document"@,
                },
            ),
        },
    }
}

/// A diagnostic as it is recorded: an error cannot stand in a successful transform, and a
/// source location must point into a document that the configuration was evaluated from.
pub open spec fn recorded_of(
    diagnostic: DiagnosticModel,
    documents: Seq<SourceDocument<Seq<char>>>,
) -> Result<RecordedDiagnosticModel, PrepareErrorModel> {
    if diagnostic.severity is Error {
        Err(
            StaticPrepareError::TransformContract {
                detail: "successful transform contains an error diagnostic"@,
            },
        )
    } else {
        match recorded_location_of(diagnostic.primary, documents) {
            Err(error) => Err(error),
            Ok(primary) => Ok(
                RecordedDiagnostic {
                    warns: diagnostic.severity is Warning,
                    code: diagnostic.code,
                    message: diagnostic.message,
                    primary,
                    notes: diagnostic.notes,
                },
            ),
        }
    }
}

/// What was recorded, as contracts speak of it.
pub open spec fn outcome_view<V: View>(outcome: Result<V, StaticPrepareError>) -> Result<
    V::V,
    PrepareErrorModel,
> {
    match outcome {
        Ok(value) => Ok(value@),
        Err(error) => Err(error@),
    }
}

fn copy_texts(list: &Vec<String>) -> (copy: Vec<String>)
    ensures
        seqs::views(copy@) == seqs::views(list@),
{
    let mut copy: Vec<String> = Vec::new();
    let mut i: usize = 0;
    while i < list.len()
        invariant
            i <= list.len(),
            copy@.len() == i,
            forall|k: int| 0 <= k < i ==> (#[trigger] copy@[k])@ == list@[k]@,
        decreases list.len() - i,
    {
        copy.push(list[i].clone());
        i = i + 1;
    }
    assert(seqs::views(copy@) =~= seqs::views(list@));
    copy
}

fn texts_equal(left: &Vec<String>, right: &Vec<String>) -> (equal: bool)
    ensures
        equal == (seqs::views(left@) == seqs::views(right@)),
{
    let ghost mine = seqs::views(left@);
    let ghost other = seqs::views(right@);
    if left.len() != right.len() {
        proof {
            assert(mine.len() != other.len());
        }
        return false;
    }
    let mut i: usize = 0;
    while i < left.len()
        invariant
            i <= left.len(),
            left@.len() == right@.len(),
            mine == seqs::views(left@),
            other == seqs::views(right@),
            forall|k: int| 0 <= k < i ==> #[trigger] mine[k] == other[k],
        decreases left.len() - i,
    {
        proof {
            assert(mine[i as int] == left@[i as int]@);
            assert(other[i as int] == right@[i as int]@);
        }
        if !text_equal(left[i].as_str(), right[i].as_str()) {
            return false;
        }
        i = i + 1;
    }
    assert(mine =~= other);
    true
}

/// Records a diagnostic.
pub fn record_diagnostic(diagnostic: &Diagnostic, documents: &Vec<SourceDocument>) -> (recorded:
    Result<RecordedDiagnostic, StaticPrepareError>)
    ensures
        outcome_view(recorded) == recorded_of(diagnostic@, seqs::views(documents@)),
{
    let warns = match diagnostic.severity {
        Severity::Error => {
            return Err(
                StaticPrepareError::TransformContract {
                    detail: "successful transform contains an error diagnostic".to_owned(),
                },
            );
        },
        Severity::Warning => true,
        Severity::Info => false,
    };
    let primary = match &diagnostic.primary {
        None => None,
        Some(Location::Output { start, end }) => Some(
            RecordedLocation::Output { start: *start, end: *end },
        ),
        Some(Location::Source { document, start, end }) => {
            match find_document(documents, document) {
                Some(place) => {
                    proof {
                        assert(seqs::views(documents@)[place as int] == documents@[place as int]@);
                    }
                    Some(
                        RecordedLocation::Source {
                            document: document.copied(),
                            byte_len: documents[place].byte_len,
                            start: *start,
                            end: *end,
                        },
                    )
                },
                None => {
                    return Err(
                        StaticPrepareError::TransformContract {
                            detail:
                                "transform diagnostic references an unknown source document".to_owned(),
                        },
                    );
                },
            }
        },
    };
    Ok(
        RecordedDiagnostic {
            warns,
            code: diagnostic.code.clone(),
            message: diagnostic.message.clone(),
            primary,
            notes: copy_texts(&diagnostic.notes),
        },
    )
}

/// The diagnostics as they are recorded, or what is wrong with the first bad one.
pub open spec fn all_recorded(
    diagnostics: Seq<DiagnosticModel>,
    documents: Seq<SourceDocument<Seq<char>>>,
) -> Result<Seq<RecordedDiagnosticModel>, PrepareErrorModel>
    decreases diagnostics.len(),
{
    if diagnostics.len() == 0 {
        Ok(Seq::empty())
    } else {
        match all_recorded(diagnostics.drop_last(), documents) {
            Err(error) => Err(error),
            Ok(before) => match recorded_of(diagnostics.last(), documents) {
                Err(error) => Err(error),
                Ok(recorded) => Ok(before.push(recorded)),
            },
        }
    }
}

proof fn lemma_record_failure_stays(
    diagnostics: Seq<DiagnosticModel>,
    documents: Seq<SourceDocument<Seq<char>>>,
    count: int,
)
    requires
        0 <= count <= diagnostics.len(),
        all_recorded(diagnostics.take(count), documents) is Err,
    ensures
        all_recorded(diagnostics, documents) == all_recorded(diagnostics.take(count), documents),
    decreases diagnostics.len() - count,
{
    if count == diagnostics.len() {
        assert(diagnostics.take(count) =~= diagnostics);
    } else {
        assert(diagnostics.take(count + 1).drop_last() =~= diagnostics.take(count));
        lemma_record_failure_stays(diagnostics, documents, count + 1);
    }
}

/// Several recorded diagnostics, as contracts speak of them.
pub open spec fn recorded_view(
    outcome: Result<Vec<RecordedDiagnostic>, StaticPrepareError>,
) -> Result<Seq<RecordedDiagnosticModel>, PrepareErrorModel> {
    match outcome {
        Ok(list) => Ok(seqs::views(list@)),
        Err(error) => Err(error@),
    }
}

/// Records all diagnostics of a transform.
pub fn record_diagnostics(diagnostics: &Vec<Diagnostic>, documents: &Vec<SourceDocument>) -> (recorded:
    Result<Vec<RecordedDiagnostic>, StaticPrepareError>)
    ensures
        recorded_view(recorded) == all_recorded(seqs::views(diagnostics@), seqs::views(documents@)),
{
    let ghost all = seqs::views(diagnostics@);
    let ghost sources = seqs::views(documents@);
    let mut list: Vec<RecordedDiagnostic> = Vec::new();
    let mut i: usize = 0;
    proof {
        assert(all.take(0) =~= Seq::<DiagnosticModel>::empty());
        assert(seqs::views(list@) =~= Seq::<RecordedDiagnosticModel>::empty());
    }
    while i < diagnostics.len()
        invariant
            i <= diagnostics.len(),
            all == seqs::views(diagnostics@),
            sources == seqs::views(documents@),
            all_recorded(all.take(i as int), sources) == Ok::<
                Seq<RecordedDiagnosticModel>,
                PrepareErrorModel,
            >(seqs::views(list@)),
        decreases diagnostics.len() - i,
    {
        proof {
            assert(all.take(i + 1).drop_last() =~= all.take(i as int));
            assert(all.take(i + 1).last() == diagnostics@[i as int]@);
        }
        match record_diagnostic(&diagnostics[i], documents) {
            Err(error) => {
                proof {
                    lemma_record_failure_stays(all, sources, i + 1);
                }
                return Err(error);
            },
            Ok(recorded) => {
                let ghost before = list@;
                let ghost viewed = recorded@;
                list.push(recorded);
                proof {
                    assert(seqs::views(list@) =~= seqs::views(before).push(viewed));
                }
            },
        }
        i = i + 1;
    }
    proof {
        assert(all.take(all.len() as int) =~= all);
    }
    Ok(list)
}

impl RecordedDiagnostic {
    fn is_same(&self, other: &RecordedDiagnostic) -> (same: bool)
        ensures
            same == (self@ == other@),
    {
        let same_primary = match (&self.primary, &other.primary) {
            (Some(mine), Some(other)) => mine.is_same(other),
            (None, None) => true,
            _ => false,
        };
        same_primary && self.warns == other.warns && text_equal(
            self.code.as_str(),
            other.code.as_str(),
        ) && text_equal(self.message.as_str(), other.message.as_str()) && texts_equal(
            &self.notes,
            &other.notes,
        )
    }
}

fn diagnostics_equal(left: &Vec<RecordedDiagnostic>, right: &Vec<RecordedDiagnostic>) -> (equal:
    bool)
    ensures
        equal == (seqs::views(left@) == seqs::views(right@)),
{
    let ghost mine = seqs::views(left@);
    let ghost other = seqs::views(right@);
    if left.len() != right.len() {
        proof {
            assert(mine.len() != other.len());
        }
        return false;
    }
    let mut i: usize = 0;
    while i < left.len()
        invariant
            i <= left.len(),
            left@.len() == right@.len(),
            mine == seqs::views(left@),
            other == seqs::views(right@),
            forall|k: int| 0 <= k < i ==> #[trigger] mine[k] == other[k],
        decreases left.len() - i,
    {
        proof {
            assert(mine[i as int] == left@[i as int]@);
            assert(other[i as int] == right@[i as int]@);
        }
        if !left[i].is_same(&right[i]) {
            return false;
        }
        i = i + 1;
    }
    assert(mine =~= other);
    true
}

/// What ran a transform.
#[derive(Debug)]
pub enum Implementation<T = String> {
    BuiltIn { name: T },
    Component {
        node_id: T,
        pack_digest: T,
        path: T,
        component_digest: T,
        interface: T,
        execution_profile: T,
    },
}

impl View for Implementation<String> {
    type V = Implementation<Seq<char>>;

    open spec fn view(&self) -> Implementation<Seq<char>> {
        match *self {
            Implementation::BuiltIn { name } => Implementation::BuiltIn { name: name@ },
            Implementation::Component {
                node_id,
                pack_digest,
                path,
                component_digest,
                interface,
                execution_profile,
            } => Implementation::Component {
                node_id: node_id@,
                pack_digest: pack_digest@,
                path: path@,
                component_digest: component_digest@,
                interface: interface@,
                execution_profile: execution_profile@,
            },
        }
    }
}

impl Implementation {
    fn is_same(&self, other: &Implementation) -> (same: bool)
        ensures
            same == (self@ == other@),
    {
        match (self, other) {
            (Implementation::BuiltIn { name }, Implementation::BuiltIn { name: other_name }) =>
                text_equal(name.as_str(), other_name.as_str()),
            (
                Implementation::Component {
                    node_id,
                    pack_digest,
                    path,
                    component_digest,
                    interface,
                    execution_profile,
                },
                Implementation::Component {
                    node_id: other_node,
                    pack_digest: other_pack,
                    path: other_path,
                    component_digest: other_digest,
                    interface: other_interface,
                    execution_profile: other_profile,
                },
            ) => text_equal(node_id.as_str(), other_node.as_str()) && text_equal(
                pack_digest.as_str(),
                other_pack.as_str(),
            ) && text_equal(path.as_str(), other_path.as_str()) && text_equal(
                component_digest.as_str(),
                other_digest.as_str(),
            ) && text_equal(interface.as_str(), other_interface.as_str()) && text_equal(
                execution_profile.as_str(),
                other_profile.as_str(),
            ),
            _ => false,
        }
    }
}

/// A resource that a transform was given.
#[derive(Debug)]
pub struct TransformResource<T = String> {
    pub name: T,
    pub digest: T,
}

impl View for TransformResource<String> {
    type V = TransformResource<Seq<char>>;

    open spec fn view(&self) -> TransformResource<Seq<char>> {
        TransformResource { name: self.name@, digest: self.digest@ }
    }
}

fn resources_equal(left: &Vec<TransformResource>, right: &Vec<TransformResource>) -> (equal: bool)
    ensures
        equal == (seqs::views(left@) == seqs::views(right@)),
{
    let ghost mine = seqs::views(left@);
    let ghost other = seqs::views(right@);
    if left.len() != right.len() {
        proof {
            assert(mine.len() != other.len());
        }
        return false;
    }
    let mut i: usize = 0;
    while i < left.len()
        invariant
            i <= left.len(),
            left@.len() == right@.len(),
            mine == seqs::views(left@),
            other == seqs::views(right@),
            forall|k: int| 0 <= k < i ==> #[trigger] mine[k] == other[k],
        decreases left.len() - i,
    {
        proof {
            assert(mine[i as int] == left@[i as int]@);
            assert(other[i as int] == right@[i as int]@);
        }
        if !text_equal(left[i].name.as_str(), right[i].name.as_str()) || !text_equal(
            left[i].digest.as_str(),
            right[i].digest.as_str(),
        ) {
            return false;
        }
        i = i + 1;
    }
    assert(mine =~= other);
    true
}

/// Where an output came from: the transform, what it was given, and what it gave back; `R`
/// and `D` are the types of the lists of resources and diagnostics.
#[derive(Debug)]
pub struct TransformProvenance<
    T = String,
    R = Vec<TransformResource>,
    D = Vec<RecordedDiagnostic>,
> {
    pub name: T,
    pub implementation: Implementation<T>,
    pub request_digest: T,
    pub document_digest: T,
    pub resources: R,
    pub response_digest: T,
    pub diagnostics: D,
}

/// What a provenance holds.
pub type ProvenanceModel = TransformProvenance<
    Seq<char>,
    Seq<TransformResource<Seq<char>>>,
    Seq<RecordedDiagnosticModel>,
>;

impl View for TransformProvenance {
    type V = ProvenanceModel;

    open spec fn view(&self) -> ProvenanceModel {
        TransformProvenance {
            name: self.name@,
            implementation: self.implementation@,
            request_digest: self.request_digest@,
            document_digest: self.document_digest@,
            resources: seqs::views(self.resources@),
            response_digest: self.response_digest@,
            diagnostics: seqs::views(self.diagnostics@),
        }
    }
}

impl TransformProvenance {
    /// Tells whether two provenances are the same.
    pub fn is_same(&self, other: &TransformProvenance) -> (same: bool)
        ensures
            same == (self@ == other@),
    {
        text_equal(self.name.as_str(), other.name.as_str()) && self.implementation.is_same(
            &other.implementation,
        ) && text_equal(self.request_digest.as_str(), other.request_digest.as_str()) && text_equal(
            self.document_digest.as_str(),
            other.document_digest.as_str(),
        ) && resources_equal(&self.resources, &other.resources) && text_equal(
            self.response_digest.as_str(),
            other.response_digest.as_str(),
        ) && diagnostics_equal(&self.diagnostics, &other.diagnostics)
    }
}

/// The first provenance of a request.
pub open spec fn request_place(transforms: Seq<ProvenanceModel>, request: Seq<char>) -> Option<int>
    decreases transforms.len(),
{
    if transforms.len() == 0 {
        None
    } else {
        match request_place(transforms.drop_last(), request) {
            Some(place) => Some(place),
            None => if transforms.last().request_digest == request {
                Some(transforms.len() - 1)
            } else {
                None
            },
        }
    }
}

/// The provenances with one more: each request has one, and cannot have two that differ.
pub open spec fn provenance_added(transforms: Seq<ProvenanceModel>, provenance: ProvenanceModel) -> Result<
    Seq<ProvenanceModel>,
    PrepareErrorModel,
> {
    match request_place(transforms, provenance.request_digest) {
        None => Ok(transforms.push(provenance)),
        Some(place) => if transforms[place] == provenance {
            Ok(transforms)
        } else {
            Err(
                StaticPrepareError::TransformContract {
                    detail: "identical transform request produced conflicting provenance"@,
                },
            )
        },
    }
}

/// Once a provenance is added it stands among the provenances, and none is taken back.
pub proof fn lemma_added_provenance_stands(
    transforms: Seq<ProvenanceModel>,
    provenance: ProvenanceModel,
)
    ensures
        provenance_added(transforms, provenance) matches Ok(after) ==> transforms.is_prefix_of(
            after,
        ) && after.contains(provenance) && after.len() <= transforms.len() + 1,
{
    if let Ok(after) = provenance_added(transforms, provenance) {
        lemma_request_place_is_a_place(transforms, provenance.request_digest);
        match request_place(transforms, provenance.request_digest) {
            None => {
                assert(after[transforms.len() as int] == provenance);
            },
            Some(place) => {
                assert(after[place] == provenance);
            },
        }
    }
}

proof fn lemma_request_place_is_a_place(transforms: Seq<ProvenanceModel>, request: Seq<char>)
    ensures
        request_place(transforms, request) matches Some(place) ==> 0 <= place < transforms.len(),
    decreases transforms.len(),
{
    if transforms.len() > 0 {
        lemma_request_place_is_a_place(transforms.drop_last(), request);
    }
}

proof fn lemma_request_place_stays(transforms: Seq<ProvenanceModel>, request: Seq<char>, count: int)
    requires
        0 <= count <= transforms.len(),
        request_place(transforms.take(count), request) is Some,
    ensures
        request_place(transforms, request) == request_place(transforms.take(count), request),
    decreases transforms.len() - count,
{
    if count == transforms.len() {
        assert(transforms.take(count) =~= transforms);
    } else {
        assert(transforms.take(count + 1).drop_last() =~= transforms.take(count));
        lemma_request_place_stays(transforms, request, count + 1);
    }
}

/// Appends a provenance, unless its request has the same one already.
pub fn append_transform_provenance(
    transforms: &mut Vec<TransformProvenance>,
    provenance: TransformProvenance,
) -> (appended: Result<(), StaticPrepareError>)
    ensures
        match appended {
            Ok(_) => provenance_added(seqs::views(old(transforms)@), provenance@) == Ok::<
                Seq<ProvenanceModel>,
                PrepareErrorModel,
            >(seqs::views(final(transforms)@)),
            Err(error) => provenance_added(seqs::views(old(transforms)@), provenance@) == Err::<
                Seq<ProvenanceModel>,
                PrepareErrorModel,
            >(error@) && final(transforms)@ == old(transforms)@,
        },
{
    let ghost all = seqs::views(transforms@);
    let ghost request = provenance@.request_digest;
    let mut i: usize = 0;
    proof {
        assert(all.take(0) =~= Seq::<ProvenanceModel>::empty());
    }
    while i < transforms.len()
        invariant
            i <= transforms.len(),
            all == seqs::views(transforms@),
            transforms@ == old(transforms)@,
            request == provenance@.request_digest,
            request_place(all.take(i as int), request) is None,
        decreases transforms.len() - i,
    {
        proof {
            assert(all.take(i + 1).drop_last() =~= all.take(i as int));
            assert(all.take(i + 1).last() == transforms@[i as int]@);
        }
        if text_equal(transforms[i].request_digest.as_str(), provenance.request_digest.as_str()) {
            proof {
                lemma_request_place_stays(all, request, i + 1);
                assert(all[i as int] == transforms@[i as int]@);
            }
            if !transforms[i].is_same(&provenance) {
                return Err(
                    StaticPrepareError::TransformContract {
                        detail:
                            "identical transform request produced conflicting provenance".to_owned(),
                    },
                );
            }
            return Ok(());
        }
        i = i + 1;
    }
    proof {
        assert(all.take(all.len() as int) =~= all);
    }
    let ghost viewed = provenance@;
    transforms.push(provenance);
    proof {
        assert(seqs::views(transforms@) =~= all.push(viewed));
    }
    Ok(())
}

/// No two provenances are of one request.
pub open spec fn requests_differ(transforms: Seq<ProvenanceModel>) -> bool {
    forall|i: int, j: int|
        0 <= i < j < transforms.len() ==> (#[trigger] transforms[i]).request_digest
            != (#[trigger] transforms[j]).request_digest
}

proof fn lemma_request_place(transforms: Seq<ProvenanceModel>, request: Seq<char>)
    ensures
        match request_place(transforms, request) {
            Some(place) => 0 <= place < transforms.len() && transforms[place].request_digest
                == request,
            None => forall|i: int|
                0 <= i < transforms.len() ==> (#[trigger] transforms[i]).request_digest != request,
        },
    decreases transforms.len(),
{
    if transforms.len() > 0 {
        let head = transforms.drop_last();
        lemma_request_place(head, request);
        if request_place(transforms, request) is None {
            assert forall|i: int| 0 <= i < transforms.len() implies (
            #[trigger] transforms[i]).request_digest != request by {
                if i < head.len() {
                    assert(head[i].request_digest != request);
                }
            }
        }
    }
}

/// A plan records every transform request once: adding a provenance keeps requests apart,
/// and afterwards the request of that provenance is recorded with it.
pub proof fn lemma_requests_are_recorded_once(
    transforms: Seq<ProvenanceModel>,
    provenance: ProvenanceModel,
)
    requires
        requests_differ(transforms),
        provenance_added(transforms, provenance) is Ok,
    ensures
        requests_differ(provenance_added(transforms, provenance)->Ok_0),
        provenance_added(transforms, provenance)->Ok_0.contains(provenance),
{
    lemma_request_place(transforms, provenance.request_digest);
    let after = provenance_added(transforms, provenance)->Ok_0;
    match request_place(transforms, provenance.request_digest) {
        Some(place) => {
            assert(after[place] == provenance);
        },
        None => {
            assert(after[transforms.len() as int] == provenance);
        },
    }
}

/// How running a transform can fail.
#[derive(Debug)]
#[allow(inconsistent_fields)]
pub enum TransformInvocationError<T = String> {
    InvalidRequest { detail: T },
    InvalidResponse { detail: T },
    TransformFailed { kind: T, message: T },
    /// The component could not be run; a built-in transform never fails like this.
    Infrastructure { reason: T },
}

impl View for TransformInvocationError<String> {
    type V = TransformInvocationError<Seq<char>>;

    open spec fn view(&self) -> TransformInvocationError<Seq<char>> {
        match *self {
            TransformInvocationError::InvalidRequest { detail } =>
                TransformInvocationError::InvalidRequest { detail: detail@ },
            TransformInvocationError::InvalidResponse { detail } =>
                TransformInvocationError::InvalidResponse { detail: detail@ },
            TransformInvocationError::TransformFailed { kind, message } =>
                TransformInvocationError::TransformFailed { kind: kind@, message: message@ },
            TransformInvocationError::Infrastructure { reason } =>
                TransformInvocationError::Infrastructure { reason: reason@ },
        }
    }
}

/// The failure that a failed transform stands for.
pub open spec fn transform_failure(error: TransformInvocationError<Seq<char>>) -> PrepareErrorModel {
    match error {
        TransformInvocationError::InvalidRequest { detail } =>
            StaticPrepareError::TransformContract { detail },
        TransformInvocationError::InvalidResponse { detail } =>
            StaticPrepareError::TransformContract { detail },
        TransformInvocationError::TransformFailed { kind, message } =>
            StaticPrepareError::TransformSemantic { kind, detail: message },
        TransformInvocationError::Infrastructure { reason } =>
            StaticPrepareError::FormatComponentInfrastructure { detail: reason },
    }
}

/// Maps the failure of a transform.
pub fn map_transform_error(error: TransformInvocationError) -> (mapped: StaticPrepareError)
    ensures
        mapped@ == transform_failure(error@),
{
    match error {
        TransformInvocationError::InvalidRequest { detail } =>
            StaticPrepareError::TransformContract { detail },
        TransformInvocationError::InvalidResponse { detail } =>
            StaticPrepareError::TransformContract { detail },
        TransformInvocationError::TransformFailed { kind, message } =>
            StaticPrepareError::TransformSemantic { kind, detail: message },
        TransformInvocationError::Infrastructure { reason } =>
            StaticPrepareError::FormatComponentInfrastructure { detail: reason },
    }
}

/// The name of the input for a component that made an output.
pub open spec fn component_input_name(node_id: Seq<char>, component: Seq<char>) -> Seq<char> {
    "format-component:"@ + node_id + ":"@ + component
}

/// Some input is that of a component.
pub open spec fn has_component_input(inputs: Seq<PlanInput<Seq<char>>>, name: Seq<char>) -> bool {
    exists|i: int|
        0 <= i < inputs.len() && (#[trigger] inputs[i]).kind is Component && inputs[i].name == name
}

/// The inputs with that of a component, which stands among them once.
pub open spec fn component_input_added(
    inputs: Seq<PlanInput<Seq<char>>>,
    node_id: Seq<char>,
    component: Seq<char>,
    digest: Seq<char>,
) -> Seq<PlanInput<Seq<char>>> {
    let name = component_input_name(node_id, component);
    if has_component_input(inputs, name) {
        inputs
    } else {
        inputs.push(PlanInput { kind: InputKind::Component, name, digest })
    }
}

/// Adds the input of a component, unless it stands among the inputs already.
pub fn add_component_input(
    inputs: &mut Vec<PlanInput>,
    node_id: &str,
    component: &str,
    digest: &str,
)
    ensures
        seqs::views(final(inputs)@) == component_input_added(
            seqs::views(old(inputs)@),
            node_id@,
            component@,
            digest@,
        ),
{
    let name = concat4("format-component:", node_id, ":", component);
    let ghost all = seqs::views(inputs@);
    let mut i: usize = 0;
    while i < inputs.len()
        invariant
            i <= inputs.len(),
            all == seqs::views(inputs@),
            inputs@ == old(inputs)@,
            name@ == component_input_name(node_id@, component@),
            forall|k: int|
                0 <= k < i ==> !((#[trigger] all[k]).kind is Component && all[k].name == name@),
        decreases inputs.len() - i,
    {
        proof {
            assert(all[i as int] == inputs@[i as int]@);
        }
        if inputs[i].kind == InputKind::Component && text_equal(
            inputs[i].name.as_str(),
            name.as_str(),
        ) {
            return ;
        }
        i = i + 1;
    }
    let input = PlanInput { kind: InputKind::Component, name, digest: digest.to_owned() };
    let ghost viewed = input@;
    inputs.push(input);
    proof {
        assert(seqs::views(inputs@) =~= all.push(viewed));
    }
}

/// Every diagnostic of a transform is told of as a finding with its own message; a finding asks
/// for approval unless the diagnostic is mere information.
pub proof fn lemma_diagnostics_are_told(
    output: Seq<char>,
    diagnostics: Seq<DiagnosticModel>,
    index: int,
)
    requires
        0 <= index < diagnostics.len(),
    ensures
        ({
            let findings = diagnostic_findings(output, diagnostics);
            let severity = diagnostics[index].severity;
            &&& findings.len() == diagnostics.len()
            &&& findings[index].message == diagnostics[index].message
            &&& findings[index].approval_required <==> severity is Warning || severity is Error
            &&& findings[index].code == "transform-"@ + (match severity {
                Severity::Error => "error"@,
                Severity::Warning => "warning"@,
                Severity::Info => "info"@,
            }) + "-"@ + output + ("-"@ + text::decimal(index as nat))
        }),
{
}

/// Diagnostics are recorded as they are, one by one, exactly where none of them is an error and
/// each points into the output, into a document of the configuration, or nowhere. A location in a
/// document is recorded with the length of that document.
pub proof fn lemma_recorded_diagnostics_are_those_given(
    diagnostics: Seq<DiagnosticModel>,
    documents: Seq<SourceDocument<Seq<char>>>,
)
    ensures
        match all_recorded(diagnostics, documents) {
            Ok(recorded) => {
                &&& recorded.len() == diagnostics.len()
                &&& forall|i: int|
                    0 <= i < recorded.len() ==> is_record_of(
                        #[trigger] recorded[i],
                        diagnostics[i],
                        documents,
                    )
            },
            Err(_) => exists|i: int|
                0 <= i < diagnostics.len() && ((#[trigger] diagnostics[i]).severity is Error || (
                diagnostics[i].primary matches Some(Location::Source { document, start: _, end: _ })
                    && forall|k: int|
                    0 <= k < documents.len() ==> (#[trigger] documents[k]).id != document)),
        },
    decreases diagnostics.len(),
{
    if diagnostics.len() > 0 {
        let before = diagnostics.drop_last();
        let last = diagnostics.last();
        lemma_recorded_diagnostics_are_those_given(before, documents);
        if let Some(Location::Source { document, start: _, end: _ }) = last.primary {
            lemma_document_place(documents, document);
        }
        match all_recorded(before, documents) {
            Err(_) => {
                let i = choose|i: int|
                    0 <= i < before.len() && ((#[trigger] before[i]).severity is Error || (
                    before[i].primary matches Some(
                        Location::Source { document, start: _, end: _ },
                    ) && forall|k: int|
                        0 <= k < documents.len() ==> (#[trigger] documents[k]).id != document));
                assert(diagnostics[i] == before[i]);
            },
            Ok(earlier) => {
                assert(diagnostics[diagnostics.len() - 1] == last);
                if let Ok(recorded) = all_recorded(diagnostics, documents) {
                    assert forall|i: int| 0 <= i < recorded.len() implies is_record_of(
                        #[trigger] recorded[i],
                        diagnostics[i],
                        documents,
                    ) by {
                        if i < earlier.len() {
                            assert(recorded[i] == earlier[i]);
                            assert(before[i] == diagnostics[i]);
                        } else {
                            assert(is_record_of(recorded[i], last, documents));
                        }
                    }
                }
            },
        }
    }
}

/// A recorded diagnostic says what a diagnostic said.
pub open spec fn is_record_of(
    recorded: RecordedDiagnosticModel,
    diagnostic: DiagnosticModel,
    documents: Seq<SourceDocument<Seq<char>>>,
) -> bool {
    &&& diagnostic.severity !is Error
    &&& recorded.warns <==> diagnostic.severity is Warning
    &&& recorded.code == diagnostic.code
    &&& recorded.message == diagnostic.message
    &&& recorded.notes == diagnostic.notes
    &&& match diagnostic.primary {
        None => recorded.primary is None,
        Some(Location::Output { start, end }) => recorded.primary == Some(
            RecordedLocation::<Seq<char>>::Output { start, end },
        ),
        Some(Location::Source { document, start, end }) => exists|k: int|
            0 <= k < documents.len() && (#[trigger] documents[k]).id == document && recorded.primary
                == Some(
                RecordedLocation::<Seq<char>>::Source {
                    document,
                    byte_len: documents[k].byte_len,
                    start,
                    end,
                },
            ),
    }
}

proof fn lemma_document_place(
    documents: Seq<SourceDocument<Seq<char>>>,
    id: DocumentId<Seq<char>>,
)
    ensures
        match document_place(documents, id) {
            Some(place) => 0 <= place < documents.len() && documents[place].id == id,
            None => forall|k: int| 0 <= k < documents.len() ==> (#[trigger] documents[k]).id != id,
        },
    decreases documents.len(),
{
    if documents.len() > 0 {
        let before = documents.drop_last();
        lemma_document_place(before, id);
        match document_place(before, id) {
            Some(place) => {
                assert(documents[place] == before[place]);
            },
            None => {
                assert forall|k: int|
                    0 <= k < documents.len() && documents.last().id != id implies (
                #[trigger] documents[k]).id != id by {
                    if k < before.len() {
                        assert(before[k] == documents[k]);
                    }
                }
            },
        }
    }
}

/// Once a component ran, the inputs tell of it, and none of the other inputs is changed.
pub proof fn lemma_used_components_are_inputs(
    inputs: Seq<PlanInput<Seq<char>>>,
    node_id: Seq<char>,
    component: Seq<char>,
    digest: Seq<char>,
)
    ensures
        ({
            let after = component_input_added(inputs, node_id, component, digest);
            let name = "format-component:"@ + node_id + ":"@ + component;
            &&& inputs.is_prefix_of(after)
            &&& exists|i: int|
                0 <= i < after.len() && (#[trigger] after[i]).kind is Component && after[i].name
                    == name
            &&& (forall|i: int|
                0 <= i < inputs.len() ==> !((#[trigger] inputs[i]).kind is Component
                    && inputs[i].name == name)) ==> after.len() == inputs.len() + 1
                && after.last().digest == digest && after.last().name == name && after.last().kind
                is Component
            &&& (exists|i: int|
                0 <= i < inputs.len() && (#[trigger] inputs[i]).kind is Component && inputs[i].name
                    == name) ==> after == inputs
        }),
{
    let after = component_input_added(inputs, node_id, component, digest);
    let name = "format-component:"@ + node_id + ":"@ + component;
    assert(name == component_input_name(node_id, component));
    if !has_component_input(inputs, name) {
        assert(after[inputs.len() as int].kind is Component);
    }
}

/// A failed transform is told by what failed: its contract, the transform itself, or what runs it.
pub proof fn lemma_transform_failures_are_told_apart(error: TransformInvocationError<Seq<char>>)
    ensures
        match error {
            TransformInvocationError::InvalidRequest { detail } => transform_failure(error)
                matches StaticPrepareError::TransformContract { detail: told } && told == detail,
            TransformInvocationError::InvalidResponse { detail } => transform_failure(error)
                matches StaticPrepareError::TransformContract { detail: told } && told == detail,
            TransformInvocationError::TransformFailed { kind, message } => transform_failure(error)
                matches StaticPrepareError::TransformSemantic { kind: of, detail } && of == kind
                && detail == message,
            TransformInvocationError::Infrastructure { reason } => transform_failure(error)
                matches StaticPrepareError::FormatComponentInfrastructure { detail } && detail
                == reason,
        },
{
}

} // verus!
