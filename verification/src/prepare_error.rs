//! Failures of preparing a static deployment and their messages.

use vstd::prelude::*;

use crate::error;
use crate::error::{ArchivePublicationError, EngineError, GraphAcquisitionError};
use crate::text;
use crate::text::{debug_text, decimal_text};

verus! {

/// What a pack declares a file to be.
#[derive(Debug, Clone, Copy, PartialEq, Eq, Structural)]
pub enum PackResourceKind {
    Asset,
    Template,
    Schema,
}

impl PackResourceKind {
    /// The word for the kind.
    pub open spec fn words(self) -> Seq<char> {
        match self {
            PackResourceKind::Asset => "asset"@,
            PackResourceKind::Template => "template"@,
            PackResourceKind::Schema => "schema"@,
        }
    }

    /// Returns the word for the kind.
    pub fn name(self) -> (name: &'static str)
        ensures
            name@ == self.words(),
    {
        match self {
            PackResourceKind::Asset => "asset",
            PackResourceKind::Template => "template",
            PackResourceKind::Schema => "schema",
        }
    }
}

/// Failure while evaluating the configuration of a verified locked graph.
#[derive(Debug)]
#[non_exhaustive]
#[allow(inconsistent_fields)]
pub enum StaticPrepareError<T = String, B = Vec<u8>> {
    /// The root pack holds no configuration.
    MissingRootConfig,
    /// A document that another one refers to is not in its pack.
    MissingConfigDocument { document: T },
    /// The entry point is not among the declared documents.
    UndeclaredConfigDocument { node: T, path: T },
    /// The request was made for another graph.
    GraphDigestMismatch { request: T, assembled: T },
    /// The configuration is invalid.
    InvalidConfig { detail: T },
    /// No locked pack has the authority of a document.
    UnknownDocumentAuthority { label: T, identity: T },
    /// Several locked packs have the authority of a document.
    AmbiguousDocumentAuthority { label: T, identity: T },
    /// A declared file is not in its pack.
    MissingPackFile { node: T, path: T },
    /// A file is used as something that the pack does not declare it to be.
    UndeclaredPackFile { node: T, path: T, kind: PackResourceKind },
    /// A file has another length than was reviewed.
    PackFileLengthMismatch { node: T, path: T, expected: u64, actual: u64 },
    /// A file has another digest than was reviewed.
    PackFileDigestMismatch { node: T, path: T, domain: T, expected: T, actual: T },
    /// A name that the configuration gives rise to is invalid.
    InvalidIdentifier { detail: T },
    /// A part of the request that the configuration gives rise to is invalid.
    InvalidGeneratedRequest { detail: T },
    /// No locked pack declares the component.
    UnknownFormatComponent { digest: T },
    /// Several declarations have the digest of the component.
    AmbiguousFormatComponent { digest: T },
    /// A transform was given or gave back an invalid value.
    TransformContract { detail: T },
    /// A transform failed; the kind is written as in debugging output.
    TransformSemantic { kind: T, detail: T },
    /// A component could not be run.
    FormatComponentInfrastructure { detail: T },
    /// An archive asks for another decoder.
    UnsupportedArchiveDecoder { name: T, version: u16 },
    /// An archive could not be decoded or published.
    Archive { source: ArchivePublicationError<T, B> },
    /// The store refused an operation.
    Store { source: EngineError<T, B> },
}

impl View for StaticPrepareError<String, Vec<u8>> {
    type V = StaticPrepareError<Seq<char>, Seq<u8>>;

    open spec fn view(&self) -> StaticPrepareError<Seq<char>, Seq<u8>> {
        match *self {
            StaticPrepareError::MissingRootConfig => StaticPrepareError::MissingRootConfig,
            StaticPrepareError::MissingConfigDocument { document } =>
                StaticPrepareError::MissingConfigDocument { document: document@ },
            StaticPrepareError::UndeclaredConfigDocument { node, path } =>
                StaticPrepareError::UndeclaredConfigDocument { node: node@, path: path@ },
            StaticPrepareError::GraphDigestMismatch { request, assembled } =>
                StaticPrepareError::GraphDigestMismatch {
                request: request@,
                assembled: assembled@,
            },
            StaticPrepareError::InvalidConfig { detail } =>
                StaticPrepareError::InvalidConfig { detail: detail@ },
            StaticPrepareError::UnknownDocumentAuthority { label, identity } =>
                StaticPrepareError::UnknownDocumentAuthority {
                label: label@,
                identity: identity@,
            },
            StaticPrepareError::AmbiguousDocumentAuthority { label, identity } =>
                StaticPrepareError::AmbiguousDocumentAuthority {
                label: label@,
                identity: identity@,
            },
            StaticPrepareError::MissingPackFile { node, path } =>
                StaticPrepareError::MissingPackFile { node: node@, path: path@ },
            StaticPrepareError::UndeclaredPackFile { node, path, kind } =>
                StaticPrepareError::UndeclaredPackFile { node: node@, path: path@, kind },
            StaticPrepareError::PackFileLengthMismatch { node, path, expected, actual } =>
                StaticPrepareError::PackFileLengthMismatch {
                node: node@,
                path: path@,
                expected,
                actual,
            },
            StaticPrepareError::PackFileDigestMismatch { node, path, domain, expected, actual } =>
                StaticPrepareError::PackFileDigestMismatch {
                node: node@,
                path: path@,
                domain: domain@,
                expected: expected@,
                actual: actual@,
            },
            StaticPrepareError::InvalidIdentifier { detail } =>
                StaticPrepareError::InvalidIdentifier { detail: detail@ },
            StaticPrepareError::InvalidGeneratedRequest { detail } =>
                StaticPrepareError::InvalidGeneratedRequest { detail: detail@ },
            StaticPrepareError::UnknownFormatComponent { digest } =>
                StaticPrepareError::UnknownFormatComponent { digest: digest@ },
            StaticPrepareError::AmbiguousFormatComponent { digest } =>
                StaticPrepareError::AmbiguousFormatComponent { digest: digest@ },
            StaticPrepareError::TransformContract { detail } =>
                StaticPrepareError::TransformContract { detail: detail@ },
            StaticPrepareError::TransformSemantic { kind, detail } =>
                StaticPrepareError::TransformSemantic { kind: kind@, detail: detail@ },
            StaticPrepareError::FormatComponentInfrastructure { detail } =>
                StaticPrepareError::FormatComponentInfrastructure { detail: detail@ },
            StaticPrepareError::UnsupportedArchiveDecoder { name, version } =>
                StaticPrepareError::UnsupportedArchiveDecoder { name: name@, version },
            StaticPrepareError::Archive { source } =>
                StaticPrepareError::Archive { source: source@ },
            StaticPrepareError::Store { source } => StaticPrepareError::Store { source: source@ },
        }
    }
}

/// The message of a value.
pub open spec fn static_prepare_error_message(issue: StaticPrepareError<Seq<char>, Seq<u8>>) -> Seq<char> {
    match issue {
        StaticPrepareError::MissingRootConfig => "root pack has no rich malm.kdl"@,
        StaticPrepareError::MissingConfigDocument { document } =>
            "captured config document "@ + document + " is absent from its pack"@,
        StaticPrepareError::UndeclaredConfigDocument { node, path } =>
            "locked pack "@ + node + " does not declare config entry point "@ + path,
        StaticPrepareError::GraphDigestMismatch { request, assembled } =>
            "prepare request graph "@ + request + " does not match assembled graph "@
            + assembled,
        StaticPrepareError::InvalidConfig { detail } => "invalid rich config: "@ + detail,
        StaticPrepareError::UnknownDocumentAuthority { label, identity } =>
            "unknown locked pack authority "@ + label + "@"@ + identity,
        StaticPrepareError::AmbiguousDocumentAuthority { label, identity } =>
            "locked pack authority "@ + label + "@"@ + identity + " is ambiguous"@,
        StaticPrepareError::MissingPackFile { node, path } =>
            "locked pack "@ + node + " lacks declared file "@ + path,
        StaticPrepareError::UndeclaredPackFile { node, path, kind } =>
            "locked pack "@ + node + " does not declare "@ + path + " as a "@ + kind.words(),
        StaticPrepareError::PackFileLengthMismatch { node, path, expected, actual } =>
            "locked pack "@ + node + " file "@ + path + " has "@ + text::decimal(actual as nat)
            + " bytes, config reviewed "@ + text::decimal(expected as nat),
        StaticPrepareError::PackFileDigestMismatch { node, path, domain, expected, actual } =>
            "locked pack "@ + node + " file "@ + path + " "@ + domain + " digest is "@ + actual
            + ", config reviewed "@ + expected,
        StaticPrepareError::InvalidIdentifier { detail } => detail,
        StaticPrepareError::InvalidGeneratedRequest { detail } => detail,
        StaticPrepareError::UnknownFormatComponent { digest } =>
            "locked graph has no format component "@ + digest,
        StaticPrepareError::AmbiguousFormatComponent { digest } =>
            "locked graph contains multiple declarations for format component "@ + digest,
        StaticPrepareError::TransformContract { detail } =>
            "invalid format-transform contract value: "@ + detail,
        StaticPrepareError::TransformSemantic { kind, detail } =>
            "format transform returned "@ + kind + ": "@ + detail,
        StaticPrepareError::FormatComponentInfrastructure { detail } =>
            "format-component infrastructure failed: "@ + detail,
        StaticPrepareError::UnsupportedArchiveDecoder { name, version } =>
            "unsupported archive decoder "@ + text::debug_notation(name) + " version "@
            + text::decimal(version as nat),
        StaticPrepareError::Archive { source } => error::archive_publication_error_message(source),
        StaticPrepareError::Store { source } => error::engine_error_message(source),
    }
}

impl StaticPrepareError<String, Vec<u8>> {
    /// Returns the message.
    pub fn message(&self) -> (message: String)
        ensures
            message@ == static_prepare_error_message(self@),
    {
        match self {
            StaticPrepareError::MissingRootConfig => "root pack has no rich malm.kdl".to_owned(),
            StaticPrepareError::MissingConfigDocument { document } => {
                let mut message = "captured config document ".to_owned();
                message.append(document.as_str());
                message.append(" is absent from its pack");
                message
            },
            StaticPrepareError::UndeclaredConfigDocument { node, path } => {
                let mut message = "locked pack ".to_owned();
                message.append(node.as_str());
                message.append(" does not declare config entry point ");
                message.append(path.as_str());
                message
            },
            StaticPrepareError::GraphDigestMismatch { request, assembled } => {
                let mut message = "prepare request graph ".to_owned();
                message.append(request.as_str());
                message.append(" does not match assembled graph ");
                message.append(assembled.as_str());
                message
            },
            StaticPrepareError::InvalidConfig { detail } => {
                let mut message = "invalid rich config: ".to_owned();
                message.append(detail.as_str());
                message
            },
            StaticPrepareError::UnknownDocumentAuthority { label, identity } => {
                let mut message = "unknown locked pack authority ".to_owned();
                message.append(label.as_str());
                message.append("@");
                message.append(identity.as_str());
                message
            },
            StaticPrepareError::AmbiguousDocumentAuthority { label, identity } => {
                let mut message = "locked pack authority ".to_owned();
                message.append(label.as_str());
                message.append("@");
                message.append(identity.as_str());
                message.append(" is ambiguous");
                message
            },
            StaticPrepareError::MissingPackFile { node, path } => {
                let mut message = "locked pack ".to_owned();
                message.append(node.as_str());
                message.append(" lacks declared file ");
                message.append(path.as_str());
                message
            },
            StaticPrepareError::UndeclaredPackFile { node, path, kind } => {
                let mut message = "locked pack ".to_owned();
                message.append(node.as_str());
                message.append(" does not declare ");
                message.append(path.as_str());
                message.append(" as a ");
                message.append(kind.name());
                message
            },
            StaticPrepareError::PackFileLengthMismatch { node, path, expected, actual } => {
                let mut message = "locked pack ".to_owned();
                message.append(node.as_str());
                message.append(" file ");
                message.append(path.as_str());
                message.append(" has ");
                message.append(decimal_text(*actual).as_str());
                message.append(" bytes, config reviewed ");
                message.append(decimal_text(*expected).as_str());
                message
            },
            StaticPrepareError::PackFileDigestMismatch { node, path, domain, expected, actual } => {
                let mut message = "locked pack ".to_owned();
                message.append(node.as_str());
                message.append(" file ");
                message.append(path.as_str());
                message.append(" ");
                message.append(domain.as_str());
                message.append(" digest is ");
                message.append(actual.as_str());
                message.append(", config reviewed ");
                message.append(expected.as_str());
                message
            },
            StaticPrepareError::InvalidIdentifier { detail } => detail.clone(),
            StaticPrepareError::InvalidGeneratedRequest { detail } => detail.clone(),
            StaticPrepareError::UnknownFormatComponent { digest } => {
                let mut message = "locked graph has no format component ".to_owned();
                message.append(digest.as_str());
                message
            },
            StaticPrepareError::AmbiguousFormatComponent { digest } => {
                let mut message = "locked graph contains multiple declarations for format component ".to_owned();
                message.append(digest.as_str());
                message
            },
            StaticPrepareError::TransformContract { detail } => {
                let mut message = "invalid format-transform contract value: ".to_owned();
                message.append(detail.as_str());
                message
            },
            StaticPrepareError::TransformSemantic { kind, detail } => {
                let mut message = "format transform returned ".to_owned();
                message.append(kind.as_str());
                message.append(": ");
                message.append(detail.as_str());
                message
            },
            StaticPrepareError::FormatComponentInfrastructure { detail } => {
                let mut message = "format-component infrastructure failed: ".to_owned();
                message.append(detail.as_str());
                message
            },
            StaticPrepareError::UnsupportedArchiveDecoder { name, version } => {
                let mut message = "unsupported archive decoder ".to_owned();
                message.append(debug_text(name.as_str()).as_str());
                message.append(" version ");
                message.append(decimal_text(*version as u64).as_str());
                message
            },
            StaticPrepareError::Archive { source } => source.message(),
            StaticPrepareError::Store { source } => source.message(),
        }
    }
}

/// Failure while acquiring, evaluating, and durably preparing one static deployment.
#[derive(Debug)]
#[non_exhaustive]
#[allow(inconsistent_fields)]
pub enum StaticDeploymentPrepareError<T = String, B = Vec<u8>> {
    /// A non-cached Git lock had no explicit Git process configuration.
    GitConfigurationRequired,
    /// Git authority was supplied for a lock containing no Git nodes.
    GitConfigurationNotApplicable,
    /// Current source capture or exact Git acquisition failed.
    GraphAcquisition { source: GraphAcquisitionError<T, B> },
    /// Verified cached objects did not assemble into the exact lock graph.
    GraphAssembly { detail: T },
    /// Active generation inspection failed before target observation.
    State { detail: T },
    /// Static config evaluation or durable plan publication failed.
    Static { source: StaticPrepareError<T, B> },
}

impl View for StaticDeploymentPrepareError<String, Vec<u8>> {
    type V = StaticDeploymentPrepareError<Seq<char>, Seq<u8>>;

    open spec fn view(&self) -> StaticDeploymentPrepareError<Seq<char>, Seq<u8>> {
        match *self {
            StaticDeploymentPrepareError::GitConfigurationRequired =>
                StaticDeploymentPrepareError::GitConfigurationRequired,
            StaticDeploymentPrepareError::GitConfigurationNotApplicable =>
                StaticDeploymentPrepareError::GitConfigurationNotApplicable,
            StaticDeploymentPrepareError::GraphAcquisition { source } =>
                StaticDeploymentPrepareError::GraphAcquisition { source: source@ },
            StaticDeploymentPrepareError::GraphAssembly { detail } =>
                StaticDeploymentPrepareError::GraphAssembly { detail: detail@ },
            StaticDeploymentPrepareError::State { detail } =>
                StaticDeploymentPrepareError::State { detail: detail@ },
            StaticDeploymentPrepareError::Static { source } =>
                StaticDeploymentPrepareError::Static { source: source@ },
        }
    }
}

/// The message of a value.
pub open spec fn static_deployment_prepare_error_message(issue: StaticDeploymentPrepareError<Seq<char>, Seq<u8>>) -> Seq<char> {
    match issue {
        StaticDeploymentPrepareError::GitConfigurationRequired =>
            "Git process configuration is required for a non-cached lock containing Git nodes"@,
        StaticDeploymentPrepareError::GitConfigurationNotApplicable =>
            "Git acquisition authority requires a lock containing Git nodes"@,
        StaticDeploymentPrepareError::GraphAcquisition { source } =>
            error::graph_acquisition_error_message(source),
        StaticDeploymentPrepareError::GraphAssembly { detail } => detail,
        StaticDeploymentPrepareError::State { detail } => detail,
        StaticDeploymentPrepareError::Static { source } => static_prepare_error_message(source),
    }
}

impl StaticDeploymentPrepareError<String, Vec<u8>> {
    /// Returns the message.
    pub fn message(&self) -> (message: String)
        ensures
            message@ == static_deployment_prepare_error_message(self@),
    {
        match self {
            StaticDeploymentPrepareError::GitConfigurationRequired =>
                "Git process configuration is required for a non-cached lock containing Git nodes".to_owned(),
            StaticDeploymentPrepareError::GitConfigurationNotApplicable =>
                "Git acquisition authority requires a lock containing Git nodes".to_owned(),
            StaticDeploymentPrepareError::GraphAcquisition { source } => source.message(),
            StaticDeploymentPrepareError::GraphAssembly { detail } => detail.clone(),
            StaticDeploymentPrepareError::State { detail } => detail.clone(),
            StaticDeploymentPrepareError::Static { source } => source.message(),
        }
    }
}

} // verus!
