use vstd::prelude::*;

verus! {

/// Why a config.yaml or metadata.yaml document was rejected.
#[derive(Clone, Copy, Debug, PartialEq, Eq, Structural)]
pub enum SchemaError {
    /// The document is not well-formed, or holds values outside the model
    /// (a non-integer number, a non-string mapping key, a tagged value).
    Syntax,
    /// A node that must be a mapping is something else.
    NotMapping,
    /// A mapping holds a field that the schema does not declare.
    UnknownField,
    /// A required field is absent.
    MissingField,
    /// A field holds a value of the wrong type, or an unrecognized tag.
    WrongType,
    /// A mapping declares the same key twice.
    DuplicateKey,
}

/// Which expected structure was missing from an external tool's output.
#[derive(Clone, Copy, Debug, PartialEq, Eq, Structural)]
pub enum OutputFault {
    /// The stream holds no newline to delimit its structured first line.
    NoNewline,
    /// The structured first line is not a mapping from strings to strings.
    NotAMapping,
    /// The structured first line has no `url` field.
    NoUrlField,
    /// A resource-revision record lacks a `name` or `revision` field.
    BadRecord,
    /// The listing is not a sequence of string-to-string mappings.
    NotAListing,
    /// The stream has no second line to read a revision from.
    NoSecondLine,
    /// The stream is shorter than the fixed prefix that must be skipped.
    TooShort,
    /// The stream holds no space to delimit the revision token.
    NoSpace,
    /// The revision token is not a decimal number in range.
    NotDecimal,
}

/// The failures that loading a charm or driving a publish pipeline can report.
#[derive(Debug, Clone, PartialEq)]
pub enum JujuError {
    /// A schema document did not conform (distinct from the file being absent).
    Schema(SchemaError),
    /// The given archive is not a readable zip file.
    BadArchive,
    /// A zip entry exists but its bytes are not text.
    UnreadableEntry,
    /// The archive holds no metadata.yaml entry.
    MissingMetadata,
    /// A declared resource has neither a supplied value nor an upstream
    /// default: the resource name and the charm name.
    ResourceNotFound(String, String),
    /// An external tool failed: the tool and its report.
    Process(String, String),
    /// A tool's output lacked the expected structure.
    MalformedOutput(OutputFault),
    /// Promotion failed on one channel: the channel and the underlying failure.
    Promote(String, PromoteCause),
}

/// What went wrong while promoting a channel: the tool failed, or its
/// output lacked the expected structure.
#[derive(Debug, Clone, PartialEq)]
pub enum PromoteCause {
    Process(String, String),
    MalformedOutput(OutputFault),
}

/// Model of a `PromoteCause`.
pub enum PromoteCauseV {
    Process(Seq<char>, Seq<char>),
    MalformedOutput(OutputFault),
}

impl View for PromoteCause {
    type V = PromoteCauseV;

    open spec fn view(&self) -> PromoteCauseV {
        match self {
            PromoteCause::Process(t, m) => PromoteCauseV::Process(t@, m@),
            PromoteCause::MalformedOutput(f) => PromoteCauseV::MalformedOutput(*f),
        }
    }
}

/// Mathematical model of a `JujuError`, with strings as character sequences.
pub enum JujuErrorV {
    Schema(SchemaError),
    BadArchive,
    UnreadableEntry,
    MissingMetadata,
    ResourceNotFound(Seq<char>, Seq<char>),
    Process(Seq<char>, Seq<char>),
    MalformedOutput(OutputFault),
    Promote(Seq<char>, PromoteCauseV),
}

impl View for JujuError {
    type V = JujuErrorV;

    open spec fn view(&self) -> JujuErrorV {
        match self {
            JujuError::Schema(e) => JujuErrorV::Schema(*e),
            JujuError::BadArchive => JujuErrorV::BadArchive,
            JujuError::UnreadableEntry => JujuErrorV::UnreadableEntry,
            JujuError::MissingMetadata => JujuErrorV::MissingMetadata,
            JujuError::ResourceNotFound(r, c) => JujuErrorV::ResourceNotFound(r@, c@),
            JujuError::Process(t, m) => JujuErrorV::Process(t@, m@),
            JujuError::MalformedOutput(f) => JujuErrorV::MalformedOutput(*f),
            JujuError::Promote(ch, cause) => JujuErrorV::Promote(ch@, cause@),
        }
    }
}

} // verus!

