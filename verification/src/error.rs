use vstd::prelude::*;

verus! {

/// Which of the required fields a submission left out.
#[derive(Clone, Copy, Debug, PartialEq, Eq, Structural)]
pub struct MissingFields {
    pub name: bool,
    pub rations: bool,
    pub steps: bool,
}

/// Why a submission was turned down before anything was stored.
#[derive(Clone, Copy, Debug, PartialEq, Eq, Structural)]
pub enum DecodingError {
    /// A part carries a name that no field of a recipe has.
    UnknownField,
    /// The rations are not a non-negative whole number.
    InvalidNumber,
    /// An ingredient is not of the form name, positive quantity, unit.
    InvalidIngredientLine,
    /// An image was declared with a content type other than JPEG.
    UnsupportedContentType,
    /// An image was sent without a declared content type.
    MissingContentType,
    /// The steps were given a second time.
    ConflictingStepsVariant,
    /// The link to the steps is not an absolute URL.
    InvalidUrl,
    /// The submission ended without a name, without rations or without steps.
    IncompleteSubmission(MissingFields),
}

impl DecodingError {
    /// The sentence shown for this error.
    pub open spec fn message_text(self) -> Seq<char> {
        match self {
            DecodingError::UnknownField => "invalid field"@,
            DecodingError::InvalidNumber => "rations is not a number"@,
            DecodingError::InvalidIngredientLine => "missing either name, quantity or unit"@,
            DecodingError::UnsupportedContentType => "invalid content type"@,
            DecodingError::MissingContentType => "content type not present"@,
            DecodingError::ConflictingStepsVariant => "multiple steps types specified"@,
            DecodingError::InvalidUrl => "steps link is not an absolute URL"@,
            DecodingError::IncompleteSubmission(_) =>
                "recipe is missing at least one of name, rations or steps fields"@,
        }
    }

    /// The sentence shown for this error.
    pub fn message(&self) -> (text: String)
        ensures
            text@ == self.message_text(),
    {
        match self {
            DecodingError::UnknownField => "invalid field".to_owned(),
            DecodingError::InvalidNumber => "rations is not a number".to_owned(),
            DecodingError::InvalidIngredientLine =>
                "missing either name, quantity or unit".to_owned(),
            DecodingError::UnsupportedContentType => "invalid content type".to_owned(),
            DecodingError::MissingContentType => "content type not present".to_owned(),
            DecodingError::ConflictingStepsVariant => "multiple steps types specified".to_owned(),
            DecodingError::InvalidUrl => "steps link is not an absolute URL".to_owned(),
            DecodingError::IncompleteSubmission(_) =>
                "recipe is missing at least one of name, rations or steps fields".to_owned(),
        }
    }
}

/// The ways in which storing a recipe can fail.
#[derive(Clone, Copy, Debug, PartialEq, Eq, Structural)]
pub enum PersistenceKind {
    /// A recipe with the same slug is stored already.
    SlugCollision,
    /// An ingredient of the recipe is not in the catalog.
    UnknownIngredient,
    /// An attachment could not be written.
    AttachmentWriteFailed,
    /// The transaction could not be begun, carried on or committed.
    TransactionFailed,
}

impl PersistenceKind {
    /// The sentence shown for a failure of this kind.
    pub open spec fn message_text(self) -> Seq<char> {
        match self {
            PersistenceKind::SlugCollision => "a recipe with this name exists already"@,
            PersistenceKind::UnknownIngredient => "an ingredient of the recipe is not known"@,
            PersistenceKind::AttachmentWriteFailed => "an attachment could not be written"@,
            PersistenceKind::TransactionFailed => "the recipe could not be stored"@,
        }
    }

    /// The sentence shown for a failure of this kind.
    pub fn message(&self) -> (text: String)
        ensures
            text@ == self.message_text(),
    {
        match self {
            PersistenceKind::SlugCollision => "a recipe with this name exists already".to_owned(),
            PersistenceKind::UnknownIngredient =>
                "an ingredient of the recipe is not known".to_owned(),
            PersistenceKind::AttachmentWriteFailed =>
                "an attachment could not be written".to_owned(),
            PersistenceKind::TransactionFailed => "the recipe could not be stored".to_owned(),
        }
    }
}

/// Why a recipe was not stored: the kind of failure, and what the storage
/// said when it failed.
#[derive(Clone, Debug, PartialEq, Eq)]
pub struct PersistenceError {
    pub kind: PersistenceKind,
    pub cause: String,
}

/// A persistence error as a mathematical value.
pub struct PersistenceFailure {
    pub kind: PersistenceKind,
    pub cause: Seq<char>,
}

impl View for PersistenceError {
    type V = PersistenceFailure;

    open spec fn view(&self) -> PersistenceFailure {
        PersistenceFailure { kind: self.kind, cause: self.cause@ }
    }
}

impl PersistenceFailure {
    /// The sentence shown for this failure: that of its kind, a colon, and
    /// the cause.
    pub open spec fn message_text(self) -> Seq<char> {
        self.kind.message_text() + ": "@ + self.cause
    }
}

impl PersistenceError {
    /// The sentence shown for this error.
    pub fn message(&self) -> (text: String)
        ensures
            text@ == self@.message_text(),
    {
        let mut text = self.kind.message();
        text.append(": ");
        text.append(self.cause.as_str());
        text
    }
}

/// Why the storing of a recipe ended without the recipe stored: a failure of
/// the storage that the pipeline knows how to name, or a fault of the driver
/// that it does not.
#[derive(Clone, Debug, PartialEq, Eq)]
pub enum CommitError {
    Persistence(PersistenceError),
    Internal(String),
}

/// The end of a failed commit as a mathematical value.
pub enum CommitFailure {
    Persistence(PersistenceFailure),
    Internal(Seq<char>),
}

impl CommitFailure {
    /// The kind of the failure, where it is one of the storage.
    pub open spec fn kind(self) -> Option<PersistenceKind> {
        match self {
            CommitFailure::Persistence(e) => Some(e.kind),
            CommitFailure::Internal(_) => None,
        }
    }
}

impl View for CommitError {
    type V = CommitFailure;

    open spec fn view(&self) -> CommitFailure {
        match self {
            CommitError::Persistence(e) => CommitFailure::Persistence(e@),
            CommitError::Internal(cause) => CommitFailure::Internal(cause@),
        }
    }
}

/// What went wrong with a submission.
#[derive(Clone, Debug, PartialEq, Eq)]
pub enum Failure {
    /// The submission itself was not in order: nothing was stored.
    Decoding(DecodingError),
    /// The submission was in order, and could not be stored.
    Persistence(PersistenceError),
    /// A fault outside the rules of the pipeline, such as a body that could
    /// not be read.
    Internal(String),
}

/// The error that the pipeline hands to its caller.
#[derive(Clone, Debug, PartialEq, Eq)]
pub struct AppError(pub Failure);

/// An error of the pipeline as a mathematical value.
pub enum FailureContent {
    Decoding(DecodingError),
    Persistence(PersistenceFailure),
    Internal(Seq<char>),
}

impl View for AppError {
    type V = FailureContent;

    open spec fn view(&self) -> FailureContent {
        match self.0 {
            Failure::Decoding(e) => FailureContent::Decoding(e),
            Failure::Persistence(e) => FailureContent::Persistence(e@),
            Failure::Internal(cause) => FailureContent::Internal(cause@),
        }
    }
}

impl FailureContent {
    /// The sentence shown for this error.
    pub open spec fn message_text(self) -> Seq<char> {
        match self {
            FailureContent::Decoding(e) => e.message_text(),
            FailureContent::Persistence(e) => e.message_text(),
            FailureContent::Internal(cause) => cause,
        }
    }

    /// Whether the error lies in what was submitted, so that the same
    /// submission will be turned down again.
    pub open spec fn caused_by_input(self) -> bool {
        self is Decoding
    }
}

impl From<DecodingError> for AppError {
    fn from(e: DecodingError) -> (error: AppError) {
        AppError(Failure::Decoding(e))
    }
}

impl vstd::std_specs::convert::FromSpecImpl<DecodingError> for AppError {
    open spec fn obeys_from_spec() -> bool {
        true
    }

    open spec fn from_spec(e: DecodingError) -> AppError {
        AppError(Failure::Decoding(e))
    }
}

impl From<PersistenceError> for AppError {
    fn from(e: PersistenceError) -> (error: AppError) {
        AppError(Failure::Persistence(e))
    }
}

impl vstd::std_specs::convert::FromSpecImpl<PersistenceError> for AppError {
    open spec fn obeys_from_spec() -> bool {
        true
    }

    open spec fn from_spec(e: PersistenceError) -> AppError {
        AppError(Failure::Persistence(e))
    }
}

impl From<CommitError> for AppError {
    fn from(e: CommitError) -> (error: AppError) {
        match e {
            CommitError::Persistence(e) => AppError(Failure::Persistence(e)),
            CommitError::Internal(cause) => AppError(Failure::Internal(cause)),
        }
    }
}

impl vstd::std_specs::convert::FromSpecImpl<CommitError> for AppError {
    open spec fn obeys_from_spec() -> bool {
        true
    }

    open spec fn from_spec(e: CommitError) -> AppError {
        match e {
            CommitError::Persistence(e) => AppError(Failure::Persistence(e)),
            CommitError::Internal(cause) => AppError(Failure::Internal(cause)),
        }
    }
}

impl AppError {
    /// An error for a fault outside the rules of the pipeline.
    pub fn internal(cause: String) -> (error: AppError)
        ensures
            error@ == FailureContent::Internal(cause@),
    {
        AppError(Failure::Internal(cause))
    }

    /// The sentence shown for this error.
    pub fn message(&self) -> (text: String)
        ensures
            text@ == self@.message_text(),
    {
        match &self.0 {
            Failure::Decoding(e) => e.message(),
            Failure::Persistence(e) => e.message(),
            Failure::Internal(cause) => cause.clone(),
        }
    }

    /// Whether the error lies in what was submitted.
    pub fn caused_by_input(&self) -> (by_input: bool)
        ensures
            by_input == self@.caused_by_input(),
    {
        match &self.0 {
            Failure::Decoding(_) => true,
            _ => false,
        }
    }
}

} // verus!
