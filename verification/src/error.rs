use vstd::prelude::*;

verus! {

/// The kinds of failure that the store reports.
#[derive(Clone, Copy, Debug, PartialEq, Eq, Structural)]
pub enum ErrorKind {
    /// What the caller handed over breaks a field constraint. Nothing was
    /// written.
    Validation,
    /// No row has the key that was asked for.
    NotFound,
    /// A uniqueness or referential constraint was violated, as happens when
    /// two writers introduce the same variant at once. Trying again may
    /// succeed.
    Conflict,
    /// Any other failure of the backend.
    Persistence,
}

/// What the backend says went wrong, as far as the store tells failures
/// apart.
#[derive(Clone, Copy, Debug, PartialEq, Eq, Structural)]
pub enum BackendFailure {
    UniqueViolation,
    ForeignKeyViolation,
    NoRows,
    Other,
}

/// The kind of error that a failure of the backend is reported as.
pub open spec fn kind_of_failure(failure: BackendFailure) -> ErrorKind {
    match failure {
        BackendFailure::UniqueViolation => ErrorKind::Conflict,
        BackendFailure::ForeignKeyViolation => ErrorKind::Conflict,
        BackendFailure::NoRows => ErrorKind::NotFound,
        BackendFailure::Other => ErrorKind::Persistence,
    }
}

/// What an error holds, as mathematical values.
pub struct StoreErrorView {
    pub kind: ErrorKind,
    pub detail: Seq<char>,
}

/// A failure of the store: its kind, and the words of whatever caused it.
#[derive(Debug)]
pub struct StoreError {
    kind: ErrorKind,
    detail: String,
}

impl View for StoreError {
    type V = StoreErrorView;

    closed spec fn view(&self) -> StoreErrorView {
        StoreErrorView { kind: self.kind, detail: self.detail@ }
    }
}

#[verifier::external_type_specification]
#[verifier::external_body]
pub struct ExDieselError(diesel::result::Error);

/// Which failure an error of the backend is: what telling the variants of
/// `diesel::result::Error` apart gives for it.
pub uninterp spec fn failure_named(error: diesel::result::Error) -> BackendFailure;

/// The words in which an error of the backend describes itself: what the
/// `Display` of `diesel::result::Error` writes for it.
pub uninterp spec fn words_named(error: diesel::result::Error) -> Seq<char>;

/// The error of the store that an error of the backend is reported as: a
/// violated uniqueness or referential constraint is a conflict, rows that
/// are missing are not found, and anything else is a failure of
/// persistence. The words of the backend are kept.
pub open spec fn error_of_backend(error: diesel::result::Error) -> StoreErrorView {
    StoreErrorView { kind: kind_of_failure(failure_named(error)), detail: words_named(error) }
}

/// Tells the variants of `diesel::result::Error` apart: a database error
/// whose kind is `UniqueViolation` or `ForeignKeyViolation`, the variant
/// `NotFound`, and all the others. The answer depends on the error alone,
/// and no more is claimed of it than that it has a name.
#[verifier::external_body]
fn failure_of(error: &diesel::result::Error) -> (failure: BackendFailure)
    ensures
        failure == failure_named(*error),
{
    match error {
        diesel::result::Error::DatabaseError(
            diesel::result::DatabaseErrorKind::UniqueViolation,
            _,
        ) => BackendFailure::UniqueViolation,
        diesel::result::Error::DatabaseError(
            diesel::result::DatabaseErrorKind::ForeignKeyViolation,
            _,
        ) => BackendFailure::ForeignKeyViolation,
        diesel::result::Error::NotFound => BackendFailure::NoRows,
        _ => BackendFailure::Other,
    }
}

/// The words in which `diesel::result::Error` describes itself, through its
/// `Display`. They depend on the error alone, and no more is claimed of
/// them than that they have a name.
#[verifier::external_body]
fn words_of(error: &diesel::result::Error) -> (words: String)
    ensures
        words@ == words_named(*error),
{
    error.to_string()
}

impl StoreError {
    pub fn new(kind: ErrorKind, detail: String) -> (e: StoreError)
        ensures
            e@ == (StoreErrorView { kind, detail: detail@ }),
    {
        StoreError { kind, detail }
    }

    pub fn kind(&self) -> (kind: ErrorKind)
        ensures
            kind == self@.kind,
    {
        self.kind
    }

    pub fn detail(&self) -> (detail: &str)
        ensures
            detail@ == self@.detail,
    {
        self.detail.as_str()
    }

    /// The error that a failure of the backend is reported as, with the
    /// backend's words kept for diagnostics.
    pub fn from_failure(failure: BackendFailure, detail: String) -> (e: StoreError)
        ensures
            e@ == (StoreErrorView { kind: kind_of_failure(failure), detail: detail@ }),
    {
        let kind = match failure {
            BackendFailure::UniqueViolation => ErrorKind::Conflict,
            BackendFailure::ForeignKeyViolation => ErrorKind::Conflict,
            BackendFailure::NoRows => ErrorKind::NotFound,
            BackendFailure::Other => ErrorKind::Persistence,
        };
        StoreError { kind, detail }
    }

    /// Reports an error of the backend as an error of the store.
    pub fn from_backend(error: &diesel::result::Error) -> (e: StoreError)
        ensures
            e@ == error_of_backend(*error),
    {
        let failure = failure_of(error);
        let detail = words_of(error);
        StoreError::from_failure(failure, detail)
    }
}

} // verus!
