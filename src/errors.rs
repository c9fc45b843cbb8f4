use vstd::prelude::*;

verus! {

/// Kinds of failure the relay core reports.
#[derive(Debug, Clone, Copy, PartialEq, Eq, Structural)]
pub enum ErrorType {
    BadRequest,
    NotFound,
    Internal,
    DistantServer,
    CacheError,
    Unauthorized,
    MissingRequiredField,
    AlreadyExists,
    Validation,
    PayloadTooLarge,
    Forbidden,
    Test,
}

/// An error with its kind and a human readable message.
#[derive(Debug, Clone)]
pub struct AppError {
    pub err_type: ErrorType,
    pub message: String,
}

/// How a query against the persistent store failed, as far as the relay core
/// distinguishes it.
#[derive(Debug, Clone, Copy, PartialEq, Eq, Structural)]
pub enum StoreFailure {
    UniqueViolation,
    NotFound,
    Other,
}

/// The error kind a store failure is reported as: a unique-constraint
/// violation is a bad request, a missing row is not found, the rest internal.
pub open spec fn error_type_of_failure(f: StoreFailure) -> ErrorType {
    match f {
        StoreFailure::UniqueViolation => ErrorType::BadRequest,
        StoreFailure::NotFound => ErrorType::NotFound,
        StoreFailure::Other => ErrorType::Internal,
    }
}

/// `context: detail`, the message of an error raised by the store.
pub open spec fn contextual_message(context: Seq<char>, detail: Seq<char>) -> Seq<char> {
    context + ": "@ + detail
}

impl AppError {
    pub fn new(message: &str, err_type: ErrorType) -> (r: AppError)
        ensures
            r.message@ == message@,
            r.err_type == err_type,
    {
        AppError { message: message.to_string(), err_type }
    }

    /// Maps a store failure to an error kind.
    pub fn error_type_for(failure: StoreFailure) -> (r: ErrorType)
        ensures
            r == error_type_of_failure(failure),
    {
        match failure {
            StoreFailure::UniqueViolation => ErrorType::BadRequest,
            StoreFailure::NotFound => ErrorType::NotFound,
            StoreFailure::Other => ErrorType::Internal,
        }
    }

    /// Builds the error for a store failure described by `detail`, raised
    /// while doing what `context` says.
    pub fn from_store_failure(failure: StoreFailure, detail: &str, context: &str) -> (r: AppError)
        ensures
            r.err_type == error_type_of_failure(failure),
            r.message@ == contextual_message(context@, detail@),
    {
        let mut message = context.to_string();
        message.append(": ");
        message.append(detail);
        proof {
            reveal_strlit(": ");
        }
        AppError { err_type: Self::error_type_for(failure), message }
    }

    /// Builds the error for a failed diesel query, raised while doing what
    /// `context` says.
    pub fn from_diesel_err(err: diesel::result::Error, context: &str) -> (r: AppError)
        ensures
            exists|f: StoreFailure, detail: Seq<char>|
                r.err_type == error_type_of_failure(f) && r.message@ == contextual_message(
                    context@,
                    detail,
                ),
    {
        let failure = diesel_failure(&err);
        let detail = diesel_error_text(&err);
        Self::from_store_failure(failure, detail.as_str(), context)
    }
}

#[verifier::external_type_specification]
#[verifier::external_body]
pub struct ExDieselError(diesel::result::Error);

/// Relies on the variants of `diesel::result::Error`: a database error of kind
/// `UniqueViolation`, `NotFound`, and every other variant.
#[verifier::external_body]
fn diesel_failure(err: &diesel::result::Error) -> (r: StoreFailure) {
    match err {
        diesel::result::Error::DatabaseError(diesel::result::DatabaseErrorKind::UniqueViolation, _) => StoreFailure::UniqueViolation,
        diesel::result::Error::NotFound => StoreFailure::NotFound,
        _ => StoreFailure::Other,
    }
}

/// Relies on the `Display` impl of `diesel::result::Error` for the text, and
/// on its derived `Debug` impl for the hidden variant, whose `Display` arm
/// panics.
#[verifier::external_body]
fn diesel_error_text(err: &diesel::result::Error) -> (r: String) {
    match err {
        diesel::result::Error::__Nonexhaustive => format!("{:?}", err),
        _ => err.to_string(),
    }
}

} // verus!
