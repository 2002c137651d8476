//! What a request can fail with.
use vstd::prelude::*;

verus! {

/// Why a request was refused or failed.
#[derive(Debug, Clone)]
pub enum AppError {
    /// The request itself is wrong.
    BadRequest(String),
    /// What it names does not exist, or belongs to someone else.
    NotFound(String),
    /// It collides with what is stored.
    Conflict(String),
    /// What is stored is not what it should be.
    Internal(String),
    /// The database failed.
    Database(String),
}

/// An [`AppError`] with its message as a sequence of characters.
pub enum ErrorView {
    BadRequest(Seq<char>),
    NotFound(Seq<char>),
    Conflict(Seq<char>),
    Internal(Seq<char>),
    Database(Seq<char>),
}

impl View for AppError {
    type V = ErrorView;

    open spec fn view(&self) -> ErrorView {
        match self {
            AppError::BadRequest(m) => ErrorView::BadRequest(m@),
            AppError::NotFound(m) => ErrorView::NotFound(m@),
            AppError::Conflict(m) => ErrorView::Conflict(m@),
            AppError::Internal(m) => ErrorView::Internal(m@),
            AppError::Database(m) => ErrorView::Database(m@),
        }
    }
}

impl AppError {
    /// The request is wrong, and how.
    pub fn bad_request(message: &str) -> (r: AppError)
        ensures
            r@ == ErrorView::BadRequest(message@),
    {
        AppError::BadRequest(message.to_owned())
    }

    /// What was asked for is not there.
    pub fn not_found(message: &str) -> (r: AppError)
        ensures
            r@ == ErrorView::NotFound(message@),
    {
        AppError::NotFound(message.to_owned())
    }
}

} // verus!
