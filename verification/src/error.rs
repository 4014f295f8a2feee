//! The failures that the pool and the exchange report.
use vstd::prelude::*;

use crate::config::Reason;

verus! {

/// What can go wrong between taking a request and answering it.
#[derive(Debug)]
pub enum ClewdrError {
    /// The pool had no usable credential when one was asked for.
    NoCookieAvailable,
    /// The upstream service turned the credential down, for the given reason.
    InvalidCookie(Reason),
    /// Every allowed attempt ended in a credential that had to rest.
    TooManyRetries,
    /// The request cannot be sent as it is; the text says why.
    BadRequest(String),
    /// A value that must be present at this point was missing.
    UnexpectedNone,
    /// Any other failure of the upstream exchange, by its message.
    Upstream(String),
}

/// [`ClewdrError`] with its texts as sequences of characters.
pub enum ErrorView {
    NoCookieAvailable,
    InvalidCookie(Reason),
    TooManyRetries,
    BadRequest(Seq<char>),
    UnexpectedNone,
    Upstream(Seq<char>),
}

impl View for ClewdrError {
    type V = ErrorView;

    open spec fn view(&self) -> ErrorView {
        match self {
            ClewdrError::NoCookieAvailable => ErrorView::NoCookieAvailable,
            ClewdrError::InvalidCookie(r) => ErrorView::InvalidCookie(*r),
            ClewdrError::TooManyRetries => ErrorView::TooManyRetries,
            ClewdrError::BadRequest(s) => ErrorView::BadRequest(s@),
            ClewdrError::UnexpectedNone => ErrorView::UnexpectedNone,
            ClewdrError::Upstream(s) => ErrorView::Upstream(s@),
        }
    }
}

impl Clone for ClewdrError {
    fn clone(&self) -> (res: Self)
        ensures
            res == *self,
    {
        match self {
            ClewdrError::NoCookieAvailable => ClewdrError::NoCookieAvailable,
            ClewdrError::InvalidCookie(r) => ClewdrError::InvalidCookie(*r),
            ClewdrError::TooManyRetries => ClewdrError::TooManyRetries,
            ClewdrError::BadRequest(s) => ClewdrError::BadRequest(s.clone()),
            ClewdrError::UnexpectedNone => ClewdrError::UnexpectedNone,
            ClewdrError::Upstream(s) => ClewdrError::Upstream(s.clone()),
        }
    }
}

} // verus!
