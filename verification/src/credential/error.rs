//! Why something could not be done with stored credentials.
use vstd::prelude::*;
use vstd::string::*;

verus! {

/// The failure of an operation on stored credentials.
#[derive(Debug)]
pub enum TokenStoreError {
    /// There is no such token.
    TokenNotFound,
    /// Something else failed; `context` says what was being done.
    Internal { context: String },
}

/// The model of [`TokenStoreError`].
pub enum TokenStoreErrorView {
    TokenNotFound,
    Internal { context: Seq<char> },
}

impl View for TokenStoreError {
    type V = TokenStoreErrorView;

    open spec fn view(&self) -> TokenStoreErrorView {
        match *self {
            TokenStoreError::TokenNotFound => TokenStoreErrorView::TokenNotFound,
            TokenStoreError::Internal { context } => TokenStoreErrorView::Internal {
                context: context@,
            },
        }
    }
}

impl TokenStoreError {
    /// Makes the error of an operation that failed.
    pub fn internal(context: &str) -> (error: TokenStoreError)
        ensures
            error@ == (TokenStoreErrorView::Internal { context: context@ }),
    {
        TokenStoreError::Internal { context: context.to_owned() }
    }
}

} // verus!
