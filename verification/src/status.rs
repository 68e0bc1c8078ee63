//! The outcome codes and messages that are sent back over gRPC.
use vstd::prelude::*;
use vstd::string::*;

verus! {

/// The canonical gRPC codes.
#[derive(Clone, Copy, Debug, PartialEq, Eq, Structural)]
pub enum Code {
    Success,
    Cancelled,
    Unknown,
    InvalidArgument,
    DeadlineExceeded,
    NotFound,
    AlreadyExists,
    PermissionDenied,
    ResourceExhausted,
    FailedPrecondition,
    Aborted,
    OutOfRange,
    Unimplemented,
    Internal,
    Unavailable,
    DataLoss,
    Unauthenticated,
}

/// A failed outcome.
#[derive(Debug)]
pub struct Status {
    pub code: Code,
    pub message: String,
}

/// The model of [`Status`].
pub struct StatusView {
    pub code: Code,
    pub message: Seq<char>,
}

impl View for Status {
    type V = StatusView;

    open spec fn view(&self) -> StatusView {
        StatusView { code: self.code, message: self.message@ }
    }
}

impl Status {
    /// A failed outcome with the given code and message.
    pub fn new(code: Code, message: &str) -> (status: Status)
        ensures
            status@ == (StatusView { code, message: message@ }),
    {
        Status { code, message: message.to_owned() }
    }

    /// A failed outcome whose message is `context` followed by `detail`.
    pub fn with_detail(code: Code, context: &str, detail: &str) -> (status: Status)
        ensures
            status@ == (StatusView { code, message: context@ + detail@ }),
    {
        Status { code, message: context.to_owned().concat(detail) }
    }
}

} // verus!
