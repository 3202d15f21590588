//! The two ways in which a call can fail.

use vstd::prelude::*;

verus! {

/// Why a call did not come back with a response.
///
/// Both are final for the call they are reported for: nothing is retried.
#[derive(Debug, Clone, Copy, PartialEq, Eq, Structural)]
pub enum Error {
    /// The queue did not take the request: nothing listens on it any more.
    RequestFailure,
    /// The queue took the request, but the reply slot was given up before
    /// a response was put in it. The handler may have seen the request.
    ResponseFailure,
}

impl Error {
    /// The text that describes the error.
    pub open spec fn message_text(self) -> Seq<char> {
        match self {
            Error::RequestFailure => "Problem peforming the request."@,
            Error::ResponseFailure => "Failed to complete the response."@,
        }
    }

    /// A description of the error for people to read.
    pub fn message(&self) -> (text: String)
        ensures
            text@ == self.message_text(),
    {
        match self {
            Error::RequestFailure => "Problem peforming the request.".to_owned(),
            Error::ResponseFailure => "Failed to complete the response.".to_owned(),
        }
    }
}

} // verus!
