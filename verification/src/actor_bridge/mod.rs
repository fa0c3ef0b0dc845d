//! Carrying the context along with actor messages.
//!
//! On the way out the context is attached to a message as a header: as a
//! snapshot where the target is in the same process, and as bytes where it is
//! not. On the way in bytes become a snapshot again, and the handler of the
//! message works on a store made of it.

use vstd::prelude::*;

pub mod header;
pub mod inbound;
pub mod outbound;
pub mod propagation;

verus! {

/// What to do when a context cannot be turned into bytes or back.
#[derive(Debug, Clone, Copy, PartialEq, Eq, Structural)]
pub enum ErrorPolicy {
    /// Deliver the message without a context.
    LogAndContinue,
    /// Reject the message.
    Reject,
}

impl Default for ErrorPolicy {
    fn default() -> (r: Self)
        ensures
            r == ErrorPolicy::LogAndContinue,
    {
        ErrorPolicy::LogAndContinue
    }
}

/// What becomes of a message.
pub enum Disposition {
    /// It is delivered.
    Continue,
    /// It is rejected, with a reason.
    Reject(String),
}

/// What becomes of a message, the reason as characters.
pub enum DispositionView {
    Continue,
    Reject(Seq<char>),
}

impl View for Disposition {
    type V = DispositionView;

    open spec fn view(&self) -> DispositionView {
        match *self {
            Disposition::Continue => DispositionView::Continue,
            Disposition::Reject(why) => DispositionView::Reject(why@),
        }
    }
}

} // verus!
