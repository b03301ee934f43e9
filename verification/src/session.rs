//! The graphics-context bring-up state machine.
//!
//! Device and adapter negotiation runs once, in the background, and is not
//! cancellable; its one outcome arrives later as a message. Until then the
//! main loop keeps accepting input but neither renders nor ticks — the
//! simulation clock starts with the first frame the context can present,
//! which is this library's explicit choice for the tick-before-renderer
//! question. A failed bring-up is terminal: the application must exit, and
//! no retry is attempted.

use vstd::prelude::*;

verus! {

/// The three states of graphics bring-up, polled once per frame.
pub enum GraphicsStatus<R> {
    /// Negotiation is still running.
    Pending,
    /// The context arrived and rendering may proceed.
    Ready(R),
    /// Negotiation failed; the session must end.
    Failed,
}

impl<R> GraphicsStatus<R> {
    /// The state before any report arrived.
    pub fn new() -> (s: GraphicsStatus<R>)
        ensures
            s is Pending,
    {
        GraphicsStatus::Pending
    }

    /// Deliver the background task's one report: a context on success,
    /// nothing on failure. Only a pending session takes a report; the
    /// outcome, either way, is final.
    pub fn deliver(&mut self, outcome: Option<R>)
        requires
            *old(self) is Pending,
        ensures
            match outcome {
                Some(r) => *final(self) == GraphicsStatus::Ready(r),
                None => *final(self) is Failed,
            },
    {
        match outcome {
            Some(r) => {
                *self = GraphicsStatus::Ready(r);
            },
            None => {
                *self = GraphicsStatus::Failed;
            },
        }
    }

    /// Rendering, and with it ticking, may proceed only once the context
    /// is ready.
    pub fn may_render(&self) -> (r: bool)
        ensures
            r <==> *self is Ready,
    {
        match self {
            GraphicsStatus::Ready(_) => true,
            _ => false,
        }
    }

    /// The application must transition to its terminal exit state.
    pub fn must_exit(&self) -> (r: bool)
        ensures
            r <==> *self is Failed,
    {
        match self {
            GraphicsStatus::Failed => true,
            _ => false,
        }
    }
}

} // verus!
