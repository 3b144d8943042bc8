//! A concurrent frame cache for decoded video frames.
//!
//! The cache turns point requests for frames into decodes of whole windows of
//! consecutive frames, shares each pending frame among all of its waiters
//! through a one-shot handle, and keeps the bytes it holds under a budget.
//! Everything here is synchronous state: locking, task spawning, timers and
//! the decoder process live with the caller, which feeds events to these
//! state machines and carries out the actions they return.
pub mod accounting;
pub mod decoder;
pub mod ffmpeg;
pub mod frame;
pub mod future;
pub mod range;
