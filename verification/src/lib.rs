//! Session manager for services that each run on a pseudo-terminal of their own.
//!
//! The registry of live sessions, the control operations on it, the step function
//! of the output pump and the validation of service descriptors are verified;
//! calls into the pseudo-terminal layer stand behind the trusted items of `pty`.

pub mod pty;
pub mod emitter;
pub mod config;
pub mod pty_manager;
pub mod cmd;
