//! Bench diagnostics of the boards, independent of normal operation.
pub mod individual;
pub mod session_laws;
