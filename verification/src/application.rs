//! Operator requests, shared status, sequences and servo management.
pub mod app_state;
pub mod authority;
pub mod command;
pub mod intake;
pub mod sequence;
pub mod sequence_plan;
pub mod settings;
pub mod sts;
pub mod worker;
