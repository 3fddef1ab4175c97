//! Host-side logic of the catch robot: board protocols, operator requests,
//! and the bench test sessions of the generic firmware.
pub mod app_state;
pub mod application;
pub mod dcmd;
pub mod diagnostics;
pub mod frame;
pub mod fw_test_gui;
pub mod fw_test_transport;
pub mod gui;
pub mod keyed;
pub mod number;
pub mod text;
