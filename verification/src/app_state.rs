//! The connection settings of the bridge.
use vstd::prelude::*;

verus! {

/// The serial link to the machine.
#[derive(Clone, Debug)]
pub struct Connection {
    pub serial_device: String,
    pub baud_rate: u32,
}

} // verus!
