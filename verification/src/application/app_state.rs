//! What the GUI, the local API and the worker share: the court, the
//! preparation phase and the communication status of the boards.
use vstd::prelude::*;
use vstd::string::*;

verus! {

/// The serial link to the machine, or the simulator.
#[derive(Clone, Debug)]
pub struct Connection {
    pub serial_device: String,
    pub baud_rate: u32,
    pub simulate: Option<bool>,
}

/// The side of the field the robot plays on.
#[derive(Clone, Copy, Debug, PartialEq, Eq, Structural)]
pub enum Court {
    Red,
    Blue,
}

pub open spec fn court_label(c: Court) -> Seq<char> {
    match c {
        Court::Red => "赤コート"@,
        Court::Blue => "青コート"@,
    }
}

impl Court {
    /// The name shown to the operator.
    pub fn label(self) -> (l: &'static str)
        ensures
            l@ == court_label(self),
    {
        match self {
            Court::Red => "赤コート",
            Court::Blue => "青コート",
        }
    }
}

/// The step of the guided preparation.
#[derive(Clone, Copy, Debug, PartialEq, Eq, Structural)]
pub enum PreparationStep {
    /// Choose the court.
    Court,
    /// Wait until every axis answers.
    Connection,
    /// Home the axes.
    Home,
    /// Set the origins by hand, axis by axis.
    ManualHome,
    /// Move to the start position.
    Position,
}

impl Default for PreparationStep {
    fn default() -> (s: Self)
        ensures
            s == PreparationStep::Court,
    {
        PreparationStep::Court
    }
}

/// How healthy a communication path is.
#[derive(Clone, Copy, Debug, PartialEq, Eq, Structural)]
pub enum CommunicationHealth {
    Healthy,
    Warning,
    Fault,
    Unknown,
}

impl Default for CommunicationHealth {
    fn default() -> (h: Self)
        ensures
            h == CommunicationHealth::Unknown,
    {
        CommunicationHealth::Unknown
    }
}

/// The state of one CAN bus as cctl reports it.
#[derive(Clone, Debug)]
pub struct CanBusStatus {
    pub bus: u8,
    pub label: String,
    pub health: CommunicationHealth,
    pub detail: String,
    pub age_ms: Option<u64>,
    pub started: Option<bool>,
    pub bus_off: Option<bool>,
    pub lec: Option<u8>,
    pub tec: Option<u8>,
    pub rec: Option<u8>,
    pub cel: Option<u8>,
    pub tx_failed: Option<u32>,
}

impl Default for CanBusStatus {
    fn default() -> (s: Self)
        ensures
            s.bus == 0 && s.label@ == Seq::<char>::empty() && s.health == CommunicationHealth::Unknown
                && s.detail@ == Seq::<char>::empty() && s.age_ms is None && s.started is None
                && s.bus_off is None && s.lec is None && s.tec is None && s.rec is None
                && s.cel is None && s.tx_failed is None,
    {
        CanBusStatus {
            bus: 0,
            label: String::new(),
            health: CommunicationHealth::Unknown,
            detail: String::new(),
            age_ms: None,
            started: None,
            bus_off: None,
            lec: None,
            tec: None,
            rec: None,
            cel: None,
            tx_failed: None,
        }
    }
}

/// The state of one device on a CAN bus.
#[derive(Clone, Debug)]
pub struct CanDeviceStatus {
    pub name: String,
    pub bus: u8,
    pub address: String,
    pub health: CommunicationHealth,
    pub detail: String,
    pub age_ms: Option<u64>,
}

impl Default for CanDeviceStatus {
    fn default() -> (s: Self)
        ensures
            s.name@ == Seq::<char>::empty() && s.bus == 0 && s.address@ == Seq::<char>::empty()
                && s.health == CommunicationHealth::Unknown && s.detail@ == Seq::<char>::empty()
                && s.age_ms is None,
    {
        CanDeviceStatus {
            name: String::new(),
            bus: 0,
            address: String::new(),
            health: CommunicationHealth::Unknown,
            detail: String::new(),
            age_ms: None,
        }
    }
}

/// Where the match preparation stands.
#[derive(Clone, Copy, Debug, PartialEq, Eq, Structural)]
pub enum PreparationPhase {
    Setting,
    Waiting,
    Active,
    Recovery,
}

impl Default for PreparationPhase {
    fn default() -> (p: Self)
        ensures
            p == PreparationPhase::Setting,
    {
        PreparationPhase::Setting
    }
}

impl PreparationPhase {
    /// Whether settings are locked: while waiting for the start and while recovering.
    pub fn locked(self) -> (b: bool)
        ensures
            b == (self == PreparationPhase::Waiting || self == PreparationPhase::Recovery),
    {
        matches!(self, PreparationPhase::Waiting | PreparationPhase::Recovery)
    }
}

/// The state of the bonus mechanism.
#[derive(Clone, Debug)]
pub struct BonusStatus {
    pub configured: bool,
    pub semi_auto: bool,
    pub handoff_captured: bool,
    pub encoder_count: Option<i32>,
    pub position_counts: Option<i32>,
    pub handoff_limit_configured: bool,
    pub handoff_limit: Option<bool>,
    pub selected_box: usize,
    pub box_names: Vec<String>,
    pub loaded: u8,
    pub capacity: u8,
    pub active: bool,
    pub phase: String,
}

impl Default for BonusStatus {
    fn default() -> (s: Self)
        ensures
            !s.configured && !s.semi_auto && !s.handoff_captured && s.encoder_count is None
                && s.position_counts is None && !s.handoff_limit_configured
                && s.handoff_limit is None && s.selected_box == 0 && s.box_names@.len() == 0
                && s.loaded == 0 && s.capacity == 0 && !s.active && s.phase@ == Seq::<char>::empty(),
    {
        BonusStatus {
            configured: false,
            semi_auto: false,
            handoff_captured: false,
            encoder_count: None,
            position_counts: None,
            handoff_limit_configured: false,
            handoff_limit: None,
            selected_box: 0,
            box_names: Vec::new(),
            loaded: 0,
            capacity: 0,
            active: false,
            phase: String::new(),
        }
    }
}

} // verus!
