//! The communication health shown for each CAN bus and for each device on
//! it, from the last machine report, cctl's controller diagnostics and the
//! age of the boards' answers.
use vstd::prelude::*;
use vstd::string::*;
use crate::application::app_state::{CanBusStatus, CanDeviceStatus, CommunicationHealth};
use crate::text::{dec, hex2, push_dec, push_hex2};

verus! {

/// How old the machine report may be to count as current, in milliseconds.
pub const FRESH_MS: u64 = 200;

/// How old an answer may be to count as recent, in milliseconds.
pub const RECENT_MS: u64 = 2000;

/// Whether the machine report is current, given its age.
pub open spec fn fresh_spec(report_age_ms: Option<u64>) -> bool {
    report_age_ms matches Some(age) && age <= FRESH_MS
}

/// Whether the machine report is current, given its age in milliseconds.
pub fn fresh(report_age_ms: Option<u64>) -> (b: bool)
    ensures
        b == fresh_spec(report_age_ms),
{
    match report_age_ms {
        Some(age) => age <= FRESH_MS,
        None => false,
    }
}

/// Whether an answer of this age is recent.
pub open spec fn recent(age_ms: Option<u64>) -> bool {
    age_ms matches Some(age) && age < RECENT_MS
}

/// What cctl last reported about one CAN controller.
#[derive(Clone, Copy, Debug)]
pub struct Diagnostics {
    pub started: bool,
    pub bus_off: bool,
    pub lec: u8,
    pub tec: u8,
    pub rec: u8,
    pub cel: u8,
    pub tx_failed: u32,
}

/// Whether the machine report lists the bus as usable (bus 1 or 2).
pub open spec fn listed(buses: Option<u8>, bus: u8) -> bool {
    match buses {
        Some(b) => if bus == 1 {
            b & 1u8 != 0
        } else {
            b & 2u8 != 0
        },
        None => false,
    }
}

fn listed_exec(buses: Option<u8>, bus: u8) -> (r: bool)
    ensures
        r == listed(buses, bus),
{
    match buses {
        Some(b) => if bus == 1 {
            b & 1u8 != 0
        } else {
            b & 2u8 != 0
        },
        None => false,
    }
}

/// Whether the controller is not running: not started, or bus-off.
pub open spec fn controller_down(d: Option<Diagnostics>) -> bool {
    d matches Some(v) && (!v.started || v.bus_off)
}

pub open spec fn bus_health_spec(fresh: bool, available: bool, d: Option<Diagnostics>) -> CommunicationHealth {
    if !fresh {
        CommunicationHealth::Unknown
    } else if controller_down(d) || !available {
        CommunicationHealth::Fault
    } else if d matches Some(v) && (v.tec >= 128 || v.rec >= 96) {
        CommunicationHealth::Warning
    } else {
        CommunicationHealth::Healthy
    }
}

pub open spec fn bus_detail_spec(fresh: bool, available: bool, d: Option<Diagnostics>) -> Seq<char> {
    if !fresh {
        "cctlの状態応答待ち"@
    } else {
        match d {
            Some(v) => if !v.started {
                "CANコントローラ未起動"@
            } else if v.bus_off {
                "bus-off：配線・終端・通信速度・ID重複を確認"@
            } else if !available {
                "cctlが使用不可と判定"@
            } else {
                "通信可能"@
            },
            None => if available {
                "通信可能・詳細応答待ち"@
            } else {
                "使用不可"@
            },
        }
    }
}

pub open spec fn bus_label(bus: u8) -> Seq<char> {
    if bus == 1 {
        "FDCAN1（モータ）"@
    } else {
        "FDCAN2（周辺基板）"@
    }
}

pub open spec fn diag_of(diagnostic: Option<(Diagnostics, u64)>) -> Option<Diagnostics> {
    match diagnostic {
        Some((d, _)) => Some(d),
        None => None,
    }
}

/// The status of a bus, as `bus_status` gives it.
pub open spec fn bus_status_spec(
    s: CanBusStatus,
    bus: u8,
    report_age_ms: Option<u64>,
    buses: Option<u8>,
    diagnostic: Option<(Diagnostics, u64)>,
) -> bool {
    let fresh = fresh_spec(report_age_ms);
    let available = fresh && listed(buses, bus);
    let d = diag_of(diagnostic);
    &&& s.bus == bus
    &&& s.label@ == bus_label(bus)
    &&& s.health == bus_health_spec(fresh, available, d)
    &&& s.detail@ == bus_detail_spec(fresh, available, d)
    &&& s.age_ms == (match diagnostic {
        Some((_, age)) => Some(age),
        None => None,
    })
    &&& s.started == (match d {
        Some(v) => Some(v.started),
        None => None,
    })
    &&& s.bus_off == (match d {
        Some(v) => Some(v.bus_off),
        None => None,
    })
    &&& s.lec == (match d {
        Some(v) => Some(v.lec),
        None => None,
    })
    &&& s.tec == (match d {
        Some(v) => Some(v.tec),
        None => None,
    })
    &&& s.rec == (match d {
        Some(v) => Some(v.rec),
        None => None,
    })
    &&& s.cel == (match d {
        Some(v) => Some(v.cel),
        None => None,
    })
    &&& s.tx_failed == (match d {
        Some(v) => Some(v.tx_failed),
        None => None,
    })
}

/// The status of one bus: `buses` is the bus list of the last machine report,
/// if there is one, and `diagnostic` cctl's last report on the controller with
/// its age in milliseconds.
pub fn bus_status(
    bus: u8,
    report_age_ms: Option<u64>,
    buses: Option<u8>,
    diagnostic: Option<(Diagnostics, u64)>,
) -> (s: CanBusStatus)
    requires
        bus == 1 || bus == 2,
    ensures
        bus_status_spec(s, bus, report_age_ms, buses, diagnostic),
{
    let fresh = fresh(report_age_ms);
    let available = fresh && listed_exec(buses, bus);
    let d: Option<Diagnostics> = match diagnostic {
        Some((v, _)) => Some(v),
        None => None,
    };
    let health = if !fresh {
        CommunicationHealth::Unknown
    } else if (match d {
        Some(v) => !v.started || v.bus_off,
        None => false,
    }) || !available {
        CommunicationHealth::Fault
    } else if (match d {
        Some(v) => v.tec >= 128 || v.rec >= 96,
        None => false,
    }) {
        CommunicationHealth::Warning
    } else {
        CommunicationHealth::Healthy
    };
    let detail = if !fresh {
        String::from_str("cctlの状態応答待ち")
    } else {
        match d {
            Some(v) => if !v.started {
                String::from_str("CANコントローラ未起動")
            } else if v.bus_off {
                String::from_str("bus-off：配線・終端・通信速度・ID重複を確認")
            } else if !available {
                String::from_str("cctlが使用不可と判定")
            } else {
                String::from_str("通信可能")
            },
            None => if available {
                String::from_str("通信可能・詳細応答待ち")
            } else {
                String::from_str("使用不可")
            },
        }
    };
    let label = if bus == 1 {
        String::from_str("FDCAN1（モータ）")
    } else {
        String::from_str("FDCAN2（周辺基板）")
    };
    CanBusStatus {
        bus,
        label,
        health,
        detail,
        age_ms: match diagnostic {
            Some((_, age)) => Some(age),
            None => None,
        },
        started: match d {
            Some(v) => Some(v.started),
            None => None,
        },
        bus_off: match d {
            Some(v) => Some(v.bus_off),
            None => None,
        },
        lec: match d {
            Some(v) => Some(v.lec),
            None => None,
        },
        tec: match d {
            Some(v) => Some(v.tec),
            None => None,
        },
        rec: match d {
            Some(v) => Some(v.rec),
            None => None,
        },
        cel: match d {
            Some(v) => Some(v.cel),
            None => None,
        },
        tx_failed: match d {
            Some(v) => Some(v.tx_failed),
            None => None,
        },
    }
}

/// The status of both buses, FDCAN1 (the motors) first.
pub fn bus_statuses(
    report_age_ms: Option<u64>,
    buses: Option<u8>,
    motor: Option<(Diagnostics, u64)>,
    peripheral: Option<(Diagnostics, u64)>,
) -> (v: Vec<CanBusStatus>)
    ensures
        v@.len() == 2,
        bus_status_spec(v@[0], 1, report_age_ms, buses, motor),
        bus_status_spec(v@[1], 2, report_age_ms, buses, peripheral),
{
    let mut v: Vec<CanBusStatus> = Vec::new();
    v.push(bus_status(1, report_age_ms, buses, motor));
    v.push(bus_status(2, report_age_ms, buses, peripheral));
    v
}

/// How a peripheral board is answering, when the machine expects it.
pub open spec fn peripheral_health_spec(fresh: bool, bus_available: bool, age_ms: Option<u64>, setup: bool) -> CommunicationHealth {
    if !fresh {
        CommunicationHealth::Unknown
    } else if !bus_available {
        CommunicationHealth::Fault
    } else if recent(age_ms) {
        CommunicationHealth::Healthy
    } else if setup {
        CommunicationHealth::Fault
    } else {
        CommunicationHealth::Unknown
    }
}

/// How a peripheral board is answering: `age_ms` is the age of its last
/// state answer, and `setup` says that the machine was configured, so that
/// silence is a fault.
pub fn peripheral_health(fresh: bool, bus_available: bool, age_ms: Option<u64>, setup: bool) -> (h: CommunicationHealth)
    ensures
        h == peripheral_health_spec(fresh, bus_available, age_ms, setup),
{
    if !fresh {
        CommunicationHealth::Unknown
    } else if !bus_available {
        CommunicationHealth::Fault
    } else if (match age_ms {
        Some(age) => age < RECENT_MS,
        None => false,
    }) {
        CommunicationHealth::Healthy
    } else if setup {
        CommunicationHealth::Fault
    } else {
        CommunicationHealth::Unknown
    }
}

/// A device status as the contracts see it.
pub struct DeviceView {
    pub name: Seq<char>,
    pub bus: u8,
    pub address: Seq<char>,
    pub health: CommunicationHealth,
    pub detail: Seq<char>,
    pub age_ms: Option<u64>,
}

pub open spec fn dview(d: CanDeviceStatus) -> DeviceView {
    DeviceView { name: d.name@, bus: d.bus, address: d.address@, health: d.health, detail: d.detail@, age_ms: d.age_ms }
}

pub open spec fn dviews(s: Seq<CanDeviceStatus>) -> Seq<DeviceView> {
    s.map_values(|d: CanDeviceStatus| dview(d))
}

pub open spec fn board_health_spec(
    fresh: bool,
    bus_available: bool,
    configured: bool,
    age_ms: Option<u64>,
    setup: bool,
) -> CommunicationHealth {
    if configured {
        peripheral_health_spec(fresh, bus_available, age_ms, setup)
    } else if !fresh {
        CommunicationHealth::Unknown
    } else if !bus_available {
        CommunicationHealth::Fault
    } else if recent(age_ms) {
        CommunicationHealth::Warning
    } else {
        CommunicationHealth::Unknown
    }
}

pub open spec fn board_detail_spec(configured: bool, health: CommunicationHealth, bus_available: bool) -> Seq<char> {
    if !configured {
        match health {
            CommunicationHealth::Warning => "状態応答あり・機体設定なし"@,
            CommunicationHealth::Fault => "検出済み・FDCAN2が使用不可"@,
            _ => "以前検出・機体設定なし"@,
        }
    } else {
        match health {
            CommunicationHealth::Healthy => "状態応答を受信"@,
            CommunicationHealth::Fault => if !bus_available {
                "FDCAN2が使用不可"@
            } else {
                "状態応答が2秒以上ありません"@
            },
            _ => "応答待ち"@,
        }
    }
}

pub open spec fn board_view(
    name: Seq<char>,
    address: Seq<char>,
    fresh: bool,
    bus_available: bool,
    configured: bool,
    age_ms: Option<u64>,
    setup: bool,
) -> DeviceView {
    let health = board_health_spec(fresh, bus_available, configured, age_ms, setup);
    DeviceView {
        name,
        bus: 2,
        address,
        health,
        detail: board_detail_spec(configured, health, bus_available),
        age_ms,
    }
}

/// The status of a peripheral board on FDCAN2. A board that the machine
/// profile does not name is shown as a warning while it answers.
pub fn board_status(
    name: &str,
    address: &str,
    fresh: bool,
    bus_available: bool,
    configured: bool,
    age_ms: Option<u64>,
    setup: bool,
) -> (d: CanDeviceStatus)
    ensures
        dview(d) == board_view(name@, address@, fresh, bus_available, configured, age_ms, setup),
{
    let health = if configured {
        peripheral_health(fresh, bus_available, age_ms, setup)
    } else if !fresh {
        CommunicationHealth::Unknown
    } else if !bus_available {
        CommunicationHealth::Fault
    } else if (match age_ms {
        Some(age) => age < RECENT_MS,
        None => false,
    }) {
        CommunicationHealth::Warning
    } else {
        CommunicationHealth::Unknown
    };
    let detail = if !configured {
        match health {
            CommunicationHealth::Warning => String::from_str("状態応答あり・機体設定なし"),
            CommunicationHealth::Fault => String::from_str("検出済み・FDCAN2が使用不可"),
            _ => String::from_str("以前検出・機体設定なし"),
        }
    } else {
        match health {
            CommunicationHealth::Healthy => String::from_str("状態応答を受信"),
            CommunicationHealth::Fault => if !bus_available {
                String::from_str("FDCAN2が使用不可")
            } else {
                String::from_str("状態応答が2秒以上ありません")
            },
            _ => String::from_str("応答待ち"),
        }
    };
    CanDeviceStatus {
        name: String::from_str(name),
        bus: 2,
        address: String::from_str(address),
        health,
        detail,
        age_ms,
    }
}

/// The kind of output on a peripheral board.
#[derive(Clone, Copy, Debug, PartialEq, Eq, Structural)]
pub enum Output {
    PwmServo,
    DcMotor,
}

pub open spec fn output_suffix(kind: Output) -> Seq<char> {
    match kind {
        Output::PwmServo => " · PWMサーボ"@,
        Output::DcMotor => " · DCモータ"@,
    }
}

pub open spec fn output_detail(kind: Output, board: CommunicationHealth) -> Seq<char> {
    if board == CommunicationHealth::Healthy {
        match kind {
            Output::PwmServo => "基板応答あり・サーボ個体の応答は取得不可"@,
            Output::DcMotor => "基板応答あり・モータ個体の応答は取得不可"@,
        }
    } else {
        match kind {
            Output::PwmServo => "PWMサーボ基板の応答なし"@,
            Output::DcMotor => "DCモータ基板の応答なし"@,
        }
    }
}

pub open spec fn channel_view(
    kind: Output,
    name: Seq<char>,
    channel: u8,
    board: CommunicationHealth,
    age_ms: Option<u64>,
) -> DeviceView {
    DeviceView {
        name: name + output_suffix(kind),
        bus: 2,
        address: "channel "@ + dec(channel as nat),
        health: if board == CommunicationHealth::Healthy {
            CommunicationHealth::Warning
        } else {
            board
        },
        detail: output_detail(kind, board),
        age_ms,
    }
}

/// The status of one output channel of a peripheral board. The board does
/// not report on the servo or motor itself, so a healthy board shows its
/// channels as a warning.
pub fn channel_status(
    kind: Output,
    name: &str,
    channel: u8,
    board: CommunicationHealth,
    age_ms: Option<u64>,
) -> (d: CanDeviceStatus)
    ensures
        dview(d) == channel_view(kind, name@, channel, board, age_ms),
{
    let mut full = String::from_str(name);
    let mut address = String::from_str("channel ");
    push_dec(&mut address, channel as u64);
    let detail = match kind {
        Output::PwmServo => {
            full.append(" · PWMサーボ");
            if board == CommunicationHealth::Healthy {
                String::from_str("基板応答あり・サーボ個体の応答は取得不可")
            } else {
                String::from_str("PWMサーボ基板の応答なし")
            }
        },
        Output::DcMotor => {
            full.append(" · DCモータ");
            if board == CommunicationHealth::Healthy {
                String::from_str("基板応答あり・モータ個体の応答は取得不可")
            } else {
                String::from_str("DCモータ基板の応答なし")
            }
        },
    };
    CanDeviceStatus {
        name: full,
        bus: 2,
        address,
        health: if board == CommunicationHealth::Healthy {
            CommunicationHealth::Warning
        } else {
            board
        },
        detail,
        age_ms,
    }
}

/// The last answer of a bus servo, with its age in milliseconds.
pub struct Feedback {
    pub error: u8,
    /// The servo's state as the operator reads it.
    pub detail: String,
    pub age_ms: u64,
}

pub open spec fn servo_view(name: Seq<char>, id: u8, board: CommunicationHealth, feedback: Option<Feedback>) -> DeviceView {
    let (health, detail, age_ms) = if board != CommunicationHealth::Healthy {
        (board, "STS3215基板の応答なし"@, None)
    } else {
        match feedback {
            Some(f) => if f.age_ms < RECENT_MS {
                (
                    if f.error == 0 {
                        CommunicationHealth::Healthy
                    } else {
                        CommunicationHealth::Fault
                    },
                    f.detail@,
                    Some(f.age_ms),
                )
            } else {
                (CommunicationHealth::Fault, "サーボ個体から応答なし"@, Some(f.age_ms))
            },
            None => (CommunicationHealth::Fault, "サーボ個体から応答なし"@, None),
        }
    };
    DeviceView {
        name: name + " · STS3215"@,
        bus: 2,
        address: "servo ID "@ + dec(id as nat),
        health,
        detail,
        age_ms,
    }
}

/// The status of one bus servo behind the STS3215 board: healthy only
/// while it answers itself, without an error.
pub fn servo_status(name: &str, id: u8, board: CommunicationHealth, feedback: &Option<Feedback>) -> (d: CanDeviceStatus)
    ensures
        dview(d) == servo_view(name@, id, board, *feedback),
{
    let mut full = String::from_str(name);
    full.append(" · STS3215");
    let mut address = String::from_str("servo ID ");
    push_dec(&mut address, id as u64);
    let (health, detail, age_ms) = if board != CommunicationHealth::Healthy {
        (board, String::from_str("STS3215基板の応答なし"), None)
    } else {
        match feedback {
            Some(f) => if f.age_ms < RECENT_MS {
                (
                    if f.error == 0 {
                        CommunicationHealth::Healthy
                    } else {
                        CommunicationHealth::Fault
                    },
                    f.detail.clone(),
                    Some(f.age_ms),
                )
            } else {
                (CommunicationHealth::Fault, String::from_str("サーボ個体から応答なし"), Some(f.age_ms))
            },
            None => (CommunicationHealth::Fault, String::from_str("サーボ個体から応答なし"), None),
        }
    };
    CanDeviceStatus { name: full, bus: 2, address, health, detail, age_ms }
}

/// The last machine report, as far as the device list reads it.
pub struct Telemetry {
    /// Bit 0: FDCAN1 usable; bit 1: FDCAN2 usable.
    pub buses: u8,
    /// Bit `n`: the feedback of motor slot `n` stopped.
    pub stale_slots: u8,
    /// The error bits of each motor slot.
    pub error_bits: Vec<u8>,
    /// The measured position of each motor slot, written with three decimals.
    pub measured: Vec<String>,
}

/// A motor axis on FDCAN1.
pub struct AxisLink {
    pub name: String,
    pub slot: u8,
}

/// The motor IDs that the machine profile sets.
#[derive(Clone, Copy, Debug)]
pub struct MotorIds {
    pub el05: Option<u8>,
    pub c620: Option<u8>,
    pub c620_slot2: Option<u8>,
}

/// An output channel of a peripheral board.
pub struct ChannelLink {
    pub name: String,
    pub channel: u8,
}

/// A bus servo behind the STS3215 board, with its last answer.
pub struct ServoLink {
    pub name: String,
    pub id: u8,
    pub feedback: Option<Feedback>,
}

/// What the worker knows when it lists the devices.
pub struct DeviceSnapshot {
    /// Age of the last machine report, in milliseconds.
    pub report_age_ms: Option<u64>,
    pub telemetry: Option<Telemetry>,
    /// The machine was configured, so a silent board is a fault.
    pub setup: bool,
    pub motor_diagnostics: Option<Diagnostics>,
    pub peripheral_diagnostics: Option<Diagnostics>,
    /// The last C620 scan: a mask of the IDs that answered, and its age.
    pub c620_scan: Option<(u8, u64)>,
    pub ids: MotorIds,
    pub axes: Vec<AxisLink>,
    pub pwm_servos: Vec<ChannelLink>,
    /// The profile sets parameters of the PWM servo board.
    pub pwm_parameters: bool,
    pub dc_motors: Vec<ChannelLink>,
    /// The profile sets parameters of the DC motor board.
    pub dc_parameters: bool,
    /// The servos of the STS3215 board, when the profile names the board.
    pub sts_servos: Option<Vec<ServoLink>>,
    /// The profile sets parameters of the STS3215 board.
    pub sts_parameters: bool,
    /// Age of the last state answer of each board, in milliseconds.
    pub pwm_age_ms: Option<u64>,
    pub dc_age_ms: Option<u64>,
    pub sts_age_ms: Option<u64>,
}

pub open spec fn telemetry_wf(t: Telemetry) -> bool {
    &&& t.measured@.len() <= 8
    &&& t.error_bits@.len() >= t.measured@.len()
}

pub open spec fn ids_in_range(ids: MotorIds) -> bool {
    &&& (ids.c620 matches Some(id) ==> 1 <= id <= 8)
    &&& (ids.c620_slot2 matches Some(id) ==> 1 <= id <= 8)
}

/// What the device list needs of a snapshot: the report's slot lists agree,
/// and while a C620 scan is recent, the C620 IDs lie in 1..=8.
pub open spec fn snapshot_wf(s: DeviceSnapshot) -> bool {
    &&& (s.telemetry matches Some(t) ==> telemetry_wf(t))
    &&& (scan_mask(s) is Some ==> ids_in_range(s.ids))
}

pub open spec fn scan_mask(s: DeviceSnapshot) -> Option<u8> {
    match s.c620_scan {
        Some((mask, age)) => if age < RECENT_MS {
            Some(mask)
        } else {
            None
        },
        None => None,
    }
}

pub open spec fn motor_bus(s: DeviceSnapshot) -> bool {
    fresh_spec(s.report_age_ms) && listed(telemetry_buses(s.telemetry), 1) && !controller_down(
        s.motor_diagnostics,
    )
}

pub open spec fn peripheral_bus(s: DeviceSnapshot) -> bool {
    fresh_spec(s.report_age_ms) && listed(telemetry_buses(s.telemetry), 2) && !controller_down(
        s.peripheral_diagnostics,
    )
}

pub open spec fn telemetry_buses(t: Option<Telemetry>) -> Option<u8> {
    match t {
        Some(v) => Some(v.buses),
        None => None,
    }
}

pub open spec fn axis_kind(slot: u8) -> Seq<char> {
    if slot == 0 {
        "EL05"@
    } else if slot == 1 || slot == 2 {
        "M3508 + C620"@
    } else {
        "モータ"@
    }
}

pub open spec fn axis_id(ids: MotorIds, slot: u8) -> Option<u8> {
    if slot == 0 {
        ids.el05
    } else if slot == 1 {
        ids.c620
    } else if slot == 2 {
        ids.c620_slot2
    } else {
        None
    }
}

pub open spec fn axis_address(slot: u8, id: Option<u8>) -> Seq<char> {
    match id {
        Some(i) => "slot "@ + dec(slot as nat) + " / ID "@ + dec(i as nat),
        None => "slot "@ + dec(slot as nat),
    }
}

pub open spec fn c620_missing(s: DeviceSnapshot, slot: u8) -> bool {
    slot > 0 && (axis_id(s.ids, slot) matches Some(id) && (scan_mask(s) matches Some(mask) && mask
        & (1u8 << ((id - 1) as u8)) == 0))
}

pub open spec fn axis_state(s: DeviceSnapshot, slot: u8) -> (CommunicationHealth, Seq<char>) {
    if !fresh_spec(s.report_age_ms) {
        (CommunicationHealth::Unknown, "cctlの状態応答待ち"@)
    } else if !motor_bus(s) {
        (CommunicationHealth::Fault, "FDCAN1が使用不可"@)
    } else {
        match s.telemetry {
            Some(t) => if slot < t.measured@.len() {
                let error = t.error_bits@[slot as int];
                if t.stale_slots & (1u8 << slot) != 0 {
                    (CommunicationHealth::Fault, "フィードバック途絶 / error=0x"@ + hex2(error))
                } else if error != 0 {
                    (CommunicationHealth::Fault, "モータ異常 / error=0x"@ + hex2(error))
                } else if c620_missing(s, slot) {
                    (CommunicationHealth::Fault, "設定IDへのC620応答なし"@)
                } else {
                    (CommunicationHealth::Healthy, "フィードバック正常 / 実測 "@ + t.measured@[slot as int]@)
                }
            } else {
                (CommunicationHealth::Unknown, "slot状態なし"@)
            },
            None => (CommunicationHealth::Unknown, "slot状態なし"@),
        }
    }
}

pub open spec fn axis_view(s: DeviceSnapshot, a: AxisLink) -> DeviceView {
    DeviceView {
        name: a.name@ + "軸 · "@ + axis_kind(a.slot),
        bus: 1,
        address: axis_address(a.slot, axis_id(s.ids, a.slot)),
        health: axis_state(s, a.slot).0,
        detail: axis_state(s, a.slot).1,
        age_ms: s.report_age_ms,
    }
}

fn slot_bit(slot: u8) -> (b: u8)
    requires
        slot < 8,
    ensures
        b == 1u8 << slot,
{
    1u8 << slot
}

/// The status of one motor axis: its feedback in the last report, its error
/// bits, and whether the C620 of its configured ID answered the last scan.
pub fn axis_status(s: &DeviceSnapshot, a: &AxisLink) -> (d: CanDeviceStatus)
    requires
        snapshot_wf(*s),
    ensures
        dview(d) == axis_view(*s, *a),
{
    let slot = a.slot;
    let id: Option<u8> = if slot == 0 {
        s.ids.el05
    } else if slot == 1 {
        s.ids.c620
    } else if slot == 2 {
        s.ids.c620_slot2
    } else {
        None
    };
    let mut name = String::from_str(a.name.as_str());
    name.append("軸 · ");
    if slot == 0 {
        name.append("EL05");
    } else if slot == 1 || slot == 2 {
        name.append("M3508 + C620");
    } else {
        name.append("モータ");
    }
    let mut address = String::from_str("slot ");
    push_dec(&mut address, slot as u64);
    match id {
        Some(i) => {
            address.append(" / ID ");
            push_dec(&mut address, i as u64);
        },
        None => {},
    }
    let fresh = fresh(s.report_age_ms);
    let buses: Option<u8> = match &s.telemetry {
        Some(t) => Some(t.buses),
        None => None,
    };
    let bus_ok = fresh && listed_exec(buses, 1) && !(match s.motor_diagnostics {
        Some(v) => !v.started || v.bus_off,
        None => false,
    });
    let mask: Option<u8> = match s.c620_scan {
        Some((m, age)) => if age < RECENT_MS {
            Some(m)
        } else {
            None
        },
        None => None,
    };
    let (health, detail) = if !fresh {
        (CommunicationHealth::Unknown, String::from_str("cctlの状態応答待ち"))
    } else if !bus_ok {
        (CommunicationHealth::Fault, String::from_str("FDCAN1が使用不可"))
    } else {
        match &s.telemetry {
            Some(t) => if (slot as usize) < t.measured.len() {
                let error = t.error_bits[slot as usize];
                if t.stale_slots & slot_bit(slot) != 0 {
                    let mut text = String::from_str("フィードバック途絶 / error=0x");
                    push_hex2(&mut text, error);
                    (CommunicationHealth::Fault, text)
                } else if error != 0 {
                    let mut text = String::from_str("モータ異常 / error=0x");
                    push_hex2(&mut text, error);
                    (CommunicationHealth::Fault, text)
                } else if slot > 0 && (match id {
                    Some(i) => match mask {
                        Some(m) => m & slot_bit(i - 1) == 0,
                        None => false,
                    },
                    None => false,
                }) {
                    (CommunicationHealth::Fault, String::from_str("設定IDへのC620応答なし"))
                } else {
                    let mut text = String::from_str("フィードバック正常 / 実測 ");
                    text.append(t.measured[slot as usize].as_str());
                    (CommunicationHealth::Healthy, text)
                }
            } else {
                (CommunicationHealth::Unknown, String::from_str("slot状態なし"))
            },
            None => (CommunicationHealth::Unknown, String::from_str("slot状態なし")),
        }
    };
    CanDeviceStatus { name, bus: 1, address, health, detail, age_ms: s.report_age_ms }
}

pub open spec fn pwm_configured(s: DeviceSnapshot) -> bool {
    s.pwm_servos@.len() > 0 || s.pwm_parameters
}

pub open spec fn dc_configured(s: DeviceSnapshot) -> bool {
    s.dc_motors@.len() > 0 || s.dc_parameters
}

pub open spec fn sts_configured(s: DeviceSnapshot) -> bool {
    s.sts_servos is Some || s.sts_parameters
}

pub open spec fn axes_views(s: DeviceSnapshot, n: int) -> Seq<DeviceView> {
    Seq::new(n as nat, |i: int| axis_view(s, s.axes@[i]))
}

pub open spec fn channels_views(
    kind: Output,
    v: Seq<ChannelLink>,
    board: CommunicationHealth,
    age_ms: Option<u64>,
    n: int,
) -> Seq<DeviceView> {
    Seq::new(n as nat, |i: int| channel_view(kind, v[i].name@, v[i].channel, board, age_ms))
}

pub open spec fn servos_views(v: Seq<ServoLink>, board: CommunicationHealth, n: int) -> Seq<DeviceView> {
    Seq::new(n as nat, |i: int| servo_view(v[i].name@, v[i].id, board, v[i].feedback))
}

/// The board and its channels, for the PWM servo or the DC motor board.
pub open spec fn output_part(
    s: DeviceSnapshot,
    kind: Output,
    board_name: Seq<char>,
    board_address: Seq<char>,
    configured: bool,
    channels: Seq<ChannelLink>,
    age_ms: Option<u64>,
) -> Seq<DeviceView> {
    let fresh = fresh_spec(s.report_age_ms);
    let bus = peripheral_bus(s);
    let board = if configured || age_ms is Some {
        seq![board_view(board_name, board_address, fresh, bus, configured, age_ms, s.setup)]
    } else {
        Seq::empty()
    };
    let health = peripheral_health_spec(fresh, bus, age_ms, s.setup);
    board + if configured {
        channels_views(kind, channels, health, age_ms, channels.len() as int)
    } else {
        Seq::empty()
    }
}

pub open spec fn sts_part(s: DeviceSnapshot) -> Seq<DeviceView> {
    let fresh = fresh_spec(s.report_age_ms);
    let bus = peripheral_bus(s);
    let configured = sts_configured(s);
    let board = if configured || s.sts_age_ms is Some {
        seq![board_view("STS3215基板"@, "応答 0x321"@, fresh, bus, configured, s.sts_age_ms, s.setup)]
    } else {
        Seq::empty()
    };
    let health = peripheral_health_spec(fresh, bus, s.sts_age_ms, s.setup);
    board + match s.sts_servos {
        Some(v) => servos_views(v@, health, v@.len() as int),
        None => Seq::empty(),
    }
}

/// Every device that the status shows, in order: the motor axes, then the
/// PWM servo board and its servos, the DC motor board and its motors, and
/// the STS3215 board and its servos. A board is shown when the profile names
/// it or when it has ever answered.
pub open spec fn devices_spec(s: DeviceSnapshot) -> Seq<DeviceView> {
    axes_views(s, s.axes@.len() as int) + output_part(
        s,
        Output::PwmServo,
        "PWMサーボ基板"@,
        "応答 0x301"@,
        pwm_configured(s),
        s.pwm_servos@,
        s.pwm_age_ms,
    ) + output_part(
        s,
        Output::DcMotor,
        "DCモータ基板"@,
        "応答 0x311"@,
        dc_configured(s),
        s.dc_motors@,
        s.dc_age_ms,
    ) + sts_part(s)
}

fn push_channels(
    out: &mut Vec<CanDeviceStatus>,
    kind: Output,
    channels: &Vec<ChannelLink>,
    board: CommunicationHealth,
    age_ms: Option<u64>,
)
    ensures
        dviews(final(out)@) == dviews(old(out)@) + channels_views(
            kind,
            channels@,
            board,
            age_ms,
            channels@.len() as int,
        ),
{
    let ghost start = dviews(out@);
    let mut i: usize = 0;
    while i < channels.len()
        invariant
            i <= channels@.len(),
            dviews(out@) == start + channels_views(kind, channels@, board, age_ms, i as int),
        decreases channels@.len() - i,
    {
        let c = &channels[i];
        let d = channel_status(kind, c.name.as_str(), c.channel, board, age_ms);
        let ghost before = out@;
        out.push(d);
        assert(dviews(out@) =~= dviews(before).push(dview(d)));
        assert(channels_views(kind, channels@, board, age_ms, i + 1) =~= channels_views(
            kind,
            channels@,
            board,
            age_ms,
            i as int,
        ).push(channel_view(kind, channels@[i as int].name@, channels@[i as int].channel, board, age_ms)));
        i = i + 1;
    }
}

fn push_output(
    out: &mut Vec<CanDeviceStatus>,
    s: &DeviceSnapshot,
    kind: Output,
    board_name: &str,
    board_address: &str,
    configured: bool,
    channels: &Vec<ChannelLink>,
    age_ms: Option<u64>,
)
    ensures
        dviews(final(out)@) == dviews(old(out)@) + output_part(
            *s,
            kind,
            board_name@,
            board_address@,
            configured,
            channels@,
            age_ms,
        ),
{
    let fresh = fresh(s.report_age_ms);
    let bus = peripheral_bus_exec(s);
    if configured || age_ms.is_some() {
        let d = board_status(board_name, board_address, fresh, bus, configured, age_ms, s.setup);
        let ghost before = out@;
        out.push(d);
        assert(dviews(out@) =~= dviews(before).push(dview(d)));
    }
    let ghost mid = dviews(out@);
    if configured {
        let health = peripheral_health(fresh, bus, age_ms, s.setup);
        push_channels(out, kind, channels, health, age_ms);
    }
    assert(dviews(out@) =~= dviews(old(out)@) + output_part(
        *s,
        kind,
        board_name@,
        board_address@,
        configured,
        channels@,
        age_ms,
    ));
}

fn peripheral_bus_exec(s: &DeviceSnapshot) -> (b: bool)
    ensures
        b == peripheral_bus(*s),
{
    let buses: Option<u8> = match &s.telemetry {
        Some(t) => Some(t.buses),
        None => None,
    };
    fresh(s.report_age_ms) && listed_exec(buses, 2) && !(match s.peripheral_diagnostics {
        Some(v) => !v.started || v.bus_off,
        None => false,
    })
}

/// The status of every device on the two CAN buses, as `devices_spec` lists them.
pub fn device_statuses(s: &DeviceSnapshot) -> (v: Vec<CanDeviceStatus>)
    requires
        snapshot_wf(*s),
    ensures
        dviews(v@) == devices_spec(*s),
{
    let mut out: Vec<CanDeviceStatus> = Vec::new();
    let mut i: usize = 0;
    while i < s.axes.len()
        invariant
            snapshot_wf(*s),
            i <= s.axes@.len(),
            dviews(out@) == axes_views(*s, i as int),
        decreases s.axes@.len() - i,
    {
        let d = axis_status(s, &s.axes[i]);
        let ghost before = out@;
        out.push(d);
        assert(dviews(out@) =~= dviews(before).push(dview(d)));
        assert(axes_views(*s, i + 1) =~= axes_views(*s, i as int).push(axis_view(*s, s.axes@[i as int])));
        i = i + 1;
    }
    let pwm = s.pwm_servos.len() > 0 || s.pwm_parameters;
    push_output(&mut out, s, Output::PwmServo, "PWMサーボ基板", "応答 0x301", pwm, &s.pwm_servos, s.pwm_age_ms);
    let dc = s.dc_motors.len() > 0 || s.dc_parameters;
    push_output(&mut out, s, Output::DcMotor, "DCモータ基板", "応答 0x311", dc, &s.dc_motors, s.dc_age_ms);
    let fresh = fresh(s.report_age_ms);
    let bus = peripheral_bus_exec(s);
    let sts = s.sts_servos.is_some() || s.sts_parameters;
    if sts || s.sts_age_ms.is_some() {
        let d = board_status("STS3215基板", "応答 0x321", fresh, bus, sts, s.sts_age_ms, s.setup);
        let ghost before = out@;
        out.push(d);
        assert(dviews(out@) =~= dviews(before).push(dview(d)));
    }
    let ghost mid = dviews(out@);
    match &s.sts_servos {
        Some(servos) => {
            let health = peripheral_health(fresh, bus, s.sts_age_ms, s.setup);
            let mut j: usize = 0;
            while j < servos.len()
                invariant
                    j <= servos@.len(),
                    health == peripheral_health_spec(fresh, bus, s.sts_age_ms, s.setup),
                    dviews(out@) == mid + servos_views(servos@, health, j as int),
                decreases servos@.len() - j,
            {
                let sv = &servos[j];
                let d = servo_status(sv.name.as_str(), sv.id, health, &sv.feedback);
                let ghost before = out@;
                out.push(d);
                assert(dviews(out@) =~= dviews(before).push(dview(d)));
                assert(servos_views(servos@, health, j + 1) =~= servos_views(servos@, health, j as int).push(
                    servo_view(servos@[j as int].name@, servos@[j as int].id, health, servos@[j as int].feedback),
                ));
                j = j + 1;
            }
        },
        None => {},
    }
    assert(dviews(out@) =~= devices_spec(*s));
    out
}

/// While the machine report is stale, no bus and no device is shown as
/// healthy or faulty: everything is unknown.
pub proof fn lemma_stale_report_shows_unknown(s: DeviceSnapshot)
    requires
        !fresh_spec(s.report_age_ms),
    ensures
        forall|i: int| 0 <= i < devices_spec(s).len() ==> #[trigger] devices_spec(s)[i].health == CommunicationHealth::Unknown,
        forall|available: bool, d: Option<Diagnostics>| #[trigger] bus_health_spec(false, available, d) == CommunicationHealth::Unknown,
{
    let axes = axes_views(s, s.axes@.len() as int);
    let pwm = output_part(s, Output::PwmServo, "PWMサーボ基板"@, "応答 0x301"@, pwm_configured(s), s.pwm_servos@, s.pwm_age_ms);
    let dc = output_part(s, Output::DcMotor, "DCモータ基板"@, "応答 0x311"@, dc_configured(s), s.dc_motors@, s.dc_age_ms);
    let sts = sts_part(s);
    assert(forall|i: int| 0 <= i < axes.len() ==> #[trigger] axes[i].health == CommunicationHealth::Unknown);
    assert(forall|i: int| 0 <= i < pwm.len() ==> #[trigger] pwm[i].health == CommunicationHealth::Unknown);
    assert(forall|i: int| 0 <= i < dc.len() ==> #[trigger] dc[i].health == CommunicationHealth::Unknown);
    assert(forall|i: int| 0 <= i < sts.len() ==> #[trigger] sts[i].health == CommunicationHealth::Unknown);
    let all = axes + pwm + dc + sts;
    assert(devices_spec(s) == all);
    assert forall|i: int| 0 <= i < all.len() implies #[trigger] all[i].health == CommunicationHealth::Unknown by {
        if i < axes.len() {
            assert(all[i] == axes[i]);
        } else if i < axes.len() + pwm.len() {
            assert(all[i] == pwm[i - axes.len()]);
        } else if i < axes.len() + pwm.len() + dc.len() {
            assert(all[i] == dc[i - axes.len() - pwm.len()]);
        } else {
            assert(all[i] == sts[i - axes.len() - pwm.len() - dc.len()]);
        }
    }
}

/// The output channels of the PWM servo and DC motor boards are never shown
/// as healthy: the boards do not report on the servo or motor itself.
pub proof fn lemma_channels_never_healthy(
    kind: Output,
    name: Seq<char>,
    channel: u8,
    board: CommunicationHealth,
    age_ms: Option<u64>,
)
    ensures
        channel_view(kind, name, channel, board, age_ms).health != CommunicationHealth::Healthy,
{
}

/// A controller that is not started or is bus-off is a fault of its bus, and
/// while FDCAN1's controller is down every motor axis is a fault.
pub proof fn lemma_controller_down_is_fault(s: DeviceSnapshot, a: AxisLink, available: bool, d: Option<Diagnostics>)
    requires
        fresh_spec(s.report_age_ms),
        controller_down(s.motor_diagnostics),
        controller_down(d),
    ensures
        bus_health_spec(true, available, d) == CommunicationHealth::Fault,
        axis_view(s, a).health == CommunicationHealth::Fault,
{
}

/// The least time between two state requests to the bus servos, in milliseconds.
pub const POLL_INTERVAL_MS: u64 = 250;

/// What decides whether the worker asks a bus servo for its state.
#[derive(Clone, Copy, Debug)]
pub struct PollState {
    pub report_age_ms: Option<u64>,
    /// The bus list of the last machine report.
    pub buses: Option<u8>,
    /// A servo command waits for its answer.
    pub sts_busy: bool,
    /// A servo motion is being followed.
    pub sts_active: bool,
    /// An individual test output is on.
    pub test_active: bool,
    /// The end effector has targets to reach.
    pub ee_targets: bool,
    /// Age of the STS3215 board's last state answer.
    pub sts_age_ms: Option<u64>,
    /// Age of the last state request to a servo.
    pub last_poll_age_ms: Option<u64>,
}

pub open spec fn poll_due(p: PollState, servos: nat) -> bool {
    &&& servos > 0
    &&& fresh_spec(p.report_age_ms)
    &&& !p.sts_busy && !p.sts_active && !p.test_active && !p.ee_targets
    &&& listed(p.buses, 2)
    &&& recent(p.sts_age_ms)
    &&& !(p.last_poll_age_ms matches Some(age) && age < POLL_INTERVAL_MS)
}

/// Which bus servo to ask for its state now, taking them in turn: the ID and
/// the turn after it, or `None` while the bus is busy, the board silent or
/// the last request recent.
pub fn servo_to_poll(ids: &Vec<u8>, p: PollState, turn: usize) -> (r: Option<(u8, usize)>)
    ensures
        r == (if poll_due(p, ids@.len()) {
            Some(
                (
                    ids@[(turn as int) % (ids@.len() as int)],
                    (((turn as int) + 1) % (ids@.len() as int)) as usize,
                ),
            )
        } else {
            None
        }),
{
    if ids.len() == 0 || !fresh(p.report_age_ms) || p.sts_busy || p.sts_active || p.test_active
        || p.ee_targets || !listed_exec(p.buses, 2) || !(match p.sts_age_ms {
        Some(age) => age < RECENT_MS,
        None => false,
    }) || (match p.last_poll_age_ms {
        Some(age) => age < POLL_INTERVAL_MS,
        None => false,
    }) {
        return None;
    }
    let n = ids.len();
    let at = turn % n;
    let next = if at + 1 == n {
        0
    } else {
        at + 1
    };
    proof {
        let t = turn as int;
        let m = n as int;
        vstd::arithmetic::div_mod::lemma_add_mod_noop(t, 1, m);
        vstd::arithmetic::div_mod::lemma_mod_bound(t, m);
        if m == 1 {
            assert(1int % 1int == 0) by (nonlinear_arith);
            assert(((t % m) + 1int % m) % m == 0) by (nonlinear_arith)
                requires m == 1;
        } else {
            vstd::arithmetic::div_mod::lemma_small_mod(1, m as nat);
            if at + 1 == n {
                vstd::arithmetic::div_mod::lemma_mod_self_0(m);
            } else {
                vstd::arithmetic::div_mod::lemma_small_mod((at + 1) as nat, m as nat);
            }
        }
        assert((t + 1) % m == next as int);
    }
    Some((ids[at], next))
}

/// A bus servo is shown healthy exactly when its board answers and the servo
/// itself answered recently without error bits; a recent answer that carries
/// error bits shows it as a fault while its board answers, and never healthy.
pub proof fn lemma_servo_health(
    name: Seq<char>,
    id: u8,
    board: CommunicationHealth,
    feedback: Option<Feedback>,
)
    ensures
        servo_view(name, id, board, feedback).health == CommunicationHealth::Healthy <==> (board
            == CommunicationHealth::Healthy && (feedback matches Some(f) && f.age_ms < RECENT_MS
            && f.error == 0)),
        feedback matches Some(f) ==> ((f.age_ms < RECENT_MS && f.error != 0) ==> (servo_view(
            name,
            id,
            board,
            feedback,
        ).health != CommunicationHealth::Healthy && (board == CommunicationHealth::Healthy
            ==> servo_view(name, id, board, feedback).health == CommunicationHealth::Fault))),
{
}

/// In the device list, the bus servos come last, one entry per servo in
/// order; a servo whose recent answer carries error bits is never shown
/// healthy, and one is shown healthy only after a recent answer without them.
pub proof fn lemma_listed_servo_health(s: DeviceSnapshot, j: int)
    requires
        s.sts_servos is Some,
        0 <= j < s.sts_servos->0@.len(),
    ensures
        ({
            let v = s.sts_servos->0@;
            let list = devices_spec(s);
            let e = list[list.len() - v.len() + j];
            &&& list.len() >= v.len()
            &&& e.address == "servo ID "@ + dec(v[j].id as nat)
            &&& (e.health == CommunicationHealth::Healthy ==> ((v[j].feedback matches Some(f)
                && f.age_ms < RECENT_MS && f.error == 0)))
            &&& (v[j].feedback matches Some(f) ==> ((f.age_ms < RECENT_MS && f.error != 0)
                ==> e.health != CommunicationHealth::Healthy))
        }),
{
    let v = s.sts_servos->0@;
    let fresh = fresh_spec(s.report_age_ms);
    let bus = peripheral_bus(s);
    let health = peripheral_health_spec(fresh, bus, s.sts_age_ms, s.setup);
    let sv = servos_views(v, health, v.len() as int);
    let pre = axes_views(s, s.axes@.len() as int) + output_part(
        s,
        Output::PwmServo,
        "PWMサーボ基板"@,
        "応答 0x301"@,
        pwm_configured(s),
        s.pwm_servos@,
        s.pwm_age_ms,
    ) + output_part(
        s,
        Output::DcMotor,
        "DCモータ基板"@,
        "応答 0x311"@,
        dc_configured(s),
        s.dc_motors@,
        s.dc_age_ms,
    );
    let bd = if sts_configured(s) || s.sts_age_ms is Some {
        seq![board_view("STS3215基板"@, "応答 0x321"@, fresh, bus, sts_configured(s), s.sts_age_ms, s.setup)]
    } else {
        Seq::empty()
    };
    assert(sts_part(s) == bd + sv);
    let list = devices_spec(s);
    assert(list == (pre + bd) + sv);
    assert(list[list.len() - v.len() + j] == sv[j]);
    lemma_servo_health(v[j].name@, v[j].id, health, v[j].feedback);
}

} // verus!
