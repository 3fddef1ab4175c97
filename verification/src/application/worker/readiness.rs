//! Whether the machine may drive: the capability report, the configuration,
//! the motors' answers and the origins; and the lines that start driving.
use vstd::prelude::*;
use vstd::string::*;
use crate::application::worker::health::{Telemetry, fresh, fresh_spec};
use crate::text::{chars_eq, chars_of, dec, push_dec, views};

verus! {

/// The motor layout that the host drives.
pub open spec fn layout_spec() -> Seq<char> {
    "el05,m3508,m3508"@
}

/// What the board reported of itself when it connected.
pub struct DeviceInfo {
    pub board: String,
    pub protocol: u64,
    pub slots: u8,
    pub jog: bool,
    pub motor_layout: String,
    pub can_buses: Vec<u8>,
}

/// What the readiness check reads from the worker.
pub struct MachineCheck {
    /// The motor slot of each configured axis.
    pub axis_slots: Vec<u8>,
    pub report_age_ms: Option<u64>,
    pub telemetry: Option<Telemetry>,
    /// Every cctl parameter in use is set in the machine profile.
    pub parameters_complete: bool,
    /// The configuration was sent to the board.
    pub setup: bool,
    /// Sending the configuration failed.
    pub setup_error: bool,
    /// The board confirmed every parameter.
    pub settings_ready: bool,
    pub device: Option<DeviceInfo>,
    /// Origin adjustment is on.
    pub adjustment: bool,
    /// Every axis has its origin.
    pub origins_captured: bool,
    /// The profile names boards on the second CAN bus.
    pub needs_can_bus_2: bool,
}

/// Why the machine may not drive.
#[derive(Clone, Copy, Debug, PartialEq, Eq, Structural)]
pub enum ReadyError {
    NoAxes,
    NoAnswer,
    Parameters,
    Unconfirmed,
    AwaitingCapabilities,
    Firmware,
    Motors,
    Origins,
    PeripheralBus,
}

pub open spec fn ready_message(e: ReadyError) -> Seq<char> {
    match e {
        ReadyError::NoAxes => "操縦するcctlの軸を指定してください"@,
        ReadyError::NoAnswer => "機体の応答がありません"@,
        ReadyError::Parameters => "cctlの有効な全パラメータをPCの機体設定で指定してください"@,
        ReadyError::Unconfirmed => "設定の反映が確認できていません"@,
        ReadyError::AwaitingCapabilities => "能力確認待ち"@,
        ReadyError::Firmware => "M3508×2台対応のcctl FWが必要です"@,
        ReadyError::Motors => "モータ応答・異常状態を確認してください"@,
        ReadyError::Origins => "原点を設定するか、「調整 > アーム」で原点位置まで手動移動してください"@,
        ReadyError::PeripheralBus => "周辺基板のCAN接続がありません"@,
    }
}

impl ReadyError {
    /// The message shown to the operator.
    pub fn message(self) -> (text: String)
        ensures
            text@ == ready_message(self),
    {
        match self {
            ReadyError::NoAxes => String::from_str("操縦するcctlの軸を指定してください"),
            ReadyError::NoAnswer => String::from_str("機体の応答がありません"),
            ReadyError::Parameters => String::from_str("cctlの有効な全パラメータをPCの機体設定で指定してください"),
            ReadyError::Unconfirmed => String::from_str("設定の反映が確認できていません"),
            ReadyError::AwaitingCapabilities => String::from_str("能力確認待ち"),
            ReadyError::Firmware => String::from_str("M3508×2台対応のcctl FWが必要です"),
            ReadyError::Motors => String::from_str("モータ応答・異常状態を確認してください"),
            ReadyError::Origins => String::from_str(
                "原点を設定するか、「調整 > アーム」で原点位置まで手動移動してください",
            ),
            ReadyError::PeripheralBus => String::from_str("周辺基板のCAN接続がありません"),
        }
    }
}

/// Whether the board is a cctl of this protocol that drives the host's motor layout.
pub open spec fn firmware_ok(d: DeviceInfo) -> bool {
    &&& d.board@ == "cctl"@
    &&& d.protocol == 1
    &&& d.slots >= 3
    &&& d.jog
    &&& d.motor_layout@ == layout_spec()
}

/// Whether every configured motor answers without an error on a usable FDCAN1.
pub open spec fn motors_ok(t: Telemetry, slots: Seq<u8>) -> bool {
    &&& t.buses & 1u8 != 0
    &&& forall|i: int|
        0 <= i < slots.len() ==> #[trigger] (t.stale_slots & (1u8 << slots[i])) == 0u8
            && t.error_bits@[slots[i] as int] == 0
}

/// What the check needs to read the report: a current report is there, and
/// it covers the slot of every axis.
pub open spec fn check_wf(m: MachineCheck) -> bool {
    &&& forall|i: int| 0 <= i < m.axis_slots@.len() ==> #[trigger] m.axis_slots@[i] < 8
    &&& fresh_spec(m.report_age_ms) ==> (m.telemetry matches Some(t) && forall|i: int|
        0 <= i < m.axis_slots@.len() ==> #[trigger] m.axis_slots@[i] < t.error_bits@.len())
}

/// The first reason that the axes may not drive, in the order checked.
pub open spec fn axes_ready_spec(m: MachineCheck, require_origins: bool) -> Result<(), ReadyError> {
    if m.axis_slots@.len() == 0 {
        Err(ReadyError::NoAxes)
    } else if !fresh_spec(m.report_age_ms) {
        Err(ReadyError::NoAnswer)
    } else if !m.parameters_complete {
        Err(ReadyError::Parameters)
    } else if m.setup_error || !m.setup || !m.settings_ready {
        Err(ReadyError::Unconfirmed)
    } else {
        match m.device {
            None => Err(ReadyError::AwaitingCapabilities),
            Some(d) => if !firmware_ok(d) {
                Err(ReadyError::Firmware)
            } else if !motors_ok(m.telemetry->Some_0, m.axis_slots@) {
                Err(ReadyError::Motors)
            } else if require_origins && !m.adjustment && !m.origins_captured {
                Err(ReadyError::Origins)
            } else {
                Ok(())
            },
        }
    }
}

/// The first reason that the machine may not drive: the axes, then the
/// second CAN bus when the profile needs it.
pub open spec fn ready_spec(m: MachineCheck) -> Result<(), ReadyError> {
    match axes_ready_spec(m, true) {
        Err(e) => Err(e),
        Ok(()) => if m.needs_can_bus_2 && (!m.device->Some_0.can_buses@.contains(2u8)
            || m.telemetry->Some_0.buses & 2u8 == 0) {
            Err(ReadyError::PeripheralBus)
        } else {
            Ok(())
        },
    }
}

fn firmware_exec(d: &DeviceInfo) -> (b: bool)
    ensures
        b == firmware_ok(*d),
{
    let board = chars_of(d.board.as_str());
    let layout = chars_of(d.motor_layout.as_str());
    proof {
        reveal_strlit("el05,m3508,m3508");
    }
    chars_eq(&board, "cctl") && d.protocol == 1 && d.slots >= 3 && d.jog && chars_eq(
        &layout,
        "el05,m3508,m3508",
    )
}

fn motors_exec(t: &Telemetry, slots: &Vec<u8>) -> (b: bool)
    requires
        forall|i: int| 0 <= i < slots@.len() ==> #[trigger] slots@[i] < 8,
        forall|i: int| 0 <= i < slots@.len() ==> #[trigger] slots@[i] < t.error_bits@.len(),
    ensures
        b == motors_ok(*t, slots@),
{
    if t.buses & 1u8 == 0 {
        return false;
    }
    let mut i: usize = 0;
    while i < slots.len()
        invariant
            i <= slots@.len(),
            forall|k: int| 0 <= k < slots@.len() ==> #[trigger] slots@[k] < 8,
            forall|k: int| 0 <= k < slots@.len() ==> #[trigger] slots@[k] < t.error_bits@.len(),
            forall|k: int|
                0 <= k < i ==> #[trigger] (t.stale_slots & (1u8 << slots@[k])) == 0u8
                    && t.error_bits@[slots@[k] as int] == 0,
        decreases slots@.len() - i,
    {
        let slot = slots[i];
        if t.stale_slots & (1u8 << slot) != 0 || t.error_bits[slot as usize] != 0 {
            return false;
        }
        i = i + 1;
    }
    true
}

/// Checks that the axes may drive; `require_origins` also asks for every
/// origin unless the origins are being adjusted.
pub fn axes_ready(m: &MachineCheck, require_origins: bool) -> (r: Result<(), ReadyError>)
    requires
        check_wf(*m),
    ensures
        r == axes_ready_spec(*m, require_origins),
{
    if m.axis_slots.len() == 0 {
        return Err(ReadyError::NoAxes);
    }
    if !fresh(m.report_age_ms) {
        return Err(ReadyError::NoAnswer);
    }
    if !m.parameters_complete {
        return Err(ReadyError::Parameters);
    }
    if m.setup_error || !m.setup || !m.settings_ready {
        return Err(ReadyError::Unconfirmed);
    }
    match &m.device {
        None => Err(ReadyError::AwaitingCapabilities),
        Some(d) => {
            if !firmware_exec(d) {
                return Err(ReadyError::Firmware);
            }
            let t = match &m.telemetry {
                Some(t) => t,
                None => {
                    return Err(ReadyError::Motors);
                },
            };
            if !motors_exec(t, &m.axis_slots) {
                return Err(ReadyError::Motors);
            }
            if require_origins && !m.adjustment && !m.origins_captured {
                return Err(ReadyError::Origins);
            }
            Ok(())
        },
    }
}

fn has_bus_2(buses: &Vec<u8>) -> (b: bool)
    ensures
        b == buses@.contains(2u8),
{
    let mut i: usize = 0;
    while i < buses.len()
        invariant
            i <= buses@.len(),
            forall|k: int| 0 <= k < i ==> buses@[k] != 2u8,
        decreases buses@.len() - i,
    {
        if buses[i] == 2 {
            return true;
        }
        i = i + 1;
    }
    false
}

/// Checks that the machine may drive.
pub fn ready(m: &MachineCheck) -> (r: Result<(), ReadyError>)
    requires
        check_wf(*m),
    ensures
        r == ready_spec(*m),
{
    match axes_ready(m, true) {
        Err(e) => {
            return Err(e);
        },
        Ok(()) => {},
    }
    if m.needs_can_bus_2 {
        let d = match &m.device {
            Some(d) => d,
            None => {
                return Err(ReadyError::AwaitingCapabilities);
            },
        };
        let t = match &m.telemetry {
            Some(t) => t,
            None => {
                return Err(ReadyError::Motors);
            },
        };
        if !has_bus_2(&d.can_buses) || t.buses & 2u8 == 0 {
            return Err(ReadyError::PeripheralBus);
        }
    }
    Ok(())
}

/// Driving starts only when nothing else holds the machine and the machine
/// is ready: no emergency, no homing, no test mode, every motor answering
/// without an error, every origin taken unless they are being adjusted, and
/// the second CAN bus up when the profile needs it.
pub proof fn lemma_start_needs_ready_machine(s: StartCheck, m: MachineCheck)
    requires
        start_spec(s, m) is Ok,
    ensures
        !s.emergency && !s.homing && !s.test_enabled && !s.locked,
        ready_spec(m) is Ok,
        fresh_spec(m.report_age_ms),
        m.device matches Some(d) && firmware_ok(d),
        motors_ok(m.telemetry->Some_0, m.axis_slots@),
        m.origins_captured || m.adjustment,
        m.needs_can_bus_2 ==> m.device->Some_0.can_buses@.contains(2u8),
{
}

/// A motor whose feedback stopped keeps the machine from driving.
pub proof fn lemma_stale_motor_blocks(m: MachineCheck, i: int, require_origins: bool)
    requires
        0 <= i < m.axis_slots@.len(),
        m.telemetry matches Some(t) && (t.stale_slots & (1u8 << m.axis_slots@[i])) != 0u8,
    ensures
        axes_ready_spec(m, require_origins) is Err,
{
    let t = m.telemetry->Some_0;
    assert(!((t.stale_slots & (1u8 << m.axis_slots@[i])) == 0u8 && t.error_bits@[m.axis_slots@[i] as int] == 0));
}

/// What else decides whether driving may start.
#[derive(Clone, Copy, Debug)]
pub struct StartCheck {
    /// The preparation waits for the start or recovers.
    pub locked: bool,
    pub homing: bool,
    /// A servo motion is followed or a servo command waits for its answer.
    pub sts_busy: bool,
    pub emergency: bool,
    pub test_enabled: bool,
    /// Every stick of the input in use is centred.
    pub input_neutral: bool,
    /// An automatic operator holds the right to operate.
    pub ai_active: bool,
    /// A gamepad is connected.
    pub gamepad: bool,
    pub simulate: bool,
    pub screen_control: bool,
}

/// Why driving may not start.
#[derive(Clone, Copy, Debug, PartialEq, Eq, Structural)]
pub enum StartError {
    Waiting,
    Homing,
    Servos,
    Emergency,
    TestMode,
    Machine(ReadyError),
    Sticks,
    Gamepad,
}

pub open spec fn start_message(e: StartError) -> Seq<char> {
    match e {
        StartError::Waiting => "開始待ちです。準備画面で開始または再確認してください"@,
        StartError::Homing => "ホーミングを停止してください"@,
        StartError::Servos => "STS操作を停止してください"@,
        StartError::Emergency => "ソフト緊停中です"@,
        StartError::TestMode => "個別テストモードを終了してください"@,
        StartError::Machine(r) => ready_message(r),
        StartError::Sticks => "スティックを中立に戻してください"@,
        StartError::Gamepad => "DualSenseを接続してください"@,
    }
}

impl StartError {
    /// The message shown to the operator.
    pub fn message(self) -> (text: String)
        ensures
            text@ == start_message(self),
    {
        match self {
            StartError::Waiting => String::from_str("開始待ちです。準備画面で開始または再確認してください"),
            StartError::Homing => String::from_str("ホーミングを停止してください"),
            StartError::Servos => String::from_str("STS操作を停止してください"),
            StartError::Emergency => String::from_str("ソフト緊停中です"),
            StartError::TestMode => String::from_str("個別テストモードを終了してください"),
            StartError::Machine(r) => r.message(),
            StartError::Sticks => String::from_str("スティックを中立に戻してください"),
            StartError::Gamepad => String::from_str("DualSenseを接続してください"),
        }
    }
}

/// The slot bits of the configured axes.
pub open spec fn slot_mask(slots: Seq<u8>) -> u8
    decreases slots.len(),
{
    if slots.len() == 0 {
        0u8
    } else {
        slot_mask(slots.drop_last()) | (1u8 << slots.last())
    }
}

/// The slot bits of the configured axes.
pub fn axes_mask(slots: &Vec<u8>) -> (mask: u8)
    requires
        forall|k: int| 0 <= k < slots@.len() ==> #[trigger] slots@[k] < 8,
    ensures
        mask == slot_mask(slots@),
{
    let mut mask: u8 = 0;
    let mut i: usize = 0;
    while i < slots.len()
        invariant
            i <= slots@.len(),
            forall|k: int| 0 <= k < slots@.len() ==> #[trigger] slots@[k] < 8,
            mask == slot_mask(slots@.take(i as int)),
        decreases slots@.len() - i,
    {
        assert(slots@.take(i + 1).drop_last() =~= slots@.take(i as int));
        mask = mask | (1u8 << slots[i]);
        i = i + 1;
    }
    assert(slots@.take(slots@.len() as int) =~= slots@);
    mask
}


/// The lines that start driving: disable the slots without an axis, enable
/// the configured ones, then RUN.
pub open spec fn start_lines_spec(slots: Seq<u8>) -> Seq<Seq<char>> {
    let mask = slot_mask(slots);
    let excluded = 7u8 & !mask;
    (if excluded != 0 {
        seq!["ENABLE "@ + dec(excluded as nat) + " 0"@]
    } else {
        Seq::empty()
    }) + seq!["ENABLE "@ + dec(mask as nat) + " 1"@, "RUN"@]
}

/// The first reason that driving may not start, in the order checked.
pub open spec fn start_spec(s: StartCheck, m: MachineCheck) -> Result<(), StartError> {
    if s.locked {
        Err(StartError::Waiting)
    } else if s.homing {
        Err(StartError::Homing)
    } else if s.sts_busy {
        Err(StartError::Servos)
    } else if s.emergency {
        Err(StartError::Emergency)
    } else if s.test_enabled {
        Err(StartError::TestMode)
    } else if ready_spec(m) is Err {
        Err(StartError::Machine(ready_spec(m)->Err_0))
    } else if !s.input_neutral {
        Err(StartError::Sticks)
    } else if !s.ai_active && !s.gamepad && !s.simulate && !s.screen_control {
        Err(StartError::Gamepad)
    } else {
        Ok(())
    }
}

/// Decides whether driving starts, and gives the lines that start it. The
/// worker then waits for the board to confirm RUN.
pub fn start(s: StartCheck, m: &MachineCheck) -> (r: Result<Vec<String>, StartError>)
    requires
        check_wf(*m),
    ensures
        match r {
            Ok(lines) => start_spec(s, *m) is Ok && views(lines@) == start_lines_spec(m.axis_slots@),
            Err(e) => start_spec(s, *m) == Err::<(), StartError>(e),
        },
{
    if s.locked {
        return Err(StartError::Waiting);
    }
    if s.homing {
        return Err(StartError::Homing);
    }
    if s.sts_busy {
        return Err(StartError::Servos);
    }
    if s.emergency {
        return Err(StartError::Emergency);
    }
    if s.test_enabled {
        return Err(StartError::TestMode);
    }
    match ready(m) {
        Err(e) => {
            return Err(StartError::Machine(e));
        },
        Ok(()) => {},
    }
    if !s.input_neutral {
        return Err(StartError::Sticks);
    }
    if !s.ai_active && !s.gamepad && !s.simulate && !s.screen_control {
        return Err(StartError::Gamepad);
    }
    let mask = axes_mask(&m.axis_slots);
    let excluded: u8 = 7u8 & !mask;
    let mut lines: Vec<String> = Vec::new();
    if excluded != 0 {
        let mut l = String::from_str("ENABLE ");
        push_dec(&mut l, excluded as u64);
        l.append(" 0");
        lines.push(l);
    }
    let mut l = String::from_str("ENABLE ");
    push_dec(&mut l, mask as u64);
    l.append(" 1");
    lines.push(l);
    lines.push(String::from_str("RUN"));
    assert(views(lines@) =~= start_lines_spec(m.axis_slots@));
    Ok(lines)
}

} // verus!
