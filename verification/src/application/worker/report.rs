//! What the worker makes of the reports that come in: the C620 scan, a
//! restarted board, whether driving holds, an individual cctl test output,
//! refused commands, and the texts of the peripherals' state.
use vstd::prelude::*;
use vstd::string::*;
use crate::application::worker::DriveState;
use crate::diagnostics::fw_test::has_prefix;
use crate::dcmd::Status;
use crate::text::{
    chars_of, dec, dec_int, parse_u8, parse_u8_spec, push_char, push_dec, push_int,
    split_words, starts_with, words,
};

verus! {

/// The answer mask of a `C620_SCAN mask=<n> ...` line: its first word after
/// the prefix, as a byte.
pub open spec fn c620_scan_spec(line: Seq<char>) -> Option<u8> {
    let prefix = "C620_SCAN mask="@;
    if has_prefix(line, prefix) {
        let w = words(line.skip(prefix.len() as int));
        if w.len() > 0 {
            parse_u8_spec(w[0])
        } else {
            None
        }
    } else {
        None
    }
}

/// Reads a C620 scan line.
pub fn c620_scan(line: &str) -> (r: Option<u8>)
    ensures
        r == c620_scan_spec(line@),
{
    let v = chars_of(line);
    proof {
        reveal_strlit("C620_SCAN mask=");
    }
    if !starts_with(&v, "C620_SCAN mask=") {
        return None;
    }
    let n = "C620_SCAN mask=".unicode_len();
    let rest = crate::text::tail(&v, n);
    let w = split_words(&rest);
    if w.len() == 0 {
        return None;
    }
    assert(w@.map_values(|x: Vec<char>| x@)[0] == w@[0]@);
    parse_u8(w[0].as_slice())
}

/// Whether C620 ID `id` (1 to 8) answered the scan.
pub open spec fn answered(mask: u8, id: nat) -> bool {
    mask & (1u8 << ((id - 1) as u8)) != 0u8
}

/// The IDs up to `k` that answered, joined by ", ".
pub open spec fn ids_upto(mask: u8, k: nat) -> Seq<char>
    decreases k,
{
    if k == 0 {
        Seq::empty()
    } else {
        let before = ids_upto(mask, (k - 1) as nat);
        if answered(mask, k) {
            if before.len() == 0 {
                dec(k)
            } else {
                before + ", "@ + dec(k)
            }
        } else {
            before
        }
    }
}

/// The text shown for a scan: the IDs that answered, or that none did.
pub open spec fn scan_text_spec(mask: u8) -> Seq<char> {
    if ids_upto(mask, 8).len() == 0 {
        "応答なし（直近500ms）"@
    } else {
        ids_upto(mask, 8)
    }
}

/// The text shown for a C620 scan.
pub fn scan_text(mask: u8) -> (t: String)
    ensures
        t@ == scan_text_spec(mask),
{
    let mut t = String::new();
    let mut k: u8 = 1;
    while k <= 8
        invariant
            1 <= k <= 9,
            t@ == ids_upto(mask, (k - 1) as nat),
        decreases 9 - k,
    {
        if mask & (1u8 << (k - 1)) != 0 {
            if t.unicode_len() != 0 {
                t.append(", ");
            }
            push_dec(&mut t, k as u64);
        }
        k = k + 1;
    }
    if t.unicode_len() == 0 {
        return String::from_str("応答なし（直近500ms）");
    }
    t
}

/// Whether the board restarted: its uptime went back by less than half the
/// counter's range (a larger step back is the counter wrapping).
pub open spec fn rebooted_spec(previous: Option<u32>, uptime: u32) -> bool {
    previous matches Some(old) && uptime < old && old - uptime < 0x8000_0000
}

/// Whether the board restarted since the previous report.
pub fn rebooted(previous: Option<u32>, uptime: u32) -> (b: bool)
    ensures
        b == rebooted_spec(previous, uptime),
{
    match previous {
        Some(old) => uptime < old && old - uptime < 0x8000_0000,
        None => false,
    }
}

/// What a report does to driving.
#[derive(Clone, Copy, Debug, PartialEq, Eq, Structural)]
pub enum DriveCheck {
    /// Nothing changes.
    Keep,
    /// The board confirmed RUN with every configured axis enabled.
    Confirmed,
    /// Driving was lost: the board stopped, dropped an axis, or an origin was lost.
    Lost,
}

pub open spec fn drive_check_spec(drive: DriveState, run: bool, enabled_slots: u8, mask: u8, origin_lost: bool) -> DriveCheck {
    if drive == DriveState::Running && (!run || enabled_slots & mask != mask || origin_lost) {
        DriveCheck::Lost
    } else if drive is AwaitingRun && run && enabled_slots & mask == mask {
        DriveCheck::Confirmed
    } else {
        DriveCheck::Keep
    }
}

/// What a report does to driving: `mask` holds the configured axes' slots.
pub fn drive_check(drive: DriveState, run: bool, enabled_slots: u8, mask: u8, origin_lost: bool) -> (c: DriveCheck)
    ensures
        c == drive_check_spec(drive, run, enabled_slots, mask, origin_lost),
{
    if drive.running() && (!run || enabled_slots & mask != mask || origin_lost) {
        DriveCheck::Lost
    } else if drive.awaiting().is_some() && run && enabled_slots & mask == mask {
        DriveCheck::Confirmed
    } else {
        DriveCheck::Keep
    }
}

/// How long an individual cctl output may take to show as enabled, in milliseconds.
pub const CONFIRM_MS: u64 = 500;

/// What a report says of an individual test output on a cctl slot: whether
/// it is now confirmed, and whether the test lost it (not enabled once
/// confirmed or after `CONFIRM_MS`, no feedback, or an error).
pub open spec fn cctl_test_spec(
    slot: u8,
    run: bool,
    enabled_slots: u8,
    stale_slots: u8,
    error: u8,
    confirmed: bool,
    started_age_ms: Option<u64>,
) -> (bool, bool) {
    let enabled = run && enabled_slots & (1u8 << slot) != 0u8;
    let now_confirmed = confirmed || enabled;
    let lost = (!enabled && (now_confirmed || (started_age_ms matches Some(age) && age > CONFIRM_MS)))
        || stale_slots & (1u8 << slot) != 0u8 || error != 0;
    (now_confirmed, lost)
}

/// Checks an individual test output on a cctl slot against a report.
pub fn cctl_test_check(
    slot: u8,
    run: bool,
    enabled_slots: u8,
    stale_slots: u8,
    error: u8,
    confirmed: bool,
    started_age_ms: Option<u64>,
) -> (r: (bool, bool))
    requires
        slot < 8,
    ensures
        r == cctl_test_spec(slot, run, enabled_slots, stale_slots, error, confirmed, started_age_ms),
{
    let bit: u8 = 1u8 << slot;
    let enabled = run && enabled_slots & bit != 0;
    let now_confirmed = confirmed || enabled;
    let late = match started_age_ms {
        Some(age) => age > CONFIRM_MS,
        None => false,
    };
    let lost = (!enabled && (now_confirmed || late)) || stale_slots & bit != 0 || error != 0;
    (now_confirmed, lost)
}

/// Whether a line reports a refused command (`ERR ...`).
pub fn is_refusal(line: &str) -> (b: bool)
    ensures
        b == has_prefix(line@, "ERR "@),
{
    let v = chars_of(line);
    starts_with(&v, "ERR ")
}

/// One binary digit.
pub open spec fn bit_char(b: nat) -> char {
    if b == 0 {
        '0'
    } else {
        '1'
    }
}

/// The binary digits of a number, most significant first (`{:b}`).
pub open spec fn bits(n: nat) -> Seq<char>
    decreases n,
{
    if n < 2 {
        seq![bit_char(n)]
    } else {
        bits(n / 2).push(bit_char(n % 2))
    }
}

/// `{:03b}`: the binary digits padded with zeros to at least three.
pub open spec fn bits3(n: nat) -> Seq<char> {
    if n < 2 {
        "00"@ + bits(n)
    } else if n < 4 {
        "0"@ + bits(n)
    } else {
        bits(n)
    }
}

fn push_bits(s: &mut String, n: u8)
    ensures
        final(s)@ == old(s)@ + bits(n as nat),
    decreases n,
{
    if n >= 2 {
        push_bits(s, n / 2);
    }
    push_char(s, if n % 2 == 1 {
        '1'
    } else {
        '0'
    });
    proof {
        if n >= 2 {
            assert(bits(n as nat) == bits((n / 2) as nat).push(bit_char((n % 2) as nat)));
        }
    }
}

/// The text shown for cctl's three switch inputs (closed is 1).
pub open spec fn contacts_text_spec(contacts: u8) -> Seq<char> {
    "SW1〜SW3（閉=1）="@ + bits3(contacts as nat)
}

/// The text shown for cctl's switch inputs.
pub fn contacts_text(contacts: u8) -> (t: String)
    ensures
        t@ == contacts_text_spec(contacts),
{
    let mut t = String::from_str("SW1〜SW3（閉=1）=");
    if contacts < 2 {
        t.append("00");
    } else if contacts < 4 {
        t.append("0");
    }
    push_bits(&mut t, contacts);
    t
}

/// The text shown for the DC motor board's state.
pub open spec fn dcmd_status_text_spec(s: Status) -> Seq<char> {
    "動作モード="@ + dec(s.mode as nat) + " 出力="@ + dec(s.enabled as nat) + " デューティ="@
        + dec_int(s.duty[0] as int) + " 結果コード="@ + dec(s.result as nat)
}

/// The text shown for the DC motor board's state.
pub fn dcmd_status_text(s: &Status) -> (t: String)
    ensures
        t@ == dcmd_status_text_spec(*s),
{
    let mut t = String::from_str("動作モード=");
    push_dec(&mut t, s.mode as u64);
    t.append(" 出力=");
    push_dec(&mut t, s.enabled as u64);
    t.append(" デューティ=");
    push_int(&mut t, s.duty[0] as i64);
    t.append(" 結果コード=");
    push_dec(&mut t, s.result as u64);
    t
}

/// The text shown for the bonus encoder.
pub open spec fn encoder_text_spec(count: i32, index_count: u32) -> Seq<char> {
    "位置カウント="@ + dec_int(count as int) + " 原点通過回数="@ + dec(index_count as nat)
}

/// The text shown for the bonus encoder: its count and how often it passed its index.
pub fn encoder_text(count: i32, index_count: u32) -> (t: String)
    ensures
        t@ == encoder_text_spec(count, index_count),
{
    let mut t = String::from_str("位置カウント=");
    push_int(&mut t, count as i64);
    t.append(" 原点通過回数=");
    push_dec(&mut t, index_count as u64);
    t
}

pub open spec fn output_word(enabled: bool) -> Seq<char> {
    if enabled {
        "有効"@
    } else {
        "解除"@
    }
}

/// The detail kept for a bus servo's answer.
pub open spec fn servo_detail_spec(position: i32, enabled: bool, error: u8) -> Seq<char> {
    "位置="@ + dec_int(position as int) + "、出力="@ + output_word(enabled) + "、エラー=0x"@
        + crate::text::hex2(error)
}

/// The detail kept for a bus servo's answer: position, output and error bits.
pub fn servo_detail(position: i32, enabled: bool, error: u8) -> (t: String)
    ensures
        t@ == servo_detail_spec(position, enabled, error),
{
    let mut t = String::from_str("位置=");
    push_int(&mut t, position as i64);
    t.append("、出力=");
    t.append(if enabled {
        "有効"
    } else {
        "解除"
    });
    t.append("、エラー=0x");
    crate::text::push_hex2(&mut t, error);
    t
}

/// The text shown for a bus servo in the peripheral list.
pub open spec fn servo_summary_spec(position: i32, enabled: bool, error: u8) -> Seq<char> {
    "位置="@ + dec_int(position as int) + " 出力="@ + output_word(enabled) + " エラーコード="@ + dec(
        error as nat,
    )
}

/// The text shown for a bus servo in the peripheral list.
pub fn servo_summary(position: i32, enabled: bool, error: u8) -> (t: String)
    ensures
        t@ == servo_summary_spec(position, enabled, error),
{
    let mut t = String::from_str("位置=");
    push_int(&mut t, position as i64);
    t.append(" 出力=");
    t.append(if enabled {
        "有効"
    } else {
        "解除"
    });
    t.append(" エラーコード=");
    push_dec(&mut t, error as u64);
    t
}

} // verus!
