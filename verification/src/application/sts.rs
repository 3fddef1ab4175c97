//! Requests shared by the GUI and the API for managing STS servos, and the
//! encoding of the extended CAN operations of the serial servo board.
use vstd::prelude::*;
use vstd::string::*;
use crate::text::{hex2, parse_payload, payload_bytes, push_hex2, chars_of, tail};

verus! {

/// One servo's target.
#[derive(Clone, Copy, Debug, PartialEq, Eq, Structural)]
pub struct Target {
    pub id: u8,
    /// 0: position, 1: wheel speed, 3: relative steps.
    pub mode: u8,
    pub value: i16,
    pub speed: u16,
    pub acceleration: u8,
}

impl Default for Target {
    fn default() -> (t: Self)
        ensures
            t == (Target { id: 1, mode: 0, value: 2048, speed: 100, acceleration: 20 }),
    {
        Target { id: 1, mode: 0, value: 2048, speed: 100, acceleration: 20 }
    }
}

/// One step of a servo sequence: targets, then a wait.
#[derive(Clone, Debug)]
pub struct Step {
    pub wait_ms: u32,
    pub targets: Vec<Target>,
}

/// A servo management operation.
#[derive(Clone, Debug)]
pub enum Operation {
    Scan { first: u8, last: u8 },
    Read { id: u8, address: u8, width: u8 },
    Configure { id: u8, address: u8, width: u8, value: u16, single_servo: bool },
    Monitor { ids: Vec<u8> },
    Move { targets: Vec<Target> },
    Sequence { steps: Vec<Step> },
    Renew,
}

/// Why a set of targets is refused.
#[derive(Clone, Copy, Debug, PartialEq, Eq, Structural)]
pub enum TargetError {
    /// Not between one and sixteen targets.
    Count,
    /// An ID outside 1..=253, or one given twice.
    Id,
    /// Speed above 1000 or acceleration above 254.
    Motion,
    /// A value outside the range of its mode, or an unknown mode.
    Value,
}

/// The text of each refusal.
pub open spec fn target_error_message(e: TargetError) -> Seq<char> {
    match e {
        TargetError::Count => "同時指令は1〜16台です"@,
        TargetError::Id => "IDは1〜253、重複不可です"@,
        TargetError::Motion => "速度・加速度が範囲外です"@,
        TargetError::Value => "位置・速度・相対ステップの値またはモードが不正です"@,
    }
}

impl TargetError {
    /// The message shown to the operator.
    pub fn message(self) -> (text: String)
        ensures
            text@ == target_error_message(self),
    {
        match self {
            TargetError::Count => String::from_str("同時指令は1〜16台です"),
            TargetError::Id => String::from_str("IDは1〜253、重複不可です"),
            TargetError::Motion => String::from_str("速度・加速度が範囲外です"),
            TargetError::Value => String::from_str("位置・速度・相対ステップの値またはモードが不正です"),
        }
    }
}

/// Whether a target's value fits its mode.
pub open spec fn value_fits(t: Target) -> bool {
    if t.mode == 0 || t.mode == 3 {
        -28672 <= t.value <= 28672
    } else if t.mode == 1 {
        -1000 <= t.value <= 1000
    } else {
        false
    }
}

/// What is wrong with the `i`-th target, given the targets before it.
pub open spec fn target_fault(ts: Seq<Target>, i: int) -> Option<TargetError> {
    let t = ts[i];
    if !(1 <= t.id <= 253 && forall|j: int| 0 <= j < i ==> #[trigger] ts[j].id != t.id) {
        Some(TargetError::Id)
    } else if !(t.acceleration <= 254 && t.speed <= 1000) {
        Some(TargetError::Motion)
    } else if !value_fits(t) {
        Some(TargetError::Value)
    } else {
        None
    }
}

/// The first fault among the first `n` targets.
pub open spec fn first_fault(ts: Seq<Target>, n: int) -> Option<TargetError>
    decreases n,
{
    if n <= 0 {
        None
    } else {
        match first_fault(ts, n - 1) {
            Some(e) => Some(e),
            None => target_fault(ts, n - 1),
        }
    }
}

proof fn lemma_first_fault_stable(ts: Seq<Target>, n: int, m: int)
    requires
        0 <= n <= m,
        first_fault(ts, n) is Some,
    ensures
        first_fault(ts, m) == first_fault(ts, n),
    decreases m - n,
{
    if m > n {
        lemma_first_fault_stable(ts, n, m - 1);
    }
}

/// Whether a set of simultaneous targets is acceptable, and if not, why.
pub open spec fn validate_targets_spec(ts: Seq<Target>) -> Result<(), TargetError> {
    if ts.len() == 0 || ts.len() > 16 {
        Err(TargetError::Count)
    } else {
        match first_fault(ts, ts.len() as int) {
            Some(e) => Err(e),
            None => Ok(()),
        }
    }
}

/// Checks a set of simultaneous targets: one to sixteen, distinct IDs in
/// 1..=253, bounded speed and acceleration, and a value that fits the mode.
pub fn validate_targets(targets: &[Target]) -> (r: Result<(), TargetError>)
    ensures
        r == validate_targets_spec(targets@),
{
    if targets.len() == 0 || targets.len() > 16 {
        return Err(TargetError::Count);
    }
    let mut i: usize = 0;
    while i < targets.len()
        invariant
            i <= targets@.len(),
            0 < targets@.len() <= 16,
            first_fault(targets@, i as int).is_none(),
        decreases targets@.len() - i,
    {
        let t = targets[i];
        let mut fresh = 1 <= t.id && t.id <= 253;
        let mut j: usize = 0;
        while j < i && fresh
            invariant
                j <= i < targets@.len(),
                t == targets@[i as int],
                fresh ==> 1 <= t.id <= 253 && forall|m: int| 0 <= m < j ==> #[trigger] targets@[m].id != t.id,
                !fresh ==> !(1 <= t.id <= 253 && forall|m: int| 0 <= m < i ==> #[trigger] targets@[m].id != t.id),
            decreases i - j,
        {
            if targets[j].id == t.id {
                fresh = false;
            }
            j = j + 1;
        }
        if !fresh {
            assert(target_fault(targets@, i as int) == Some(TargetError::Id));
            proof {
                lemma_first_fault_stable(targets@, i + 1, targets@.len() as int);
            }
            return Err(TargetError::Id);
        }
        if !(t.acceleration <= 254 && t.speed <= 1000) {
            assert(target_fault(targets@, i as int) == Some(TargetError::Motion));
            proof {
                lemma_first_fault_stable(targets@, i + 1, targets@.len() as int);
            }
            return Err(TargetError::Motion);
        }
        let fits = if t.mode == 0 || t.mode == 3 {
            -28672 <= t.value && t.value <= 28672
        } else if t.mode == 1 {
            -1000 <= t.value && t.value <= 1000
        } else {
            false
        };
        if !fits {
            proof {
                lemma_first_fault_stable(targets@, i + 1, targets@.len() as int);
            }
            return Err(TargetError::Value);
        }
        i = i + 1;
    }
    Ok(())
}

/// Sign-magnitude encoding of a 16-bit value: the magnitude with bit 15 set when negative.
pub open spec fn signed_spec(v: i16) -> u16 {
    if v < 0 {
        if v == -32768 {
            0x8000u16
        } else {
            (0x8000 + (-v)) as u16
        }
    } else {
        v as u16
    }
}

/// Sign-magnitude encoding of a 16-bit value.
pub fn signed(value: i16) -> (r: u16)
    ensures
        r == signed_spec(value),
{
    if value < 0 {
        if value == -32768 {
            0x8000
        } else {
            0x8000 + ((-value) as u16)
        }
    } else {
        value as u16
    }
}

pub open spec fn pow2(n: nat) -> nat
    decreases n,
{
    if n == 0 {
        1
    } else {
        2 * pow2((n - 1) as nat)
    }
}

/// Sign-magnitude decoding: the low `bit` bits are the magnitude, bit `bit` the sign.
pub open spec fn decode_signed_spec(value: u16, bit: u8) -> int {
    let p = pow2(bit as nat);
    let magnitude = (value as nat % p) as int;
    if (value as nat / p) % 2 == 1 {
        -magnitude
    } else {
        magnitude
    }
}

proof fn lemma_pow2_bound(n: nat)
    requires
        n <= 15,
    ensures
        1 <= pow2(n) <= 32768,
{
    lemma_pow2_pos(n);
    lemma_pow2_mono(n, 15);
    assert(pow2(15) == 32768) by {
        reveal_with_fuel(pow2, 16);
    }
}

proof fn lemma_pow2_pos(n: nat)
    ensures
        pow2(n) >= 1,
    decreases n,
{
    if n > 0 {
        lemma_pow2_pos((n - 1) as nat);
    }
}

proof fn lemma_pow2_mono(a: nat, b: nat)
    requires
        a <= b,
    ensures
        pow2(a) <= pow2(b),
    decreases b,
{
    if a < b {
        lemma_pow2_mono(a, (b - 1) as nat);
    }
}

/// Decodes a sign-magnitude value whose sign is bit `bit`.
pub fn decode_signed(value: u16, bit: u8) -> (r: i32)
    requires
        bit < 16,
    ensures
        r == decode_signed_spec(value, bit),
{
    let mut p: u32 = 1;
    let mut k: u8 = 0;
    while k < bit
        invariant
            k <= bit < 16,
            p == pow2(k as nat),
            1 <= p <= 32768,
        decreases bit - k,
    {
        proof {
            lemma_pow2_bound((k + 1) as nat);
        }
        p = p * 2;
        k = k + 1;
    }
    let magnitude = ((value as u32) % p) as i32;
    if ((value as u32) / p) % 2 == 1 {
        -magnitude
    } else {
        magnitude
    }
}

/// Sign-magnitude encoding round-trips: decoding with the sign in bit 15 gives
/// the value back, for every value whose magnitude fits in 15 bits.
pub proof fn lemma_signed_round_trip(v: i16)
    requires
        v != -32768,
    ensures
        decode_signed_spec(signed_spec(v), 15) == v,
{
    assert(pow2(15) == 32768) by {
        reveal_with_fuel(pow2, 16);
    }
}

/// The gateway line for a frame to the serial servo board.
pub open spec fn line_spec(data: Seq<u8>) -> Seq<char> {
    "CAN 2 800 "@ + hex_all(data)
}

/// Upper-case hexadecimal digits of all bytes.
pub open spec fn hex_all(data: Seq<u8>) -> Seq<char>
    decreases data.len(),
{
    if data.len() == 0 {
        seq![]
    } else {
        hex_all(data.drop_last()) + hex2(data.last())
    }
}

/// The gateway line for a frame to the serial servo board.
pub fn line(data: [u8; 8]) -> (l: String)
    ensures
        l@ == line_spec(data@),
{
    let mut s = String::from_str("CAN 2 800 ");
    let ghost start = s@;
    let mut i: usize = 0;
    while i < 8
        invariant
            i <= 8,
            data@.len() == 8,
            s@ == start + hex_all(data@.take(i as int)),
        decreases 8 - i,
    {
        push_hex2(&mut s, data[i]);
        assert(data@.take(i + 1).drop_last() == data@.take(i as int));
        i = i + 1;
    }
    assert(data@.take(8) == data@);
    s
}

/// The frame of a `CAN_RX bus=2 id=<id> data=<16 hex digits>` line from CAN
/// ID `id`, when it is a version-1 frame.
pub open spec fn frame_spec(text: Seq<char>, id: u16) -> Option<Seq<u8>> {
    let prefix = "CAN_RX bus=2 id="@ + crate::text::dec(id as nat) + " data="@;
    if prefix.len() <= text.len() && text.take(prefix.len() as int) == prefix {
        match payload_bytes(text.skip(prefix.len() as int)) {
            Some(d) => if d[0] == 1 {
                Some(d)
            } else {
                None
            },
            None => None,
        }
    } else {
        None
    }
}

/// The prefix of a received frame from CAN ID `id`.
pub open spec fn frame_prefix(id: u16) -> Seq<char> {
    "CAN_RX bus=2 id="@ + crate::text::dec(id as nat) + " data="@
}

/// A hexadecimal digit, in lower or upper case.
pub open spec fn hex_digit_case(x: nat, lower: bool) -> char {
    if lower && x >= 10 {
        (('a' as nat) + (x - 10)) as char
    } else {
        crate::text::hex_digit(x)
    }
}

/// Bytes written as hexadecimal text, two digits per byte, in either case.
pub open spec fn hex_text(d: Seq<u8>, lower: bool) -> Seq<char> {
    Seq::new(
        2 * d.len(),
        |k: int|
            if k % 2 == 0 {
                hex_digit_case((d[k / 2] / 16) as nat, lower)
            } else {
                hex_digit_case((d[k / 2] % 16) as nat, lower)
            },
    )
}

/// Sixteen hexadecimal digits, where a pair may carry a `+` in place of its
/// first digit (as `u8::from_str_radix` reads a pair).
pub open spec fn hex_payload(p: Seq<char>) -> bool {
    p.len() == 16 && forall|j: int|
        0 <= j < 16 ==> (#[trigger] crate::text::hex_value(p[j]) is Some || (j % 2 == 0 && p[j]
            == '+'))
}

proof fn lemma_hex_digit_value(x: nat, lower: bool)
    requires
        x < 16,
    ensures
        crate::text::hex_value(hex_digit_case(x, lower)) == Some(x),
        (hex_digit_case(x, lower) as u32) < 128,
        hex_digit_case(x, lower) != '+',
{
    assert(x == 0 || x == 1 || x == 2 || x == 3 || x == 4 || x == 5 || x == 6 || x == 7 || x == 8
        || x == 9 || x == 10 || x == 11 || x == 12 || x == 13 || x == 14 || x == 15);
}

proof fn lemma_payload_needs_hex(p: Seq<char>)
    requires
        crate::text::payload_bytes(p) is Some,
    ensures
        hex_payload(p),
{
    assert forall|j: int| 0 <= j < 16 implies (#[trigger] crate::text::hex_value(p[j]) is Some || (
    j % 2 == 0 && p[j] == '+')) by {
        let i = j / 2;
        assert(crate::text::hex_byte(p[2 * i], p[2 * i + 1]) is Some);
        if j % 2 == 0 {
            assert(j == 2 * i);
        } else {
            assert(j == 2 * i + 1);
        }
    }
}

proof fn lemma_payload_of_hex(d: Seq<u8>, lower: bool)
    requires
        d.len() == 8,
    ensures
        crate::text::payload_bytes(hex_text(d, lower)) == Some(d),
{
    let p = hex_text(d, lower);
    assert forall|i: int| 0 <= i < 16 implies (#[trigger] p[i] as u32) < 128 by {
        if i % 2 == 0 {
            lemma_hex_digit_value((d[i / 2] / 16) as nat, lower);
        } else {
            lemma_hex_digit_value((d[i / 2] % 16) as nat, lower);
        }
    }
    assert forall|i: int| 0 <= i < 8 implies #[trigger] crate::text::hex_byte(p[2 * i], p[2 * i + 1])
        == Some(d[i]) by {
        assert((2 * i) % 2 == 0 && (2 * i) / 2 == i);
        assert((2 * i + 1) % 2 == 1 && (2 * i + 1) / 2 == i);
        lemma_hex_digit_value((d[i] / 16) as nat, lower);
        lemma_hex_digit_value((d[i] % 16) as nat, lower);
        assert(d[i] == (d[i] / 16) * 16 + d[i] % 16);
    }
    assert(crate::text::payload_bytes(p)->Some_0 =~= d);
}

proof fn lemma_prefix_differs(id: u16, other: u16, rest: Seq<char>)
    requires
        id != other,
    ensures
        !(frame_prefix(other).len() <= (frame_prefix(id) + rest).len() && (frame_prefix(id)
            + rest).take(frame_prefix(other).len() as int) == frame_prefix(other)),
{
    reveal_strlit("CAN_RX bus=2 id=");
    reveal_strlit(" data=");
    let a = crate::text::dec(id as nat);
    let b = crate::text::dec(other as nat);
    crate::text::lemma_dec_digits(id as nat);
    crate::text::lemma_dec_digits(other as nat);
    let t = frame_prefix(id) + rest;
    let q = frame_prefix(other);
    if q.len() <= t.len() && t.take(q.len() as int) == q {
        let h: int = "CAN_RX bus=2 id="@.len() as int;
        if a.len() == b.len() {
            assert forall|i: int| 0 <= i < a.len() implies a[i] == b[i] by {
                assert(t[h + i] == a[i]);
                assert(q[h + i] == b[i]);
                assert(t.take(q.len() as int)[h + i] == t[h + i]);
            }
            assert(a =~= b);
        } else if a.len() < b.len() {
            let j = (h + a.len()) as int;
            assert(t[j] == ' ');
            assert(q[j] == b[a.len() as int]);
            assert(crate::text::is_digit(b[a.len() as int]));
            assert(t.take(q.len() as int)[j] == t[j]);
        } else {
            let j = (h + b.len()) as int;
            assert(q[j] == ' ');
            assert(t[j] == a[b.len() as int]);
            assert(crate::text::is_digit(a[b.len() as int]));
            assert(t.take(q.len() as int)[j] == t[j]);
        }
    }
}

/// A frame written as the board writes it reads back: the text for ID
/// `id` with eight bytes in hexadecimal, in either case, decodes to those
/// bytes when the first is 1 (else to nothing); for any other ID it decodes
/// to nothing; and a payload that is not sixteen hexadecimal digits decodes
/// to nothing.
pub proof fn lemma_frame_round_trip(
    d: Seq<u8>,
    lower: bool,
    id: u16,
    other: u16,
    payload: Seq<char>,
)
    requires
        d.len() == 8,
        id != other,
    ensures
        frame_spec(frame_prefix(id) + hex_text(d, lower), id) == if d[0] == 1 {
            Some(d)
        } else {
            None::<Seq<u8>>
        },
        frame_spec(frame_prefix(id) + hex_text(d, lower), other) is None,
        !hex_payload(payload) ==> frame_spec(frame_prefix(id) + payload, id) is None,
{
    let t = frame_prefix(id) + hex_text(d, lower);
    assert(t.take(frame_prefix(id).len() as int) =~= frame_prefix(id));
    assert(t.skip(frame_prefix(id).len() as int) =~= hex_text(d, lower));
    lemma_payload_of_hex(d, lower);
    lemma_prefix_differs(id, other, hex_text(d, lower));
    let u = frame_prefix(id) + payload;
    assert(u.take(frame_prefix(id).len() as int) =~= frame_prefix(id));
    assert(u.skip(frame_prefix(id).len() as int) =~= payload);
    if crate::text::payload_bytes(payload) is Some {
        lemma_payload_needs_hex(payload);
    }
}

/// Decodes a received frame from CAN ID `id`.
pub fn frame(text: &str, id: u16) -> (r: Option<[u8; 8]>)
    ensures
        match (r, frame_spec(text@, id)) {
            (Some(a), Some(d)) => a@ == d,
            (None, None) => true,
            _ => false,
        },
{
    let mut prefix = String::from_str("CAN_RX bus=2 id=");
    crate::text::push_dec(&mut prefix, id as u64);
    prefix.append(" data=");
    let chars = chars_of(text);
    let pre = chars_of(prefix.as_str());
    let n = pre.len();
    if !crate::text::starts_with_chars(chars.as_slice(), pre.as_slice()) {
        return None;
    }
    let data = match parse_payload(tail(chars.as_slice(), n).as_slice()) {
        None => {
            return None;
        },
        Some(d) => d,
    };
    if data[0] != 1 {
        return None;
    }
    let mut bytes: [u8; 8] = [0u8; 8];
    let mut i: usize = 0;
    while i < 8
        invariant
            i <= 8,
            data@.len() == 8,
            bytes@.len() == 8,
            forall|m: int| 0 <= m < i ==> bytes@[m] == data@[m],
        decreases 8 - i,
    {
        bytes[i] = data[i];
        i = i + 1;
    }
    assert(bytes@ =~= data@);
    Some(bytes)
}

} // verus!
