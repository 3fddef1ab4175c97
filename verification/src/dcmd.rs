//! DCMD v1: signed duty in permille, through cctl's FDCAN2 gateway.
use vstd::prelude::*;
use vstd::string::*;
use crate::diagnostics::fw_test::{be_i16, can, can_line};
use crate::text::{chars_eq, chars_of, char_pos, find_char, head, parse_payload, payload_bytes, split_words, tail, words};

verus! {

/// The gateway line of a DCMD operation.
pub fn line(op: u8, channel: u8, duty: i16) -> (l: String)
    ensures
        l@ == can_line(784, op, channel, 0, duty),
{
    can(784, op, channel, 0, duty)
}

/// What the profile validation reads from a DC motor.
#[derive(Clone, Copy, Debug)]
pub struct MotorCheck {
    pub channel: u8,
    /// Index of the input axis that drives the motor.
    pub input_axis: usize,
    /// The input sign is +1 or -1.
    pub unit_sign: bool,
    /// Largest duty, in permille.
    pub maximum_duty: u16,
    /// The motor has a name.
    pub named: bool,
}

/// Why a DC motor profile is refused.
#[derive(Clone, Copy, Debug, PartialEq, Eq, Structural)]
pub enum ProfileError {
    /// A channel, an input or a duty limit is out of range, or a channel is used twice.
    Invalid,
}

/// The text of each refusal.
pub open spec fn profile_error_message(e: ProfileError) -> Seq<char> {
    match e {
        ProfileError::Invalid => "DCMDのchannel、入力、Duty上限が不正です"@,
    }
}

impl ProfileError {
    /// The message shown to the operator.
    pub fn message(self) -> (text: String)
        ensures
            text@ == profile_error_message(self),
    {
        String::from_str("DCMDのchannel、入力、Duty上限が不正です")
    }
}

/// One motor's own limits: channel 0 or 1, one of the six input axes, a unit
/// sign, at most 90% duty, and a name.
pub open spec fn motor_ok(m: MotorCheck) -> bool {
    &&& m.channel <= 1
    &&& m.input_axis < 6
    &&& m.unit_sign
    &&& m.maximum_duty <= 900
    &&& m.named
}

/// A profile is accepted when every motor is within its limits and no two
/// motors share a channel.
pub open spec fn profile_ok(ms: Seq<MotorCheck>) -> bool {
    &&& forall|i: int| 0 <= i < ms.len() ==> motor_ok(#[trigger] ms[i])
    &&& forall|i: int, j: int| 0 <= i < j < ms.len() ==> #[trigger] ms[i].channel != #[trigger] ms[j].channel
}

/// Checks the DC motor profile.
pub fn validate(motors: &[MotorCheck]) -> (r: Result<(), ProfileError>)
    ensures
        r is Ok <==> profile_ok(motors@),
{
    let mut used0 = false;
    let mut used1 = false;
    let mut i: usize = 0;
    while i < motors.len()
        invariant
            i <= motors@.len(),
            profile_ok(motors@.take(i as int)),
            used0 <==> exists|k: int| 0 <= k < i && motors@[k].channel == 0,
            used1 <==> exists|k: int| 0 <= k < i && motors@[k].channel == 1,
        decreases motors@.len() - i,
    {
        let m = motors[i];
        let taken = if m.channel == 0 {
            used0
        } else if m.channel == 1 {
            used1
        } else {
            false
        };
        if m.channel > 1 || taken || m.input_axis >= 6 || !m.unit_sign || m.maximum_duty > 900
            || !m.named {
            proof {
                if taken {
                    let k = choose|k: int| 0 <= k < i && motors@[k].channel == m.channel;
                    assert(motors@[k].channel == motors@[i as int].channel);
                } else {
                    assert(!motor_ok(motors@[i as int]));
                }
            }
            return Err(ProfileError::Invalid);
        }
        if m.channel == 0 {
            used0 = true;
        } else {
            used1 = true;
        }
        proof {
            let t = motors@.take(i + 1);
            assert forall|a: int, b: int| 0 <= a < b < t.len() implies #[trigger] t[a].channel
                != #[trigger] t[b].channel by {
                if b == i {
                    assert(t[a] == motors@[a]);
                } else {
                    assert(motors@.take(i as int)[a] == t[a]);
                    assert(motors@.take(i as int)[b] == t[b]);
                }
            }
            assert forall|a: int| 0 <= a < t.len() implies motor_ok(#[trigger] t[a]) by {
                if a < i {
                    assert(motors@.take(i as int)[a] == t[a]);
                }
            }
        }
        i = i + 1;
    }
    assert(motors@.take(motors@.len() as int) == motors@);
    Ok(())
}

/// The status that DCMD reports.
#[derive(Clone, Copy, Debug)]
pub struct Status {
    pub result: u8,
    pub mode: u8,
    pub enabled: u8,
    pub duty: [i16; 2],
}

/// The key of a `key=value` field (the whole field when there is no `=`).
pub open spec fn field_key(f: Seq<char>) -> Seq<char> {
    f.take(char_pos(f, '='))
}

/// The value of a `key=value` field.
pub open spec fn field_value(f: Seq<char>) -> Seq<char> {
    f.skip(char_pos(f, '=') + 1)
}

/// The value of the last field with the given key.
pub open spec fn last_field(fields: Seq<Seq<char>>, key: Seq<char>) -> Option<Seq<char>>
    decreases fields.len(),
{
    if fields.len() == 0 {
        None
    } else if field_key(fields.last()) == key {
        Some(field_value(fields.last()))
    } else {
        last_field(fields.drop_last(), key)
    }
}

/// Every field has the form `key=value`.
pub open spec fn all_fields(fields: Seq<Seq<char>>) -> bool {
    forall|i: int| 0 <= i < fields.len() ==> char_pos(#[trigger] fields[i], '=') >= 0
}

/// The DCMD status in a `CAN_RX bus=2 id=785 data=<16 hex digits>` line.
pub open spec fn parse_status_spec(line: Seq<char>) -> Option<Status> {
    let w = words(line);
    if w.len() == 0 || w[0] != "CAN_RX"@ {
        None
    } else {
        let fields = w.drop_first();
        if !all_fields(fields) || last_field(fields, "bus"@) != Some("2"@) || last_field(
            fields,
            "id"@,
        ) != Some("785"@) {
            None
        } else {
            match last_field(fields, "data"@) {
                None => None,
                Some(data) => match payload_bytes(data) {
                    None => None,
                    Some(b) => if b[0] != 1 || b[1] > 2 || b[2] > 2 || b[3] > 3 {
                        None
                    } else {
                        Some(
                            Status {
                                result: b[1],
                                mode: b[2],
                                enabled: b[3],
                                duty: [be_i16(b[4], b[5]) as i16, be_i16(b[6], b[7]) as i16],
                            },
                        )
                    },
                },
            }
        }
    }
}

fn i16_of(a: u8, b: u8) -> (v: i16)
    ensures
        v == be_i16(a, b),
{
    let u: u32 = (a as u32) * 256 + b as u32;
    if u >= 32768 {
        (u as i32 - 65536) as i16
    } else {
        u as i16
    }
}

/// Parses a DCMD status report.
pub fn parse_status(line: &str) -> (r: Option<Status>)
    ensures
        r == parse_status_spec(line@),
{
    let chars = chars_of(line);
    let w = split_words(chars.as_slice());
    let ghost ws = words(line@);
    assert(w@.map_values(|x: Vec<char>| x@) == ws);
    if w.len() == 0 || !chars_eq(w[0].as_slice(), "CAN_RX") {
        assert(w@.len() > 0 ==> ws[0] == w@[0]@);
        return None;
    }
    assert(ws[0] == w@[0]@);
    let ghost fields = ws.drop_first();
    let mut bus: Option<Vec<char>> = None;
    let mut id: Option<Vec<char>> = None;
    let mut data: Option<Vec<char>> = None;
    let mut i: usize = 1;
    while i < w.len()
        invariant
            1 <= i <= w@.len(),
            ws == w@.map_values(|x: Vec<char>| x@),
            ws == words(line@),
            ws.len() > 0 && ws[0] == "CAN_RX"@,
            fields == ws.drop_first(),
            all_fields(fields.take(i - 1)),
            match bus {
                Some(v) => last_field(fields.take(i - 1), "bus"@) == Some(v@),
                None => last_field(fields.take(i - 1), "bus"@) is None,
            },
            match id {
                Some(v) => last_field(fields.take(i - 1), "id"@) == Some(v@),
                None => last_field(fields.take(i - 1), "id"@) is None,
            },
            match data {
                Some(v) => last_field(fields.take(i - 1), "data"@) == Some(v@),
                None => last_field(fields.take(i - 1), "data"@) is None,
            },
        decreases w@.len() - i,
    {
        let f = &w[i];
        assert(fields[i - 1] == f@);
        assert(fields.take(i as int).drop_last() == fields.take(i - 1));
        assert(fields.take(i as int).last() == f@);
        let eq = match find_char(f.as_slice(), '=') {
            None => {
                assert(char_pos(fields[i - 1], '=') < 0);
                assert(!all_fields(fields));
                return None;
            },
            Some(e) => e,
        };
        let flen = f.len();
        assert(eq < flen);
        let key = head(f.as_slice(), eq);
        proof {
            reveal_strlit("bus");
            reveal_strlit("id");
            reveal_strlit("data");
            assert("bus"@.len() == 3 && "id"@.len() == 2 && "data"@.len() == 4);
            assert("bus"@ != "id"@ && "bus"@ != "data"@ && "id"@ != "data"@);
        }
        assert(key@ == field_key(f@));
        let value = tail(f.as_slice(), eq + 1);
        assert(value@ == field_value(f@));
        if chars_eq(key.as_slice(), "bus") {
            bus = Some(value);
        } else if chars_eq(key.as_slice(), "id") {
            id = Some(value);
        } else if chars_eq(key.as_slice(), "data") {
            data = Some(value);
        }
        i = i + 1;
        assert(all_fields(fields.take(i - 1)));
    }
    assert(fields.take(w@.len() - 1) == fields);
    let ok_bus = match &bus {
        Some(v) => chars_eq(v.as_slice(), "2"),
        None => false,
    };
    let ok_id = match &id {
        Some(v) => chars_eq(v.as_slice(), "785"),
        None => false,
    };
    if !ok_bus || !ok_id {
        return None;
    }
    let payload = match data {
        None => {
            return None;
        },
        Some(v) => v,
    };
    let b = match parse_payload(payload.as_slice()) {
        None => {
            return None;
        },
        Some(b) => b,
    };
    if b[0] != 1 || b[1] > 2 || b[2] > 2 || b[3] > 3 {
        return None;
    }
    Some(
        Status {
            result: b[1],
            mode: b[2],
            enabled: b[3],
            duty: [i16_of(b[4], b[5]), i16_of(b[6], b[7])],
        },
    )
}

} // verus!
