//! The targets and modes of the individual output tests.  Communication and
//! the right to operate belong to the application.
use vstd::prelude::*;
use vstd::string::*;
use crate::application::sts::pow2;
use crate::diagnostics::fw_test::{can, can_line};
use crate::text::views;
use crate::text::{
    chars_eq, chars_of, char_pos, dec, find_char, head, lemma_char_pos, lemma_dec_digits, parse_u8,
    parse_u8_spec, push_dec, tail, IntError, int_error_message, parse_u8_checked, parse_u8_result,
};

verus! {

/// An output under test: a cctl slot, a PWM servo channel, an STS servo or the DC motor.
#[derive(Clone, Copy, Debug, PartialEq, Eq, Structural)]
pub enum Target {
    Cctl(u8),
    Pwm(u8),
    Sts(u8),
    Dc,
}

/// How the output is driven.
#[derive(Clone, Copy, Debug, PartialEq, Eq, Structural)]
pub enum Kind {
    Position,
    Velocity,
    Duty,
}

/// Why a test target or mode is refused.
#[derive(Clone, Copy, Debug, PartialEq, Eq, Structural)]
pub enum IndividualError {
    /// Not one of the test modes.
    Kind,
    /// No `board:channel` separator.
    Format,
    /// The channel is not a number from 0 to 255, and how.
    InvalidInteger(IntError),
    /// No such board, or no such channel on it.
    Unsupported,
}

/// The text of each refusal.
pub open spec fn individual_error_message(e: IndividualError) -> Seq<char> {
    match e {
        IndividualError::Kind => "テスト方式が不正です"@,
        IndividualError::Format => "基板:チャネルを指定してください"@,
        IndividualError::InvalidInteger(e) => int_error_message(e),
        IndividualError::Unsupported => "未対応の基板・チャネルです"@,
    }
}

impl IndividualError {
    /// The message shown to the operator.
    pub fn message(self) -> (text: String)
        ensures
            text@ == individual_error_message(self),
    {
        match self {
            IndividualError::Kind => String::from_str("テスト方式が不正です"),
            IndividualError::Format => String::from_str("基板:チャネルを指定してください"),
            IndividualError::InvalidInteger(e) => e.message(),
            IndividualError::Unsupported => String::from_str("未対応の基板・チャネルです"),
        }
    }
}

pub open spec fn kind_key(k: Kind) -> Seq<char> {
    match k {
        Kind::Position => "position"@,
        Kind::Velocity => "velocity"@,
        Kind::Duty => "duty"@,
    }
}

pub open spec fn kind_parse_spec(text: Seq<char>) -> Result<Kind, IndividualError> {
    if text == "position"@ {
        Ok(Kind::Position)
    } else if text == "velocity"@ {
        Ok(Kind::Velocity)
    } else if text == "duty"@ {
        Ok(Kind::Duty)
    } else {
        Err(IndividualError::Kind)
    }
}

impl Kind {
    /// The mode named by its key.
    pub fn parse(text: &str) -> (r: Result<Kind, IndividualError>)
        ensures
            r == kind_parse_spec(text@),
    {
        let v = chars_of(text);
        if chars_eq(v.as_slice(), "position") {
            Ok(Kind::Position)
        } else if chars_eq(v.as_slice(), "velocity") {
            Ok(Kind::Velocity)
        } else if chars_eq(v.as_slice(), "duty") {
            Ok(Kind::Duty)
        } else {
            Err(IndividualError::Kind)
        }
    }

    /// The key of the mode.
    pub fn key(self) -> (k: &'static str)
        ensures
            k@ == kind_key(self),
    {
        match self {
            Kind::Position => "position",
            Kind::Velocity => "velocity",
            Kind::Duty => "duty",
        }
    }

    /// Whether the output holds only while the operator keeps it on.
    pub fn momentary(self) -> (b: bool)
        ensures
            b == (self != Kind::Position),
    {
        self != Kind::Position
    }
}

pub open spec fn target_board(t: Target) -> Seq<char> {
    match t {
        Target::Cctl(_) => "cctl"@,
        Target::Pwm(_) => "pwm"@,
        Target::Sts(_) => "sts"@,
        Target::Dc => "dc"@,
    }
}

pub open spec fn target_key(t: Target) -> Seq<char> {
    match t {
        Target::Cctl(id) => "cctl:"@ + dec(id as nat),
        Target::Pwm(id) => "pwm:"@ + dec(id as nat),
        Target::Sts(id) => "sts:"@ + dec(id as nat),
        Target::Dc => "dc:0"@,
    }
}

/// The target named by `board:channel`.
pub open spec fn target_parse_spec(text: Seq<char>) -> Result<Target, IndividualError> {
    let c = char_pos(text, ':');
    if c < 0 {
        Err(IndividualError::Format)
    } else {
        let board = text.take(c);
        match parse_u8_result(text.skip(c + 1)) {
            Err(e) => Err(IndividualError::InvalidInteger(e)),
            Ok(id) => if board == "cctl"@ && id <= 2 {
                Ok(Target::Cctl(id))
            } else if board == "pwm"@ && id <= 3 {
                Ok(Target::Pwm(id))
            } else if board == "sts"@ && 1 <= id <= 253 {
                Ok(Target::Sts(id))
            } else if board == "dc"@ && id == 0 {
                Ok(Target::Dc)
            } else {
                Err(IndividualError::Unsupported)
            },
        }
    }
}

/// The lines that prepare a test output: on cctl, every slot off, then the
/// slot under test on and RUN; the serial servo board goes to its safe state
/// (operation 3 on CAN ID 800); DCMD gets a plain query; PWM needs nothing.
pub open spec fn begin_spec(t: Target) -> Seq<Seq<char>> {
    match t {
        Target::Cctl(id) => seq!["ENABLE 7 0"@, "ENABLE "@ + dec(pow2(id as nat)) + " 1"@, "RUN"@],
        Target::Sts(_) => seq![can_line(800, 3, 0, 0, 0)],
        Target::Dc => seq![can_line(784, 0, 0, 0, 0)],
        Target::Pwm(_) => seq![],
    }
}

/// The periodic line that keeps a test output alive.
pub open spec fn heartbeat_spec(t: Target) -> Seq<char> {
    match t {
        Target::Cctl(_) => "HEARTBEAT"@,
        Target::Pwm(_) => "CAN 2 768 0103000000000000"@,
        Target::Sts(_) => "CAN 2 800 0105000000000000"@,
        Target::Dc => "CAN 2 784 0105000000000000"@,
    }
}

impl Target {
    /// The target named by `board:channel`.
    pub fn parse(text: &str) -> (r: Result<Target, IndividualError>)
        ensures
            r == target_parse_spec(text@),
    {
        let v = chars_of(text);
        let c = match find_char(v.as_slice(), ':') {
            None => {
                return Err(IndividualError::Format);
            },
            Some(c) => c,
        };
        let n = v.len();
        assert(c < n);
        let board = head(v.as_slice(), c);
        let rest = tail(v.as_slice(), c + 1);
        let id = match parse_u8_checked(rest.as_slice()) {
            Err(e) => {
                return Err(IndividualError::InvalidInteger(e));
            },
            Ok(id) => id,
        };
        if chars_eq(board.as_slice(), "cctl") && id <= 2 {
            Ok(Target::Cctl(id))
        } else if chars_eq(board.as_slice(), "pwm") && id <= 3 {
            Ok(Target::Pwm(id))
        } else if chars_eq(board.as_slice(), "sts") && 1 <= id && id <= 253 {
            Ok(Target::Sts(id))
        } else if chars_eq(board.as_slice(), "dc") && id == 0 {
            Ok(Target::Dc)
        } else {
            Err(IndividualError::Unsupported)
        }
    }

    /// The `board:channel` name of the target.
    pub fn key(self) -> (k: String)
        ensures
            k@ == target_key(self),
    {
        match self {
            Target::Cctl(id) => {
                let mut s = String::from_str("cctl:");
                push_dec(&mut s, id as u64);
                s
            },
            Target::Pwm(id) => {
                let mut s = String::from_str("pwm:");
                push_dec(&mut s, id as u64);
                s
            },
            Target::Sts(id) => {
                let mut s = String::from_str("sts:");
                push_dec(&mut s, id as u64);
                s
            },
            Target::Dc => String::from_str("dc:0"),
        }
    }

    /// The board of the target.
    pub fn board(self) -> (b: &'static str)
        ensures
            b@ == target_board(self),
    {
        match self {
            Target::Cctl(_) => "cctl",
            Target::Pwm(_) => "pwm",
            Target::Sts(_) => "sts",
            Target::Dc => "dc",
        }
    }

    /// The lines that prepare the output for a test.
    pub fn begin(self) -> (lines: Vec<String>)
        requires
            self matches Target::Cctl(id) ==> id < 8,
        ensures
            views(lines@) == begin_spec(self),
    {
        let mut lines: Vec<String> = Vec::new();
        match self {
            Target::Cctl(id) => {
                let mut mask: u64 = 1;
                let mut k: u8 = 0;
                while k < id
                    invariant
                        k <= id < 8,
                        mask == pow2(k as nat),
                        mask <= 128,
                    decreases id - k,
                {
                    proof {
                        reveal_with_fuel(pow2, 2);
                        lemma_pow2_small(k as nat);
                    }
                    mask = mask * 2;
                    k = k + 1;
                }
                lines.push(String::from_str("ENABLE 7 0"));
                let mut enable = String::from_str("ENABLE ");
                push_dec(&mut enable, mask);
                enable.append(" 1");
                lines.push(enable);
                lines.push(String::from_str("RUN"));
                proof {
                    reveal_strlit("ENABLE 7 0");
                    reveal_strlit("RUN");
                }
            },
            Target::Sts(_) => {
                lines.push(can(800, 3, 0, 0, 0));
            },
            Target::Dc => {
                lines.push(can(784, 0, 0, 0, 0));
            },
            Target::Pwm(_) => {},
        }
        assert(views(lines@) =~= begin_spec(self));
        lines
    }

    /// The periodic line that keeps the output alive.
    pub fn heartbeat(self) -> (l: &'static str)
        ensures
            l@ == heartbeat_spec(self),
    {
        match self {
            Target::Cctl(_) => "HEARTBEAT",
            Target::Pwm(_) => "CAN 2 768 0103000000000000",
            Target::Sts(_) => "CAN 2 800 0105000000000000",
            Target::Dc => "CAN 2 784 0105000000000000",
        }
    }
}

/// Every mode's key names it again.
pub proof fn lemma_kind_key_round_trip(k: Kind)
    ensures
        kind_parse_spec(kind_key(k)) == Ok::<Kind, IndividualError>(k),
{
    reveal_strlit("position");
    reveal_strlit("velocity");
    reveal_strlit("duty");
    assert("velocity"@[0] != "position"@[0]);
    assert("duty"@.len() != "position"@.len());
    assert("duty"@.len() != "velocity"@.len());
}

/// The outputs that exist: cctl slots 0 to 2, PWM channels 0 to 3, STS servo
/// IDs 1 to 253 and the one DC motor.
pub open spec fn target_exists(t: Target) -> bool {
    match t {
        Target::Cctl(id) => id <= 2,
        Target::Pwm(id) => id <= 3,
        Target::Sts(id) => 1 <= id <= 253,
        Target::Dc => true,
    }
}

proof fn lemma_key_parts(board: Seq<char>, id: u8)
    requires
        forall|j: int| 0 <= j < board.len() ==> board[j] != ':',
    ensures
        ({
            let text = board + ":"@ + dec(id as nat);
            &&& char_pos(text, ':') == board.len()
            &&& text.take(board.len() as int) == board
            &&& text.skip(board.len() as int + 1) == dec(id as nat)
            &&& parse_u8_spec(text.skip(board.len() as int + 1)) == Some(id)
            &&& parse_u8_result(text.skip(board.len() as int + 1)) == Ok::<u8, IntError>(id)
        }),
{
    reveal_strlit(":");
    let text = board + ":"@ + dec(id as nat);
    lemma_char_pos(text, ':');
    assert(text[board.len() as int] == ':');
    assert forall|j: int| 0 <= j < board.len() implies text[j] != ':' by {
        assert(text[j] == board[j]);
    }
    assert(text.take(board.len() as int) =~= board);
    assert(text.skip(board.len() as int + 1) =~= dec(id as nat));
    lemma_dec_digits(id as nat);
    assert(dec(id as nat)[0] != '+');
    crate::text::lemma_parse_u8_result(dec(id as nat));
}

/// The key of every existing output names it again.
pub proof fn lemma_target_key_round_trip(t: Target)
    requires
        target_exists(t),
    ensures
        target_parse_spec(target_key(t)) == Ok::<Target, IndividualError>(t),
{
    reveal_strlit("cctl");
    reveal_strlit("pwm");
    reveal_strlit("sts");
    reveal_strlit("dc");
    reveal_strlit("cctl:");
    reveal_strlit("pwm:");
    reveal_strlit("sts:");
    reveal_strlit("dc:0");
    reveal_strlit(":");
    match t {
        Target::Cctl(id) => {
            lemma_key_parts("cctl"@, id);
            assert("cctl:"@ + dec(id as nat) =~= "cctl"@ + ":"@ + dec(id as nat));
        },
        Target::Pwm(id) => {
            lemma_key_parts("pwm"@, id);
            assert("pwm:"@ + dec(id as nat) =~= "pwm"@ + ":"@ + dec(id as nat));
            assert("pwm"@ != "cctl"@);
        },
        Target::Sts(id) => {
            lemma_key_parts("sts"@, id);
            assert("sts:"@ + dec(id as nat) =~= "sts"@ + ":"@ + dec(id as nat));
            assert("sts"@ != "cctl"@);
            assert("sts"@[0] != "pwm"@[0]);
        },
        Target::Dc => {
            lemma_key_parts("dc"@, 0);
            assert(dec(0) =~= seq!['0']);
            assert("dc:0"@ =~= "dc"@ + ":"@ + dec(0));
            assert("dc"@.len() != "cctl"@.len());
            assert("dc"@.len() != "pwm"@.len());
            assert("dc"@.len() != "sts"@.len());
        },
    }
}

proof fn lemma_pow2_small(k: nat)
    requires
        k < 7,
    ensures
        pow2(k) <= 64,
    decreases k,
{
    reveal_with_fuel(pow2, 8);
}

} // verus!
