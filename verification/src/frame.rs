//! Generic slot commands for the cctl board.
use vstd::prelude::*;
use vstd::string::*;
use crate::text::{dec, push_dec};

verus! {

/// A state or slot command for cctl; `slots` is a bit mask of slots.
#[derive(Clone, Copy, Debug, PartialEq, Eq, Structural)]
pub enum Command {
    Stop,
    Run,
    Safe,
    Home { slots: u8 },
    Enable { slots: u8, enabled: bool },
}

/// The protocol line of a command.
pub open spec fn command_line(c: Command) -> Seq<char> {
    match c {
        Command::Stop => "STOP"@,
        Command::Run => "RUN"@,
        Command::Safe => "SAFE"@,
        Command::Home { slots } => "HOME "@ + dec(slots as nat),
        Command::Enable { slots, enabled } => "ENABLE "@ + dec(slots as nat) + " "@ + dec(
            if enabled { 1nat } else { 0nat },
        ),
    }
}

impl Command {
    /// The line sent to the board for this command.
    pub fn to_line(self) -> (line: String)
        ensures
            line@ == command_line(self),
    {
        match self {
            Command::Stop => String::from_str("STOP"),
            Command::Run => String::from_str("RUN"),
            Command::Safe => String::from_str("SAFE"),
            Command::Home { slots } => {
                let mut s = String::from_str("HOME ");
                push_dec(&mut s, slots as u64);
                s
            },
            Command::Enable { slots, enabled } => {
                let mut s = String::from_str("ENABLE ");
                push_dec(&mut s, slots as u64);
                s.append(" ");
                push_dec(&mut s, if enabled { 1 } else { 0 });
                s
            },
        }
    }
}

} // verus!
