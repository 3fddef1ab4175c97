//! Which layer of the gamepad a reading goes to. The stop button comes
//! before everything and, while it is held, nothing else is read; the
//! preparation guide comes next, then the bonus layer, then driving.
use vstd::prelude::*;

verus! {

/// The stop button.
pub const STOP_BUTTON: usize = 5;

/// The button that holds the bonus layer.
pub const BONUS_LAYER_BUTTON: usize = 10;

/// What the stop button asks of one reading of the pad.
#[derive(Clone, Copy, Debug, PartialEq, Eq, Structural)]
pub enum StopButton {
    /// Not pressed: the other layers read the pad.
    Released,
    /// Still held from an earlier reading: the inputs are cleared and
    /// nothing else is read.
    Held,
    /// Just pressed: the inputs are cleared and the machine stops, as an
    /// operator `stop` request when `true` (the preparation guide is on),
    /// directly otherwise.
    Pressed(bool),
}

pub open spec fn stop_button_spec(buttons: Seq<u8>, previous: Seq<u8>, guide_enabled: bool) -> StopButton {
    if buttons[STOP_BUTTON as int] == 0 {
        StopButton::Released
    } else if previous[STOP_BUTTON as int] != 0 {
        StopButton::Held
    } else {
        StopButton::Pressed(guide_enabled)
    }
}

/// What the stop button asks of this reading, whoever holds the right to operate.
pub fn stop_button(buttons: &[u8; 17], previous: &[u8; 17], guide_enabled: bool) -> (r: StopButton)
    ensures
        r == stop_button_spec(buttons@, previous@, guide_enabled),
{
    if buttons[STOP_BUTTON] == 0 {
        StopButton::Released
    } else if previous[STOP_BUTTON] != 0 {
        StopButton::Held
    } else {
        StopButton::Pressed(guide_enabled)
    }
}

/// Whether a reading that neither the stop button nor the guide took goes
/// to the bonus layer: its button is held, the gamepad drives, the
/// preparation does not lock the pad, and the bonus hand is enabled.
pub open spec fn bonus_layer_spec(
    buttons: Seq<u8>,
    screen_control: bool,
    locked: bool,
    bonus_enabled: bool,
) -> bool {
    !screen_control && !locked && buttons[BONUS_LAYER_BUTTON as int] != 0 && bonus_enabled
}

pub fn bonus_layer(buttons: &[u8; 17], screen_control: bool, locked: bool, bonus_enabled: bool) -> (b:
    bool)
    ensures
        b == bonus_layer_spec(buttons@, screen_control, locked, bonus_enabled),
{
    !screen_control && !locked && buttons[BONUS_LAYER_BUTTON] != 0 && bonus_enabled
}

} // verus!
