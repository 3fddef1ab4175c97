//! The preparation guide on the gamepad: its input is handled before normal
//! driving; a choice is taken on release, a restart after preparation on a long press.
use vstd::prelude::*;
use crate::application::app_state::{Court, PreparationPhase, PreparationStep};

verus! {

/// The situation a guide input belongs to: phase, step, moving, automatic, emergency.
pub type GuideContext = (PreparationPhase, PreparationStep, bool, bool, bool);

/// The number of gamepad buttons.
pub const BUTTONS: usize = 17;

/// The ○ button: restart after preparation.
pub const CIRCLE: usize = 1;

/// How long (ms) ○ is held for a restart.
pub const HOLD_MS: u64 = 1000;

/// What the guide holds.
pub struct GuideView {
    pub enabled: bool,
    pub confirmed: bool,
    pub armed: bool,
    /// The button held down and since when (ms).
    pub pending: Option<(usize, u64)>,
    pub context: Option<GuideContext>,
}

/// The state of the preparation guide's input.
pub struct Guide {
    pub enabled: bool,
    pub confirmed: bool,
    armed: bool,
    pending: Option<(usize, u64)>,
    context: Option<GuideContext>,
}

impl View for Guide {
    type V = GuideView;

    closed spec fn view(&self) -> GuideView {
        GuideView {
            enabled: self.enabled,
            confirmed: self.confirmed,
            armed: self.armed,
            pending: self.pending,
            context: self.context,
        }
    }
}

/// The buttons that make a choice: × (0), ○ (1), □ (2), and left and right (13, 14).
pub open spec fn choice_button(b: int) -> bool {
    b == 0 || b == 1 || b == 2 || b == 13 || b == 14
}

/// The guide's invariant: a pending press is of a choice button.
pub open spec fn guide_wf(g: GuideView) -> bool {
    g.pending matches Some((b, _)) ==> choice_button(b as int)
}

/// The guide with no input in progress.
pub open spec fn cleared(g: GuideView) -> GuideView {
    GuideView { armed: false, pending: None, confirmed: false, context: None, ..g }
}

/// One frame of gamepad input as the guide reads it.
pub struct GuideInput {
    /// Every stick is finite and within the dead zone.
    pub neutral_axes: bool,
    /// The buttons, 1 while held.
    pub buttons: [u8; 17],
}

/// What the worker does after the guide read a frame.
#[derive(Clone, Copy, Debug, PartialEq, Eq, Structural)]
pub struct GuideStep {
    /// The guide used the input; otherwise it drives the machine.
    pub consumed: bool,
    /// The situation changed: the end effector's stick arming is dropped.
    pub disarm_ee: bool,
    /// A choice was spoilt: the cancel tone sounds.
    pub feedback: bool,
    /// The button whose action to take.
    pub action: Option<usize>,
}

/// How many buttons are held.
pub open spec fn held_count(b: Seq<u8>) -> nat
    decreases b.len(),
{
    if b.len() == 0 {
        0
    } else {
        held_count(b.drop_last()) + if b.last() != 0 {
            1nat
        } else {
            0nat
        }
    }
}

/// The first button held, or -1.
pub open spec fn first_held(b: Seq<u8>) -> int
    decreases b.len(),
{
    if b.len() == 0 {
        -1
    } else {
        let p = first_held(b.drop_last());
        if p >= 0 {
            p
        } else if b.last() != 0 {
            b.len() - 1
        } else {
            -1
        }
    }
}

/// No button but `button` is held.
pub open spec fn only_button(b: Seq<u8>, button: int) -> bool {
    forall|i: int| 0 <= i < b.len() && i != button ==> b[i] == 0
}

/// The step of the guide for one frame: the new guide and what the worker does.
/// `blocked`: an automatic operator, a test or servo management owns the
/// gamepad; `hold`: ○ restarts only when held.
pub open spec fn read_spec(
    g: GuideView,
    neutral: bool,
    b: Seq<u8>,
    ctx: GuideContext,
    blocked: bool,
    hold: bool,
    now: u64,
) -> (GuideView, GuideStep) {
    let pass = GuideStep { consumed: false, disarm_ee: false, feedback: false, action: None };
    let take = GuideStep { consumed: true, ..pass };
    if !g.enabled {
        (cleared(g), pass)
    } else if blocked {
        (cleared(g), take)
    } else {
        let changed = g.context != Some(ctx);
        let g1 = if changed {
            GuideView { context: Some(ctx), ..cleared(g) }
        } else {
            g
        };
        let pass1 = GuideStep { disarm_ee: changed, ..pass };
        let take1 = GuideStep { disarm_ee: changed, ..take };
        let moving = ctx.2;
        let automatic = ctx.3;
        if !g1.armed {
            (GuideView { armed: neutral && held_count(b) == 0, ..g1 }, take1)
        } else if moving && !automatic {
            (g1, pass1)
        } else if automatic && b[CIRCLE as int] == 0 && !(g1.pending matches Some((p, _)) && p
            == CIRCLE) {
            (g1, take1)
        } else {
            match g1.pending {
                Some((button, since)) => if !(neutral && only_button(b, button as int)) {
                    (cleared(g1), GuideStep { feedback: true, ..take1 })
                } else if button == CIRCLE && hold {
                    if b[CIRCLE as int] == 0 {
                        (cleared(g1), take1)
                    } else if now >= since + HOLD_MS {
                        (cleared(g1), GuideStep { action: Some(CIRCLE), ..take1 })
                    } else {
                        (g1, take1)
                    }
                } else if b[button as int] != 0 {
                    (g1, take1)
                } else {
                    (cleared(g1), GuideStep { action: Some(button), ..take1 })
                },
                None => if !neutral {
                    (cleared(g1), take1)
                } else if held_count(b) == 1 && choice_button(first_held(b)) {
                    (
                        GuideView {
                            pending: Some((first_held(b) as usize, now)),
                            confirmed: !(first_held(b) == CIRCLE && hold),
                            ..g1
                        },
                        take1,
                    )
                } else if held_count(b) != 0 {
                    (cleared(g1), take1)
                } else {
                    (g1, take1)
                },
            }
        }
    }
}

impl Default for Guide {
    fn default() -> (g: Self)
        ensures
            g@ == (GuideView {
                enabled: true,
                confirmed: false,
                armed: false,
                pending: None,
                context: None,
            }),
    {
        Guide { enabled: true, confirmed: false, armed: false, pending: None, context: None }
    }
}

proof fn lemma_held(b: Seq<u8>)
    ensures
        held_count(b) == 0 <==> forall|i: int| 0 <= i < b.len() ==> b[i] == 0,
        -1 <= first_held(b) < b.len(),
        first_held(b) >= 0 ==> b[first_held(b)] != 0,
        forall|i: int| 0 <= i < b.len() && (first_held(b) < 0 || i < first_held(b)) ==> b[i] == 0,
        first_held(b) < 0 <==> held_count(b) == 0,
        held_count(b) == 1 ==> only_button(b, first_held(b)),
        held_count(b) <= b.len(),
    decreases b.len(),
{
    if b.len() > 0 {
        let t = b.drop_last();
        lemma_held(t);
        assert forall|i: int| 0 <= i < t.len() implies t[i] == b[i] by {}
        if held_count(b) == 1 {
            if b.last() != 0 {
                assert forall|i: int| 0 <= i < b.len() && i != first_held(b) implies b[i] == 0 by {
                    if i < t.len() {
                        assert(t[i] == b[i]);
                    }
                }
            } else {
                assert forall|i: int| 0 <= i < b.len() && i != first_held(b) implies b[i] == 0 by {
                    if i < t.len() {
                        assert(t[i] == b[i]);
                    }
                }
            }
        }
        if held_count(b) == 0 {
            assert forall|i: int| 0 <= i < b.len() implies b[i] == 0 by {
                if i < t.len() {
                    assert(t[i] == b[i]);
                }
            }
        }
        if forall|i: int| 0 <= i < b.len() ==> b[i] == 0 {
            assert forall|i: int| 0 <= i < t.len() implies t[i] == 0 by {
                assert(t[i] == b[i]);
            }
            assert(b[b.len() - 1] == 0);
        }
    }
}

/// The number of held buttons (at most two counted) and the first one, or `BUTTONS`.
fn scan_buttons(b: &[u8; 17]) -> (r: (usize, usize))
    ensures
        r.0 == if held_count(b@) >= 2 {
            2
        } else {
            held_count(b@)
        },
        r.1 == if first_held(b@) < 0 {
            BUTTONS as int
        } else {
            first_held(b@)
        },
{
    let mut count: usize = 0;
    let mut first: usize = BUTTONS;
    let mut i: usize = 0;
    while i < BUTTONS
        invariant
            b@.len() == BUTTONS,
            i <= BUTTONS,
            count == if held_count(b@.take(i as int)) >= 2 {
                2
            } else {
                held_count(b@.take(i as int))
            },
            first == if first_held(b@.take(i as int)) < 0 {
                BUTTONS as int
            } else {
                first_held(b@.take(i as int))
            },
        decreases BUTTONS - i,
    {
        assert(b@.take(i + 1).drop_last() == b@.take(i as int));
        assert(b@.take(i + 1).last() == b@[i as int]);
        assert(first_held(b@.take(i as int)) < i) by {
            lemma_held(b@.take(i as int));
        }
        if b[i] != 0 {
            if count < 2 {
                count = count + 1;
            }
            if first == BUTTONS {
                first = i;
            }
        }
        i = i + 1;
    }
    assert(b@.take(BUTTONS as int) == b@);
    (count, first)
}

/// Whether no button but `button` is held.
fn only_held(b: &[u8; 17], button: usize) -> (r: bool)
    ensures
        r == only_button(b@, button as int),
{
    let mut i: usize = 0;
    while i < BUTTONS
        invariant
            b@.len() == BUTTONS,
            i <= BUTTONS,
            forall|k: int| 0 <= k < i && k != button ==> b@[k] == 0,
        decreases BUTTONS - i,
    {
        if i != button && b[i] != 0 {
            return false;
        }
        i = i + 1;
    }
    true
}

impl Guide {
    /// The guide's invariant.
    pub open spec fn wf(&self) -> bool {
        guide_wf(self@)
    }

    /// Whether the restart button (○) is being held.
    pub fn restart_pending(&self) -> (b: bool)
        ensures
            b == (match self@.pending {
                Some((button, _)) => button == CIRCLE,
                None => false,
            }),
    {
        match self.pending {
            Some((button, _)) => button == CIRCLE,
            None => false,
        }
    }

    /// Forgets the input in progress; the guide stays enabled or disabled.
    pub fn reset_input(&mut self)
        ensures
            final(self)@ == cleared(old(self)@),
    {
        self.armed = false;
        self.pending = None;
        self.confirmed = false;
        self.context = None;
    }

    /// Reads one frame of gamepad input at `now` (ms) in the situation `context`.
    /// A choice is taken when its button is released with nothing else touched;
    /// where `hold` holds, ○ restarts only after being held for a second and a
    /// short press cancels. Any other button or a deflected stick spoils the
    /// choice; a change of situation starts over and must see the pad released first.
    pub fn read(
        &mut self,
        input: &GuideInput,
        context: GuideContext,
        blocked: bool,
        hold: bool,
        now: u64,
    ) -> (step: GuideStep)
        requires
            old(self).wf(),
        ensures
            final(self).wf(),
            (final(self)@, step) == read_spec(
                old(self)@,
                input.neutral_axes,
                input.buttons@,
                context,
                blocked,
                hold,
                now,
            ),
    {
        let pass = GuideStep { consumed: false, disarm_ee: false, feedback: false, action: None };
        if !self.enabled {
            self.reset_input();
            return pass;
        }
        if blocked {
            self.reset_input();
            return GuideStep { consumed: true, ..pass };
        }
        let changed = match self.context {
            Some(c) => !(c.0 == context.0 && c.1 == context.1 && c.2 == context.2 && c.3
                == context.3 && c.4 == context.4),
            None => true,
        };
        if changed {
            self.reset_input();
            self.context = Some(context);
        }
        let take = GuideStep { consumed: true, disarm_ee: changed, feedback: false, action: None };
        let neutral = input.neutral_axes;
        let buttons = &input.buttons;
        proof {
            lemma_held(buttons@);
        }
        let (count, first) = scan_buttons(buttons);
        let moving = context.2;
        let automatic = context.3;
        if !self.armed {
            self.armed = neutral && count == 0;
            return take;
        }
        if moving && !automatic {
            return GuideStep { consumed: false, ..take };
        }
        if automatic && buttons[CIRCLE] == 0 && !self.restart_pending() {
            return take;
        }
        match self.pending {
            Some((button, since)) => {
                if !(neutral && only_held(buttons, button)) {
                    self.reset_input();
                    return GuideStep { feedback: true, ..take };
                }
                if button == CIRCLE && hold {
                    if buttons[CIRCLE] == 0 {
                        self.reset_input();
                    } else if now >= since && now - since >= HOLD_MS {
                        self.reset_input();
                        return GuideStep { action: Some(CIRCLE), ..take };
                    }
                    return take;
                }
                if buttons[button] != 0 {
                    return take;
                }
                self.reset_input();
                GuideStep { action: Some(button), ..take }
            },
            None => {
                if !neutral {
                    self.reset_input();
                } else if count == 1 && (first == 0 || first == 1 || first == 2 || first == 13
                    || first == 14) {
                    self.pending = Some((first, now));
                    self.confirmed = !(first == CIRCLE && hold);
                } else if count != 0 {
                    self.reset_input();
                }
                take
            },
        }
    }
}

/// A choice is taken only when the press it belongs to ends cleanly: in the
/// situation where it was pressed, with the sticks neutral and no other button
/// touched; ○ where it must be held only after a full second, any other button
/// only once released.
pub proof fn lemma_choice_needs_clean_release(
    g: GuideView,
    neutral: bool,
    b: Seq<u8>,
    ctx: GuideContext,
    blocked: bool,
    hold: bool,
    now: u64,
)
    requires
        guide_wf(g),
        b.len() == BUTTONS,
    ensures
        read_spec(g, neutral, b, ctx, blocked, hold, now).1.action matches Some(button) ==> {
            &&& g.enabled && !blocked
            &&& g.context == Some(ctx)
            &&& neutral && only_button(b, button as int)
            &&& g.pending matches Some((p, since)) && p == button && (if button == CIRCLE && hold {
                now >= since + HOLD_MS
            } else {
                b[button as int] == 0
            })
        },
{
}

/// Holding a button never repeats its choice: after a choice the guide waits
/// for the pad to be released before it takes another.
pub proof fn lemma_no_repeat_while_held(
    g: GuideView,
    neutral: bool,
    b: Seq<u8>,
    ctx: GuideContext,
    blocked: bool,
    hold: bool,
    now: u64,
    neutral2: bool,
    b2: Seq<u8>,
    ctx2: GuideContext,
    blocked2: bool,
    hold2: bool,
    later: u64,
)
    requires
        guide_wf(g),
        b.len() == BUTTONS,
        read_spec(g, neutral, b, ctx, blocked, hold, now).1.action is Some,
        held_count(b2) > 0,
    ensures
        read_spec(
            read_spec(g, neutral, b, ctx, blocked, hold, now).0,
            neutral2,
            b2,
            ctx2,
            blocked2,
            hold2,
            later,
        ).1.action is None,
{
}

/// Whether ○ must be held to restart: no emergency, no homing or sequence
/// running, and the preparation is waiting or at its last step.
pub open spec fn restart_hold_spec(
    emergency: bool,
    homing: bool,
    sequence: bool,
    phase: PreparationPhase,
    step: PreparationStep,
) -> bool {
    !emergency && !homing && !sequence && (phase == PreparationPhase::Waiting || step
        == PreparationStep::Position)
}

/// Whether ○ must be held to restart.
pub fn restart_hold_required(
    emergency: bool,
    homing: bool,
    sequence: bool,
    phase: PreparationPhase,
    step: PreparationStep,
) -> (b: bool)
    ensures
        b == restart_hold_spec(emergency, homing, sequence, phase, step),
{
    !emergency && !homing && !sequence && (matches!(phase, PreparationPhase::Waiting) || matches!(
        step,
        PreparationStep::Position
    ))
}

/// The step of the preparation: the court first, then homing while it runs,
/// the connection until every axis answers, the manual origins when chosen,
/// homing until every origin is captured, and finally the start position.
pub open spec fn preparation_step_spec(
    court_chosen: bool,
    homing: bool,
    axes_ready: bool,
    manual_origins: bool,
    origins_captured: bool,
) -> PreparationStep {
    if !court_chosen {
        PreparationStep::Court
    } else if homing {
        PreparationStep::Home
    } else if !axes_ready {
        PreparationStep::Connection
    } else if manual_origins {
        PreparationStep::ManualHome
    } else if !origins_captured {
        PreparationStep::Home
    } else {
        PreparationStep::Position
    }
}

/// The step of the preparation.
pub fn preparation_step(
    court_chosen: bool,
    homing: bool,
    axes_ready: bool,
    manual_origins: bool,
    origins_captured: bool,
) -> (s: PreparationStep)
    ensures
        s == preparation_step_spec(court_chosen, homing, axes_ready, manual_origins, origins_captured),
{
    if !court_chosen {
        PreparationStep::Court
    } else if homing {
        PreparationStep::Home
    } else if !axes_ready {
        PreparationStep::Connection
    } else if manual_origins {
        PreparationStep::ManualHome
    } else if !origins_captured {
        PreparationStep::Home
    } else {
        PreparationStep::Position
    }
}

/// The operator request that a guide button stands for.
#[derive(Clone, Copy, Debug, PartialEq, Eq, Structural)]
pub enum GuideRequest {
    /// `preparation_restart`
    Restart,
    /// `estop_reset`
    EstopReset,
    /// `preparation_start`
    Start,
    /// `preparation_return`
    Return,
    /// `run`
    Run,
    /// `preparation_court` with the court
    ChooseCourt(Court),
    /// `home` of every axis, with a theta sweep of 180 degrees
    Home,
    /// `preparation_manual_begin`
    ManualBegin,
    /// `preparation_manual_theta`
    ManualTheta,
    /// `preparation_wait`
    Wait,
}

/// What a guide button asks for: ○ always restarts; in an emergency only ×
/// resets it; otherwise × confirms the current step, □ takes the alternative,
/// and left or right choose the court while none is chosen.
pub open spec fn guide_request_spec(
    button: usize,
    emergency: bool,
    phase: PreparationPhase,
    court_chosen: bool,
    step: PreparationStep,
) -> Option<GuideRequest> {
    if button == CIRCLE {
        Some(GuideRequest::Restart)
    } else if emergency {
        if button == 0 {
            Some(GuideRequest::EstopReset)
        } else {
            None
        }
    } else {
        match phase {
            PreparationPhase::Waiting => if button == 0 {
                Some(GuideRequest::Start)
            } else {
                None
            },
            PreparationPhase::Recovery => if button == 0 {
                Some(GuideRequest::Return)
            } else {
                None
            },
            PreparationPhase::Active => if button == 0 {
                Some(GuideRequest::Run)
            } else {
                None
            },
            PreparationPhase::Setting => if (button == 13 || button == 14) && !court_chosen {
                Some(
                    GuideRequest::ChooseCourt(
                        if button == 14 {
                            Court::Blue
                        } else {
                            Court::Red
                        },
                    ),
                )
            } else if button == 0 && step == PreparationStep::Home {
                Some(GuideRequest::Home)
            } else if button == 2 && step == PreparationStep::Home {
                Some(GuideRequest::ManualBegin)
            } else if button == 0 && step == PreparationStep::ManualHome {
                Some(GuideRequest::ManualTheta)
            } else if button == 0 && step == PreparationStep::Position {
                Some(GuideRequest::Run)
            } else if button == 2 && step == PreparationStep::Position {
                Some(GuideRequest::Wait)
            } else {
                None
            },
        }
    }
}

/// What a guide button asks for.
pub fn guide_request(
    button: usize,
    emergency: bool,
    phase: PreparationPhase,
    court_chosen: bool,
    step: PreparationStep,
) -> (r: Option<GuideRequest>)
    ensures
        r == guide_request_spec(button, emergency, phase, court_chosen, step),
{
    if button == CIRCLE {
        return Some(GuideRequest::Restart);
    }
    if emergency {
        return if button == 0 {
            Some(GuideRequest::EstopReset)
        } else {
            None
        };
    }
    match phase {
        PreparationPhase::Waiting => if button == 0 {
            Some(GuideRequest::Start)
        } else {
            None
        },
        PreparationPhase::Recovery => if button == 0 {
            Some(GuideRequest::Return)
        } else {
            None
        },
        PreparationPhase::Active => if button == 0 {
            Some(GuideRequest::Run)
        } else {
            None
        },
        PreparationPhase::Setting => if (button == 13 || button == 14) && !court_chosen {
            Some(
                GuideRequest::ChooseCourt(
                    if button == 14 {
                        Court::Blue
                    } else {
                        Court::Red
                    },
                ),
            )
        } else if button == 0 && matches!(step, PreparationStep::Home) {
            Some(GuideRequest::Home)
        } else if button == 2 && matches!(step, PreparationStep::Home) {
            Some(GuideRequest::ManualBegin)
        } else if button == 0 && matches!(step, PreparationStep::ManualHome) {
            Some(GuideRequest::ManualTheta)
        } else if button == 0 && matches!(step, PreparationStep::Position) {
            Some(GuideRequest::Run)
        } else if button == 2 && matches!(step, PreparationStep::Position) {
            Some(GuideRequest::Wait)
        } else {
            None
        },
    }
}

} // verus!
