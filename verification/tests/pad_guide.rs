use host::application::app_state::{Court, PreparationPhase, PreparationStep};
use host::application::worker::pad_guide::{
    guide_request, preparation_step, restart_hold_required, Guide, GuideContext, GuideInput,
    GuideRequest,
};

const SETTING: GuideContext = (PreparationPhase::Setting, PreparationStep::Home, false, false, false);

fn released() -> GuideInput {
    GuideInput {
        neutral_axes: true,
        buttons: [0; 17],
    }
}

fn press(button: usize) -> GuideInput {
    let mut input = released();
    input.buttons[button] = 1;
    input
}

#[test]
fn a_choice_is_taken_on_release_after_arming() {
    let mut g = Guide::default();
    // The first frame of a situation only arms the guide.
    let first = g.read(&press(0), SETTING, false, false, 0);
    assert!(first.consumed && first.disarm_ee && first.action.is_none());
    // Held from before arming: still not armed.
    assert!(g.read(&press(0), SETTING, false, false, 10).action.is_none());
    assert!(g.read(&released(), SETTING, false, false, 20).action.is_none());
    assert!(g.read(&press(0), SETTING, false, false, 30).action.is_none());
    assert!(g.read(&press(0), SETTING, false, false, 40).action.is_none());
    let step = g.read(&released(), SETTING, false, false, 50);
    assert_eq!(step.action, Some(0));
    // Holding afterwards never repeats.
    assert!(g.read(&press(0), SETTING, false, false, 60).action.is_none());
}

#[test]
fn another_button_or_a_deflection_spoils_the_choice() {
    let mut g = Guide::default();
    g.read(&released(), SETTING, false, false, 0);
    g.read(&press(2), SETTING, false, false, 10);
    let mut both = press(2);
    both.buttons[0] = 1;
    let spoilt = g.read(&both, SETTING, false, false, 20);
    assert!(spoilt.feedback && spoilt.action.is_none());
    let mut g = Guide::default();
    g.read(&released(), SETTING, false, false, 0);
    g.read(&press(2), SETTING, false, false, 10);
    let mut deflected = press(2);
    deflected.neutral_axes = false;
    assert!(g.read(&deflected, SETTING, false, false, 20).feedback);
}

#[test]
fn a_change_of_situation_starts_over() {
    let mut g = Guide::default();
    g.read(&released(), SETTING, false, false, 0);
    g.read(&press(0), SETTING, false, false, 10);
    let moved = (PreparationPhase::Setting, PreparationStep::Position, false, false, false);
    let step = g.read(&released(), moved, false, false, 20);
    assert!(step.disarm_ee && step.action.is_none());
}

#[test]
fn circle_restarts_after_a_one_second_hold_only() {
    let waiting = (PreparationPhase::Waiting, PreparationStep::Position, false, false, false);
    let mut g = Guide::default();
    g.read(&released(), waiting, false, true, 0);
    g.read(&press(1), waiting, false, true, 100);
    assert!(!g.confirmed);
    assert!(g.read(&press(1), waiting, false, true, 1099).action.is_none());
    assert_eq!(g.read(&press(1), waiting, false, true, 1100).action, Some(1));
    assert!(g.read(&press(1), waiting, false, true, 2500).action.is_none());
    // A short press cancels.
    let mut g = Guide::default();
    g.read(&released(), waiting, false, true, 0);
    g.read(&press(1), waiting, false, true, 100);
    assert!(g.read(&released(), waiting, false, true, 200).action.is_none());
}

#[test]
fn driving_and_other_owners_bypass_the_guide() {
    let driving = (PreparationPhase::Active, PreparationStep::Position, true, false, false);
    let mut g = Guide::default();
    g.read(&released(), driving, false, false, 0);
    assert!(!g.read(&press(1), driving, false, false, 10).consumed);
    let mut g = Guide::default();
    assert!(g.read(&press(0), SETTING, true, false, 0).consumed);
    g.enabled = false;
    assert!(!g.read(&press(0), SETTING, false, false, 0).consumed);
}

#[test]
fn buttons_map_to_requests() {
    assert_eq!(guide_request(1, true, PreparationPhase::Setting, true, PreparationStep::Home), Some(GuideRequest::Restart));
    assert_eq!(guide_request(0, true, PreparationPhase::Active, true, PreparationStep::Position), Some(GuideRequest::EstopReset));
    assert_eq!(guide_request(2, true, PreparationPhase::Active, true, PreparationStep::Position), None);
    assert_eq!(guide_request(0, false, PreparationPhase::Waiting, true, PreparationStep::Position), Some(GuideRequest::Start));
    assert_eq!(guide_request(0, false, PreparationPhase::Recovery, true, PreparationStep::Position), Some(GuideRequest::Return));
    assert_eq!(guide_request(0, false, PreparationPhase::Active, true, PreparationStep::Position), Some(GuideRequest::Run));
    assert_eq!(
        guide_request(14, false, PreparationPhase::Setting, false, PreparationStep::Court),
        Some(GuideRequest::ChooseCourt(Court::Blue))
    );
    assert_eq!(
        guide_request(13, false, PreparationPhase::Setting, false, PreparationStep::Court),
        Some(GuideRequest::ChooseCourt(Court::Red))
    );
    assert_eq!(guide_request(13, false, PreparationPhase::Setting, true, PreparationStep::Home), None);
    assert_eq!(guide_request(0, false, PreparationPhase::Setting, true, PreparationStep::Home), Some(GuideRequest::Home));
    assert_eq!(guide_request(2, false, PreparationPhase::Setting, true, PreparationStep::Home), Some(GuideRequest::ManualBegin));
    assert_eq!(guide_request(0, false, PreparationPhase::Setting, true, PreparationStep::ManualHome), Some(GuideRequest::ManualTheta));
    assert_eq!(guide_request(0, false, PreparationPhase::Setting, true, PreparationStep::Position), Some(GuideRequest::Run));
    assert_eq!(guide_request(2, false, PreparationPhase::Setting, true, PreparationStep::Position), Some(GuideRequest::Wait));
    assert_eq!(guide_request(0, false, PreparationPhase::Setting, true, PreparationStep::Connection), None);
}

#[test]
fn preparation_steps_follow_their_order() {
    assert_eq!(preparation_step(false, true, true, true, true), PreparationStep::Court);
    assert_eq!(preparation_step(true, true, false, true, false), PreparationStep::Home);
    assert_eq!(preparation_step(true, false, false, true, true), PreparationStep::Connection);
    assert_eq!(preparation_step(true, false, true, true, false), PreparationStep::ManualHome);
    assert_eq!(preparation_step(true, false, true, false, false), PreparationStep::Home);
    assert_eq!(preparation_step(true, false, true, false, true), PreparationStep::Position);
    assert!(restart_hold_required(false, false, false, PreparationPhase::Waiting, PreparationStep::Home));
    assert!(restart_hold_required(false, false, false, PreparationPhase::Setting, PreparationStep::Position));
    assert!(!restart_hold_required(true, false, false, PreparationPhase::Waiting, PreparationStep::Position));
    assert!(!restart_hold_required(false, true, false, PreparationPhase::Waiting, PreparationStep::Position));
    assert!(!restart_hold_required(false, false, false, PreparationPhase::Setting, PreparationStep::Home));
}
