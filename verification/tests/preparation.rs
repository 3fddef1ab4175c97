use host::application::app_state::{Court, PreparationPhase};
use host::application::worker::preparation::{
    preparation_ready, preparation_request, PreparationError, PreparationState, Readiness, Step,
};
use host::application::worker::readiness::ReadyError;

fn ready() -> Readiness {
    Readiness {
        court_chosen: true,
        emergency: false,
        adjustment: false,
        ai_active: false,
        automatic: false,
        tools_busy: false,
        moving: false,
        machine: Ok(()),
        control_available: true,
        input_released: true,
    }
}

fn state(phase: PreparationPhase) -> PreparationState {
    PreparationState {
        phase,
        ai_active: false,
        idle: true,
        readiness: ready(),
    }
}

#[test]
fn readiness_is_checked_in_order() {
    assert_eq!(preparation_ready(ready()), Ok(()));
    let everything_wrong = Readiness {
        court_chosen: false,
        emergency: true,
        adjustment: true,
        ai_active: true,
        automatic: true,
        tools_busy: true,
        moving: true,
        machine: Err(ReadyError::Motors),
        control_available: false,
        input_released: false,
    };
    assert_eq!(preparation_ready(everything_wrong), Err(PreparationError::ChooseCourt));
    assert_eq!(
        preparation_ready(Readiness { emergency: true, moving: true, ..ready() }),
        Err(PreparationError::ResetEmergency)
    );
    assert_eq!(
        preparation_ready(Readiness { moving: true, machine: Err(ReadyError::Origins), ..ready() }),
        Err(PreparationError::StopFirst)
    );
    assert_eq!(
        preparation_ready(Readiness { machine: Err(ReadyError::Origins), ..ready() }),
        Err(PreparationError::Machine(ReadyError::Origins))
    );
    assert_eq!(
        PreparationError::Machine(ReadyError::Origins).message(),
        "原点を設定するか、「調整 > アーム」で原点位置まで手動移動してください"
    );
    assert_eq!(
        preparation_ready(Readiness { input_released: false, ..ready() }),
        Err(PreparationError::ReleaseInput)
    );
}

#[test]
fn phases_follow_the_requests() {
    let setting = state(PreparationPhase::Setting);
    assert_eq!(
        preparation_request(setting, "preparation_court", true, None, Some("blue")),
        Ok(Step::ChooseCourt(Court::Blue))
    );
    assert_eq!(
        preparation_request(setting, "preparation_court", true, None, Some("green")),
        Err(PreparationError::ChooseCourt)
    );
    assert_eq!(
        preparation_request(setting, "preparation_wait", true, None, None),
        Ok(Step::Wait)
    );
    assert_eq!(
        preparation_request(setting, "preparation_start", true, None, None),
        Err(PreparationError::WaitFirst)
    );
    let waiting = state(PreparationPhase::Waiting);
    assert_eq!(
        preparation_request(waiting, "preparation_start", true, None, None),
        Ok(Step::Start)
    );
    assert_eq!(
        preparation_request(waiting, "preparation_court", true, None, Some("red")),
        Err(PreparationError::StopBeforeCourt)
    );
    assert_eq!(
        preparation_request(waiting, "preparation_wait", true, None, None),
        Err(PreparationError::BackToSetting)
    );
    assert_eq!(
        preparation_request(waiting, "preparation_restart", true, None, None),
        Ok(Step::Restart)
    );
}

#[test]
fn only_people_switch_the_preparation() {
    let setting = state(PreparationPhase::Setting);
    assert_eq!(
        preparation_request(setting, "preparation_restart", false, None, None),
        Err(PreparationError::PeopleOnly)
    );
    let leased = PreparationState { ai_active: true, ..setting };
    assert_eq!(
        preparation_request(leased, "preparation_return", true, None, None),
        Err(PreparationError::PeopleOnly)
    );
    assert_eq!(
        preparation_request(leased, "preparation_guide", true, Some(false), None),
        Ok(Step::Guide(false))
    );
    assert_eq!(
        preparation_request(setting, "preparation_guide", false, Some(true), None),
        Err(PreparationError::GuideFromScreen)
    );
    assert_eq!(
        preparation_request(setting, "preparation_guide", true, None, None),
        Err(PreparationError::GuideStateRequired)
    );
    assert_eq!(
        preparation_request(setting, "preparation_dance", true, None, None),
        Err(PreparationError::Unknown)
    );
}
