use host::frame::Command;

#[test]
fn formats_state_commands() {
    assert_eq!(Command::Stop.to_line(), "STOP");
    assert_eq!(Command::Run.to_line(), "RUN");
    assert_eq!(Command::Safe.to_line(), "SAFE");
}

#[test]
fn formats_slot_commands() {
    assert_eq!(Command::Home { slots: 7 }.to_line(), "HOME 7");
    assert_eq!(
        Command::Enable {
            slots: 2,
            enabled: true
        }
        .to_line(),
        "ENABLE 2 1"
    );
}
