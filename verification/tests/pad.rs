use host::application::worker::pad::{bonus_layer, stop_button, StopButton};

fn pad(pressed: &[usize]) -> [u8; 17] {
    let mut b = [0u8; 17];
    for &i in pressed {
        b[i] = 1;
    }
    b
}

#[test]
fn the_stop_button_comes_first() {
    assert_eq!(stop_button(&pad(&[0, 10]), &pad(&[]), true), StopButton::Released);
    assert_eq!(stop_button(&pad(&[5, 10]), &pad(&[]), true), StopButton::Pressed(true));
    assert_eq!(stop_button(&pad(&[5]), &pad(&[]), false), StopButton::Pressed(false));
    assert_eq!(stop_button(&pad(&[5, 0]), &pad(&[5]), false), StopButton::Held);
}

#[test]
fn the_bonus_layer_needs_its_button_and_the_gamepad() {
    assert!(bonus_layer(&pad(&[10]), false, false, true));
    assert!(!bonus_layer(&pad(&[10]), true, false, true));
    assert!(!bonus_layer(&pad(&[10]), false, true, true));
    assert!(!bonus_layer(&pad(&[10]), false, false, false));
    assert!(!bonus_layer(&pad(&[9]), false, false, true));
}
