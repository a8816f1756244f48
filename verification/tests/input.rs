use flappy::input::{keypress, Command, Key, Polled};
use flappy::pacing::{
    frames_per_second, remaining, RESTART_PAUSE_MILLIS, TARGET_FPS, TICK_MILLIS,
};

#[test]
fn q_quits() {
    assert_eq!(keypress(Polled::Pressed(Key::Char('q'))), Some(Command::Quit));
}

#[test]
fn up_w_and_space_flap() {
    assert_eq!(keypress(Polled::Pressed(Key::Up)), Some(Command::Flap));
    assert_eq!(keypress(Polled::Pressed(Key::Char('w'))), Some(Command::Flap));
    assert_eq!(keypress(Polled::Pressed(Key::Char(' '))), Some(Command::Flap));
}

#[test]
fn other_keys_mean_nothing() {
    assert_eq!(keypress(Polled::Pressed(Key::Other)), None);
    for c in ['Q', 'W', 'a', 'x', '\n', '0', 'é'] {
        assert_eq!(keypress(Polled::Pressed(Key::Char(c))), None);
    }
}

#[test]
fn no_key_no_command() {
    assert_eq!(keypress(Polled::Idle), None);
    assert_eq!(keypress(Polled::Other), None);
}

#[test]
fn pacing_constants() {
    assert_eq!(TARGET_FPS, 60);
    assert_eq!(TICK_MILLIS, 1000 / TARGET_FPS);
    assert_eq!(TICK_MILLIS, 16);
    assert_eq!(RESTART_PAUSE_MILLIS, 3000);
}

#[test]
fn remaining_pads_the_tick() {
    assert_eq!(remaining(16, 0), Some(16));
    assert_eq!(remaining(16, 5), Some(11));
    assert_eq!(remaining(16, 15), Some(1));
    assert_eq!(remaining(16_000_000, 4_250_000), Some(11_750_000));
}

#[test]
fn remaining_is_none_when_the_tick_is_used_up() {
    assert_eq!(remaining(16, 16), None);
    assert_eq!(remaining(16, 17), None);
    assert_eq!(remaining(0, 0), None);
    assert_eq!(remaining(16, u128::MAX), None);
    assert_eq!(remaining(16_000_000, 16_000_001), None);
}

#[test]
fn frames_per_second_is_a_whole_quotient() {
    assert_eq!(frames_per_second(16), 62);
    assert_eq!(frames_per_second(17), 58);
    assert_eq!(frames_per_second(1), 1000);
    assert_eq!(frames_per_second(1000), 1);
    assert_eq!(frames_per_second(1001), 0);
}
