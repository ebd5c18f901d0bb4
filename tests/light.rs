use touch_dimmer::channel::TouchState;
use touch_dimmer::light::{Light, LightState};

fn lit() -> Light {
    let mut l = Light::new();
    assert_eq!(l.process(TouchState::Long), Some(255));
    assert_eq!(l.light_state(), LightState::On);
    l
}

#[test]
fn new_light_is_off_and_dark() {
    let l = Light::new();
    assert_eq!(l.light_state(), LightState::Off);
    assert_eq!(l.brightness(), 0);
    assert_eq!(l.sub_count(), 0);
}

#[test]
fn scenario_short_ramps_up_to_on() {
    let mut l = Light::new();
    assert_eq!(l.process(TouchState::Short), Some(0));
    assert_eq!(l.light_state(), LightState::Rising);
    assert_eq!(l.brightness(), 0);
    for _ in 0..511 {
        assert_eq!(l.process(TouchState::Idle), None);
    }
    assert_eq!(l.brightness(), 0);
    assert_eq!(l.sub_count(), 511);
    assert_eq!(l.process(TouchState::Idle), Some(1));
    assert_eq!(l.brightness(), 1);
    assert_eq!(l.sub_count(), 0);
    assert_eq!(l.light_state(), LightState::Rising);
    for step in 2..=255u32 {
        for _ in 0..511 {
            assert_eq!(l.process(TouchState::Idle), None);
        }
        assert_eq!(l.process(TouchState::Idle), Some(step as u8));
    }
    assert_eq!(l.light_state(), LightState::On);
    assert_eq!(l.brightness(), 255);
    for _ in 0..2000 {
        assert_eq!(l.process(TouchState::Idle), None);
    }
    assert_eq!(l.light_state(), LightState::On);
    assert_eq!(l.brightness(), 255);
}

#[test]
fn short_from_on_fades_down_to_off() {
    let mut l = lit();
    assert_eq!(l.process(TouchState::Short), Some(255));
    assert_eq!(l.light_state(), LightState::Falling);
    for step in (0..255u32).rev() {
        for _ in 0..511 {
            assert_eq!(l.process(TouchState::Idle), None);
        }
        assert_eq!(l.process(TouchState::Idle), Some(step as u8));
    }
    assert_eq!(l.light_state(), LightState::Off);
    assert_eq!(l.brightness(), 0);
}

#[test]
fn repeated_long_toggles_once() {
    let mut l = Light::new();
    assert_eq!(l.process(TouchState::Long), Some(255));
    assert_eq!(l.process(TouchState::Long), None);
    assert_eq!(l.process(TouchState::Long), None);
    assert_eq!(l.light_state(), LightState::On);
    assert_eq!(l.brightness(), 255);
    // a new long press after another gesture switches again
    assert_eq!(l.process(TouchState::Idle), None);
    assert_eq!(l.process(TouchState::Long), Some(0));
    assert_eq!(l.light_state(), LightState::Off);
}

#[test]
fn long_cuts_a_ramp_off() {
    let mut l = Light::new();
    l.process(TouchState::Short);
    for _ in 0..(512 * 10) {
        l.process(TouchState::Idle);
    }
    assert_eq!(l.brightness(), 10);
    assert_eq!(l.process(TouchState::Long), Some(0));
    assert_eq!(l.light_state(), LightState::Off);
    assert_eq!(l.brightness(), 0);
}

#[test]
fn short_while_rising_changes_nothing() {
    let mut l = Light::new();
    l.process(TouchState::Short);
    for _ in 0..(512 * 3 + 7) {
        l.process(TouchState::Idle);
    }
    assert_eq!(l.brightness(), 3);
    assert_eq!(l.sub_count(), 7);
    assert_eq!(l.process(TouchState::Short), None);
    assert_eq!(l.light_state(), LightState::Rising);
    assert_eq!(l.brightness(), 3);
    assert_eq!(l.sub_count(), 7);
}

#[test]
fn idle_while_off_or_on_keeps_brightness() {
    let mut l = Light::new();
    for _ in 0..1500 {
        assert_eq!(l.process(TouchState::Idle), None);
        assert_eq!(l.brightness(), 0);
    }
    assert_eq!(l.sub_count(), 1500 % 512);
    let mut l = lit();
    for _ in 0..1500 {
        assert_eq!(l.process(TouchState::Idle), None);
        assert_eq!(l.brightness(), 255);
    }
}

#[test]
fn warmup_has_no_effect() {
    let mut l = Light::new();
    l.process(TouchState::Short);
    l.process(TouchState::Idle);
    assert_eq!(l.process(TouchState::Warmup), None);
    assert_eq!(l.light_state(), LightState::Rising);
    assert_eq!(l.sub_count(), 1);
}
