use kbd_dimmer::backlight::{Backlight, BacklightError};
use kbd_dimmer::control::{control_text, parse_control};
use kbd_dimmer::controller::{ms_to_timeout, Controller, ANIMATION_TICK_MS, DIMMED_WAKE_MS};
use kbd_dimmer::discovery::{find_keyboard_backlight, select_input_devices, Entry};
use kbd_dimmer::fade::Fade;
use kbd_dimmer::fader::Fader;
use kbd_dimmer::level::{clamp01, lerp, FULL};
use kbd_dimmer::sources::{DrainStep, ReadOutcome, ReadyAction, Sources};

fn backlight(max: u32) -> Backlight {
    Backlight { max_raw: max, last_raw_written: None }
}

#[test]
fn parse_accepts_plain_and_padded_numbers() {
    assert_eq!(parse_control(b"255\n"), Some(255));
    assert_eq!(parse_control(b"  +42 \t\r\n"), Some(42));
    assert_eq!(parse_control(b"0"), Some(0));
    assert_eq!(parse_control(b"4294967295"), Some(u32::MAX));
}

#[test]
fn parse_rejects_malformed_numbers() {
    assert_eq!(parse_control(b""), None);
    assert_eq!(parse_control(b" \n"), None);
    assert_eq!(parse_control(b"+"), None);
    assert_eq!(parse_control(b"-1"), None);
    assert_eq!(parse_control(b"12a"), None);
    assert_eq!(parse_control(b"1 2"), None);
    assert_eq!(parse_control(b"4294967296"), None);
}

#[test]
fn control_text_round_trips() {
    assert_eq!(control_text(0), b"0\n".to_vec());
    assert_eq!(control_text(128), b"128\n".to_vec());
    for raw in [0u32, 7, 10, 255, 1000, u32::MAX] {
        assert_eq!(parse_control(&control_text(raw)), Some(raw));
    }
}

#[test]
fn open_reads_maximum_or_fails_invalid_data() {
    assert_eq!(Backlight::open(b"255\n"), Ok(backlight(255)));
    assert_eq!(Backlight::open(b"max\n"), Err(BacklightError::InvalidData));
    let b = backlight(3);
    assert_eq!(b.read_raw(b"2\n"), Ok(2));
    assert_eq!(b.read_raw(b"two\n"), Err(BacklightError::InvalidData));
}

#[test]
fn conversions_round_to_nearest() {
    let b = backlight(255);
    assert_eq!(b.to_normalized(128), 5_019_607_843);
    assert_eq!(b.to_normalized(255), FULL);
    assert_eq!(b.to_normalized(0), 0);
    assert_eq!(b.to_normalized(300), FULL);
    assert_eq!(b.to_raw(FULL / 2), 128);
    assert_eq!(b.to_raw(3 * FULL / 4), 191);
    assert_eq!(b.to_raw(2 * FULL), 255);
    assert_eq!(backlight(0).to_normalized(17), 0);
    assert_eq!(backlight(0).to_raw(FULL), 0);
}

#[test]
fn raw_round_trip_is_stable() {
    for max in [1u32, 3, 100, 255, 1_000_000, u32::MAX] {
        let b = backlight(max);
        for v in [0u64, 1, FULL / 3, FULL / 2, FULL - 1, FULL, FULL + 5] {
            let r = b.to_raw(v);
            assert_eq!(b.to_raw(b.to_normalized(r)), r);
        }
    }
}

#[test]
fn write_dedup_skips_repeats() {
    let mut b = backlight(255);
    assert!(b.needs_write(10));
    b.record_write(10);
    assert!(!b.needs_write(10));
    assert!(b.needs_write(11));
}

#[test]
fn clamp_and_lerp_values() {
    assert_eq!(clamp01(FULL + 1), FULL);
    assert_eq!(clamp01(7), 7);
    assert_eq!(lerp(0, 100, 1, 4), 25);
    assert_eq!(lerp(100, 0, 1, 4), 75);
    assert_eq!(lerp(10, 20, 5, 5), 20);
    assert_eq!(lerp(10, 20, 0, 0), 20);
}

#[test]
fn fade_hits_endpoints_and_moves_monotonically() {
    let up = Fade { start: 100, target: 1100, start_at: 50, duration: 10 };
    assert_eq!(up.value_at(50), 100);
    assert_eq!(up.value_at(40), 100);
    assert_eq!(up.value_at(60), 1100);
    assert_eq!(up.value_at(1000), 1100);
    let mut prev = up.value_at(50);
    for t in 50..=60 {
        let v = up.value_at(t);
        assert!(v >= prev);
        prev = v;
    }
    let down = Fade { start: FULL, target: 0, start_at: 0, duration: 800 };
    assert_eq!(down.value_at(0), FULL);
    assert_eq!(down.value_at(400), FULL / 2);
    assert_eq!(down.value_at(800), 0);
    let mut prev = down.value_at(0);
    for t in 0..=800 {
        let v = down.value_at(t);
        assert!(v <= prev);
        prev = v;
    }
    assert!(!down.done(799));
    assert!(down.done(800));
}

#[test]
fn fader_value_snaps_to_target_at_end() {
    let mut f = Fader::new(FULL, 250, 800);
    f.set_target(1000, 0);
    assert!(f.is_fading());
    assert_eq!(f.value(1400), FULL / 2);
    assert!(f.is_fading());
    assert_eq!(f.value(1800), 0);
    assert!(!f.is_fading());
    assert_eq!(f.value(5000), 0);
}

#[test]
fn fader_uses_fade_in_to_brighten_and_fade_out_to_dim() {
    let mut f = Fader::new(0, 250, 800);
    f.set_target(0, FULL);
    assert_eq!(f.fade.unwrap().duration, 250);
    let mut g = Fader::new(FULL, 250, 800);
    g.set_target(0, 0);
    assert_eq!(g.fade.unwrap().duration, 800);
}

#[test]
fn fader_raises_zero_durations_to_one() {
    let mut f = Fader::new(2 * FULL, 0, 0);
    assert_eq!(f.current, FULL);
    assert_eq!((f.fade_in, f.fade_out), (1, 1));
    f.set_target(10, 0);
    assert_eq!(f.value(11), 0);
    assert!(!f.is_fading());
}

#[test]
fn negligible_retarget_snaps_without_fade() {
    let mut f = Fader::new(FULL / 2, 250, 800);
    f.set_target(0, 0);
    assert!(f.is_fading());
    let reached = f.value(1);
    f.set_target(1, reached + 500_000);
    assert!(!f.is_fading());
    assert_eq!(f.current, reached + 500_000);
    f.set_target(2, reached + 500_000 + 1_000_000);
    assert!(f.is_fading());
}

#[test]
fn idle_dims_exactly_once_and_captures_once() {
    let mut c = Controller::new(backlight(255), 200, 10_000, 250, 800, 0);
    assert!(!c.dim_due(9_999));
    assert!(!c.on_timeout(9_999, Some(150)));
    assert!(!c.is_dimmed);
    assert!(c.dim_due(10_000));
    assert!(c.on_timeout(10_000, Some(150)));
    assert!(c.is_dimmed);
    assert_eq!(c.saved_raw, Some(150));
    for t in [10_016u64, 10_100, 20_000, 90_000] {
        let _ = c.frame(t);
        assert!(!c.dim_due(t));
        assert!(!c.on_timeout(t, Some(3)));
        assert_eq!(c.saved_raw, Some(150));
        assert!(c.is_dimmed);
    }
}

#[test]
fn dim_falls_back_to_initial_when_read_fails() {
    let mut c = Controller::new(backlight(255), 200, 1_000, 250, 800, 0);
    assert!(c.on_timeout(1_000, None));
    assert_eq!(c.saved_raw, Some(200));
}

#[test]
fn idle_scenario_fades_out_to_zero() {
    let mut c = Controller::new(backlight(255), 128, 1_000, 250, 500, 0);
    assert_eq!(c.fader.current, 5_019_607_843);
    assert_eq!(c.frame(0), Some(128));
    c.record_write(128);
    assert_eq!(c.frame(999), None);
    assert!(c.on_timeout(1_000, Some(128)));
    assert_eq!(c.fader.fade.unwrap().target, 0);
    assert_eq!(c.fader.fade.unwrap().duration, 500);
    assert_eq!(c.frame(1_250), Some(64));
    c.record_write(64);
    assert_eq!(c.frame(1_500), Some(0));
    c.record_write(0);
    assert_eq!(c.fader.current, 0);
    assert!(!c.fader.is_fading());
    assert_eq!(c.frame(2_000), None);
}

#[test]
fn activity_restores_saved_brightness_with_fade_in() {
    let mut c = Controller::new(backlight(255), 128, 1_000, 250, 500, 0);
    assert!(c.on_timeout(1_000, Some(128)));
    assert_eq!(c.frame(1_500), Some(0));
    c.record_write(0);
    assert!(c.on_activity(1_600));
    assert!(!c.is_dimmed);
    assert_eq!(c.saved_raw, None);
    assert_eq!(c.last_activity, 1_600);
    let f = c.fader.fade.unwrap();
    assert_eq!(f.start, 0);
    assert_eq!(f.target, 5_019_607_843);
    assert_eq!(f.duration, 250);
    assert_eq!(c.frame(1_725), Some(64));
    c.record_write(64);
    assert_eq!(c.frame(1_850), Some(128));
    assert!(!c.fader.is_fading());
    assert!(!c.on_activity(1_900));
    assert_eq!(c.last_activity, 1_900);
}

#[test]
fn wait_timeout_follows_deadlines() {
    let mut c = Controller::new(backlight(255), 128, 10_000, 250, 800, 0);
    assert_eq!(c.next_wake(0), 10_000);
    assert_eq!(c.wait_timeout(0), 10_000);
    assert_eq!(c.wait_timeout(9_990), 10);
    assert_eq!(c.wait_timeout(20_000), 0);
    assert!(c.on_timeout(20_000, Some(128)));
    assert_eq!(c.wait_timeout(20_000), 0);
    let _ = c.frame(21_000);
    assert!(!c.fader.is_fading());
    assert_eq!(c.wait_timeout(21_000), DIMMED_WAKE_MS as u16);
    assert!(c.on_activity(22_000));
    assert!(c.fader.is_fading());
    assert_eq!(c.next_wake(22_000), 22_016);
    assert_eq!(c.wait_timeout(22_000), ANIMATION_TICK_MS as u16);
    let long = Controller::new(backlight(255), 128, 100_000, 250, 800, 0);
    assert_eq!(long.wait_timeout(0), u16::MAX);
}

#[test]
fn ms_to_timeout_clamps() {
    assert_eq!(ms_to_timeout(-5), 0);
    assert_eq!(ms_to_timeout(0), 0);
    assert_eq!(ms_to_timeout(16), 16);
    assert_eq!(ms_to_timeout(65_535), 65_535);
    assert_eq!(ms_to_timeout(1_000_000), 65_535);
}

#[test]
fn broken_source_is_excluded_for_good() {
    let mut s = Sources::new(3);
    assert_eq!(s.on_ready(1, false), ReadyAction::Drain);
    assert_eq!(s.on_ready(1, true), ReadyAction::Deregister);
    assert!(!s.is_active(1));
    assert_eq!(s.on_ready(1, false), ReadyAction::Ignore);
    assert_eq!(s.on_ready(1, true), ReadyAction::Ignore);
    assert!(s.is_active(0));
    assert!(s.is_active(2));
    assert_eq!(s.on_ready(7, false), ReadyAction::Ignore);
}

#[test]
fn failed_read_deregisters_only_that_source() {
    let mut s = Sources::new(2);
    assert_eq!(s.on_read(0, ReadOutcome::Data), DrainStep::Continue);
    assert_eq!(s.on_read(0, ReadOutcome::WouldBlock), DrainStep::Finished);
    assert_eq!(s.on_read(0, ReadOutcome::End), DrainStep::Finished);
    assert_eq!(s.on_read(0, ReadOutcome::Failed), DrainStep::Deregister);
    assert!(!s.is_active(0));
    assert!(s.is_active(1));
    assert_eq!(s.on_ready(0, false), ReadyAction::Ignore);
    assert_eq!(s.on_ready(1, false), ReadyAction::Drain);
}

#[test]
fn source_failure_leaves_dim_state_alone() {
    let mut c = Controller::new(backlight(255), 128, 1_000, 250, 500, 0);
    assert!(c.on_timeout(1_000, Some(128)));
    let before = c;
    let mut s = Sources::new(2);
    assert_eq!(s.on_ready(0, true), ReadyAction::Deregister);
    assert_eq!(c, before);
    assert!(c.is_dimmed);
}

fn entry(name: &[u8], is_kind: bool) -> Entry {
    Entry { name: name.to_vec(), is_kind }
}

#[test]
fn finds_first_keyboard_backlight_directory() {
    let entries = vec![
        entry(b"input3::capslock", true),
        entry(b"tpacpi::kbd_backlight", false),
        entry(b"asus::kbd_backlight", true),
        entry(b"dell::kbd_backlight", true),
    ];
    assert_eq!(find_keyboard_backlight(&entries), Ok(2));
    let none = vec![entry(b"kbd_backlight_x", true), entry(b"backlight", true)];
    assert_eq!(find_keyboard_backlight(&none), Err(BacklightError::NotFound));
    assert_eq!(find_keyboard_backlight(&Vec::new()), Err(BacklightError::NotFound));
}

#[test]
fn selects_event_character_devices_in_order() {
    let entries = vec![
        entry(b"event0", true),
        entry(b"mice", true),
        entry(b"event1", false),
        entry(b"by-id", false),
        entry(b"event12", true),
        entry(b"even", true),
    ];
    assert_eq!(select_input_devices(&entries), vec![0, 4]);
}
