use rand::rngs::StdRng;
use rand::SeedableRng;
use rand_distr::{Distribution, Normal};

use shufflekeys::engine::config::{AdvancedConfig, ObfuscationConfig};
use shufflekeys::engine::obfuscation::{obfuscate_timing, ObfuscationEngine, ScheduledEvent};
use shufflekeys::platform::{KeyEvent, KeyEventType, Platform};

fn make_engine() -> ObfuscationEngine {
    ObfuscationEngine::new(
        ObfuscationConfig::default(),
        AdvancedConfig::default(),
        Platform::Linux,
    )
}

/// One Gaussian draw in whole microseconds.
fn draw(rng: &mut StdRng, stddev_us: u64) -> i64 {
    let normal = Normal::new(0.0, stddev_us as f64).expect("invalid noise stddev");
    normal.sample(rng) as i64
}

/// Feed an event through the engine with noise from `rng`.
fn process(eng: &mut ObfuscationEngine, rng: &mut StdRng, ev: KeyEvent) -> ScheduledEvent {
    let draws = eng.noise_draws(&ev);
    let stddev = eng.obf.noise_stddev_us;
    let flight = if draws == 2 { draw(rng, stddev) } else { 0 };
    let dwell = if draws >= 1 { draw(rng, stddev) } else { 0 };
    eng.process(ev, flight, dwell)
}

fn key(key_code: u16, event_type: KeyEventType, timestamp_us: u64) -> KeyEvent {
    KeyEvent {
        key_code,
        event_type,
        timestamp_us,
    }
}

#[test]
fn passthrough_when_disabled() {
    let mut eng = make_engine();
    let mut rng = StdRng::seed_from_u64(eng.persona_seed);
    eng.enabled = false;
    let ev = key(30, KeyEventType::Down, 1_000_000);
    let out = process(&mut eng, &mut rng, ev.clone());
    assert_eq!(out.emit_at_us, 1_000_000);
}

#[test]
fn modifiers_not_delayed() {
    let linux_codes = vec![29, 42, 56, 125];
    let macos_codes = vec![56, 55, 59, 58];
    for (platform, codes) in [(Platform::Linux, linux_codes), (Platform::Macos, macos_codes)] {
        let mut eng = ObfuscationEngine::new(
            ObfuscationConfig::default(),
            AdvancedConfig::default(),
            platform,
        );
        let mut rng = StdRng::seed_from_u64(eng.persona_seed);
        for code in codes {
            let ev = key(code, KeyEventType::Down, 1_000_000);
            let out = process(&mut eng, &mut rng, ev);
            assert_eq!(out.emit_at_us, 1_000_000, "modifier {code} was delayed");
        }
    }
}

#[test]
fn obfuscated_timing_within_bounds() {
    let eng = make_engine();
    let mut rng = StdRng::seed_from_u64(eng.persona_seed);
    for _ in 0..500 {
        let noise = draw(&mut rng, eng.obf.noise_stddev_us);
        let val = obfuscate_timing(
            100_000, // 100 ms
            15_000, 40_000, 200_000, noise,
        );
        let ms = val as f64 / 1000.0;
        assert!(ms >= 40.0, "below floor: {ms}");
        assert!(ms <= 200.0, "above ceiling: {ms}");
    }
}

#[test]
fn max_latency_respected() {
    let mut eng = make_engine();
    let mut rng = StdRng::seed_from_u64(eng.persona_seed);
    eng.obf.max_latency_us = 10_000;
    eng.obf.strength_ppm = 1_000_000;

    // Simulate a first keydown (sets the last emit time).
    let ev1 = key(30, KeyEventType::Down, 1_000_000);
    let _ = process(&mut eng, &mut rng, ev1);

    // Second keydown a very short time later: the engine will want to delay
    // but must not exceed 10 ms = 10 000 µs.
    let ev2 = key(31, KeyEventType::Down, 1_001_000); // 1 ms later
    let out = process(&mut eng, &mut rng, ev2);
    let added = out.emit_at_us.saturating_sub(1_001_000);
    assert!(
        added <= 10_000,
        "added latency {added} µs exceeds cap of 10 000 µs"
    );
}

#[test]
fn persona_regeneration_changes_output() {
    let mut eng = make_engine();
    let mut rng = StdRng::seed_from_u64(eng.persona_seed);
    let ev = key(30, KeyEventType::Down, 1_000_000);
    let out1 = process(&mut eng, &mut rng, ev.clone());

    eng.regenerate_persona();
    let mut rng = StdRng::seed_from_u64(eng.persona_seed);
    let out2 = process(&mut eng, &mut rng, ev);

    // Very unlikely to be identical after persona change.
    let _ = (out1, out2);
}

#[test]
fn obfuscate_quantises_adds_noise_and_clamps() {
    // 100 ms in 15 ms buckets rounds to 105 ms.
    assert_eq!(obfuscate_timing(100_000, 15_000, 40_000, 200_000, 0), 105_000);
    // 97.5 ms is exactly half way: rounds up to 105 ms.
    assert_eq!(obfuscate_timing(97_500, 15_000, 40_000, 200_000, 0), 105_000);
    // Just below half way rounds down to 90 ms.
    assert_eq!(obfuscate_timing(97_499, 15_000, 40_000, 200_000, 0), 90_000);
    // Noise is added after quantisation.
    assert_eq!(obfuscate_timing(100_000, 15_000, 40_000, 200_000, -1_234), 103_766);
    // Clamped to the floor and the ceiling.
    assert_eq!(obfuscate_timing(1_000, 15_000, 40_000, 200_000, 0), 40_000);
    assert_eq!(obfuscate_timing(100_000, 15_000, 40_000, 200_000, 500_000), 200_000);
    assert_eq!(obfuscate_timing(100_000, 15_000, 40_000, 200_000, -500_000), 40_000);
    // Without noise, an in-range result is a whole number of buckets.
    for original in [0u64, 7_499, 7_500, 61_234, 123_456, 199_999] {
        let r = obfuscate_timing(original, 15_000, 0, 1_000_000, 0);
        assert_eq!(r % 15_000, 0);
    }
    // A zero bucket has no quantum: the interval becomes 0.
    assert_eq!(obfuscate_timing(100_000, 0, 40_000, 200_000, 0), 0);
}

#[test]
fn typical_dwell_follows_persona_seed() {
    let mut eng = make_engine();
    eng.persona_seed = 12_345;
    // hash = 12345 * 31 = 382695; 382695 % 3000 = 1695 → 75 ms + 16.95 ms.
    assert_eq!(eng.typical_dwell_us(30), 91_950);
    eng.persona_seed = 0;
    assert_eq!(eng.typical_dwell_us(30), 75_000);
    // Wrapping multiplication: u64::MAX * 2 wraps to u64::MAX - 1, whose
    // residue is 614.
    eng.persona_seed = u64::MAX;
    assert_eq!(eng.typical_dwell_us(1), 81_140);
    // Residues 4 (mod 25) outside 700..800 lose a microsecond to rounding.
    for (k, expected) in [(4u64, 75_039u64), (29, 75_289), (704, 82_040), (779, 82_790), (804, 83_039), (2979, 104_789)] {
        eng.persona_seed = k;
        assert_eq!(eng.typical_dwell_us(0), expected);
    }
    eng.persona_seed = u64::MAX;
    for code in 0..300u16 {
        let d = eng.typical_dwell_us(code);
        assert!((75_000..=104_990).contains(&d));
    }
}

#[test]
fn keydown_schedule_with_known_noise() {
    let mut eng = make_engine();
    eng.persona_seed = 12_345;
    eng.obf.strength_ppm = 1_000_000;
    // First keydown: no flight time, one dwell draw.
    let first = key(30, KeyEventType::Down, 1_000_000);
    assert_eq!(eng.noise_draws(&first), 1);
    let out = eng.process(first, 0, 0);
    assert_eq!(out.emit_at_us, 1_000_000);
    assert_eq!(out.event.timestamp_us, 1_000_000);
    // Typical dwell 91.95 ms quantises to 90 ms in 15 ms buckets.
    assert_eq!(eng.pending_keyup_times.get(&30), Some(&1_090_000));
    assert_eq!(eng.last_emit_us, 1_000_000);

    // Second keydown 1 ms later: flight 1 ms quantises to 0, clamps to the
    // 20 ms minimum flight; the 19 ms delay is capped at 25 ms → 19 ms.
    let second = key(31, KeyEventType::Down, 1_001_000);
    assert_eq!(eng.noise_draws(&second), 2);
    let out = eng.process(second, 0, 0);
    assert_eq!(out.emit_at_us, 1_020_000);
    assert_eq!(out.event.key_code, 31);
    assert_eq!(out.event.event_type, KeyEventType::Down);
}

#[test]
fn strength_scales_the_delay() {
    let mut eng = make_engine();
    eng.obf.strength_ppm = 500_000;
    let _ = eng.process(key(30, KeyEventType::Down, 1_000_000), 0, 0);
    // 19 ms wanted, half of it applied.
    let out = eng.process(key(31, KeyEventType::Down, 1_001_000), 0, 0);
    assert_eq!(out.emit_at_us, 1_010_500);

    let mut eng = make_engine();
    eng.obf.strength_ppm = 0;
    let _ = eng.process(key(30, KeyEventType::Down, 1_000_000), 0, 0);
    let out = eng.process(key(31, KeyEventType::Down, 1_001_000), 0, 0);
    assert_eq!(out.emit_at_us, 1_001_000);
}

#[test]
fn keyup_waits_for_dwell_within_latency_cap() {
    let mut eng = make_engine();
    eng.persona_seed = 12_345;
    eng.obf.strength_ppm = 1_000_000;
    let _ = eng.process(key(30, KeyEventType::Down, 1_000_000), 0, 0);
    // Deadline 1.090 s; released at 1.080 s: held until the deadline.
    let up = eng.process(key(30, KeyEventType::Up, 1_080_000), 0, 0);
    assert_eq!(up.emit_at_us, 1_090_000);
    assert!(eng.pending_keyup_times.get(&30).is_none());
    assert_eq!(eng.last_emit_us, 1_090_000);

    // Released 1 ms after the press: the deadline is beyond the 25 ms cap.
    let _ = eng.process(key(30, KeyEventType::Down, 2_000_000), 0, 0);
    let deadline = *eng.pending_keyup_times.get(&30).unwrap();
    let up = eng.process(key(30, KeyEventType::Up, 2_001_000), 0, 0);
    assert!(deadline > 2_026_000);
    assert_eq!(up.emit_at_us, 2_026_000);

    // A keyup with nothing pending goes out at once.
    let up = eng.process(key(44, KeyEventType::Up, 3_000_000), 0, 0);
    assert_eq!(up.emit_at_us, 3_000_000);
}

#[test]
fn keyup_hold_is_unscaled_below_full_strength() {
    // At the default 0.7 the keyup still waits for the full dwell deadline,
    // capped at the full 25 ms.
    let mut eng = make_engine();
    eng.persona_seed = 12_345;
    let _ = eng.process(key(30, KeyEventType::Down, 1_000_000), 0, 0);
    assert_eq!(eng.pending_keyup_times.get(&30), Some(&1_090_000));
    let up = eng.process(key(30, KeyEventType::Up, 1_010_000), 0, 0);
    assert_eq!(up.emit_at_us, 1_035_000);
    let _ = eng.process(key(30, KeyEventType::Down, 2_000_000), 0, 0);
    let up = eng.process(key(30, KeyEventType::Up, 2_080_000), 0, 0);
    assert_eq!(up.emit_at_us, 2_090_000);
}

#[test]
fn typical_dwell_matches_double_precision_formula() {
    let mut eng = make_engine();
    for k in 0..3000u64 {
        eng.persona_seed = k;
        let base_ms: f64 = 90.0;
        let offset_ms = (k as f64 / 100.0) - 15.0;
        let expected = ((base_ms + offset_ms).max(40.0) * 1000.0) as u64;
        assert_eq!(eng.typical_dwell_us(0), expected, "residue {k}");
    }
}

#[test]
fn zero_strength_is_passthrough() {
    let mut eng = make_engine();
    let mut rng = StdRng::seed_from_u64(3);
    eng.obf.strength_ppm = 0;
    let down = process(&mut eng, &mut rng, key(30, KeyEventType::Down, 1_000_000));
    assert_eq!(down.emit_at_us, 1_000_000);
    let up = process(&mut eng, &mut rng, key(30, KeyEventType::Up, 1_010_000));
    assert_eq!(up.emit_at_us, 1_010_000);
    let mut t = 2_000_000;
    for i in 0..100u64 {
        let ty = if i % 2 == 0 { KeyEventType::Down } else { KeyEventType::Up };
        let out = process(&mut eng, &mut rng, key(20 + (i % 7) as u16, ty, t));
        assert_eq!(out.emit_at_us, t);
        t += 1_000 + (i * 3_571) % 50_000;
    }
}

#[test]
fn release_never_precedes_press() {
    let mut eng = make_engine();
    let mut rng = StdRng::seed_from_u64(7);
    let mut t = 1_000_000;
    for i in 0..200u64 {
        let code = 16 + (i % 20) as u16;
        let down = process(&mut eng, &mut rng, key(code, KeyEventType::Down, t));
        t += 3_000 + (i * 7_919) % 40_000;
        let up = process(&mut eng, &mut rng, key(code, KeyEventType::Up, t));
        assert!(down.emit_at_us <= up.emit_at_us);
        t += 1_000;
    }
    // Other keys' events between a press and its release change nothing.
    let down = process(&mut eng, &mut rng, key(50, KeyEventType::Down, t));
    let _ = process(&mut eng, &mut rng, key(51, KeyEventType::Down, t + 500));
    let _ = process(&mut eng, &mut rng, key(51, KeyEventType::Up, t + 900));
    let up = process(&mut eng, &mut rng, key(50, KeyEventType::Up, t + 1_000));
    assert!(down.emit_at_us <= up.emit_at_us);
}

#[test]
fn repeats_pass_through() {
    let mut eng = make_engine();
    let _ = eng.process(key(30, KeyEventType::Down, 1_000_000), 0, 0);
    let last = eng.last_emit_us;
    let ev = key(30, KeyEventType::Repeat, 1_300_000);
    assert_eq!(eng.noise_draws(&ev), 0);
    let out = eng.process(ev, 99, 99);
    assert_eq!(out.emit_at_us, 1_300_000);
    assert_eq!(out.event, ev);
    assert_eq!(eng.last_emit_us, last);
}

#[test]
fn regenerate_persona_forgets_timing_state() {
    let mut eng = make_engine();
    let _ = eng.process(key(30, KeyEventType::Down, 1_000_000), 0, 0);
    assert!(!eng.pending_keyup_times.is_empty());
    eng.regenerate_persona();
    assert!(eng.pending_keyup_times.is_empty());
    assert_eq!(eng.last_emit_us, 0);
    assert!(eng.enabled);
}

#[test]
fn try_process_refuses_overflow_and_empty_ranges() {
    let mut eng = make_engine();
    let ev = key(30, KeyEventType::Down, u64::MAX - 10);
    assert!(eng.try_process(ev, 0, 0).is_none());
    assert!(eng.pending_keyup_times.is_empty());

    let mut eng = make_engine();
    eng.adv.min_dwell_us = 300_000;
    eng.adv.max_dwell_us = 200_000;
    assert!(eng.try_process(key(30, KeyEventType::Down, 1_000), 0, 0).is_none());
    // A keyup never clamps, so it still goes through.
    assert!(eng.try_process(key(30, KeyEventType::Up, 1_000), 0, 0).is_some());
}

#[test]
fn undrawn_noise_is_ignored() {
    let mut a = make_engine();
    let mut b = make_engine();
    b.persona_seed = a.persona_seed;
    // First keydown: only the dwell draw is taken.
    let ev = key(30, KeyEventType::Down, 1_000_000);
    assert_eq!(a.noise_draws(&ev), 1);
    let out_a = a.process(ev, 0, 2_000);
    let out_b = b.process(ev, -77_777, 2_000);
    assert_eq!(out_a.emit_at_us, out_b.emit_at_us);
    assert_eq!(a.pending_keyup_times, b.pending_keyup_times);
}
