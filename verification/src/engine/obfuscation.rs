//! The obfuscation engine: quantise, add noise, clamp, with a per-session
//! persona seed.
//!
//! Timings are integers in microseconds. The Gaussian noise is drawn by the
//! caller, who hands each draw to `process` in whole microseconds;
//! `noise_draws` says how many draws an event takes, in the order flight
//! noise, then dwell noise.
use std::collections::HashMap;

use vstd::prelude::*;

use crate::engine::config::{max_u64, AdvancedConfig, ObfuscationConfig, FULL_STRENGTH_PPM};
use crate::platform::{is_modifier, spec_is_modifier, KeyEvent, KeyEventType, Platform};

verus! {

broadcast use vstd::std_specs::hash::group_hash_axioms;

// ── Scheduled event ────────────────────────────────────────────────────────

/// An event together with the absolute (monotonic, µs) time at which it
/// should be emitted.
#[derive(Debug, Clone, Copy)]
pub struct ScheduledEvent {
    pub event: KeyEvent,
    /// Absolute monotonic timestamp in microseconds when we should emit.
    pub emit_at_us: u64,
}

/// Scheduled events are equal when they are due at the same time.
impl PartialEq for ScheduledEvent {
    fn eq(&self, other: &Self) -> (r: bool) {
        self.emit_at_us == other.emit_at_us
    }
}

impl Eq for ScheduledEvent {}

impl vstd::std_specs::cmp::PartialEqSpecImpl for ScheduledEvent {
    open spec fn obeys_eq_spec() -> bool {
        true
    }

    open spec fn eq_spec(&self, other: &Self) -> bool {
        self.emit_at_us == other.emit_at_us
    }
}

// ── Timing arithmetic ──────────────────────────────────────────────────────

/// `x` rounded to the nearest multiple of `bucket`, halves rounded up.
pub open spec fn quantize(x: int, bucket: int) -> int {
    ((2 * x + bucket) / (2 * bucket)) * bucket
}

pub open spec fn clamp_int(v: int, lo: int, hi: int) -> int {
    if v < lo {
        lo
    } else if v > hi {
        hi
    } else {
        v
    }
}

/// Hybrid obfuscation of one interval: quantise to the bucket, add the
/// noise, clamp to `[min_us, max_us]`. A zero bucket leaves no meaningful
/// quantum and the interval becomes 0.
pub open spec fn spec_obfuscate(
    original_us: u64,
    bucket_us: u64,
    min_us: u64,
    max_us: u64,
    noise_us: i64,
) -> int {
    if bucket_us == 0 {
        0
    } else {
        clamp_int(quantize(original_us as int, bucket_us as int) + noise_us, min_us as int, max_us as int)
    }
}

proof fn lemma_quantize_bounds(x: int, b: int)
    requires
        0 <= x,
        0 < b,
    ensures
        0 <= quantize(x, b) <= x + b,
{
    let q = (2 * x + b) / (2 * b);
    assert(0 <= q) by (nonlinear_arith)
        requires
            q == (2 * x + b) / (2 * b),
            0 <= x,
            0 < b,
    ;
    assert(q * (2 * b) <= 2 * x + b) by (nonlinear_arith)
        requires
            q == (2 * x + b) / (2 * b),
            0 <= x,
            0 < b,
    ;
    assert(0 <= q * b <= x + b) by (nonlinear_arith)
        requires
            q * (2 * b) <= 2 * x + b,
            0 <= q,
            0 < b,
    ;
}

/// Hybrid obfuscation: quantise → noise → clamp.
pub fn obfuscate_timing(
    original_us: u64,
    bucket_us: u64,
    min_us: u64,
    max_us: u64,
    noise_us: i64,
) -> (r: u64)
    requires
        min_us <= max_us,
    ensures
        r == spec_obfuscate(original_us, bucket_us, min_us, max_us, noise_us),
        bucket_us > 0 ==> min_us <= r <= max_us,
{
    if bucket_us == 0 {
        return 0;
    }
    let x = original_us as u128;
    let b = bucket_us as u128;
    let q = (2 * x + b) / (2 * b);
    proof {
        lemma_quantize_bounds(x as int, b as int);
        assert(q * b == quantize(x as int, b as int));
    }
    let quantized = q * b;
    let noised = quantized as i128 + noise_us as i128;
    if noised < min_us as i128 {
        min_us
    } else if noised > max_us as i128 {
        max_us
    } else {
        noised as u64
    }
}

/// One microsecond that the persona's typical dwell loses for the offset
/// index `k` (0 ≤ k < 3000): the dwell is computed in milliseconds in double
/// precision as `90 + (k / 100 − 15)` and truncated to microseconds; `k / 100`
/// is not exact in binary, and for `k ≡ 4 (mod 25)` outside `700..800` the
/// rounded sum falls just below the exact value, so the truncation drops one
/// microsecond.
pub open spec fn dwell_rounding_loss(k: int) -> int {
    if k % 25 == 4 && !(700 <= k < 800) {
        1
    } else {
        0
    }
}

/// The persona's typical dwell for a key: a base of 90 ms with a per-key
/// offset of −15 ms to +14.99 ms derived from the persona seed (less the
/// rounding loss above), at least 40 ms.
pub open spec fn spec_typical_dwell(seed: u64, key_code: u16) -> int {
    let hash = (seed as nat * (key_code as nat + 1)) % 0x1_0000_0000_0000_0000;
    let k = hash % 3000;
    let dwell = 90_000 + k * 10 - 15_000 - dwell_rounding_loss(k as int);
    if dwell >= 40_000 {
        dwell
    } else {
        40_000
    }
}

/// `delay` scaled by a strength in parts per million, rounded down and
/// saturated to `u64`.
pub open spec fn scale_by_strength(delay: int, strength_ppm: u32) -> int {
    let s = delay * strength_ppm / (FULL_STRENGTH_PPM as int);
    if s > u64::MAX {
        u64::MAX as int
    } else {
        s
    }
}

fn scale_delay(delay: u64, strength_ppm: u32) -> (r: u64)
    ensures
        r == scale_by_strength(delay as int, strength_ppm),
{
    assert(delay * strength_ppm <= u64::MAX * u32::MAX) by (nonlinear_arith)
        requires
            delay <= u64::MAX,
            strength_ppm <= u32::MAX,
    ;
    let s = (delay as u128 * strength_ppm as u128) / (FULL_STRENGTH_PPM as u128);
    if s > u64::MAX as u128 {
        u64::MAX
    } else {
        s as u64
    }
}

/// The flight time of a keydown: the time since the last emitted event, or 0
/// when nothing has been emitted yet (or the clock went backwards).
pub open spec fn original_flight(last_emit_us: u64, now_us: u64) -> int {
    if last_emit_us == 0 {
        0
    } else if now_us >= last_emit_us {
        now_us - last_emit_us
    } else {
        0
    }
}

/// The obfuscated flight time of a keydown (0 when it has no flight time).
pub open spec fn obfuscated_flight(
    obf: ObfuscationConfig,
    adv: AdvancedConfig,
    last_emit_us: u64,
    now_us: u64,
    flight_noise_us: i64,
) -> int {
    let f = original_flight(last_emit_us, now_us);
    if f == 0 {
        0
    } else {
        spec_obfuscate(f as u64, obf.flight_bucket_us, adv.min_flight_us, adv.max_flight_us, flight_noise_us)
    }
}

/// The delay added to a keydown: how much the obfuscated flight time
/// exceeds the unobfuscated one, capped at the maximum latency, then scaled by
/// the strength.
pub open spec fn keydown_delay(
    obf: ObfuscationConfig,
    adv: AdvancedConfig,
    last_emit_us: u64,
    now_us: u64,
    flight_noise_us: i64,
) -> int {
    let f = original_flight(last_emit_us, now_us);
    let of = obfuscated_flight(obf, adv, last_emit_us, now_us, flight_noise_us);
    let d0 = if of >= f {
        of - f
    } else {
        0
    };
    let d1 = if d0 > obf.max_latency_us {
        obf.max_latency_us as int
    } else {
        d0
    };
    scale_by_strength(d1, obf.strength_ppm)
}

/// The obfuscated dwell a keydown reserves for its key.
pub open spec fn keydown_dwell(
    obf: ObfuscationConfig,
    adv: AdvancedConfig,
    seed: u64,
    key_code: u16,
    dwell_noise_us: i64,
) -> int {
    spec_obfuscate(
        spec_typical_dwell(seed, key_code) as u64,
        obf.dwell_bucket_us,
        adv.min_dwell_us,
        adv.max_dwell_us,
        dwell_noise_us,
    )
}

/// When a keyup is emitted. With a strength of 0 (passthrough) it goes out
/// at once. Otherwise it goes out not before the deadline its keydown
/// reserved, never before now, and never later than now plus the maximum
/// latency; a keyup without a reserved deadline goes out now.
pub open spec fn keyup_emit(obf: ObfuscationConfig, pending: Map<u16, u64>, key_code: u16, now_us: u64) -> int {
    if obf.strength_ppm != 0 && pending.contains_key(key_code) {
        let ideal = max_u64(pending[key_code], now_us) as int;
        let latest = now_us + obf.max_latency_us;
        if ideal <= latest {
            ideal
        } else {
            latest
        }
    } else {
        now_us as int
    }
}

/// The event as it is emitted: its timestamp replaced by the emit time.
pub open spec fn retimed(event: KeyEvent, emit_at_us: u64) -> ScheduledEvent {
    ScheduledEvent {
        event: KeyEvent { timestamp_us: emit_at_us, ..event },
        emit_at_us,
    }
}

// ── Obfuscation engine ────────────────────────────────────────────────────

/// Core obfuscation logic: quantise, add Gaussian noise, clamp, per-session
/// persona seed.
pub struct ObfuscationEngine {
    pub obf: ObfuscationConfig,
    pub adv: AdvancedConfig,
    /// Per-session persona seed — makes cross-session linking harder.
    pub persona_seed: u64,
    /// Tracks scheduled keyup deadlines keyed by key code.
    pub pending_keyup_times: HashMap<u16, u64>,
    /// Timestamp (µs) of the last *emitted* event for flight-time calculation.
    pub last_emit_us: u64,
    /// Whether obfuscation is currently active.
    pub enabled: bool,
    /// The platform whose key codes the events carry.
    pub platform: Platform,
}

/// Draws a fresh persona seed: calls `rand::random::<u64>()`, which is
/// `thread_rng().gen()`. The seed is random, so nothing is stated of it.
/// The call panics only when the operating system's random source cannot
/// initialise the thread's generator.
#[verifier::external_body]
fn fresh_persona_seed() -> u64 {
    rand::random::<u64>()
}

impl ObfuscationEngine {
    /// The keyup deadlines reserved so far, by key code.
    pub open spec fn pending(&self) -> Map<u16, u64> {
        self.pending_keyup_times@
    }

    /// The emit time of the last event that went through the engine's timing.
    pub open spec fn last_emit(&self) -> u64 {
        self.last_emit_us
    }

    /// The settings (everything but the timing state) are those of `other`.
    pub open spec fn same_settings(&self, other: &Self) -> bool {
        &&& self.obf == other.obf
        &&& self.adv == other.adv
        &&& self.persona_seed == other.persona_seed
        &&& self.enabled == other.enabled
        &&& self.platform == other.platform
    }

    /// The event leaves the engine at its own timestamp, touching no state:
    /// obfuscation is off, the key is a modifier, or the event is a repeat.
    pub open spec fn passes_through(&self, event: KeyEvent) -> bool {
        ||| !self.enabled
        ||| spec_is_modifier(self.platform, event.key_code)
        ||| event.event_type == KeyEventType::Repeat
    }

    /// How many noise draws `process` consumes for `event` from the state
    /// `last_emit_us`: a keydown with a flight time takes a flight draw and a
    /// dwell draw, one without takes the dwell draw only, others take none.
    pub open spec fn spec_noise_draws(&self, last_emit_us: u64, event: KeyEvent) -> int {
        if self.passes_through(event) || event.event_type != KeyEventType::Down {
            0
        } else if original_flight(last_emit_us, event.timestamp_us) != 0 {
            2
        } else {
            1
        }
    }

    /// The step is defined on this input: every range it clamps to is
    /// non-empty, and no timestamp it forms exceeds `u64`.
    pub open spec fn can_step(
        &self,
        pending: Map<u16, u64>,
        last_emit_us: u64,
        event: KeyEvent,
        flight_noise_us: i64,
        dwell_noise_us: i64,
    ) -> bool {
        let now = event.timestamp_us;
        if self.passes_through(event) {
            true
        } else if event.event_type == KeyEventType::Down {
            &&& (original_flight(last_emit_us, now) != 0 ==> self.adv.min_flight_us
                <= self.adv.max_flight_us)
            &&& self.adv.min_dwell_us <= self.adv.max_dwell_us
            &&& now + keydown_delay(self.obf, self.adv, last_emit_us, now, flight_noise_us)
                + keydown_dwell(self.obf, self.adv, self.persona_seed, event.key_code, dwell_noise_us)
                <= u64::MAX
        } else {
            self.obf.strength_ppm != 0 && pending.contains_key(event.key_code) ==> now
                + self.obf.max_latency_us <= u64::MAX
        }
    }

    /// One step of the engine from the timing state `(pending, last_emit_us)`:
    /// the new pending deadlines, the new last emit time, and the scheduled
    /// event.
    pub open spec fn step(
        &self,
        pending: Map<u16, u64>,
        last_emit_us: u64,
        event: KeyEvent,
        flight_noise_us: i64,
        dwell_noise_us: i64,
    ) -> (Map<u16, u64>, u64, ScheduledEvent) {
        let now = event.timestamp_us;
        if self.passes_through(event) {
            (pending, last_emit_us, ScheduledEvent { event, emit_at_us: now })
        } else if event.event_type == KeyEventType::Down {
            let emit = (now + keydown_delay(self.obf, self.adv, last_emit_us, now, flight_noise_us)) as u64;
            let deadline = (emit + keydown_dwell(
                self.obf,
                self.adv,
                self.persona_seed,
                event.key_code,
                dwell_noise_us,
            )) as u64;
            (pending.insert(event.key_code, deadline), emit, retimed(event, emit))
        } else {
            let emit = keyup_emit(self.obf, pending, event.key_code, now) as u64;
            (pending.remove(event.key_code), emit, retimed(event, emit))
        }
    }

    pub fn new(obf: ObfuscationConfig, adv: AdvancedConfig, platform: Platform) -> (r: Self)
        ensures
            r.obf == obf,
            r.adv == adv,
            r.platform == platform,
            r.enabled,
            r.pending() == Map::<u16, u64>::empty(),
            r.last_emit() == 0,
    {
        let persona_seed = fresh_persona_seed();
        Self::with_seed(obf, adv, platform, persona_seed)
    }

    /// An engine for the persona `persona_seed`, with obfuscation on and no
    /// timing state yet.
    pub fn with_seed(obf: ObfuscationConfig, adv: AdvancedConfig, platform: Platform, persona_seed: u64) -> (r:
        Self)
        ensures
            r.obf == obf,
            r.adv == adv,
            r.platform == platform,
            r.persona_seed == persona_seed,
            r.enabled,
            r.pending() == Map::<u16, u64>::empty(),
            r.last_emit() == 0,
    {
        ObfuscationEngine {
            obf,
            adv,
            persona_seed,
            pending_keyup_times: HashMap::new(),
            last_emit_us: 0,
            enabled: true,
            platform,
        }
    }

    /// Re-roll the persona seed (e.g. on user request or session restart).
    /// Forgets every reserved deadline and the last emit time.
    pub fn regenerate_persona(&mut self)
        ensures
            final(self).obf == old(self).obf,
            final(self).adv == old(self).adv,
            final(self).enabled == old(self).enabled,
            final(self).platform == old(self).platform,
            final(self).pending() == Map::<u16, u64>::empty(),
            final(self).last_emit() == 0,
    {
        let seed = fresh_persona_seed();
        self.reseed(seed);
    }

    /// Switch to the persona `persona_seed`: forgets every reserved deadline
    /// and the last emit time; the settings stay.
    pub fn reseed(&mut self, persona_seed: u64)
        ensures
            final(self).obf == old(self).obf,
            final(self).adv == old(self).adv,
            final(self).enabled == old(self).enabled,
            final(self).platform == old(self).platform,
            final(self).persona_seed == persona_seed,
            final(self).pending() == Map::<u16, u64>::empty(),
            final(self).last_emit() == 0,
    {
        self.persona_seed = persona_seed;
        self.pending_keyup_times.clear();
        self.last_emit_us = 0;
    }

    /// How many Gaussian noise draws `process` takes for this event, in the
    /// order flight, then dwell.
    pub fn noise_draws(&self, event: &KeyEvent) -> (n: u8)
        ensures
            n == self.spec_noise_draws(self.last_emit(), *event),
    {
        if !self.enabled || is_modifier(self.platform, event.key_code) {
            return 0;
        }
        match event.event_type {
            KeyEventType::Down => {
                if self.flight_us(event.timestamp_us) != 0 {
                    2
                } else {
                    1
                }
            },
            _ => 0,
        }
    }

    fn flight_us(&self, now_us: u64) -> (r: u64)
        ensures
            r == original_flight(self.last_emit_us, now_us),
    {
        if self.last_emit_us == 0 {
            0
        } else {
            now_us.saturating_sub(self.last_emit_us)
        }
    }

    /// Process an incoming key event and return a `ScheduledEvent` with the
    /// (possibly delayed) emit time. `flight_noise_us` and `dwell_noise_us`
    /// are the Gaussian draws (µs) for the flight and the dwell time; a draw
    /// that `noise_draws` does not ask for is ignored.
    pub fn process(&mut self, event: KeyEvent, flight_noise_us: i64, dwell_noise_us: i64) -> (r:
        ScheduledEvent)
        requires
            old(self).can_step(
                old(self).pending(),
                old(self).last_emit(),
                event,
                flight_noise_us,
                dwell_noise_us,
            ),
        ensures
            final(self).same_settings(old(self)),
            (final(self).pending(), final(self).last_emit(), r) == old(self).step(
                old(self).pending(),
                old(self).last_emit(),
                event,
                flight_noise_us,
                dwell_noise_us,
            ),
    {
        let r = self.try_process(event, flight_noise_us, dwell_noise_us);
        r.unwrap()
    }

    /// `process` where the step is defined; `None`, with the
    /// engine unchanged, where it would leave a valid range or overflow.
    pub fn try_process(&mut self, event: KeyEvent, flight_noise_us: i64, dwell_noise_us: i64) -> (r:
        Option<ScheduledEvent>)
        ensures
            final(self).same_settings(old(self)),
            r is Some <==> old(self).can_step(
                old(self).pending(),
                old(self).last_emit(),
                event,
                flight_noise_us,
                dwell_noise_us,
            ),
            r matches Some(out) ==> (final(self).pending(), final(self).last_emit(), out) == old(
                self,
            ).step(old(self).pending(), old(self).last_emit(), event, flight_noise_us, dwell_noise_us),
            r is None ==> final(self).pending() == old(self).pending() && final(self).last_emit()
                == old(self).last_emit(),
    {
        let now_us = event.timestamp_us;
        // Pass-through when disabled or for modifier keys.
        if !self.enabled || is_modifier(self.platform, event.key_code) {
            return Some(ScheduledEvent { event, emit_at_us: now_us });
        }
        match event.event_type {
            KeyEventType::Down => self.process_keydown(event, now_us, flight_noise_us, dwell_noise_us),
            KeyEventType::Up => self.process_keyup(event, now_us),
            KeyEventType::Repeat => Some(ScheduledEvent { event, emit_at_us: now_us }),
        }
    }

    fn process_keydown(&mut self, event: KeyEvent, now_us: u64, flight_noise_us: i64, dwell_noise_us: i64) -> (r:
        Option<ScheduledEvent>)
        requires
            !old(self).passes_through(event),
            event.event_type == KeyEventType::Down,
            now_us == event.timestamp_us,
        ensures
            final(self).same_settings(old(self)),
            r is Some <==> old(self).can_step(
                old(self).pending(),
                old(self).last_emit(),
                event,
                flight_noise_us,
                dwell_noise_us,
            ),
            r matches Some(out) ==> (final(self).pending(), final(self).last_emit(), out) == old(
                self,
            ).step(old(self).pending(), old(self).last_emit(), event, flight_noise_us, dwell_noise_us),
            r is None ==> final(self).pending() == old(self).pending() && final(self).last_emit()
                == old(self).last_emit(),
    {
        // Original flight time from the last emitted event.
        let original_flight_us = self.flight_us(now_us);
        // Obfuscate flight time.
        let obfuscated_flight_us = if original_flight_us == 0 {
            0
        } else {
            if self.adv.min_flight_us > self.adv.max_flight_us {
                return None;
            }
            obfuscate_timing(
                original_flight_us,
                self.obf.flight_bucket_us,
                self.adv.min_flight_us,
                self.adv.max_flight_us,
                flight_noise_us,
            )
        };
        // The delay we need to add (never negative).
        let mut delay_us = obfuscated_flight_us.saturating_sub(original_flight_us);
        // Honour max-latency cap.
        let cap_us = self.obf.max_latency_us;
        if delay_us > cap_us {
            delay_us = cap_us;
        }
        // Apply strength blending.
        delay_us = scale_delay(delay_us, self.obf.strength_ppm);

        // Pre-calculate obfuscated dwell so we know when to emit the keyup.
        if self.adv.min_dwell_us > self.adv.max_dwell_us {
            return None;
        }
        let typical_dwell = self.typical_dwell_us(event.key_code);
        let target_dwell_us = obfuscate_timing(
            typical_dwell,
            self.obf.dwell_bucket_us,
            self.adv.min_dwell_us,
            self.adv.max_dwell_us,
            dwell_noise_us,
        );
        if delay_us > u64::MAX - now_us {
            return None;
        }
        let emit_at = now_us + delay_us;
        if target_dwell_us > u64::MAX - emit_at {
            return None;
        }
        // Store earliest keyup emit time.
        self.pending_keyup_times.insert(event.key_code, emit_at + target_dwell_us);
        self.last_emit_us = emit_at;
        Some(ScheduledEvent { event: KeyEvent { timestamp_us: emit_at, ..event }, emit_at_us: emit_at })
    }

    fn process_keyup(&mut self, event: KeyEvent, now_us: u64) -> (r: Option<ScheduledEvent>)
        requires
            !old(self).passes_through(event),
            event.event_type == KeyEventType::Up,
            now_us == event.timestamp_us,
        ensures
            final(self).same_settings(old(self)),
            r is Some <==> old(self).can_step(old(self).pending(), old(self).last_emit(), event, 0, 0),
            r matches Some(out) ==> (final(self).pending(), final(self).last_emit(), out) == old(
                self,
            ).step(old(self).pending(), old(self).last_emit(), event, 0, 0),
            r is None ==> final(self).pending() == old(self).pending() && final(self).last_emit()
                == old(self).last_emit(),
    {
        let reserved = if self.obf.strength_ppm == 0 {
            // Strength 0 is passthrough: nothing is held back.
            None
        } else {
            self.pending_keyup_times.get(&event.key_code)
        };
        let emit_at = match reserved {
            Some(min_up_time) => {
                // Ensure the keyup doesn't arrive before the obfuscated dwell
                // has elapsed, but don't delay more than max-latency from now.
                let cap_us = self.obf.max_latency_us;
                if cap_us > u64::MAX - now_us {
                    return None;
                }
                let latest = now_us + cap_us;
                // never go back in time
                let ideal = if *min_up_time >= now_us {
                    *min_up_time
                } else {
                    now_us
                };
                // but respect the cap
                if ideal <= latest {
                    ideal
                } else {
                    latest
                }
            },
            None => now_us,
        };
        self.pending_keyup_times.remove(&event.key_code);
        self.last_emit_us = emit_at;
        Some(ScheduledEvent { event: KeyEvent { timestamp_us: emit_at, ..event }, emit_at_us: emit_at })
    }

    /// Returns a rough "typical" dwell time for a key, with a small
    /// per-persona perturbation so the synthetic dwell isn't identical
    /// across sessions.
    pub fn typical_dwell_us(&self, key_code: u16) -> (r: u64)
        ensures
            r == spec_typical_dwell(self.persona_seed, key_code),
    {
        // Base 90 ms, with a persona-dependent per-key tweak of ±15 ms.
        let hash = self.persona_seed.wrapping_mul(key_code as u64 + 1);
        let k = hash % 3000;
        let loss: u64 = if k % 25 == 4 && !(700 <= k && k < 800) {
            1
        } else {
            0
        };
        let dwell_us = 90_000 + k * 10 - 15_000 - loss;
        if dwell_us >= 40_000 {
            dwell_us
        } else {
            40_000
        }
    }
}

// ── Laws ───────────────────────────────────────────────────────────────────

/// An obfuscated interval always lies in its physiological range
/// `[min_us, max_us]`, whatever the noise, once the bucket is positive.
pub proof fn lemma_obfuscated_within_bounds(
    original_us: u64,
    bucket_us: u64,
    min_us: u64,
    max_us: u64,
    noise_us: i64,
)
    requires
        bucket_us > 0,
        min_us <= max_us,
    ensures
        min_us <= spec_obfuscate(original_us, bucket_us, min_us, max_us, noise_us) <= max_us,
{
}

/// Quantisation leaves no trace of the precise timing: without noise, an
/// interval whose quantum lies in range comes out as a whole number of
/// buckets.
pub proof fn lemma_quantised_to_bucket_grid(original_us: u64, bucket_us: u64, min_us: u64, max_us: u64)
    requires
        bucket_us > 0,
        min_us <= quantize(original_us as int, bucket_us as int) <= max_us,
    ensures
        spec_obfuscate(original_us, bucket_us, min_us, max_us, 0) % (bucket_us as int) == 0,
{
    let q = (2 * original_us + bucket_us) / (2 * bucket_us as int);
    vstd::arithmetic::div_mod::lemma_mod_multiples_basic(q, bucket_us as int);
}

/// The typical dwell of every key lies between 75 ms and 104.99 ms.
pub proof fn lemma_typical_dwell_range(seed: u64, key_code: u16)
    ensures
        75_000 <= spec_typical_dwell(seed, key_code) <= 104_990,
{
}

proof fn lemma_scale_at_most(delay: int, strength_ppm: u32)
    requires
        0 <= delay,
        strength_ppm <= FULL_STRENGTH_PPM,
    ensures
        0 <= scale_by_strength(delay, strength_ppm) <= delay,
{
    assert(0 <= delay * strength_ppm / 1_000_000 <= delay) by (nonlinear_arith)
        requires
            0 <= delay,
            0 <= strength_ppm <= 1_000_000,
    ;
}

proof fn lemma_obfuscate_nonneg(original_us: u64, bucket_us: u64, min_us: u64, max_us: u64, noise_us: i64)
    requires
        min_us <= max_us,
    ensures
        0 <= spec_obfuscate(original_us, bucket_us, min_us, max_us, noise_us) <= max_us,
{
}

proof fn lemma_scale_nonneg(delay: int, strength_ppm: u32)
    requires
        0 <= delay,
    ensures
        0 <= scale_by_strength(delay, strength_ppm),
{
    assert(0 <= delay * strength_ppm / 1_000_000) by (nonlinear_arith)
        requires
            0 <= delay,
            0 <= strength_ppm,
    ;
}

proof fn lemma_scale_monotone(a: int, b: int, strength_ppm: u32)
    requires
        0 <= a <= b,
    ensures
        scale_by_strength(a, strength_ppm) <= scale_by_strength(b, strength_ppm),
{
    assert(a * strength_ppm <= b * strength_ppm) by (nonlinear_arith)
        requires
            0 <= a <= b,
            0 <= strength_ppm,
    ;
    vstd::arithmetic::div_mod::lemma_div_is_ordered(a * strength_ppm, b * strength_ppm, 1_000_000);
}

/// The keydown delay is the strength's share of at most the maximum latency.
proof fn lemma_keydown_delay_bounds(
    obf: ObfuscationConfig,
    adv: AdvancedConfig,
    last_emit_us: u64,
    now_us: u64,
    flight_noise_us: i64,
)
    ensures
        0 <= keydown_delay(obf, adv, last_emit_us, now_us, flight_noise_us) <= scale_by_strength(
            obf.max_latency_us as int,
            obf.strength_ppm,
        ),
        obf.strength_ppm <= FULL_STRENGTH_PPM ==> keydown_delay(obf, adv, last_emit_us, now_us, flight_noise_us)
            <= obf.max_latency_us,
        obf.strength_ppm == 0 ==> keydown_delay(obf, adv, last_emit_us, now_us, flight_noise_us) == 0,
{
    let f = original_flight(last_emit_us, now_us);
    let of = obfuscated_flight(obf, adv, last_emit_us, now_us, flight_noise_us);
    let d0 = if of >= f {
        of - f
    } else {
        0
    };
    let d1 = if d0 > obf.max_latency_us {
        obf.max_latency_us as int
    } else {
        d0
    };
    lemma_scale_nonneg(d1, obf.strength_ppm);
    lemma_scale_monotone(d1, obf.max_latency_us as int, obf.strength_ppm);
    if obf.strength_ppm == 0 {
        assert(d1 * obf.strength_ppm == 0) by (nonlinear_arith)
            requires
                obf.strength_ppm == 0,
        ;
    }
    if obf.strength_ppm <= FULL_STRENGTH_PPM {
        lemma_scale_at_most(obf.max_latency_us as int, obf.strength_ppm);
    }
}

/// Whatever passes through (obfuscation off, a modifier key, a key repeat)
/// is emitted at its own timestamp, unchanged, and leaves the timing state
/// as it was.
pub proof fn lemma_passthrough_unchanged(
    e: ObfuscationEngine,
    pending: Map<u16, u64>,
    last_emit_us: u64,
    event: KeyEvent,
    flight_noise_us: i64,
    dwell_noise_us: i64,
)
    requires
        !e.enabled || spec_is_modifier(e.platform, event.key_code) || event.event_type
            == KeyEventType::Repeat,
    ensures
        e.can_step(pending, last_emit_us, event, flight_noise_us, dwell_noise_us),
        e.step(pending, last_emit_us, event, flight_noise_us, dwell_noise_us) == (
            pending,
            last_emit_us,
            ScheduledEvent { event, emit_at_us: event.timestamp_us },
        ),
        e.spec_noise_draws(last_emit_us, event) == 0,
{
}

/// A noise draw that `noise_draws` does not ask for has no effect: without
/// a flight draw the flight noise is ignored, without any draw both are.
pub proof fn lemma_undrawn_noise_ignored(
    e: ObfuscationEngine,
    pending: Map<u16, u64>,
    last_emit_us: u64,
    event: KeyEvent,
    flight_a: i64,
    flight_b: i64,
    dwell_a: i64,
    dwell_b: i64,
)
    ensures
        e.spec_noise_draws(last_emit_us, event) < 2 ==> e.step(
            pending,
            last_emit_us,
            event,
            flight_a,
            dwell_a,
        ) == e.step(pending, last_emit_us, event, flight_b, dwell_a) && e.can_step(
            pending,
            last_emit_us,
            event,
            flight_a,
            dwell_a,
        ) == e.can_step(pending, last_emit_us, event, flight_b, dwell_a),
        e.spec_noise_draws(last_emit_us, event) == 0 ==> e.step(
            pending,
            last_emit_us,
            event,
            flight_a,
            dwell_a,
        ) == e.step(pending, last_emit_us, event, flight_b, dwell_b) && e.can_step(
            pending,
            last_emit_us,
            event,
            flight_a,
            dwell_a,
        ) == e.can_step(pending, last_emit_us, event, flight_b, dwell_b),
{
}

/// The engine never moves an event back in time, and with a strength of at
/// most full it never delays an event by more than the maximum latency.
pub proof fn lemma_latency_bounded(
    e: ObfuscationEngine,
    pending: Map<u16, u64>,
    last_emit_us: u64,
    event: KeyEvent,
    flight_noise_us: i64,
    dwell_noise_us: i64,
)
    requires
        e.can_step(pending, last_emit_us, event, flight_noise_us, dwell_noise_us),
        e.obf.strength_ppm <= FULL_STRENGTH_PPM,
    ensures
        ({
            let out = e.step(pending, last_emit_us, event, flight_noise_us, dwell_noise_us).2;
            event.timestamp_us <= out.emit_at_us <= event.timestamp_us + e.obf.max_latency_us
        }),
{
    lemma_keydown_delay_bounds(e.obf, e.adv, last_emit_us, event.timestamp_us, flight_noise_us);
    lemma_scale_at_most(e.obf.max_latency_us as int, e.obf.strength_ppm);
    if !e.passes_through(event) && event.event_type == KeyEventType::Down {
        lemma_obfuscate_nonneg(
            spec_typical_dwell(e.persona_seed, event.key_code) as u64,
            e.obf.dwell_bucket_us,
            e.adv.min_dwell_us,
            e.adv.max_dwell_us,
            dwell_noise_us,
        );
    }
}

/// The scheduled event is the input event with its timestamp replaced by
/// the emit time: key code and event type are kept.
pub proof fn lemma_output_is_retimed_input(
    e: ObfuscationEngine,
    pending: Map<u16, u64>,
    last_emit_us: u64,
    event: KeyEvent,
    flight_noise_us: i64,
    dwell_noise_us: i64,
)
    ensures
        ({
            let out = e.step(pending, last_emit_us, event, flight_noise_us, dwell_noise_us).2;
            &&& out.event.key_code == event.key_code
            &&& out.event.event_type == event.event_type
            &&& out.event.timestamp_us == out.emit_at_us
        }),
{
}

/// A stronger setting never emits a keydown earlier: with everything else
/// equal, the delay grows with the strength.
pub proof fn lemma_strength_monotone(
    weak: ObfuscationEngine,
    strong: ObfuscationEngine,
    pending: Map<u16, u64>,
    last_emit_us: u64,
    event: KeyEvent,
    flight_noise_us: i64,
    dwell_noise_us: i64,
)
    requires
        weak.obf == (ObfuscationConfig { strength_ppm: weak.obf.strength_ppm, ..strong.obf }),
        weak.obf.strength_ppm <= strong.obf.strength_ppm,
        weak.adv == strong.adv,
        weak.persona_seed == strong.persona_seed,
        weak.enabled == strong.enabled,
        weak.platform == strong.platform,
        event.event_type == KeyEventType::Down,
        weak.can_step(pending, last_emit_us, event, flight_noise_us, dwell_noise_us),
        strong.can_step(pending, last_emit_us, event, flight_noise_us, dwell_noise_us),
    ensures
        weak.step(pending, last_emit_us, event, flight_noise_us, dwell_noise_us).2.emit_at_us
            <= strong.step(pending, last_emit_us, event, flight_noise_us, dwell_noise_us).2.emit_at_us,
{
    let now = event.timestamp_us;
    let f = original_flight(last_emit_us, now);
    let of = obfuscated_flight(strong.obf, strong.adv, last_emit_us, now, flight_noise_us);
    assert(of == obfuscated_flight(weak.obf, weak.adv, last_emit_us, now, flight_noise_us));
    let d0 = if of >= f {
        of - f
    } else {
        0
    };
    let d1 = if d0 > strong.obf.max_latency_us {
        strong.obf.max_latency_us as int
    } else {
        d0
    };
    let ws = weak.obf.strength_ppm as int;
    let ss = strong.obf.strength_ppm as int;
    assert(d1 * ws <= d1 * ss) by (nonlinear_arith)
        requires
            0 <= d1,
            ws <= ss,
    ;
    vstd::arithmetic::div_mod::lemma_div_is_ordered(d1 * ws, d1 * ss, 1_000_000);
}

/// A strength of 0 is passthrough timing: every event, press or release,
/// is emitted at its own timestamp.
pub proof fn lemma_zero_strength_passthrough(
    e: ObfuscationEngine,
    pending: Map<u16, u64>,
    last_emit_us: u64,
    event: KeyEvent,
    flight_noise_us: i64,
    dwell_noise_us: i64,
)
    requires
        e.obf.strength_ppm == 0,
    ensures
        e.step(pending, last_emit_us, event, flight_noise_us, dwell_noise_us).2.emit_at_us
            == event.timestamp_us,
{
}

/// A keydown reserves a keyup deadline for its key that lies between the
/// minimum and the maximum dwell after its own emit time, and becomes the
/// last emitted event; no other key's deadline appears or disappears.
pub proof fn lemma_keydown_reserves_dwell(
    e: ObfuscationEngine,
    pending: Map<u16, u64>,
    last_emit_us: u64,
    event: KeyEvent,
    flight_noise_us: i64,
    dwell_noise_us: i64,
)
    requires
        e.can_step(pending, last_emit_us, event, flight_noise_us, dwell_noise_us),
        !e.passes_through(event),
        event.event_type == KeyEventType::Down,
        e.obf.dwell_bucket_us > 0,
    ensures
        ({
            let (p, l, out) = e.step(pending, last_emit_us, event, flight_noise_us, dwell_noise_us);
            &&& p.contains_key(event.key_code)
            &&& out.emit_at_us + e.adv.min_dwell_us <= p[event.key_code]
            &&& p[event.key_code] <= out.emit_at_us + e.adv.max_dwell_us
            &&& l == out.emit_at_us
            &&& forall|k: u16| k != event.key_code ==> p.contains_key(k) == pending.contains_key(k)
        }),
{
    lemma_obfuscated_within_bounds(
        spec_typical_dwell(e.persona_seed, event.key_code) as u64,
        e.obf.dwell_bucket_us,
        e.adv.min_dwell_us,
        e.adv.max_dwell_us,
        dwell_noise_us,
    );
    lemma_keydown_delay_bounds(e.obf, e.adv, last_emit_us, event.timestamp_us, flight_noise_us);
}

/// A keyup releases its key's reserved deadline.
pub proof fn lemma_keyup_clears_deadline(
    e: ObfuscationEngine,
    pending: Map<u16, u64>,
    last_emit_us: u64,
    event: KeyEvent,
    flight_noise_us: i64,
    dwell_noise_us: i64,
)
    requires
        !e.passes_through(event),
        event.event_type == KeyEventType::Up,
    ensures
        ({
            let (p, l, out) = e.step(pending, last_emit_us, event, flight_noise_us, dwell_noise_us);
            &&& p == pending.remove(event.key_code)
            &&& l == out.emit_at_us
        }),
{
}

/// Events of other keys leave a key's reserved deadline as it was.
pub proof fn lemma_other_keys_keep_deadline(
    e: ObfuscationEngine,
    pending: Map<u16, u64>,
    last_emit_us: u64,
    events: Seq<KeyEvent>,
    noise: Seq<(i64, i64)>,
    key_code: u16,
)
    requires
        forall|i: int| 0 <= i < events.len() ==> #[trigger] events[i].key_code != key_code,
    ensures
        ({
            let p = run_steps(e, pending, last_emit_us, events, noise).0;
            &&& p.contains_key(key_code) == pending.contains_key(key_code)
            &&& pending.contains_key(key_code) ==> p[key_code] == pending[key_code]
        }),
    decreases events.len(),
{
    if events.len() > 0 {
        let prefix = events.drop_last();
        assert forall|i: int| 0 <= i < prefix.len() implies #[trigger] prefix[i].key_code != key_code by {
            assert(prefix[i] == events[i]);
        }
        lemma_other_keys_keep_deadline(e, pending, last_emit_us, prefix, noise, key_code);
        assert(events.last() == events[events.len() - 1]);
    }
}

/// A key's release is never emitted before its press (with a strength of at
/// most full): after a keydown, and any events of other keys, the keyup of
/// the same key that arrives no earlier than the keydown goes out no
/// earlier than the keydown did.
pub proof fn lemma_release_not_before_press(
    e: ObfuscationEngine,
    pending: Map<u16, u64>,
    last_emit_us: u64,
    down: KeyEvent,
    between: Seq<KeyEvent>,
    between_noise: Seq<(i64, i64)>,
    up: KeyEvent,
    flight_noise_us: i64,
    dwell_noise_us: i64,
)
    requires
        e.obf.strength_ppm <= FULL_STRENGTH_PPM,
        down.event_type == KeyEventType::Down,
        up.event_type == KeyEventType::Up,
        up.key_code == down.key_code,
        forall|i: int| 0 <= i < between.len() ==> #[trigger] between[i].key_code != down.key_code,
        down.timestamp_us <= up.timestamp_us,
        e.can_step(pending, last_emit_us, down, flight_noise_us, dwell_noise_us),
    ensures
        ({
            let (p1, l1, pressed) = e.step(pending, last_emit_us, down, flight_noise_us, dwell_noise_us);
            let (p2, l2, _) = run_steps(e, p1, l1, between, between_noise);
            let released = e.step(p2, l2, up, 0, 0).2;
            pressed.emit_at_us <= released.emit_at_us
        }),
{
    let (p1, l1, pressed) = e.step(pending, last_emit_us, down, flight_noise_us, dwell_noise_us);
    let (p2, l2, _) = run_steps(e, p1, l1, between, between_noise);
    lemma_other_keys_keep_deadline(e, p1, l1, between, between_noise, down.key_code);
    lemma_keydown_delay_bounds(e.obf, e.adv, last_emit_us, down.timestamp_us, flight_noise_us);
    if !e.passes_through(down) {
        assert(!e.passes_through(up));
        lemma_obfuscate_nonneg(
            spec_typical_dwell(e.persona_seed, down.key_code) as u64,
            e.obf.dwell_bucket_us,
            e.adv.min_dwell_us,
            e.adv.max_dwell_us,
            dwell_noise_us,
        );
        assert(p2.contains_key(up.key_code) && p2[up.key_code] >= pressed.emit_at_us);
    } else {
        assert(e.passes_through(up));
    }
}

/// A sequence of events, each with its flight and dwell noise, fed through
/// the engine's settings from the timing state `(pending, last_emit_us)`:
/// the final timing state and the scheduled events, in order.
pub open spec fn run_steps(
    e: ObfuscationEngine,
    pending: Map<u16, u64>,
    last_emit_us: u64,
    events: Seq<KeyEvent>,
    noise: Seq<(i64, i64)>,
) -> (Map<u16, u64>, u64, Seq<ScheduledEvent>)
    decreases events.len(),
{
    if events.len() == 0 {
        (pending, last_emit_us, Seq::empty())
    } else {
        let (p, l, outs) = run_steps(e, pending, last_emit_us, events.drop_last(), noise);
        let n = noise[events.len() - 1];
        let (p2, l2, out) = e.step(p, l, events.last(), n.0, n.1);
        (p2, l2, outs.push(out))
    }
}

/// The engine is deterministic: two engines with the same settings (the
/// same configuration, persona seed, switch and platform), started from the
/// same timing state and fed the same events with the same noise, schedule
/// every event alike and end in the same state.
pub proof fn lemma_same_settings_same_run(
    e1: ObfuscationEngine,
    e2: ObfuscationEngine,
    pending: Map<u16, u64>,
    last_emit_us: u64,
    events: Seq<KeyEvent>,
    noise: Seq<(i64, i64)>,
)
    requires
        e1.same_settings(&e2),
    ensures
        run_steps(e1, pending, last_emit_us, events, noise) == run_steps(
            e2,
            pending,
            last_emit_us,
            events,
            noise,
        ),
    decreases events.len(),
{
    if events.len() > 0 {
        lemma_same_settings_same_run(e1, e2, pending, last_emit_us, events.drop_last(), noise);
    }
}

/// The part of the obfuscated flight time that exceeds the real one (0 when
/// it does not), capped at `cap_us`; stated directly from the flight, the
/// obfuscation of one interval and the cap.
pub open spec fn capped_extra_flight(
    obf: ObfuscationConfig,
    adv: AdvancedConfig,
    last_emit_us: u64,
    now_us: u64,
    flight_noise_us: i64,
) -> int {
    let flight: int = if last_emit_us != 0 && now_us >= last_emit_us {
        now_us - last_emit_us
    } else {
        0
    };
    let obfuscated: int = if flight == 0 {
        0
    } else {
        spec_obfuscate(flight as u64, obf.flight_bucket_us, adv.min_flight_us, adv.max_flight_us, flight_noise_us)
    };
    let extra: int = if obfuscated > flight {
        obfuscated - flight
    } else {
        0
    };
    if extra < obf.max_latency_us {
        extra
    } else {
        obf.max_latency_us as int
    }
}

/// A keydown is delayed toward its obfuscated flight time: by the extra
/// flight time the obfuscation wants, capped at the maximum latency and then
/// scaled by the strength (rounded down). At full strength a wanted delay
/// above the cap becomes exactly the cap.
pub proof fn lemma_keydown_delay_is_capped_extra_flight(
    e: ObfuscationEngine,
    pending: Map<u16, u64>,
    last_emit_us: u64,
    event: KeyEvent,
    flight_noise_us: i64,
    dwell_noise_us: i64,
)
    requires
        e.can_step(pending, last_emit_us, event, flight_noise_us, dwell_noise_us),
        !e.passes_through(event),
        event.event_type == KeyEventType::Down,
        e.obf.strength_ppm <= FULL_STRENGTH_PPM,
    ensures
        ({
            let out = e.step(pending, last_emit_us, event, flight_noise_us, dwell_noise_us).2;
            let c = capped_extra_flight(e.obf, e.adv, last_emit_us, event.timestamp_us, flight_noise_us);
            &&& 0 <= c <= e.obf.max_latency_us
            &&& out.emit_at_us == event.timestamp_us + c * e.obf.strength_ppm / 1_000_000
            &&& e.obf.strength_ppm == FULL_STRENGTH_PPM ==> out.emit_at_us == event.timestamp_us + c
        }),
{
    let now = event.timestamp_us;
    let c = capped_extra_flight(e.obf, e.adv, last_emit_us, now, flight_noise_us);
    lemma_scale_at_most(c, e.obf.strength_ppm);
    assert(c * 1_000_000 / 1_000_000 == c) by (nonlinear_arith);
    lemma_keydown_delay_bounds(e.obf, e.adv, last_emit_us, now, flight_noise_us);
}

/// More flight noise never emits a keydown earlier: the delay grows with the
/// obfuscated flight time.
pub proof fn lemma_keydown_delay_monotone_in_noise(
    e: ObfuscationEngine,
    pending: Map<u16, u64>,
    last_emit_us: u64,
    event: KeyEvent,
    low_noise_us: i64,
    high_noise_us: i64,
    dwell_noise_us: i64,
)
    requires
        low_noise_us <= high_noise_us,
        e.can_step(pending, last_emit_us, event, low_noise_us, dwell_noise_us),
        e.can_step(pending, last_emit_us, event, high_noise_us, dwell_noise_us),
        event.event_type == KeyEventType::Down,
    ensures
        e.step(pending, last_emit_us, event, low_noise_us, dwell_noise_us).2.emit_at_us <= e.step(
            pending,
            last_emit_us,
            event,
            high_noise_us,
            dwell_noise_us,
        ).2.emit_at_us,
{
    if !e.passes_through(event) {
        let now = event.timestamp_us;
        let cl = capped_extra_flight(e.obf, e.adv, last_emit_us, now, low_noise_us);
        let ch = capped_extra_flight(e.obf, e.adv, last_emit_us, now, high_noise_us);
        assert(cl <= ch);
        assert(keydown_delay(e.obf, e.adv, last_emit_us, now, low_noise_us) == scale_by_strength(
            cl,
            e.obf.strength_ppm,
        ));
        assert(keydown_delay(e.obf, e.adv, last_emit_us, now, high_noise_us) == scale_by_strength(
            ch,
            e.obf.strength_ppm,
        ));
        lemma_scale_monotone(cl, ch, e.obf.strength_ppm);
    }
}

} // verus!
