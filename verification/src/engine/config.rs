//! Application configuration and the rules that keep it in range.
//!
//! Every timing is held in whole microseconds and the strength in parts per
//! million, so that the engine computes on integers only. The file format on
//! disk (milliseconds, a strength between 0 and 1) is read and written by the
//! binary, which converts to these units.
use vstd::prelude::*;

verus! {

/// The strength that stands for full obfuscation (1.0), in parts per million.
pub const FULL_STRENGTH_PPM: u32 = 1_000_000;

/// The smallest quantisation bucket that `validate` leaves in place (1 ms).
pub const MIN_BUCKET_US: u64 = 1000;

/// Full application configuration.
#[derive(Debug, Clone)]
pub struct AppConfig {
    pub obfuscation: ObfuscationConfig,
    pub advanced: AdvancedConfig,
    pub system: SystemConfig,
}

/// Core obfuscation parameters.
#[derive(Debug, Clone, Copy, PartialEq, Eq, Structural)]
pub struct ObfuscationConfig {
    /// Obfuscation strength in parts per million: 0 = passthrough,
    /// 1_000_000 = full obfuscation.
    pub strength_ppm: u32,
    /// Maximum latency (µs) the engine may add to any single event.
    pub max_latency_us: u64,
    /// Quantisation bucket for dwell times (µs).
    pub dwell_bucket_us: u64,
    /// Quantisation bucket for flight times (µs).
    pub flight_bucket_us: u64,
    /// Standard deviation of the Gaussian noise added after quantisation (µs).
    pub noise_stddev_us: u64,
}

/// Advanced timing constraints.
#[derive(Debug, Clone, Copy, PartialEq, Eq, Structural)]
pub struct AdvancedConfig {
    pub min_dwell_us: u64,
    pub max_dwell_us: u64,
    pub min_flight_us: u64,
    pub max_flight_us: u64,
    /// Generate a fresh persona seed every time the daemon starts.
    pub new_persona_on_restart: bool,
}

/// Platform-specific settings.
#[derive(Debug, Clone)]
pub struct SystemConfig {
    /// Linux: automatically find the keyboard input device.
    pub auto_detect_keyboard: bool,
    /// Linux: explicit device path override (e.g. `/dev/input/event3`).
    pub device: Option<String>,
}

// ── defaults ────────────────────────────────────────────────────────────────

pub fn default_strength() -> (r: u32)
    ensures
        r == 700_000,
{
    700_000
}

pub fn default_max_latency_us() -> (r: u64)
    ensures
        r == 25_000,
{
    25_000
}

pub fn default_dwell_bucket_us() -> (r: u64)
    ensures
        r == 15_000,
{
    15_000
}

pub fn default_flight_bucket_us() -> (r: u64)
    ensures
        r == 20_000,
{
    20_000
}

pub fn default_noise_stddev_us() -> (r: u64)
    ensures
        r == 8_000,
{
    8_000
}

pub fn default_min_dwell_us() -> (r: u64)
    ensures
        r == 40_000,
{
    40_000
}

pub fn default_max_dwell_us() -> (r: u64)
    ensures
        r == 200_000,
{
    200_000
}

pub fn default_min_flight_us() -> (r: u64)
    ensures
        r == 20_000,
{
    20_000
}

pub fn default_max_flight_us() -> (r: u64)
    ensures
        r == 400_000,
{
    400_000
}

pub fn default_true() -> (r: bool)
    ensures
        r,
{
    true
}

/// The built-in obfuscation parameters.
pub open spec fn default_obfuscation() -> ObfuscationConfig {
    ObfuscationConfig {
        strength_ppm: 700_000,
        max_latency_us: 25_000,
        dwell_bucket_us: 15_000,
        flight_bucket_us: 20_000,
        noise_stddev_us: 8_000,
    }
}

/// The built-in timing constraints.
pub open spec fn default_advanced() -> AdvancedConfig {
    AdvancedConfig {
        min_dwell_us: 40_000,
        max_dwell_us: 200_000,
        min_flight_us: 20_000,
        max_flight_us: 400_000,
        new_persona_on_restart: true,
    }
}

impl Default for ObfuscationConfig {
    fn default() -> (r: Self)
        ensures
            r == default_obfuscation(),
    {
        ObfuscationConfig {
            strength_ppm: default_strength(),
            max_latency_us: default_max_latency_us(),
            dwell_bucket_us: default_dwell_bucket_us(),
            flight_bucket_us: default_flight_bucket_us(),
            noise_stddev_us: default_noise_stddev_us(),
        }
    }
}

impl Default for AdvancedConfig {
    fn default() -> (r: Self)
        ensures
            r == default_advanced(),
    {
        AdvancedConfig {
            min_dwell_us: default_min_dwell_us(),
            max_dwell_us: default_max_dwell_us(),
            min_flight_us: default_min_flight_us(),
            max_flight_us: default_max_flight_us(),
            new_persona_on_restart: true,
        }
    }
}

impl Default for SystemConfig {
    fn default() -> (r: Self)
        ensures
            r.auto_detect_keyboard,
            r.device is None,
    {
        SystemConfig { auto_detect_keyboard: true, device: None }
    }
}

impl Default for AppConfig {
    fn default() -> (r: Self)
        ensures
            r.obfuscation == default_obfuscation(),
            r.advanced == default_advanced(),
            r.system.auto_detect_keyboard,
            r.system.device is None,
    {
        AppConfig {
            obfuscation: ObfuscationConfig::default(),
            advanced: AdvancedConfig::default(),
            system: SystemConfig::default(),
        }
    }
}

// ── validation ──────────────────────────────────────────────────────────────

pub open spec fn max_u64(a: u64, b: u64) -> u64 {
    if a >= b {
        a
    } else {
        b
    }
}

/// The obfuscation parameters clamped to their valid ranges: the strength to
/// at most full, each bucket to at least 1 ms.
pub open spec fn validated_obfuscation(c: ObfuscationConfig) -> ObfuscationConfig {
    ObfuscationConfig {
        strength_ppm: if c.strength_ppm <= FULL_STRENGTH_PPM {
            c.strength_ppm
        } else {
            FULL_STRENGTH_PPM
        },
        max_latency_us: c.max_latency_us,
        dwell_bucket_us: max_u64(c.dwell_bucket_us, MIN_BUCKET_US),
        flight_bucket_us: max_u64(c.flight_bucket_us, MIN_BUCKET_US),
        noise_stddev_us: c.noise_stddev_us,
    }
}

/// The timing constraints with each maximum raised to at least its minimum.
pub open spec fn validated_advanced(c: AdvancedConfig) -> AdvancedConfig {
    AdvancedConfig {
        min_dwell_us: c.min_dwell_us,
        max_dwell_us: max_u64(c.max_dwell_us, c.min_dwell_us),
        min_flight_us: c.min_flight_us,
        max_flight_us: max_u64(c.max_flight_us, c.min_flight_us),
        new_persona_on_restart: c.new_persona_on_restart,
    }
}

impl ObfuscationConfig {
    /// All parameters lie in their valid ranges.
    pub open spec fn is_valid(self) -> bool {
        &&& self.strength_ppm <= FULL_STRENGTH_PPM
        &&& self.dwell_bucket_us >= MIN_BUCKET_US
        &&& self.flight_bucket_us >= MIN_BUCKET_US
    }
}

impl AdvancedConfig {
    /// Each range is non-empty.
    pub open spec fn is_valid(self) -> bool {
        &&& self.min_dwell_us <= self.max_dwell_us
        &&& self.min_flight_us <= self.max_flight_us
    }
}

fn max_of(a: u64, b: u64) -> (r: u64)
    ensures
        r == max_u64(a, b),
{
    if a >= b {
        a
    } else {
        b
    }
}

impl AppConfig {
    /// All values lie in their valid ranges.
    pub open spec fn is_valid(&self) -> bool {
        self.obfuscation.is_valid() && self.advanced.is_valid()
    }

    /// Clamp all config values to valid ranges.
    pub fn validate(&mut self)
        ensures
            final(self).obfuscation == validated_obfuscation(old(self).obfuscation),
            final(self).advanced == validated_advanced(old(self).advanced),
            final(self).system == old(self).system,
            final(self).is_valid(),
    {
        if self.obfuscation.strength_ppm > FULL_STRENGTH_PPM {
            self.obfuscation.strength_ppm = FULL_STRENGTH_PPM;
        }
        self.obfuscation.dwell_bucket_us = max_of(self.obfuscation.dwell_bucket_us, MIN_BUCKET_US);
        self.obfuscation.flight_bucket_us = max_of(
            self.obfuscation.flight_bucket_us,
            MIN_BUCKET_US,
        );
        self.advanced.max_dwell_us = max_of(self.advanced.max_dwell_us, self.advanced.min_dwell_us);
        self.advanced.max_flight_us = max_of(
            self.advanced.max_flight_us,
            self.advanced.min_flight_us,
        );
    }

    /// Apply command-line overrides on top of the loaded configuration: the
    /// strength is capped at full, a bucket applies to both dwell and flight
    /// and is raised to at least 1 ms, a device path replaces the configured
    /// one. An absent override leaves its value as it was.
    pub fn apply_overrides(
        &mut self,
        strength_ppm: Option<u32>,
        max_latency_us: Option<u64>,
        bucket_us: Option<u64>,
        noise_stddev_us: Option<u64>,
        device: Option<String>,
    )
        ensures
            final(self).obfuscation.strength_ppm == (match strength_ppm {
                Some(s) => if s <= FULL_STRENGTH_PPM {
                    s
                } else {
                    FULL_STRENGTH_PPM
                },
                None => old(self).obfuscation.strength_ppm,
            }),
            final(self).obfuscation.max_latency_us == (match max_latency_us {
                Some(m) => m,
                None => old(self).obfuscation.max_latency_us,
            }),
            final(self).obfuscation.dwell_bucket_us == (match bucket_us {
                Some(b) => max_u64(b, MIN_BUCKET_US),
                None => old(self).obfuscation.dwell_bucket_us,
            }),
            final(self).obfuscation.flight_bucket_us == (match bucket_us {
                Some(b) => max_u64(b, MIN_BUCKET_US),
                None => old(self).obfuscation.flight_bucket_us,
            }),
            final(self).obfuscation.noise_stddev_us == (match noise_stddev_us {
                Some(n) => n,
                None => old(self).obfuscation.noise_stddev_us,
            }),
            final(self).advanced == old(self).advanced,
            final(self).system.auto_detect_keyboard == old(self).system.auto_detect_keyboard,
            final(self).system.device == (match device {
                Some(d) => Some(d),
                None => old(self).system.device,
            }),
    {
        if let Some(s) = strength_ppm {
            self.obfuscation.strength_ppm = if s <= FULL_STRENGTH_PPM {
                s
            } else {
                FULL_STRENGTH_PPM
            };
        }
        if let Some(m) = max_latency_us {
            self.obfuscation.max_latency_us = m;
        }
        if let Some(b) = bucket_us {
            self.obfuscation.dwell_bucket_us = max_of(b, MIN_BUCKET_US);
            self.obfuscation.flight_bucket_us = max_of(b, MIN_BUCKET_US);
        }
        if let Some(n) = noise_stddev_us {
            self.obfuscation.noise_stddev_us = n;
        }
        if let Some(d) = device {
            self.system.device = Some(d);
        }
    }
}

/// Validation is idempotent: clamping an already clamped configuration
/// changes nothing, and a configuration in range is left as it is.
pub proof fn lemma_validate_idempotent(o: ObfuscationConfig, a: AdvancedConfig)
    ensures
        validated_obfuscation(validated_obfuscation(o)) == validated_obfuscation(o),
        validated_advanced(validated_advanced(a)) == validated_advanced(a),
        o.is_valid() ==> validated_obfuscation(o) == o,
        a.is_valid() ==> validated_advanced(a) == a,
        validated_obfuscation(o).is_valid(),
        validated_advanced(a).is_valid(),
{
}

/// The built-in defaults are already in range.
pub proof fn lemma_defaults_valid()
    ensures
        default_obfuscation().is_valid(),
        default_advanced().is_valid(),
{
}

} // verus!
