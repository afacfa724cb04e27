//! ShuffleKeys: keystroke-dynamics obfuscation.
//!
//! The library holds the timing logic of the tool: the obfuscation engine
//! (quantise, add noise, clamp), the earliest-first event scheduler, the
//! configuration rules and the platform rules that decide how raw keyboard
//! events are classified. The binary around it grabs the keyboard, draws the
//! Gaussian noise and sleeps; everything that decides stands here with a
//! contract.

pub mod cli;
pub mod engine;
pub mod platform;

use std::sync::atomic::{AtomicBool, Ordering};

use vstd::prelude::*;

verus! {

/// A wait longer than this (µs) is partly slept through; shorter ones are
/// busy-waited.
pub const MIN_SLEEP_THRESHOLD_US: u64 = 1500;

/// Overhead (µs) subtracted from a sleep to avoid oversleeping past the target.
pub const SLEEP_OVERHEAD_US: u64 = 800;

/// Returns `true` if the engine should keep running. The flag is shared
/// with signal handlers and other threads, so nothing is known of the value
/// read.
pub fn is_running(flag: &AtomicBool) -> bool {
    flag.load(Ordering::Acquire)
}

/// Signal the engine to stop.
pub fn stop(flag: &AtomicBool) {
    flag.store(false, Ordering::Release);
}

/// Re-arm the running flag (e.g. after a stop/restart cycle).
pub fn restart(flag: &AtomicBool) {
    flag.store(true, Ordering::Release);
}

/// How to hold back an event before emitting it.
#[derive(Debug, Clone, Copy, PartialEq, Eq, Structural)]
pub struct DelayPlan {
    /// The whole delay (µs) from the event's original timestamp.
    pub delay_us: u64,
    /// How long (µs) to sleep first; the rest of the delay is busy-waited.
    pub sleep_us: u64,
}

/// The plan for holding an event whose original timestamp is
/// `original_ts_us` until `target_us`: no wait when the target is not later;
/// otherwise the whole difference, of which a wait above 1.5 ms is slept
/// through but for 0.8 ms.
pub open spec fn spec_plan_delay(original_ts_us: u64, target_us: u64) -> Option<DelayPlan> {
    if target_us > original_ts_us {
        let delay = (target_us - original_ts_us) as u64;
        Some(
            DelayPlan {
                delay_us: delay,
                sleep_us: if delay > MIN_SLEEP_THRESHOLD_US {
                    (delay - SLEEP_OVERHEAD_US) as u64
                } else {
                    0
                },
            },
        )
    } else {
        None
    }
}

/// Decide how the interception loop holds back an event scheduled at
/// `target_us` that arrived at `original_ts_us`.
pub fn plan_delay(original_ts_us: u64, target_us: u64) -> (r: Option<DelayPlan>)
    ensures
        r == spec_plan_delay(original_ts_us, target_us),
        r matches Some(p) ==> p.sleep_us < p.delay_us && original_ts_us + p.delay_us == target_us,
{
    if target_us > original_ts_us {
        let delay_us = target_us - original_ts_us;
        let sleep_us = if delay_us > MIN_SLEEP_THRESHOLD_US {
            delay_us - SLEEP_OVERHEAD_US
        } else {
            0
        };
        Some(DelayPlan { delay_us, sleep_us })
    } else {
        None
    }
}

} // verus!
