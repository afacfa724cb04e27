//! macOS (CGEventTap) rules: modifier codes, how tapped events are
//! classified, and how synthetic events are marked when posted.
use vstd::prelude::*;

use crate::platform::{KeyEvent, KeyEventType};

verus! {

/// The CGKeyCodes of the modifier keys: 54 and 55 are the Command keys,
/// 56 and 60 Shift, 58 and 61 Option, 59 and 62 Control, 57 Caps Lock and
/// 63 Function.
pub open spec fn is_macos_modifier_code(key_code: u16) -> bool {
    54 <= key_code <= 63
}

/// macOS modifier keys (CGKeyCodes).
pub fn is_modifier(key_code: u16) -> (r: bool)
    ensures
        r == is_macos_modifier_code(key_code),
{
    54 <= key_code && key_code <= 63
}

/// The value ShuffleKeys writes into the user-data field of every event it
/// posts ("SKEY"), so that the tap lets its own events through.
pub const SHUFFLEKEYS_MAGIC: i64 = 0x534b4559;

/// The kind of a tapped Core Graphics event.
#[derive(Debug, Clone, Copy, PartialEq, Eq, Structural)]
pub enum TapEventKind {
    KeyDown,
    KeyUp,
    /// Any other event type.
    Other,
}

/// The key event a tapped event stands for, or `None` when it must pass
/// through untouched: an event ShuffleKeys posted itself, or one that is not
/// a key press or release. A key press with the autorepeat field set is a
/// repeat; the timestamp goes from nanoseconds to microseconds.
pub open spec fn spec_classify_tap_event(
    kind: TapEventKind,
    autorepeat: i64,
    user_data: i64,
    key_code: i64,
    timestamp_ns: u64,
) -> Option<KeyEvent> {
    if user_data == SHUFFLEKEYS_MAGIC {
        None
    } else {
        match kind {
            TapEventKind::KeyDown => Some(
                KeyEvent {
                    key_code: key_code as u16,
                    event_type: if autorepeat != 0 {
                        KeyEventType::Repeat
                    } else {
                        KeyEventType::Down
                    },
                    timestamp_us: timestamp_ns / 1000,
                },
            ),
            TapEventKind::KeyUp => Some(
                KeyEvent {
                    key_code: key_code as u16,
                    event_type: KeyEventType::Up,
                    timestamp_us: timestamp_ns / 1000,
                },
            ),
            TapEventKind::Other => None,
        }
    }
}

/// Classify a tapped event from its type and its integer fields.
pub fn classify_tap_event(
    kind: TapEventKind,
    autorepeat: i64,
    user_data: i64,
    key_code: i64,
    timestamp_ns: u64,
) -> (r: Option<KeyEvent>)
    ensures
        r == spec_classify_tap_event(kind, autorepeat, user_data, key_code, timestamp_ns),
{
    // Recursion prevention: an event we posted goes through unchanged.
    if user_data == SHUFFLEKEYS_MAGIC {
        return None;
    }
    let is_repeat = autorepeat != 0;
    let event_type = match kind {
        TapEventKind::KeyDown => {
            if is_repeat {
                KeyEventType::Repeat
            } else {
                KeyEventType::Down
            }
        },
        TapEventKind::KeyUp => KeyEventType::Up,
        TapEventKind::Other => {
            return None;
        },
    };
    Some(KeyEvent { key_code: key_code as u16, event_type, timestamp_us: timestamp_ns / 1000 })
}

/// The fields of the synthetic Core Graphics event posted for a key event.
#[derive(Debug, Clone, Copy, PartialEq, Eq, Structural)]
pub struct PostParams {
    pub key_code: u16,
    /// A press (or repeat) rather than a release.
    pub key_down: bool,
    /// The autorepeat field is set to 1.
    pub autorepeat: bool,
    /// The value of the user-data field.
    pub user_data: i64,
    pub timestamp_ns: u64,
}

pub open spec fn spec_post_params(event: KeyEvent) -> PostParams {
    PostParams {
        key_code: event.key_code,
        key_down: event.event_type == KeyEventType::Down || event.event_type == KeyEventType::Repeat,
        autorepeat: event.event_type == KeyEventType::Repeat,
        user_data: SHUFFLEKEYS_MAGIC,
        timestamp_ns: (event.timestamp_us * 1000) as u64,
    }
}

/// How a key event is posted: a keyboard event for its key, down for a
/// press or a repeat, with the autorepeat field for a repeat, marked with
/// the ShuffleKeys magic, timestamped in nanoseconds.
pub fn post_params(event: &KeyEvent) -> (r: PostParams)
    requires
        event.timestamp_us * 1000 <= u64::MAX,
    ensures
        r == spec_post_params(*event),
{
    PostParams {
        key_code: event.key_code,
        key_down: matches!(event.event_type, KeyEventType::Down | KeyEventType::Repeat),
        autorepeat: event.event_type == KeyEventType::Repeat,
        user_data: SHUFFLEKEYS_MAGIC,
        timestamp_ns: event.timestamp_us * 1000,
    }
}

/// The tap never intercepts what ShuffleKeys posted: an event posted for
/// any key event comes back through the tap as a pass-through.
pub proof fn lemma_posted_events_pass_through(
    event: KeyEvent,
    kind: TapEventKind,
    autorepeat: i64,
    key_code: i64,
    timestamp_ns: u64,
)
    ensures
        spec_classify_tap_event(
            kind,
            autorepeat,
            spec_post_params(event).user_data,
            key_code,
            timestamp_ns,
        ) is None,
{
}

/// Posting undoes tapping: a key event posted without the ShuffleKeys mark
/// would be read back by the tap as the same key event.
pub proof fn lemma_post_then_tap_round_trip(event: KeyEvent, user_data: i64)
    requires
        user_data != SHUFFLEKEYS_MAGIC,
        event.timestamp_us * 1000 <= u64::MAX,
    ensures
        ({
            let p = spec_post_params(event);
            spec_classify_tap_event(
                if p.key_down {
                    TapEventKind::KeyDown
                } else {
                    TapEventKind::KeyUp
                },
                if p.autorepeat {
                    1i64
                } else {
                    0i64
                },
                user_data,
                p.key_code as i64,
                p.timestamp_ns,
            ) == Some(event)
        }),
{
    assert((event.timestamp_us * 1000) / 1000 == event.timestamp_us) by (nonlinear_arith);
}

} // verus!
