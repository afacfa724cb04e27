//! Linux (evdev) rules: modifier codes, event values, device selection.
//!
//! The binary grabs the device and reads events; the decisions it takes on
//! what it reads stand here.
use vstd::prelude::*;
use vstd::string::*;

use crate::platform::KeyEventType;

verus! {

/// The evdev codes of the modifier keys.
pub open spec fn is_linux_modifier_code(key_code: u16) -> bool {
    ||| key_code == 29  // KEY_LEFTCTRL
    ||| key_code == 42  // KEY_LEFTSHIFT
    ||| key_code == 54  // KEY_RIGHTSHIFT
    ||| key_code == 56  // KEY_LEFTALT
    ||| key_code == 97  // KEY_RIGHTCTRL
    ||| key_code == 100  // KEY_RIGHTALT
    ||| key_code == 125  // KEY_LEFTMETA
    ||| key_code == 126  // KEY_RIGHTMETA
}

/// Linux modifier keys (evdev codes).
pub fn is_modifier(key_code: u16) -> (r: bool)
    ensures
        r == is_linux_modifier_code(key_code),
{
    matches!(key_code, 29 | 42 | 54 | 56 | 97 | 100 | 125 | 126)
}

// ── Event values ───────────────────────────────────────────────────────────

/// The meaning of the `value` of an `EV_KEY` event: 0 release, 1 press,
/// 2 autorepeat; other values are not key events.
pub open spec fn spec_event_type_from_value(value: i32) -> Option<KeyEventType> {
    if value == 0 {
        Some(KeyEventType::Up)
    } else if value == 1 {
        Some(KeyEventType::Down)
    } else if value == 2 {
        Some(KeyEventType::Repeat)
    } else {
        None
    }
}

/// Classify the `value` of an `EV_KEY` event.
pub fn event_type_from_value(value: i32) -> (r: Option<KeyEventType>)
    ensures
        r == spec_event_type_from_value(value),
{
    match value {
        0 => Some(KeyEventType::Up),
        1 => Some(KeyEventType::Down),
        2 => Some(KeyEventType::Repeat),
        _ => None,
    }
}

/// The `value` an emitted `EV_KEY` event carries; reading it back gives the
/// same event type.
pub fn event_value(event_type: KeyEventType) -> (r: i32)
    ensures
        spec_event_type_from_value(r) == Some(event_type),
        r == (match event_type {
            KeyEventType::Down => 1i32,
            KeyEventType::Up => 0i32,
            KeyEventType::Repeat => 2i32,
        }),
{
    match event_type {
        KeyEventType::Down => 1,
        KeyEventType::Up => 0,
        KeyEventType::Repeat => 2,
    }
}

/// An event's timestamp in microseconds since the Unix epoch, from whole
/// seconds and the nanoseconds beyond them: whole microseconds, truncated to
/// 64 bits.
pub open spec fn spec_timestamp_us(secs: u64, subsec_nanos: u32) -> u64 {
    (secs * 1_000_000 + subsec_nanos / 1000) as u64
}

/// Convert an event's timestamp to microseconds since the Unix epoch.
pub fn timestamp_us(secs: u64, subsec_nanos: u32) -> (r: u64)
    ensures
        r == spec_timestamp_us(secs, subsec_nanos),
{
    let micros: u128 = secs as u128 * 1_000_000 + (subsec_nanos / 1000) as u128;
    micros as u64
}

// ── Read errors ────────────────────────────────────────────────────────────

/// `ENODEV`: the device was unplugged.
pub const ENODEV: i32 = 19;

/// `EAGAIN`: no event yet.
pub const EAGAIN: i32 = 11;

/// `EINTR`: the read was interrupted.
pub const EINTR: i32 = 4;

/// What the event loop does after a failed read.
#[derive(Debug, Clone, Copy, PartialEq, Eq, Structural)]
pub enum FetchErrorAction {
    /// Leave the loop normally.
    Stop,
    /// Read again.
    Retry,
    /// Leave the loop with the error.
    Fail,
}

/// A vanished device ends the loop; a read that would block or was
/// interrupted is retried while the engine runs and ends the loop once it
/// stops; any other error is passed up.
pub fn fetch_error_action(raw_os_error: Option<i32>, running: bool) -> (r: FetchErrorAction)
    ensures
        r == (match raw_os_error {
            Some(e) => if e == ENODEV {
                FetchErrorAction::Stop
            } else if e == EAGAIN || e == EINTR {
                if running {
                    FetchErrorAction::Retry
                } else {
                    FetchErrorAction::Stop
                }
            } else {
                FetchErrorAction::Fail
            },
            None => FetchErrorAction::Fail,
        }),
{
    match raw_os_error {
        Some(e) => {
            if e == ENODEV {
                FetchErrorAction::Stop
            } else if e == EAGAIN || e == EINTR {
                if running {
                    FetchErrorAction::Retry
                } else {
                    FetchErrorAction::Stop
                }
            } else {
                FetchErrorAction::Fail
            }
        },
        None => FetchErrorAction::Fail,
    }
}

// ── Device selection ───────────────────────────────────────────────────────

/// Where the keyboard device comes from.
#[derive(Debug, Clone, PartialEq, Eq)]
pub enum DeviceSource {
    /// The path the configuration names.
    Path(String),
    /// Scan `/dev/input/` for a keyboard.
    AutoDetect,
    /// No device path given and auto-detect is disabled.
    Missing,
}

/// An explicit path wins; without one the keyboard is searched for when
/// auto-detection is on, and missing otherwise.
pub fn device_source(device_path: Option<String>, auto_detect: bool) -> (r: DeviceSource)
    ensures
        r == (match device_path {
            Some(p) => DeviceSource::Path(p),
            None => if auto_detect {
                DeviceSource::AutoDetect
            } else {
                DeviceSource::Missing
            },
        }),
{
    match device_path {
        Some(p) => DeviceSource::Path(p),
        None => {
            if auto_detect {
                DeviceSource::AutoDetect
            } else {
                DeviceSource::Missing
            }
        },
    }
}

/// `needle` occurs in `haystack` as a contiguous run of characters.
pub open spec fn spec_contains(haystack: Seq<char>, needle: Seq<char>) -> bool {
    exists|i: int|
        0 <= i && i + needle.len() <= haystack.len() && #[trigger] haystack.subrange(
            i,
            i + needle.len(),
        ) == needle
}

/// `haystack` begins with `prefix`.
pub open spec fn spec_starts_with(haystack: Seq<char>, prefix: Seq<char>) -> bool {
    prefix.len() <= haystack.len() && haystack.subrange(0, prefix.len() as int) == prefix
}

/// The characters of `haystack` from `start` on begin with `needle`.
fn matches_at(haystack: &str, needle: &str, start: usize) -> (r: bool)
    requires
        start + needle@.len() <= haystack@.len(),
    ensures
        r == (haystack@.subrange(start as int, start + needle@.len()) == needle@),
{
    let h = haystack.unicode_len();
    let n = needle.unicode_len();
    let mut j: usize = 0;
    while j < n
        invariant
            n == needle@.len(),
            h == haystack@.len(),
            start + n <= haystack@.len(),
            j <= n,
            forall|k: int| 0 <= k < j ==> haystack@[start + k] == needle@[k],
        decreases n - j,
    {
        if haystack.get_char(start + j) != needle.get_char(j) {
            assert(haystack@.subrange(start as int, start + n)[j as int] != needle@[j as int]);
            return false;
        }
        j += 1;
    }
    assert(haystack@.subrange(start as int, start + n) =~= needle@);
    true
}

/// Whether `needle` occurs in `haystack`.
pub fn contains_str(haystack: &str, needle: &str) -> (r: bool)
    ensures
        r == spec_contains(haystack@, needle@),
{
    let h = haystack.unicode_len();
    let n = needle.unicode_len();
    if n > h {
        return false;
    }
    let last = h - n;
    let mut i: usize = 0;
    loop
        invariant
            h == haystack@.len(),
            n == needle@.len(),
            last == h - n,
            i <= last,
            forall|k: int| 0 <= k < i ==> #[trigger] haystack@.subrange(k, k + n) != needle@,
        decreases last - i,
    {
        if matches_at(haystack, needle, i) {
            return true;
        }
        if i == last {
            assert forall|k: int| 0 <= k && k + n <= h implies #[trigger] haystack@.subrange(
                k,
                k + n,
            ) != needle@ by {
                assert(k <= last);
            }
            return false;
        }
        i += 1;
    }
}

/// Whether `haystack` begins with `prefix`.
pub fn starts_with_str(haystack: &str, prefix: &str) -> (r: bool)
    ensures
        r == spec_starts_with(haystack@, prefix@),
{
    if prefix.unicode_len() > haystack.unicode_len() {
        return false;
    }
    matches_at(haystack, prefix, 0)
}

/// Device nodes of input events are named `event<N>`.
pub fn is_event_node(file_name: &str) -> (r: bool)
    ensures
        r == spec_starts_with(file_name@, "event"@),
{
    starts_with_str(file_name, "event")
}

/// The Unicode lowercase mapping of a string, as `str::to_lowercase`
/// computes it.
pub uninterp spec fn lowercase(s: Seq<char>) -> Seq<char>;

/// Calls `str::to_lowercase`. Its result is a function of the characters
/// alone (the mapping does not depend on a locale), named `lowercase`;
/// nothing more is stated of it.
#[verifier::external_body]
fn to_lowercase(s: &str) -> (r: String)
    ensures
        r@ == lowercase(s@),
{
    s.to_lowercase()
}

/// The device's name mentions "keyboard", in any case.
pub open spec fn spec_names_keyboard(name: Seq<char>) -> bool {
    spec_contains(lowercase(name), "keyboard"@)
}

/// Whether a device name contains "keyboard" (case-insensitive).
pub fn names_keyboard(name: &str) -> (r: bool)
    ensures
        r == spec_names_keyboard(name@),
{
    let lower = to_lowercase(name);
    contains_str(lower.as_str(), "keyboard")
}

/// The search for a keyboard among the devices of `/dev/input/`, in the
/// order they are listed. A device qualifies when it supports the keys A,
/// Enter and Space; the first one whose name mentions "keyboard" ends the
/// search, else the first qualifying device is kept.
#[derive(Debug, Clone, Copy, PartialEq, Eq, Structural)]
pub struct KeyboardSearch {
    /// Index of the device chosen so far.
    pub best: Option<usize>,
    /// A device named as a keyboard has been found.
    pub done: bool,
}

/// A device supports the keys every keyboard has.
pub open spec fn has_keyboard_keys(has_a: bool, has_enter: bool, has_space: bool) -> bool {
    has_a && has_enter && has_space
}

/// The search after the device at `index` with name `name` is offered.
pub open spec fn spec_offer(
    search: KeyboardSearch,
    index: usize,
    name: Seq<char>,
    has_a: bool,
    has_enter: bool,
    has_space: bool,
) -> KeyboardSearch {
    if search.done || !has_keyboard_keys(has_a, has_enter, has_space) {
        search
    } else if spec_names_keyboard(name) {
        KeyboardSearch { best: Some(index), done: true }
    } else if search.best is None {
        KeyboardSearch { best: Some(index), done: false }
    } else {
        search
    }
}

impl KeyboardSearch {
    pub fn new() -> (r: Self)
        ensures
            r.best is None,
            !r.done,
    {
        KeyboardSearch { best: None, done: false }
    }

    /// Offer the next device; returns whether the search is over.
    pub fn offer(&mut self, index: usize, name: &str, has_a: bool, has_enter: bool, has_space: bool) -> (r:
        bool)
        ensures
            *final(self) == spec_offer(*old(self), index, name@, has_a, has_enter, has_space),
            r == final(self).done,
    {
        if self.done || !(has_a && has_enter && has_space) {
            return self.done;
        }
        if names_keyboard(name) {
            self.best = Some(index);
            self.done = true;
        } else if self.best.is_none() {
            self.best = Some(index);
        }
        self.done
    }
}

/// A device as the search sees it: its name and whether it supports A,
/// Enter and Space.
pub type DeviceSummary = (Seq<char>, bool, bool, bool);

pub open spec fn is_keyboard(d: DeviceSummary) -> bool {
    has_keyboard_keys(d.1, d.2, d.3)
}

pub open spec fn is_named_keyboard(d: DeviceSummary) -> bool {
    is_keyboard(d) && spec_names_keyboard(d.0)
}

/// The search after offering `devices` in order, the i-th with index i.
pub open spec fn search_over(devices: Seq<DeviceSummary>) -> KeyboardSearch
    decreases devices.len(),
{
    if devices.len() == 0 {
        KeyboardSearch { best: None, done: false }
    } else {
        let d = devices.last();
        spec_offer(search_over(devices.drop_last()), (devices.len() - 1) as usize, d.0, d.1, d.2, d.3)
    }
}

/// Keyboard detection prefers devices named as keyboards: the search picks
/// the first keyboard whose name mentions "keyboard" and stops there; when
/// no keyboard is so named it keeps the first keyboard; with no keyboard at
/// all it finds nothing.
pub proof fn lemma_search_prefers_named(devices: Seq<DeviceSummary>)
    requires
        devices.len() <= usize::MAX,
    ensures
        ({
            let s = search_over(devices);
            &&& s.done <==> exists|i: int| 0 <= i < devices.len() && is_named_keyboard(#[trigger] devices[i])
            &&& s.best is None <==> forall|i: int| 0 <= i < devices.len() ==> !is_keyboard(#[trigger] devices[i])
            &&& s.best matches Some(b) ==> {
                &&& b < devices.len()
                &&& is_keyboard(devices[b as int])
                &&& s.done ==> is_named_keyboard(devices[b as int]) && forall|j: int|
                    0 <= j < b ==> !is_named_keyboard(#[trigger] devices[j])
                &&& !s.done ==> forall|j: int| 0 <= j < b ==> !is_keyboard(#[trigger] devices[j])
            }
        }),
    decreases devices.len(),
{
    if devices.len() > 0 {
        let prefix = devices.drop_last();
        lemma_search_prefers_named(prefix);
        let last = devices.len() - 1;
        assert forall|i: int| 0 <= i < prefix.len() implies prefix[i] == #[trigger] devices[i] by {}
        assert(devices[last] == devices.last());
        let s0 = search_over(prefix);
        let s = search_over(devices);
        if s0.done {
            let w = choose|i: int| 0 <= i < prefix.len() && is_named_keyboard(#[trigger] prefix[i]);
            assert(is_named_keyboard(devices[w]));
            assert(is_keyboard(devices[w]));
        } else if s0.best is Some {
            if is_named_keyboard(devices[last]) {
                assert(is_keyboard(devices[s0.best->0 as int]));
            }
        }
        if s.done {
            if !s0.done {
                assert(is_named_keyboard(devices[last]));
            }
        }
        if s.best is Some && !s0.done && s0.best is None {
            assert(is_keyboard(devices[last]));
        }
    }
}

/// A device counts as named a keyboard exactly when its lowercased name
/// contains the word "keyboard" as a run of characters; a name whose
/// lowercase lacks it (such as one with only "key") is not. Offered with the
/// keys of a keyboard, such a name ends an unfinished search on that device;
/// any other name does not end it.
pub proof fn lemma_named_keyboard_is_word_keyboard(
    search: KeyboardSearch,
    index: usize,
    name: Seq<char>,
)
    ensures
        spec_names_keyboard(name) <==> exists|i: int|
            0 <= i && i + 8 <= lowercase(name).len() && #[trigger] lowercase(name).subrange(i, i + 8)
                =~= seq!['k', 'e', 'y', 'b', 'o', 'a', 'r', 'd'],
        !search.done ==> (spec_offer(search, index, name, true, true, true).done <==> spec_names_keyboard(
            name,
        )),
        !search.done && spec_names_keyboard(name) ==> spec_offer(
            search,
            index,
            name,
            true,
            true,
            true,
        ).best == Some(index),
{
    reveal_strlit("keyboard");
    let lower = lowercase(name);
    let word = seq!['k', 'e', 'y', 'b', 'o', 'a', 'r', 'd'];
    assert("keyboard"@ =~= word);
    if spec_names_keyboard(name) {
        let i = choose|i: int|
            0 <= i && i + "keyboard"@.len() <= lower.len() && #[trigger] lower.subrange(
                i,
                i + "keyboard"@.len(),
            ) == "keyboard"@;
        assert(lower.subrange(i, i + 8) =~= word);
    }
    if exists|i: int| 0 <= i && i + 8 <= lower.len() && #[trigger] lower.subrange(i, i + 8) =~= word {
        let i = choose|i: int| 0 <= i && i + 8 <= lower.len() && #[trigger] lower.subrange(i, i + 8) =~= word;
        assert(lower.subrange(i, i + "keyboard"@.len()) == "keyboard"@);
    }
}

} // verus!
