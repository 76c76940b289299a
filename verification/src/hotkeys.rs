//! Global hotkeys: reading a hotkey from its text, and telling from key
//! events when it was pressed.

use crate::text::split;
use crate::text::split_on;
use crate::text::str_eq;
use crate::text::to_lowercase;
use crate::text::trim;
use crate::text::trimmed;
use crate::text::unicode_lowercase;
use crate::text::views_of;
use vstd::prelude::*;

verus! {

/// The keys that the assistant tells apart.
#[allow(non_camel_case_types)]
#[derive(Debug, Clone, Copy, PartialEq, Eq, Structural)]
pub enum Key {
    KEY_A,
    KEY_B,
    KEY_C,
    KEY_D,
    KEY_E,
    KEY_F,
    KEY_G,
    KEY_H,
    KEY_I,
    KEY_J,
    KEY_K,
    KEY_L,
    KEY_M,
    KEY_N,
    KEY_O,
    KEY_P,
    KEY_Q,
    KEY_R,
    KEY_S,
    KEY_T,
    KEY_U,
    KEY_V,
    KEY_W,
    KEY_X,
    KEY_Y,
    KEY_Z,
    KEY_SPACE,
    KEY_ENTER,
    KEY_ESC,
    KEY_LEFTMETA,
    KEY_RIGHTMETA,
    KEY_LEFTSHIFT,
    KEY_RIGHTSHIFT,
    /// Any other key.
    KEY_OTHER,
}

/// A hotkey: the key and the modifiers to hold with it.
#[derive(Debug, Clone, Copy, PartialEq, Eq, Structural)]
pub struct Hotkey {
    pub super_mod: bool,
    pub shift_mod: bool,
    pub ctrl_mod: bool,
    pub alt_mod: bool,
    pub key: Key,
}

/// Why a text is no hotkey.
#[derive(Debug, Clone, Copy, PartialEq, Eq, Structural)]
pub enum HotkeyError {
    /// The part at `index`, which is not the last, names no modifier.
    UnknownModifier { index: usize },
    /// The last part names neither a modifier nor a key.
    UnknownKey,
    /// Every part names a modifier.
    NoKeySpecified,
}

/// A modifier key.
#[derive(Debug, Clone, Copy, PartialEq, Eq, Structural)]
pub enum Modifier {
    Super,
    Shift,
    Ctrl,
    Alt,
}

/// The key of the lowercase letter with code point `code`.
pub open spec fn letter_key(code: u32) -> Key
    recommends
        0x61 <= code <= 0x7A,
{
    match code {
        97 => Key::KEY_A,
        98 => Key::KEY_B,
        99 => Key::KEY_C,
        100 => Key::KEY_D,
        101 => Key::KEY_E,
        102 => Key::KEY_F,
        103 => Key::KEY_G,
        104 => Key::KEY_H,
        105 => Key::KEY_I,
        106 => Key::KEY_J,
        107 => Key::KEY_K,
        108 => Key::KEY_L,
        109 => Key::KEY_M,
        110 => Key::KEY_N,
        111 => Key::KEY_O,
        112 => Key::KEY_P,
        113 => Key::KEY_Q,
        114 => Key::KEY_R,
        115 => Key::KEY_S,
        116 => Key::KEY_T,
        117 => Key::KEY_U,
        118 => Key::KEY_V,
        119 => Key::KEY_W,
        120 => Key::KEY_X,
        121 => Key::KEY_Y,
        122 => Key::KEY_Z,
        _ => Key::KEY_OTHER,
    }
}

/// The key that a name in lowercase stands for: a single letter `a` to `z`,
/// `space`, `enter` or `return`, `esc` or `escape`.
pub open spec fn key_for_name(lower: Seq<char>) -> Option<Key> {
    if lower.len() == 1 && 0x61 <= lower[0] as u32 <= 0x7A {
        Some(letter_key(lower[0] as u32))
    } else if lower == "space"@ {
        Some(Key::KEY_SPACE)
    } else if lower == "enter"@ || lower == "return"@ {
        Some(Key::KEY_ENTER)
    } else if lower == "esc"@ || lower == "escape"@ {
        Some(Key::KEY_ESC)
    } else {
        None
    }
}

/// The modifier that a name in lowercase stands for: `super`, `meta` or
/// `win`; `shift`; `ctrl` or `control`; `alt`.
pub open spec fn modifier_for(lower: Seq<char>) -> Option<Modifier> {
    if lower == "super"@ || lower == "meta"@ || lower == "win"@ {
        Some(Modifier::Super)
    } else if lower == "shift"@ {
        Some(Modifier::Shift)
    } else if lower == "ctrl"@ || lower == "control"@ {
        Some(Modifier::Ctrl)
    } else if lower == "alt"@ {
        Some(Modifier::Alt)
    } else {
        None
    }
}

fn letter(code: u32) -> (key: Key)
    requires
        0x61 <= code <= 0x7A,
    ensures
        key == letter_key(code),
{
    match code {
        97 => Key::KEY_A,
        98 => Key::KEY_B,
        99 => Key::KEY_C,
        100 => Key::KEY_D,
        101 => Key::KEY_E,
        102 => Key::KEY_F,
        103 => Key::KEY_G,
        104 => Key::KEY_H,
        105 => Key::KEY_I,
        106 => Key::KEY_J,
        107 => Key::KEY_K,
        108 => Key::KEY_L,
        109 => Key::KEY_M,
        110 => Key::KEY_N,
        111 => Key::KEY_O,
        112 => Key::KEY_P,
        113 => Key::KEY_Q,
        114 => Key::KEY_R,
        115 => Key::KEY_S,
        116 => Key::KEY_T,
        117 => Key::KEY_U,
        118 => Key::KEY_V,
        119 => Key::KEY_W,
        120 => Key::KEY_X,
        121 => Key::KEY_Y,
        122 => Key::KEY_Z,
        _ => Key::KEY_OTHER,
    }
}

/// The key that `lower`, a name in lowercase, stands for.
pub fn key_from_lowercase(lower: &str) -> (key: Option<Key>)
    ensures
        key == key_for_name(lower@),
{
    let n = lower.unicode_len();
    if n == 1 {
        let code: u32 = lower.get_char(0) as u32;
        if 0x61 <= code && code <= 0x7A {
            return Some(letter(code));
        }
    }
    if str_eq(lower, "space") {
        Some(Key::KEY_SPACE)
    } else if str_eq(lower, "enter") || str_eq(lower, "return") {
        Some(Key::KEY_ENTER)
    } else if str_eq(lower, "esc") || str_eq(lower, "escape") {
        Some(Key::KEY_ESC)
    } else {
        None
    }
}

/// The modifier that `lower`, a name in lowercase, stands for.
pub fn modifier_from_lowercase(lower: &str) -> (modifier: Option<Modifier>)
    ensures
        modifier == modifier_for(lower@),
{
    if str_eq(lower, "super") || str_eq(lower, "meta") || str_eq(lower, "win") {
        Some(Modifier::Super)
    } else if str_eq(lower, "shift") {
        Some(Modifier::Shift)
    } else if str_eq(lower, "ctrl") || str_eq(lower, "control") {
        Some(Modifier::Ctrl)
    } else if str_eq(lower, "alt") {
        Some(Modifier::Alt)
    } else {
        None
    }
}

/// The key that `name` stands for, whatever its case.
pub fn parse_key_name(name: &str) -> (result: Result<Key, HotkeyError>)
    ensures
        result == match key_for_name(unicode_lowercase(name@)) {
            Some(key) => Ok::<Key, HotkeyError>(key),
            None => Err(HotkeyError::UnknownKey),
        },
{
    let lower = to_lowercase(name);
    match key_from_lowercase(lower.as_str()) {
        Some(key) => Ok(key),
        None => Err(HotkeyError::UnknownKey),
    }
}

/// What has been read of a hotkey so far.
pub struct Partial {
    pub super_mod: bool,
    pub shift_mod: bool,
    pub ctrl_mod: bool,
    pub alt_mod: bool,
    pub key: Option<Key>,
}

/// What one part adds to a hotkey. A modifier is noted wherever it stands.
/// Anything else must stand last and name a key.
pub open spec fn scan_part(acc: Partial, lower: Seq<char>, index: int, is_last: bool) -> Result<
    Partial,
    HotkeyError,
> {
    match modifier_for(lower) {
        Some(Modifier::Super) => Ok(Partial { super_mod: true, ..acc }),
        Some(Modifier::Shift) => Ok(Partial { shift_mod: true, ..acc }),
        Some(Modifier::Ctrl) => Ok(Partial { ctrl_mod: true, ..acc }),
        Some(Modifier::Alt) => Ok(Partial { alt_mod: true, ..acc }),
        None => if is_last {
            match key_for_name(lower) {
                Some(key) => Ok(Partial { key: Some(key), ..acc }),
                None => Err(HotkeyError::UnknownKey),
            }
        } else {
            Err(HotkeyError::UnknownModifier { index: index as usize })
        },
    }
}

/// What the first `n` parts give, read from left to right; the first part
/// that cannot be read decides the error.
pub open spec fn scan_parts(parts: Seq<Seq<char>>, n: int) -> Result<Partial, HotkeyError>
    decreases n,
{
    if n <= 0 {
        Ok(
            Partial {
                super_mod: false,
                shift_mod: false,
                ctrl_mod: false,
                alt_mod: false,
                key: None,
            },
        )
    } else {
        match scan_parts(parts, n - 1) {
            Ok(acc) => scan_part(acc, parts[n - 1], n - 1, n == parts.len()),
            Err(e) => Err(e),
        }
    }
}

/// The hotkey that parts in lowercase stand for.
pub open spec fn hotkey_of(parts: Seq<Seq<char>>) -> Result<Hotkey, HotkeyError> {
    match scan_parts(parts, parts.len() as int) {
        Ok(acc) => match acc.key {
            Some(key) => Ok(
                Hotkey {
                    super_mod: acc.super_mod,
                    shift_mod: acc.shift_mod,
                    ctrl_mod: acc.ctrl_mod,
                    alt_mod: acc.alt_mod,
                    key,
                },
            ),
            None => Err(HotkeyError::NoKeySpecified),
        },
        Err(e) => Err(e),
    }
}

/// The parts of a hotkey text: what stands between `+` signs, trimmed and
/// in lowercase.
pub open spec fn lowered_parts(text: Seq<char>) -> Seq<Seq<char>> {
    let parts = split_on(text, '+');
    Seq::new(parts.len(), |i: int| unicode_lowercase(trimmed(parts[i])))
}

/// Reads a hotkey from parts that are trimmed and in lowercase.
pub fn hotkey_from_parts(parts: &Vec<String>) -> (result: Result<Hotkey, HotkeyError>)
    ensures
        result == hotkey_of(views_of(parts@)),
{
    let ghost texts = views_of(parts@);
    let n = parts.len();
    let mut super_mod = false;
    let mut shift_mod = false;
    let mut ctrl_mod = false;
    let mut alt_mod = false;
    let mut key: Option<Key> = None;
    let mut i: usize = 0;
    while i < n
        invariant
            i <= n,
            n == parts@.len(),
            texts == views_of(parts@),
            scan_parts(texts, i as int) == Ok::<Partial, HotkeyError>(
                Partial { super_mod, shift_mod, ctrl_mod, alt_mod, key },
            ),
        decreases n - i,
    {
        let part = parts[i].as_str();
        assert(texts[i as int] == part@);
        match modifier_from_lowercase(part) {
            Some(Modifier::Super) => {
                super_mod = true;
            },
            Some(Modifier::Shift) => {
                shift_mod = true;
            },
            Some(Modifier::Ctrl) => {
                ctrl_mod = true;
            },
            Some(Modifier::Alt) => {
                alt_mod = true;
            },
            None => {
                if i == n - 1 {
                    match key_from_lowercase(part) {
                        Some(k) => {
                            key = Some(k);
                        },
                        None => {
                            proof {
                                lemma_scan_error_stays(texts, i + 1, n as int);
                            }
                            return Err(HotkeyError::UnknownKey);
                        },
                    }
                } else {
                    proof {
                        lemma_scan_error_stays(texts, i + 1, n as int);
                    }
                    return Err(HotkeyError::UnknownModifier { index: i });
                }
            },
        }
        i += 1;
    }
    match key {
        Some(key) => Ok(Hotkey { super_mod, shift_mod, ctrl_mod, alt_mod, key }),
        None => Err(HotkeyError::NoKeySpecified),
    }
}

proof fn lemma_scan_error_stays(parts: Seq<Seq<char>>, m: int, n: int)
    requires
        0 <= m <= n,
        scan_parts(parts, m) is Err,
    ensures
        scan_parts(parts, n) == scan_parts(parts, m),
    decreases n - m,
{
    if m < n {
        lemma_scan_error_stays(parts, m, n - 1);
    }
}

/// Reads a hotkey such as `Super+Shift+A`: parts separated by `+`, each
/// trimmed and compared without regard to case. Modifiers may stand anywhere;
/// the key must stand last.
pub fn parse_hotkey(hotkey_str: &str) -> (result: Result<Hotkey, HotkeyError>)
    ensures
        result == hotkey_of(lowered_parts(hotkey_str@)),
{
    let parts = split(hotkey_str, '+');
    let mut lowered: Vec<String> = Vec::new();
    let mut i: usize = 0;
    while i < parts.len()
        invariant
            i <= parts@.len(),
            views_of(parts@) == split_on(hotkey_str@, '+'),
            lowered@.len() == i,
            forall|j: int|
                0 <= j < i ==> (#[trigger] lowered@[j])@ == unicode_lowercase(
                    trimmed(parts@[j]@),
                ),
        decreases parts@.len() - i,
    {
        lowered.push(to_lowercase(trim(parts[i].as_str())));
        i += 1;
    }
    proof {
        let split_parts = split_on(hotkey_str@, '+');
        assert forall|j: int| 0 <= j < parts@.len() implies parts@[j]@ == split_parts[j] by {
            assert(views_of(parts@)[j] == parts@[j]@);
        }
        assert(views_of(lowered@) =~= lowered_parts(hotkey_str@));
    }
    hotkey_from_parts(&lowered)
}

/// The key of a hotkey is always what its last part names, and no part
/// before the last may name anything but a modifier.
pub proof fn lemma_key_stands_last(parts: Seq<Seq<char>>)
    requires
        hotkey_of(parts) is Ok,
    ensures
        parts.len() > 0,
        modifier_for(parts.last()) is None,
        key_for_name(parts.last()) == Some(hotkey_of(parts)->Ok_0.key),
        forall|i: int| 0 <= i < parts.len() - 1 ==> modifier_for(#[trigger] parts[i]) is Some,
{
    lemma_scan_keys(parts, parts.len() as int);
}

proof fn lemma_scan_keys(parts: Seq<Seq<char>>, n: int)
    requires
        0 <= n <= parts.len(),
        scan_parts(parts, n) is Ok,
    ensures
        n < parts.len() ==> scan_parts(parts, n)->Ok_0.key is None,
        forall|i: int| 0 <= i < n && i < parts.len() - 1 ==> modifier_for(#[trigger] parts[i])
            is Some,
        n == parts.len() && scan_parts(parts, n)->Ok_0.key is Some ==> n > 0 && modifier_for(
            parts.last(),
        ) is None && key_for_name(parts.last()) == scan_parts(parts, n)->Ok_0.key,
    decreases n,
{
    if n > 0 {
        lemma_scan_keys(parts, n - 1);
    }
}

/// Which modifiers are held, as far as the hotkey needs to know.
#[derive(Debug, Clone, Copy, PartialEq, Eq, Structural)]
pub struct HotkeyTracker {
    pub super_pressed: bool,
    pub shift_pressed: bool,
}

/// Whether `key` is one of the two super keys.
pub open spec fn is_super_key(key: Key) -> bool {
    key == Key::KEY_LEFTMETA || key == Key::KEY_RIGHTMETA
}

/// Whether `key` is one of the two shift keys.
pub open spec fn is_shift_key(key: Key) -> bool {
    key == Key::KEY_LEFTSHIFT || key == Key::KEY_RIGHTSHIFT
}

/// What a key event does: the modifiers held afterwards, and whether the
/// hotkey was pressed. `value` is 1 for a press. The hotkey is pressed when
/// its key goes down while super and shift are held exactly as it asks.
pub open spec fn tracker_step(tracker: HotkeyTracker, hotkey: Hotkey, key: Key, value: i32) -> (
    HotkeyTracker,
    bool,
) {
    if is_super_key(key) {
        (HotkeyTracker { super_pressed: value == 1, ..tracker }, false)
    } else if is_shift_key(key) {
        (HotkeyTracker { shift_pressed: value == 1, ..tracker }, false)
    } else {
        (
            tracker,
            key == hotkey.key && value == 1 && tracker.super_pressed == hotkey.super_mod
                && tracker.shift_pressed == hotkey.shift_mod,
        )
    }
}

impl HotkeyTracker {
    /// A tracker with no modifier held.
    pub fn new() -> (tracker: Self)
        ensures
            tracker == (HotkeyTracker { super_pressed: false, shift_pressed: false }),
    {
        HotkeyTracker { super_pressed: false, shift_pressed: false }
    }

    /// Takes note of a key event and says whether it pressed `hotkey`.
    pub fn on_key(&mut self, hotkey: &Hotkey, key: Key, value: i32) -> (triggered: bool)
        ensures
            (*final(self), triggered) == tracker_step(*old(self), *hotkey, key, value),
    {
        match key {
            Key::KEY_LEFTMETA | Key::KEY_RIGHTMETA => {
                self.super_pressed = value == 1;
                false
            },
            Key::KEY_LEFTSHIFT | Key::KEY_RIGHTSHIFT => {
                self.shift_pressed = value == 1;
                false
            },
            _ => key == hotkey.key && value == 1 && self.super_pressed == hotkey.super_mod
                && self.shift_pressed == hotkey.shift_mod,
        }
    }
}

} // verus!
