//! Window settings, decided from a flat string-keyed configuration map.
//!
//! Reading the configuration file is a collaborator's job; it hands over
//! key-value pairs, and this module decides the window's width, height,
//! title and fullscreen flag, falling back to defaults for missing or
//! unparseable values.

use vstd::prelude::*;

verus! {

/// The settings a window is created with.
pub struct WindowSettings {
    pub width: u32,
    pub height: u32,
    pub window_title: String,
    pub fullscreen: bool,
}

/// Whether `s` is a nonempty string of decimal digits.
pub open spec fn is_digits(s: Seq<char>) -> bool {
    s.len() > 0 && forall|i: int| 0 <= i < s.len() ==> '0' <= #[trigger] s[i] <= '9'
}

/// The number a digit string denotes.
pub open spec fn digits_value(s: Seq<char>) -> int
    decreases s.len(),
{
    if s.len() == 0 {
        0
    } else {
        digits_value(s.drop_last()) * 10 + (s.last() as int - '0' as int)
    }
}

/// Whether a digit string parses as a `u32`.
pub open spec fn parses_u32(s: Seq<char>) -> bool {
    is_digits(s) && digits_value(s) <= u32::MAX
}

/// Parses a nonempty decimal digit string as a `u32`. `None` exactly
/// when the string is empty, holds a non-digit, or denotes a number
/// beyond 32 bits.
pub fn parse_u32(s: &str) -> (result: Option<u32>)
    ensures
        result is Some <==> parses_u32(s@),
        result matches Some(v) ==> v == digits_value(s@),
{
    let len = s.unicode_len();
    if len == 0 {
        return None;
    }
    let mut value: u64 = 0;
    let mut i: usize = 0;
    while i < len
        invariant
            len == s@.len(),
            i <= len,
            forall|k: int| 0 <= k < i ==> '0' <= #[trigger] s@[k] <= '9',
            value == digits_value(s@.subrange(0, i as int)),
            value <= u32::MAX,
        decreases len - i,
    {
        let c = s.get_char(i);
        if !('0' <= c && c <= '9') {
            return None;
        }
        let digit = (c as u32) - 48;
        let next: u64 = value * 10 + digit as u64;
        if next > u32::MAX as u64 {
            proof {
                assert(s@.subrange(0, i + 1).drop_last() =~= s@.subrange(0, i as int));
                assert(s@.subrange(0, i + 1).last() == s@[i as int]);
                if is_digits(s@) {
                    lemma_digits_prefix_le(s@, i + 1);
                }
            }
            return None;
        }
        value = next;
        proof {
            assert(s@.subrange(0, i + 1).drop_last() =~= s@.subrange(0, i as int));
            assert(s@.subrange(0, i + 1).last() == s@[i as int]);
        }
        i = i + 1;
    }
    proof {
        assert(s@.subrange(0, len as int) =~= s@);
    }
    Some(value as u32)
}

/// A digit string's value is at least any prefix's value.
proof fn lemma_digits_prefix_le(s: Seq<char>, k: int)
    requires
        0 <= k <= s.len(),
        forall|i: int| 0 <= i < s.len() ==> '0' <= #[trigger] s[i] <= '9',
    ensures
        digits_value(s.subrange(0, k)) <= digits_value(s),
    decreases s.len() - k,
{
    if k == s.len() {
        assert(s.subrange(0, k) =~= s);
    } else {
        assert(s.subrange(0, k + 1).drop_last() =~= s.subrange(0, k));
        assert(s.subrange(0, k + 1).last() == s[k]);
        lemma_digits_value_nonneg(s.subrange(0, k));
        assert(digits_value(s.subrange(0, k)) * 10 >= digits_value(s.subrange(0, k)))
            by (nonlinear_arith)
            requires
                digits_value(s.subrange(0, k)) >= 0,
        ;
        lemma_digits_prefix_le(s, k + 1);
    }
}

/// A digit string denotes a nonnegative number.
proof fn lemma_digits_value_nonneg(s: Seq<char>)
    requires
        forall|i: int| 0 <= i < s.len() ==> '0' <= #[trigger] s[i] <= '9',
    ensures
        digits_value(s) >= 0,
    decreases s.len(),
{
    if s.len() > 0 {
        lemma_digits_value_nonneg(s.drop_last());
        assert(digits_value(s.drop_last()) * 10 >= 0) by (nonlinear_arith)
            requires
                digits_value(s.drop_last()) >= 0,
        ;
    }
}

/// The first value stored under `key`, if any.
pub open spec fn config_value(entries: Seq<(String, String)>, key: Seq<char>) -> Option<Seq<char>>
    decreases entries.len(),
{
    if entries.len() == 0 {
        None
    } else if entries[0].0@ == key {
        Some(entries[0].1@)
    } else {
        config_value(entries.skip(1), key)
    }
}

/// Looks up the first value stored under `key`.
pub fn lookup_config<'a>(entries: &'a Vec<(String, String)>, key: &str) -> (result: Option<
    &'a String,
>)
    ensures
        result matches Some(v) ==> config_value(entries@, key@) == Some(v@),
        result is None ==> config_value(entries@, key@) is None,
{
    let mut i: usize = 0;
    proof {
        assert(entries@.skip(0) =~= entries@);
    }
    while i < entries.len()
        invariant
            i <= entries@.len(),
            config_value(entries@, key@) == config_value(entries@.skip(i as int), key@),
        decreases entries@.len() - i,
    {
        proof {
            assert(entries@.skip(i as int)[0] == entries@[i as int]);
            assert(entries@.skip(i as int).skip(1) =~= entries@.skip(i + 1));
        }
        if entries[i].0 == key.to_owned() {
            return Some(&entries[i].1);
        }
        i = i + 1;
    }
    proof {
        assert(entries@.skip(entries@.len() as int) =~= Seq::<(String, String)>::empty());
    }
    None
}

/// The width the configuration decides: the `width` value when it parses
/// as a number, else 640.
pub open spec fn width_of(entries: Seq<(String, String)>) -> int {
    match config_value(entries, "width"@) {
        Some(s) => if parses_u32(s) {
            digits_value(s)
        } else {
            640
        },
        None => 640,
    }
}

/// The height the configuration decides, defaulting to 480.
pub open spec fn height_of(entries: Seq<(String, String)>) -> int {
    match config_value(entries, "height"@) {
        Some(s) => if parses_u32(s) {
            digits_value(s)
        } else {
            480
        },
        None => 480,
    }
}

/// The title the configuration decides, defaulting to `No title?`.
pub open spec fn title_of(entries: Seq<(String, String)>) -> Seq<char> {
    match config_value(entries, "window_title"@) {
        Some(s) => s,
        None => "No title?"@,
    }
}

/// The fullscreen flag the configuration decides: only the exact value
/// `true` turns it on; anything else, or no value, leaves it off.
pub open spec fn fullscreen_of(entries: Seq<(String, String)>) -> bool {
    match config_value(entries, "fullscreen"@) {
        Some(s) => s == "true"@,
        None => false,
    }
}

/// Decides the window settings from configuration pairs: width and
/// height fall back to 640 by 480 when absent or unparseable, the title
/// to `No title?`, and fullscreen is on only for the exact value `true`.
pub fn window_settings_from_config(entries: &Vec<(String, String)>) -> (settings: WindowSettings)
    ensures
        settings.width == width_of(entries@),
        settings.height == height_of(entries@),
        settings.window_title@ == title_of(entries@),
        settings.fullscreen == fullscreen_of(entries@),
{
    let width: u32 = match lookup_config(entries, "width") {
        Some(v) => match parse_u32(v.as_str()) {
            Some(x) => x,
            None => 640,
        },
        None => 640,
    };
    let height: u32 = match lookup_config(entries, "height") {
        Some(v) => match parse_u32(v.as_str()) {
            Some(x) => x,
            None => 480,
        },
        None => 480,
    };
    let window_title: String = match lookup_config(entries, "window_title") {
        Some(v) => v.clone(),
        None => "No title?".to_owned(),
    };
    let fullscreen: bool = match lookup_config(entries, "fullscreen") {
        Some(v) => *v == "true".to_owned(),
        None => false,
    };
    WindowSettings { width, height, window_title, fullscreen }
}

} // verus!
