//! Pure helpers of the command-line client: duty display, raw PWM
//! parsing, and where a not-applied config edit is preserved.

use vstd::prelude::*;
use crate::text::{
    chars_of, decimal, decimal_string, parse_signed_chars, parse_unsigned, parses_signed, parses_unsigned, push_char,
    signed_value, unsigned_value,
};

verus! {

/// Raw PWM (0-255) as a whole duty percentage, rounded to nearest (no
/// input lies exactly halfway).
pub open spec fn duty_value(pwm: u8) -> nat {
    ((200 * pwm + 255) / 510) as nat
}

/// Raw PWM as a duty percentage — what the wire carries vs what a human
/// wants to read, e.g. "31%".
pub fn duty_percent(pwm: u8) -> (s: String)
    ensures
        s@ == decimal(duty_value(pwm)) + "%"@,
{
    let v: u64 = (200 * pwm as u64 + 255) / 510;
    let mut s = decimal_string(v);
    s.append("%");
    s
}

#[derive(Debug, Clone, Copy, PartialEq, Eq)]
pub enum PwmParseError {
    /// Not an unsigned 16-bit number.
    NotANumber,
    /// A number above 255.
    OutOfRange(u16),
}

/// A raw PWM value as typed: what `str::parse::<u16>` accepts, at most 255.
pub fn parse_raw_pwm(s: &str) -> (r: Result<u8, PwmParseError>)
    ensures
        !parses_unsigned(s@, u16::MAX as int) ==> r == Err::<u8, PwmParseError>(PwmParseError::NotANumber),
        parses_unsigned(s@, u16::MAX as int) && unsigned_value(s@) > 255 ==> r == Err::<u8, PwmParseError>(
            PwmParseError::OutOfRange(unsigned_value(s@) as u16),
        ),
        parses_unsigned(s@, u16::MAX as int) && unsigned_value(s@) <= 255 ==> r == Ok::<u8, PwmParseError>(
            unsigned_value(s@) as u8,
        ),
{
    match parse_unsigned(s, u16::MAX as u64) {
        None => Err(PwmParseError::NotANumber),
        Some(v) => {
            if v > 255 {
                Err(PwmParseError::OutOfRange(v as u16))
            } else {
                Ok(v as u8)
            }
        },
    }
}

/// A path is absolute when it starts at the root.
pub open spec fn is_absolute(p: Seq<char>) -> bool {
    p.len() > 0 && p[0] == '/'
}

/// `base` joined with a relative `rest`, with one separator between them.
pub open spec fn path_join(base: Seq<char>, rest: Seq<char>) -> Seq<char> {
    if base.len() == 0 || base.last() == '/' {
        base + rest
    } else {
        base + seq!['/'] + rest
    }
}

pub open spec fn state_base_spec(xdg: Option<Seq<char>>, home: Option<Seq<char>>) -> Option<Seq<char>> {
    match xdg {
        Some(x) if is_absolute(x) => Some(x),
        _ => match home {
            Some(h) if is_absolute(h) => Some(path_join(h, ".local/state"@)),
            _ => None,
        },
    }
}

pub open spec fn opt_view(o: Option<String>) -> Option<Seq<char>> {
    match o {
        Some(s) => Some(s@),
        None => None,
    }
}

pub fn path_join_str(base: &String, rest: &str) -> (p: String)
    ensures
        p@ == path_join(base@, rest@),
{
    let v = chars_of(base.as_str());
    let mut p = base.clone();
    if !(v.len() == 0 || v[v.len() - 1] == '/') {
        p.append("/");
        proof {
            reveal_strlit("/");
        }
    }
    p.append(rest);
    p
}

/// The XDG state base directory, or `None` when no absolute candidate
/// exists: `XDG_STATE_HOME` if absolute, else `$HOME/.local/state` if
/// `HOME` is absolute. A relative value is invalid per the XDG spec and
/// ignored.
pub fn state_base(xdg: Option<String>, home: Option<String>) -> (r: Option<String>)
    ensures
        opt_view(r) == state_base_spec(opt_view(xdg), opt_view(home)),
{
    proof {
        reveal_strlit(".local/state");
    }
    match xdg {
        Some(x) => {
            let v = chars_of(x.as_str());
            if v.len() > 0 && v[0] == '/' {
                return Some(x);
            }
        },
        None => {},
    }
    match home {
        Some(h) => {
            let v = chars_of(h.as_str());
            if v.len() > 0 && v[0] == '/' {
                Some(path_join_str(&h, ".local/state"))
            } else {
                None
            }
        },
        None => None,
    }
}

/// Why a `temp:pwm` curve point was refused before its duty was read.
#[derive(Debug, Clone, Copy, PartialEq, Eq)]
pub enum PointError {
    /// No `:` (want temp:pwm, e.g. 40:80 or 40:31%).
    NoColon,
    /// The text before the first `:` is not an `i32`.
    BadTemperature,
}

/// Index of the first `:` in `s`, or its length.
pub open spec fn first_colon(s: Seq<char>) -> int
    decreases s.len(),
{
    if s.len() == 0 {
        0
    } else if s[0] == ':' {
        0
    } else {
        1 + first_colon(s.skip(1))
    }
}

proof fn lemma_first_colon(s: Seq<char>)
    ensures
        0 <= first_colon(s) <= s.len(),
        first_colon(s) < s.len() ==> s[first_colon(s)] == ':',
        forall|j: int| 0 <= j < first_colon(s) ==> s[j] != ':',
    decreases s.len(),
{
    if s.len() > 0 && s[0] != ':' {
        lemma_first_colon(s.skip(1));
        assert forall|j: int| 0 <= j < first_colon(s) implies s[j] != ':' by {
            if j > 0 {
                assert(s[j] == s.skip(1)[j - 1]);
            }
        }
    }
}

pub open spec fn i32_text(t: Seq<char>) -> bool {
    parses_signed(t, 0x8000_0000, i32::MAX as int)
}

/// A `temp:pwm` point split at its first `:`: the temperature (what
/// `str::parse::<i32>` makes of the text before it) and the duty text
/// after it, which may be raw or a percentage.
pub fn split_point(s: &str) -> (r: Result<(i32, String), PointError>)
    ensures
        first_colon(s@) == s@.len() ==> r == Err::<(i32, String), PointError>(PointError::NoColon),
        first_colon(s@) < s@.len() && !i32_text(s@.take(first_colon(s@))) ==> r == Err::<(i32, String), PointError>(
            PointError::BadTemperature,
        ),
        first_colon(s@) < s@.len() && i32_text(s@.take(first_colon(s@))) ==> (r matches Ok((t, rest)) && t
            == signed_value(s@.take(first_colon(s@))) && rest@ == s@.skip(first_colon(s@) + 1)),
{
    let v = chars_of(s);
    proof {
        lemma_first_colon(s@);
    }
    let mut k: usize = 0;
    while k < v.len() && v[k] != ':'
        invariant
            v@ == s@,
            0 <= k <= v.len(),
            forall|j: int| 0 <= j < k ==> v@[j] != ':',
        decreases v.len() - k,
    {
        k = k + 1;
    }
    assert(k == first_colon(s@)) by {
        if k < first_colon(s@) {
            assert(v@[k as int] != ':');
        }
        if k > first_colon(s@) {
            assert(s@[first_colon(s@)] == ':');
        }
    }
    if k == v.len() {
        return Err(PointError::NoColon);
    }
    let mut temp: Vec<char> = Vec::new();
    let mut i: usize = 0;
    while i < k
        invariant
            v@ == s@,
            k < v.len(),
            0 <= i <= k,
            temp@ == v@.take(i as int),
        decreases k - i,
    {
        temp.push(v[i]);
        assert(temp@ =~= v@.take(i + 1));
        i = i + 1;
    }
    let t = match parse_signed_chars(&temp, 0x8000_0000, i32::MAX as u64) {
        Some(t) => t,
        None => {
            return Err(PointError::BadTemperature);
        },
    };
    let mut rest = String::new();
    let mut j: usize = k + 1;
    while j < v.len()
        invariant
            v@ == s@,
            k < v.len(),
            k + 1 <= j <= v.len(),
            rest@ == v@.subrange(k + 1, j as int),
        decreases v.len() - j,
    {
        push_char(&mut rest, v[j]);
        assert(rest@ =~= v@.subrange(k + 1, j + 1));
        j = j + 1;
    }
    assert(rest@ =~= s@.skip(k + 1));
    Ok((t as i32, rest))
}

pub open spec fn preserved_edit_name_spec(stamp: u64, attempt: u32) -> Seq<char> {
    if attempt == 0 {
        "config-edit-"@ + decimal(stamp as nat) + ".toml"@
    } else {
        "config-edit-"@ + decimal(stamp as nat) + "-"@ + decimal(attempt as nat) + ".toml"@
    }
}

/// The file name a not-applied edit is preserved under: stamped with the
/// time, and a widening suffix so a second edit in the same second never
/// overwrites the first.
pub fn preserved_edit_name(stamp: u64, attempt: u32) -> (name: String)
    ensures
        name@ == preserved_edit_name_spec(stamp, attempt),
{
    let mut name = String::new();
    name.append("config-edit-");
    crate::text::push_decimal(&mut name, stamp);
    if attempt != 0 {
        name.append("-");
        crate::text::push_decimal(&mut name, attempt as u64);
    }
    name.append(".toml");
    name
}

/// What `curve set` does with the named curve.
#[derive(Debug, Clone, Copy, PartialEq, Eq)]
pub enum CurveSetAction {
    /// The curve exists: replace its points.
    ReplacePoints,
    /// A new curve with a sensor to read: create it as a graph curve.
    CreateGraph,
    /// A new curve needs a temperature source: refuse.
    NeedsSensor,
}

/// `curve set`'s choice: an existing curve gets its points replaced; a new
/// one is created as a graph curve only when a sensor is given.
pub fn curve_set_action(exists: bool, sensor_given: bool) -> (a: CurveSetAction)
    ensures
        a == (if exists {
            CurveSetAction::ReplacePoints
        } else if sensor_given {
            CurveSetAction::CreateGraph
        } else {
            CurveSetAction::NeedsSensor
        }),
{
    if exists {
        CurveSetAction::ReplacePoints
    } else if sensor_given {
        CurveSetAction::CreateGraph
    } else {
        CurveSetAction::NeedsSensor
    }
}

} // verus!
