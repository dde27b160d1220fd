//! sysfs hwmon attributes: which files a chip's channels live in, which
//! attribute names are safe to open, and what a read attribute holds.
//! Devices are found by their `name` file — hwmon indices are not stable
//! across boots, so index-based lookup is not offered. Opening, reading and
//! writing the files is the caller's part; everything decided about them
//! is here.

use vstd::prelude::*;
use crate::cli::{path_join, path_join_str};
use crate::text::{
    chars_of, decimal, parse_signed_chars, parses_signed, push_char, push_decimal, push_signed_decimal,
    signed_decimal, signed_value, trim, trim_chars, is_digit, lemma_decimal_reads_back, lemma_trim_digits,
};

verus! {

/// Largest magnitude of a negative `i64`.
pub const I64_MIN_MAGNITUDE: u64 = 0x8000_0000_0000_0000;

/// One hwmon chip: its `name` and its directory under the hwmon root.
#[derive(Debug, Clone)]
pub struct HwmonDevice {
    name: String,
    path: String,
}

/// Why an attribute read or path was refused.
#[derive(Debug, Clone, PartialEq, Eq)]
pub enum HwmonError {
    /// Not a plain attribute file name (it could escape the device directory).
    InvalidAttr(String),
    /// The file's trimmed contents are not an `i64`.
    Unparsable { path: String, text: String },
    /// A `fanN_input` reading that is not a `u32`.
    FanOutOfRange { device: String, n: u32, value: i64 },
    /// A `pwmN` reading outside 0-255.
    PwmOutOfRange { device: String, n: u32, value: i64 },
}

pub open spec fn is_attr_char(c: char) -> bool {
    ('a' <= c && c <= 'z') || ('A' <= c && c <= 'Z') || ('0' <= c && c <= '9') || c == '_'
}

/// A plain attribute file name: nonempty, ASCII letters, digits and `_` only.
pub open spec fn valid_attr(a: Seq<char>) -> bool {
    a.len() > 0 && forall|i: int| 0 <= i < a.len() ==> is_attr_char(#[trigger] a[i])
}

pub open spec fn pwm_attr(n: u32) -> Seq<char> {
    "pwm"@ + decimal(n as nat)
}

pub open spec fn pwm_enable_attr(n: u32) -> Seq<char> {
    "pwm"@ + decimal(n as nat) + "_enable"@
}

pub open spec fn fan_input_attr(n: u32) -> Seq<char> {
    "fan"@ + decimal(n as nat) + "_input"@
}

/// The value an attribute file's contents hold: its trimmed text read as
/// an `i64`.
pub open spec fn reading(contents: Seq<char>) -> Option<int> {
    let t = trim(contents);
    if parses_signed(t, I64_MIN_MAGNITUDE as int, i64::MAX as int) {
        Some(signed_value(t))
    } else {
        None
    }
}

/// What reading the attribute file at `path` with `contents` gives.
pub open spec fn reading_result(path: Seq<char>, contents: Seq<char>) -> Result<int, (Seq<char>, Seq<char>)> {
    match reading(contents) {
        Some(v) => Ok(v),
        None => Err((path, trim(contents))),
    }
}

/// What `write_pwm(n, v)` writes to `pwmN` (the decimal text of `v`),
/// `read_pwm(n, ..)` reads back as `v`, whatever the file's path.
pub proof fn lemma_written_pwm_reads_back(path: Seq<char>, v: u8)
    ensures
        reading_result(path, decimal(v as nat)) == Ok::<int, (Seq<char>, Seq<char>)>(v as int),
{
    lemma_decimal_reads_back(v as nat);
    lemma_trim_digits(decimal(v as nat));
    let t = decimal(v as nat);
    assert(t[0] != '-' && t[0] != '+') by {
        assert(is_digit(t[0]));
    }
}

pub open spec fn error_text(e: HwmonError) -> Seq<char> {
    match e {
        HwmonError::InvalidAttr(a) => "invalid hwmon attribute name `"@ + a@ + "`"@,
        HwmonError::Unparsable { path, text } => "parsing "@ + path@ + " (`"@ + text@ + "`)"@,
        HwmonError::FanOutOfRange { device, n, value } => device@ + ": fan"@ + decimal(n as nat) + "_input reads "@
            + signed_decimal(value as int),
        HwmonError::PwmOutOfRange { device, n, value } => device@ + ": pwm"@ + decimal(n as nat) + " reads "@
            + signed_decimal(value as int) + ", expected 0-255"@,
    }
}

impl HwmonError {
    /// The error as the daemon reports it.
    pub fn message(&self) -> (m: String)
        ensures
            m@ == error_text(*self),
    {
        let mut m = String::new();
        match self {
            HwmonError::InvalidAttr(a) => {
                m.append("invalid hwmon attribute name `");
                m.append(a.as_str());
                m.append("`");
            },
            HwmonError::Unparsable { path, text } => {
                m.append("parsing ");
                m.append(path.as_str());
                m.append(" (`");
                m.append(text.as_str());
                m.append("`)");
            },
            HwmonError::FanOutOfRange { device, n, value } => {
                m.append(device.as_str());
                m.append(": fan");
                push_decimal(&mut m, *n as u64);
                m.append("_input reads ");
                push_signed_decimal(&mut m, *value);
            },
            HwmonError::PwmOutOfRange { device, n, value } => {
                m.append(device.as_str());
                m.append(": pwm");
                push_decimal(&mut m, *n as u64);
                m.append(" reads ");
                push_signed_decimal(&mut m, *value);
                m.append(", expected 0-255");
            },
        }
        m
    }
}

/// Does the text of a chip's `name` file name the chip `name`?
pub fn name_matches(name_file: &str, name: &str) -> (b: bool)
    ensures
        b == (trim(name_file@) == name@),
{
    let v = chars_of(name_file);
    let t = trim_chars(&v);
    let w = chars_of(name);
    if t.len() != w.len() {
        return false;
    }
    let mut i: usize = 0;
    while i < t.len()
        invariant
            t@ == trim(name_file@),
            w@ == name@,
            t.len() == w.len(),
            0 <= i <= t.len(),
            forall|k: int| 0 <= k < i ==> t@[k] == w@[k],
        decreases t.len() - i,
    {
        if t[i] != w[i] {
            assert(t@[i as int] != w@[i as int]);
            return false;
        }
        i = i + 1;
    }
    assert(t@ =~= w@);
    true
}

/// Is `attr` a plain attribute file name?
pub fn is_valid_attr(attr: &str) -> (b: bool)
    ensures
        b == valid_attr(attr@),
{
    let v = chars_of(attr);
    if v.len() == 0 {
        return false;
    }
    let mut i: usize = 0;
    while i < v.len()
        invariant
            v@ == attr@,
            0 <= i <= v.len(),
            forall|k: int| 0 <= k < i ==> is_attr_char(#[trigger] v@[k]),
        decreases v.len() - i,
    {
        let c = v[i];
        if !(('a' <= c && c <= 'z') || ('A' <= c && c <= 'Z') || ('0' <= c && c <= '9') || c == '_') {
            assert(!is_attr_char(attr@[i as int]));
            return false;
        }
        i = i + 1;
    }
    true
}

/// `prefix`, then the decimal form of `n`, then `suffix`.
fn numbered(prefix: &str, n: u32, suffix: &str) -> (s: String)
    ensures
        s@ == prefix@ + decimal(n as nat) + suffix@,
{
    let mut s = String::new();
    s.append(prefix);
    push_decimal(&mut s, n as u64);
    s.append(suffix);
    s
}

/// The `i64` in an attribute file's contents, or why there is none.
fn parse_reading(path: String, contents: &str) -> (r: Result<i64, HwmonError>)
    ensures
        match reading_result(path@, contents@) {
            Ok(v) => r == Ok::<i64, HwmonError>(v as i64),
            Err((p, t)) => r matches Err(HwmonError::Unparsable { path: rp, text: rt }) && rp@ == p && rt@ == t,
        },
{
    let v = chars_of(contents);
    let t = trim_chars(&v);
    match parse_signed_chars(&t, I64_MIN_MAGNITUDE, i64::MAX as u64) {
        Some(x) => Ok(x),
        None => {
            let mut text = String::new();
            let mut i: usize = 0;
            while i < t.len()
                invariant
                    0 <= i <= t.len(),
                    text@ == t@.take(i as int),
                decreases t.len() - i,
            {
                push_char(&mut text, t[i]);
                assert(text@ =~= t@.take(i + 1));
                i = i + 1;
            }
            assert(text@ =~= t@);
            Err(HwmonError::Unparsable { path, text })
        },
    }
}

impl HwmonDevice {
    /// The device named `name` whose directory is `path` — what a scan of
    /// the hwmon root finds when [`name_matches`] holds for its `name` file.
    pub fn new(name: String, path: String) -> (d: Self)
        ensures
            d.name_spec() == name@,
            d.path_spec() == path@,
    {
        HwmonDevice { name, path }
    }

    pub closed spec fn name_spec(&self) -> Seq<char> {
        self.name@
    }

    pub closed spec fn path_spec(&self) -> Seq<char> {
        self.path@
    }

    pub fn name(&self) -> (s: &str)
        ensures
            s@ == self.name_spec(),
    {
        self.name.as_str()
    }

    pub fn path(&self) -> (s: &str)
        ensures
            s@ == self.path_spec(),
    {
        self.path.as_str()
    }

    /// The file of attribute `attr`. `attr` can come from user config
    /// (a sensor's `input`), so anything that is not a plain attribute
    /// file name is refused: it could escape the device directory.
    pub fn attr_path(&self, attr: &str) -> (r: Result<String, HwmonError>)
        ensures
            valid_attr(attr@) ==> (r matches Ok(p) && p@ == path_join(self.path_spec(), attr@)),
            !valid_attr(attr@) ==> (r matches Err(HwmonError::InvalidAttr(a)) && a@ == attr@),
    {
        if is_valid_attr(attr) {
            Ok(path_join_str(&self.path, attr))
        } else {
            let mut a = String::new();
            a.append(attr);
            Err(HwmonError::InvalidAttr(a))
        }
    }

    /// The value of attribute `attr`, whose file holds `contents`.
    pub fn read_attr(&self, attr: &str, contents: &str) -> (r: Result<i64, HwmonError>)
        ensures
            !valid_attr(attr@) ==> (r matches Err(HwmonError::InvalidAttr(a)) && a@ == attr@),
            valid_attr(attr@) ==> match reading_result(path_join(self.path_spec(), attr@), contents@) {
                Ok(v) => r == Ok::<i64, HwmonError>(v as i64),
                Err((p, t)) => r matches Err(HwmonError::Unparsable { path: rp, text: rt }) && rp@ == p && rt@ == t,
            },
    {
        let path = self.attr_path(attr)?;
        parse_reading(path, contents)
    }

    /// The fan speed `fanN_input` holds, with `contents` its text.
    pub fn read_fan_rpm(&self, n: u32, contents: &str) -> (r: Result<u32, HwmonError>)
        ensures
            match reading_result(path_join(self.path_spec(), fan_input_attr(n)), contents@) {
                Ok(v) => if 0 <= v <= u32::MAX {
                    r == Ok::<u32, HwmonError>(v as u32)
                } else {
                    r matches Err(HwmonError::FanOutOfRange { device, n: rn, value }) && device@
                        == self.name_spec() && rn == n && value == v
                },
                Err((p, t)) => r matches Err(HwmonError::Unparsable { path: rp, text: rt }) && rp@ == p && rt@ == t,
            },
    {
        let attr = numbered("fan", n, "_input");
        proof {
            reveal_strlit("fan");
            reveal_strlit("_input");
        }
        let path = path_join_str(&self.path, attr.as_str());
        let v = parse_reading(path, contents)?;
        if 0 <= v && v <= u32::MAX as i64 {
            Ok(v as u32)
        } else {
            Err(HwmonError::FanOutOfRange { device: self.name.clone(), n, value: v })
        }
    }

    /// The duty `pwmN` holds, with `contents` its text.
    pub fn read_pwm(&self, n: u32, contents: &str) -> (r: Result<u8, HwmonError>)
        ensures
            match reading_result(path_join(self.path_spec(), pwm_attr(n)), contents@) {
                Ok(v) => if 0 <= v <= 255 {
                    r == Ok::<u8, HwmonError>(v as u8)
                } else {
                    r matches Err(HwmonError::PwmOutOfRange { device, n: rn, value }) && device@
                        == self.name_spec() && rn == n && value == v
                },
                Err((p, t)) => r matches Err(HwmonError::Unparsable { path: rp, text: rt }) && rp@ == p && rt@ == t,
            },
    {
        let path = self.pwm_path(n);
        let v = parse_reading(path, contents)?;
        if 0 <= v && v <= 255 {
            Ok(v as u8)
        } else {
            Err(HwmonError::PwmOutOfRange { device: self.name.clone(), n, value: v })
        }
    }

    /// The mode `pwmN_enable` holds, with `contents` its text.
    pub fn read_pwm_enable(&self, n: u32, contents: &str) -> (r: Result<i64, HwmonError>)
        ensures
            match reading_result(path_join(self.path_spec(), pwm_enable_attr(n)), contents@) {
                Ok(v) => r == Ok::<i64, HwmonError>(v as i64),
                Err((p, t)) => r matches Err(HwmonError::Unparsable { path: rp, text: rt }) && rp@ == p && rt@ == t,
            },
    {
        let path = self.pwm_enable_path(n);
        parse_reading(path, contents)
    }

    /// Where to write, and what, to set `pwmN` to `value`.
    pub fn write_pwm(&self, n: u32, value: u8) -> (w: (String, String))
        ensures
            w.0@ == path_join(self.path_spec(), pwm_attr(n)),
            w.1@ == decimal(value as nat),
    {
        let mut text = String::new();
        push_decimal(&mut text, value as u64);
        (self.pwm_path(n), text)
    }

    /// Where to write, and what, to set `pwmN_enable` to `value`.
    pub fn write_pwm_enable(&self, n: u32, value: u8) -> (w: (String, String))
        ensures
            w.0@ == path_join(self.path_spec(), pwm_enable_attr(n)),
            w.1@ == decimal(value as nat),
    {
        let mut text = String::new();
        push_decimal(&mut text, value as u64);
        (self.pwm_enable_path(n), text)
    }

    pub fn pwm_enable_path(&self, n: u32) -> (p: String)
        ensures
            p@ == path_join(self.path_spec(), pwm_enable_attr(n)),
    {
        let attr = numbered("pwm", n, "_enable");
        proof {
            reveal_strlit("pwm");
            reveal_strlit("_enable");
        }
        path_join_str(&self.path, attr.as_str())
    }

    pub fn pwm_path(&self, n: u32) -> (p: String)
        ensures
            p@ == path_join(self.path_spec(), pwm_attr(n)),
    {
        let attr = numbered("pwm", n, "");
        proof {
            reveal_strlit("pwm");
            reveal_strlit("");
            assert(attr@ =~= pwm_attr(n));
        }
        path_join_str(&self.path, attr.as_str())
    }
}

/// A `pwmN_enable` file name: `pwm`, one or more ASCII digits, `_enable`.
pub open spec fn is_pwm_enable_name_spec(f: Seq<char>) -> bool {
    &&& f.len() > 10
    &&& f.take(3) == "pwm"@
    &&& f.skip(f.len() - 7) == "_enable"@
    &&& forall|i: int| 3 <= i < f.len() - 7 ==> crate::text::is_digit(#[trigger] f[i])
}

/// Is `fname` the name of a `pwmN_enable` file? (The chip's full list of
/// them is what restoring firmware control must cover, configured or not.)
pub fn is_pwm_enable_name(fname: &str) -> (b: bool)
    ensures
        b == is_pwm_enable_name_spec(fname@),
{
    proof {
        reveal_strlit("pwm");
        reveal_strlit("_enable");
    }
    let v = chars_of(fname);
    let len = v.len();
    if len <= 10 {
        return false;
    }
    if !(v[0] == 'p' && v[1] == 'w' && v[2] == 'm') {
        assert(v@.take(3)[0] == v@[0] && v@.take(3)[1] == v@[1] && v@.take(3)[2] == v@[2]);
        return false;
    }
    assert(v@.take(3) =~= "pwm"@);
    let e = len - 7;
    if !(v[e] == '_' && v[e + 1] == 'e' && v[e + 2] == 'n' && v[e + 3] == 'a' && v[e + 4] == 'b' && v[e + 5] == 'l'
        && v[e + 6] == 'e') {
        proof {
            let s = v@.skip(e as int);
            assert(s[0] == v@[e as int] && s[1] == v@[e + 1] && s[2] == v@[e + 2] && s[3] == v@[e + 3] && s[4]
                == v@[e + 4] && s[5] == v@[e + 5] && s[6] == v@[e + 6]);
        }
        return false;
    }
    assert(v@.skip(e as int) =~= "_enable"@);
    let mut i: usize = 3;
    while i < e
        invariant
            v@ == fname@,
            e == v.len() - 7,
            3 <= i <= e,
            forall|k: int| 3 <= k < i ==> crate::text::is_digit(#[trigger] v@[k]),
        decreases e - i,
    {
        if !('0' <= v[i] && v[i] <= '9') {
            return false;
        }
        i = i + 1;
    }
    true
}

} // verus!
