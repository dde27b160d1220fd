//! The socket server's per-line decisions: which received lines run,
//! which protocol versions are served, how an engine that does not answer
//! in time is reported, and the `fand` group's id from `/etc/group`.

use vstd::prelude::*;
use crate::proto::{ErrorCode, PROTOCOL_VERSION};
use crate::text::{
    all_whitespace, char_is_whitespace, chars_of, decimal, parse_unsigned_chars, parses_unsigned, push_decimal,
    split, split_chars, unsigned_value,
};

verus! {

/// What to do with one `read_line` result.
#[derive(Debug, Clone, Copy, PartialEq, Eq)]
pub enum LineAction {
    /// Clean end of stream: close the connection.
    Eof,
    /// An EOF-truncated final record (no newline): discard it and close —
    /// only newline-terminated requests execute, so a client whose send
    /// died mid-request can truthfully report "not applied".
    Truncated,
    /// A blank line: skip it.
    Blank,
    /// A request line to decode.
    Request,
}

pub open spec fn line_action_spec(bytes_read: usize, line: Seq<char>) -> LineAction {
    if bytes_read == 0 {
        LineAction::Eof
    } else if !(line.len() > 0 && line.last() == '\n') {
        LineAction::Truncated
    } else if all_whitespace(line) {
        LineAction::Blank
    } else {
        LineAction::Request
    }
}

pub fn line_action(bytes_read: usize, line: &str) -> (a: LineAction)
    ensures
        a == line_action_spec(bytes_read, line@),
{
    if bytes_read == 0 {
        return LineAction::Eof;
    }
    let v = chars_of(line);
    if !(v.len() > 0 && v[v.len() - 1] == '\n') {
        return LineAction::Truncated;
    }
    let mut i: usize = 0;
    while i < v.len()
        invariant
            v@ == line@,
            bytes_read != 0,
            v.len() > 0,
            v@.last() == '\n',
            0 <= i <= v.len(),
            forall|k: int| 0 <= k < i ==> crate::text::is_whitespace(#[trigger] v@[k]),
        decreases v.len() - i,
    {
        if !char_is_whitespace(v[i]) {
            assert(!crate::text::is_whitespace(line@[i as int]));
            return LineAction::Request;
        }
        i = i + 1;
    }
    LineAction::Blank
}

/// The version a request claims, or — when even its version cannot be
/// read — the daemon's own (the request then fails as a bad request).
pub fn claimed_version(probe: Option<u32>) -> (v: u32)
    ensures
        v == match probe {
            Some(x) => x,
            None => PROTOCOL_VERSION,
        },
{
    match probe {
        Some(x) => x,
        None => PROTOCOL_VERSION,
    }
}

pub open spec fn unsupported_version_text(version: u32) -> Seq<char> {
    "unsupported protocol version "@ + decimal(version as nat) + " (daemon speaks "@ + decimal(PROTOCOL_VERSION as nat)
        + ")"@
}

/// The refusal for a request of another protocol version, checked before
/// the full command is decoded so it gets the clear version diagnostic.
pub fn unsupported_version_message(version: u32) -> (m: String)
    ensures
        m@ == unsupported_version_text(version),
{
    let mut m = String::new();
    m.append("unsupported protocol version ");
    push_decimal(&mut m, version as u64);
    m.append(" (daemon speaks ");
    push_decimal(&mut m, PROTOCOL_VERSION as u64);
    m.append(")");
    m
}

/// The reply when the control loop did not answer a forwarded command in
/// time. The command may still run: for a mutation the outcome is
/// genuinely unknown and says so with a structured code; a read just
/// failed.
pub fn engine_timeout_reply(mutating: bool) -> (r: (String, Option<ErrorCode>))
    ensures
        mutating ==> r.0@ == "control loop did not respond in time (the command may still apply)"@ && r.1 == Some(
            ErrorCode::OutcomeUnknown,
        ),
        !mutating ==> r.0@ == "control loop did not respond in time"@ && r.1 is None,
{
    if mutating {
        (String::from_str("control loop did not respond in time (the command may still apply)"), Some(ErrorCode::OutcomeUnknown))
    } else {
        (String::from_str("control loop did not respond in time"), None)
    }
}

/// `str::lines`: split at `\n` (a final `\n` ends the last line rather
/// than starting an empty one); a line ended by `\r\n` loses the `\r`.
pub open spec fn lines(s: Seq<char>) -> Seq<Seq<char>> {
    let p = split(s, '\n');
    let n: int = if s.len() == 0 || s.last() == '\n' { p.len() - 1 } else { p.len() as int };
    Seq::new(n as nat, |k: int| if k < p.len() - 1 { strip_cr(p[k]) } else { p[k] })
}

pub open spec fn strip_cr(l: Seq<char>) -> Seq<char> {
    if l.len() > 0 && l.last() == '\r' {
        l.drop_last()
    } else {
        l
    }
}

/// The gid a `/etc/group` line gives, when its third field is a `u32`.
pub open spec fn line_gid(l: Seq<char>) -> Option<nat> {
    let f = split(l, ':');
    if f.len() >= 3 && parses_unsigned(f[2], u32::MAX as int) {
        Some(unsigned_value(f[2]))
    } else {
        None
    }
}

pub open spec fn is_fand_line(l: Seq<char>) -> bool {
    split(l, ':')[0] == "fand"@
}

/// Index of the first line at or after `i` whose group name is `fand`.
pub open spec fn first_fand_line(ls: Seq<Seq<char>>, i: int) -> int
    decreases ls.len() - i,
{
    if i < 0 || i >= ls.len() {
        ls.len() as int
    } else if is_fand_line(ls[i]) {
        i
    } else {
        first_fand_line(ls, i + 1)
    }
}

/// The gid of the first `fand` line of a group file, if it has one.
pub open spec fn fand_gid_spec(text: Seq<char>) -> Option<nat> {
    let ls = lines(text);
    let i = first_fand_line(ls, 0);
    if i < ls.len() {
        line_gid(ls[i])
    } else {
        None
    }
}

fn chars_equal_fand(v: &Vec<char>) -> (b: bool)
    ensures
        b == (v@ == "fand"@),
{
    proof {
        reveal_strlit("fand");
    }
    let r = v.len() == 4 && v[0] == 'f' && v[1] == 'a' && v[2] == 'n' && v[3] == 'd';
    proof {
        if r {
            assert(v@ =~= "fand"@);
        }
    }
    r
}

/// The `fand` group's gid from the text of `/etc/group`: the third field of
/// the first line whose group name is `fand`.
pub fn fand_group_gid(groups: &str) -> (r: Option<u32>)
    ensures
        match r {
            Some(g) => fand_gid_spec(groups@) == Some(g as nat),
            None => fand_gid_spec(groups@) is None,
        },
{
    let all = chars_of(groups);
    let pieces = split_chars(&all, '\n');
    let ghost s = groups@;
    let ghost p = split(s, '\n');
    proof {
        crate::text::lemma_split_nonempty(s, '\n');
    }
    let n: usize = if all.len() == 0 || all[all.len() - 1] == '\n' { pieces.len() - 1 } else { pieces.len() };
    let ghost ls = lines(s);
    assert(ls.len() == n);
    let mut i: usize = 0;
    while i < n
        invariant
            all@ == s,
            s == groups@,
            ls == lines(s),
            p == split(s, '\n'),
            pieces@.len() == p.len(),
            forall|k: int| 0 <= k < pieces@.len() ==> (#[trigger] pieces@[k])@ == p[k],
            n == ls.len(),
            n <= pieces@.len(),
            0 <= i <= n,
            first_fand_line(ls, 0) == first_fand_line(ls, i as int),
            forall|k: int|
                0 <= k < n ==> #[trigger] ls[k] == (if k < p.len() - 1 { strip_cr(p[k]) } else { p[k] }),
        decreases n - i,
    {
        let raw = &pieces[i];
        let ended = i + 1 < pieces.len();
        let line: Vec<char> = if ended && raw.len() > 0 && raw[raw.len() - 1] == '\r' {
            let mut l: Vec<char> = Vec::new();
            let mut k: usize = 0;
            while k + 1 < raw.len()
                invariant
                    0 <= k < raw.len(),
                    l@ == raw@.take(k as int),
                decreases raw.len() - k,
            {
                l.push(raw[k]);
                assert(l@ =~= raw@.take(k + 1));
                k = k + 1;
            }
            assert(l@ =~= raw@.drop_last());
            l
        } else {
            raw.clone()
        };
        assert(line@ == ls[i as int]);
        let fields = split_chars(&line, ':');
        proof {
            crate::text::lemma_split_nonempty(line@, ':');
        }
        if chars_equal_fand(&fields[0]) {
            assert(is_fand_line(ls[i as int]));
            assert(first_fand_line(ls, i as int) == i);
            assert(fand_gid_spec(s) == line_gid(ls[i as int]));
            assert(fields@.len() == split(ls[i as int], ':').len());
            if fields.len() >= 3 {
                assert(fields@[2]@ == split(ls[i as int], ':')[2]);
                let parsed = parse_unsigned_chars(&fields[2], u32::MAX as u64);
                return match parsed {
                    Some(g) => Some(g as u32),
                    None => None,
                };
            }
            return None;
        }
        assert(!is_fand_line(ls[i as int]));
        assert(first_fand_line(ls, i as int) == first_fand_line(ls, i + 1));
        i = i + 1;
    }
    None
}

} // verus!
