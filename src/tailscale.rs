//! Decisions on the output of the overlay-network CLI: its version, whether
//! it runs, and the machine's DNS name. Running the CLI is left to the caller.

use crate::json::{field, get_field, get_str, json_parse, parse_json, text_of};
use crate::text::{
    after_first, chars_contain, chars_of, contains, find_char, first_line, first_line_chars, is_ascii_digit, is_white,
    lemma_first_at, skip_white, skip_white_at, string_of, sub_vec, take_until, white,
};
use vstd::prelude::*;

verus! {

/// `s` without its trailing white space.
pub open spec fn trim_end(s: Seq<char>) -> Seq<char>
    decreases s.len(),
{
    if s.len() > 0 && is_white(s.last()) {
        trim_end(s.drop_last())
    } else {
        s
    }
}

/// `s` without leading and trailing white space.
pub open spec fn trim(s: Seq<char>) -> Seq<char> {
    trim_end(skip_white(s))
}

/// The value of an ASCII digit.
pub open spec fn digit_value(c: char) -> nat {
    ((c as u32) - 48) as nat
}

/// The number that a string of ASCII digits denotes.
pub open spec fn digits_value(d: Seq<char>) -> nat
    decreases d.len(),
{
    if d.len() == 0 {
        0
    } else {
        digits_value(d.drop_last()) * 10 + digit_value(d.last())
    }
}

pub open spec fn all_digits(d: Seq<char>) -> bool {
    forall|i: int| 0 <= i < d.len() ==> is_ascii_digit(#[trigger] d[i])
}

/// What `u32::from_str` makes of a text: an optional `+` and at least one
/// ASCII digit, denoting a number that fits.
pub open spec fn parse_u32(s: Seq<char>) -> Option<u32> {
    let d = if s.len() > 0 && s[0] == '+' { s.drop_first() } else { s };
    if d.len() > 0 && all_digits(d) && digits_value(d) <= u32::MAX {
        Some(digits_value(d) as u32)
    } else {
        None
    }
}

/// The `(major, minor)` version in the first line of the CLI's version output.
pub open spec fn version_spec(output: Seq<char>) -> Option<(u32, u32)> {
    if output.len() == 0 {
        None
    } else {
        let t = trim(first_line(output));
        match after_first(t, '.') {
            Some(rest) => match (parse_u32(take_until(t, '.')), parse_u32(take_until(rest, '.'))) {
                (Some(major), Some(minor)) => Some((major, minor)),
                _ => None,
            },
            None => None,
        }
    }
}

fn parse_u32_at(v: &Vec<char>, from: usize, to: usize) -> (r: Option<u32>)
    requires
        from <= to <= v@.len(),
    ensures
        r == parse_u32(v@.subrange(from as int, to as int)),
{
    let ghost s = v@.subrange(from as int, to as int);
    let mut i = from;
    if from < to && v[from] == '+' {
        i = from + 1;
        assert(s.drop_first() =~= v@.subrange(i as int, to as int));
    }
    let ghost d = v@.subrange(i as int, to as int);
    assert(d == (if s.len() > 0 && s[0] == '+' { s.drop_first() } else { s }));
    if i == to {
        return None;
    }
    let start = i;
    let mut acc: u32 = 0;
    while i < to
        invariant
            start <= i <= to,
            to <= v@.len(),
            start < to,
            d == v@.subrange(start as int, to as int),
            s == v@.subrange(from as int, to as int),
            d == (if s.len() > 0 && s[0] == '+' { s.drop_first() } else { s }),
            all_digits(v@.subrange(start as int, i as int)),
            acc as nat == digits_value(v@.subrange(start as int, i as int)),
        decreases to - i,
    {
        let c = v[i];
        let ghost pre = v@.subrange(start as int, i as int);
        let ghost next = v@.subrange(start as int, i + 1);
        assert(next.drop_last() =~= pre);
        if !('0' <= c && c <= '9') {
            assert(d[i - start] == c);
            assert(!is_ascii_digit(d[i - start]));
            assert(!all_digits(d));
            return None;
        }
        let digit: u32 = (c as u32) - ('0' as u32);
        if acc > (u32::MAX - digit) / 10 {
            proof {
                assert(digit as nat == digit_value(c));
                assert(next.last() == c);
                if all_digits(d) {
                    lemma_digits_value_grows(d, (i + 1 - start) as int);
                    assert(d.subrange(0, i + 1 - start) =~= next);
                    assert(digits_value(next) == acc * 10 + digit);
                    assert(!(digits_value(d) <= u32::MAX)) by (nonlinear_arith)
                        requires
                            acc as int > (u32::MAX - digit) / 10,
                            digits_value(next) == acc * 10 + digit,
                            digits_value(d) >= digits_value(next),
                            digit <= 9,
                    ;
                }
            }
            return None;
        }
        acc = acc * 10 + digit;
        i = i + 1;
    }
    assert(v@.subrange(start as int, to as int) =~= d);
    Some(acc)
}

/// A longer run of digits never denotes less.
pub proof fn lemma_digits_value_grows(d: Seq<char>, k: int)
    requires
        0 <= k <= d.len(),
        all_digits(d),
    ensures
        digits_value(d.subrange(0, k)) <= digits_value(d),
    decreases d.len() - k,
{
    if k < d.len() {
        lemma_digits_value_grows(d, k + 1);
        assert(d.subrange(0, k + 1).drop_last() =~= d.subrange(0, k));
        assert(is_ascii_digit(d[k]));
    } else {
        assert(d.subrange(0, k) =~= d);
    }
}

/// The characters of `v` without leading and trailing white space.
fn trim_chars(v: &Vec<char>) -> (r: Vec<char>)
    ensures
        r@ == trim(v@),
{
    let n = v.len();
    let start = skip_white_at(v, 0);
    assert(v@.subrange(0, n as int) =~= v@);
    let mut end = n;
    while end > start && white(v[end - 1])
        invariant
            start <= end <= n,
            n == v@.len(),
            trim(v@) == trim_end(v@.subrange(start as int, end as int)),
        decreases end,
    {
        assert(v@.subrange(start as int, end as int).drop_last() =~= v@.subrange(start as int, end - 1));
        end = end - 1;
    }
    sub_vec(v, start, end)
}

/// Reads `(major, minor)` from the first line of the CLI's version output.
pub fn parse_tailscale_version(output: &str) -> (r: Option<(u32, u32)>)
    ensures
        r == version_spec(output@),
{
    if output.unicode_len() == 0 {
        return None;
    }
    let line = first_line_chars(output);
    let t = trim_chars(&line);
    let n = t.len();
    let k = find_char(&t, 0, '.');
    proof {
        assert(t@.subrange(0, n as int) =~= t@);
        lemma_first_at(t@, '.', k as int);
    }
    if k == n {
        return None;
    }
    let m = find_char(&t, k + 1, '.');
    proof {
        let rest = t@.subrange(k + 1, n as int);
        lemma_first_at(rest, '.', m - (k + 1));
        assert(rest.subrange(0, m - (k + 1)) =~= t@.subrange(k + 1, m as int));
    }
    let major = parse_u32_at(&t, 0, k);
    let minor = parse_u32_at(&t, k + 1, m);
    match (major, minor) {
        (Some(a), Some(b)) => Some((a, b)),
        _ => None,
    }
}

/// Whether a CLI version can serve HTTPS: 1.38 or later.
pub open spec fn version_supported(major: u32, minor: u32) -> bool {
    !(major == 0 || (major == 1 && minor < 38))
}

/// Checks the version output of the CLI: an error with the version found
/// when it is older than 1.38; output without a version passes.
pub fn check_tailscale_version_output(output: &str) -> (r: Result<(), (u32, u32)>)
    ensures
        match version_spec(output@) {
            Some((major, minor)) => if version_supported(major, minor) {
                r is Ok
            } else {
                r == Err::<(), (u32, u32)>((major, minor))
            },
            None => r is Ok,
        },
{
    match parse_tailscale_version(output) {
        Some((major, minor)) => {
            if major == 0 || (major == 1 && minor < 38) {
                Err((major, minor))
            } else {
                Ok(())
            }
        },
        None => Ok(()),
    }
}

/// `s` without its trailing dots.
pub open spec fn trim_dots(s: Seq<char>) -> Seq<char>
    decreases s.len(),
{
    if s.len() > 0 && s.last() == '.' {
        trim_dots(s.drop_last())
    } else {
        s
    }
}

/// The machine's DNS name in the CLI's status JSON: `Self.DNSName` without
/// its trailing dots, `None` where it is missing or empty.
pub open spec fn hostname_spec(status: Seq<char>) -> Option<Seq<char>> {
    match json_parse(status) {
        Some(j) => match field(j, "Self"@) {
            Some(me) => match text_of(field(me, "DNSName"@)) {
                Some(name) => if trim_dots(name).len() == 0 {
                    None
                } else {
                    Some(trim_dots(name))
                },
                None => None,
            },
            None => None,
        },
        None => None,
    }
}

/// Reads the machine's DNS name from the CLI's status JSON.
pub fn hostname_from_status(status: &str) -> (r: Option<String>)
    ensures
        r.deep_view() == hostname_spec(status@),
{
    let v = match parse_json(status) {
        Some(v) => v,
        None => return None,
    };
    let me = match get_field(&v, "Self") {
        Some(me) => me,
        None => return None,
    };
    let name = match get_str(&me, "DNSName") {
        Some(n) => n,
        None => return None,
    };
    let chars = chars_of(name.as_str());
    let mut end = chars.len();
    assert(chars@.subrange(0, end as int) =~= chars@);
    while end > 0 && chars[end - 1] == '.'
        invariant
            end <= chars@.len(),
            trim_dots(name@) == trim_dots(chars@.subrange(0, end as int)),
            chars@ == name@,
        decreases end,
    {
        assert(chars@.subrange(0, end as int).drop_last() =~= chars@.subrange(0, end - 1));
        end = end - 1;
    }
    if end == 0 {
        None
    } else {
        Some(string_of(&chars, 0, end))
    }
}

/// The states the CLI can be in.
#[derive(Debug, Clone, Copy, PartialEq, Eq, Structural)]
pub enum TailscaleState {
    /// The binary was not found.
    NotInstalled,
    /// The binary was found, but its daemon does not answer.
    NotRunning,
    /// The binary works.
    Available,
}

/// What `str::to_lowercase` makes of a text.
pub uninterp spec fn lowercase(s: Seq<char>) -> Seq<char>;

/// Relies on str::to_lowercase: the result depends on the text alone.
#[verifier::external_body]
fn to_lower(s: &str) -> (r: String)
    ensures
        r@ == lowercase(s@),
{
    s.to_lowercase()
}

/// The state of the CLI from a run of `tailscale --version`: `spawned` tells
/// whether the binary could be started at all.
pub open spec fn state_spec(spawned: bool, success: bool, stdout: Seq<char>, stderr: Seq<char>) -> TailscaleState {
    let combined = lowercase(stdout + stderr);
    if !spawned {
        TailscaleState::NotInstalled
    } else if contains(combined, "failed to start"@) || contains(combined, "couldn't be completed"@) {
        TailscaleState::NotRunning
    } else if !success && trim(stdout).len() == 0 {
        TailscaleState::NotInstalled
    } else {
        TailscaleState::Available
    }
}

/// Classifies a run of `tailscale --version`.
pub fn tailscale_state(spawned: bool, success: bool, stdout: &str, stderr: &str) -> (r: TailscaleState)
    ensures
        r == state_spec(spawned, success, stdout@, stderr@),
{
    if !spawned {
        return TailscaleState::NotInstalled;
    }
    let mut both = String::from_str(stdout);
    both.append(stderr);
    let lower = to_lower(both.as_str());
    let lv = chars_of(lower.as_str());
    if chars_contain(&lv, "failed to start") || chars_contain(&lv, "couldn't be completed") {
        return TailscaleState::NotRunning;
    }
    let out = chars_of(stdout);
    if !success && trim_chars(&out).len() == 0 {
        return TailscaleState::NotInstalled;
    }
    TailscaleState::Available
}

/// Whether the CLI is installed and its daemon answers.
pub fn is_tailscale_available(state: TailscaleState) -> (r: bool)
    ensures
        r == (state == TailscaleState::Available),
{
    state == TailscaleState::Available
}

/// Whether the CLI is installed, running or not.
pub fn is_tailscale_installed(state: TailscaleState) -> (r: bool)
    ensures
        r == (state != TailscaleState::NotInstalled),
{
    state != TailscaleState::NotInstalled
}

} // verus!
