//! Identifying the process on the other end of the socket (its start time
//! from `/proc/<pid>/stat`) and deciding on an administration request from
//! PolicyKit's answer.
use crate::text::{decimal, push_decimal};
use vstd::prelude::*;

verus! {

/// Whether `c` is white space as Rust's `char::is_whitespace` defines it
/// (the Unicode `White_Space` property).
pub open spec fn is_white(c: char) -> bool {
    let u = c as u32;
    (0x09 <= u && u <= 0x0D) || u == 0x20 || u == 0x85 || u == 0xA0 || u == 0x1680 || (0x2000 <= u
        && u <= 0x200A) || u == 0x2028 || u == 0x2029 || u == 0x202F || u == 0x205F || u == 0x3000
}

fn is_white_char(c: char) -> (r: bool)
    ensures
        r == is_white(c),
{
    let u = c as u32;
    (0x09 <= u && u <= 0x0D) || u == 0x20 || u == 0x85 || u == 0xA0 || u == 0x1680 || (0x2000 <= u
        && u <= 0x200A) || u == 0x2028 || u == 0x2029 || u == 0x202F || u == 0x205F || u == 0x3000
}

/// The white-space separated fields of `s`, in order (as
/// `str::split_whitespace` yields them).
pub open spec fn spec_fields(s: Seq<char>) -> Seq<Seq<char>>
    decreases s.len(),
{
    if s.len() == 0 {
        Seq::empty()
    } else {
        let f = spec_fields(s.drop_last());
        let c = s.last();
        if is_white(c) {
            f
        } else if s.len() >= 2 && !is_white(s[s.len() - 2]) {
            f.update(f.len() - 1, f.last().push(c))
        } else {
            f.push(seq![c])
        }
    }
}

/// The value of a decimal digit character.
pub open spec fn digit_value(c: char) -> nat {
    ((c as u32) - 48) as nat
}

/// The value of a string of decimal digits.
pub open spec fn digits_value(s: Seq<char>) -> nat
    decreases s.len(),
{
    if s.len() == 0 {
        0
    } else {
        digits_value(s.drop_last()) * 10 + digit_value(s.last())
    }
}

/// Whether every character of `s` is a decimal digit.
pub open spec fn all_digits(s: Seq<char>) -> bool {
    forall|i: int| 0 <= i < s.len() ==> '0' <= #[trigger] s[i] && s[i] <= '9'
}

/// `u64::from_str`: an optional `+` then at least one decimal digit, with a
/// value that fits in 64 bits.
pub open spec fn spec_parse_u64(s: Seq<char>) -> Option<u64> {
    let d = if s.len() > 0 && s[0] == '+' {
        s.skip(1)
    } else {
        s
    };
    if d.len() > 0 && all_digits(d) && digits_value(d) <= u64::MAX {
        Some(digits_value(d) as u64)
    } else {
        None
    }
}

/// Whether `s` has the shape of an unsigned number: an optional `+`, then
/// at least one decimal digit.
pub open spec fn spec_digit_form(s: Seq<char>) -> bool {
    let d = if s.len() > 0 && s[0] == '+' {
        s.skip(1)
    } else {
        s
    };
    d.len() > 0 && all_digits(d)
}

/// Whether `s` has the shape of an unsigned number.
pub fn digit_form(s: &str) -> (r: bool)
    ensures
        r == spec_digit_form(s@),
{
    let n = s.unicode_len();
    let mut i: usize = 0;
    if n > 0 && s.get_char(0) == '+' {
        i = 1;
    }
    let ghost d = if s@.len() > 0 && s@[0] == '+' {
        s@.skip(1)
    } else {
        s@
    };
    assert(d =~= s@.skip(i as int));
    if i >= n {
        return false;
    }
    let start = i;
    while i < n
        invariant
            n == s@.len(),
            start <= i <= n,
            d == s@.skip(start as int),
            d == (if s@.len() > 0 && s@[0] == '+' {
                s@.skip(1)
            } else {
                s@
            }),
            forall|k: int| start <= k < i ==> '0' <= #[trigger] s@[k] && s@[k] <= '9',
        decreases n - i,
    {
        let c = s.get_char(i);
        if c < '0' || c > '9' {
            assert(0 <= i - start < d.len());
            assert(d[i - start] == s@[i as int]);
            assert(!('0' <= d[i - start] && d[i - start] <= '9'));
            assert(!all_digits(d));
            return false;
        }
        i = i + 1;
    }
    assert forall|k: int| 0 <= k < d.len() implies '0' <= #[trigger] d[k] && d[k] <= '9' by {
        assert(d[k] == s@[k + start]);
    }
    true
}

/// Parses a decimal `u64` as `u64::from_str` does.
pub fn parse_u64(s: &str) -> (r: Option<u64>)
    ensures
        r == spec_parse_u64(s@),
{
    let n = s.unicode_len();
    let mut i: usize = 0;
    if n > 0 && s.get_char(0) == '+' {
        i = 1;
    }
    let ghost d = if s@.len() > 0 && s@[0] == '+' {
        s@.skip(1)
    } else {
        s@
    };
    assert(d =~= s@.skip(i as int));
    if i >= n {
        return None;
    }
    let start = i;
    let mut value: u64 = 0;
    while i < n
        invariant
            n == s@.len(),
            start <= i <= n,
            d == s@.skip(start as int),
            d == (if s@.len() > 0 && s@[0] == '+' {
                s@.skip(1)
            } else {
                s@
            }),
            all_digits(s@.subrange(start as int, i as int)),
            value as nat == digits_value(s@.subrange(start as int, i as int)),
        decreases n - i,
    {
        let c = s.get_char(i);
        assert(s@.subrange(start as int, i + 1).drop_last() =~= s@.subrange(start as int, i as int));
        if c < '0' || c > '9' {
            assert(0 <= i - start < d.len());
            assert(d[i - start] == s@[i as int]);
            assert(!('0' <= d[i - start] && d[i - start] <= '9'));
            assert(!all_digits(d));
            return None;
        }
        let dv = (c as u32 - 48) as u64;
        if value > 1844674407370955161 || (value == 1844674407370955161 && dv > 5) {
            proof {
                let pre = s@.subrange(start as int, i + 1);
                assert(pre.last() == c);
                assert(digit_value(c) == dv);
                assert(digits_value(pre) == digits_value(pre.drop_last()) * 10 + digit_value(pre.last()));
                assert(digits_value(pre) == value * 10 + dv);
                assert(digits_value(pre) > u64::MAX);
                assert(d.take((i + 1 - start) as int) =~= pre);
                lemma_digits_value_monotone(d, (i + 1 - start) as nat);
                assert(digits_value(d) > u64::MAX);
            }
            return None;
        }
        value = value * 10 + dv;
        i = i + 1;
    }
    assert(s@.subrange(start as int, n as int) =~= d);
    Some(value)
}

/// A longer digit string never has a smaller value than its prefix.
proof fn lemma_digits_value_monotone(d: Seq<char>, k: nat)
    requires
        k <= d.len(),
    ensures
        digits_value(d.take(k as int)) <= digits_value(d),
    decreases d.len(),
{
    if k < d.len() {
        assert(d.drop_last().take(k as int) =~= d.take(k as int));
        lemma_digits_value_monotone(d.drop_last(), k);
    } else {
        assert(d.take(k as int) =~= d);
    }
}

/// Why a `/proc/<pid>/stat` text was rejected.
#[derive(Debug, Clone, PartialEq, Eq)]
pub enum StatError {
    /// No `)` closing the command name.
    NoClosingParenthesis,
    /// Fewer than 20 fields after the command name.
    TooFewFields(usize),
    /// The start time is not a `u64`: `true` when it is a well-formed
    /// number too large for 64 bits, `false` when it holds a non-digit.
    BadStartTime(bool),
}

/// The index of the last `)` in `s`, if any.
pub open spec fn spec_last_paren(s: Seq<char>) -> Option<int> {
    if exists|i: int| 0 <= i < s.len() && s[i] == ')' {
        Some(choose|i: int| 0 <= i < s.len() && s[i] == ')' && forall|j: int| i < j < s.len() ==> s[j] != ')')
    } else {
        None
    }
}

/// The process start time in a stat text: field 20 after the command name,
/// which ends at the last `)`.
pub open spec fn spec_start_time(stat: Seq<char>) -> Result<u64, StatError> {
    match spec_last_paren(stat) {
        None => Err(StatError::NoClosingParenthesis),
        Some(p) => {
            let fields = spec_fields(stat.skip(p + 1));
            if fields.len() < 20 {
                Err(StatError::TooFewFields(fields.len() as usize))
            } else {
                match spec_parse_u64(fields[19]) {
                    Some(t) => Ok(t),
                    None => Err(StatError::BadStartTime(spec_digit_form(fields[19]))),
                }
            }
        },
    }
}

/// The fields of `s` from character `from` on.
fn split_fields(s: &str, from: usize) -> (r: Vec<String>)
    requires
        from <= s@.len(),
    ensures
        r@.len() == spec_fields(s@.skip(from as int)).len(),
        forall|i: int| 0 <= i < r@.len() ==> #[trigger] r@[i]@ == spec_fields(s@.skip(from as int))[i],
{
    let n = s.unicode_len();
    let mut out: Vec<String> = Vec::new();
    let mut i: usize = from;
    let mut in_field = false;
    while i < n
        invariant
            n == s@.len(),
            from <= i <= n,
            out@.len() == spec_fields(s@.subrange(from as int, i as int)).len(),
            forall|k: int| 0 <= k < out@.len() ==> #[trigger] out@[k]@ == spec_fields(s@.subrange(from as int, i as int))[k],
            in_field <==> (i > from && !is_white(s@[i - 1])),
            in_field ==> out@.len() > 0,
        decreases n - i,
    {
        let c = s.get_char(i);
        let ghost t = s@.subrange(from as int, i + 1);
        assert(t.drop_last() =~= s@.subrange(from as int, i as int));
        assert(t.last() == c);
        if is_white_char(c) {
            in_field = false;
        } else if in_field {
            let last = out.len() - 1;
            let mut f = out[last].clone();
            crate::text::push_char(&mut f, c);
            out.set(last, f);
            assert(t[t.len() - 2] == s@[i - 1]);
            in_field = true;
        } else {
            let mut f = String::new();
            crate::text::push_char(&mut f, c);
            out.push(f);
            in_field = true;
        }
        proof {
            let ft = spec_fields(t);
            assert(out@.len() == ft.len());
            assert forall|k: int| 0 <= k < out@.len() implies #[trigger] out@[k]@ == ft[k] by {}
        }
        i = i + 1;
    }
    assert(s@.subrange(from as int, n as int) =~= s@.skip(from as int));
    out
}

/// Reads the process start time from the text of `/proc/<pid>/stat`: the
/// 20th field after the command name (which ends at the last `)`).
pub fn parse_process_start_time(stat: &str) -> (r: Result<u64, StatError>)
    ensures
        r == spec_start_time(stat@),
{
    let n = stat.unicode_len();
    let mut k: usize = n;
    while k > 0 && stat.get_char(k - 1) != ')'
        invariant
            k <= n,
            n == stat@.len(),
            forall|j: int| k <= j < n ==> stat@[j] != ')',
        decreases k,
    {
        k = k - 1;
    }
    if k == 0 {
        assert(spec_last_paren(stat@) is None);
        return Err(StatError::NoClosingParenthesis);
    }
    let p = k - 1;
    proof {
        assert(stat@[p as int] == ')');
        let q = spec_last_paren(stat@)->0;
        assert(q == p as int) by {
            if q < p {
                assert(stat@[p as int] == ')');
            }
            if q > p {
                assert(stat@[q] != ')');
            }
        }
    }
    let fields = split_fields(stat, p + 1);
    if fields.len() < 20 {
        return Err(StatError::TooFewFields(fields.len()));
    }
    match parse_u64(fields[19].as_str()) {
        Some(t) => Ok(t),
        None => Err(StatError::BadStartTime(digit_form(fields[19].as_str()))),
    }
}

/// The Unicode lowercase of a text.
pub uninterp spec fn unicode_lowercase(s: Seq<char>) -> Seq<char>;

/// `str::to_lowercase` (std).
#[verifier::external_body]
fn to_lowercase(s: &str) -> (r: String)
    ensures
        r@ == unicode_lowercase(s@),
{
    s.to_lowercase()
}

/// Whether `needle` occurs in `hay`.
pub open spec fn spec_contains(hay: Seq<char>, needle: Seq<char>) -> bool {
    exists|i: int| 0 <= i <= hay.len() - needle.len() && #[trigger] hay.subrange(i, i + needle.len()) == needle
}

pub fn contains_text(hay: &str, needle: &str) -> (r: bool)
    ensures
        r == spec_contains(hay@, needle@),
{
    let n = hay.unicode_len();
    let m = needle.unicode_len();
    if m > n {
        return false;
    }
    let mut i: usize = 0;
    while i <= n - m
        invariant
            n == hay@.len(),
            m == needle@.len(),
            m <= n,
            i <= n - m + 1,
            forall|j: int| 0 <= j < i ==> #[trigger] hay@.subrange(j, j + m) != needle@,
        decreases n - m + 1 - i,
    {
        let mut k: usize = 0;
        let mut eq = true;
        while k < m
            invariant
                n == hay@.len(),
                m == needle@.len(),
                i + m <= n,
                k <= m,
                eq <==> forall|t: int| 0 <= t < k ==> hay@[i + t] == needle@[t],
            decreases m - k,
        {
            if hay.get_char(i + k) != needle.get_char(k) {
                eq = false;
            }
            k = k + 1;
        }
        if eq {
            assert(hay@.subrange(i as int, i + m) =~= needle@);
            return true;
        }
        assert(hay@.subrange(i as int, i + m) != needle@) by {
            let t = choose|t: int| 0 <= t < m && hay@[i + t] != needle@[t];
            assert(hay@.subrange(i as int, i + m)[t] == hay@[i + t]);
        }
        i = i + 1;
    }
    false
}

/// Whether a PolicyKit failure means PolicyKit is not reachable at all
/// (rather than an authorization error).
pub open spec fn spec_polkit_unavailable(error: Seq<char>) -> bool {
    let e = unicode_lowercase(error);
    spec_contains(e, "connect"@) || spec_contains(e, "not found"@) || spec_contains(e, "no such"@)
        || spec_contains(e, "serviceunknown"@)
}

/// Whether a PolicyKit failure means PolicyKit is not reachable: its
/// lowercased message mentions connecting, something not found, "no such",
/// or an unknown service.
pub fn is_polkit_unavailable(error: &str) -> (r: bool)
    ensures
        r == spec_polkit_unavailable(error@),
{
    let e = to_lowercase(error);
    contains_text(e.as_str(), "connect") || contains_text(e.as_str(), "not found") || contains_text(
        e.as_str(),
        "no such",
    ) || contains_text(e.as_str(), "serviceunknown")
}

/// The decision on an administration request from PolicyKit's answer:
/// granted or denied as PolicyKit says; when PolicyKit is unreachable,
/// only root is allowed; any other PolicyKit failure refuses.
pub fn check_authorization(polkit: Result<bool, String>, uid: u32) -> (r: Result<(), String>)
    ensures
        polkit == Ok::<bool, String>(true) ==> r is Ok,
        polkit == Ok::<bool, String>(false) ==> (r matches Err(m) && m@ == "Authorization denied by PolKit"@),
        polkit matches Err(e) ==> (spec_polkit_unavailable(e@) ==> (r is Ok <==> uid == 0)),
        polkit matches Err(e) ==> (spec_polkit_unavailable(e@) && uid != 0 ==> (r matches Err(m)
            && m@ == "Unauthorized: not root and PolKit unavailable ("@ + e@ + ")"@)),
        polkit matches Err(e) ==> (!spec_polkit_unavailable(e@) ==> (r matches Err(m) && m@ == e@)),
{
    match polkit {
        Ok(true) => Ok(()),
        Ok(false) => Err("Authorization denied by PolKit".to_owned()),
        Err(e) => {
            if is_polkit_unavailable(e.as_str()) {
                if uid == 0 {
                    Ok(())
                } else {
                    let mut m = "Unauthorized: not root and PolKit unavailable (".to_owned();
                    m.append(e.as_str());
                    m.append(")");
                    Err(m)
                }
            } else {
                Err(e)
            }
        },
    }
}

/// The decimal text of a signed number.
pub open spec fn signed_decimal(i: int) -> Seq<char> {
    if i < 0 {
        "-"@ + decimal((-i) as nat)
    } else {
        decimal(i as nat)
    }
}

fn push_signed(s: &mut String, i: i32)
    ensures
        final(s)@ == old(s)@ + signed_decimal(i as int),
{
    proof {
        reveal_strlit("-");
    }
    if i < 0 {
        s.append("-");
        let magnitude: i64 = -(i as i64);
        push_decimal(s, magnitude as u64);
        assert(final(s)@ =~= old(s)@ + signed_decimal(i as int));
    } else {
        push_decimal(s, i as u64);
    }
}

/// The path of a process's stat file.
pub open spec fn spec_stat_path(pid: i32) -> Seq<char> {
    "/proc/"@ + signed_decimal(pid as int) + "/stat"@
}

/// The message of a stat text that did not give a start time.
pub open spec fn spec_stat_error_message(pid: i32, e: StatError) -> Seq<char> {
    match e {
        StatError::NoClosingParenthesis => "Malformed "@ + spec_stat_path(pid) + ": no closing parenthesis"@,
        StatError::TooFewFields(n) => "Malformed "@ + spec_stat_path(pid) + ": only "@ + decimal(n as nat)
            + " fields after comm"@,
        StatError::BadStartTime(too_large) => "Failed to parse start_time from "@ + spec_stat_path(pid) + ": "@
            + if too_large {
            "number too large to fit in target type"@
        } else {
            "invalid digit found in string"@
        },
    }
}

fn stat_path(pid: i32) -> (r: String)
    ensures
        r@ == spec_stat_path(pid),
{
    let mut s = "/proc/".to_owned();
    push_signed(&mut s, pid);
    s.append("/stat");
    s
}

/// The message of a stat text that did not give a start time, naming the
/// file.
pub fn stat_error_message(pid: i32, e: &StatError) -> (r: String)
    ensures
        r@ == spec_stat_error_message(pid, *e),
{
    match e {
        StatError::NoClosingParenthesis => {
            let mut m = "Malformed ".to_owned();
            m.append(stat_path(pid).as_str());
            m.append(": no closing parenthesis");
            m
        },
        StatError::TooFewFields(n) => {
            let mut m = "Malformed ".to_owned();
            m.append(stat_path(pid).as_str());
            m.append(": only ");
            push_decimal(&mut m, *n as u64);
            m.append(" fields after comm");
            m
        },
        StatError::BadStartTime(too_large) => {
            let mut m = "Failed to parse start_time from ".to_owned();
            m.append(stat_path(pid).as_str());
            m.append(": ");
            if *too_large {
                m.append("number too large to fit in target type");
            } else {
                m.append("invalid digit found in string");
            }
            m
        },
    }
}

/// A connected peer: its process, its user, and when the process started
/// (which tells a process apart from a later one with the same number).
#[derive(Debug, Clone, PartialEq, Eq)]
pub struct PeerIdentity {
    pub pid: i32,
    pub uid: u32,
    pub username: String,
    pub start_time: u64,
}

/// Who a peer is, from the user lookup for its uid and the text of its
/// stat file: the user's name and the process start time, or the message
/// of the first thing that failed.
pub open spec fn spec_resolve_peer(
    pid: i32,
    uid: u32,
    user: Result<Option<Seq<char>>, Seq<char>>,
    stat: Result<Seq<char>, Seq<char>>,
) -> Result<(Seq<char>, u64), Seq<char>> {
    match user {
        Err(e) => Err("Failed to resolve UID "@ + decimal(uid as nat) + ": "@ + e),
        Ok(None) => Err("No user found for UID "@ + decimal(uid as nat)),
        Ok(Some(name)) => match stat {
            Err(e) => Err("Failed to read "@ + spec_stat_path(pid) + ": "@ + e),
            Ok(text) => match spec_start_time(text) {
                Ok(t) => Ok((name, t)),
                Err(se) => Err(spec_stat_error_message(pid, se)),
            },
        },
    }
}

/// Resolves a peer from what the system said of it: the lookup of its uid
/// (a failure, no such user, or the user's name) and the reading of
/// `/proc/<pid>/stat` (a failure or its text).
pub fn resolve_peer(
    pid: i32,
    uid: u32,
    user: Result<Option<String>, String>,
    stat: Result<String, String>,
) -> (r: Result<PeerIdentity, String>)
    ensures
        match spec_resolve_peer(
            pid,
            uid,
            match user {
                Ok(Some(n)) => Ok(Some(n@)),
                Ok(None) => Ok(None),
                Err(e) => Err(e@),
            },
            match stat {
                Ok(t) => Ok(t@),
                Err(e) => Err(e@),
            },
        ) {
            Ok((name, t)) => r matches Ok(p) && p.pid == pid && p.uid == uid && p.username@ == name
                && p.start_time == t,
            Err(m) => r matches Err(e) && e@ == m,
        },
{
    let username = match user {
        Err(e) => {
            let mut m = "Failed to resolve UID ".to_owned();
            push_decimal(&mut m, uid as u64);
            m.append(": ");
            m.append(e.as_str());
            return Err(m);
        },
        Ok(None) => {
            let mut m = "No user found for UID ".to_owned();
            push_decimal(&mut m, uid as u64);
            return Err(m);
        },
        Ok(Some(name)) => name,
    };
    let text = match stat {
        Err(e) => {
            let mut m = "Failed to read ".to_owned();
            m.append(stat_path(pid).as_str());
            m.append(": ");
            m.append(e.as_str());
            return Err(m);
        },
        Ok(t) => t,
    };
    match parse_process_start_time(text.as_str()) {
        Ok(start_time) => Ok(PeerIdentity { pid, uid, username, start_time }),
        Err(se) => Err(stat_error_message(pid, &se)),
    }
}

} // verus!
