//! Taking over the listening socket that systemd passes to the service.
use crate::daemon::peer::{parse_u64, spec_parse_u64};
use crate::text::push_char;
use vstd::prelude::*;

verus! {

/// `i32::from_str`: an optional sign, then at least one decimal digit,
/// with a value that fits in 32 signed bits.
pub open spec fn spec_parse_i32(s: Seq<char>) -> Option<i32> {
    if s.len() > 0 && s[0] == '-' {
        let d = s.skip(1);
        if d.len() > 0 && d[0] == '+' {
            None
        } else {
            match spec_parse_u64(d) {
                Some(v) => if v <= 2147483648 {
                    Some((-(v as int)) as i32)
                } else {
                    None
                },
                None => None,
            }
        }
    } else {
        match spec_parse_u64(s) {
            Some(v) => if v <= 2147483647 {
                Some(v as i32)
            } else {
                None
            },
            None => None,
        }
    }
}

fn chars_from(s: &str, start: usize) -> (r: String)
    requires
        start <= s@.len(),
    ensures
        r@ == s@.skip(start as int),
{
    let n = s.unicode_len();
    let mut out = String::new();
    let mut i = start;
    while i < n
        invariant
            n == s@.len(),
            start <= i <= n,
            out@ == s@.subrange(start as int, i as int),
        decreases n - i,
    {
        push_char(&mut out, s.get_char(i));
        assert(s@.subrange(start as int, i + 1) =~= s@.subrange(start as int, i as int).push(s@[i as int]));
        i = i + 1;
    }
    assert(s@.subrange(start as int, n as int) =~= s@.skip(start as int));
    out
}

/// Parses a decimal `i32` as `i32::from_str` does.
pub fn parse_i32(s: &str) -> (r: Option<i32>)
    ensures
        r == spec_parse_i32(s@),
{
    let n = s.unicode_len();
    if n > 0 && s.get_char(0) == '-' {
        let rest = chars_from(s, 1);
        if rest.unicode_len() > 0 && rest.get_char(0) == '+' {
            return None;
        }
        match parse_u64(rest.as_str()) {
            Some(v) => if v <= 2147483648 {
                let neg: i64 = -(v as i64);
                Some(neg as i32)
            } else {
                None
            },
            None => None,
        }
    } else {
        match parse_u64(s) {
            Some(v) => if v <= 2147483647 {
                Some(v as i32)
            } else {
                None
            },
            None => None,
        }
    }
}

/// Whether systemd handed this process its listening socket: `LISTEN_FDS`
/// names at least one descriptor and `LISTEN_PID` (zero when unset or not
/// a number) is this process.
pub open spec fn spec_adopt_listen_fd(listen_fds: Option<Seq<char>>, listen_pid: Option<Seq<char>>, pid: i32) -> bool {
    let fds = match listen_fds {
        Some(v) => spec_parse_i32(v),
        None => None,
    };
    let owner = match listen_pid {
        Some(v) => match spec_parse_i32(v) {
            Some(p) => p,
            None => 0,
        },
        None => 0,
    };
    fds matches Some(k) && k > 0 && owner == pid
}

/// Whether to take over descriptor 3 as the listening socket, from the
/// values of `LISTEN_FDS` and `LISTEN_PID` and this process's id.
pub fn adopt_listen_fd(listen_fds: Option<&str>, listen_pid: Option<&str>, pid: i32) -> (r: bool)
    ensures
        r == spec_adopt_listen_fd(
            match listen_fds {
                Some(v) => Some(v@),
                None => None,
            },
            match listen_pid {
                Some(v) => Some(v@),
                None => None,
            },
            pid,
        ),
{
    let fds = match listen_fds {
        Some(v) => parse_i32(v),
        None => None,
    };
    match fds {
        Some(k) => if k <= 0 {
            return false;
        },
        None => {
            return false;
        },
    }
    let owner = match listen_pid {
        Some(v) => match parse_i32(v) {
            Some(p) => p,
            None => 0,
        },
        None => 0,
    };
    owner == pid
}

} // verus!
