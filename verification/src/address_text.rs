//! The textual forms of IP addresses: a dotted-quad IPv4 address, and an
//! IPv6 address written as colon-separated groups, where one `::` stands
//! for at least one zero group and the last two groups may be written as
//! an IPv4 address.
use crate::daemon::peer::{all_digits, digit_value, digits_value};
use crate::models::{free_of_separators, lemma_split_nonempty, spec_split, split_from};
use vstd::prelude::*;

verus! {

/// One octet of an IPv4 address: one to three decimal digits, without a
/// leading zero, of value at most 255.
pub open spec fn spec_octet_text(p: Seq<char>) -> bool {
    &&& 1 <= p.len() <= 3
    &&& all_digits(p)
    &&& (p.len() == 1 || p[0] != '0')
    &&& digits_value(p) <= 255
}

/// A dotted-quad IPv4 address: four octets separated by `.`.
pub open spec fn spec_ipv4_text(s: Seq<char>) -> bool {
    let q = spec_split(s, '.');
    q.len() == 4 && forall|i: int| 0 <= i < 4 ==> spec_octet_text(#[trigger] q[i])
}

/// A hexadecimal digit, in either case.
pub open spec fn is_hex_char(c: char) -> bool {
    ('0' <= c && c <= '9') || ('a' <= c && c <= 'f') || ('A' <= c && c <= 'F')
}

/// One group of an IPv6 address: one to four hexadecimal digits.
pub open spec fn spec_h16(p: Seq<char>) -> bool {
    1 <= p.len() <= 4 && forall|i: int| 0 <= i < p.len() ==> is_hex_char(#[trigger] p[i])
}

/// Every piece is a hexadecimal group.
pub open spec fn all_h16(g: Seq<Seq<char>>) -> bool {
    forall|i: int| 0 <= i < g.len() ==> spec_h16(#[trigger] g[i])
}

/// At least one piece; all hexadecimal groups, except that the last may be
/// an IPv4 address instead.
pub open spec fn spec_tail_groups(g: Seq<Seq<char>>) -> bool {
    g.len() > 0 && all_h16(g.drop_last()) && (spec_h16(g.last()) || spec_ipv4_text(g.last()))
}

/// How many 16-bit groups the pieces stand for: a last piece that is not a
/// hexadecimal group (an IPv4 address) stands for two.
pub open spec fn groups_width(g: Seq<Seq<char>>) -> int {
    if g.len() > 0 && !spec_h16(g.last()) {
        g.len() as int + 1
    } else {
        g.len() as int
    }
}

/// The `:`-separated pieces of an IPv6 address: eight groups written out;
/// or `::` alone; or groups after a leading `::`; or groups before a
/// trailing `::`; or groups on both sides of one `::`. The `::` stands for
/// at least one group, so at most seven are written beside it.
pub open spec fn spec_ipv6_pieces(p: Seq<Seq<char>>) -> bool {
    let n = p.len();
    ||| spec_tail_groups(p) && groups_width(p) == 8
    ||| n == 3 && p[0].len() == 0 && p[1].len() == 0 && p[2].len() == 0
    ||| n >= 3 && p[0].len() == 0 && p[1].len() == 0 && spec_tail_groups(p.skip(2)) && groups_width(
        p.skip(2),
    ) <= 7
    ||| n >= 3 && p[n - 2].len() == 0 && p[n - 1].len() == 0 && all_h16(p.take(n - 2)) && n - 2 <= 7
    ||| exists|k: int|
        0 < k < n - 1 && (#[trigger] p[k]).len() == 0 && all_h16(p.take(k)) && spec_tail_groups(p.skip(k + 1))
            && k + groups_width(p.skip(k + 1)) <= 7
}

/// A textual IPv6 address.
pub open spec fn spec_ipv6_text(s: Seq<char>) -> bool {
    spec_ipv6_pieces(spec_split(s, ':'))
}

/// The characters of each string.
pub open spec fn texts(v: Seq<String>) -> Seq<Seq<char>> {
    v.map_values(|x: String| x@)
}

fn is_octet_text(t: &str) -> (r: bool)
    ensures
        r == spec_octet_text(t@),
{
    let n = t.unicode_len();
    if n < 1 || n > 3 {
        return false;
    }
    let mut value: u32 = 0;
    let mut i: usize = 0;
    while i < n
        invariant
            n == t@.len(),
            1 <= n <= 3,
            i <= n,
            all_digits(t@.take(i as int)),
            value as nat == digits_value(t@.take(i as int)),
            i == 0 ==> value == 0,
            i <= 1 ==> value < 10,
            i <= 2 ==> value < 100,
            value < 1000,
        decreases n - i,
    {
        let c = t.get_char(i);
        if c < '0' || c > '9' {
            assert(!all_digits(t@)) by {
                assert(t@[i as int] == c);
            }
            return false;
        }
        let d = c as u32 - 48;
        proof {
            let pre = t@.take(i + 1);
            assert(pre.drop_last() =~= t@.take(i as int));
            assert(pre.last() == c);
            assert(digit_value(c) == d);
            assert(digits_value(pre) == digits_value(pre.drop_last()) * 10 + digit_value(pre.last()));
            assert forall|j: int| 0 <= j < pre.len() implies '0' <= #[trigger] pre[j] && pre[j] <= '9' by {
                if j < i {
                    assert(pre[j] == t@.take(i as int)[j]);
                }
            }
        }
        value = value * 10 + d;
        i = i + 1;
    }
    assert(t@.take(n as int) =~= t@);
    if n > 1 && t.get_char(0) == '0' {
        return false;
    }
    value <= 255
}

/// Whether `s` is a dotted-quad IPv4 address, as `Ipv4Addr` reads one.
pub fn is_ipv4_text(s: &str) -> (r: bool)
    ensures
        r == spec_ipv4_text(s@),
{
    assert(s@.skip(0) =~= s@);
    let q = split_from(s, 0, '.');
    let ghost qv = spec_split(s@, '.');
    if q.len() != 4 {
        return false;
    }
    let mut i: usize = 0;
    while i < 4
        invariant
            qv == spec_split(s@, '.'),
            q@.len() == 4,
            qv.len() == 4,
            forall|k: int| 0 <= k < q@.len() ==> #[trigger] q@[k]@ == qv[k],
            i <= 4,
            forall|j: int| 0 <= j < i ==> spec_octet_text(#[trigger] qv[j]),
        decreases 4 - i,
    {
        if !is_octet_text(q[i].as_str()) {
            assert(q@[i as int]@ == qv[i as int]);
            return false;
        }
        i = i + 1;
    }
    true
}

fn is_hex_digit_char(c: char) -> (r: bool)
    ensures
        r == is_hex_char(c),
{
    ('0' <= c && c <= '9') || ('a' <= c && c <= 'f') || ('A' <= c && c <= 'F')
}

fn is_h16(t: &str) -> (r: bool)
    ensures
        r == spec_h16(t@),
{
    let n = t.unicode_len();
    if n < 1 || n > 4 {
        return false;
    }
    let mut i: usize = 0;
    while i < n
        invariant
            n == t@.len(),
            i <= n,
            forall|j: int| 0 <= j < i ==> is_hex_char(#[trigger] t@[j]),
        decreases n - i,
    {
        if !is_hex_digit_char(t.get_char(i)) {
            return false;
        }
        i = i + 1;
    }
    true
}

/// Whether the pieces `lo..hi` of `p` are all hexadecimal groups.
fn all_h16_range(p: &Vec<String>, lo: usize, hi: usize) -> (r: bool)
    requires
        lo <= hi <= p@.len(),
    ensures
        r == all_h16(texts(p@).subrange(lo as int, hi as int)),
{
    let ghost g = texts(p@).subrange(lo as int, hi as int);
    let mut i: usize = lo;
    while i < hi
        invariant
            lo <= i <= hi <= p@.len(),
            g == texts(p@).subrange(lo as int, hi as int),
            forall|j: int| 0 <= j < i - lo ==> spec_h16(#[trigger] g[j]),
        decreases hi - i,
    {
        if !is_h16(p[i].as_str()) {
            assert(g[i - lo] == p@[i as int]@);
            return false;
        }
        assert(g[i - lo] == p@[i as int]@);
        i = i + 1;
    }
    true
}

/// Whether the pieces of `p` from `lo` on form tail groups, and how many
/// groups they stand for.
fn tail_groups(p: &Vec<String>, lo: usize) -> (r: (bool, u128))
    requires
        lo <= p@.len(),
    ensures
        r.0 == spec_tail_groups(texts(p@).skip(lo as int)),
        r.0 ==> r.1 == groups_width(texts(p@).skip(lo as int)),
{
    let n = p.len();
    let ghost g = texts(p@).skip(lo as int);
    if lo >= n {
        return (false, 0);
    }
    let head = all_h16_range(p, lo, n - 1);
    assert(texts(p@).subrange(lo as int, n - 1) =~= g.drop_last());
    if !head {
        return (false, 0);
    }
    assert(g.last() == p@[n - 1]@);
    let last = p[n - 1].as_str();
    if is_h16(last) {
        (true, (n - lo) as u128)
    } else if is_ipv4_text(last) {
        (true, (n - lo) as u128 + 1)
    } else {
        (false, 0)
    }
}

/// Whether `s` is a textual IPv6 address, as `Ipv6Addr` reads one.
pub fn is_ipv6_text(s: &str) -> (r: bool)
    ensures
        r == spec_ipv6_text(s@),
{
    assert(s@.skip(0) =~= s@);
    let p = split_from(s, 0, ':');
    let ghost pv = spec_split(s@, ':');
    assert(texts(p@) =~= pv);
    let n = p.len();
    let mut k: usize = 0;
    while k < n && p[k].unicode_len() > 0
        invariant
            n == p@.len(),
            texts(p@) == pv,
            k <= n,
            forall|j: int| 0 <= j < k ==> (#[trigger] pv[j]).len() > 0,
        decreases n - k,
    {
        k = k + 1;
    }
    if k == n {
        // No `::`: eight groups written out.
        let (ok, width) = tail_groups(&p, 0);
        assert(pv.skip(0) =~= pv);
        proof {
            if spec_ipv6_pieces(pv) && !(spec_tail_groups(pv) && groups_width(pv) == 8) {
                if pv.len() >= 3 && pv[pv.len() - 2].len() == 0 {
                    assert(pv[n - 2].len() > 0);
                }
                if exists|k: int| 0 < k < n - 1 && (#[trigger] pv[k]).len() == 0 {
                    let w = choose|k: int| 0 < k < n - 1 && (#[trigger] pv[k]).len() == 0;
                    assert(pv[w].len() > 0);
                }
            }
        }
        return ok && width == 8;
    }
    // `pv[k]` is the first empty piece.
    assert(pv[k as int].len() == 0);
    if k == 0 {
        if n < 3 || p[1].unicode_len() > 0 {
            proof {
                assert(!spec_tail_groups(pv)) by {
                    if pv.len() > 1 {
                        assert(pv.drop_last()[0] == pv[0]);
                        assert(!spec_h16(pv.drop_last()[0]));
                    } else {
                        assert(pv.last() == pv[0]);
                        assert(!spec_h16(pv[0]));
                        lemma_ipv4_text_nonempty(pv[0]);
                    }
                }
                if n >= 3 && pv[n - 2].len() == 0 && pv[n - 1].len() == 0 && all_h16(pv.take(n - 2)) {
                    assert(pv.take(n - 2)[0] == pv[0]);
                }
                if exists|j: int| 0 < j < n - 1 && (#[trigger] pv[j]).len() == 0 && all_h16(pv.take(j)) {
                    let w = choose|j: int| 0 < j < n - 1 && (#[trigger] pv[j]).len() == 0 && all_h16(pv.take(j));
                    assert(pv.take(w)[0] == pv[0]);
                }
            }
            return false;
        }
        if n == 3 && p[2].unicode_len() == 0 {
            return true;
        }
        let (ok, width) = tail_groups(&p, 2);
        proof {
            lemma_not_full_form(pv);
            if n >= 3 && pv[n - 2].len() == 0 && pv[n - 1].len() == 0 && all_h16(pv.take(n - 2)) {
                assert(pv.take(n - 2)[0] == pv[0]);
            }
            if exists|j: int| 0 < j < n - 1 && (#[trigger] pv[j]).len() == 0 && all_h16(pv.take(j)) {
                let w = choose|j: int| 0 < j < n - 1 && (#[trigger] pv[j]).len() == 0 && all_h16(pv.take(j));
                assert(pv.take(w)[0] == pv[0]);
            }
            assert(texts(p@)[1] == p@[1]@);
            assert(texts(p@)[2] == p@[2]@);
        }
        return ok && width <= 7;
    }
    // Groups come before the first empty piece.
    proof {
        lemma_not_full_form(pv);
        assert(pv[0].len() > 0);
    }
    if k + 1 >= n {
        proof {
            if exists|j: int| 0 < j < n - 1 && (#[trigger] pv[j]).len() == 0 && all_h16(pv.take(j)) {
                let w = choose|j: int| 0 < j < n - 1 && (#[trigger] pv[j]).len() == 0 && all_h16(pv.take(j));
                assert(pv[w].len() > 0);
            }
            if n >= 3 && pv[n - 2].len() == 0 {
                assert(pv[n - 2].len() > 0);
            }
        }
        return false;
    }
    let head = all_h16_range(&p, 0, k);
    assert(texts(p@).subrange(0, k as int) =~= pv.take(k as int));
    if p[k + 1].unicode_len() == 0 {
        // A trailing `::`.
        if k + 2 != n {
            proof {
                lemma_no_compressed_form(pv, k as int);
            }
            return false;
        }
        proof {
            if exists|j: int| 0 < j < n - 1 && (#[trigger] pv[j]).len() == 0 && all_h16(pv.take(j)) && spec_tail_groups(pv.skip(j + 1)) {
                let w = choose|j: int| 0 < j < n - 1 && (#[trigger] pv[j]).len() == 0 && all_h16(pv.take(j)) && spec_tail_groups(pv.skip(j + 1));
                if w < k {
                    assert(pv[w].len() > 0);
                }
                assert(pv.skip(w + 1).last() == pv[n - 1]);
                lemma_tail_nonempty_last(pv.skip(w + 1));
            }
        }
        return head && k <= 7;
    }
    // Groups on both sides of `::`.
    let (ok, width) = tail_groups(&p, k + 1);
    proof {
        assert(texts(p@)[k + 1] == p@[k + 1]@);
        if n >= 3 && pv[n - 2].len() == 0 && pv[n - 1].len() == 0 && all_h16(pv.take(n - 2)) {
            if k < n - 2 {
                assert(pv.take(n - 2)[k as int] == pv[k as int]);
            }
        }
        if exists|j: int| 0 < j < n - 1 && (#[trigger] pv[j]).len() == 0 && all_h16(pv.take(j)) && spec_tail_groups(pv.skip(j + 1)) {
            let w = choose|j: int| 0 < j < n - 1 && (#[trigger] pv[j]).len() == 0 && all_h16(pv.take(j)) && spec_tail_groups(pv.skip(j + 1));
            if w < k {
                assert(pv[w].len() > 0);
            }
            if w > k {
                assert(pv.take(w)[k as int] == pv[k as int]);
                assert(!spec_h16(pv.take(w)[k as int]));
            }
        }
        if ok && head && k + width <= 7 {
            assert(0 < k < n - 1 && pv[k as int].len() == 0 && all_h16(pv.take(k as int)) && spec_tail_groups(pv.skip(k + 1)));
        }
    }
    head && ok && k as u128 + width <= 7
}

proof fn lemma_ipv4_text_nonempty(s: Seq<char>)
    ensures
        spec_ipv4_text(s) ==> s.len() > 0,
{
    if spec_ipv4_text(s) && s.len() == 0 {
        assert(spec_split(s, '.').len() == 1);
    }
}

/// Tail groups end in a non-empty piece.
proof fn lemma_tail_nonempty_last(g: Seq<Seq<char>>)
    requires
        spec_tail_groups(g),
    ensures
        g.last().len() > 0,
{
    lemma_ipv4_text_nonempty(g.last());
}

/// Pieces with an empty one are not eight groups written out.
proof fn lemma_not_full_form(p: Seq<Seq<char>>)
    requires
        exists|j: int| 0 <= j < p.len() && (#[trigger] p[j]).len() == 0,
    ensures
        !spec_tail_groups(p),
{
    let j = choose|j: int| 0 <= j < p.len() && (#[trigger] p[j]).len() == 0;
    if spec_tail_groups(p) {
        if j < p.len() - 1 {
            assert(p.drop_last()[j] == p[j]);
        } else {
            lemma_tail_nonempty_last(p);
        }
    }
}

/// Two empty pieces at `k` and `k + 1` that are not the last two leave no
/// reading as an IPv6 address.
proof fn lemma_no_compressed_form(p: Seq<Seq<char>>, k: int)
    requires
        0 < k,
        k + 2 < p.len(),
        p[k].len() == 0,
        p[k + 1].len() == 0,
        forall|j: int| 0 <= j < k ==> (#[trigger] p[j]).len() > 0,
    ensures
        !spec_ipv6_pieces(p),
{
    let n = p.len();
    lemma_not_full_form(p);
    assert(p[0].len() > 0);
    if n >= 3 && p[n - 2].len() == 0 && p[n - 1].len() == 0 && all_h16(p.take(n - 2)) {
        assert(p.take(n - 2)[k] == p[k]);
    }
    if exists|j: int|
        0 < j < n - 1 && (#[trigger] p[j]).len() == 0 && all_h16(p.take(j)) && spec_tail_groups(p.skip(j + 1)) {
        let w = choose|j: int|
            0 < j < n - 1 && (#[trigger] p[j]).len() == 0 && all_h16(p.take(j)) && spec_tail_groups(p.skip(j + 1));
        if w < k {
            assert(p[w].len() > 0);
        } else if w == k {
            let t = p.skip(w + 1);
            assert(t[0] == p[k + 1]);
            if t.len() > 1 {
                assert(t.drop_last()[0] == t[0]);
            } else {
                lemma_tail_nonempty_last(t);
            }
        } else {
            assert(p.take(w)[k] == p[k]);
        }
    }
}

/// Each character of `s` other than `sep` lies in one of its pieces.
proof fn lemma_split_char(s: Seq<char>, sep: char, i: int)
    requires
        0 <= i < s.len(),
        s[i] != sep,
    ensures
        exists|j: int, t: int|
            #![trigger spec_split(s, sep)[j][t]]
            0 <= j < spec_split(s, sep).len() && 0 <= t < spec_split(s, sep)[j].len() && spec_split(s, sep)[j][t]
                == s[i],
    decreases s.len(),
{
    let p0 = spec_split(s.drop_last(), sep);
    lemma_split_nonempty(s.drop_last(), sep);
    let p = spec_split(s, sep);
    if i == s.len() - 1 {
        let j = p0.len() - 1;
        let t = p0.last().len() as int;
        assert(p[j] == p0.last().push(s.last()));
        assert(p[j][t] == s[i]);
    } else {
        assert(s.drop_last()[i] == s[i]);
        lemma_split_char(s.drop_last(), sep, i);
        let (j, t) = choose|j: int, t: int|
            #![trigger p0[j][t]]
            0 <= j < p0.len() && 0 <= t < p0[j].len() && p0[j][t] == s[i];
        if s.last() == sep || j < p0.len() - 1 {
            assert(p[j] == p0[j]);
        } else {
            assert(p[j] == p0[j].push(s.last()));
        }
        assert(p[j][t] == s[i]);
    }
}

/// A textual IPv4 address holds only digits and dots.
proof fn lemma_ipv4_chars(s: Seq<char>, i: int)
    requires
        spec_ipv4_text(s),
        0 <= i < s.len(),
    ensures
        s[i] == '.' || ('0' <= s[i] && s[i] <= '9'),
{
    if s[i] != '.' {
        let q = spec_split(s, '.');
        lemma_split_char(s, '.', i);
        let (j, t) = choose|j: int, t: int|
            #![trigger q[j][t]]
            0 <= j < q.len() && 0 <= t < q[j].len() && q[j][t] == s[i];
        assert(spec_octet_text(q[j]));
        assert('0' <= q[j][t] && q[j][t] <= '9');
    }
}

/// A textual IPv4 address holds neither `&` nor `=`.
pub proof fn lemma_ipv4_text_free(s: Seq<char>)
    requires
        spec_ipv4_text(s),
    ensures
        free_of_separators(s),
{
    assert forall|i: int| 0 <= i < s.len() implies s[i] != '&' && s[i] != '=' by {
        lemma_ipv4_chars(s, i);
    }
}

/// Every piece of tail groups is a hexadecimal group or an IPv4 address.
proof fn lemma_tail_piece(g: Seq<Seq<char>>, j: int)
    requires
        spec_tail_groups(g),
        0 <= j < g.len(),
    ensures
        spec_h16(g[j]) || spec_ipv4_text(g[j]),
{
    if j < g.len() - 1 {
        assert(g.drop_last()[j] == g[j]);
    }
}

/// Every piece of an IPv6 address is empty, a hexadecimal group or an
/// IPv4 address.
proof fn lemma_ipv6_piece(p: Seq<Seq<char>>, j: int)
    requires
        spec_ipv6_pieces(p),
        0 <= j < p.len(),
    ensures
        p[j].len() == 0 || spec_h16(p[j]) || spec_ipv4_text(p[j]),
{
    let n = p.len();
    if spec_tail_groups(p) && groups_width(p) == 8 {
        lemma_tail_piece(p, j);
    } else if n == 3 && p[0].len() == 0 && p[1].len() == 0 && p[2].len() == 0 {
    } else if n >= 3 && p[0].len() == 0 && p[1].len() == 0 && spec_tail_groups(p.skip(2)) {
        if j >= 2 {
            lemma_tail_piece(p.skip(2), j - 2);
            assert(p.skip(2)[j - 2] == p[j]);
        }
    } else if n >= 3 && p[n - 2].len() == 0 && p[n - 1].len() == 0 && all_h16(p.take(n - 2)) {
        if j < n - 2 {
            assert(p.take(n - 2)[j] == p[j]);
        }
    } else {
        let k = choose|k: int|
            0 < k < n - 1 && (#[trigger] p[k]).len() == 0 && all_h16(p.take(k)) && spec_tail_groups(p.skip(k + 1))
                && k + groups_width(p.skip(k + 1)) <= 7;
        if j < k {
            assert(p.take(k)[j] == p[j]);
        } else if j > k {
            lemma_tail_piece(p.skip(k + 1), j - k - 1);
            assert(p.skip(k + 1)[j - k - 1] == p[j]);
        }
    }
}

/// A textual IPv6 address holds neither `&` nor `=`.
pub proof fn lemma_ipv6_text_free(s: Seq<char>)
    requires
        spec_ipv6_text(s),
    ensures
        free_of_separators(s),
{
    let p = spec_split(s, ':');
    assert forall|i: int| 0 <= i < s.len() implies s[i] != '&' && s[i] != '=' by {
        if s[i] != ':' {
            lemma_split_char(s, ':', i);
            let (j, t) = choose|j: int, t: int|
                #![trigger p[j][t]]
                0 <= j < p.len() && 0 <= t < p[j].len() && p[j][t] == s[i];
            lemma_ipv6_piece(p, j);
            if spec_ipv4_text(p[j]) {
                lemma_ipv4_chars(p[j], t);
            } else {
                assert(is_hex_char(p[j][t]));
            }
        }
    }
}

} // verus!
