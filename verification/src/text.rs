//! Small verified helpers on strings and byte strings.
use vstd::prelude::*;

verus! {

/// `String::push` (std): appends one character.
#[verifier::external_body]
pub(crate) fn push_char(s: &mut String, c: char)
    ensures
        final(s)@ == old(s)@.push(c),
{
    s.push(c);
}

/// The decimal digit character of `d` (`d < 10`).
pub open spec fn digit_char(d: nat) -> char {
    if d == 0 {
        '0'
    } else if d == 1 {
        '1'
    } else if d == 2 {
        '2'
    } else if d == 3 {
        '3'
    } else if d == 4 {
        '4'
    } else if d == 5 {
        '5'
    } else if d == 6 {
        '6'
    } else if d == 7 {
        '7'
    } else if d == 8 {
        '8'
    } else {
        '9'
    }
}

/// The digit character of `d % 10`.
pub fn digit_of(d: u64) -> (c: char)
    ensures
        c == digit_char((d % 10) as nat),
{
    let m = d % 10;
    if m == 0 {
        '0'
    } else if m == 1 {
        '1'
    } else if m == 2 {
        '2'
    } else if m == 3 {
        '3'
    } else if m == 4 {
        '4'
    } else if m == 5 {
        '5'
    } else if m == 6 {
        '6'
    } else if m == 7 {
        '7'
    } else if m == 8 {
        '8'
    } else {
        '9'
    }
}

/// The decimal digits of `n`, most significant first, without leading
/// zeros ("0" for zero).
pub open spec fn decimal(n: nat) -> Seq<char>
    decreases n,
{
    if n < 10 {
        seq![digit_char(n)]
    } else {
        decimal(n / 10).push(digit_char(n % 10))
    }
}

/// Appends the decimal digits of `n`.
pub fn push_decimal(s: &mut String, n: u64)
    ensures
        final(s)@ == old(s)@ + decimal(n as nat),
    decreases n,
{
    if n < 10 {
        push_char(s, digit_of(n));
        assert(old(s)@.push(digit_char(n as nat)) =~= old(s)@ + decimal(n as nat));
    } else {
        push_decimal(s, n / 10);
        push_char(s, digit_of(n));
        assert(old(s)@ + decimal((n / 10) as nat) + seq![digit_char((n % 10) as nat)] =~= old(s)@
            + decimal(n as nat));
    }
}

/// Whether two strings hold the same characters.
pub fn str_eq(a: &str, b: &str) -> (r: bool)
    ensures
        r == (a@ == b@),
{
    let n = a.unicode_len();
    let m = b.unicode_len();
    if n != m {
        return false;
    }
    let mut i: usize = 0;
    while i < n
        invariant
            n == a@.len(),
            m == b@.len(),
            n == m,
            i <= n,
            forall|j: int| 0 <= j < i ==> a@[j] == b@[j],
        decreases n - i,
    {
        if a.get_char(i) != b.get_char(i) {
            return false;
        }
        i = i + 1;
    }
    assert(a@ =~= b@);
    true
}

/// The big-endian value of 8 bytes.
pub open spec fn u64_from_be(b: Seq<u8>) -> u64 {
    (b[0] as u64) << 56u64 | (b[1] as u64) << 48u64 | (b[2] as u64) << 40u64 | (b[3] as u64)
        << 32u64 | (b[4] as u64) << 24u64 | (b[5] as u64) << 16u64 | (b[6] as u64) << 8u64 | (
    b[7] as u64)
}

/// Eight bytes read big-endian: the first byte is the most significant.
pub proof fn lemma_u64_from_be_value(b: Seq<u8>)
    requires
        b.len() == 8,
    ensures
        u64_from_be(b) as int == b[0] * 0x100_0000_0000_0000 + b[1] * 0x1_0000_0000_0000 + b[2]
            * 0x100_0000_0000 + b[3] * 0x1_0000_0000 + b[4] * 0x100_0000 + b[5] * 0x1_0000 + b[6] * 0x100
            + b[7],
{
    let (b0, b1, b2, b3, b4, b5, b6, b7) = (b[0], b[1], b[2], b[3], b[4], b[5], b[6], b[7]);
    assert((b0 as u64) << 56u64 | (b1 as u64) << 48u64 | (b2 as u64) << 40u64 | (b3 as u64) << 32u64 | (
    b4 as u64) << 24u64 | (b5 as u64) << 16u64 | (b6 as u64) << 8u64 | (b7 as u64) == b0 as u64
        * 0x100_0000_0000_0000u64 + b1 as u64 * 0x1_0000_0000_0000u64 + b2 as u64 * 0x100_0000_0000u64
        + b3 as u64 * 0x1_0000_0000u64 + b4 as u64 * 0x100_0000u64 + b5 as u64 * 0x1_0000u64 + b6 as u64
        * 0x100u64 + b7 as u64) by (bit_vector);
}

/// The big-endian bytes of a `u64`.
pub open spec fn u64_be(x: u64) -> Seq<u8> {
    seq![
        (x >> 56u64) as u8,
        (x >> 48u64) as u8,
        (x >> 40u64) as u8,
        (x >> 32u64) as u8,
        (x >> 24u64) as u8,
        (x >> 16u64) as u8,
        (x >> 8u64) as u8,
        x as u8,
    ]
}

/// `u64::from_be_bytes`.
pub fn u64_from_be_bytes(b: &[u8; 8]) -> (r: u64)
    ensures
        r == u64_from_be(b@),
{
    (b[0] as u64) << 56u64 | (b[1] as u64) << 48u64 | (b[2] as u64) << 40u64 | (b[3] as u64)
        << 32u64 | (b[4] as u64) << 24u64 | (b[5] as u64) << 16u64 | (b[6] as u64) << 8u64 | (
    b[7] as u64)
}

/// `u64::to_be_bytes`.
pub fn u64_to_be_bytes(x: u64) -> (r: [u8; 8])
    ensures
        r@ == u64_be(x),
{
    let r = [
        (x >> 56u64) as u8,
        (x >> 48u64) as u8,
        (x >> 40u64) as u8,
        (x >> 32u64) as u8,
        (x >> 24u64) as u8,
        (x >> 16u64) as u8,
        (x >> 8u64) as u8,
        x as u8,
    ];
    assert(r@ =~= u64_be(x));
    r
}

/// Whether two byte strings are equal.
pub fn bytes_eq(a: &[u8], b: &[u8]) -> (r: bool)
    ensures
        r == (a@ == b@),
{
    if a.len() != b.len() {
        return false;
    }
    let mut i: usize = 0;
    while i < a.len()
        invariant
            a@.len() == b@.len(),
            i <= a@.len(),
            forall|j: int| 0 <= j < i ==> a@[j] == b@[j],
        decreases a@.len() - i,
    {
        if a[i] != b[i] {
            return false;
        }
        i = i + 1;
    }
    assert(a@ =~= b@);
    true
}

/// The first 16 bytes of `s`.
pub fn take16(s: &[u8]) -> (r: [u8; 16])
    requires
        s@.len() >= 16,
    ensures
        r@ == s@.take(16),
{
    let mut out = [0u8; 16];
    let mut i: usize = 0;
    while i < 16
        invariant
            i <= 16,
            s@.len() >= 16,
            forall|j: int| 0 <= j < i ==> out@[j] == s@[j],
        decreases 16 - i,
    {
        out[i] = s[i];
        i = i + 1;
    }
    assert(out@ =~= s@.take(16));
    out
}

/// The first 10 bytes of `s`.
pub fn take10(s: &[u8]) -> (r: [u8; 10])
    requires
        s@.len() >= 10,
    ensures
        r@ == s@.take(10),
{
    let mut out = [0u8; 10];
    let mut i: usize = 0;
    while i < 10
        invariant
            i <= 10,
            s@.len() >= 10,
            forall|j: int| 0 <= j < i ==> out@[j] == s@[j],
        decreases 10 - i,
    {
        out[i] = s[i];
        i = i + 1;
    }
    assert(out@ =~= s@.take(10));
    out
}

/// The first 32 bytes of `s`.
pub fn take32(s: &[u8]) -> (r: [u8; 32])
    requires
        s@.len() >= 32,
    ensures
        r@ == s@.take(32),
{
    let mut out = [0u8; 32];
    let mut i: usize = 0;
    while i < 32
        invariant
            i <= 32,
            s@.len() >= 32,
            forall|j: int| 0 <= j < i ==> out@[j] == s@[j],
        decreases 32 - i,
    {
        out[i] = s[i];
        i = i + 1;
    }
    assert(out@ =~= s@.take(32));
    out
}

/// The first 64 bytes of `s`.
pub fn take64(s: &[u8]) -> (r: [u8; 64])
    requires
        s@.len() >= 64,
    ensures
        r@ == s@.take(64),
{
    let mut out = [0u8; 64];
    let mut i: usize = 0;
    while i < 64
        invariant
            i <= 64,
            s@.len() >= 64,
            forall|j: int| 0 <= j < i ==> out@[j] == s@[j],
        decreases 64 - i,
    {
        out[i] = s[i];
        i = i + 1;
    }
    assert(out@ =~= s@.take(64));
    out
}

/// The lowercase hexadecimal digit of `d` (`d < 16`).
pub open spec fn hex_digit(d: nat) -> char {
    if d < 10 {
        digit_char(d)
    } else if d == 10 {
        'a'
    } else if d == 11 {
        'b'
    } else if d == 12 {
        'c'
    } else if d == 13 {
        'd'
    } else if d == 14 {
        'e'
    } else {
        'f'
    }
}

/// Lowercase hexadecimal text of a byte string, two digits per byte.
pub open spec fn hex_text(b: Seq<u8>) -> Seq<char>
    decreases b.len(),
{
    if b.len() == 0 {
        Seq::empty()
    } else {
        hex_text(b.drop_last()) + seq![hex_digit((b.last() / 16) as nat), hex_digit((b.last() % 16) as nat)]
    }
}

fn hex_digit_of(d: u8) -> (c: char)
    requires
        d < 16,
    ensures
        c == hex_digit(d as nat),
{
    if d < 10 {
        digit_of(d as u64)
    } else if d == 10 {
        'a'
    } else if d == 11 {
        'b'
    } else if d == 12 {
        'c'
    } else if d == 13 {
        'd'
    } else if d == 14 {
        'e'
    } else {
        'f'
    }
}

/// Lowercase hexadecimal text of a byte string (as `hex::encode` writes it).
pub fn hex_encode(b: &[u8]) -> (r: String)
    ensures
        r@ == hex_text(b@),
{
    let mut s = String::new();
    let mut i: usize = 0;
    while i < b.len()
        invariant
            i <= b@.len(),
            s@ == hex_text(b@.take(i as int)),
        decreases b@.len() - i,
    {
        let x = b[i];
        push_char(&mut s, hex_digit_of(x / 16));
        push_char(&mut s, hex_digit_of(x % 16));
        assert(b@.take(i + 1).drop_last() =~= b@.take(i as int));
        i = i + 1;
    }
    assert(b@.take(b@.len() as int) =~= b@);
    s
}

/// The big-endian value of 4 bytes.
pub open spec fn u32_from_be(b: Seq<u8>) -> u32 {
    (b[0] as u32) << 24u32 | (b[1] as u32) << 16u32 | (b[2] as u32) << 8u32 | (b[3] as u32)
}

/// The big-endian bytes of a `u32`.
pub open spec fn u32_be(x: u32) -> Seq<u8> {
    seq![(x >> 24u32) as u8, (x >> 16u32) as u8, (x >> 8u32) as u8, x as u8]
}

/// `u32::from_be_bytes`.
pub fn u32_from_be_bytes(b: &[u8; 4]) -> (r: u32)
    ensures
        r == u32_from_be(b@),
{
    (b[0] as u32) << 24u32 | (b[1] as u32) << 16u32 | (b[2] as u32) << 8u32 | (b[3] as u32)
}

/// `u32::to_be_bytes`.
pub fn u32_to_be_bytes(x: u32) -> (r: [u8; 4])
    ensures
        r@ == u32_be(x),
{
    let r = [(x >> 24u32) as u8, (x >> 16u32) as u8, (x >> 8u32) as u8, x as u8];
    assert(r@ =~= u32_be(x));
    r
}

/// Reading back the big-endian bytes of a `u32` gives it back.
pub proof fn lemma_u32_be_roundtrip(x: u32)
    ensures
        u32_from_be(u32_be(x)) == x,
{
    let b0 = (x >> 24u32) as u8;
    let b1 = (x >> 16u32) as u8;
    let b2 = (x >> 8u32) as u8;
    let b3 = x as u8;
    assert(u32_be(x)[0] == b0 && u32_be(x)[1] == b1 && u32_be(x)[2] == b2 && u32_be(x)[3] == b3);
    assert((b0 as u32) << 24u32 | (b1 as u32) << 16u32 | (b2 as u32) << 8u32 | (b3 as u32) == x)
        by (bit_vector)
        requires
            b0 == (x >> 24u32) as u8,
            b1 == (x >> 16u32) as u8,
            b2 == (x >> 8u32) as u8,
            b3 == x as u8,
    ;
}

/// `hex_text` read from the front: the first byte's two digits, then the
/// rest.
proof fn lemma_hex_text_front(b: Seq<u8>)
    requires
        b.len() > 0,
    ensures
        hex_text(b) == seq![hex_digit((b[0] / 16) as nat), hex_digit((b[0] % 16) as nat)] + hex_text(b.skip(1)),
    decreases b.len(),
{
    if b.len() == 1 {
        assert(b.drop_last() =~= Seq::<u8>::empty());
        assert(b.skip(1) =~= Seq::<u8>::empty());
        assert(b.last() == b[0]);
        assert(hex_text(b) =~= seq![hex_digit((b[0] / 16) as nat), hex_digit((b[0] % 16) as nat)]
            + hex_text(b.skip(1)));
    } else {
        let d = b.drop_last();
        lemma_hex_text_front(d);
        assert(d.skip(1) =~= b.skip(1).drop_last());
        assert(b.skip(1).last() == b.last());
        assert(d[0] == b[0]);
        assert(hex_text(b) =~= seq![hex_digit((b[0] / 16) as nat), hex_digit((b[0] % 16) as nat)]
            + hex_text(b.skip(1)));
    }
}

/// The value of a hexadecimal digit (either case).
pub open spec fn hex_value(c: char) -> Option<u8> {
    if '0' <= c && c <= '9' {
        Some(((c as u32) - 48) as u8)
    } else if 'a' <= c && c <= 'f' {
        Some(((c as u32) - 87) as u8)
    } else if 'A' <= c && c <= 'F' {
        Some(((c as u32) - 55) as u8)
    } else {
        None
    }
}

/// The bytes a hexadecimal text denotes, two digits per byte; `None` for
/// an odd number of characters or a character that is not a hex digit.
pub open spec fn hex_bytes(s: Seq<char>) -> Option<Seq<u8>>
    decreases s.len(),
{
    if s.len() == 0 {
        Some(Seq::empty())
    } else if s.len() == 1 {
        None
    } else {
        match (hex_value(s[0]), hex_value(s[1]), hex_bytes(s.skip(2))) {
            (Some(h), Some(l), Some(rest)) => Some(seq![(h * 16 + l) as u8] + rest),
            _ => None,
        }
    }
}

proof fn lemma_hex_digit_value(d: nat)
    requires
        d < 16,
    ensures
        hex_value(hex_digit(d)) == Some(d as u8),
{
}

/// Decoding the hexadecimal text of a byte string gives the bytes back.
pub proof fn lemma_hex_roundtrip(b: Seq<u8>)
    ensures
        hex_bytes(hex_text(b)) == Some(b),
    decreases b.len(),
{
    if b.len() == 0 {
        assert(hex_text(b) =~= Seq::<char>::empty());
    } else {
        let s = hex_text(b);
        let h = (b[0] / 16) as nat;
        let l = (b[0] % 16) as nat;
        lemma_hex_text_front(b);
        lemma_hex_digit_value(h);
        lemma_hex_digit_value(l);
        lemma_hex_roundtrip(b.skip(1));
        assert(s.skip(2) =~= hex_text(b.skip(1)));
        assert(s[0] == hex_digit(h) && s[1] == hex_digit(l));
        assert((h * 16 + l) as u8 == b[0]);
        assert(seq![b[0]] + b.skip(1) =~= b);
    }
}

fn hex_value_of(c: char) -> (r: Option<u8>)
    ensures
        r == hex_value(c),
{
    if '0' <= c && c <= '9' {
        Some(((c as u32) - 48) as u8)
    } else if 'a' <= c && c <= 'f' {
        Some(((c as u32) - 87) as u8)
    } else if 'A' <= c && c <= 'F' {
        Some(((c as u32) - 55) as u8)
    } else {
        None
    }
}

/// Decodes hexadecimal text (as `hex::decode` does).
pub fn hex_decode(s: &str) -> (r: Option<Vec<u8>>)
    ensures
        r is Some <==> hex_bytes(s@) is Some,
        r matches Some(b) ==> hex_bytes(s@) == Some(b@),
{
    let n = s.unicode_len();
    let mut out: Vec<u8> = Vec::new();
    let mut i: usize = 0;
    assert(s@.skip(0) =~= s@);
    proof {
        match hex_bytes(s@) {
            Some(rest) => {
                assert(out@ + rest =~= rest);
            },
            None => {},
        }
    }
    while i < n
        invariant
            n == s@.len(),
            i <= n,
            hex_bytes(s@) == match hex_bytes(s@.skip(i as int)) {
                Some(rest) => Some(out@ + rest),
                None => None,
            },
        decreases n - i,
    {
        let ghost t = s@.skip(i as int);
        if i + 1 >= n {
            assert(t.len() == 1);
            return None;
        }
        let h = hex_value_of(s.get_char(i));
        let l = hex_value_of(s.get_char(i + 1));
        assert(t[0] == s@[i as int] && t[1] == s@[i + 1]);
        assert(t.skip(2) =~= s@.skip(i + 2));
        match (h, l) {
            (Some(h), Some(l)) => {
                let b: u8 = h * 16 + l;
                proof {
                    match hex_bytes(s@.skip(i + 2)) {
                        Some(rest) => {
                            assert(out@ + (seq![b] + rest) =~= out@.push(b) + rest);
                        },
                        None => {},
                    }
                }
                out.push(b);
                i = i + 2;
            },
            _ => {
                return None;
            },
        }
    }
    assert(s@.skip(i as int) =~= Seq::<char>::empty());
    assert(out@ + Seq::<u8>::empty() =~= out@);
    Some(out)
}

/// Whether `a` comes before `b` in the order strings are compared in:
/// character by character (by code point, which for UTF-8 is the order of
/// the bytes), a proper prefix first.
pub open spec fn spec_text_lt(a: Seq<char>, b: Seq<char>) -> bool
    decreases a.len(),
{
    if a.len() == 0 {
        b.len() > 0
    } else if b.len() == 0 {
        false
    } else if a[0] == b[0] {
        spec_text_lt(a.drop_first(), b.drop_first())
    } else {
        (a[0] as int) < (b[0] as int)
    }
}

/// The text order is a strict total order: of two different texts exactly
/// one comes first, no text comes before itself, and it is transitive.
pub proof fn lemma_text_lt_total(a: Seq<char>, b: Seq<char>)
    ensures
        !spec_text_lt(a, a),
        a != b ==> (spec_text_lt(a, b) != spec_text_lt(b, a)),
        a == b ==> !spec_text_lt(a, b),
    decreases a.len(),
{
    if a.len() > 0 {
        lemma_text_lt_total(a.drop_first(), a.drop_first());
        if b.len() > 0 {
            lemma_text_lt_total(a.drop_first(), b.drop_first());
            if a[0] == b[0] && a != b {
                assert(a.drop_first() != b.drop_first()) by {
                    if a.drop_first() == b.drop_first() {
                        assert forall|i: int| 0 <= i < a.len() implies a[i] == b[i] by {
                            if i > 0 {
                                assert(a[i] == a.drop_first()[i - 1]);
                                assert(b[i] == b.drop_first()[i - 1]);
                            }
                        }
                        assert(a =~= b);
                    }
                }
            }
        }
    } else if b.len() == 0 {
        assert(a =~= b);
    }
}

/// The text order is transitive.
pub proof fn lemma_text_lt_transitive(a: Seq<char>, b: Seq<char>, c: Seq<char>)
    requires
        spec_text_lt(a, b),
        spec_text_lt(b, c),
    ensures
        spec_text_lt(a, c),
    decreases a.len(),
{
    if a.len() > 0 && b.len() > 0 && c.len() > 0 {
        if a[0] == b[0] && b[0] == c[0] {
            lemma_text_lt_transitive(a.drop_first(), b.drop_first(), c.drop_first());
        }
    }
}

/// Whether `a` comes before `b` (see [`spec_text_lt`]).
pub fn text_lt(a: &str, b: &str) -> (r: bool)
    ensures
        r == spec_text_lt(a@, b@),
{
    let n = a.unicode_len();
    let m = b.unicode_len();
    let mut i: usize = 0;
    assert(a@.skip(0) =~= a@ && b@.skip(0) =~= b@);
    while i < n && i < m
        invariant
            n == a@.len(),
            m == b@.len(),
            i <= n,
            i <= m,
            spec_text_lt(a@, b@) == spec_text_lt(a@.skip(i as int), b@.skip(i as int)),
        decreases n - i,
    {
        let x = a.get_char(i);
        let y = b.get_char(i);
        proof {
            assert(a@.skip(i as int)[0] == x);
            assert(b@.skip(i as int)[0] == y);
            assert(a@.skip(i as int).drop_first() =~= a@.skip(i + 1));
            assert(b@.skip(i as int).drop_first() =~= b@.skip(i + 1));
        }
        if x != y {
            return (x as u32) < (y as u32);
        }
        i = i + 1;
    }
    proof {
        assert(a@.skip(i as int).len() == n - i);
        assert(b@.skip(i as int).len() == m - i);
    }
    n < m
}

} // verus!
