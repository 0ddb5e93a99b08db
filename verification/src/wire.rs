//! Protocol Buffers wire layer: base-128 varints and field records.
//!
//! A message is a sequence of records; each record is a varint key
//! (`field_number * 8 + wire_type`) followed by a payload whose shape the
//! wire type gives. The message modules build on the record sequence.
use vstd::prelude::*;

verus! {

/// `128^n`.
pub open spec fn pow128(n: nat) -> nat
    decreases n,
{
    if n == 0 {
        1
    } else {
        128 * pow128((n - 1) as nat)
    }
}

/// Base-128 encoding of `v`, least significant group first, continuation
/// bit set on every byte but the last.
pub open spec fn spec_varint(v: u64) -> Seq<u8>
    decreases v,
{
    if v < 128 {
        seq![v as u8]
    } else {
        seq![((v % 128) + 128) as u8] + spec_varint(v / 128)
    }
}

/// Reads a varint of at most `budget` bytes from the front of `s`: the value
/// (unbounded) and the number of bytes it took.
pub open spec fn spec_varint_raw(s: Seq<u8>, budget: nat) -> Option<(nat, nat)>
    decreases budget,
{
    if budget == 0 || s.len() == 0 {
        None
    } else if s[0] < 128 {
        Some((s[0] as nat, 1nat))
    } else {
        match spec_varint_raw(s.drop_first(), (budget - 1) as nat) {
            Some((v, n)) => Some((((s[0] - 128) as nat + 128 * v) as nat, n + 1)),
            None => None,
        }
    }
}

/// A varint of at most ten bytes whose value fits in 64 bits.
pub open spec fn spec_parse_varint(s: Seq<u8>) -> Option<(u64, nat)> {
    match spec_varint_raw(s, 10) {
        Some((v, n)) => if v <= u64::MAX {
            Some((v as u64, n))
        } else {
            None
        },
        None => None,
    }
}

proof fn lemma_pow128_mono(a: nat, b: nat)
    requires
        a <= b,
    ensures
        pow128(a) <= pow128(b),
        pow128(a) >= 1,
    decreases b,
{
    if a < b {
        lemma_pow128_mono(a, (b - 1) as nat);
    } else if a > 0 {
        lemma_pow128_mono((a - 1) as nat, (a - 1) as nat);
    }
}

proof fn lemma_pow128_ten()
    ensures
        pow128(9) == 0x8000_0000_0000_0000,
        pow128(10) == 0x40_0000_0000_0000_0000,
{
    reveal_with_fuel(pow128, 11);
}

/// A parsed varint takes between one and `budget` bytes, no more than `s`
/// holds, and its value is below `128^n`.
proof fn lemma_varint_raw_bound(s: Seq<u8>, budget: nat)
    ensures
        spec_varint_raw(s, budget) matches Some((v, n)) ==> 1 <= n <= budget && n <= s.len()
            && v < pow128(n),
    decreases budget,
{
    assert(pow128(1) == 128) by {
        reveal_with_fuel(pow128, 2);
    }
    if budget == 0 || s.len() == 0 {
    } else if s[0] < 128 {
    } else {
        lemma_varint_raw_bound(s.drop_first(), (budget - 1) as nat);
        match spec_varint_raw(s.drop_first(), (budget - 1) as nat) {
            Some((v, n)) => {
                let low = (s[0] - 128) as nat;
                let p = pow128(n);
                assert(low + 128 * v < 128 * p) by (nonlinear_arith)
                    requires
                        low < 128,
                        v < p,
                ;
                assert(pow128(n + 1) == 128 * p);
            },
            None => {},
        }
    }
}

/// Encoding then reading gives back the value and the encoded length,
/// whatever follows the encoding.
pub proof fn lemma_varint_roundtrip(v: u64, rest: Seq<u8>, budget: nat)
    requires
        v < pow128(budget),
        budget >= 1,
    ensures
        spec_varint_raw(spec_varint(v) + rest, budget) == Some((v as nat, spec_varint(v).len())),
        1 <= spec_varint(v).len() <= budget,
    decreases v,
{
    let s = spec_varint(v) + rest;
    if v < 128 {
        assert(s[0] == v as u8);
        lemma_pow128_mono(1, budget);
        assert(pow128(1) == 128) by {
            reveal_with_fuel(pow128, 2);
        }
    } else {
        let q = v / 128;
        assert(budget > 1) by {
            if budget == 1 {
                assert(pow128(1) == 128) by {
                    reveal_with_fuel(pow128, 2);
                }
            }
        }
        let b1 = (budget - 1) as nat;
        assert(q < pow128(b1)) by (nonlinear_arith)
            requires
                v < 128 * pow128(b1),
                q == v / 128,
        ;
        lemma_varint_roundtrip(q, rest, b1);
        assert(s.drop_first() =~= spec_varint(q) + rest);
        assert(s[0] == ((v % 128) + 128) as u8);
    }
}

/// Every 64-bit value reads back from its encoding with `spec_parse_varint`,
/// and the encoding takes at most ten bytes.
pub proof fn lemma_parse_varint_roundtrip(v: u64, rest: Seq<u8>)
    ensures
        spec_parse_varint(spec_varint(v) + rest) == Some((v, spec_varint(v).len())),
        1 <= spec_varint(v).len() <= 10,
{
    lemma_pow128_ten();
    lemma_varint_roundtrip(v, rest, 10);
}

/// Appends the varint encoding of `v` to `out`.
pub fn encode_varint(v: u64, out: &mut Vec<u8>)
    ensures
        final(out)@ == old(out)@ + spec_varint(v),
{
    let ghost start = out@;
    let mut x = v;
    while x >= 128
        invariant
            out@ + spec_varint(x) == start + spec_varint(v),
        decreases x,
    {
        let b = ((x % 128) + 128) as u8;
        let ghost before = out@;
        assert(spec_varint(x) == seq![b] + spec_varint(x / 128));
        out.push(b);
        assert(out@ + spec_varint(x / 128) =~= before + spec_varint(x));
        x = x / 128;
    }
    assert(spec_varint(x) == seq![x as u8]);
    out.push(x as u8);
    assert(out@ =~= start + spec_varint(v));
}

fn parse_varint_raw(s: &[u8], pos: usize, budget: usize) -> (r: Option<(u128, usize)>)
    requires
        pos <= s@.len(),
        budget <= 10,
    ensures
        r is None <==> spec_varint_raw(s@.subrange(pos as int, s@.len() as int), budget as nat)
            is None,
        r matches Some((v, n)) ==> spec_varint_raw(
            s@.subrange(pos as int, s@.len() as int),
            budget as nat,
        ) == Some((v as nat, n as nat)),
    decreases budget,
{
    let ghost t = s@.subrange(pos as int, s@.len() as int);
    if budget == 0 || pos >= s.len() {
        return None;
    }
    let b = s[pos];
    assert(t[0] == b);
    if b < 128 {
        return Some((b as u128, 1));
    }
    assert(t.drop_first() =~= s@.subrange(pos + 1, s@.len() as int));
    match parse_varint_raw(s, pos + 1, budget - 1) {
        Some((v, n)) => {
            proof {
                lemma_varint_raw_bound(t.drop_first(), (budget - 1) as nat);
                lemma_pow128_mono(n as nat, 9);
                lemma_pow128_ten();
            }
            let low = (b - 128) as u128;
            Some((low + 128 * v, n + 1))
        },
        None => None,
    }
}

/// Reads a varint starting at `pos`: its value and its length in bytes.
pub fn parse_varint(s: &[u8], pos: usize) -> (r: Option<(u64, usize)>)
    requires
        pos <= s@.len(),
    ensures
        r is None <==> spec_parse_varint(s@.subrange(pos as int, s@.len() as int)) is None,
        r matches Some((v, n)) ==> spec_parse_varint(s@.subrange(pos as int, s@.len() as int))
            == Some((v, n as nat)),
        r matches Some((v, n)) ==> 1 <= n && pos + n <= s@.len(),
{
    proof {
        lemma_varint_raw_bound(s@.subrange(pos as int, s@.len() as int), 10);
    }
    match parse_varint_raw(s, pos, 10) {
        Some((v, n)) => {
            if v <= 0xFFFF_FFFF_FFFF_FFFF {
                Some((v as u64, n))
            } else {
                None
            }
        },
        None => None,
    }
}


/// The payload of a field record, by wire type.
pub enum WireValue {
    /// Wire type 0.
    Varint(u64),
    /// Wire type 1: eight raw bytes.
    Fixed64(Vec<u8>),
    /// Wire type 2: a length-prefixed byte string.
    Bytes(Vec<u8>),
    /// Wire type 5: four raw bytes.
    Fixed32(Vec<u8>),
}

/// The mathematical value of a record payload.
pub enum SpecWireValue {
    Varint(u64),
    Fixed64(Seq<u8>),
    Bytes(Seq<u8>),
    Fixed32(Seq<u8>),
}

/// One field of a message: its number and its payload.
pub struct Record {
    pub field: u32,
    pub value: WireValue,
}

pub struct SpecRecord {
    pub field: u32,
    pub value: SpecWireValue,
}

impl View for WireValue {
    type V = SpecWireValue;

    open spec fn view(&self) -> SpecWireValue {
        match self {
            WireValue::Varint(v) => SpecWireValue::Varint(*v),
            WireValue::Fixed64(b) => SpecWireValue::Fixed64(b@),
            WireValue::Bytes(b) => SpecWireValue::Bytes(b@),
            WireValue::Fixed32(b) => SpecWireValue::Fixed32(b@),
        }
    }
}

impl View for Record {
    type V = SpecRecord;

    open spec fn view(&self) -> SpecRecord {
        SpecRecord { field: self.field, value: self.value@ }
    }
}

/// The records of a vector, by value.
pub open spec fn records_view(rs: Seq<Record>) -> Seq<SpecRecord> {
    rs.map_values(|r: Record| r@)
}

/// Largest field number the format admits (`2^29 - 1`).
pub open spec fn max_field() -> u32 {
    0x1FFF_FFFF
}

pub open spec fn wire_type(v: SpecWireValue) -> u64 {
    match v {
        SpecWireValue::Varint(_) => 0,
        SpecWireValue::Fixed64(_) => 1,
        SpecWireValue::Bytes(_) => 2,
        SpecWireValue::Fixed32(_) => 5,
    }
}

/// A record that the format can carry.
pub open spec fn record_wf(r: SpecRecord) -> bool {
    &&& 1 <= r.field <= max_field()
    &&& match r.value {
        SpecWireValue::Fixed64(b) => b.len() == 8,
        SpecWireValue::Fixed32(b) => b.len() == 4,
        SpecWireValue::Bytes(b) => b.len() <= u64::MAX,
        SpecWireValue::Varint(_) => true,
    }
}

pub open spec fn records_wf(rs: Seq<SpecRecord>) -> bool {
    forall|i: int| 0 <= i < rs.len() ==> record_wf(#[trigger] rs[i])
}

pub open spec fn record_key(r: SpecRecord) -> u64 {
    (r.field as u64 * 8 + wire_type(r.value)) as u64
}

/// The bytes of one record: key, then payload.
pub open spec fn spec_record_bytes(r: SpecRecord) -> Seq<u8> {
    spec_varint(record_key(r)) + match r.value {
        SpecWireValue::Varint(v) => spec_varint(v),
        SpecWireValue::Fixed64(b) => b,
        SpecWireValue::Bytes(b) => spec_varint(b.len() as u64) + b,
        SpecWireValue::Fixed32(b) => b,
    }
}

/// The bytes of a record sequence: the records one after another.
pub open spec fn spec_records_bytes(rs: Seq<SpecRecord>) -> Seq<u8>
    decreases rs.len(),
{
    if rs.len() == 0 {
        Seq::empty()
    } else {
        spec_record_bytes(rs[0]) + spec_records_bytes(rs.drop_first())
    }
}

/// Reads one record from the front of `s`: the record and the bytes it took.
/// The key must fit in 32 bits, name a field other than zero and carry wire
/// type 0, 1, 2 or 5 (groups are not part of this format).
pub open spec fn spec_parse_record(s: Seq<u8>) -> Option<(SpecRecord, nat)> {
    match spec_parse_varint(s) {
        None => None,
        Some((key, n)) => {
            let field = key / 8;
            let wt = key % 8;
            if key > u32::MAX || field == 0 {
                None
            } else if wt == 0 {
                match spec_parse_varint(s.skip(n as int)) {
                    Some((v, m)) => Some(
                        (SpecRecord { field: field as u32, value: SpecWireValue::Varint(v) }, n + m),
                    ),
                    None => None,
                }
            } else if wt == 1 {
                if n + 8 <= s.len() {
                    Some(
                        (
                            SpecRecord {
                                field: field as u32,
                                value: SpecWireValue::Fixed64(s.subrange(n as int, (n + 8) as int)),
                            },
                            n + 8,
                        ),
                    )
                } else {
                    None
                }
            } else if wt == 2 {
                match spec_parse_varint(s.skip(n as int)) {
                    Some((len, m)) => if n + m + len <= s.len() {
                        Some(
                            (
                                SpecRecord {
                                    field: field as u32,
                                    value: SpecWireValue::Bytes(
                                        s.subrange((n + m) as int, (n + m + len) as int),
                                    ),
                                },
                                (n + m + len) as nat,
                            ),
                        )
                    } else {
                        None
                    },
                    None => None,
                }
            } else if wt == 5 {
                if n + 4 <= s.len() {
                    Some(
                        (
                            SpecRecord {
                                field: field as u32,
                                value: SpecWireValue::Fixed32(s.subrange(n as int, (n + 4) as int)),
                            },
                            n + 4,
                        ),
                    )
                } else {
                    None
                }
            } else {
                None
            }
        },
    }
}

/// Reads records until the input is used up; `None` if any record is
/// malformed or truncated.
pub open spec fn spec_parse_records(s: Seq<u8>) -> Option<Seq<SpecRecord>>
    decreases s.len(),
{
    if s.len() == 0 {
        Some(Seq::empty())
    } else {
        match spec_parse_record(s) {
            Some((r, n)) => if 0 < n <= s.len() {
                match spec_parse_records(s.skip(n as int)) {
                    Some(rest) => Some(seq![r] + rest),
                    None => None,
                }
            } else {
                None
            },
            None => None,
        }
    }
}

proof fn lemma_parse_record_roundtrip(r: SpecRecord, rest: Seq<u8>)
    requires
        record_wf(r),
    ensures
        spec_parse_record(spec_record_bytes(r) + rest) == Some((r, spec_record_bytes(r).len())),
{
    let key = record_key(r);
    let kb = spec_varint(key);
    let payload = match r.value {
        SpecWireValue::Varint(v) => spec_varint(v),
        SpecWireValue::Fixed64(b) => b,
        SpecWireValue::Bytes(b) => spec_varint(b.len() as u64) + b,
        SpecWireValue::Fixed32(b) => b,
    };
    let s = spec_record_bytes(r) + rest;
    assert(s =~= kb + (payload + rest));
    lemma_parse_varint_roundtrip(key, payload + rest);
    let n = kb.len();
    assert(s.skip(n as int) =~= payload + rest);
    let wt = wire_type(r.value);
    assert(key / 8 == r.field as u64 && key % 8 == wt) by (nonlinear_arith)
        requires
            key == r.field as u64 * 8 + wt,
            wt < 8,
    ;
    match r.value {
        SpecWireValue::Varint(v) => {
            lemma_parse_varint_roundtrip(v, rest);
        },
        SpecWireValue::Fixed64(b) => {
            assert(s.subrange(n as int, (n + 8) as int) =~= b);
        },
        SpecWireValue::Bytes(b) => {
            let lb = spec_varint(b.len() as u64);
            lemma_parse_varint_roundtrip(b.len() as u64, b + rest);
            assert(payload + rest =~= lb + (b + rest));
            let m = lb.len();
            assert(s.subrange((n + m) as int, (n + m + b.len()) as int) =~= b);
        },
        SpecWireValue::Fixed32(b) => {
            assert(s.subrange(n as int, (n + 4) as int) =~= b);
        },
    }
}

pub proof fn lemma_records_wf_concat(a: Seq<SpecRecord>, b: Seq<SpecRecord>)
    requires
        records_wf(a),
        records_wf(b),
    ensures
        records_wf(a + b),
{
    assert forall|i: int| 0 <= i < (a + b).len() implies record_wf(#[trigger] (a + b)[i]) by {
        if i < a.len() {
            assert((a + b)[i] == a[i]);
        } else {
            assert((a + b)[i] == b[i - a.len()]);
        }
    }
}

/// Reading the bytes of well-formed records gives back the records.
pub proof fn lemma_parse_records_roundtrip(rs: Seq<SpecRecord>)
    requires
        records_wf(rs),
    ensures
        spec_parse_records(spec_records_bytes(rs)) == Some(rs),
    decreases rs.len(),
{
    if rs.len() == 0 {
    } else {
        let r = rs[0];
        let tail = rs.drop_first();
        assert(record_wf(r));
        assert(records_wf(tail)) by {
            assert forall|i: int| 0 <= i < tail.len() implies record_wf(#[trigger] tail[i]) by {
                assert(tail[i] == rs[i + 1]);
            }
        }
        let s = spec_records_bytes(rs);
        let rb = spec_record_bytes(r);
        lemma_parse_record_roundtrip(r, spec_records_bytes(tail));
        lemma_parse_varint_roundtrip(record_key(r), Seq::empty());
        assert(s.skip(rb.len() as int) =~= spec_records_bytes(tail));
        lemma_parse_records_roundtrip(tail);
        assert(seq![r] + tail =~= rs);
    }
}


/// The bytes `s[start..end]` as a new vector.
pub fn copy_range(s: &[u8], start: usize, end: usize) -> (r: Vec<u8>)
    requires
        start <= end <= s@.len(),
    ensures
        r@ == s@.subrange(start as int, end as int),
{
    let mut r: Vec<u8> = Vec::new();
    let mut i = start;
    while i < end
        invariant
            start <= i <= end <= s@.len(),
            r@ == s@.subrange(start as int, i as int),
        decreases end - i,
    {
        r.push(s[i]);
        i = i + 1;
        assert(r@ =~= s@.subrange(start as int, i as int));
    }
    r
}

/// Appends `b` to `out`.
pub fn append_bytes(out: &mut Vec<u8>, b: &[u8])
    ensures
        final(out)@ == old(out)@ + b@,
{
    let ghost start = out@;
    let mut i: usize = 0;
    while i < b.len()
        invariant
            i <= b@.len(),
            out@ == start + b@.subrange(0, i as int),
        decreases b@.len() - i,
    {
        out.push(b[i]);
        i = i + 1;
        assert(out@ =~= start + b@.subrange(0, i as int));
    }
    assert(b@.subrange(0, b@.len() as int) =~= b@);
}

/// Appends the bytes of one record to `out`.
pub fn encode_record(r: &Record, out: &mut Vec<u8>)
    requires
        record_wf(r@),
    ensures
        final(out)@ == old(out)@ + spec_record_bytes(r@),
{
    let ghost start = out@;
    let wt: u64 = match &r.value {
        WireValue::Varint(_) => 0,
        WireValue::Fixed64(_) => 1,
        WireValue::Bytes(_) => 2,
        WireValue::Fixed32(_) => 5,
    };
    let key: u64 = r.field as u64 * 8 + wt;
    assert(key == record_key(r@));
    encode_varint(key, out);
    match &r.value {
        WireValue::Varint(v) => {
            encode_varint(*v, out);
        },
        WireValue::Fixed64(b) => {
            append_bytes(out, b.as_slice());
        },
        WireValue::Bytes(b) => {
            encode_varint(b.len() as u64, out);
            append_bytes(out, b.as_slice());
        },
        WireValue::Fixed32(b) => {
            append_bytes(out, b.as_slice());
        },
    }
    assert(out@ =~= start + spec_record_bytes(r@));
}

proof fn lemma_records_bytes_push(rs: Seq<SpecRecord>, r: SpecRecord)
    ensures
        spec_records_bytes(rs.push(r)) == spec_records_bytes(rs) + spec_record_bytes(r),
    decreases rs.len(),
{
    if rs.len() == 0 {
        assert(rs.push(r).drop_first() =~= Seq::<SpecRecord>::empty());
        assert(rs.push(r)[0] == r);
        assert(spec_records_bytes(Seq::<SpecRecord>::empty()) == Seq::<u8>::empty());
        assert(spec_records_bytes(rs) == Seq::<u8>::empty());
        assert(spec_records_bytes(rs.push(r)) =~= spec_record_bytes(r));
    } else {
        lemma_records_bytes_push(rs.drop_first(), r);
        assert(rs.push(r).drop_first() =~= rs.drop_first().push(r));
        assert(spec_records_bytes(rs.push(r)) =~= spec_records_bytes(rs) + spec_record_bytes(r));
    }
}

/// The bytes of a record sequence.
pub fn encode_records(rs: &Vec<Record>) -> (out: Vec<u8>)
    requires
        records_wf(records_view(rs@)),
    ensures
        out@ == spec_records_bytes(records_view(rs@)),
{
    let mut out: Vec<u8> = Vec::new();
    let mut i: usize = 0;
    while i < rs.len()
        invariant
            i <= rs@.len(),
            records_wf(records_view(rs@)),
            out@ == spec_records_bytes(records_view(rs@).take(i as int)),
        decreases rs@.len() - i,
    {
        assert(records_view(rs@)[i as int] == rs@[i as int]@);
        encode_record(&rs[i], &mut out);
        proof {
            lemma_records_bytes_push(records_view(rs@).take(i as int), rs@[i as int]@);
            assert(records_view(rs@).take(i + 1) =~= records_view(rs@).take(i as int).push(
                rs@[i as int]@,
            ));
        }
        i = i + 1;
    }
    assert(records_view(rs@).take(rs@.len() as int) =~= records_view(rs@));
    out
}

/// Reads one record starting at `pos`.
fn parse_record(s: &[u8], pos: usize) -> (r: Option<(Record, usize)>)
    requires
        pos <= s@.len(),
    ensures
        r is None <==> spec_parse_record(s@.subrange(pos as int, s@.len() as int)) is None,
        r matches Some((rec, n)) ==> spec_parse_record(s@.subrange(pos as int, s@.len() as int))
            == Some((rec@, n as nat)) && pos + n <= s@.len(),
{
    let ghost t = s@.subrange(pos as int, s@.len() as int);
    let res = parse_varint(s, pos);
    let (key, n) = match res {
        Some(x) => x,
        None => {
            return None;
        },
    };
    let slen = s.len();
    assert(pos + n <= slen);
    let field = key / 8;
    let wt = key % 8;
    if key > 0xFFFF_FFFF || field == 0 {
        return None;
    }
    let p = pos + n;
    let rem = slen - p;
    assert(t.skip(n as int) =~= s@.subrange(p as int, s@.len() as int));
    if wt == 0 {
        match parse_varint(s, p) {
            Some((v, m)) => {
                Some((Record { field: field as u32, value: WireValue::Varint(v) }, n + m))
            },
            None => None,
        }
    } else if wt == 1 {
        if 8 <= rem {
            let b = copy_range(s, p, p + 8);
            assert(b@ =~= t.subrange(n as int, (n + 8) as int));
            Some((Record { field: field as u32, value: WireValue::Fixed64(b) }, n + 8))
        } else {
            None
        }
    } else if wt == 2 {
        match parse_varint(s, p) {
            Some((len, m)) => {
                if len <= (rem - m) as u64 {
                    let q = p + m;
                    let e = q + len as usize;
                    let b = copy_range(s, q, e);
                    assert(b@ =~= t.subrange((n + m) as int, (n + m + len) as int));
                    Some(
                        (Record { field: field as u32, value: WireValue::Bytes(b) }, n + m + len as usize),
                    )
                } else {
                    None
                }
            },
            None => None,
        }
    } else if wt == 5 {
        if 4 <= rem {
            let b = copy_range(s, p, p + 4);
            assert(b@ =~= t.subrange(n as int, (n + 4) as int));
            Some((Record { field: field as u32, value: WireValue::Fixed32(b) }, n + 4))
        } else {
            None
        }
    } else {
        None
    }
}

/// Splits a message into its records; `None` exactly when
/// `spec_parse_records` rejects the bytes.
pub fn parse_records(s: &[u8]) -> (r: Option<Vec<Record>>)
    ensures
        r is None <==> spec_parse_records(s@) is None,
        r matches Some(rs) ==> spec_parse_records(s@) == Some(records_view(rs@)),
{
    let mut out: Vec<Record> = Vec::new();
    let mut pos: usize = 0;
    assert(s@.skip(0) =~= s@);
    proof {
        match spec_parse_records(s@) {
            Some(rest) => {
                assert(records_view(out@) + rest =~= rest);
            },
            None => {},
        }
    }
    while pos < s.len()
        invariant
            pos <= s@.len(),
            spec_parse_records(s@) == match spec_parse_records(s@.skip(pos as int)) {
                Some(rest) => Some(records_view(out@) + rest),
                None => None,
            },
        decreases s@.len() - pos,
    {
        let ghost t = s@.skip(pos as int);
        assert(t =~= s@.subrange(pos as int, s@.len() as int));
        match parse_record(s, pos) {
            Some((rec, n)) => {
                assert(t.skip(n as int) =~= s@.skip((pos + n) as int));
                let ghost rv = rec@;
                let ghost before = records_view(out@);
                out.push(rec);
                assert(records_view(out@) =~= before.push(rv));
                proof {
                    match spec_parse_records(s@.skip((pos + n) as int)) {
                        Some(rest) => {
                            assert(before + (seq![rv] + rest) =~= before.push(rv) + rest);
                        },
                        None => {},
                    }
                }
                pos = pos + n;
            },
            None => {
                return None;
            },
        }
    }
    assert(s@.skip(pos as int) =~= Seq::<u8>::empty());
    assert(records_view(out@) + Seq::<SpecRecord>::empty() =~= records_view(out@));
    Some(out)
}

} // verus!
