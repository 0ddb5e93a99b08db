//! Typed access to the fields of a record sequence.
//!
//! A scalar or byte-string field takes the value of its last record (proto3
//! semantics); a field that never occurs takes its default. A record of a
//! known field with the wrong wire type makes the whole message malformed.
use crate::wire::{
    encode_varint, lemma_parse_varint_roundtrip, parse_varint, spec_parse_varint, spec_varint,
    copy_range, max_field, records_view, records_wf, wire_type, Record, SpecRecord, SpecWireValue,
    WireValue,
};
use vstd::prelude::*;
use vstd::utf8::*;

verus! {

broadcast use {encode_utf8_valid_utf8, encode_utf8_decode_utf8};

/// The payload of the last record for `field`, if any.
pub open spec fn spec_last(rs: Seq<SpecRecord>, field: u32) -> Option<SpecWireValue>
    decreases rs.len(),
{
    if rs.len() == 0 {
        None
    } else if rs.last().field == field {
        Some(rs.last().value)
    } else {
        spec_last(rs.drop_last(), field)
    }
}

/// No record of `rs` is for `field`.
pub open spec fn no_field(rs: Seq<SpecRecord>, field: u32) -> bool {
    forall|i: int| 0 <= i < rs.len() ==> (#[trigger] rs[i]).field != field
}

/// Every record of `rs` for `field` has wire type `wt`.
pub open spec fn all_of_type(rs: Seq<SpecRecord>, field: u32, wt: u64) -> bool {
    forall|i: int|
        0 <= i < rs.len() && (#[trigger] rs[i]).field == field ==> wire_type(rs[i].value) == wt
}

/// A length-delimited field: its last value, or empty when absent.
#[verifier::opaque]
pub open spec fn spec_field_bytes(rs: Seq<SpecRecord>, field: u32) -> Option<Seq<u8>> {
    if all_of_type(rs, field, 2) {
        Some(
            match spec_last(rs, field) {
                Some(SpecWireValue::Bytes(b)) => b,
                _ => Seq::empty(),
            },
        )
    } else {
        None
    }
}

/// A varint field: its last value, or zero when absent.
#[verifier::opaque]
pub open spec fn spec_field_varint(rs: Seq<SpecRecord>, field: u32) -> Option<u64> {
    if all_of_type(rs, field, 0) {
        Some(
            match spec_last(rs, field) {
                Some(SpecWireValue::Varint(v)) => v,
                _ => 0,
            },
        )
    } else {
        None
    }
}

/// A string field: its bytes must be UTF-8.
pub open spec fn spec_field_string(rs: Seq<SpecRecord>, field: u32) -> Option<Seq<char>> {
    match spec_field_bytes(rs, field) {
        Some(b) => if valid_utf8(b) {
            Some(decode_utf8(b))
        } else {
            None
        },
        None => None,
    }
}

/// An `int32` field (enums included): the low 32 bits of the varint.
pub open spec fn spec_field_i32(rs: Seq<SpecRecord>, field: u32) -> Option<i32> {
    match spec_field_varint(rs, field) {
        Some(v) => Some(v as i32),
        None => None,
    }
}

/// A `uint32` field: the low 32 bits of the varint.
pub open spec fn spec_field_u32(rs: Seq<SpecRecord>, field: u32) -> Option<u32> {
    match spec_field_varint(rs, field) {
        Some(v) => Some(v as u32),
        None => None,
    }
}

/// A `bool` field: true when the varint is not zero.
pub open spec fn spec_field_bool(rs: Seq<SpecRecord>, field: u32) -> Option<bool> {
    match spec_field_varint(rs, field) {
        Some(v) => Some(v != 0),
        None => None,
    }
}

/// The varint an `int32` value is written as (sign-extended to 64 bits).
pub open spec fn i32_wire(x: i32) -> u64 {
    (x as i64) as u64
}

/// The records a non-default value contributes; nothing for the default.
#[verifier::opaque]
pub open spec fn opt_bytes_rec(field: u32, b: Seq<u8>) -> Seq<SpecRecord> {
    if b.len() == 0 {
        Seq::empty()
    } else {
        seq![SpecRecord { field, value: SpecWireValue::Bytes(b) }]
    }
}

#[verifier::opaque]
pub open spec fn opt_varint_rec(field: u32, v: u64) -> Seq<SpecRecord> {
    if v == 0 {
        Seq::empty()
    } else {
        seq![SpecRecord { field, value: SpecWireValue::Varint(v) }]
    }
}

pub open spec fn opt_string_rec(field: u32, s: Seq<char>) -> Seq<SpecRecord> {
    opt_bytes_rec(field, encode_utf8(s))
}

pub open spec fn opt_i32_rec(field: u32, x: i32) -> Seq<SpecRecord> {
    opt_varint_rec(field, i32_wire(x))
}

pub proof fn lemma_i32_wire(x: i32)
    ensures
        i32_wire(x) as i32 == x,
        (i32_wire(x) == 0) == (x == 0),
{
    assert(((x as i64) as u64) as i32 == x) by (bit_vector);
    assert((((x as i64) as u64) == 0) == (x == 0)) by (bit_vector);
}

pub proof fn lemma_last_no_field(rs: Seq<SpecRecord>, field: u32)
    requires
        no_field(rs, field),
    ensures
        spec_last(rs, field) is None,
    decreases rs.len(),
{
    if rs.len() > 0 {
        assert(rs.last() == rs[rs.len() - 1]);
        assert(no_field(rs.drop_last(), field)) by {
            assert forall|i: int| 0 <= i < rs.drop_last().len() implies (
            #[trigger] rs.drop_last()[i]).field != field by {
                assert(rs.drop_last()[i] == rs[i]);
            }
        }
        lemma_last_no_field(rs.drop_last(), field);
    }
}

pub proof fn lemma_last_concat(a: Seq<SpecRecord>, b: Seq<SpecRecord>, field: u32)
    ensures
        spec_last(a + b, field) == if spec_last(b, field) is Some {
            spec_last(b, field)
        } else {
            spec_last(a, field)
        },
    decreases b.len(),
{
    if b.len() == 0 {
        assert(a + b =~= a);
    } else {
        assert((a + b).drop_last() =~= a + b.drop_last());
        assert((a + b).last() == b.last());
        lemma_last_concat(a, b.drop_last(), field);
    }
}

/// In `pre + [r] + post`, with `field` absent from `pre` and `post`, the
/// field reads as `r`'s payload.
pub proof fn lemma_field_single(
    pre: Seq<SpecRecord>,
    r: SpecRecord,
    post: Seq<SpecRecord>,
    field: u32,
    wt: u64,
)
    requires
        no_field(pre, field),
        no_field(post, field),
        r.field == field,
    ensures
        spec_last(pre + seq![r] + post, field) == Some(r.value),
        all_of_type(pre + seq![r] + post, field, wt) == (wire_type(r.value) == wt),
{
    let s = pre + seq![r] + post;
    lemma_last_no_field(post, field);
    lemma_last_concat(pre + seq![r], post, field);
    lemma_last_concat(pre, seq![r], field);
    assert(seq![r].drop_last() =~= Seq::<SpecRecord>::empty());
    assert(s[pre.len() as int] == r);
    if wire_type(r.value) == wt {
        assert forall|i: int| 0 <= i < s.len() && (#[trigger] s[i]).field == field implies wire_type(
            s[i].value,
        ) == wt by {
            if i < pre.len() {
                assert(s[i] == pre[i]);
            } else if i > pre.len() {
                assert(s[i] == post[i - pre.len() - 1]);
            }
        }
    }
}

/// With `field` absent, every typed read gives the default.
pub proof fn lemma_field_absent(rs: Seq<SpecRecord>, field: u32, wt: u64)
    requires
        no_field(rs, field),
    ensures
        spec_last(rs, field) is None,
        all_of_type(rs, field, wt),
{
    lemma_last_no_field(rs, field);
}

pub proof fn lemma_opt_bytes_other(field: u32, b: Seq<u8>, other: u32)
    requires
        other != field,
    ensures
        no_field(opt_bytes_rec(field, b), other),
{
    reveal(opt_bytes_rec);
}

pub proof fn lemma_opt_bytes_wf(field: u32, b: Seq<u8>)
    requires
        1 <= field <= max_field(),
        b.len() <= u64::MAX,
    ensures
        records_wf(opt_bytes_rec(field, b)),
{
    reveal(opt_bytes_rec);
}

pub proof fn lemma_opt_varint_other(field: u32, x: u64, other: u32)
    requires
        other != field,
    ensures
        no_field(opt_varint_rec(field, x), other),
{
    reveal(opt_varint_rec);
}

pub proof fn lemma_opt_varint_wf(field: u32, x: u64)
    requires
        1 <= field <= max_field(),
    ensures
        records_wf(opt_varint_rec(field, x)),
{
    reveal(opt_varint_rec);
}

pub proof fn lemma_no_field_concat(a: Seq<SpecRecord>, b: Seq<SpecRecord>, field: u32)
    requires
        no_field(a, field),
        no_field(b, field),
    ensures
        no_field(a + b, field),
{
    assert forall|i: int| 0 <= i < (a + b).len() implies (#[trigger] (a + b)[i]).field != field by {
        if i < a.len() {
            assert((a + b)[i] == a[i]);
        } else {
            assert((a + b)[i] == b[i - a.len()]);
        }
    }
}

/// A byte-string field written by `opt_bytes_rec` reads back.
pub proof fn lemma_read_bytes(
    rs: Seq<SpecRecord>,
    pre: Seq<SpecRecord>,
    post: Seq<SpecRecord>,
    field: u32,
    b: Seq<u8>,
)
    requires
        rs == pre + opt_bytes_rec(field, b) + post,
        no_field(pre, field),
        no_field(post, field),
    ensures
        spec_field_bytes(rs, field) == Some(b),
{
    reveal(spec_field_bytes);
    reveal(opt_bytes_rec);
    if b.len() == 0 {
        assert(rs =~= pre + post);
        lemma_no_field_concat(pre, post, field);
        lemma_field_absent(rs, field, 2);
        assert(b =~= Seq::<u8>::empty());
    } else {
        lemma_field_single(pre, SpecRecord { field, value: SpecWireValue::Bytes(b) }, post, field, 2);
    }
}

/// A varint field written by `opt_varint_rec` reads back.
pub proof fn lemma_read_varint(
    rs: Seq<SpecRecord>,
    pre: Seq<SpecRecord>,
    post: Seq<SpecRecord>,
    field: u32,
    x: u64,
)
    requires
        rs == pre + opt_varint_rec(field, x) + post,
        no_field(pre, field),
        no_field(post, field),
    ensures
        spec_field_varint(rs, field) == Some(x),
{
    reveal(spec_field_varint);
    reveal(opt_varint_rec);
    if x == 0 {
        assert(rs =~= pre + post);
        lemma_no_field_concat(pre, post, field);
        lemma_field_absent(rs, field, 0);
    } else {
        lemma_field_single(pre, SpecRecord { field, value: SpecWireValue::Varint(x) }, post, field, 0);
    }
}

/// A string field written by `opt_string_rec` reads back.
pub proof fn lemma_read_string(
    rs: Seq<SpecRecord>,
    pre: Seq<SpecRecord>,
    post: Seq<SpecRecord>,
    field: u32,
    c: Seq<char>,
)
    requires
        rs == pre + opt_string_rec(field, c) + post,
        no_field(pre, field),
        no_field(post, field),
    ensures
        spec_field_string(rs, field) == Some(c),
{
    lemma_read_bytes(rs, pre, post, field, encode_utf8(c));
}

/// An `int32` field written by `opt_i32_rec` reads back.
pub proof fn lemma_read_i32(
    rs: Seq<SpecRecord>,
    pre: Seq<SpecRecord>,
    post: Seq<SpecRecord>,
    field: u32,
    x: i32,
)
    requires
        rs == pre + opt_i32_rec(field, x) + post,
        no_field(pre, field),
        no_field(post, field),
    ensures
        spec_field_i32(rs, field) == Some(x),
{
    lemma_i32_wire(x);
    lemma_read_varint(rs, pre, post, field, i32_wire(x));
}

/// Reads a length-delimited field; `None` when a record of the field has
/// another wire type.
pub fn field_bytes(rs: &Vec<Record>, field: u32) -> (r: Option<Vec<u8>>)
    ensures
        r is None <==> spec_field_bytes(records_view(rs@), field) is None,
        r matches Some(b) ==> spec_field_bytes(records_view(rs@), field) == Some(b@),
{
    reveal(spec_field_bytes);
    let ghost v = records_view(rs@);
    let mut last: Option<usize> = None;
    let mut i: usize = 0;
    while i < rs.len()
        invariant
            i <= rs@.len(),
            v == records_view(rs@),
            all_of_type(v.take(i as int), field, 2),
            last matches Some(j) ==> j < i && v[j as int].field == field && spec_last(
                v.take(i as int),
                field,
            ) == Some(v[j as int].value),
            last is None ==> spec_last(v.take(i as int), field) is None,
        decreases rs@.len() - i,
    {
        assert(v[i as int] == rs@[i as int]@);
        assert(v.take(i + 1).drop_last() =~= v.take(i as int));
        assert(v.take(i + 1).last() == v[i as int]);
        if rs[i].field == field {
            match &rs[i].value {
                WireValue::Bytes(_) => {
                    last = Some(i);
                },
                _ => {
                    proof {
                        reveal(spec_field_bytes);
                        assert(v[i as int].field == field && wire_type(v[i as int].value) != 2);
                        assert(!all_of_type(v, field, 2));
                    }
                    return None;
                },
            }
        }
        assert forall|k: int|
            0 <= k < v.take(i + 1).len() && (#[trigger] v.take(i + 1)[k]).field
                == field implies wire_type(v.take(i + 1)[k].value) == 2 by {
            if k < i {
                assert(v.take(i + 1)[k] == v.take(i as int)[k]);
            }
        }
        i = i + 1;
    }
    assert(v.take(rs@.len() as int) =~= v);
    match last {
        Some(j) => {
            match &rs[j].value {
                WireValue::Bytes(b) => Some(copy_range(b.as_slice(), 0, b.len())),
                _ => Some(Vec::new()),
            }
        },
        None => Some(Vec::new()),
    }
}

/// Reads a varint field; `None` when a record of the field has another wire
/// type.
pub fn field_varint(rs: &Vec<Record>, field: u32) -> (r: Option<u64>)
    ensures
        r == spec_field_varint(records_view(rs@), field),
{
    reveal(spec_field_varint);
    let ghost v = records_view(rs@);
    let mut last: Option<u64> = None;
    let mut i: usize = 0;
    while i < rs.len()
        invariant
            i <= rs@.len(),
            v == records_view(rs@),
            all_of_type(v.take(i as int), field, 0),
            last matches Some(x) ==> spec_last(v.take(i as int), field) == Some(
                SpecWireValue::Varint(x),
            ),
            last is None ==> spec_last(v.take(i as int), field) is None,
        decreases rs@.len() - i,
    {
        assert(v[i as int] == rs@[i as int]@);
        assert(v.take(i + 1).drop_last() =~= v.take(i as int));
        assert(v.take(i + 1).last() == v[i as int]);
        if rs[i].field == field {
            match &rs[i].value {
                WireValue::Varint(x) => {
                    last = Some(*x);
                },
                _ => {
                    proof {
                        reveal(spec_field_varint);
                        assert(v[i as int].field == field && wire_type(v[i as int].value) != 0);
                        assert(!all_of_type(v, field, 0));
                    }
                    return None;
                },
            }
        }
        assert forall|k: int|
            0 <= k < v.take(i + 1).len() && (#[trigger] v.take(i + 1)[k]).field
                == field implies wire_type(v.take(i + 1)[k].value) == 0 by {
            if k < i {
                assert(v.take(i + 1)[k] == v.take(i as int)[k]);
            }
        }
        i = i + 1;
    }
    assert(v.take(rs@.len() as int) =~= v);
    match last {
        Some(x) => Some(x),
        None => Some(0),
    }
}

/// `String::from_utf8` (std): gives a string exactly when the bytes are
/// valid UTF-8, and then the string holds the characters they encode.
#[verifier::external_body]
pub(crate) fn string_from_utf8(bytes: Vec<u8>) -> (r: Option<String>)
    ensures
        r is Some <==> valid_utf8(bytes@),
        r matches Some(s) ==> s@ == decode_utf8(bytes@),
{
    String::from_utf8(bytes).ok()
}

/// Reads a string field.
pub fn field_string(rs: &Vec<Record>, field: u32) -> (r: Option<String>)
    ensures
        r is None <==> spec_field_string(records_view(rs@), field) is None,
        r matches Some(s) ==> spec_field_string(records_view(rs@), field) == Some(s@),
{
    match field_bytes(rs, field) {
        Some(b) => string_from_utf8(b),
        None => None,
    }
}

/// Reads an `int32` field.
pub fn field_i32(rs: &Vec<Record>, field: u32) -> (r: Option<i32>)
    ensures
        r == spec_field_i32(records_view(rs@), field),
{
    match field_varint(rs, field) {
        Some(v) => Some(v as i32),
        None => None,
    }
}

/// Reads a `uint32` field.
pub fn field_u32(rs: &Vec<Record>, field: u32) -> (r: Option<u32>)
    ensures
        r == spec_field_u32(records_view(rs@), field),
{
    match field_varint(rs, field) {
        Some(v) => Some(v as u32),
        None => None,
    }
}

/// Reads a `bool` field.
pub fn field_bool(rs: &Vec<Record>, field: u32) -> (r: Option<bool>)
    ensures
        r == spec_field_bool(records_view(rs@), field),
{
    match field_varint(rs, field) {
        Some(v) => Some(v != 0),
        None => None,
    }
}

/// The packed encoding of a repeated `int32` field: the varints one after
/// another.
pub open spec fn spec_packed_bytes(xs: Seq<i32>) -> Seq<u8>
    decreases xs.len(),
{
    if xs.len() == 0 {
        Seq::empty()
    } else {
        spec_varint(i32_wire(xs[0])) + spec_packed_bytes(xs.drop_first())
    }
}

/// Reads varints until the input is used up.
pub open spec fn spec_parse_varint_list(s: Seq<u8>) -> Option<Seq<u64>>
    decreases s.len(),
{
    if s.len() == 0 {
        Some(Seq::empty())
    } else {
        match spec_parse_varint(s) {
            Some((v, n)) => if 0 < n <= s.len() {
                match spec_parse_varint_list(s.skip(n as int)) {
                    Some(rest) => Some(seq![v] + rest),
                    None => None,
                }
            } else {
                None
            },
            None => None,
        }
    }
}

/// The record a non-empty repeated `int32` field contributes (packed).
#[verifier::opaque]
pub open spec fn opt_packed_rec(field: u32, xs: Seq<i32>) -> Seq<SpecRecord> {
    if xs.len() == 0 {
        Seq::empty()
    } else {
        seq![SpecRecord { field, value: SpecWireValue::Bytes(spec_packed_bytes(xs)) }]
    }
}

pub open spec fn i32s_wire(xs: Seq<i32>) -> Seq<u64> {
    xs.map_values(|x: i32| i32_wire(x))
}

pub open spec fn wire_to_i32(vs: Seq<u64>) -> Seq<i32> {
    vs.map_values(|v: u64| v as i32)
}

/// A repeated `int32` field: the values of all its records in order, each
/// record either one varint or a packed run of varints.
pub open spec fn spec_field_packed_i32(rs: Seq<SpecRecord>, field: u32) -> Option<Seq<i32>>
    decreases rs.len(),
{
    if rs.len() == 0 {
        Some(Seq::empty())
    } else {
        match spec_field_packed_i32(rs.drop_last(), field) {
            None => None,
            Some(prev) => if rs.last().field != field {
                Some(prev)
            } else {
                match rs.last().value {
                    SpecWireValue::Varint(v) => Some(prev.push(v as i32)),
                    SpecWireValue::Bytes(b) => match spec_parse_varint_list(b) {
                        Some(vs) => Some(prev + wire_to_i32(vs)),
                        None => None,
                    },
                    _ => None,
                }
            },
        }
    }
}

proof fn lemma_varint_list_roundtrip(xs: Seq<i32>)
    ensures
        spec_parse_varint_list(spec_packed_bytes(xs)) == Some(
            i32s_wire(xs),
        ),
    decreases xs.len(),
{
    if xs.len() > 0 {
        let s = spec_packed_bytes(xs);
        let vb = spec_varint(i32_wire(xs[0]));
        let tail = spec_packed_bytes(xs.drop_first());
        lemma_parse_varint_roundtrip(i32_wire(xs[0]), tail);
        assert(s.skip(vb.len() as int) =~= tail);
        lemma_varint_list_roundtrip(xs.drop_first());
        assert(seq![i32_wire(xs[0])] + i32s_wire(xs.drop_first())
            =~= i32s_wire(xs));
    }
}

proof fn lemma_packed_no_field(rs: Seq<SpecRecord>, field: u32)
    requires
        no_field(rs, field),
    ensures
        spec_field_packed_i32(rs, field) == Some(Seq::<i32>::empty()),
    decreases rs.len(),
{
    if rs.len() > 0 {
        assert(rs.last() == rs[rs.len() - 1]);
        assert(no_field(rs.drop_last(), field)) by {
            assert forall|i: int| 0 <= i < rs.drop_last().len() implies (
            #[trigger] rs.drop_last()[i]).field != field by {
                assert(rs.drop_last()[i] == rs[i]);
            }
        }
        lemma_packed_no_field(rs.drop_last(), field);
    }
}

proof fn lemma_packed_extend(a: Seq<SpecRecord>, b: Seq<SpecRecord>, field: u32)
    requires
        no_field(b, field),
    ensures
        spec_field_packed_i32(a + b, field) == spec_field_packed_i32(a, field),
    decreases b.len(),
{
    if b.len() == 0 {
        assert(a + b =~= a);
    } else {
        assert((a + b).drop_last() =~= a + b.drop_last());
        assert((a + b).last() == b[b.len() - 1]);
        assert(no_field(b.drop_last(), field)) by {
            assert forall|i: int| 0 <= i < b.drop_last().len() implies (
            #[trigger] b.drop_last()[i]).field != field by {
                assert(b.drop_last()[i] == b[i]);
            }
        }
        lemma_packed_extend(a, b.drop_last(), field);
    }
}

/// A repeated field written by `opt_packed_rec` reads back.
pub proof fn lemma_read_packed(
    rs: Seq<SpecRecord>,
    pre: Seq<SpecRecord>,
    post: Seq<SpecRecord>,
    field: u32,
    xs: Seq<i32>,
)
    requires
        rs == pre + opt_packed_rec(field, xs) + post,
        no_field(pre, field),
        no_field(post, field),
    ensures
        spec_field_packed_i32(rs, field) == Some(xs),
{
    reveal(opt_packed_rec);
    lemma_packed_no_field(pre, field);
    lemma_packed_extend(pre + opt_packed_rec(field, xs), post, field);
    if xs.len() > 0 {
        let r = SpecRecord { field, value: SpecWireValue::Bytes(spec_packed_bytes(xs)) };
        let pr = pre + seq![r];
        assert(pr.drop_last() =~= pre);
        assert(pr.last() == r);
        lemma_varint_list_roundtrip(xs);
        assert forall|i: int| 0 <= i < xs.len() implies #[trigger] wire_to_i32(
            i32s_wire(xs),
        )[i] == xs[i] by {
            lemma_i32_wire(xs[i]);
        }
        assert(Seq::<i32>::empty() + wire_to_i32(i32s_wire(xs)) =~= xs);
    } else {
        assert(pre + opt_packed_rec(field, xs) =~= pre);
        assert(xs =~= Seq::<i32>::empty());
    }
}

pub proof fn lemma_opt_packed_wf(field: u32, xs: Seq<i32>)
    requires
        1 <= field <= max_field(),
        spec_packed_bytes(xs).len() <= u64::MAX,
    ensures
        records_wf(opt_packed_rec(field, xs)),
{
    reveal(opt_packed_rec);
}

pub proof fn lemma_opt_packed_other(field: u32, xs: Seq<i32>, other: u32)
    requires
        other != field,
    ensures
        no_field(opt_packed_rec(field, xs), other),
{
    reveal(opt_packed_rec);
}

proof fn lemma_packed_bytes_push(xs: Seq<i32>, x: i32)
    ensures
        spec_packed_bytes(xs.push(x)) == spec_packed_bytes(xs) + spec_varint(i32_wire(x)),
    decreases xs.len(),
{
    if xs.len() == 0 {
        assert(xs.push(x).drop_first() =~= Seq::<i32>::empty());
        assert(xs.push(x)[0] == x);
        assert(spec_packed_bytes(Seq::<i32>::empty()) == Seq::<u8>::empty());
        assert(spec_packed_bytes(xs) == Seq::<u8>::empty());
        assert(spec_packed_bytes(xs.push(x)) =~= spec_packed_bytes(xs) + spec_varint(
            i32_wire(x),
        ));
    } else {
        lemma_packed_bytes_push(xs.drop_first(), x);
        assert(xs.push(x).drop_first() =~= xs.drop_first().push(x));
        assert(spec_packed_bytes(xs.push(x)) =~= spec_packed_bytes(xs) + spec_varint(
            i32_wire(x),
        ));
    }
}

/// Appends the packed record of a repeated `int32` field unless it is empty.
pub fn push_packed_field(rs: &mut Vec<Record>, field: u32, xs: &[i32])
    requires
        1 <= field <= max_field(),
    ensures
        records_view(final(rs)@) == records_view(old(rs)@) + opt_packed_rec(field, xs@),
        records_wf(records_view(old(rs)@)) ==> records_wf(records_view(final(rs)@)),
{
    reveal(opt_packed_rec);
    if xs.len() == 0 {
        assert(records_view(rs@) =~= records_view(rs@) + opt_packed_rec(field, xs@));
        return;
    }
    let mut b: Vec<u8> = Vec::new();
    let mut i: usize = 0;
    while i < xs.len()
        invariant
            i <= xs@.len(),
            b@ == spec_packed_bytes(xs@.take(i as int)),
        decreases xs@.len() - i,
    {
        proof {
            lemma_packed_bytes_push(xs@.take(i as int), xs@[i as int]);
            assert(xs@.take(i + 1) =~= xs@.take(i as int).push(xs@[i as int]));
        }
        encode_varint((xs[i] as i64) as u64, &mut b);
        i = i + 1;
    }
    assert(xs@.take(xs@.len() as int) =~= xs@);
    let blen = b.len();
    assert(b@.len() <= u64::MAX);
    let ghost before = records_view(rs@);
    rs.push(Record { field, value: WireValue::Bytes(b) });
    assert(records_view(rs@) =~= before + opt_packed_rec(field, xs@));
}

/// Reads varints from `s` until it is used up.
fn parse_varint_list(s: &[u8]) -> (r: Option<Vec<u64>>)
    ensures
        r is None <==> spec_parse_varint_list(s@) is None,
        r matches Some(vs) ==> spec_parse_varint_list(s@) == Some(vs@),
{
    let mut out: Vec<u64> = Vec::new();
    let mut pos: usize = 0;
    assert(s@.skip(0) =~= s@);
    proof {
        match spec_parse_varint_list(s@) {
            Some(rest) => {
                assert(out@ + rest =~= rest);
            },
            None => {},
        }
    }
    while pos < s.len()
        invariant
            pos <= s@.len(),
            spec_parse_varint_list(s@) == match spec_parse_varint_list(s@.skip(pos as int)) {
                Some(rest) => Some(out@ + rest),
                None => None,
            },
        decreases s@.len() - pos,
    {
        let ghost t = s@.skip(pos as int);
        assert(t =~= s@.subrange(pos as int, s@.len() as int));
        match parse_varint(s, pos) {
            Some((v, n)) => {
                assert(t.skip(n as int) =~= s@.skip((pos + n) as int));
                let ghost before = out@;
                out.push(v);
                proof {
                    match spec_parse_varint_list(s@.skip((pos + n) as int)) {
                        Some(rest) => {
                            assert(before + (seq![v] + rest) =~= out@ + rest);
                        },
                        None => {},
                    }
                }
                pos = pos + n;
            },
            None => {
                return None;
            },
        }
    }
    assert(s@.skip(pos as int) =~= Seq::<u8>::empty());
    assert(out@ + Seq::<u64>::empty() =~= out@);
    Some(out)
}

/// Reads a repeated `int32` field, packed or not.
pub fn field_packed_i32(rs: &Vec<Record>, field: u32) -> (r: Option<Vec<i32>>)
    ensures
        r is None <==> spec_field_packed_i32(records_view(rs@), field) is None,
        r matches Some(xs) ==> spec_field_packed_i32(records_view(rs@), field) == Some(xs@),
{
    let ghost v = records_view(rs@);
    let mut out: Vec<i32> = Vec::new();
    let mut i: usize = 0;
    while i < rs.len()
        invariant
            i <= rs@.len(),
            v == records_view(rs@),
            spec_field_packed_i32(v.take(i as int), field) == Some(out@),
        decreases rs@.len() - i,
    {
        assert(v[i as int] == rs@[i as int]@);
        assert(v.take(i + 1).drop_last() =~= v.take(i as int));
        assert(v.take(i + 1).last() == v[i as int]);
        if rs[i].field == field {
            match &rs[i].value {
                WireValue::Varint(x) => {
                    out.push(*x as i32);
                },
                WireValue::Bytes(b) => {
                    match parse_varint_list(b.as_slice()) {
                        Some(vs) => {
                            let ghost before = out@;
                            let mut j: usize = 0;
                            while j < vs.len()
                                invariant
                                    j <= vs@.len(),
                                    out@ == before + wire_to_i32(vs@.take(j as int)),
                                decreases vs@.len() - j,
                            {
                                out.push(vs[j] as i32);
                                j = j + 1;
                                assert(out@ =~= before + wire_to_i32(vs@.take(j as int)));
                            }
                            assert(vs@.take(vs@.len() as int) =~= vs@);
                        },
                        None => {
                            proof {
                                assert forall|k: nat| i + 1 <= k <= v.len() implies spec_field_packed_i32(
                                    v.take(k as int),
                                    field,
                                ) is None by {
                                    lemma_packed_none_extends(v, (i + 1) as nat, k, field);
                                }
                                assert(v.take(v.len() as int) =~= v);
                            }
                            return None;
                        },
                    }
                },
                _ => {
                    proof {
                        assert forall|k: nat| i + 1 <= k <= v.len() implies spec_field_packed_i32(
                            v.take(k as int),
                            field,
                        ) is None by {
                            lemma_packed_none_extends(v, (i + 1) as nat, k, field);
                        }
                        assert(v.take(v.len() as int) =~= v);
                    }
                    return None;
                },
            }
        }
        i = i + 1;
    }
    assert(v.take(rs@.len() as int) =~= v);
    Some(out)
}

proof fn lemma_packed_none_extends(v: Seq<SpecRecord>, i: nat, k: nat, field: u32)
    requires
        i <= k <= v.len(),
        spec_field_packed_i32(v.take(i as int), field) is None,
    ensures
        spec_field_packed_i32(v.take(k as int), field) is None,
    decreases k - i,
{
    if k > i {
        lemma_packed_none_extends(v, i, (k - 1) as nat, field);
        assert(v.take(k as int).drop_last() =~= v.take(k - 1));
    }
}

/// Appends the record for a byte-string field unless it is empty.
pub fn push_bytes_field(rs: &mut Vec<Record>, field: u32, b: &[u8])
    requires
        1 <= field <= max_field(),
    ensures
        records_view(final(rs)@) == records_view(old(rs)@) + opt_bytes_rec(field, b@),
        records_wf(records_view(old(rs)@)) ==> records_wf(records_view(final(rs)@)),
{
    reveal(opt_bytes_rec);
    if b.len() > 0 {
        let ghost before = records_view(rs@);
        let copy = copy_range(b, 0, b.len());
        assert(copy@ =~= b@);
        rs.push(Record { field, value: WireValue::Bytes(copy) });
        assert(records_view(rs@) =~= before + opt_bytes_rec(field, b@));
    } else {
        assert(records_view(rs@) =~= records_view(rs@) + opt_bytes_rec(field, b@));
    }
}

/// Appends the record for a varint field unless it is zero.
pub fn push_varint_field(rs: &mut Vec<Record>, field: u32, x: u64)
    requires
        1 <= field <= max_field(),
    ensures
        records_view(final(rs)@) == records_view(old(rs)@) + opt_varint_rec(field, x),
        records_wf(records_view(old(rs)@)) ==> records_wf(records_view(final(rs)@)),
{
    reveal(opt_varint_rec);
    if x != 0 {
        let ghost before = records_view(rs@);
        rs.push(Record { field, value: WireValue::Varint(x) });
        assert(records_view(rs@) =~= before + opt_varint_rec(field, x));
    } else {
        assert(records_view(rs@) =~= records_view(rs@) + opt_varint_rec(field, x));
    }
}

/// Appends the record for a string field unless it is empty.
pub fn push_string_field(rs: &mut Vec<Record>, field: u32, s: &str)
    requires
        1 <= field <= max_field(),
    ensures
        records_view(final(rs)@) == records_view(old(rs)@) + opt_string_rec(field, s@),
        records_wf(records_view(old(rs)@)) ==> records_wf(records_view(final(rs)@)),
{
    push_bytes_field(rs, field, s.as_bytes());
}

/// Appends the record for an `int32` field unless it is zero.
pub fn push_i32_field(rs: &mut Vec<Record>, field: u32, x: i32)
    requires
        1 <= field <= max_field(),
    ensures
        records_view(final(rs)@) == records_view(old(rs)@) + opt_i32_rec(field, x),
        records_wf(records_view(old(rs)@)) ==> records_wf(records_view(final(rs)@)),
{
    push_varint_field(rs, field, (x as i64) as u64);
}

} // verus!
