//! Two field shapes beyond single values: a group of fields of which at
//! most one is set (a `oneof`, each member a length-delimited message), and
//! a repeated length-delimited field.
use crate::fields::{no_field, opt_bytes_rec, opt_varint_rec};
use crate::wire::{max_field, record_wf, records_view, records_wf, Record, SpecRecord, SpecWireValue, WireValue};
use vstd::prelude::*;

verus! {

/// Whether `f` is one of the fields `lo..=hi`.
pub open spec fn in_group(f: u32, lo: u32, hi: u32) -> bool {
    lo <= f && f <= hi
}

/// The last record of `rs` whose field is in the group.
pub open spec fn spec_last_in_group(rs: Seq<SpecRecord>, lo: u32, hi: u32) -> Option<SpecRecord>
    decreases rs.len(),
{
    if rs.len() == 0 {
        None
    } else if in_group(rs.last().field, lo, hi) {
        Some(rs.last())
    } else {
        spec_last_in_group(rs.drop_last(), lo, hi)
    }
}

/// Every record of the group is length-delimited.
pub open spec fn group_records_are_bytes(rs: Seq<SpecRecord>, lo: u32, hi: u32) -> bool {
    forall|i: int| 0 <= i < rs.len() && in_group((#[trigger] rs[i]).field, lo, hi) ==> rs[i].value is Bytes
}

/// No record of `rs` is in the group.
pub open spec fn no_group(rs: Seq<SpecRecord>, lo: u32, hi: u32) -> bool {
    forall|i: int| 0 <= i < rs.len() ==> !in_group((#[trigger] rs[i]).field, lo, hi)
}

/// A `oneof` over the fields `lo..=hi`: the field and bytes of the last
/// record of the group wins; no record of the group means none is set; a
/// record of the group that is not length-delimited is an error.
pub open spec fn spec_field_oneof(rs: Seq<SpecRecord>, lo: u32, hi: u32) -> Option<Option<(u32, Seq<u8>)>> {
    if group_records_are_bytes(rs, lo, hi) {
        match spec_last_in_group(rs, lo, hi) {
            None => Some(None),
            Some(r) => match r.value {
                SpecWireValue::Bytes(b) => Some(Some((r.field, b))),
                _ => None,
            },
        }
    } else {
        None
    }
}

/// The record a set member contributes (even an empty message is written,
/// so that which member is set survives).
pub open spec fn oneof_rec(c: Option<(u32, Seq<u8>)>) -> Seq<SpecRecord> {
    match c {
        None => Seq::empty(),
        Some((f, b)) => seq![SpecRecord { field: f, value: SpecWireValue::Bytes(b) }],
    }
}

/// The value of an optional member read from records.
pub open spec fn oneof_view(o: Option<(u32, Vec<u8>)>) -> Option<(u32, Seq<u8>)> {
    match o {
        Some((f, b)) => Some((f, b@)),
        None => None,
    }
}

proof fn lemma_last_in_group_concat(a: Seq<SpecRecord>, b: Seq<SpecRecord>, lo: u32, hi: u32)
    ensures
        spec_last_in_group(a + b, lo, hi) == if spec_last_in_group(b, lo, hi) is Some {
            spec_last_in_group(b, lo, hi)
        } else {
            spec_last_in_group(a, lo, hi)
        },
    decreases b.len(),
{
    if b.len() == 0 {
        assert(a + b =~= a);
    } else {
        assert((a + b).drop_last() =~= a + b.drop_last());
        assert((a + b).last() == b.last());
        lemma_last_in_group_concat(a, b.drop_last(), lo, hi);
    }
}

proof fn lemma_last_in_group_none(rs: Seq<SpecRecord>, lo: u32, hi: u32)
    requires
        no_group(rs, lo, hi),
    ensures
        spec_last_in_group(rs, lo, hi) is None,
    decreases rs.len(),
{
    if rs.len() > 0 {
        assert(rs.last() == rs[rs.len() - 1]);
        assert(no_group(rs.drop_last(), lo, hi)) by {
            assert forall|i: int| 0 <= i < rs.drop_last().len() implies !in_group(
                (#[trigger] rs.drop_last()[i]).field,
                lo,
                hi,
            ) by {
                assert(rs.drop_last()[i] == rs[i]);
            }
        }
        lemma_last_in_group_none(rs.drop_last(), lo, hi);
    }
}

pub proof fn lemma_no_group_concat(a: Seq<SpecRecord>, b: Seq<SpecRecord>, lo: u32, hi: u32)
    requires
        no_group(a, lo, hi),
        no_group(b, lo, hi),
    ensures
        no_group(a + b, lo, hi),
{
    assert forall|i: int| 0 <= i < (a + b).len() implies !in_group((#[trigger] (a + b)[i]).field, lo, hi) by {
        if i < a.len() {
            assert((a + b)[i] == a[i]);
        } else {
            assert((a + b)[i] == b[i - a.len()]);
        }
    }
}

pub proof fn lemma_no_group_bytes(field: u32, b: Seq<u8>, lo: u32, hi: u32)
    requires
        !in_group(field, lo, hi),
    ensures
        no_group(opt_bytes_rec(field, b), lo, hi),
{
    reveal(opt_bytes_rec);
}

pub proof fn lemma_no_group_varint(field: u32, x: u64, lo: u32, hi: u32)
    requires
        !in_group(field, lo, hi),
    ensures
        no_group(opt_varint_rec(field, x), lo, hi),
{
    reveal(opt_varint_rec);
}

/// A member's record holds no field outside the group.
pub proof fn lemma_oneof_other(c: Option<(u32, Seq<u8>)>, lo: u32, hi: u32, other: u32)
    requires
        !in_group(other, lo, hi),
        c matches Some((f, _)) ==> in_group(f, lo, hi),
    ensures
        no_field(oneof_rec(c), other),
{
    match c {
        Some((f, b)) => {
            assert(oneof_rec(c)[0].field == f);
        },
        None => {},
    }
}

pub proof fn lemma_oneof_wf(c: Option<(u32, Seq<u8>)>)
    requires
        c matches Some((f, b)) ==> 1 <= f <= max_field() && b.len() <= u64::MAX,
    ensures
        records_wf(oneof_rec(c)),
{
    match c {
        Some((f, b)) => {
            assert(record_wf(oneof_rec(c)[0]));
        },
        None => {},
    }
}

/// A member written by `oneof_rec` between records outside the group reads
/// back.
pub proof fn lemma_read_oneof(
    rs: Seq<SpecRecord>,
    pre: Seq<SpecRecord>,
    post: Seq<SpecRecord>,
    lo: u32,
    hi: u32,
    c: Option<(u32, Seq<u8>)>,
)
    requires
        rs == pre + oneof_rec(c) + post,
        no_group(pre, lo, hi),
        no_group(post, lo, hi),
        c matches Some((f, _)) ==> in_group(f, lo, hi),
    ensures
        spec_field_oneof(rs, lo, hi) == Some(c),
{
    let o = oneof_rec(c);
    lemma_last_in_group_none(pre, lo, hi);
    lemma_last_in_group_none(post, lo, hi);
    lemma_last_in_group_concat(pre, o, lo, hi);
    lemma_last_in_group_concat(pre + o, post, lo, hi);
    assert(group_records_are_bytes(rs, lo, hi)) by {
        assert forall|i: int| 0 <= i < rs.len() && in_group((#[trigger] rs[i]).field, lo, hi) implies rs[i].value is Bytes by {
            if i < pre.len() {
                assert(rs[i] == pre[i]);
            } else if i < pre.len() + o.len() {
                assert(rs[i] == o[i - pre.len()]);
            } else {
                assert(rs[i] == post[i - pre.len() - o.len()]);
            }
        }
    }
    match c {
        None => {
            lemma_no_group_concat(pre, post, lo, hi);
            assert(rs =~= pre + post);
            lemma_last_in_group_none(rs, lo, hi);
        },
        Some((f, b)) => {
            assert(o.last() == o[0]);
            assert(o.drop_last() =~= Seq::<SpecRecord>::empty());
            assert(spec_last_in_group(o, lo, hi) == Some(o[0]));
        },
    }
}

/// Reads a `oneof` over the fields `lo..=hi`.
pub fn field_oneof(rs: &Vec<Record>, lo: u32, hi: u32) -> (r: Option<Option<(u32, Vec<u8>)>>)
    ensures
        r is None <==> spec_field_oneof(records_view(rs@), lo, hi) is None,
        r matches Some(o) ==> spec_field_oneof(records_view(rs@), lo, hi) == Some(oneof_view(o)),
{
    let ghost v = records_view(rs@);
    let mut last: Option<usize> = None;
    let mut i: usize = 0;
    while i < rs.len()
        invariant
            i <= rs@.len(),
            v == records_view(rs@),
            group_records_are_bytes(v.take(i as int), lo, hi),
            last matches Some(j) ==> j < i && in_group(v[j as int].field, lo, hi) && spec_last_in_group(
                v.take(i as int),
                lo,
                hi,
            ) == Some(v[j as int]),
            last is None ==> spec_last_in_group(v.take(i as int), lo, hi) is None,
        decreases rs@.len() - i,
    {
        assert(v[i as int] == rs@[i as int]@);
        assert(v.take(i + 1).drop_last() =~= v.take(i as int));
        assert(v.take(i + 1).last() == v[i as int]);
        let f = rs[i].field;
        if lo <= f && f <= hi {
            match &rs[i].value {
                WireValue::Bytes(_) => {
                    last = Some(i);
                },
                _ => {
                    proof {
                        assert(!group_records_are_bytes(v, lo, hi)) by {
                            assert(in_group(v[i as int].field, lo, hi));
                            assert(!(v[i as int].value is Bytes));
                        }
                    }
                    return None;
                },
            }
        }
        assert forall|k: int|
            0 <= k < v.take(i + 1).len() && in_group((#[trigger] v.take(i + 1)[k]).field, lo, hi) implies v.take(
                i + 1,
            )[k].value is Bytes by {
            if k < i {
                assert(v.take(i + 1)[k] == v.take(i as int)[k]);
            }
        }
        i = i + 1;
    }
    assert(v.take(rs@.len() as int) =~= v);
    match last {
        Some(j) => {
            assert(v[j as int] == rs@[j as int]@);
            match &rs[j].value {
                WireValue::Bytes(b) => {
                    let copy = crate::wire::copy_range(b.as_slice(), 0, b.len());
                    assert(copy@ =~= b@);
                    Some(Some((rs[j].field, copy)))
                },
                _ => None,
            }
        },
        None => Some(None),
    }
}

/// Appends the record of the set member `field` with its encoding.
pub fn push_oneof_field(rs: &mut Vec<Record>, field: u32, bytes: Vec<u8>)
    requires
        1 <= field <= max_field(),
    ensures
        records_view(final(rs)@) == records_view(old(rs)@) + oneof_rec(Some((field, bytes@))),
        records_wf(records_view(old(rs)@)) ==> records_wf(records_view(final(rs)@)),
{
    let ghost before = records_view(rs@);
    let ghost b = bytes@;
    let n = bytes.len();
    assert(bytes@.len() == n as int);
    rs.push(Record { field, value: WireValue::Bytes(bytes) });
    assert(records_view(rs@) =~= before + oneof_rec(Some((field, b))));
    assert(records_wf(before) ==> records_wf(records_view(rs@))) by {
        if records_wf(before) {
            assert forall|i: int| 0 <= i < records_view(rs@).len() implies record_wf(
                #[trigger] records_view(rs@)[i],
            ) by {
                if i < before.len() {
                    assert(records_view(rs@)[i] == before[i]);
                }
            }
        }
    }
}

/// All the records of `field`, in order, as their bytes; `None` when one of
/// them is not length-delimited.
pub open spec fn spec_field_repeated(rs: Seq<SpecRecord>, field: u32) -> Option<Seq<Seq<u8>>>
    decreases rs.len(),
{
    if rs.len() == 0 {
        Some(Seq::empty())
    } else {
        match spec_field_repeated(rs.drop_last(), field) {
            None => None,
            Some(p) => if rs.last().field == field {
                match rs.last().value {
                    SpecWireValue::Bytes(b) => Some(p.push(b)),
                    _ => None,
                }
            } else {
                Some(p)
            },
        }
    }
}

/// One record of `field` per item, in order (an empty item is written too).
pub open spec fn repeated_rec(field: u32, items: Seq<Seq<u8>>) -> Seq<SpecRecord> {
    Seq::new(items.len(), |i: int| SpecRecord { field, value: SpecWireValue::Bytes(items[i]) })
}

proof fn lemma_repeated_concat(a: Seq<SpecRecord>, b: Seq<SpecRecord>, field: u32)
    ensures
        spec_field_repeated(a + b, field) == match (spec_field_repeated(a, field), spec_field_repeated(b, field)) {
            (Some(x), Some(y)) => Some(x + y),
            _ => None::<Seq<Seq<u8>>>,
        },
    decreases b.len(),
{
    if b.len() == 0 {
        assert(a + b =~= a);
        match spec_field_repeated(a, field) {
            Some(x) => {
                assert(x + Seq::<Seq<u8>>::empty() =~= x);
            },
            None => {},
        }
    } else {
        assert((a + b).drop_last() =~= a + b.drop_last());
        assert((a + b).last() == b.last());
        lemma_repeated_concat(a, b.drop_last(), field);
        match (spec_field_repeated(a, field), spec_field_repeated(b.drop_last(), field)) {
            (Some(x), Some(y)) => {
                match b.last().value {
                    SpecWireValue::Bytes(v) => {
                        assert((x + y).push(v) =~= x + y.push(v));
                    },
                    _ => {},
                }
            },
            _ => {},
        }
    }
}

proof fn lemma_repeated_absent(rs: Seq<SpecRecord>, field: u32)
    requires
        no_field(rs, field),
    ensures
        spec_field_repeated(rs, field) == Some(Seq::<Seq<u8>>::empty()),
    decreases rs.len(),
{
    if rs.len() > 0 {
        assert(rs.last() == rs[rs.len() - 1]);
        assert(no_field(rs.drop_last(), field)) by {
            assert forall|i: int| 0 <= i < rs.drop_last().len() implies (#[trigger] rs.drop_last()[i]).field
                != field by {
                assert(rs.drop_last()[i] == rs[i]);
            }
        }
        lemma_repeated_absent(rs.drop_last(), field);
    }
}

proof fn lemma_repeated_items(field: u32, items: Seq<Seq<u8>>)
    ensures
        spec_field_repeated(repeated_rec(field, items), field) == Some(items),
    decreases items.len(),
{
    let rs = repeated_rec(field, items);
    if items.len() == 0 {
        assert(items =~= Seq::<Seq<u8>>::empty());
    } else {
        assert(rs.drop_last() =~= repeated_rec(field, items.drop_last()));
        lemma_repeated_items(field, items.drop_last());
        assert(rs.last() == SpecRecord { field, value: SpecWireValue::Bytes(items.last()) });
        assert(items.drop_last().push(items.last()) =~= items);
    }
}

/// The items of a repeated field written by `repeated_rec` between records
/// of other fields read back.
pub proof fn lemma_read_repeated(
    rs: Seq<SpecRecord>,
    pre: Seq<SpecRecord>,
    post: Seq<SpecRecord>,
    field: u32,
    items: Seq<Seq<u8>>,
)
    requires
        rs == pre + repeated_rec(field, items) + post,
        no_field(pre, field),
        no_field(post, field),
    ensures
        spec_field_repeated(rs, field) == Some(items),
{
    lemma_repeated_absent(pre, field);
    lemma_repeated_absent(post, field);
    lemma_repeated_items(field, items);
    lemma_repeated_concat(pre, repeated_rec(field, items), field);
    lemma_repeated_concat(pre + repeated_rec(field, items), post, field);
    assert(Seq::<Seq<u8>>::empty() + items =~= items);
    assert(items + Seq::<Seq<u8>>::empty() =~= items);
}

pub proof fn lemma_repeated_other(field: u32, items: Seq<Seq<u8>>, other: u32)
    requires
        other != field,
    ensures
        no_field(repeated_rec(field, items), other),
{
}

pub proof fn lemma_repeated_wf(field: u32, items: Seq<Seq<u8>>)
    requires
        1 <= field <= max_field(),
        forall|i: int| 0 <= i < items.len() ==> (#[trigger] items[i]).len() <= u64::MAX,
    ensures
        records_wf(repeated_rec(field, items)),
{
    assert forall|i: int| 0 <= i < repeated_rec(field, items).len() implies record_wf(
        #[trigger] repeated_rec(field, items)[i],
    ) by {
        assert(items[i].len() <= u64::MAX);
    }
}

/// The bytes of each vector.
pub open spec fn bytes_views(v: Seq<Vec<u8>>) -> Seq<Seq<u8>> {
    v.map_values(|b: Vec<u8>| b@)
}

/// Reads every record of `field`.
pub fn field_repeated(rs: &Vec<Record>, field: u32) -> (r: Option<Vec<Vec<u8>>>)
    ensures
        r is None <==> spec_field_repeated(records_view(rs@), field) is None,
        r matches Some(items) ==> spec_field_repeated(records_view(rs@), field) == Some(bytes_views(items@)),
{
    let ghost v = records_view(rs@);
    let mut out: Vec<Vec<u8>> = Vec::new();
    let mut i: usize = 0;
    assert(v.take(0) =~= Seq::<SpecRecord>::empty());
    assert(bytes_views(out@) =~= Seq::<Seq<u8>>::empty());
    while i < rs.len()
        invariant
            i <= rs@.len(),
            v == records_view(rs@),
            spec_field_repeated(v.take(i as int), field) == Some(bytes_views(out@)),
        decreases rs@.len() - i,
    {
        assert(v[i as int] == rs@[i as int]@);
        assert(v.take(i + 1).drop_last() =~= v.take(i as int));
        assert(v.take(i + 1).last() == v[i as int]);
        if rs[i].field == field {
            match &rs[i].value {
                WireValue::Bytes(b) => {
                    let copy = crate::wire::copy_range(b.as_slice(), 0, b.len());
                    assert(copy@ =~= b@);
                    let ghost before = out@;
                    out.push(copy);
                    assert(bytes_views(out@) =~= bytes_views(before).push(b@));
                },
                _ => {
                    proof {
                        lemma_repeated_none_extends(v, (i + 1) as nat, rs@.len() as nat, field);
                        assert(v.take(rs@.len() as int) =~= v);
                    }
                    return None;
                },
            }
        }
        i = i + 1;
    }
    assert(v.take(rs@.len() as int) =~= v);
    Some(out)
}

proof fn lemma_repeated_none_extends(v: Seq<SpecRecord>, i: nat, k: nat, field: u32)
    requires
        i <= k <= v.len(),
        spec_field_repeated(v.take(i as int), field) is None,
    ensures
        spec_field_repeated(v.take(k as int), field) is None,
    decreases k - i,
{
    if k > i {
        lemma_repeated_none_extends(v, i, (k - 1) as nat, field);
        assert(v.take(k as int).drop_last() =~= v.take(k - 1));
    }
}

/// Appends one record of `field` holding `bytes`.
pub fn push_repeated_item(rs: &mut Vec<Record>, field: u32, bytes: Vec<u8>)
    requires
        1 <= field <= max_field(),
    ensures
        records_view(final(rs)@) == records_view(old(rs)@) + repeated_rec(field, seq![bytes@]),
        records_wf(records_view(old(rs)@)) ==> records_wf(records_view(final(rs)@)),
{
    let ghost b = bytes@;
    push_oneof_field(rs, field, bytes);
    assert(oneof_rec(Some((field, b))) =~= repeated_rec(field, seq![b]));
}

/// Appending the records of one more item extends the repeated field.
pub proof fn lemma_repeated_push(field: u32, items: Seq<Seq<u8>>, b: Seq<u8>)
    ensures
        repeated_rec(field, items) + repeated_rec(field, seq![b]) == repeated_rec(field, items.push(b)),
{
    assert(repeated_rec(field, items) + repeated_rec(field, seq![b]) =~= repeated_rec(field, items.push(b)));
}

} // verus!
