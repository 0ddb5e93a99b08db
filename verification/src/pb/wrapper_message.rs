//! The payload of a wrapper message: exactly one of the authentication
//! messages, carried in the field that names its kind.
use crate::pb::{
    lemma_auth_cancel_roundtrip, lemma_auth_denial_roundtrip, lemma_auth_grant_roundtrip,
    lemma_auth_request_roundtrip, lemma_grant_confirmation_roundtrip, auth_cancel_wf,
    auth_denial_wf, auth_grant_wf, auth_request_wf, grant_confirmation_wf, spec_decode_auth_cancel,
    spec_decode_auth_denial, spec_decode_auth_grant, spec_decode_auth_request,
    spec_decode_grant_confirmation, spec_encode_auth_cancel, spec_encode_auth_denial,
    spec_encode_auth_grant, spec_encode_auth_request, spec_encode_grant_confirmation,
    AuthenticationCancel, AuthenticationCancelView, AuthenticationDenial, AuthenticationDenialView,
    AuthenticationGrant, AuthenticationGrantView, AuthenticationRequest, AuthenticationRequestView,
    DecodeError, GrantConfirmation, GrantConfirmationView,
};
use crate::fields::{
    field_i32, field_u32, field_bytes, i32_wire, lemma_no_field_concat, lemma_opt_bytes_other,
    lemma_opt_bytes_wf, lemma_opt_varint_other, lemma_opt_varint_wf, lemma_read_bytes,
    lemma_read_i32, lemma_read_varint, no_field, opt_bytes_rec, opt_i32_rec, opt_varint_rec,
    push_bytes_field, push_i32_field, push_varint_field, spec_field_bytes, spec_field_i32,
    spec_field_u32,
};
use crate::wire::{
    copy_range, encode_records, lemma_parse_records_roundtrip, lemma_records_wf_concat,
    parse_records, records_view, records_wf, spec_parse_records, spec_records_bytes, Record,
    SpecRecord, SpecWireValue, WireValue,
};
use vstd::prelude::*;

verus! {

/// The message a wrapper carries.
#[derive(Clone, Debug, PartialEq, Eq)]
pub enum Payload {
    AuthRequest(AuthenticationRequest),
    AuthGrant(AuthenticationGrant),
    AuthDenial(AuthenticationDenial),
    GrantConfirmation(GrantConfirmation),
    AuthCancel(AuthenticationCancel),
}

/// The value of a [`Payload`].
pub enum PayloadView {
    AuthRequest(AuthenticationRequestView),
    AuthGrant(AuthenticationGrantView),
    AuthDenial(AuthenticationDenialView),
    GrantConfirmation(GrantConfirmationView),
    AuthCancel(AuthenticationCancelView),
}

impl View for Payload {
    type V = PayloadView;

    open spec fn view(&self) -> PayloadView {
        match self {
            Payload::AuthRequest(m) => PayloadView::AuthRequest(m@),
            Payload::AuthGrant(m) => PayloadView::AuthGrant(m@),
            Payload::AuthDenial(m) => PayloadView::AuthDenial(m@),
            Payload::GrantConfirmation(m) => PayloadView::GrantConfirmation(m@),
            Payload::AuthCancel(m) => PayloadView::AuthCancel(m@),
        }
    }
}

/// The wrapper field that carries each kind of payload.
pub open spec fn payload_field(p: PayloadView) -> u32 {
    match p {
        PayloadView::AuthRequest(_) => 4,
        PayloadView::AuthGrant(_) => 5,
        PayloadView::AuthDenial(_) => 6,
        PayloadView::GrantConfirmation(_) => 7,
        PayloadView::AuthCancel(_) => 8,
    }
}

/// The fields of a wrapper that carry a payload.
pub open spec fn is_payload_field(f: u32) -> bool {
    4 <= f <= 8
}

/// The encoding of the message a payload holds.
pub open spec fn spec_encode_payload(p: PayloadView) -> Seq<u8> {
    match p {
        PayloadView::AuthRequest(m) => spec_encode_auth_request(m),
        PayloadView::AuthGrant(m) => spec_encode_auth_grant(m),
        PayloadView::AuthDenial(m) => spec_encode_auth_denial(m),
        PayloadView::GrantConfirmation(m) => spec_encode_grant_confirmation(m),
        PayloadView::AuthCancel(m) => spec_encode_auth_cancel(m),
    }
}

/// The payload that the bytes of wrapper field `field` encode.
pub open spec fn spec_decode_payload(field: u32, b: Seq<u8>) -> Option<PayloadView> {
    if field == 4 {
        match spec_decode_auth_request(b) {
            Some(m) => Some(PayloadView::AuthRequest(m)),
            None => None,
        }
    } else if field == 5 {
        match spec_decode_auth_grant(b) {
            Some(m) => Some(PayloadView::AuthGrant(m)),
            None => None,
        }
    } else if field == 6 {
        match spec_decode_auth_denial(b) {
            Some(m) => Some(PayloadView::AuthDenial(m)),
            None => None,
        }
    } else if field == 7 {
        match spec_decode_grant_confirmation(b) {
            Some(m) => Some(PayloadView::GrantConfirmation(m)),
            None => None,
        }
    } else if field == 8 {
        match spec_decode_auth_cancel(b) {
            Some(m) => Some(PayloadView::AuthCancel(m)),
            None => None,
        }
    } else {
        None
    }
}

/// Every byte string of the payload has a length that fits the format.
pub open spec fn payload_wf(p: PayloadView) -> bool {
    match p {
        PayloadView::AuthRequest(m) => auth_request_wf(m),
        PayloadView::AuthGrant(m) => auth_grant_wf(m),
        PayloadView::AuthDenial(m) => auth_denial_wf(m),
        PayloadView::GrantConfirmation(m) => grant_confirmation_wf(m),
        PayloadView::AuthCancel(m) => auth_cancel_wf(m),
    }
}

/// Decoding a payload's encoding from its own field gives it back.
pub proof fn lemma_payload_roundtrip(p: PayloadView)
    requires
        payload_wf(p),
    ensures
        spec_decode_payload(payload_field(p), spec_encode_payload(p)) == Some(p),
{
    match p {
        PayloadView::AuthRequest(m) => lemma_auth_request_roundtrip(m),
        PayloadView::AuthGrant(m) => lemma_auth_grant_roundtrip(m),
        PayloadView::AuthDenial(m) => lemma_auth_denial_roundtrip(m),
        PayloadView::GrantConfirmation(m) => lemma_grant_confirmation_roundtrip(m),
        PayloadView::AuthCancel(m) => lemma_auth_cancel_roundtrip(m),
    }
}

impl Payload {
    /// The wrapper field that carries this payload.
    pub fn field_number(&self) -> (r: u32)
        ensures
            r == payload_field(self@),
    {
        match self {
            Payload::AuthRequest(_) => 4,
            Payload::AuthGrant(_) => 5,
            Payload::AuthDenial(_) => 6,
            Payload::GrantConfirmation(_) => 7,
            Payload::AuthCancel(_) => 8,
        }
    }

    /// The encoding of the message the payload holds.
    pub fn encode_to_vec(&self) -> (r: Vec<u8>)
        ensures
            r@ == spec_encode_payload(self@),
    {
        match self {
            Payload::AuthRequest(m) => m.encode_to_vec(),
            Payload::AuthGrant(m) => m.encode_to_vec(),
            Payload::AuthDenial(m) => m.encode_to_vec(),
            Payload::GrantConfirmation(m) => m.encode_to_vec(),
            Payload::AuthCancel(m) => m.encode_to_vec(),
        }
    }

    /// Decodes the bytes of wrapper field `field` as the payload that field
    /// carries.
    pub fn decode(field: u32, buf: &[u8]) -> (r: Result<Payload, DecodeError>)
        ensures
            r is Ok <==> spec_decode_payload(field, buf@) is Some,
            r matches Ok(p) ==> spec_decode_payload(field, buf@) == Some(p@),
    {
        if field == 4 {
            match AuthenticationRequest::decode(buf) {
                Ok(m) => Ok(Payload::AuthRequest(m)),
                Err(e) => Err(e),
            }
        } else if field == 5 {
            match AuthenticationGrant::decode(buf) {
                Ok(m) => Ok(Payload::AuthGrant(m)),
                Err(e) => Err(e),
            }
        } else if field == 6 {
            match AuthenticationDenial::decode(buf) {
                Ok(m) => Ok(Payload::AuthDenial(m)),
                Err(e) => Err(e),
            }
        } else if field == 7 {
            match GrantConfirmation::decode(buf) {
                Ok(m) => Ok(Payload::GrantConfirmation(m)),
                Err(e) => Err(e),
            }
        } else if field == 8 {
            match AuthenticationCancel::decode(buf) {
                Ok(m) => Ok(Payload::AuthCancel(m)),
                Err(e) => Err(e),
            }
        } else {
            Err(DecodeError)
        }
    }
}


/// The value of an optional payload.
pub open spec fn opt_payload_view(o: Option<Payload>) -> Option<PayloadView> {
    match o {
        Some(p) => Some(p@),
        None => None,
    }
}

/// The last record of `rs` whose field carries a payload.
pub open spec fn spec_last_payload(rs: Seq<SpecRecord>) -> Option<SpecRecord>
    decreases rs.len(),
{
    if rs.len() == 0 {
        None
    } else if is_payload_field(rs.last().field) {
        Some(rs.last())
    } else {
        spec_last_payload(rs.drop_last())
    }
}

/// Every payload record of `rs` is length-delimited.
pub open spec fn payload_records_are_bytes(rs: Seq<SpecRecord>) -> bool {
    forall|i: int|
        0 <= i < rs.len() && is_payload_field((#[trigger] rs[i]).field) ==> rs[i].value is Bytes
}

/// No record of `rs` carries a payload.
pub open spec fn no_payload(rs: Seq<SpecRecord>) -> bool {
    forall|i: int| 0 <= i < rs.len() ==> !is_payload_field((#[trigger] rs[i]).field)
}

/// The payload field of a wrapper: the last payload record wins; no payload
/// record means no payload; a payload record that is not length-delimited,
/// or whose bytes do not decode as the message its field names, is an error.
pub open spec fn spec_field_payload(rs: Seq<SpecRecord>) -> Option<Option<PayloadView>> {
    if payload_records_are_bytes(rs) {
        match spec_last_payload(rs) {
            None => Some(None),
            Some(r) => match r.value {
                SpecWireValue::Bytes(b) => match spec_decode_payload(r.field, b) {
                    Some(p) => Some(Some(p)),
                    None => None,
                },
                _ => None,
            },
        }
    } else {
        None
    }
}

/// The record an optional payload contributes (an empty message is still
/// written, so that its presence survives).
pub open spec fn opt_payload_rec(p: Option<PayloadView>) -> Seq<SpecRecord> {
    match p {
        None => Seq::empty(),
        Some(p) => seq![
            SpecRecord { field: payload_field(p), value: SpecWireValue::Bytes(spec_encode_payload(p)) },
        ],
    }
}

proof fn lemma_last_payload_concat(a: Seq<SpecRecord>, b: Seq<SpecRecord>)
    ensures
        spec_last_payload(a + b) == if spec_last_payload(b) is Some {
            spec_last_payload(b)
        } else {
            spec_last_payload(a)
        },
    decreases b.len(),
{
    if b.len() == 0 {
        assert(a + b =~= a);
    } else {
        assert((a + b).drop_last() =~= a + b.drop_last());
        assert((a + b).last() == b.last());
        lemma_last_payload_concat(a, b.drop_last());
    }
}

proof fn lemma_last_payload_none(rs: Seq<SpecRecord>)
    requires
        no_payload(rs),
    ensures
        spec_last_payload(rs) is None,
    decreases rs.len(),
{
    if rs.len() > 0 {
        assert(rs.last() == rs[rs.len() - 1]);
        assert(no_payload(rs.drop_last())) by {
            assert forall|i: int| 0 <= i < rs.drop_last().len() implies !is_payload_field(
                (#[trigger] rs.drop_last()[i]).field,
            ) by {
                assert(rs.drop_last()[i] == rs[i]);
            }
        }
        lemma_last_payload_none(rs.drop_last());
    }
}

proof fn lemma_no_payload_concat(a: Seq<SpecRecord>, b: Seq<SpecRecord>)
    requires
        no_payload(a),
        no_payload(b),
    ensures
        no_payload(a + b),
{
    assert forall|i: int| 0 <= i < (a + b).len() implies !is_payload_field(
        (#[trigger] (a + b)[i]).field,
    ) by {
        if i < a.len() {
            assert((a + b)[i] == a[i]);
        } else {
            assert((a + b)[i] == b[i - a.len()]);
        }
    }
}

proof fn lemma_no_payload_bytes(field: u32, b: Seq<u8>)
    requires
        !is_payload_field(field),
    ensures
        no_payload(opt_bytes_rec(field, b)),
{
    reveal(opt_bytes_rec);
}

proof fn lemma_no_payload_varint(field: u32, x: u64)
    requires
        !is_payload_field(field),
    ensures
        no_payload(opt_varint_rec(field, x)),
{
    reveal(opt_varint_rec);
}

/// A payload written by `opt_payload_rec` between records that carry no
/// payload reads back.
proof fn lemma_read_payload(
    rs: Seq<SpecRecord>,
    pre: Seq<SpecRecord>,
    post: Seq<SpecRecord>,
    p: Option<PayloadView>,
)
    requires
        rs == pre + opt_payload_rec(p) + post,
        no_payload(pre),
        no_payload(post),
        p matches Some(q) ==> payload_wf(q),
    ensures
        spec_field_payload(rs) == Some(p),
{
    let o = opt_payload_rec(p);
    lemma_last_payload_none(pre);
    lemma_last_payload_none(post);
    lemma_last_payload_concat(pre, o);
    lemma_last_payload_concat(pre + o, post);
    assert(payload_records_are_bytes(rs)) by {
        assert forall|i: int|
            0 <= i < rs.len() && is_payload_field(
                (#[trigger] rs[i]).field,
            ) implies rs[i].value is Bytes by {
            if i < pre.len() {
                assert(rs[i] == pre[i]);
            } else if i < pre.len() + o.len() {
                assert(rs[i] == o[i - pre.len()]);
            } else {
                assert(rs[i] == post[i - pre.len() - o.len()]);
            }
        }
    }
    match p {
        None => {
            lemma_no_payload_concat(pre, post);
            assert(rs =~= pre + post);
            lemma_last_payload_none(rs);
        },
        Some(q) => {
            assert(o.last() == o[0]);
            assert(spec_last_payload(o) == Some(o[0]));
            lemma_payload_roundtrip(q);
        },
    }
}

/// Reads the payload of a wrapper from its records.
pub fn field_payload(rs: &Vec<Record>) -> (r: Option<Option<Payload>>)
    ensures
        r is None <==> spec_field_payload(records_view(rs@)) is None,
        r matches Some(o) ==> spec_field_payload(records_view(rs@)) == Some(opt_payload_view(o)),
{
    let ghost v = records_view(rs@);
    let mut last: Option<usize> = None;
    let mut i: usize = 0;
    while i < rs.len()
        invariant
            i <= rs@.len(),
            v == records_view(rs@),
            payload_records_are_bytes(v.take(i as int)),
            last matches Some(j) ==> j < i && is_payload_field(v[j as int].field)
                && spec_last_payload(v.take(i as int)) == Some(v[j as int]),
            last is None ==> spec_last_payload(v.take(i as int)) is None,
        decreases rs@.len() - i,
    {
        assert(v[i as int] == rs@[i as int]@);
        assert(v.take(i + 1).drop_last() =~= v.take(i as int));
        assert(v.take(i + 1).last() == v[i as int]);
        let f = rs[i].field;
        if 4 <= f && f <= 8 {
            match &rs[i].value {
                WireValue::Bytes(_) => {
                    last = Some(i);
                },
                _ => {
                    proof {
                        assert(!payload_records_are_bytes(v)) by {
                            assert(is_payload_field(v[i as int].field));
                            assert(!(v[i as int].value is Bytes));
                        }
                    }
                    return None;
                },
            }
        }
        assert forall|k: int|
            0 <= k < v.take(i + 1).len() && is_payload_field(
                (#[trigger] v.take(i + 1)[k]).field,
            ) implies v.take(i + 1)[k].value is Bytes by {
            if k < i {
                assert(v.take(i + 1)[k] == v.take(i as int)[k]);
            }
        }
        i = i + 1;
    }
    assert(v.take(rs@.len() as int) =~= v);
    match last {
        Some(j) => {
            assert(v[j as int] == rs@[j as int]@);
            match &rs[j].value {
                WireValue::Bytes(b) => match Payload::decode(rs[j].field, b.as_slice()) {
                    Ok(p) => Some(Some(p)),
                    Err(_) => None,
                },
                _ => None,
            }
        },
        None => Some(None),
    }
}

/// Appends the record of an optional payload.
pub fn push_payload_field(rs: &mut Vec<Record>, p: &Option<Payload>)
    ensures
        records_view(final(rs)@) == records_view(old(rs)@) + opt_payload_rec(opt_payload_view(*p)),
        records_wf(records_view(old(rs)@)) ==> records_wf(records_view(final(rs)@)),
{
    match p {
        Some(q) => {
            let ghost before = records_view(rs@);
            let bytes = q.encode_to_vec();
            let field = q.field_number();
            let n = bytes.len();
            assert(bytes@.len() == n as int);
            rs.push(Record { field, value: WireValue::Bytes(bytes) });
            assert(records_view(rs@) =~= before + opt_payload_rec(opt_payload_view(*p)));
            assert(records_wf(before) ==> records_wf(records_view(rs@))) by {
                if records_wf(before) {
                    assert forall|i: int| 0 <= i < records_view(rs@).len() implies
                        crate::wire::record_wf(#[trigger] records_view(rs@)[i]) by {
                        if i < before.len() {
                            assert(records_view(rs@)[i] == before[i]);
                        }
                    }
                }
            }
        },
        None => {
            assert(records_view(rs@) =~= records_view(rs@) + opt_payload_rec(opt_payload_view(*p)));
        },
    }
}

/// The signed envelope every authentication message travels in.
#[derive(Clone, Debug, PartialEq, Eq)]
pub struct WrapperMessage {
    pub version: u32,
    pub signature_algorithm: i32,
    pub signature: Vec<u8>,
    pub payload: Option<Payload>,
}

/// The value of a [`WrapperMessage`].
pub struct WrapperMessageView {
    pub version: u32,
    pub signature_algorithm: i32,
    pub signature: Seq<u8>,
    pub payload: Option<PayloadView>,
}

impl View for WrapperMessage {
    type V = WrapperMessageView;

    open spec fn view(&self) -> WrapperMessageView {
        WrapperMessageView {
            version: self.version,
            signature_algorithm: self.signature_algorithm,
            signature: self.signature@,
            payload: opt_payload_view(self.payload),
        }
    }
}

/// The records of a [`WrapperMessage`]: one per field that is not at its
/// default, the payload last.
pub open spec fn wrapper_records(m: WrapperMessageView) -> Seq<SpecRecord> {
    opt_varint_rec(1, m.version as u64) + opt_i32_rec(2, m.signature_algorithm) + opt_bytes_rec(
        3,
        m.signature,
    ) + opt_payload_rec(m.payload)
}

/// Reads a [`WrapperMessage`] from its records.
pub open spec fn wrapper_from_records(rs: Seq<SpecRecord>) -> Option<WrapperMessageView> {
    match spec_field_u32(rs, 1) {
        Some(version) => match spec_field_i32(rs, 2) {
            Some(signature_algorithm) => match spec_field_bytes(rs, 3) {
                Some(signature) => match spec_field_payload(rs) {
                    Some(payload) => Some(
                        WrapperMessageView { version, signature_algorithm, signature, payload },
                    ),
                    None => None,
                },
                None => None,
            },
            None => None,
        },
        None => None,
    }
}

/// The encoding of a [`WrapperMessage`].
pub open spec fn spec_encode_wrapper(m: WrapperMessageView) -> Seq<u8> {
    spec_records_bytes(wrapper_records(m))
}

/// The [`WrapperMessage`] that `s` encodes, if any.
pub open spec fn spec_decode_wrapper(s: Seq<u8>) -> Option<WrapperMessageView> {
    match spec_parse_records(s) {
        Some(rs) => wrapper_from_records(rs),
        None => None,
    }
}

/// Every byte string of the message has a length that fits the format.
pub open spec fn wrapper_wf(m: WrapperMessageView) -> bool {
    &&& m.signature.len() <= u64::MAX
    &&& m.payload matches Some(p) ==> payload_wf(p) && spec_encode_payload(p).len() <= u64::MAX
}

impl WrapperMessage {
    /// The encoding of the message.
    pub fn encode_to_vec(&self) -> (r: Vec<u8>)
        ensures
            r@ == spec_encode_wrapper(self@),
    {
        let mut rs: Vec<Record> = Vec::new();
        push_varint_field(&mut rs, 1, self.version as u64);
        push_i32_field(&mut rs, 2, self.signature_algorithm);
        push_bytes_field(&mut rs, 3, self.signature.as_slice());
        push_payload_field(&mut rs, &self.payload);
        assert(records_view(rs@) =~= wrapper_records(self@));
        encode_records(&rs)
    }

    /// Decodes a message; `Err` exactly when `spec_decode_wrapper` rejects the bytes.
    pub fn decode(buf: &[u8]) -> (r: Result<WrapperMessage, DecodeError>)
        ensures
            r is Ok <==> spec_decode_wrapper(buf@) is Some,
            r matches Ok(m) ==> spec_decode_wrapper(buf@) == Some(m@),
    {
        let rs = match parse_records(buf) {
            Some(rs) => rs,
            None => {
                return Err(DecodeError);
            },
        };
        let version = match field_u32(&rs, 1) {
            Some(x) => x,
            None => {
                return Err(DecodeError);
            },
        };
        let signature_algorithm = match field_i32(&rs, 2) {
            Some(x) => x,
            None => {
                return Err(DecodeError);
            },
        };
        let signature = match field_bytes(&rs, 3) {
            Some(x) => x,
            None => {
                return Err(DecodeError);
            },
        };
        let payload = match field_payload(&rs) {
            Some(x) => x,
            None => {
                return Err(DecodeError);
            },
        };
        Ok(WrapperMessage { version, signature_algorithm, signature, payload })
    }
}

/// Decoding the encoding of a wrapper gives the wrapper back.
pub proof fn lemma_wrapper_roundtrip(m: WrapperMessageView)
    requires
        wrapper_wf(m),
    ensures
        spec_decode_wrapper(spec_encode_wrapper(m)) == Some(m),
{
    let rs = wrapper_records(m);
    let o0 = opt_varint_rec(1, m.version as u64);
    let o1 = opt_i32_rec(2, m.signature_algorithm);
    let o2 = opt_bytes_rec(3, m.signature);
    let o3 = opt_payload_rec(m.payload);
    let e = Seq::<SpecRecord>::empty();
    assert(forall|f: u32| 1 <= f <= 3 ==> no_field(o3, f));
    assert(spec_field_u32(rs, 1) == Some(m.version)) by {
        assert(rs =~= (e) + o0 + (e + o1 + o2 + o3));
        lemma_opt_varint_other(2, i32_wire(m.signature_algorithm), 1);
        lemma_no_field_concat(e, o1, 1);
        lemma_opt_bytes_other(3, m.signature, 1);
        lemma_no_field_concat(e + o1, o2, 1);
        lemma_no_field_concat(e + o1 + o2, o3, 1);
        lemma_read_varint(rs, (e), (e + o1 + o2 + o3), 1, m.version as u64);
    }
    assert(spec_field_i32(rs, 2) == Some(m.signature_algorithm)) by {
        assert(rs =~= (e + o0) + o1 + (e + o2 + o3));
        lemma_opt_varint_other(1, m.version as u64, 2);
        lemma_no_field_concat(e, o0, 2);
        lemma_opt_bytes_other(3, m.signature, 2);
        lemma_no_field_concat(e, o2, 2);
        lemma_no_field_concat(e + o2, o3, 2);
        lemma_read_i32(rs, (e + o0), (e + o2 + o3), 2, m.signature_algorithm);
    }
    assert(spec_field_bytes(rs, 3) == Some(m.signature)) by {
        assert(rs =~= (e + o0 + o1) + o2 + (e + o3));
        lemma_opt_varint_other(1, m.version as u64, 3);
        lemma_no_field_concat(e, o0, 3);
        lemma_opt_varint_other(2, i32_wire(m.signature_algorithm), 3);
        lemma_no_field_concat(e + o0, o1, 3);
        lemma_no_field_concat(e, o3, 3);
        lemma_read_bytes(rs, (e + o0 + o1), (e + o3), 3, m.signature);
    }
    assert(spec_field_payload(rs) == Some(m.payload)) by {
        assert(rs =~= (o0 + o1 + o2) + o3 + e);
        lemma_no_payload_varint(1, m.version as u64);
        lemma_no_payload_varint(2, i32_wire(m.signature_algorithm));
        lemma_no_payload_bytes(3, m.signature);
        lemma_no_payload_concat(o0, o1);
        lemma_no_payload_concat(o0 + o1, o2);
        lemma_read_payload(rs, o0 + o1 + o2, e, m.payload);
    }
    assert(spec_parse_records(spec_records_bytes(rs)) == Some(rs)) by {
        lemma_opt_varint_wf(1, m.version as u64);
        lemma_records_wf_concat(e, o0);
        lemma_opt_varint_wf(2, i32_wire(m.signature_algorithm));
        lemma_records_wf_concat(e + o0, o1);
        lemma_opt_bytes_wf(3, m.signature);
        lemma_records_wf_concat(e + o0 + o1, o2);
        lemma_records_wf_concat(e + o0 + o1 + o2, o3);
        assert(rs =~= e + o0 + o1 + o2 + o3);
        lemma_parse_records_roundtrip(rs);
    }
}

} // verus!
