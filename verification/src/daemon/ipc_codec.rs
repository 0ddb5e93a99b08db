//! The wire encoding of the IPC messages: each message is a protobuf
//! message over the record format of [`crate::wire`], with an exact
//! specification of its encoding and decoding and a round-trip lemma.
//!
//! Field numbers: `IpcEnvelope` carries its message in one of fields 1-5
//! (authentication request, cancellation, administration request,
//! authentication response, administration response). An administration
//! request carries its command in one of fields 1-9, an administration
//! response its status (1), error text (2) and result in one of fields 3-7.
use crate::daemon::ipc::{
    AdminRequest, AdminRequestPayload, AdminResponse, AdminResponsePayload, ConnAction, IpcEnvelope,
    IpcMessage, PairedServerInfo, PamAuthenticateRequest, PamAuthenticateResponse, PamCancelRequest,
    dispatch_frame,
};
use crate::fields::{
    field_bool, field_bytes, field_i32, field_string, field_u32, i32_wire, lemma_no_field_concat,
    lemma_opt_bytes_other, lemma_opt_bytes_wf, lemma_opt_varint_other, lemma_opt_varint_wf,
    lemma_read_bytes, lemma_read_i32, lemma_read_string, lemma_read_varint, no_field, opt_bytes_rec,
    opt_i32_rec, opt_string_rec, opt_varint_rec, push_bytes_field, push_i32_field, push_string_field,
    push_varint_field, spec_field_bool, spec_field_bytes, spec_field_i32, spec_field_string,
    spec_field_u32, string_from_utf8,
};
use crate::pb::groups::{
    bytes_views, field_oneof, field_repeated, in_group, lemma_no_group_bytes, lemma_no_group_concat,
    lemma_no_group_varint, lemma_oneof_other, lemma_oneof_wf, lemma_read_oneof, lemma_read_repeated,
    lemma_repeated_other, lemma_repeated_push, lemma_repeated_wf, oneof_rec, push_oneof_field,
    push_repeated_item, repeated_rec, spec_field_oneof, spec_field_repeated,
};
use crate::wire::{
    copy_range, encode_records, lemma_parse_records_roundtrip, lemma_records_wf_concat, max_field,
    parse_records, records_view, records_wf, spec_parse_records, spec_records_bytes, Record, SpecRecord,
};
use vstd::prelude::*;
use vstd::utf8::*;

verus! {

broadcast use {encode_utf8_valid_utf8, encode_utf8_decode_utf8};

/// The value of a [`PamAuthenticateRequest`].
pub struct PamAuthenticateRequestView {
    pub request_id: Seq<char>,
    pub username: Seq<char>,
    pub tty_present: bool,
    pub timeout_seconds: u32,
}

impl View for PamAuthenticateRequest {
    type V = PamAuthenticateRequestView;

    open spec fn view(&self) -> PamAuthenticateRequestView {
        PamAuthenticateRequestView {
            request_id: self.request_id@,
            username: self.username@,
            tty_present: self.tty_present,
            timeout_seconds: self.timeout_seconds,
        }
    }
}

/// The value of a [`PamAuthenticateResponse`].
pub struct PamAuthenticateResponseView {
    pub outcome: i32,
    pub detail: Seq<char>,
    pub challenge: Seq<u8>,
}

impl View for PamAuthenticateResponse {
    type V = PamAuthenticateResponseView;

    open spec fn view(&self) -> PamAuthenticateResponseView {
        PamAuthenticateResponseView { outcome: self.outcome, detail: self.detail@, challenge: self.challenge@ }
    }
}

/// The value of a [`PamCancelRequest`].
pub struct PamCancelRequestView {
    pub request_id: Seq<char>,
    pub reason: Seq<char>,
}

impl View for PamCancelRequest {
    type V = PamCancelRequestView;

    open spec fn view(&self) -> PamCancelRequestView {
        PamCancelRequestView { request_id: self.request_id@, reason: self.reason@ }
    }
}

/// The characters of each string.
pub open spec fn strings_view(v: Seq<String>) -> Seq<Seq<char>> {
    v.map_values(|s: String| s@)
}

/// The value of a [`PairedServerInfo`].
pub struct PairedServerInfoView {
    pub name: Seq<char>,
    pub public_key: Seq<char>,
    pub allowed_users: Seq<Seq<char>>,
    pub paired_at: Seq<char>,
}

impl View for PairedServerInfo {
    type V = PairedServerInfoView;

    open spec fn view(&self) -> PairedServerInfoView {
        PairedServerInfoView {
            name: self.name@,
            public_key: self.public_key@,
            allowed_users: strings_view(self.allowed_users@),
            paired_at: self.paired_at@,
        }
    }
}

/// The value of each server.
pub open spec fn servers_view(v: Seq<PairedServerInfo>) -> Seq<PairedServerInfoView> {
    v.map_values(|s: PairedServerInfo| s@)
}

/// The value of an [`AdminRequestPayload`].
pub enum AdminRequestPayloadView {
    GetServers,
    StartPairing,
    WaitForPairing { port: u32 },
    CompletePairing,
    RemoveDevice { public_key: Seq<char> },
    RotateCsk,
    SaveConfig { hostname: Seq<char>, udp_port: u32 },
    GetConfig,
    RecoverTpm,
}

impl View for AdminRequestPayload {
    type V = AdminRequestPayloadView;

    open spec fn view(&self) -> AdminRequestPayloadView {
        match self {
            AdminRequestPayload::GetServers => AdminRequestPayloadView::GetServers,
            AdminRequestPayload::StartPairing => AdminRequestPayloadView::StartPairing,
            AdminRequestPayload::WaitForPairing { port } => AdminRequestPayloadView::WaitForPairing { port: *port },
            AdminRequestPayload::CompletePairing => AdminRequestPayloadView::CompletePairing,
            AdminRequestPayload::RemoveDevice { public_key } => AdminRequestPayloadView::RemoveDevice {
                public_key: public_key@,
            },
            AdminRequestPayload::RotateCsk => AdminRequestPayloadView::RotateCsk,
            AdminRequestPayload::SaveConfig { hostname, udp_port } => AdminRequestPayloadView::SaveConfig {
                hostname: hostname@,
                udp_port: *udp_port,
            },
            AdminRequestPayload::GetConfig => AdminRequestPayloadView::GetConfig,
            AdminRequestPayload::RecoverTpm => AdminRequestPayloadView::RecoverTpm,
        }
    }
}

/// The value of an optional command.
pub open spec fn opt_admin_request_payload_view(o: Option<AdminRequestPayload>) -> Option<AdminRequestPayloadView> {
    match o {
        Some(p) => Some(p@),
        None => None,
    }
}

/// The value of an [`AdminRequest`].
pub struct AdminRequestView {
    pub payload: Option<AdminRequestPayloadView>,
}

impl View for AdminRequest {
    type V = AdminRequestView;

    open spec fn view(&self) -> AdminRequestView {
        AdminRequestView { payload: opt_admin_request_payload_view(self.payload) }
    }
}

/// The value of an [`AdminResponsePayload`].
pub enum AdminResponsePayloadView {
    GetServers { servers: Seq<PairedServerInfoView> },
    StartPairing { url: Seq<char>, port: u32 },
    WaitForPairing { sas_code: Seq<char>, port: u32 },
    CompletePairing { server_hex: Seq<char> },
    GetConfig { hostname: Seq<char>, udp_port: u32 },
}

impl View for AdminResponsePayload {
    type V = AdminResponsePayloadView;

    open spec fn view(&self) -> AdminResponsePayloadView {
        match self {
            AdminResponsePayload::GetServers { servers } => AdminResponsePayloadView::GetServers {
                servers: servers_view(servers@),
            },
            AdminResponsePayload::StartPairing { url, port } => AdminResponsePayloadView::StartPairing {
                url: url@,
                port: *port,
            },
            AdminResponsePayload::WaitForPairing { sas_code, port } => AdminResponsePayloadView::WaitForPairing {
                sas_code: sas_code@,
                port: *port,
            },
            AdminResponsePayload::CompletePairing { server_hex } => AdminResponsePayloadView::CompletePairing {
                server_hex: server_hex@,
            },
            AdminResponsePayload::GetConfig { hostname, udp_port } => AdminResponsePayloadView::GetConfig {
                hostname: hostname@,
                udp_port: *udp_port,
            },
        }
    }
}

/// The value of an optional result.
pub open spec fn opt_admin_response_payload_view(o: Option<AdminResponsePayload>) -> Option<AdminResponsePayloadView> {
    match o {
        Some(p) => Some(p@),
        None => None,
    }
}

/// The value of an [`AdminResponse`].
pub struct AdminResponseView {
    pub status: i32,
    pub error_message: Seq<char>,
    pub payload: Option<AdminResponsePayloadView>,
}

impl View for AdminResponse {
    type V = AdminResponseView;

    open spec fn view(&self) -> AdminResponseView {
        AdminResponseView {
            status: self.status,
            error_message: self.error_message@,
            payload: opt_admin_response_payload_view(self.payload),
        }
    }
}

/// The value of an [`IpcMessage`].
pub enum IpcMessageView {
    PamAuthenticate(PamAuthenticateRequestView),
    PamCancel(PamCancelRequestView),
    AdminRequest(AdminRequestView),
    PamResponse(PamAuthenticateResponseView),
    AdminResponse(AdminResponseView),
}

impl View for IpcMessage {
    type V = IpcMessageView;

    open spec fn view(&self) -> IpcMessageView {
        match self {
            IpcMessage::PamAuthenticate(m) => IpcMessageView::PamAuthenticate(m@),
            IpcMessage::PamCancel(m) => IpcMessageView::PamCancel(m@),
            IpcMessage::AdminRequest(m) => IpcMessageView::AdminRequest(m@),
            IpcMessage::PamResponse(m) => IpcMessageView::PamResponse(m@),
            IpcMessage::AdminResponse(m) => IpcMessageView::AdminResponse(m@),
        }
    }
}

/// The value of an optional message.
pub open spec fn opt_ipc_message_view(o: Option<IpcMessage>) -> Option<IpcMessageView> {
    match o {
        Some(m) => Some(m@),
        None => None,
    }
}

/// The value of an [`IpcEnvelope`].
pub struct IpcEnvelopeView {
    pub msg: Option<IpcMessageView>,
}

impl View for IpcEnvelope {
    type V = IpcEnvelopeView;

    open spec fn view(&self) -> IpcEnvelopeView {
        IpcEnvelopeView { msg: opt_ipc_message_view(self.msg) }
    }
}

/// A message with one `uint32` field: a port.
pub struct PortView {
    pub port: u32,
}

/// A message with one string field.
pub struct TextView {
    pub text: Seq<char>,
}

/// A message with a string field and a `uint32` field (a URL or SAS code
/// with a port; a hostname with a UDP port).
pub struct TextPortView {
    pub text: Seq<char>,
    pub port: u32,
}

/// A message with a repeated server field.
pub struct ServerListView {
    pub servers: Seq<PairedServerInfoView>,
}

/// The varint a `bool` is written as.
pub open spec fn bool_wire(b: bool) -> u64 {
    if b {
        1
    } else {
        0
    }
}

/// The UTF-8 bytes of each string.
pub open spec fn encode_strings(xs: Seq<Seq<char>>) -> Seq<Seq<u8>> {
    xs.map_values(|s: Seq<char>| encode_utf8(s))
}

/// The strings that byte strings hold; `None` when one is not UTF-8.
pub open spec fn decode_strings(items: Seq<Seq<u8>>) -> Option<Seq<Seq<char>>>
    decreases items.len(),
{
    if items.len() == 0 {
        Some(Seq::empty())
    } else {
        match decode_strings(items.drop_last()) {
            None => None,
            Some(p) => if valid_utf8(items.last()) {
                Some(p.push(decode_utf8(items.last())))
            } else {
                None
            },
        }
    }
}

/// A repeated string field.
pub open spec fn spec_field_strings(rs: Seq<SpecRecord>, field: u32) -> Option<Seq<Seq<char>>> {
    match spec_field_repeated(rs, field) {
        Some(items) => decode_strings(items),
        None => None,
    }
}

/// Every string's encoding fits the format.
pub open spec fn strings_wf(xs: Seq<Seq<char>>) -> bool {
    forall|i: int| 0 <= i < xs.len() ==> encode_utf8(#[trigger] xs[i]).len() <= u64::MAX
}

proof fn lemma_strings_roundtrip(xs: Seq<Seq<char>>)
    ensures
        decode_strings(encode_strings(xs)) == Some(xs),
    decreases xs.len(),
{
    if xs.len() == 0 {
        assert(xs =~= Seq::<Seq<char>>::empty());
    } else {
        assert(encode_strings(xs).drop_last() =~= encode_strings(xs.drop_last()));
        lemma_strings_roundtrip(xs.drop_last());
        assert(encode_strings(xs).last() == encode_utf8(xs.last()));
        assert(xs.drop_last().push(xs.last()) =~= xs);
    }
}

proof fn lemma_read_strings(
    rs: Seq<SpecRecord>,
    pre: Seq<SpecRecord>,
    post: Seq<SpecRecord>,
    field: u32,
    xs: Seq<Seq<char>>,
)
    requires
        rs == pre + repeated_rec(field, encode_strings(xs)) + post,
        no_field(pre, field),
        no_field(post, field),
    ensures
        spec_field_strings(rs, field) == Some(xs),
{
    lemma_read_repeated(rs, pre, post, field, encode_strings(xs));
    lemma_strings_roundtrip(xs);
}

proof fn lemma_strings_wf(field: u32, xs: Seq<Seq<char>>)
    requires
        1 <= field <= max_field(),
        strings_wf(xs),
    ensures
        records_wf(repeated_rec(field, encode_strings(xs))),
{
    let items = encode_strings(xs);
    assert forall|i: int| 0 <= i < items.len() implies (#[trigger] items[i]).len() <= u64::MAX by {
        assert(items[i] == encode_utf8(xs[i]));
    }
    lemma_repeated_wf(field, items);
}

proof fn lemma_decode_strings_none_extends(items: Seq<Seq<u8>>, i: nat, k: nat)
    requires
        i <= k <= items.len(),
        decode_strings(items.take(i as int)) is None,
    ensures
        decode_strings(items.take(k as int)) is None,
    decreases k - i,
{
    if k > i {
        lemma_decode_strings_none_extends(items, i, (k - 1) as nat);
        assert(items.take(k as int).drop_last() =~= items.take(k - 1));
    }
}

/// Reads a repeated string field.
fn field_strings(rs: &Vec<Record>, field: u32) -> (r: Option<Vec<String>>)
    ensures
        r is None <==> spec_field_strings(records_view(rs@), field) is None,
        r matches Some(v) ==> spec_field_strings(records_view(rs@), field) == Some(strings_view(v@)),
{
    let items = match field_repeated(rs, field) {
        Some(items) => items,
        None => {
            return None;
        },
    };
    let ghost iv = bytes_views(items@);
    let mut out: Vec<String> = Vec::new();
    let mut i: usize = 0;
    assert(iv.take(0) =~= Seq::<Seq<u8>>::empty());
    assert(strings_view(out@) =~= Seq::<Seq<char>>::empty());
    while i < items.len()
        invariant
            i <= items@.len(),
            iv == bytes_views(items@),
            spec_field_repeated(records_view(rs@), field) == Some(iv),
            decode_strings(iv.take(i as int)) == Some(strings_view(out@)),
        decreases items@.len() - i,
    {
        assert(iv.take(i + 1).drop_last() =~= iv.take(i as int));
        assert(iv.take(i + 1).last() == items@[i as int]@);
        let copy = copy_range(items[i].as_slice(), 0, items[i].len());
        assert(copy@ =~= items@[i as int]@);
        match string_from_utf8(copy) {
            Some(s) => {
                let ghost before = out@;
                out.push(s);
                assert(strings_view(out@) =~= strings_view(before).push(s@));
            },
            None => {
                proof {
                    assert(decode_strings(iv.take(i + 1)) is None);
                    lemma_decode_strings_none_extends(iv, (i + 1) as nat, iv.len());
                    assert(iv.take(iv.len() as int) =~= iv);
                }
                return None;
            },
        }
        i = i + 1;
    }
    assert(iv.take(items@.len() as int) =~= iv);
    Some(out)
}

/// Appends one record of `field` per string.
fn push_strings_field(rs: &mut Vec<Record>, field: u32, xs: &Vec<String>)
    requires
        1 <= field <= max_field(),
    ensures
        records_view(final(rs)@) == records_view(old(rs)@) + repeated_rec(field, encode_strings(strings_view(xs@))),
        records_wf(records_view(old(rs)@)) ==> records_wf(records_view(final(rs)@)),
{
    let ghost start = records_view(rs@);
    let ghost sv = strings_view(xs@);
    let mut i: usize = 0;
    assert(repeated_rec(field, encode_strings(sv.take(0))) =~= Seq::<SpecRecord>::empty());
    assert(start + Seq::<SpecRecord>::empty() =~= start);
    while i < xs.len()
        invariant
            1 <= field <= max_field(),
            i <= xs@.len(),
            sv == strings_view(xs@),
            records_view(rs@) == start + repeated_rec(field, encode_strings(sv.take(i as int))),
            records_wf(start) ==> records_wf(records_view(rs@)),
        decreases xs@.len() - i,
    {
        let b = xs[i].as_str().as_bytes();
        let copy = copy_range(b, 0, b.len());
        assert(copy@ =~= encode_utf8(sv[i as int]));
        let ghost before = records_view(rs@);
        push_repeated_item(rs, field, copy);
        proof {
            lemma_repeated_push(field, encode_strings(sv.take(i as int)), encode_utf8(sv[i as int]));
            assert(encode_strings(sv.take(i as int)).push(encode_utf8(sv[i as int])) =~= encode_strings(
                sv.take(i + 1),
            ));
            assert(records_view(rs@) =~= start + repeated_rec(field, encode_strings(sv.take(i + 1))));
        }
        i = i + 1;
    }
    assert(sv.take(xs@.len() as int) =~= sv);
}

/// The records of a [`PamAuthenticateRequest`]: one per field that is not at its default.
pub open spec fn pam_authenticate_request_records(m: PamAuthenticateRequestView) -> Seq<SpecRecord> {
    opt_string_rec(1, m.request_id)
        + opt_string_rec(2, m.username)
        + opt_varint_rec(3, bool_wire(m.tty_present))
        + opt_varint_rec(4, m.timeout_seconds as u64)
}

/// Reads a [`PamAuthenticateRequest`] from its records.
pub open spec fn pam_authenticate_request_from_records(rs: Seq<SpecRecord>) -> Option<PamAuthenticateRequestView> {
    match spec_field_string(rs, 1) {
        Some(request_id) => match spec_field_string(rs, 2) {
        Some(username) => match spec_field_bool(rs, 3) {
        Some(tty_present) => match spec_field_u32(rs, 4) {
        Some(timeout_seconds) => Some(PamAuthenticateRequestView { request_id, username, tty_present, timeout_seconds }),
        None => None,
    },
        None => None,
    },
        None => None,
    },
        None => None,
    }
}

/// The encoding of a [`PamAuthenticateRequest`].
pub open spec fn spec_encode_pam_authenticate_request(m: PamAuthenticateRequestView) -> Seq<u8> {
    spec_records_bytes(pam_authenticate_request_records(m))
}

/// The [`PamAuthenticateRequest`] that `s` encodes, if any.
pub open spec fn spec_decode_pam_authenticate_request(s: Seq<u8>) -> Option<PamAuthenticateRequestView> {
    match spec_parse_records(s) {
        Some(rs) => pam_authenticate_request_from_records(rs),
        None => None,
    }
}

/// Every length of the message fits the format.
pub open spec fn pam_authenticate_request_wf(m: PamAuthenticateRequestView) -> bool {
    &&& encode_utf8(m.request_id).len() <= u64::MAX
    &&& encode_utf8(m.username).len() <= u64::MAX
}

/// Encodes a [`PamAuthenticateRequest`].
pub fn encode_pam_authenticate_request(m: &PamAuthenticateRequest) -> (r: Vec<u8>)
    ensures
        r@ == spec_encode_pam_authenticate_request(m@),
{
    let mut rs: Vec<Record> = Vec::new();
    push_string_field(&mut rs, 1, m.request_id.as_str());
    push_string_field(&mut rs, 2, m.username.as_str());
    push_varint_field(&mut rs, 3, if m.tty_present { 1 } else { 0 });
    push_varint_field(&mut rs, 4, m.timeout_seconds as u64);
    assert(records_view(rs@) =~= pam_authenticate_request_records(m@));
    encode_records(&rs)
}

/// Decodes a [`PamAuthenticateRequest`]; `None` exactly when `spec_decode_pam_authenticate_request` rejects the bytes.
pub fn decode_pam_authenticate_request(buf: &[u8]) -> (r: Option<PamAuthenticateRequest>)
    ensures
        match spec_decode_pam_authenticate_request(buf@) {
            Some(v) => r matches Some(x) && x@ == v,
            None => r is None,
        },
{
    let rs = match parse_records(buf) {
        Some(rs) => rs,
        None => {
            return None;
        },
    };
    let request_id = match field_string(&rs, 1) {
        Some(x) => x,
        None => {
            return None;
        },
    };
    let username = match field_string(&rs, 2) {
        Some(x) => x,
        None => {
            return None;
        },
    };
    let tty_present = match field_bool(&rs, 3) {
        Some(x) => x,
        None => {
            return None;
        },
    };
    let timeout_seconds = match field_u32(&rs, 4) {
        Some(x) => x,
        None => {
            return None;
        },
    };
    Some(PamAuthenticateRequest { request_id, username, tty_present, timeout_seconds })
}

/// Decoding the encoding of a [`PamAuthenticateRequest`] gives it back.
pub proof fn lemma_pam_authenticate_request_roundtrip(m: PamAuthenticateRequestView)
    requires
        pam_authenticate_request_wf(m),
    ensures
        spec_decode_pam_authenticate_request(spec_encode_pam_authenticate_request(m)) == Some(m),
{
    let rs = pam_authenticate_request_records(m);
    let o0 = opt_string_rec(1, m.request_id);
    let o1 = opt_string_rec(2, m.username);
    let o2 = opt_varint_rec(3, bool_wire(m.tty_present));
    let o3 = opt_varint_rec(4, m.timeout_seconds as u64);
    let e = Seq::<SpecRecord>::empty();
    assert(spec_field_string(rs, 1) == Some(m.request_id)) by {
        assert(rs =~= (e) + o0 + (e + o1 + o2 + o3));
        lemma_opt_bytes_other(2, encode_utf8(m.username), 1);
        lemma_no_field_concat(e, o1, 1);
        lemma_opt_varint_other(3, bool_wire(m.tty_present), 1);
        lemma_no_field_concat(e + o1, o2, 1);
        lemma_opt_varint_other(4, m.timeout_seconds as u64, 1);
        lemma_no_field_concat(e + o1 + o2, o3, 1);
        lemma_read_string(rs, (e), (e + o1 + o2 + o3), 1, m.request_id);
    }
    assert(spec_field_string(rs, 2) == Some(m.username)) by {
        assert(rs =~= (e + o0) + o1 + (e + o2 + o3));
        lemma_opt_bytes_other(1, encode_utf8(m.request_id), 2);
        lemma_no_field_concat(e, o0, 2);
        lemma_opt_varint_other(3, bool_wire(m.tty_present), 2);
        lemma_no_field_concat(e, o2, 2);
        lemma_opt_varint_other(4, m.timeout_seconds as u64, 2);
        lemma_no_field_concat(e + o2, o3, 2);
        lemma_read_string(rs, (e + o0), (e + o2 + o3), 2, m.username);
    }
    assert(spec_field_bool(rs, 3) == Some(m.tty_present)) by {
        assert(rs =~= (e + o0 + o1) + o2 + (e + o3));
        lemma_opt_bytes_other(1, encode_utf8(m.request_id), 3);
        lemma_no_field_concat(e, o0, 3);
        lemma_opt_bytes_other(2, encode_utf8(m.username), 3);
        lemma_no_field_concat(e + o0, o1, 3);
        lemma_opt_varint_other(4, m.timeout_seconds as u64, 3);
        lemma_no_field_concat(e, o3, 3);
        lemma_read_varint(rs, (e + o0 + o1), (e + o3), 3, bool_wire(m.tty_present));
    }
    assert(spec_field_u32(rs, 4) == Some(m.timeout_seconds)) by {
        assert(rs =~= (e + o0 + o1 + o2) + o3 + (e));
        lemma_opt_bytes_other(1, encode_utf8(m.request_id), 4);
        lemma_no_field_concat(e, o0, 4);
        lemma_opt_bytes_other(2, encode_utf8(m.username), 4);
        lemma_no_field_concat(e + o0, o1, 4);
        lemma_opt_varint_other(3, bool_wire(m.tty_present), 4);
        lemma_no_field_concat(e + o0 + o1, o2, 4);
        lemma_read_varint(rs, (e + o0 + o1 + o2), (e), 4, m.timeout_seconds as u64);
    }
    assert(spec_parse_records(spec_records_bytes(rs)) == Some(rs)) by {
        lemma_opt_bytes_wf(1, encode_utf8(m.request_id));
        lemma_records_wf_concat(e, o0);
        lemma_opt_bytes_wf(2, encode_utf8(m.username));
        lemma_records_wf_concat(e + o0, o1);
        lemma_opt_varint_wf(3, bool_wire(m.tty_present));
        lemma_records_wf_concat(e + o0 + o1, o2);
        lemma_opt_varint_wf(4, m.timeout_seconds as u64);
        lemma_records_wf_concat(e + o0 + o1 + o2, o3);
        assert(rs =~= e + o0 + o1 + o2 + o3);
        lemma_parse_records_roundtrip(rs);
    }
}

/// The records of a [`PamAuthenticateResponse`]: one per field that is not at its default.
pub open spec fn pam_authenticate_response_records(m: PamAuthenticateResponseView) -> Seq<SpecRecord> {
    opt_i32_rec(1, m.outcome)
        + opt_string_rec(2, m.detail)
        + opt_bytes_rec(3, m.challenge)
}

/// Reads a [`PamAuthenticateResponse`] from its records.
pub open spec fn pam_authenticate_response_from_records(rs: Seq<SpecRecord>) -> Option<PamAuthenticateResponseView> {
    match spec_field_i32(rs, 1) {
        Some(outcome) => match spec_field_string(rs, 2) {
        Some(detail) => match spec_field_bytes(rs, 3) {
        Some(challenge) => Some(PamAuthenticateResponseView { outcome, detail, challenge }),
        None => None,
    },
        None => None,
    },
        None => None,
    }
}

/// The encoding of a [`PamAuthenticateResponse`].
pub open spec fn spec_encode_pam_authenticate_response(m: PamAuthenticateResponseView) -> Seq<u8> {
    spec_records_bytes(pam_authenticate_response_records(m))
}

/// The [`PamAuthenticateResponse`] that `s` encodes, if any.
pub open spec fn spec_decode_pam_authenticate_response(s: Seq<u8>) -> Option<PamAuthenticateResponseView> {
    match spec_parse_records(s) {
        Some(rs) => pam_authenticate_response_from_records(rs),
        None => None,
    }
}

/// Every length of the message fits the format.
pub open spec fn pam_authenticate_response_wf(m: PamAuthenticateResponseView) -> bool {
    &&& encode_utf8(m.detail).len() <= u64::MAX
    &&& m.challenge.len() <= u64::MAX
}

/// Encodes a [`PamAuthenticateResponse`].
pub fn encode_pam_authenticate_response(m: &PamAuthenticateResponse) -> (r: Vec<u8>)
    ensures
        r@ == spec_encode_pam_authenticate_response(m@),
{
    let mut rs: Vec<Record> = Vec::new();
    push_i32_field(&mut rs, 1, m.outcome);
    push_string_field(&mut rs, 2, m.detail.as_str());
    push_bytes_field(&mut rs, 3, m.challenge.as_slice());
    assert(records_view(rs@) =~= pam_authenticate_response_records(m@));
    encode_records(&rs)
}

/// Decodes a [`PamAuthenticateResponse`]; `None` exactly when `spec_decode_pam_authenticate_response` rejects the bytes.
pub fn decode_pam_authenticate_response(buf: &[u8]) -> (r: Option<PamAuthenticateResponse>)
    ensures
        match spec_decode_pam_authenticate_response(buf@) {
            Some(v) => r matches Some(x) && x@ == v,
            None => r is None,
        },
{
    let rs = match parse_records(buf) {
        Some(rs) => rs,
        None => {
            return None;
        },
    };
    let outcome = match field_i32(&rs, 1) {
        Some(x) => x,
        None => {
            return None;
        },
    };
    let detail = match field_string(&rs, 2) {
        Some(x) => x,
        None => {
            return None;
        },
    };
    let challenge = match field_bytes(&rs, 3) {
        Some(x) => x,
        None => {
            return None;
        },
    };
    Some(PamAuthenticateResponse { outcome, detail, challenge })
}

/// Decoding the encoding of a [`PamAuthenticateResponse`] gives it back.
pub proof fn lemma_pam_authenticate_response_roundtrip(m: PamAuthenticateResponseView)
    requires
        pam_authenticate_response_wf(m),
    ensures
        spec_decode_pam_authenticate_response(spec_encode_pam_authenticate_response(m)) == Some(m),
{
    let rs = pam_authenticate_response_records(m);
    let o0 = opt_i32_rec(1, m.outcome);
    let o1 = opt_string_rec(2, m.detail);
    let o2 = opt_bytes_rec(3, m.challenge);
    let e = Seq::<SpecRecord>::empty();
    assert(spec_field_i32(rs, 1) == Some(m.outcome)) by {
        assert(rs =~= (e) + o0 + (e + o1 + o2));
        lemma_opt_bytes_other(2, encode_utf8(m.detail), 1);
        lemma_no_field_concat(e, o1, 1);
        lemma_opt_bytes_other(3, m.challenge, 1);
        lemma_no_field_concat(e + o1, o2, 1);
        lemma_read_i32(rs, (e), (e + o1 + o2), 1, m.outcome);
    }
    assert(spec_field_string(rs, 2) == Some(m.detail)) by {
        assert(rs =~= (e + o0) + o1 + (e + o2));
        lemma_opt_varint_other(1, i32_wire(m.outcome), 2);
        lemma_no_field_concat(e, o0, 2);
        lemma_opt_bytes_other(3, m.challenge, 2);
        lemma_no_field_concat(e, o2, 2);
        lemma_read_string(rs, (e + o0), (e + o2), 2, m.detail);
    }
    assert(spec_field_bytes(rs, 3) == Some(m.challenge)) by {
        assert(rs =~= (e + o0 + o1) + o2 + (e));
        lemma_opt_varint_other(1, i32_wire(m.outcome), 3);
        lemma_no_field_concat(e, o0, 3);
        lemma_opt_bytes_other(2, encode_utf8(m.detail), 3);
        lemma_no_field_concat(e + o0, o1, 3);
        lemma_read_bytes(rs, (e + o0 + o1), (e), 3, m.challenge);
    }
    assert(spec_parse_records(spec_records_bytes(rs)) == Some(rs)) by {
        lemma_opt_varint_wf(1, i32_wire(m.outcome));
        lemma_records_wf_concat(e, o0);
        lemma_opt_bytes_wf(2, encode_utf8(m.detail));
        lemma_records_wf_concat(e + o0, o1);
        lemma_opt_bytes_wf(3, m.challenge);
        lemma_records_wf_concat(e + o0 + o1, o2);
        assert(rs =~= e + o0 + o1 + o2);
        lemma_parse_records_roundtrip(rs);
    }
}

/// The records of a [`PamCancelRequest`]: one per field that is not at its default.
pub open spec fn pam_cancel_request_records(m: PamCancelRequestView) -> Seq<SpecRecord> {
    opt_string_rec(1, m.request_id)
        + opt_string_rec(2, m.reason)
}

/// Reads a [`PamCancelRequest`] from its records.
pub open spec fn pam_cancel_request_from_records(rs: Seq<SpecRecord>) -> Option<PamCancelRequestView> {
    match spec_field_string(rs, 1) {
        Some(request_id) => match spec_field_string(rs, 2) {
        Some(reason) => Some(PamCancelRequestView { request_id, reason }),
        None => None,
    },
        None => None,
    }
}

/// The encoding of a [`PamCancelRequest`].
pub open spec fn spec_encode_pam_cancel_request(m: PamCancelRequestView) -> Seq<u8> {
    spec_records_bytes(pam_cancel_request_records(m))
}

/// The [`PamCancelRequest`] that `s` encodes, if any.
pub open spec fn spec_decode_pam_cancel_request(s: Seq<u8>) -> Option<PamCancelRequestView> {
    match spec_parse_records(s) {
        Some(rs) => pam_cancel_request_from_records(rs),
        None => None,
    }
}

/// Every length of the message fits the format.
pub open spec fn pam_cancel_request_wf(m: PamCancelRequestView) -> bool {
    &&& encode_utf8(m.request_id).len() <= u64::MAX
    &&& encode_utf8(m.reason).len() <= u64::MAX
}

/// Encodes a [`PamCancelRequest`].
pub fn encode_pam_cancel_request(m: &PamCancelRequest) -> (r: Vec<u8>)
    ensures
        r@ == spec_encode_pam_cancel_request(m@),
{
    let mut rs: Vec<Record> = Vec::new();
    push_string_field(&mut rs, 1, m.request_id.as_str());
    push_string_field(&mut rs, 2, m.reason.as_str());
    assert(records_view(rs@) =~= pam_cancel_request_records(m@));
    encode_records(&rs)
}

/// Decodes a [`PamCancelRequest`]; `None` exactly when `spec_decode_pam_cancel_request` rejects the bytes.
pub fn decode_pam_cancel_request(buf: &[u8]) -> (r: Option<PamCancelRequest>)
    ensures
        match spec_decode_pam_cancel_request(buf@) {
            Some(v) => r matches Some(x) && x@ == v,
            None => r is None,
        },
{
    let rs = match parse_records(buf) {
        Some(rs) => rs,
        None => {
            return None;
        },
    };
    let request_id = match field_string(&rs, 1) {
        Some(x) => x,
        None => {
            return None;
        },
    };
    let reason = match field_string(&rs, 2) {
        Some(x) => x,
        None => {
            return None;
        },
    };
    Some(PamCancelRequest { request_id, reason })
}

/// Decoding the encoding of a [`PamCancelRequest`] gives it back.
pub proof fn lemma_pam_cancel_request_roundtrip(m: PamCancelRequestView)
    requires
        pam_cancel_request_wf(m),
    ensures
        spec_decode_pam_cancel_request(spec_encode_pam_cancel_request(m)) == Some(m),
{
    let rs = pam_cancel_request_records(m);
    let o0 = opt_string_rec(1, m.request_id);
    let o1 = opt_string_rec(2, m.reason);
    let e = Seq::<SpecRecord>::empty();
    assert(spec_field_string(rs, 1) == Some(m.request_id)) by {
        assert(rs =~= (e) + o0 + (e + o1));
        lemma_opt_bytes_other(2, encode_utf8(m.reason), 1);
        lemma_no_field_concat(e, o1, 1);
        lemma_read_string(rs, (e), (e + o1), 1, m.request_id);
    }
    assert(spec_field_string(rs, 2) == Some(m.reason)) by {
        assert(rs =~= (e + o0) + o1 + (e));
        lemma_opt_bytes_other(1, encode_utf8(m.request_id), 2);
        lemma_no_field_concat(e, o0, 2);
        lemma_read_string(rs, (e + o0), (e), 2, m.reason);
    }
    assert(spec_parse_records(spec_records_bytes(rs)) == Some(rs)) by {
        lemma_opt_bytes_wf(1, encode_utf8(m.request_id));
        lemma_records_wf_concat(e, o0);
        lemma_opt_bytes_wf(2, encode_utf8(m.reason));
        lemma_records_wf_concat(e + o0, o1);
        assert(rs =~= e + o0 + o1);
        lemma_parse_records_roundtrip(rs);
    }
}

/// The records of a [`PairedServerInfo`]: one per field that is not at its default.
pub open spec fn paired_server_info_records(m: PairedServerInfoView) -> Seq<SpecRecord> {
    opt_string_rec(1, m.name)
        + opt_string_rec(2, m.public_key)
        + repeated_rec(3, encode_strings(m.allowed_users))
        + opt_string_rec(4, m.paired_at)
}

/// Reads a [`PairedServerInfo`] from its records.
pub open spec fn paired_server_info_from_records(rs: Seq<SpecRecord>) -> Option<PairedServerInfoView> {
    match spec_field_string(rs, 1) {
        Some(name) => match spec_field_string(rs, 2) {
        Some(public_key) => match spec_field_strings(rs, 3) {
        Some(allowed_users) => match spec_field_string(rs, 4) {
        Some(paired_at) => Some(PairedServerInfoView { name, public_key, allowed_users, paired_at }),
        None => None,
    },
        None => None,
    },
        None => None,
    },
        None => None,
    }
}

/// The encoding of a [`PairedServerInfo`].
pub open spec fn spec_encode_paired_server_info(m: PairedServerInfoView) -> Seq<u8> {
    spec_records_bytes(paired_server_info_records(m))
}

/// The [`PairedServerInfo`] that `s` encodes, if any.
pub open spec fn spec_decode_paired_server_info(s: Seq<u8>) -> Option<PairedServerInfoView> {
    match spec_parse_records(s) {
        Some(rs) => paired_server_info_from_records(rs),
        None => None,
    }
}

/// Every length of the message fits the format.
pub open spec fn paired_server_info_wf(m: PairedServerInfoView) -> bool {
    &&& encode_utf8(m.name).len() <= u64::MAX
    &&& encode_utf8(m.public_key).len() <= u64::MAX
    &&& strings_wf(m.allowed_users)
    &&& encode_utf8(m.paired_at).len() <= u64::MAX
}

/// Encodes a [`PairedServerInfo`].
pub fn encode_paired_server_info(m: &PairedServerInfo) -> (r: Vec<u8>)
    ensures
        r@ == spec_encode_paired_server_info(m@),
{
    let mut rs: Vec<Record> = Vec::new();
    push_string_field(&mut rs, 1, m.name.as_str());
    push_string_field(&mut rs, 2, m.public_key.as_str());
    push_strings_field(&mut rs, 3, &m.allowed_users);
    push_string_field(&mut rs, 4, m.paired_at.as_str());
    assert(records_view(rs@) =~= paired_server_info_records(m@));
    encode_records(&rs)
}

/// Decodes a [`PairedServerInfo`]; `None` exactly when `spec_decode_paired_server_info` rejects the bytes.
pub fn decode_paired_server_info(buf: &[u8]) -> (r: Option<PairedServerInfo>)
    ensures
        match spec_decode_paired_server_info(buf@) {
            Some(v) => r matches Some(x) && x@ == v,
            None => r is None,
        },
{
    let rs = match parse_records(buf) {
        Some(rs) => rs,
        None => {
            return None;
        },
    };
    let name = match field_string(&rs, 1) {
        Some(x) => x,
        None => {
            return None;
        },
    };
    let public_key = match field_string(&rs, 2) {
        Some(x) => x,
        None => {
            return None;
        },
    };
    let allowed_users = match field_strings(&rs, 3) {
        Some(x) => x,
        None => {
            return None;
        },
    };
    let paired_at = match field_string(&rs, 4) {
        Some(x) => x,
        None => {
            return None;
        },
    };
    Some(PairedServerInfo { name, public_key, allowed_users, paired_at })
}

/// Decoding the encoding of a [`PairedServerInfo`] gives it back.
pub proof fn lemma_paired_server_info_roundtrip(m: PairedServerInfoView)
    requires
        paired_server_info_wf(m),
    ensures
        spec_decode_paired_server_info(spec_encode_paired_server_info(m)) == Some(m),
{
    let rs = paired_server_info_records(m);
    let o0 = opt_string_rec(1, m.name);
    let o1 = opt_string_rec(2, m.public_key);
    let o2 = repeated_rec(3, encode_strings(m.allowed_users));
    let o3 = opt_string_rec(4, m.paired_at);
    let e = Seq::<SpecRecord>::empty();
    assert(spec_field_string(rs, 1) == Some(m.name)) by {
        assert(rs =~= (e) + o0 + (e + o1 + o2 + o3));
        lemma_opt_bytes_other(2, encode_utf8(m.public_key), 1);
        lemma_no_field_concat(e, o1, 1);
        lemma_repeated_other(3, encode_strings(m.allowed_users), 1);
        lemma_no_field_concat(e + o1, o2, 1);
        lemma_opt_bytes_other(4, encode_utf8(m.paired_at), 1);
        lemma_no_field_concat(e + o1 + o2, o3, 1);
        lemma_read_string(rs, (e), (e + o1 + o2 + o3), 1, m.name);
    }
    assert(spec_field_string(rs, 2) == Some(m.public_key)) by {
        assert(rs =~= (e + o0) + o1 + (e + o2 + o3));
        lemma_opt_bytes_other(1, encode_utf8(m.name), 2);
        lemma_no_field_concat(e, o0, 2);
        lemma_repeated_other(3, encode_strings(m.allowed_users), 2);
        lemma_no_field_concat(e, o2, 2);
        lemma_opt_bytes_other(4, encode_utf8(m.paired_at), 2);
        lemma_no_field_concat(e + o2, o3, 2);
        lemma_read_string(rs, (e + o0), (e + o2 + o3), 2, m.public_key);
    }
    assert(spec_field_strings(rs, 3) == Some(m.allowed_users)) by {
        assert(rs =~= (e + o0 + o1) + o2 + (e + o3));
        lemma_opt_bytes_other(1, encode_utf8(m.name), 3);
        lemma_no_field_concat(e, o0, 3);
        lemma_opt_bytes_other(2, encode_utf8(m.public_key), 3);
        lemma_no_field_concat(e + o0, o1, 3);
        lemma_opt_bytes_other(4, encode_utf8(m.paired_at), 3);
        lemma_no_field_concat(e, o3, 3);
        lemma_read_strings(rs, (e + o0 + o1), (e + o3), 3, m.allowed_users);
    }
    assert(spec_field_string(rs, 4) == Some(m.paired_at)) by {
        assert(rs =~= (e + o0 + o1 + o2) + o3 + (e));
        lemma_opt_bytes_other(1, encode_utf8(m.name), 4);
        lemma_no_field_concat(e, o0, 4);
        lemma_opt_bytes_other(2, encode_utf8(m.public_key), 4);
        lemma_no_field_concat(e + o0, o1, 4);
        lemma_repeated_other(3, encode_strings(m.allowed_users), 4);
        lemma_no_field_concat(e + o0 + o1, o2, 4);
        lemma_read_string(rs, (e + o0 + o1 + o2), (e), 4, m.paired_at);
    }
    assert(spec_parse_records(spec_records_bytes(rs)) == Some(rs)) by {
        lemma_opt_bytes_wf(1, encode_utf8(m.name));
        lemma_records_wf_concat(e, o0);
        lemma_opt_bytes_wf(2, encode_utf8(m.public_key));
        lemma_records_wf_concat(e + o0, o1);
        lemma_strings_wf(3, m.allowed_users);
        lemma_records_wf_concat(e + o0 + o1, o2);
        lemma_opt_bytes_wf(4, encode_utf8(m.paired_at));
        lemma_records_wf_concat(e + o0 + o1 + o2, o3);
        assert(rs =~= e + o0 + o1 + o2 + o3);
        lemma_parse_records_roundtrip(rs);
    }
}

/// The encoding of each server.
pub open spec fn encode_servers(xs: Seq<PairedServerInfoView>) -> Seq<Seq<u8>> {
    xs.map_values(|s: PairedServerInfoView| spec_encode_paired_server_info(s))
}

/// The servers that byte strings encode; `None` when one does not decode.
pub open spec fn decode_servers(items: Seq<Seq<u8>>) -> Option<Seq<PairedServerInfoView>>
    decreases items.len(),
{
    if items.len() == 0 {
        Some(Seq::empty())
    } else {
        match decode_servers(items.drop_last()) {
            None => None,
            Some(p) => match spec_decode_paired_server_info(items.last()) {
                Some(s) => Some(p.push(s)),
                None => None,
            },
        }
    }
}

/// A repeated server field.
pub open spec fn spec_field_servers(rs: Seq<SpecRecord>, field: u32) -> Option<Seq<PairedServerInfoView>> {
    match spec_field_repeated(rs, field) {
        Some(items) => decode_servers(items),
        None => None,
    }
}

/// Every server fits the format.
pub open spec fn servers_wf(xs: Seq<PairedServerInfoView>) -> bool {
    forall|i: int|
        0 <= i < xs.len() ==> paired_server_info_wf(#[trigger] xs[i]) && spec_encode_paired_server_info(xs[i]).len()
            <= u64::MAX
}

proof fn lemma_servers_roundtrip(xs: Seq<PairedServerInfoView>)
    requires
        servers_wf(xs),
    ensures
        decode_servers(encode_servers(xs)) == Some(xs),
    decreases xs.len(),
{
    if xs.len() == 0 {
        assert(xs =~= Seq::<PairedServerInfoView>::empty());
    } else {
        assert(encode_servers(xs).drop_last() =~= encode_servers(xs.drop_last()));
        assert(servers_wf(xs.drop_last())) by {
            assert forall|i: int| 0 <= i < xs.drop_last().len() implies paired_server_info_wf(
                #[trigger] xs.drop_last()[i],
            ) && spec_encode_paired_server_info(xs.drop_last()[i]).len() <= u64::MAX by {
                assert(xs.drop_last()[i] == xs[i]);
            }
        }
        lemma_servers_roundtrip(xs.drop_last());
        assert(encode_servers(xs).last() == spec_encode_paired_server_info(xs.last()));
        assert(paired_server_info_wf(xs[xs.len() - 1]));
        lemma_paired_server_info_roundtrip(xs.last());
        assert(xs.drop_last().push(xs.last()) =~= xs);
    }
}

proof fn lemma_read_servers(
    rs: Seq<SpecRecord>,
    pre: Seq<SpecRecord>,
    post: Seq<SpecRecord>,
    field: u32,
    xs: Seq<PairedServerInfoView>,
)
    requires
        rs == pre + repeated_rec(field, encode_servers(xs)) + post,
        no_field(pre, field),
        no_field(post, field),
        servers_wf(xs),
    ensures
        spec_field_servers(rs, field) == Some(xs),
{
    lemma_read_repeated(rs, pre, post, field, encode_servers(xs));
    lemma_servers_roundtrip(xs);
}

proof fn lemma_servers_wf(field: u32, xs: Seq<PairedServerInfoView>)
    requires
        1 <= field <= max_field(),
        servers_wf(xs),
    ensures
        records_wf(repeated_rec(field, encode_servers(xs))),
{
    let items = encode_servers(xs);
    assert forall|i: int| 0 <= i < items.len() implies (#[trigger] items[i]).len() <= u64::MAX by {
        assert(items[i] == spec_encode_paired_server_info(xs[i]));
    }
    lemma_repeated_wf(field, items);
}

proof fn lemma_decode_servers_none_extends(items: Seq<Seq<u8>>, i: nat, k: nat)
    requires
        i <= k <= items.len(),
        decode_servers(items.take(i as int)) is None,
    ensures
        decode_servers(items.take(k as int)) is None,
    decreases k - i,
{
    if k > i {
        lemma_decode_servers_none_extends(items, i, (k - 1) as nat);
        assert(items.take(k as int).drop_last() =~= items.take(k - 1));
    }
}

/// Reads a repeated server field.
fn field_servers(rs: &Vec<Record>, field: u32) -> (r: Option<Vec<PairedServerInfo>>)
    ensures
        r is None <==> spec_field_servers(records_view(rs@), field) is None,
        r matches Some(v) ==> spec_field_servers(records_view(rs@), field) == Some(servers_view(v@)),
{
    let items = match field_repeated(rs, field) {
        Some(items) => items,
        None => {
            return None;
        },
    };
    let ghost iv = bytes_views(items@);
    let mut out: Vec<PairedServerInfo> = Vec::new();
    let mut i: usize = 0;
    assert(iv.take(0) =~= Seq::<Seq<u8>>::empty());
    assert(servers_view(out@) =~= Seq::<PairedServerInfoView>::empty());
    while i < items.len()
        invariant
            i <= items@.len(),
            iv == bytes_views(items@),
            spec_field_repeated(records_view(rs@), field) == Some(iv),
            decode_servers(iv.take(i as int)) == Some(servers_view(out@)),
        decreases items@.len() - i,
    {
        assert(iv.take(i + 1).drop_last() =~= iv.take(i as int));
        assert(iv.take(i + 1).last() == items@[i as int]@);
        match decode_paired_server_info(items[i].as_slice()) {
            Some(s) => {
                let ghost before = out@;
                out.push(s);
                assert(servers_view(out@) =~= servers_view(before).push(s@));
            },
            None => {
                proof {
                    assert(decode_servers(iv.take(i + 1)) is None);
                    lemma_decode_servers_none_extends(iv, (i + 1) as nat, iv.len());
                    assert(iv.take(iv.len() as int) =~= iv);
                }
                return None;
            },
        }
        i = i + 1;
    }
    assert(iv.take(items@.len() as int) =~= iv);
    Some(out)
}

/// Appends one record of `field` per server.
fn push_servers_field(rs: &mut Vec<Record>, field: u32, xs: &Vec<PairedServerInfo>)
    requires
        1 <= field <= max_field(),
    ensures
        records_view(final(rs)@) == records_view(old(rs)@) + repeated_rec(field, encode_servers(servers_view(xs@))),
        records_wf(records_view(old(rs)@)) ==> records_wf(records_view(final(rs)@)),
{
    let ghost start = records_view(rs@);
    let ghost sv = servers_view(xs@);
    let mut i: usize = 0;
    assert(repeated_rec(field, encode_servers(sv.take(0))) =~= Seq::<SpecRecord>::empty());
    assert(start + Seq::<SpecRecord>::empty() =~= start);
    while i < xs.len()
        invariant
            1 <= field <= max_field(),
            i <= xs@.len(),
            sv == servers_view(xs@),
            records_view(rs@) == start + repeated_rec(field, encode_servers(sv.take(i as int))),
            records_wf(start) ==> records_wf(records_view(rs@)),
        decreases xs@.len() - i,
    {
        let bytes = encode_paired_server_info(&xs[i]);
        assert(bytes@ == spec_encode_paired_server_info(sv[i as int]));
        push_repeated_item(rs, field, bytes);
        proof {
            lemma_repeated_push(field, encode_servers(sv.take(i as int)), spec_encode_paired_server_info(sv[i as int]));
            assert(encode_servers(sv.take(i as int)).push(spec_encode_paired_server_info(sv[i as int])) =~= encode_servers(
                sv.take(i + 1),
            ));
            assert(records_view(rs@) =~= start + repeated_rec(field, encode_servers(sv.take(i + 1))));
        }
        i = i + 1;
    }
    assert(sv.take(xs@.len() as int) =~= sv);
}

/// The records of a [`PortView`]: one per field that is not at its default.
pub open spec fn port_message_records(m: PortView) -> Seq<SpecRecord> {
    opt_varint_rec(1, m.port as u64)
}

/// Reads a [`PortView`] from its records.
pub open spec fn port_message_from_records(rs: Seq<SpecRecord>) -> Option<PortView> {
    match spec_field_u32(rs, 1) {
        Some(port) => Some(PortView { port }),
        None => None,
    }
}

/// The encoding of a [`PortView`].
pub open spec fn spec_encode_port_message(m: PortView) -> Seq<u8> {
    spec_records_bytes(port_message_records(m))
}

/// The [`PortView`] that `s` encodes, if any.
pub open spec fn spec_decode_port_message(s: Seq<u8>) -> Option<PortView> {
    match spec_parse_records(s) {
        Some(rs) => port_message_from_records(rs),
        None => None,
    }
}

/// Every length of the message fits the format.
pub open spec fn port_message_wf(m: PortView) -> bool {
    true
}

/// Encodes a [`PortView`].
pub fn encode_port_message(port: u32) -> (r: Vec<u8>)
    ensures
        r@ == spec_encode_port_message(PortView { port }),
{
    let mut rs: Vec<Record> = Vec::new();
    push_varint_field(&mut rs, 1, port as u64);
    assert(records_view(rs@) =~= port_message_records(PortView { port }));
    encode_records(&rs)
}

/// Decodes a [`PortView`]; `None` exactly when `spec_decode_port_message` rejects the bytes.
pub fn decode_port_message(buf: &[u8]) -> (r: Option<u32>)
    ensures
        match spec_decode_port_message(buf@) {
            Some(v) => r matches Some(x) && PortView { port: x } == v,
            None => r is None,
        },
{
    let rs = match parse_records(buf) {
        Some(rs) => rs,
        None => {
            return None;
        },
    };
    let port = match field_u32(&rs, 1) {
        Some(x) => x,
        None => {
            return None;
        },
    };
    Some(port)
}

/// Decoding the encoding of a [`PortView`] gives it back.
pub proof fn lemma_port_message_roundtrip(m: PortView)
    requires
        port_message_wf(m),
    ensures
        spec_decode_port_message(spec_encode_port_message(m)) == Some(m),
{
    let rs = port_message_records(m);
    let o0 = opt_varint_rec(1, m.port as u64);
    let e = Seq::<SpecRecord>::empty();
    assert(spec_field_u32(rs, 1) == Some(m.port)) by {
        assert(rs =~= (e) + o0 + (e));
        lemma_read_varint(rs, (e), (e), 1, m.port as u64);
    }
    assert(spec_parse_records(spec_records_bytes(rs)) == Some(rs)) by {
        lemma_opt_varint_wf(1, m.port as u64);
        lemma_records_wf_concat(e, o0);
        assert(rs =~= e + o0);
        lemma_parse_records_roundtrip(rs);
    }
}

/// The records of a [`TextView`]: one per field that is not at its default.
pub open spec fn text_message_records(m: TextView) -> Seq<SpecRecord> {
    opt_string_rec(1, m.text)
}

/// Reads a [`TextView`] from its records.
pub open spec fn text_message_from_records(rs: Seq<SpecRecord>) -> Option<TextView> {
    match spec_field_string(rs, 1) {
        Some(text) => Some(TextView { text }),
        None => None,
    }
}

/// The encoding of a [`TextView`].
pub open spec fn spec_encode_text_message(m: TextView) -> Seq<u8> {
    spec_records_bytes(text_message_records(m))
}

/// The [`TextView`] that `s` encodes, if any.
pub open spec fn spec_decode_text_message(s: Seq<u8>) -> Option<TextView> {
    match spec_parse_records(s) {
        Some(rs) => text_message_from_records(rs),
        None => None,
    }
}

/// Every length of the message fits the format.
pub open spec fn text_message_wf(m: TextView) -> bool {
    &&& encode_utf8(m.text).len() <= u64::MAX
}

/// Encodes a [`TextView`].
pub fn encode_text_message(text: &str) -> (r: Vec<u8>)
    ensures
        r@ == spec_encode_text_message(TextView { text: text@ }),
{
    let mut rs: Vec<Record> = Vec::new();
    push_string_field(&mut rs, 1, text);
    assert(records_view(rs@) =~= text_message_records(TextView { text: text@ }));
    encode_records(&rs)
}

/// Decodes a [`TextView`]; `None` exactly when `spec_decode_text_message` rejects the bytes.
pub fn decode_text_message(buf: &[u8]) -> (r: Option<String>)
    ensures
        match spec_decode_text_message(buf@) {
            Some(v) => r matches Some(x) && TextView { text: x@ } == v,
            None => r is None,
        },
{
    let rs = match parse_records(buf) {
        Some(rs) => rs,
        None => {
            return None;
        },
    };
    let text = match field_string(&rs, 1) {
        Some(x) => x,
        None => {
            return None;
        },
    };
    Some(text)
}

/// Decoding the encoding of a [`TextView`] gives it back.
pub proof fn lemma_text_message_roundtrip(m: TextView)
    requires
        text_message_wf(m),
    ensures
        spec_decode_text_message(spec_encode_text_message(m)) == Some(m),
{
    let rs = text_message_records(m);
    let o0 = opt_string_rec(1, m.text);
    let e = Seq::<SpecRecord>::empty();
    assert(spec_field_string(rs, 1) == Some(m.text)) by {
        assert(rs =~= (e) + o0 + (e));
        lemma_read_string(rs, (e), (e), 1, m.text);
    }
    assert(spec_parse_records(spec_records_bytes(rs)) == Some(rs)) by {
        lemma_opt_bytes_wf(1, encode_utf8(m.text));
        lemma_records_wf_concat(e, o0);
        assert(rs =~= e + o0);
        lemma_parse_records_roundtrip(rs);
    }
}

/// The records of a [`TextPortView`]: one per field that is not at its default.
pub open spec fn text_port_message_records(m: TextPortView) -> Seq<SpecRecord> {
    opt_string_rec(1, m.text)
        + opt_varint_rec(2, m.port as u64)
}

/// Reads a [`TextPortView`] from its records.
pub open spec fn text_port_message_from_records(rs: Seq<SpecRecord>) -> Option<TextPortView> {
    match spec_field_string(rs, 1) {
        Some(text) => match spec_field_u32(rs, 2) {
        Some(port) => Some(TextPortView { text, port }),
        None => None,
    },
        None => None,
    }
}

/// The encoding of a [`TextPortView`].
pub open spec fn spec_encode_text_port_message(m: TextPortView) -> Seq<u8> {
    spec_records_bytes(text_port_message_records(m))
}

/// The [`TextPortView`] that `s` encodes, if any.
pub open spec fn spec_decode_text_port_message(s: Seq<u8>) -> Option<TextPortView> {
    match spec_parse_records(s) {
        Some(rs) => text_port_message_from_records(rs),
        None => None,
    }
}

/// Every length of the message fits the format.
pub open spec fn text_port_message_wf(m: TextPortView) -> bool {
    &&& encode_utf8(m.text).len() <= u64::MAX
}

/// Encodes a [`TextPortView`].
pub fn encode_text_port_message(text: &str, port: u32) -> (r: Vec<u8>)
    ensures
        r@ == spec_encode_text_port_message(TextPortView { text: text@, port }),
{
    let mut rs: Vec<Record> = Vec::new();
    push_string_field(&mut rs, 1, text);
    push_varint_field(&mut rs, 2, port as u64);
    assert(records_view(rs@) =~= text_port_message_records(TextPortView { text: text@, port }));
    encode_records(&rs)
}

/// Decodes a [`TextPortView`]; `None` exactly when `spec_decode_text_port_message` rejects the bytes.
pub fn decode_text_port_message(buf: &[u8]) -> (r: Option<(String, u32)>)
    ensures
        match spec_decode_text_port_message(buf@) {
            Some(v) => r matches Some(x) && TextPortView { text: x.0@, port: x.1 } == v,
            None => r is None,
        },
{
    let rs = match parse_records(buf) {
        Some(rs) => rs,
        None => {
            return None;
        },
    };
    let text = match field_string(&rs, 1) {
        Some(x) => x,
        None => {
            return None;
        },
    };
    let port = match field_u32(&rs, 2) {
        Some(x) => x,
        None => {
            return None;
        },
    };
    Some((text, port))
}

/// Decoding the encoding of a [`TextPortView`] gives it back.
pub proof fn lemma_text_port_message_roundtrip(m: TextPortView)
    requires
        text_port_message_wf(m),
    ensures
        spec_decode_text_port_message(spec_encode_text_port_message(m)) == Some(m),
{
    let rs = text_port_message_records(m);
    let o0 = opt_string_rec(1, m.text);
    let o1 = opt_varint_rec(2, m.port as u64);
    let e = Seq::<SpecRecord>::empty();
    assert(spec_field_string(rs, 1) == Some(m.text)) by {
        assert(rs =~= (e) + o0 + (e + o1));
        lemma_opt_varint_other(2, m.port as u64, 1);
        lemma_no_field_concat(e, o1, 1);
        lemma_read_string(rs, (e), (e + o1), 1, m.text);
    }
    assert(spec_field_u32(rs, 2) == Some(m.port)) by {
        assert(rs =~= (e + o0) + o1 + (e));
        lemma_opt_bytes_other(1, encode_utf8(m.text), 2);
        lemma_no_field_concat(e, o0, 2);
        lemma_read_varint(rs, (e + o0), (e), 2, m.port as u64);
    }
    assert(spec_parse_records(spec_records_bytes(rs)) == Some(rs)) by {
        lemma_opt_bytes_wf(1, encode_utf8(m.text));
        lemma_records_wf_concat(e, o0);
        lemma_opt_varint_wf(2, m.port as u64);
        lemma_records_wf_concat(e + o0, o1);
        assert(rs =~= e + o0 + o1);
        lemma_parse_records_roundtrip(rs);
    }
}

/// The records of a [`ServerListView`]: one per field that is not at its default.
pub open spec fn server_list_message_records(m: ServerListView) -> Seq<SpecRecord> {
    repeated_rec(1, encode_servers(m.servers))
}

/// Reads a [`ServerListView`] from its records.
pub open spec fn server_list_message_from_records(rs: Seq<SpecRecord>) -> Option<ServerListView> {
    match spec_field_servers(rs, 1) {
        Some(servers) => Some(ServerListView { servers }),
        None => None,
    }
}

/// The encoding of a [`ServerListView`].
pub open spec fn spec_encode_server_list_message(m: ServerListView) -> Seq<u8> {
    spec_records_bytes(server_list_message_records(m))
}

/// The [`ServerListView`] that `s` encodes, if any.
pub open spec fn spec_decode_server_list_message(s: Seq<u8>) -> Option<ServerListView> {
    match spec_parse_records(s) {
        Some(rs) => server_list_message_from_records(rs),
        None => None,
    }
}

/// Every length of the message fits the format.
pub open spec fn server_list_message_wf(m: ServerListView) -> bool {
    &&& servers_wf(m.servers)
}

/// Encodes a [`ServerListView`].
pub fn encode_server_list_message(servers: &Vec<PairedServerInfo>) -> (r: Vec<u8>)
    ensures
        r@ == spec_encode_server_list_message(ServerListView { servers: servers_view(servers@) }),
{
    let mut rs: Vec<Record> = Vec::new();
    push_servers_field(&mut rs, 1, servers);
    assert(records_view(rs@) =~= server_list_message_records(ServerListView { servers: servers_view(servers@) }));
    encode_records(&rs)
}

/// Decodes a [`ServerListView`]; `None` exactly when `spec_decode_server_list_message` rejects the bytes.
pub fn decode_server_list_message(buf: &[u8]) -> (r: Option<Vec<PairedServerInfo>>)
    ensures
        match spec_decode_server_list_message(buf@) {
            Some(v) => r matches Some(x) && ServerListView { servers: servers_view(x@) } == v,
            None => r is None,
        },
{
    let rs = match parse_records(buf) {
        Some(rs) => rs,
        None => {
            return None;
        },
    };
    let servers = match field_servers(&rs, 1) {
        Some(x) => x,
        None => {
            return None;
        },
    };
    Some(servers)
}

/// Decoding the encoding of a [`ServerListView`] gives it back.
pub proof fn lemma_server_list_message_roundtrip(m: ServerListView)
    requires
        server_list_message_wf(m),
    ensures
        spec_decode_server_list_message(spec_encode_server_list_message(m)) == Some(m),
{
    let rs = server_list_message_records(m);
    let o0 = repeated_rec(1, encode_servers(m.servers));
    let e = Seq::<SpecRecord>::empty();
    assert(spec_field_servers(rs, 1) == Some(m.servers)) by {
        assert(rs =~= (e) + o0 + (e));
        lemma_read_servers(rs, (e), (e), 1, m.servers);
    }
    assert(spec_parse_records(spec_records_bytes(rs)) == Some(rs)) by {
        lemma_servers_wf(1, m.servers);
        lemma_records_wf_concat(e, o0);
        assert(rs =~= e + o0);
        lemma_parse_records_roundtrip(rs);
    }
}

/// The encoding of a message without fields.
pub open spec fn spec_encode_empty() -> Seq<u8> {
    spec_records_bytes(Seq::<SpecRecord>::empty())
}

/// Whether the bytes decode as a message without fields (unknown fields
/// are skipped).
pub open spec fn spec_empty_ok(b: Seq<u8>) -> bool {
    spec_parse_records(b) is Some
}

proof fn lemma_empty_roundtrip()
    ensures
        spec_empty_ok(spec_encode_empty()),
{
    lemma_parse_records_roundtrip(Seq::<SpecRecord>::empty());
}

fn empty_message() -> (r: Vec<u8>)
    ensures
        r@ == spec_encode_empty(),
{
    let rs: Vec<Record> = Vec::new();
    assert(records_view(rs@) =~= Seq::<SpecRecord>::empty());
    encode_records(&rs)
}

fn is_empty_message(b: &[u8]) -> (r: bool)
    ensures
        r == spec_empty_ok(b@),
{
    parse_records(b).is_some()
}

/// The field and the encoding that carry an administration command.
pub open spec fn admin_request_payload_member(p: AdminRequestPayloadView) -> (u32, Seq<u8>) {
    match p {
        AdminRequestPayloadView::GetServers => (1, spec_encode_empty()),
        AdminRequestPayloadView::StartPairing => (2, spec_encode_empty()),
        AdminRequestPayloadView::WaitForPairing { port } => (3, spec_encode_port_message(PortView { port })),
        AdminRequestPayloadView::CompletePairing => (4, spec_encode_empty()),
        AdminRequestPayloadView::RemoveDevice { public_key } => (5, spec_encode_text_message(TextView { text: public_key })),
        AdminRequestPayloadView::RotateCsk => (6, spec_encode_empty()),
        AdminRequestPayloadView::SaveConfig { hostname, udp_port } => (7, spec_encode_text_port_message(TextPortView { text: hostname, port: udp_port })),
        AdminRequestPayloadView::GetConfig => (8, spec_encode_empty()),
        AdminRequestPayloadView::RecoverTpm => (9, spec_encode_empty()),
    }
}

/// What the bytes of member field `f` decode to.
pub open spec fn spec_decode_admin_request_payload_member(f: u32, b: Seq<u8>) -> Option<AdminRequestPayloadView> {
    if f == 1 {
        if spec_empty_ok(b) {
            Some(AdminRequestPayloadView::GetServers)
        } else {
            None
        }
    }
    else if f == 2 {
        if spec_empty_ok(b) {
            Some(AdminRequestPayloadView::StartPairing)
        } else {
            None
        }
    }
    else if f == 3 {
        match spec_decode_port_message(b) {
            Some(v) => Some(AdminRequestPayloadView::WaitForPairing { port: v.port }),
            None => None,
        }
    }
    else if f == 4 {
        if spec_empty_ok(b) {
            Some(AdminRequestPayloadView::CompletePairing)
        } else {
            None
        }
    }
    else if f == 5 {
        match spec_decode_text_message(b) {
            Some(v) => Some(AdminRequestPayloadView::RemoveDevice { public_key: v.text }),
            None => None,
        }
    }
    else if f == 6 {
        if spec_empty_ok(b) {
            Some(AdminRequestPayloadView::RotateCsk)
        } else {
            None
        }
    }
    else if f == 7 {
        match spec_decode_text_port_message(b) {
            Some(v) => Some(AdminRequestPayloadView::SaveConfig { hostname: v.text, udp_port: v.port }),
            None => None,
        }
    }
    else if f == 8 {
        if spec_empty_ok(b) {
            Some(AdminRequestPayloadView::GetConfig)
        } else {
            None
        }
    }
    else if f == 9 {
        if spec_empty_ok(b) {
            Some(AdminRequestPayloadView::RecoverTpm)
        } else {
            None
        }
    } else {
        None
    }
}

/// Every length of an administration command fits the format.
pub open spec fn admin_request_payload_wf(p: AdminRequestPayloadView) -> bool {
    &&& match p {
        AdminRequestPayloadView::GetServers => true,
        AdminRequestPayloadView::StartPairing => true,
        AdminRequestPayloadView::WaitForPairing { port } => true,
        AdminRequestPayloadView::CompletePairing => true,
        AdminRequestPayloadView::RemoveDevice { public_key } => text_message_wf(TextView { text: public_key }),
        AdminRequestPayloadView::RotateCsk => true,
        AdminRequestPayloadView::SaveConfig { hostname, udp_port } => text_port_message_wf(TextPortView { text: hostname, port: udp_port }),
        AdminRequestPayloadView::GetConfig => true,
        AdminRequestPayloadView::RecoverTpm => true,
    }
    &&& admin_request_payload_member(p).1.len() <= u64::MAX
}

/// The member record of an optional value.
pub open spec fn admin_request_payload_opt_member(o: Option<AdminRequestPayloadView>) -> Option<(u32, Seq<u8>)> {
    match o {
        Some(p) => Some(admin_request_payload_member(p)),
        None => None,
    }
}

pub open spec fn admin_request_payload_opt_wf(o: Option<AdminRequestPayloadView>) -> bool {
    match o {
        Some(p) => admin_request_payload_wf(p),
        None => true,
    }
}

/// The member field of an optional value, and decoding its encoding.
proof fn lemma_admin_request_payload_opt_member(o: Option<AdminRequestPayloadView>)
    requires
        admin_request_payload_opt_wf(o),
    ensures
        o matches Some(p) ==> spec_decode_admin_request_payload_member(admin_request_payload_member(p).0, admin_request_payload_member(p).1) == Some(p),
        admin_request_payload_opt_member(o) matches Some((f, b)) ==> in_group(f, 1, 9) && 1 <= f <= max_field() && b.len() <= u64::MAX,
{
    match o {
        Some(p) => match p {
            AdminRequestPayloadView::GetServers => {
                lemma_empty_roundtrip();
            },
            AdminRequestPayloadView::StartPairing => {
                lemma_empty_roundtrip();
            },
            AdminRequestPayloadView::WaitForPairing { port } => {
                lemma_port_message_roundtrip(PortView { port });
            },
            AdminRequestPayloadView::CompletePairing => {
                lemma_empty_roundtrip();
            },
            AdminRequestPayloadView::RemoveDevice { public_key } => {
                lemma_text_message_roundtrip(TextView { text: public_key });
            },
            AdminRequestPayloadView::RotateCsk => {
                lemma_empty_roundtrip();
            },
            AdminRequestPayloadView::SaveConfig { hostname, udp_port } => {
                lemma_text_port_message_roundtrip(TextPortView { text: hostname, port: udp_port });
            },
            AdminRequestPayloadView::GetConfig => {
                lemma_empty_roundtrip();
            },
            AdminRequestPayloadView::RecoverTpm => {
                lemma_empty_roundtrip();
            },
        },
        None => {},
    }
}

/// An administration command as a `oneof` over fields 1-9.
pub open spec fn spec_field_admin_request_payload(rs: Seq<SpecRecord>) -> Option<Option<AdminRequestPayloadView>> {
    match spec_field_oneof(rs, 1, 9) {
        None => None,
        Some(None) => Some(None),
        Some(Some((f, b))) => match spec_decode_admin_request_payload_member(f, b) {
            Some(p) => Some(Some(p)),
            None => None,
        },
    }
}

fn encode_admin_request_payload_member(p: &AdminRequestPayload) -> (r: (u32, Vec<u8>))
    ensures
        r.0 == admin_request_payload_member(p@).0,
        r.1@ == admin_request_payload_member(p@).1,
{
    match p {
        AdminRequestPayload::GetServers => (1, empty_message()),
        AdminRequestPayload::StartPairing => (2, empty_message()),
        AdminRequestPayload::WaitForPairing { port } => (3, encode_port_message(*port)),
        AdminRequestPayload::CompletePairing => (4, empty_message()),
        AdminRequestPayload::RemoveDevice { public_key } => (5, encode_text_message(public_key.as_str())),
        AdminRequestPayload::RotateCsk => (6, empty_message()),
        AdminRequestPayload::SaveConfig { hostname, udp_port } => (7, encode_text_port_message(hostname.as_str(), *udp_port)),
        AdminRequestPayload::GetConfig => (8, empty_message()),
        AdminRequestPayload::RecoverTpm => (9, empty_message()),
    }
}

fn decode_admin_request_payload_member(f: u32, b: &[u8]) -> (r: Option<AdminRequestPayload>)
    ensures
        match spec_decode_admin_request_payload_member(f, b@) {
            Some(v) => r matches Some(x) && x@ == v,
            None => r is None,
        },
{
    if f == 1 {
        if is_empty_message(b) {
            Some(AdminRequestPayload::GetServers)
        } else {
            None
        }
    }
    else if f == 2 {
        if is_empty_message(b) {
            Some(AdminRequestPayload::StartPairing)
        } else {
            None
        }
    }
    else if f == 3 {
        match decode_port_message(b) {
            Some(x) => Some(AdminRequestPayload::WaitForPairing { port: x }),
            None => None,
        }
    }
    else if f == 4 {
        if is_empty_message(b) {
            Some(AdminRequestPayload::CompletePairing)
        } else {
            None
        }
    }
    else if f == 5 {
        match decode_text_message(b) {
            Some(x) => Some(AdminRequestPayload::RemoveDevice { public_key: x }),
            None => None,
        }
    }
    else if f == 6 {
        if is_empty_message(b) {
            Some(AdminRequestPayload::RotateCsk)
        } else {
            None
        }
    }
    else if f == 7 {
        match decode_text_port_message(b) {
            Some(x) => Some(AdminRequestPayload::SaveConfig { hostname: x.0, udp_port: x.1 }),
            None => None,
        }
    }
    else if f == 8 {
        if is_empty_message(b) {
            Some(AdminRequestPayload::GetConfig)
        } else {
            None
        }
    }
    else if f == 9 {
        if is_empty_message(b) {
            Some(AdminRequestPayload::RecoverTpm)
        } else {
            None
        }
    } else {
        None
    }
}

fn field_admin_request_payload(rs: &Vec<Record>) -> (r: Option<Option<AdminRequestPayload>>)
    ensures
        r is None <==> spec_field_admin_request_payload(records_view(rs@)) is None,
        r matches Some(o) ==> spec_field_admin_request_payload(records_view(rs@)) == Some(opt_admin_request_payload_view(o)),
{
    match field_oneof(rs, 1, 9) {
        None => None,
        Some(None) => Some(None),
        Some(Some((f, b))) => match decode_admin_request_payload_member(f, b.as_slice()) {
            Some(p) => Some(Some(p)),
            None => None,
        },
    }
}

fn push_admin_request_payload(rs: &mut Vec<Record>, o: &Option<AdminRequestPayload>)
    ensures
        records_view(final(rs)@) == records_view(old(rs)@) + oneof_rec(admin_request_payload_opt_member(opt_admin_request_payload_view(*o))),
        records_wf(records_view(old(rs)@)) ==> records_wf(records_view(final(rs)@)),
{
    match o {
        Some(p) => {
            let (f, b) = encode_admin_request_payload_member(p);
            push_oneof_field(rs, f, b);
        },
        None => {
            assert(records_view(rs@) =~= records_view(rs@) + oneof_rec(admin_request_payload_opt_member(opt_admin_request_payload_view(*o))));
        },
    }
}

/// The field and the encoding that carry an administration result.
pub open spec fn admin_response_payload_member(p: AdminResponsePayloadView) -> (u32, Seq<u8>) {
    match p {
        AdminResponsePayloadView::GetServers { servers } => (3, spec_encode_server_list_message(ServerListView { servers })),
        AdminResponsePayloadView::StartPairing { url, port } => (4, spec_encode_text_port_message(TextPortView { text: url, port: port })),
        AdminResponsePayloadView::WaitForPairing { sas_code, port } => (5, spec_encode_text_port_message(TextPortView { text: sas_code, port: port })),
        AdminResponsePayloadView::CompletePairing { server_hex } => (6, spec_encode_text_message(TextView { text: server_hex })),
        AdminResponsePayloadView::GetConfig { hostname, udp_port } => (7, spec_encode_text_port_message(TextPortView { text: hostname, port: udp_port })),
    }
}

/// What the bytes of member field `f` decode to.
pub open spec fn spec_decode_admin_response_payload_member(f: u32, b: Seq<u8>) -> Option<AdminResponsePayloadView> {
    if f == 3 {
        match spec_decode_server_list_message(b) {
            Some(v) => Some(AdminResponsePayloadView::GetServers { servers: v.servers }),
            None => None,
        }
    }
    else if f == 4 {
        match spec_decode_text_port_message(b) {
            Some(v) => Some(AdminResponsePayloadView::StartPairing { url: v.text, port: v.port }),
            None => None,
        }
    }
    else if f == 5 {
        match spec_decode_text_port_message(b) {
            Some(v) => Some(AdminResponsePayloadView::WaitForPairing { sas_code: v.text, port: v.port }),
            None => None,
        }
    }
    else if f == 6 {
        match spec_decode_text_message(b) {
            Some(v) => Some(AdminResponsePayloadView::CompletePairing { server_hex: v.text }),
            None => None,
        }
    }
    else if f == 7 {
        match spec_decode_text_port_message(b) {
            Some(v) => Some(AdminResponsePayloadView::GetConfig { hostname: v.text, udp_port: v.port }),
            None => None,
        }
    } else {
        None
    }
}

/// Every length of an administration result fits the format.
pub open spec fn admin_response_payload_wf(p: AdminResponsePayloadView) -> bool {
    &&& match p {
        AdminResponsePayloadView::GetServers { servers } => server_list_message_wf(ServerListView { servers }),
        AdminResponsePayloadView::StartPairing { url, port } => text_port_message_wf(TextPortView { text: url, port: port }),
        AdminResponsePayloadView::WaitForPairing { sas_code, port } => text_port_message_wf(TextPortView { text: sas_code, port: port }),
        AdminResponsePayloadView::CompletePairing { server_hex } => text_message_wf(TextView { text: server_hex }),
        AdminResponsePayloadView::GetConfig { hostname, udp_port } => text_port_message_wf(TextPortView { text: hostname, port: udp_port }),
    }
    &&& admin_response_payload_member(p).1.len() <= u64::MAX
}

/// The member record of an optional value.
pub open spec fn admin_response_payload_opt_member(o: Option<AdminResponsePayloadView>) -> Option<(u32, Seq<u8>)> {
    match o {
        Some(p) => Some(admin_response_payload_member(p)),
        None => None,
    }
}

pub open spec fn admin_response_payload_opt_wf(o: Option<AdminResponsePayloadView>) -> bool {
    match o {
        Some(p) => admin_response_payload_wf(p),
        None => true,
    }
}

/// The member field of an optional value, and decoding its encoding.
proof fn lemma_admin_response_payload_opt_member(o: Option<AdminResponsePayloadView>)
    requires
        admin_response_payload_opt_wf(o),
    ensures
        o matches Some(p) ==> spec_decode_admin_response_payload_member(admin_response_payload_member(p).0, admin_response_payload_member(p).1) == Some(p),
        admin_response_payload_opt_member(o) matches Some((f, b)) ==> in_group(f, 3, 7) && 1 <= f <= max_field() && b.len() <= u64::MAX,
{
    match o {
        Some(p) => match p {
            AdminResponsePayloadView::GetServers { servers } => {
                lemma_server_list_message_roundtrip(ServerListView { servers });
            },
            AdminResponsePayloadView::StartPairing { url, port } => {
                lemma_text_port_message_roundtrip(TextPortView { text: url, port: port });
            },
            AdminResponsePayloadView::WaitForPairing { sas_code, port } => {
                lemma_text_port_message_roundtrip(TextPortView { text: sas_code, port: port });
            },
            AdminResponsePayloadView::CompletePairing { server_hex } => {
                lemma_text_message_roundtrip(TextView { text: server_hex });
            },
            AdminResponsePayloadView::GetConfig { hostname, udp_port } => {
                lemma_text_port_message_roundtrip(TextPortView { text: hostname, port: udp_port });
            },
        },
        None => {},
    }
}

/// An administration result as a `oneof` over fields 3-7.
pub open spec fn spec_field_admin_response_payload(rs: Seq<SpecRecord>) -> Option<Option<AdminResponsePayloadView>> {
    match spec_field_oneof(rs, 3, 7) {
        None => None,
        Some(None) => Some(None),
        Some(Some((f, b))) => match spec_decode_admin_response_payload_member(f, b) {
            Some(p) => Some(Some(p)),
            None => None,
        },
    }
}

fn encode_admin_response_payload_member(p: &AdminResponsePayload) -> (r: (u32, Vec<u8>))
    ensures
        r.0 == admin_response_payload_member(p@).0,
        r.1@ == admin_response_payload_member(p@).1,
{
    match p {
        AdminResponsePayload::GetServers { servers } => (3, encode_server_list_message(servers)),
        AdminResponsePayload::StartPairing { url, port } => (4, encode_text_port_message(url.as_str(), *port)),
        AdminResponsePayload::WaitForPairing { sas_code, port } => (5, encode_text_port_message(sas_code.as_str(), *port)),
        AdminResponsePayload::CompletePairing { server_hex } => (6, encode_text_message(server_hex.as_str())),
        AdminResponsePayload::GetConfig { hostname, udp_port } => (7, encode_text_port_message(hostname.as_str(), *udp_port)),
    }
}

fn decode_admin_response_payload_member(f: u32, b: &[u8]) -> (r: Option<AdminResponsePayload>)
    ensures
        match spec_decode_admin_response_payload_member(f, b@) {
            Some(v) => r matches Some(x) && x@ == v,
            None => r is None,
        },
{
    if f == 3 {
        match decode_server_list_message(b) {
            Some(x) => Some(AdminResponsePayload::GetServers { servers: x }),
            None => None,
        }
    }
    else if f == 4 {
        match decode_text_port_message(b) {
            Some(x) => Some(AdminResponsePayload::StartPairing { url: x.0, port: x.1 }),
            None => None,
        }
    }
    else if f == 5 {
        match decode_text_port_message(b) {
            Some(x) => Some(AdminResponsePayload::WaitForPairing { sas_code: x.0, port: x.1 }),
            None => None,
        }
    }
    else if f == 6 {
        match decode_text_message(b) {
            Some(x) => Some(AdminResponsePayload::CompletePairing { server_hex: x }),
            None => None,
        }
    }
    else if f == 7 {
        match decode_text_port_message(b) {
            Some(x) => Some(AdminResponsePayload::GetConfig { hostname: x.0, udp_port: x.1 }),
            None => None,
        }
    } else {
        None
    }
}

fn field_admin_response_payload(rs: &Vec<Record>) -> (r: Option<Option<AdminResponsePayload>>)
    ensures
        r is None <==> spec_field_admin_response_payload(records_view(rs@)) is None,
        r matches Some(o) ==> spec_field_admin_response_payload(records_view(rs@)) == Some(opt_admin_response_payload_view(o)),
{
    match field_oneof(rs, 3, 7) {
        None => None,
        Some(None) => Some(None),
        Some(Some((f, b))) => match decode_admin_response_payload_member(f, b.as_slice()) {
            Some(p) => Some(Some(p)),
            None => None,
        },
    }
}

fn push_admin_response_payload(rs: &mut Vec<Record>, o: &Option<AdminResponsePayload>)
    ensures
        records_view(final(rs)@) == records_view(old(rs)@) + oneof_rec(admin_response_payload_opt_member(opt_admin_response_payload_view(*o))),
        records_wf(records_view(old(rs)@)) ==> records_wf(records_view(final(rs)@)),
{
    match o {
        Some(p) => {
            let (f, b) = encode_admin_response_payload_member(p);
            push_oneof_field(rs, f, b);
        },
        None => {
            assert(records_view(rs@) =~= records_view(rs@) + oneof_rec(admin_response_payload_opt_member(opt_admin_response_payload_view(*o))));
        },
    }
}

/// The records of a [`AdminRequest`]: one per field that is not at its default.
pub open spec fn admin_request_records(m: AdminRequestView) -> Seq<SpecRecord> {
    oneof_rec(admin_request_payload_opt_member(m.payload))
}

/// Reads a [`AdminRequest`] from its records.
pub open spec fn admin_request_from_records(rs: Seq<SpecRecord>) -> Option<AdminRequestView> {
    match spec_field_admin_request_payload(rs) {
        Some(payload) => Some(AdminRequestView { payload }),
        None => None,
    }
}

/// The encoding of a [`AdminRequest`].
pub open spec fn spec_encode_admin_request(m: AdminRequestView) -> Seq<u8> {
    spec_records_bytes(admin_request_records(m))
}

/// The [`AdminRequest`] that `s` encodes, if any.
pub open spec fn spec_decode_admin_request(s: Seq<u8>) -> Option<AdminRequestView> {
    match spec_parse_records(s) {
        Some(rs) => admin_request_from_records(rs),
        None => None,
    }
}

/// Every length of the message fits the format.
pub open spec fn admin_request_wf(m: AdminRequestView) -> bool {
    &&& admin_request_payload_opt_wf(m.payload)
}

/// Encodes a [`AdminRequest`].
pub fn encode_admin_request(m: &AdminRequest) -> (r: Vec<u8>)
    ensures
        r@ == spec_encode_admin_request(m@),
{
    let mut rs: Vec<Record> = Vec::new();
    push_admin_request_payload(&mut rs, &m.payload);
    assert(records_view(rs@) =~= admin_request_records(m@));
    encode_records(&rs)
}

/// Decodes a [`AdminRequest`]; `None` exactly when `spec_decode_admin_request` rejects the bytes.
pub fn decode_admin_request(buf: &[u8]) -> (r: Option<AdminRequest>)
    ensures
        match spec_decode_admin_request(buf@) {
            Some(v) => r matches Some(x) && x@ == v,
            None => r is None,
        },
{
    let rs = match parse_records(buf) {
        Some(rs) => rs,
        None => {
            return None;
        },
    };
    let payload = match field_admin_request_payload(&rs) {
        Some(x) => x,
        None => {
            return None;
        },
    };
    Some(AdminRequest { payload })
}

/// Decoding the encoding of a [`AdminRequest`] gives it back.
pub proof fn lemma_admin_request_roundtrip(m: AdminRequestView)
    requires
        admin_request_wf(m),
    ensures
        spec_decode_admin_request(spec_encode_admin_request(m)) == Some(m),
{
    let rs = admin_request_records(m);
    let o0 = oneof_rec(admin_request_payload_opt_member(m.payload));
    let e = Seq::<SpecRecord>::empty();
    assert(spec_field_admin_request_payload(rs) == Some(m.payload)) by {
        assert(rs =~= (e) + o0 + e);
        lemma_admin_request_payload_opt_member(m.payload);
        lemma_read_oneof(rs, (e), e, 1, 9, admin_request_payload_opt_member(m.payload));
    }
    assert(spec_parse_records(spec_records_bytes(rs)) == Some(rs)) by {
        lemma_admin_request_payload_opt_member(m.payload); lemma_oneof_wf(admin_request_payload_opt_member(m.payload));
        lemma_records_wf_concat(e, o0);
        assert(rs =~= e + o0);
        lemma_parse_records_roundtrip(rs);
    }
}

/// The records of a [`AdminResponse`]: one per field that is not at its default.
pub open spec fn admin_response_records(m: AdminResponseView) -> Seq<SpecRecord> {
    opt_i32_rec(1, m.status)
        + opt_string_rec(2, m.error_message)
        + oneof_rec(admin_response_payload_opt_member(m.payload))
}

/// Reads a [`AdminResponse`] from its records.
pub open spec fn admin_response_from_records(rs: Seq<SpecRecord>) -> Option<AdminResponseView> {
    match spec_field_i32(rs, 1) {
        Some(status) => match spec_field_string(rs, 2) {
        Some(error_message) => match spec_field_admin_response_payload(rs) {
        Some(payload) => Some(AdminResponseView { status, error_message, payload }),
        None => None,
    },
        None => None,
    },
        None => None,
    }
}

/// The encoding of a [`AdminResponse`].
pub open spec fn spec_encode_admin_response(m: AdminResponseView) -> Seq<u8> {
    spec_records_bytes(admin_response_records(m))
}

/// The [`AdminResponse`] that `s` encodes, if any.
pub open spec fn spec_decode_admin_response(s: Seq<u8>) -> Option<AdminResponseView> {
    match spec_parse_records(s) {
        Some(rs) => admin_response_from_records(rs),
        None => None,
    }
}

/// Every length of the message fits the format.
pub open spec fn admin_response_wf(m: AdminResponseView) -> bool {
    &&& encode_utf8(m.error_message).len() <= u64::MAX
    &&& admin_response_payload_opt_wf(m.payload)
}

/// Encodes a [`AdminResponse`].
pub fn encode_admin_response(m: &AdminResponse) -> (r: Vec<u8>)
    ensures
        r@ == spec_encode_admin_response(m@),
{
    let mut rs: Vec<Record> = Vec::new();
    push_i32_field(&mut rs, 1, m.status);
    push_string_field(&mut rs, 2, m.error_message.as_str());
    push_admin_response_payload(&mut rs, &m.payload);
    assert(records_view(rs@) =~= admin_response_records(m@));
    encode_records(&rs)
}

/// Decodes a [`AdminResponse`]; `None` exactly when `spec_decode_admin_response` rejects the bytes.
pub fn decode_admin_response(buf: &[u8]) -> (r: Option<AdminResponse>)
    ensures
        match spec_decode_admin_response(buf@) {
            Some(v) => r matches Some(x) && x@ == v,
            None => r is None,
        },
{
    let rs = match parse_records(buf) {
        Some(rs) => rs,
        None => {
            return None;
        },
    };
    let status = match field_i32(&rs, 1) {
        Some(x) => x,
        None => {
            return None;
        },
    };
    let error_message = match field_string(&rs, 2) {
        Some(x) => x,
        None => {
            return None;
        },
    };
    let payload = match field_admin_response_payload(&rs) {
        Some(x) => x,
        None => {
            return None;
        },
    };
    Some(AdminResponse { status, error_message, payload })
}

/// Decoding the encoding of a [`AdminResponse`] gives it back.
pub proof fn lemma_admin_response_roundtrip(m: AdminResponseView)
    requires
        admin_response_wf(m),
    ensures
        spec_decode_admin_response(spec_encode_admin_response(m)) == Some(m),
{
    let rs = admin_response_records(m);
    let o0 = opt_i32_rec(1, m.status);
    let o1 = opt_string_rec(2, m.error_message);
    let o2 = oneof_rec(admin_response_payload_opt_member(m.payload));
    let e = Seq::<SpecRecord>::empty();
    assert(spec_field_i32(rs, 1) == Some(m.status)) by {
        assert(rs =~= (e) + o0 + (e + o1 + o2));
        lemma_opt_bytes_other(2, encode_utf8(m.error_message), 1);
        lemma_no_field_concat(e, o1, 1);
        lemma_oneof_other(admin_response_payload_opt_member(m.payload), 3, 7, 1); lemma_admin_response_payload_opt_member(m.payload);
        lemma_no_field_concat(e + o1, o2, 1);
        lemma_read_i32(rs, (e), (e + o1 + o2), 1, m.status);
    }
    assert(spec_field_string(rs, 2) == Some(m.error_message)) by {
        assert(rs =~= (e + o0) + o1 + (e + o2));
        lemma_opt_varint_other(1, i32_wire(m.status), 2);
        lemma_no_field_concat(e, o0, 2);
        lemma_oneof_other(admin_response_payload_opt_member(m.payload), 3, 7, 2); lemma_admin_response_payload_opt_member(m.payload);
        lemma_no_field_concat(e, o2, 2);
        lemma_read_string(rs, (e + o0), (e + o2), 2, m.error_message);
    }
    assert(spec_field_admin_response_payload(rs) == Some(m.payload)) by {
        assert(rs =~= (e + o0 + o1) + o2 + e);
        lemma_no_group_varint(1, i32_wire(m.status), 3, 7);
        lemma_no_group_concat(e, o0, 3, 7);
        lemma_no_group_bytes(2, encode_utf8(m.error_message), 3, 7);
        lemma_no_group_concat(e + o0, o1, 3, 7);
        lemma_admin_response_payload_opt_member(m.payload);
        lemma_read_oneof(rs, (e + o0 + o1), e, 3, 7, admin_response_payload_opt_member(m.payload));
    }
    assert(spec_parse_records(spec_records_bytes(rs)) == Some(rs)) by {
        lemma_opt_varint_wf(1, i32_wire(m.status));
        lemma_records_wf_concat(e, o0);
        lemma_opt_bytes_wf(2, encode_utf8(m.error_message));
        lemma_records_wf_concat(e + o0, o1);
        lemma_admin_response_payload_opt_member(m.payload); lemma_oneof_wf(admin_response_payload_opt_member(m.payload));
        lemma_records_wf_concat(e + o0 + o1, o2);
        assert(rs =~= e + o0 + o1 + o2);
        lemma_parse_records_roundtrip(rs);
    }
}

/// The field and the encoding that carry an IPC message.
pub open spec fn ipc_message_member(p: IpcMessageView) -> (u32, Seq<u8>) {
    match p {
        IpcMessageView::PamAuthenticate(m) => (1, spec_encode_pam_authenticate_request(m)),
        IpcMessageView::PamCancel(m) => (2, spec_encode_pam_cancel_request(m)),
        IpcMessageView::AdminRequest(m) => (3, spec_encode_admin_request(m)),
        IpcMessageView::PamResponse(m) => (4, spec_encode_pam_authenticate_response(m)),
        IpcMessageView::AdminResponse(m) => (5, spec_encode_admin_response(m)),
    }
}

/// What the bytes of member field `f` decode to.
pub open spec fn spec_decode_ipc_message_member(f: u32, b: Seq<u8>) -> Option<IpcMessageView> {
    if f == 1 {
        match spec_decode_pam_authenticate_request(b) {
            Some(v) => Some(IpcMessageView::PamAuthenticate(v)),
            None => None,
        }
    }
    else if f == 2 {
        match spec_decode_pam_cancel_request(b) {
            Some(v) => Some(IpcMessageView::PamCancel(v)),
            None => None,
        }
    }
    else if f == 3 {
        match spec_decode_admin_request(b) {
            Some(v) => Some(IpcMessageView::AdminRequest(v)),
            None => None,
        }
    }
    else if f == 4 {
        match spec_decode_pam_authenticate_response(b) {
            Some(v) => Some(IpcMessageView::PamResponse(v)),
            None => None,
        }
    }
    else if f == 5 {
        match spec_decode_admin_response(b) {
            Some(v) => Some(IpcMessageView::AdminResponse(v)),
            None => None,
        }
    } else {
        None
    }
}

/// Every length of an IPC message fits the format.
pub open spec fn ipc_message_wf(p: IpcMessageView) -> bool {
    &&& match p {
        IpcMessageView::PamAuthenticate(m) => pam_authenticate_request_wf(m),
        IpcMessageView::PamCancel(m) => pam_cancel_request_wf(m),
        IpcMessageView::AdminRequest(m) => admin_request_wf(m),
        IpcMessageView::PamResponse(m) => pam_authenticate_response_wf(m),
        IpcMessageView::AdminResponse(m) => admin_response_wf(m),
    }
    &&& ipc_message_member(p).1.len() <= u64::MAX
}

/// The member record of an optional value.
pub open spec fn ipc_message_opt_member(o: Option<IpcMessageView>) -> Option<(u32, Seq<u8>)> {
    match o {
        Some(p) => Some(ipc_message_member(p)),
        None => None,
    }
}

pub open spec fn ipc_message_opt_wf(o: Option<IpcMessageView>) -> bool {
    match o {
        Some(p) => ipc_message_wf(p),
        None => true,
    }
}

/// The member field of an optional value, and decoding its encoding.
proof fn lemma_ipc_message_opt_member(o: Option<IpcMessageView>)
    requires
        ipc_message_opt_wf(o),
    ensures
        o matches Some(p) ==> spec_decode_ipc_message_member(ipc_message_member(p).0, ipc_message_member(p).1) == Some(p),
        ipc_message_opt_member(o) matches Some((f, b)) ==> in_group(f, 1, 5) && 1 <= f <= max_field() && b.len() <= u64::MAX,
{
    match o {
        Some(p) => match p {
            IpcMessageView::PamAuthenticate(m) => {
                lemma_pam_authenticate_request_roundtrip(m);
            },
            IpcMessageView::PamCancel(m) => {
                lemma_pam_cancel_request_roundtrip(m);
            },
            IpcMessageView::AdminRequest(m) => {
                lemma_admin_request_roundtrip(m);
            },
            IpcMessageView::PamResponse(m) => {
                lemma_pam_authenticate_response_roundtrip(m);
            },
            IpcMessageView::AdminResponse(m) => {
                lemma_admin_response_roundtrip(m);
            },
        },
        None => {},
    }
}

/// An IPC message as a `oneof` over fields 1-5.
pub open spec fn spec_field_ipc_message(rs: Seq<SpecRecord>) -> Option<Option<IpcMessageView>> {
    match spec_field_oneof(rs, 1, 5) {
        None => None,
        Some(None) => Some(None),
        Some(Some((f, b))) => match spec_decode_ipc_message_member(f, b) {
            Some(p) => Some(Some(p)),
            None => None,
        },
    }
}

fn encode_ipc_message_member(p: &IpcMessage) -> (r: (u32, Vec<u8>))
    ensures
        r.0 == ipc_message_member(p@).0,
        r.1@ == ipc_message_member(p@).1,
{
    match p {
        IpcMessage::PamAuthenticate(m) => (1, encode_pam_authenticate_request(m)),
        IpcMessage::PamCancel(m) => (2, encode_pam_cancel_request(m)),
        IpcMessage::AdminRequest(m) => (3, encode_admin_request(m)),
        IpcMessage::PamResponse(m) => (4, encode_pam_authenticate_response(m)),
        IpcMessage::AdminResponse(m) => (5, encode_admin_response(m)),
    }
}

fn decode_ipc_message_member(f: u32, b: &[u8]) -> (r: Option<IpcMessage>)
    ensures
        match spec_decode_ipc_message_member(f, b@) {
            Some(v) => r matches Some(x) && x@ == v,
            None => r is None,
        },
{
    if f == 1 {
        match decode_pam_authenticate_request(b) {
            Some(x) => Some(IpcMessage::PamAuthenticate(x)),
            None => None,
        }
    }
    else if f == 2 {
        match decode_pam_cancel_request(b) {
            Some(x) => Some(IpcMessage::PamCancel(x)),
            None => None,
        }
    }
    else if f == 3 {
        match decode_admin_request(b) {
            Some(x) => Some(IpcMessage::AdminRequest(x)),
            None => None,
        }
    }
    else if f == 4 {
        match decode_pam_authenticate_response(b) {
            Some(x) => Some(IpcMessage::PamResponse(x)),
            None => None,
        }
    }
    else if f == 5 {
        match decode_admin_response(b) {
            Some(x) => Some(IpcMessage::AdminResponse(x)),
            None => None,
        }
    } else {
        None
    }
}

fn field_ipc_message(rs: &Vec<Record>) -> (r: Option<Option<IpcMessage>>)
    ensures
        r is None <==> spec_field_ipc_message(records_view(rs@)) is None,
        r matches Some(o) ==> spec_field_ipc_message(records_view(rs@)) == Some(opt_ipc_message_view(o)),
{
    match field_oneof(rs, 1, 5) {
        None => None,
        Some(None) => Some(None),
        Some(Some((f, b))) => match decode_ipc_message_member(f, b.as_slice()) {
            Some(p) => Some(Some(p)),
            None => None,
        },
    }
}

fn push_ipc_message(rs: &mut Vec<Record>, o: &Option<IpcMessage>)
    ensures
        records_view(final(rs)@) == records_view(old(rs)@) + oneof_rec(ipc_message_opt_member(opt_ipc_message_view(*o))),
        records_wf(records_view(old(rs)@)) ==> records_wf(records_view(final(rs)@)),
{
    match o {
        Some(p) => {
            let (f, b) = encode_ipc_message_member(p);
            push_oneof_field(rs, f, b);
        },
        None => {
            assert(records_view(rs@) =~= records_view(rs@) + oneof_rec(ipc_message_opt_member(opt_ipc_message_view(*o))));
        },
    }
}

/// The records of a [`IpcEnvelope`]: one per field that is not at its default.
pub open spec fn ipc_envelope_records(m: IpcEnvelopeView) -> Seq<SpecRecord> {
    oneof_rec(ipc_message_opt_member(m.msg))
}

/// Reads a [`IpcEnvelope`] from its records.
pub open spec fn ipc_envelope_from_records(rs: Seq<SpecRecord>) -> Option<IpcEnvelopeView> {
    match spec_field_ipc_message(rs) {
        Some(msg) => Some(IpcEnvelopeView { msg }),
        None => None,
    }
}

/// The encoding of a [`IpcEnvelope`].
pub open spec fn spec_encode_ipc_envelope(m: IpcEnvelopeView) -> Seq<u8> {
    spec_records_bytes(ipc_envelope_records(m))
}

/// The [`IpcEnvelope`] that `s` encodes, if any.
pub open spec fn spec_decode_ipc_envelope(s: Seq<u8>) -> Option<IpcEnvelopeView> {
    match spec_parse_records(s) {
        Some(rs) => ipc_envelope_from_records(rs),
        None => None,
    }
}

/// Every length of the message fits the format.
pub open spec fn ipc_envelope_wf(m: IpcEnvelopeView) -> bool {
    &&& ipc_message_opt_wf(m.msg)
}

/// Encodes a [`IpcEnvelope`].
pub fn encode_ipc_envelope(m: &IpcEnvelope) -> (r: Vec<u8>)
    ensures
        r@ == spec_encode_ipc_envelope(m@),
{
    let mut rs: Vec<Record> = Vec::new();
    push_ipc_message(&mut rs, &m.msg);
    assert(records_view(rs@) =~= ipc_envelope_records(m@));
    encode_records(&rs)
}

/// Decodes a [`IpcEnvelope`]; `None` exactly when `spec_decode_ipc_envelope` rejects the bytes.
pub fn decode_ipc_envelope(buf: &[u8]) -> (r: Option<IpcEnvelope>)
    ensures
        match spec_decode_ipc_envelope(buf@) {
            Some(v) => r matches Some(x) && x@ == v,
            None => r is None,
        },
{
    let rs = match parse_records(buf) {
        Some(rs) => rs,
        None => {
            return None;
        },
    };
    let msg = match field_ipc_message(&rs) {
        Some(x) => x,
        None => {
            return None;
        },
    };
    Some(IpcEnvelope { msg })
}

/// Decoding the encoding of a [`IpcEnvelope`] gives it back.
pub proof fn lemma_ipc_envelope_roundtrip(m: IpcEnvelopeView)
    requires
        ipc_envelope_wf(m),
    ensures
        spec_decode_ipc_envelope(spec_encode_ipc_envelope(m)) == Some(m),
{
    let rs = ipc_envelope_records(m);
    let o0 = oneof_rec(ipc_message_opt_member(m.msg));
    let e = Seq::<SpecRecord>::empty();
    assert(spec_field_ipc_message(rs) == Some(m.msg)) by {
        assert(rs =~= (e) + o0 + e);
        lemma_ipc_message_opt_member(m.msg);
        lemma_read_oneof(rs, (e), e, 1, 5, ipc_message_opt_member(m.msg));
    }
    assert(spec_parse_records(spec_records_bytes(rs)) == Some(rs)) by {
        lemma_ipc_message_opt_member(m.msg); lemma_oneof_wf(ipc_message_opt_member(m.msg));
        lemma_records_wf_concat(e, o0);
        assert(rs =~= e + o0);
        lemma_parse_records_roundtrip(rs);
    }
}

/// What the daemon does with a decoded envelope: an authentication, a
/// cancellation or an administration request goes to its handler, and
/// anything else (bytes that do not decode, an empty envelope, a response)
/// is rejected.
pub open spec fn spec_action_fits(d: Option<IpcEnvelopeView>, r: ConnAction) -> bool {
    match d {
        Some(IpcEnvelopeView { msg: Some(IpcMessageView::PamAuthenticate(a)) }) => r matches ConnAction::Authenticate(x)
            && x@ == a,
        Some(IpcEnvelopeView { msg: Some(IpcMessageView::PamCancel(c)) }) => r matches ConnAction::Cancel(x) && x@ == c,
        Some(IpcEnvelopeView { msg: Some(IpcMessageView::AdminRequest(a)) }) => r matches ConnAction::Admin(x) && x@ == a,
        _ => r is Reject,
    }
}

/// Dispatches the body of a frame: an empty body is a health check;
/// otherwise the envelope it decodes to decides.
pub fn dispatch_body(body: &[u8]) -> (r: ConnAction)
    ensures
        body@.len() == 0 ==> r is HealthCheck,
        body@.len() != 0 ==> spec_action_fits(spec_decode_ipc_envelope(body@), r),
{
    let envelope = decode_ipc_envelope(body);
    dispatch_frame(body.len(), envelope)
}

} // verus!
