//! The decisions of the administration handler: which pairing step may run
//! in which phase, port and configuration checks, which servers a user
//! sees, and the record a completed pairing stores.
use crate::config::{spec_user_allowed, strings_view, PairedServer, PairedServerView, PairedServers, UtcTimestamp};
use crate::daemon::ipc::{AdminRequestPayload, PairedServerInfo};
use crate::text::{decimal, hex_encode, hex_text, push_decimal};
use vstd::prelude::*;

verus! {

/// The RFC 3339 text of a UTC instant, as `chrono` writes it.
pub uninterp spec fn rfc3339(seconds: i64, nanoseconds: u32) -> Seq<char>;

/// Instants from the epoch to the end of year 9999, with a fraction below
/// one second: all of them lie within the dates chrono represents.
pub open spec fn rfc3339_in_range(t: UtcTimestamp) -> bool {
    0 <= t.seconds <= 253402300799 && t.nanoseconds < 1_000_000_000
}

/// `DateTime::<Utc>::from_timestamp(seconds, nanoseconds)` then
/// `to_rfc3339()` (the `chrono` crate); `None` only for an instant chrono
/// cannot represent, which no instant of [`rfc3339_in_range`] is (chrono
/// refuses only days beyond its years of about ±262000 and fractions of a
/// second of 10^9 ns or more outside a leap second).
#[verifier::external_body]
fn rfc3339_of(t: UtcTimestamp) -> (r: Option<String>)
    ensures
        r matches Some(s) ==> s@ == rfc3339(t.seconds, t.nanoseconds),
        rfc3339_in_range(t) ==> r is Some,
{
    match chrono::DateTime::<chrono::Utc>::from_timestamp(t.seconds, t.nanoseconds) {
        Some(d) => Some(d.to_rfc3339()),
        None => None,
    }
}

/// Where a pairing stands.
#[derive(Debug, Clone, Copy, PartialEq, Eq)]
pub enum PairingPhase {
    /// No pairing in progress.
    Idle,
    /// Listening for the phone, on the given port.
    Pending { port: u16 },
    /// Connected; the SAS is shown and awaits confirmation.
    Active,
}

/// Whether waiting for the phone may start: only from a pending pairing,
/// and only on its port when the request names one (zero names none).
pub fn wait_for_pairing_check(phase: PairingPhase, requested_port: u32) -> (r: Result<(), String>)
    ensures
        phase is Idle ==> (r matches Err(m) && m@ == "No pending pairing session"@),
        phase is Active ==> (r matches Err(m) && m@ == "Pairing already in active phase"@),
        phase matches PairingPhase::Pending { port } ==> (r is Ok <==> (requested_port == 0
            || requested_port == port)),
        phase matches PairingPhase::Pending { port } ==> (r matches Err(m) ==> m@ == "Port mismatch: expected "@
            + decimal(port as nat) + ", got "@ + decimal(requested_port as nat)),
{
    match phase {
        PairingPhase::Idle => Err("No pending pairing session".to_owned()),
        PairingPhase::Active => Err("Pairing already in active phase".to_owned()),
        PairingPhase::Pending { port } => {
            if requested_port != 0 && requested_port != port as u32 {
                let mut m = "Port mismatch: expected ".to_owned();
                push_decimal(&mut m, port as u64);
                m.append(", got ");
                push_decimal(&mut m, requested_port as u64);
                Err(m)
            } else {
                Ok(())
            }
        },
    }
}

/// Whether a pairing may be completed: only from the active phase.
pub fn complete_pairing_check(phase: PairingPhase) -> (r: Result<(), String>)
    ensures
        phase is Active ==> r is Ok,
        phase is Pending ==> (r matches Err(m) && m@ == "Pairing still pending, wait for connection first"@),
        phase is Idle ==> (r matches Err(m) && m@ == "No active pairing session"@),
{
    match phase {
        PairingPhase::Active => Ok(()),
        PairingPhase::Pending { .. } => Err(
            "Pairing still pending, wait for connection first".to_owned(),
        ),
        PairingPhase::Idle => Err("No active pairing session".to_owned()),
    }
}

/// The UDP port a configuration request asks for: the request's value
/// truncated to 16 bits, which must not be zero.
pub fn validate_udp_port(udp_port: u32) -> (r: Result<u16, String>)
    ensures
        r is Ok <==> (udp_port % 65536) != 0,
        r matches Ok(p) ==> p == udp_port % 65536,
        r matches Err(m) ==> m@ == "Invalid UDP port: must be 1-65535"@,
{
    let port = (udp_port % 65536) as u16;
    if port == 0 {
        Err("Invalid UDP port: must be 1-65535".to_owned())
    } else {
        Ok(port)
    }
}

/// Whether the daemon reloads its state after a request: after every
/// request that changes pairings, keys or configuration.
pub open spec fn spec_needs_reload(payload: Option<AdminRequestPayload>) -> bool {
    match payload {
        Some(AdminRequestPayload::CompletePairing) => true,
        Some(AdminRequestPayload::RemoveDevice { .. }) => true,
        Some(AdminRequestPayload::RotateCsk) => true,
        Some(AdminRequestPayload::SaveConfig { .. }) => true,
        Some(AdminRequestPayload::RecoverTpm) => true,
        _ => false,
    }
}

/// Whether the daemon reloads its state after the request.
pub fn needs_reload(payload: &Option<AdminRequestPayload>) -> (r: bool)
    ensures
        r == spec_needs_reload(*payload),
{
    match payload {
        Some(AdminRequestPayload::CompletePairing) => true,
        Some(AdminRequestPayload::RemoveDevice { .. }) => true,
        Some(AdminRequestPayload::RotateCsk) => true,
        Some(AdminRequestPayload::SaveConfig { .. }) => true,
        Some(AdminRequestPayload::RecoverTpm) => true,
        _ => false,
    }
}

fn copy_strings(v: &Vec<String>) -> (r: Vec<String>)
    ensures
        strings_view(r@) == strings_view(v@),
{
    let mut out: Vec<String> = Vec::new();
    let mut i: usize = 0;
    while i < v.len()
        invariant
            i <= v@.len(),
            strings_view(out@) == strings_view(v@.take(i as int)),
        decreases v@.len() - i,
    {
        let c = v[i].clone();
        assert(c@ == v@[i as int]@);
        let ghost before = out@;
        out.push(c);
        assert(v@.take(i + 1) =~= v@.take(i as int).push(v@[i as int]));
        assert(out@ =~= before.push(c));
        assert(strings_view(out@) =~= strings_view(before).push(c@));
        assert(strings_view(v@.take(i + 1)) =~= strings_view(v@.take(i as int)).push(v@[i as int]@));
        assert(strings_view(out@) =~= strings_view(v@.take(i + 1)));
        i = i + 1;
    }
    assert(v@.take(v@.len() as int) =~= v@);
    out
}

/// The servers a user may see: exactly those allowed to authenticate the
/// user, each with its pairing id as the public key.
pub fn visible_servers(servers: &PairedServers, username: &str) -> (r: Vec<PairedServerInfo>)
    ensures
        forall|i: int| 0 <= i < r@.len() ==> servers@.contains_key(#[trigger] r@[i].public_key@)
            && spec_user_allowed(servers@[r@[i].public_key@].allowed_users, username@)
            && r@[i].name@ == servers@[r@[i].public_key@].name && strings_view(r@[i].allowed_users@)
            == servers@[r@[i].public_key@].allowed_users,
        forall|i: int| 0 <= i < r@.len() && rfc3339_in_range(servers@[(#[trigger] r@[i]).public_key@].paired_at)
            ==> r@[i].paired_at@ == rfc3339(
                servers@[r@[i].public_key@].paired_at.seconds,
                servers@[r@[i].public_key@].paired_at.nanoseconds,
            ),
        forall|k: Seq<char>|
            servers@.contains_key(k) && spec_user_allowed(servers@[k].allowed_users, username@)
                ==> exists|i: int| 0 <= i < r@.len() && #[trigger] r@[i].public_key@ == k,
{
    let entries = servers.entries();
    let mut out: Vec<PairedServerInfo> = Vec::new();
    let mut i: usize = 0;
    while i < entries.len()
        invariant
            i <= entries@.len(),
            forall|j: int|
                0 <= j < entries@.len() ==> servers@.contains_key(#[trigger] entries@[j].0@)
                    && servers@[entries@[j].0@] == entries@[j].1@,
            forall|k: Seq<char>| #[trigger] servers@.contains_key(k) ==> crate::string_map::entry_ids(entries@).contains(k),
            forall|j: int| 0 <= j < out@.len() ==> servers@.contains_key(#[trigger] out@[j].public_key@)
                && spec_user_allowed(servers@[out@[j].public_key@].allowed_users, username@)
                && out@[j].name@ == servers@[out@[j].public_key@].name && strings_view(out@[j].allowed_users@)
                == servers@[out@[j].public_key@].allowed_users,
            forall|j: int| 0 <= j < out@.len() && rfc3339_in_range(servers@[(#[trigger] out@[j]).public_key@].paired_at)
                ==> out@[j].paired_at@ == rfc3339(
                    servers@[out@[j].public_key@].paired_at.seconds,
                    servers@[out@[j].public_key@].paired_at.nanoseconds,
                ),
            forall|j: int| 0 <= j < i && spec_user_allowed(#[trigger] entries@[j].1@.allowed_users, username@)
                ==> exists|m: int| 0 <= m < out@.len() && #[trigger] out@[m].public_key@ == entries@[j].0@,
        decreases entries@.len() - i,
    {
        let (id, server) = &entries[i];
        if server.is_user_allowed(username) {
            let paired_at = match rfc3339_of(server.paired_at) {
                Some(s) => s,
                None => String::new(),
            };
            let info = PairedServerInfo {
                name: server.name.clone(),
                public_key: id.clone(),
                allowed_users: copy_strings(&server.allowed_users),
                paired_at,
            };
            let ghost before = out@;
            out.push(info);
            proof {
                assert(out@[out@.len() - 1].public_key@ == entries@[i as int].0@);
                assert forall|j: int| 0 <= j <= i && spec_user_allowed(#[trigger] entries@[j].1@.allowed_users, username@)
                    implies exists|m: int| 0 <= m < out@.len() && #[trigger] out@[m].public_key@ == entries@[j].0@ by {
                    if j < i {
                        let m = choose|m: int| 0 <= m < before.len() && #[trigger] before[m].public_key@ == entries@[j].0@;
                        assert(out@[m] == before[m]);
                    } else {
                        assert(out@[out@.len() - 1].public_key@ == entries@[j].0@);
                    }
                }
            }
        }
        i = i + 1;
    }
    proof {
        assert forall|k: Seq<char>|
            servers@.contains_key(k) && spec_user_allowed(servers@[k].allowed_users, username@)
                implies exists|i: int| 0 <= i < out@.len() && #[trigger] out@[i].public_key@ == k by {
            let ids = crate::string_map::entry_ids(entries@);
            assert(ids.contains(k));
            let j = choose|j: int| 0 <= j < ids.len() && ids[j] == k;
            assert(entries@[j].0@ == k);
            assert(spec_user_allowed(entries@[j].1@.allowed_users, username@));
        }
    }
    out
}

/// The record a completed pairing stores: the server's hex public key as
/// its id, its device name, the pairing user as the only allowed user.
pub fn paired_server_record(server_device_name: String, server_public_key: &[u8; 32], username: &str, paired_at: UtcTimestamp) -> (r: (String, PairedServer))
    ensures
        r.0@ == hex_text(server_public_key@),
        r.1@ == (PairedServerView {
            name: server_device_name@,
            public_key: hex_text(server_public_key@),
            allowed_users: seq![username@],
            paired_at,
        }),
{
    let server_hex = hex_encode(server_public_key.as_slice());
    let users = vec![username.to_owned()];
    let server = PairedServer {
        name: server_device_name,
        public_key: server_hex.clone(),
        allowed_users: users,
        paired_at,
    };
    assert(strings_view(server.allowed_users@) =~= seq![username@]);
    (server_hex, server)
}

} // verus!
