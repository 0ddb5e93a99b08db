//! Peer identification with typed errors: who is on the other end of the
//! administration socket, and whether PolicyKit lets them administer.
use crate::daemon::peer::{parse_process_start_time, signed_decimal, spec_start_time, PeerIdentity, StatError};
use crate::text::{decimal, push_decimal};
use vstd::prelude::*;

verus! {

/// Why a peer could not be identified or authorized.
#[derive(Debug, Clone, PartialEq, Eq)]
pub enum PeerIdentityError {
    InvalidPid(i32),
    ResolveFailed,
    /// The stat file could not be read (with the reason).
    ProcStatRead { pid: i32, source: String },
    ProcStatMalformed { pid: i32, detail: String },
    DBusUnavailable(String),
    AuthorizationDenied,
    PolKitUnavailable { reason: String },
    PolKitError(String),
}

/// The message of each error.
pub open spec fn spec_peer_error_message(e: PeerIdentityError) -> Seq<char> {
    match e {
        PeerIdentityError::InvalidPid(pid) => "invalid peer PID "@ + signed_decimal(pid as int),
        PeerIdentityError::ResolveFailed => "failed to resolve peer identity"@,
        PeerIdentityError::ProcStatRead { pid, source } => "cannot read /proc/"@ + signed_decimal(pid as int)
            + "/stat: "@ + source@,
        PeerIdentityError::ProcStatMalformed { pid, detail } => "malformed /proc/"@ + signed_decimal(
            pid as int,
        ) + "/stat: "@ + detail@,
        PeerIdentityError::DBusUnavailable(m) => "D-Bus connection failed: "@ + m@,
        PeerIdentityError::AuthorizationDenied => "authorization denied by PolKit"@,
        PeerIdentityError::PolKitUnavailable { reason } => "PolKit unavailable ("@ + reason@
            + ") and caller is not root"@,
        PeerIdentityError::PolKitError(m) => "PolKit authorization failed: "@ + m@,
    }
}

fn push_signed_pid(s: &mut String, pid: i32)
    ensures
        final(s)@ == old(s)@ + signed_decimal(pid as int),
{
    proof {
        reveal_strlit("-");
    }
    if pid < 0 {
        s.append("-");
        let magnitude: i64 = -(pid as i64);
        push_decimal(s, magnitude as u64);
        assert(final(s)@ =~= old(s)@ + signed_decimal(pid as int));
    } else {
        push_decimal(s, pid as u64);
    }
}

impl PeerIdentityError {
    /// The error's message.
    pub fn message(&self) -> (r: String)
        ensures
            r@ == spec_peer_error_message(*self),
    {
        match self {
            PeerIdentityError::InvalidPid(pid) => {
                let mut m = "invalid peer PID ".to_owned();
                push_signed_pid(&mut m, *pid);
                m
            },
            PeerIdentityError::ResolveFailed => "failed to resolve peer identity".to_owned(),
            PeerIdentityError::ProcStatRead { pid, source } => {
                let mut m = "cannot read /proc/".to_owned();
                push_signed_pid(&mut m, *pid);
                m.append("/stat: ");
                m.append(source.as_str());
                m
            },
            PeerIdentityError::ProcStatMalformed { pid, detail } => {
                let mut m = "malformed /proc/".to_owned();
                push_signed_pid(&mut m, *pid);
                m.append("/stat: ");
                m.append(detail.as_str());
                m
            },
            PeerIdentityError::DBusUnavailable(e) => {
                let mut m = "D-Bus connection failed: ".to_owned();
                m.append(e.as_str());
                m
            },
            PeerIdentityError::AuthorizationDenied => "authorization denied by PolKit".to_owned(),
            PeerIdentityError::PolKitUnavailable { reason } => {
                let mut m = "PolKit unavailable (".to_owned();
                m.append(reason.as_str());
                m.append(") and caller is not root");
                m
            },
            PeerIdentityError::PolKitError(e) => {
                let mut m = "PolKit authorization failed: ".to_owned();
                m.append(e.as_str());
                m
            },
        }
    }
}

/// The detail of a malformed stat text.
pub open spec fn spec_stat_detail(e: StatError) -> Seq<char> {
    match e {
        StatError::NoClosingParenthesis => "no closing parenthesis"@,
        StatError::TooFewFields(n) => "only "@ + decimal(n as nat) + " fields after comm"@,
        StatError::BadStartTime(too_large) => "failed to parse start_time: "@ + if too_large {
            "number too large to fit in target type"@
        } else {
            "invalid digit found in string"@
        },
    }
}

fn stat_detail(e: &StatError) -> (r: String)
    ensures
        r@ == spec_stat_detail(*e),
{
    match e {
        StatError::NoClosingParenthesis => "no closing parenthesis".to_owned(),
        StatError::TooFewFields(n) => {
            let mut m = "only ".to_owned();
            push_decimal(&mut m, *n as u64);
            m.append(" fields after comm");
            m
        },
        StatError::BadStartTime(too_large) => {
            let mut m = "failed to parse start_time: ".to_owned();
            if *too_large {
                m.append("number too large to fit in target type");
            } else {
                m.append("invalid digit found in string");
            }
            m
        },
    }
}

/// Identifies a peer from its pid, the name of the user its uid belongs
/// to (`None` when the lookup failed or found no user) and the reading of
/// its stat file (a failure's reason, or the text). A pid that is not
/// positive is refused first.
pub fn resolve_peer(pid: i32, uid: u32, user: Option<String>, stat: Result<String, String>) -> (r: Result<
    PeerIdentity,
    PeerIdentityError,
>)
    ensures
        pid <= 0 ==> r == Err::<PeerIdentity, PeerIdentityError>(PeerIdentityError::InvalidPid(pid)),
        pid > 0 && user is None ==> r == Err::<PeerIdentity, PeerIdentityError>(PeerIdentityError::ResolveFailed),
        pid > 0 && user is Some ==> match stat {
            Err(e) => r matches Err(PeerIdentityError::ProcStatRead { pid: p, source }) && p == pid && source@ == e@,
            Ok(text) => match spec_start_time(text@) {
                Ok(t) => r matches Ok(id) && id.pid == pid && id.uid == uid && id.username == user->0
                    && id.start_time == t,
                Err(se) => r matches Err(PeerIdentityError::ProcStatMalformed { pid: p, detail }) && p == pid
                    && detail@ == spec_stat_detail(se),
            },
        },
{
    if pid <= 0 {
        return Err(PeerIdentityError::InvalidPid(pid));
    }
    let username = match user {
        None => {
            return Err(PeerIdentityError::ResolveFailed);
        },
        Some(name) => name,
    };
    let text = match stat {
        Err(e) => {
            return Err(PeerIdentityError::ProcStatRead { pid, source: e });
        },
        Ok(t) => t,
    };
    match parse_process_start_time(text.as_str()) {
        Ok(start_time) => Ok(PeerIdentity { pid, uid, username, start_time }),
        Err(se) => Err(PeerIdentityError::ProcStatMalformed { pid, detail: stat_detail(&se) }),
    }
}

/// The decision on an administration request from PolicyKit's answer:
/// granted or denied as PolicyKit says; when the system bus is
/// unreachable only root is let through; any other failure stands.
pub fn check_authorization(polkit: Result<bool, PeerIdentityError>, uid: u32) -> (r: Result<(), PeerIdentityError>)
    ensures
        polkit matches Ok(true) ==> r is Ok,
        polkit matches Ok(false) ==> r == Err::<(), PeerIdentityError>(PeerIdentityError::AuthorizationDenied),
        polkit matches Err(PeerIdentityError::DBusUnavailable(m)) ==> (uid == 0 ==> r is Ok) && (uid != 0 ==> (
        r matches Err(PeerIdentityError::PolKitUnavailable { reason }) && reason@ == "D-Bus unavailable ("@
            + spec_peer_error_message(PeerIdentityError::DBusUnavailable(m))
            + ") and caller is not root. Install PolicyKit or run as root."@)),
        polkit is Err && !(polkit->Err_0 is DBusUnavailable) ==> r == Err::<(), PeerIdentityError>(polkit->Err_0),
{
    match polkit {
        Ok(true) => Ok(()),
        Ok(false) => Err(PeerIdentityError::AuthorizationDenied),
        Err(e) => match e {
            PeerIdentityError::DBusUnavailable(_) => {
                if uid == 0 {
                    Ok(())
                } else {
                    let mut reason = "D-Bus unavailable (".to_owned();
                    reason.append(e.message().as_str());
                    reason.append(") and caller is not root. Install PolicyKit or run as root.");
                    Err(PeerIdentityError::PolKitUnavailable { reason })
                }
            },
            _ => Err(e),
        },
    }
}

} // verus!
