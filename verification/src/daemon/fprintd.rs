//! The virtual fingerprint reader the daemon offers desktops over D-Bus:
//! claiming, starting and stopping a verification, and the status a
//! verification ends with.
use crate::config::{strings_view, PairedServerView, PairedServers};
use crate::daemon::ipc::{spec_outcome_of, PamOutcome};
use crate::string_map::entry_ids;
use vstd::prelude::*;

verus! {

/// Error name for a device or verification already in use.
pub const ERROR_ALREADY_IN_USE: &'static str = "net.reactivated.Fprint.Error.AlreadyInUse";

/// Error name for a daemon that cannot authenticate.
pub const ERROR_INTERNAL: &'static str = "net.reactivated.Fprint.Error.Internal";

/// Error name for a daemon without pairings.
pub const ERROR_NO_ENROLLED_PRINTS: &'static str = "net.reactivated.Fprint.Error.NoEnrolledPrints";

/// The finger the device reports as enrolled.
pub const ENROLLED_FINGER: &'static str = "right-index-finger";

/// The state of the virtual device.
pub struct VirtualFprintDevice {
    claimed_user: Option<String>,
    verifying: bool,
}

/// The state as a value: who claimed the device, and whether a
/// verification runs.
pub struct DeviceView {
    pub claimed_user: Option<Seq<char>>,
    pub verifying: bool,
}

impl View for VirtualFprintDevice {
    type V = DeviceView;

    closed spec fn view(&self) -> DeviceView {
        DeviceView {
            claimed_user: match &self.claimed_user {
                Some(u) => Some(u@),
                None => None,
            },
            verifying: self.verifying,
        }
    }
}

impl VirtualFprintDevice {
    /// An unclaimed, idle device.
    pub fn new() -> (r: Self)
        ensures
            r@.claimed_user is None,
            !r@.verifying,
    {
        VirtualFprintDevice { claimed_user: None, verifying: false }
    }

    /// Whether the device waits for a finger (a verification runs).
    pub fn finger_needed(&self) -> (r: bool)
        ensures
            r == self@.verifying,
    {
        self.verifying
    }

    /// Claims the device for `username`; fails while it is claimed.
    pub fn claim(&mut self, username: String) -> (r: Result<(), &'static str>)
        ensures
            old(self)@.claimed_user is Some ==> r == Err::<(), &'static str>(ERROR_ALREADY_IN_USE)
                && final(self)@ == old(self)@,
            old(self)@.claimed_user is None ==> r is Ok && final(self)@ == (DeviceView {
                claimed_user: Some(username@),
                ..old(self)@
            }),
    {
        if self.claimed_user.is_some() {
            return Err(ERROR_ALREADY_IN_USE);
        }
        self.claimed_user = Some(username);
        Ok(())
    }

    /// Releases the device.
    pub fn release(&mut self)
        ensures
            final(self)@ == (DeviceView { claimed_user: None, ..old(self)@ }),
    {
        self.claimed_user = None;
    }

    /// Starts a verification: refused when the daemon cannot authenticate,
    /// or when one already runs.
    pub fn verify_start(&mut self, daemon_healthy: bool) -> (r: Result<(), &'static str>)
        ensures
            !daemon_healthy ==> r == Err::<(), &'static str>(ERROR_INTERNAL) && final(self)@ == old(self)@,
            daemon_healthy && old(self)@.verifying ==> r == Err::<(), &'static str>(ERROR_ALREADY_IN_USE)
                && final(self)@ == old(self)@,
            daemon_healthy && !old(self)@.verifying ==> r is Ok && final(self)@ == (DeviceView {
                verifying: true,
                ..old(self)@
            }),
    {
        if !daemon_healthy {
            return Err(ERROR_INTERNAL);
        }
        if self.verifying {
            return Err(ERROR_ALREADY_IN_USE);
        }
        self.verifying = true;
        Ok(())
    }

    /// Stops a verification.
    pub fn verify_stop(&mut self)
        ensures
            final(self)@ == (DeviceView { verifying: false, ..old(self)@ }),
    {
        self.verifying = false;
    }
}

/// The enrolled fingers: one while any pairing exists.
pub fn list_enrolled_fingers(servers: &PairedServers) -> (r: Result<Vec<String>, &'static str>)
    ensures
        servers@.len() == 0 ==> r == Err::<Vec<String>, &'static str>(ERROR_NO_ENROLLED_PRINTS),
        servers@.len() != 0 ==> (r matches Ok(v) && strings_view(v@) == seq![ENROLLED_FINGER@]),
{
    if servers.len() == 0 {
        return Err(ERROR_NO_ENROLLED_PRINTS);
    }
    let v = vec![ENROLLED_FINGER.to_owned()];
    assert(strings_view(v@) =~= seq![ENROLLED_FINGER@]);
    Ok(v)
}

/// The status a verification ends with, from the authentication's outcome
/// code (`None` when the handler failed): a match on success, no match on
/// denial, an unknown error otherwise; the verification is always done.
pub open spec fn spec_verify_status(outcome: Option<i32>) -> (&'static str, bool) {
    match outcome {
        Some(code) => match spec_outcome_of(code) {
            Some(PamOutcome::Success) => ("verify-match", true),
            Some(PamOutcome::Denied) => ("verify-no-match", true),
            _ => ("verify-unknown-error", true),
        },
        None => ("verify-unknown-error", true),
    }
}

/// The status a verification ends with.
pub fn verify_status(outcome: Option<i32>) -> (r: (&'static str, bool))
    ensures
        r == spec_verify_status(outcome),
{
    match outcome {
        Some(code) => match PamOutcome::try_from_i32(code) {
            Some(PamOutcome::Success) => ("verify-match", true),
            Some(PamOutcome::Denied) => ("verify-no-match", true),
            _ => ("verify-unknown-error", true),
        },
        None => ("verify-unknown-error", true),
    }
}

/// The user a desktop verification authenticates: the first allowed user
/// of one paired server (the first entry), or `default` when there is no
/// server or that server allows nobody. Which server comes first is not
/// stated; with no server, or when every server allows someone, the result
/// is determined as far as the ensures say.
pub fn verify_username(servers: &PairedServers) -> (r: String)
    ensures
        r@ == "default"@ || exists|k: Seq<char>|
            servers@.contains_key(k) && servers@[k].allowed_users.len() > 0
                && r@ == servers@[k].allowed_users[0],
        servers@.dom().is_empty() ==> r@ == "default"@,
        !servers@.dom().is_empty() && (forall|k: Seq<char>|
            servers@.contains_key(k) ==> #[trigger] servers@[k].allowed_users.len() > 0) ==> exists|
            k: Seq<char>,
        | servers@.contains_key(k) && r@ == servers@[k].allowed_users[0],
{
    let entries = servers.entries();
    if entries.len() == 0 {
        proof {
            if !servers@.dom().is_empty() {
                let k = servers@.dom().choose();
                assert(servers@.contains_key(k));
                assert(entry_ids(entries@).contains(k));
            }
        }
        return "default".to_owned();
    }
    let users = &entries[0].1.allowed_users;
    if users.len() == 0 {
        proof {
            let k = entries@[0].0@;
            assert(servers@.contains_key(k) && servers@[k] == entries@[0].1@);
            assert(servers@[k].allowed_users.len() == 0);
        }
        return "default".to_owned();
    }
    let u = users[0].clone();
    assert(servers@.contains_key(entries@[0].0@));
    assert(strings_view(users@)[0] == users@[0]@);
    u
}

} // verus!
