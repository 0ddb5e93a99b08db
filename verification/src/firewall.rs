//! Opening and closing the ephemeral pairing port in the host firewall.
//!
//! The library decides which command to run (firewalld's `firewall-cmd`
//! when firewalld is active, `iptables` otherwise), what each outcome of
//! running it means, and keeps the register of live guards: holders of one
//! port share its guard, and the port is closed when the last one lets go.
//! Running the commands is the caller's part.
use crate::text::{decimal, push_decimal};
use std::collections::HashMap;
use vstd::prelude::*;

verus! {

broadcast use vstd::std_specs::hash::group_hash_axioms;

/// A transport protocol whose port is opened.
#[derive(Debug, Clone, Copy, PartialEq, Eq, Structural)]
pub enum Protocol {
    Tcp,
    Udp,
}

/// The protocol's name as the firewall tools spell it.
pub open spec fn protocol_name(p: Protocol) -> &'static str {
    match p {
        Protocol::Tcp => "tcp",
        Protocol::Udp => "udp",
    }
}

impl Protocol {
    /// The protocol's name: `tcp` or `udp`.
    pub fn name(&self) -> (r: &'static str)
        ensures
            r@ == protocol_name(*self)@,
    {
        match self {
            Protocol::Tcp => "tcp",
            Protocol::Udp => "udp",
        }
    }
}

/// A command to run: the program and its arguments.
pub struct FirewallCommand {
    pub program: &'static str,
    pub args: Vec<String>,
}

impl FirewallCommand {
    /// The program's name and the arguments' texts.
    pub open spec fn command_view(&self) -> (Seq<char>, Seq<Seq<char>>) {
        (self.program@, self.args@.map_values(|a: String| a@))
    }
}

/// `<port>/<protocol>`, as `firewall-cmd` takes a port.
pub open spec fn port_spec(port: u16, protocol: Protocol) -> Seq<char> {
    decimal(port as nat) + "/"@ + protocol_name(protocol)@
}

/// The command that opens a port.
pub open spec fn spec_open_command(port: u16, protocol: Protocol, firewalld: bool) -> (
    Seq<char>,
    Seq<Seq<char>>,
) {
    if firewalld {
        ("firewall-cmd"@, seq!["--add-port"@, port_spec(port, protocol)])
    } else {
        (
            "iptables"@,
            seq![
                "-I"@,
                "INPUT"@,
                "1"@,
                "-p"@,
                protocol_name(protocol)@,
                "--dport"@,
                decimal(port as nat),
                "-j"@,
                "ACCEPT"@,
            ],
        )
    }
}

/// The command that closes a port.
pub open spec fn spec_close_command(port: u16, protocol: Protocol, firewalld: bool) -> (
    Seq<char>,
    Seq<Seq<char>>,
) {
    if firewalld {
        ("firewall-cmd"@, seq!["--remove-port"@, port_spec(port, protocol)])
    } else {
        (
            "iptables"@,
            seq![
                "-D"@,
                "INPUT"@,
                "-p"@,
                protocol_name(protocol)@,
                "--dport"@,
                decimal(port as nat),
                "-j"@,
                "ACCEPT"@,
            ],
        )
    }
}

fn text(s: &str) -> (r: String)
    ensures
        r@ == s@,
{
    s.to_owned()
}

fn decimal_text(n: u16) -> (r: String)
    ensures
        r@ == decimal(n as nat),
{
    let mut s = String::new();
    let ghost before = s@;
    push_decimal(&mut s, n as u64);
    assert(before + decimal(n as nat) =~= decimal(n as nat));
    s
}

fn port_spec_text(port: u16, protocol: Protocol) -> (r: String)
    ensures
        r@ == port_spec(port, protocol),
{
    let mut s = decimal_text(port);
    s.append("/");
    s.append(protocol.name());
    s
}

/// The command that opens `port` for `protocol`: `firewall-cmd --add-port
/// <port>/<protocol>` when firewalld runs, else an `iptables` rule inserted
/// first in the INPUT chain.
pub fn open_command(port: u16, protocol: Protocol, firewalld_running: bool) -> (r: FirewallCommand)
    ensures
        r.command_view() == spec_open_command(port, protocol, firewalld_running),
{
    let mut args: Vec<String> = Vec::new();
    let program;
    if firewalld_running {
        program = "firewall-cmd";
        args.push(text("--add-port"));
        args.push(port_spec_text(port, protocol));
    } else {
        program = "iptables";
        args.push(text("-I"));
        args.push(text("INPUT"));
        args.push(text("1"));
        args.push(text("-p"));
        args.push(text(protocol.name()));
        args.push(text("--dport"));
        args.push(decimal_text(port));
        args.push(text("-j"));
        args.push(text("ACCEPT"));
    }
    let r = FirewallCommand { program, args };
    assert(r.command_view().1 =~= spec_open_command(port, protocol, firewalld_running).1);
    r
}

/// The command that closes `port` for `protocol`: `firewall-cmd
/// --remove-port <port>/<protocol>` when firewalld runs, else the deletion
/// of the `iptables` rule.
pub fn close_command(port: u16, protocol: Protocol, firewalld_running: bool) -> (r: FirewallCommand)
    ensures
        r.command_view() == spec_close_command(port, protocol, firewalld_running),
{
    let mut args: Vec<String> = Vec::new();
    let program;
    if firewalld_running {
        program = "firewall-cmd";
        args.push(text("--remove-port"));
        args.push(port_spec_text(port, protocol));
    } else {
        program = "iptables";
        args.push(text("-D"));
        args.push(text("INPUT"));
        args.push(text("-p"));
        args.push(text(protocol.name()));
        args.push(text("--dport"));
        args.push(decimal_text(port));
        args.push(text("-j"));
        args.push(text("ACCEPT"));
    }
    let r = FirewallCommand { program, args };
    assert(r.command_view().1 =~= spec_close_command(port, protocol, firewalld_running).1);
    r
}

/// What running a command came to: it ran and succeeded; it ran and failed
/// (with the exit status in words); the program was not found; or it could
/// not be started for another reason (in words).
#[derive(Debug, Clone, PartialEq, Eq)]
pub enum CommandOutcome {
    Success,
    Failed(String),
    NotFound(String),
    SpawnFailed(String),
}

/// What opening a port came to, given how its command ended.
pub open spec fn spec_open_result(firewalld: bool, outcome: CommandOutcome) -> Result<(), Seq<char>> {
    if firewalld {
        match outcome {
            CommandOutcome::Success => Ok(()),
            CommandOutcome::Failed(status) => Err("firewall-cmd failed with status: "@ + status@),
            CommandOutcome::NotFound(e) => Err("Failed to execute firewall-cmd: "@ + e@),
            CommandOutcome::SpawnFailed(e) => Err("Failed to execute firewall-cmd: "@ + e@),
        }
    } else {
        match outcome {
            CommandOutcome::Success => Ok(()),
            CommandOutcome::Failed(status) => Err("iptables command failed with status: "@ + status@),
            CommandOutcome::NotFound(_) => Ok(()),
            CommandOutcome::SpawnFailed(e) => Err("Failed to execute iptables: "@ + e@),
        }
    }
}

/// What closing a port came to, given how its command ended.
pub open spec fn spec_close_result(
    port: u16,
    protocol: Protocol,
    firewalld: bool,
    outcome: CommandOutcome,
) -> Result<(), Seq<char>> {
    if firewalld {
        let head = "Failed to close firewall port "@ + port_spec(port, protocol) + ": "@;
        match outcome {
            CommandOutcome::Success => Ok(()),
            CommandOutcome::Failed(status) => Err(head + "firewall-cmd failed with status: "@ + status@),
            CommandOutcome::NotFound(e) => Err(head + "Failed to execute firewall-cmd: "@ + e@),
            CommandOutcome::SpawnFailed(e) => Err(head + "Failed to execute firewall-cmd: "@ + e@),
        }
    } else {
        match outcome {
            CommandOutcome::Success => Ok(()),
            CommandOutcome::Failed(status) => Err("iptables -D failed with exit status: "@ + status@),
            CommandOutcome::NotFound(_) => Ok(()),
            CommandOutcome::SpawnFailed(e) => Err("Failed to execute iptables -D: "@ + e@),
        }
    }
}

fn joined(a: &str, b: &str) -> (r: String)
    ensures
        r@ == a@ + b@,
{
    let mut s = a.to_owned();
    s.append(b);
    s
}

/// The result of opening a port, from how its command ended: with
/// firewalld every failure is an error; with `iptables` a missing program
/// means there is no firewall to open, which is success.
pub fn open_result(firewalld_running: bool, outcome: &CommandOutcome) -> (r: Result<(), String>)
    ensures
        match r {
            Ok(()) => spec_open_result(firewalld_running, *outcome) == Ok::<(), Seq<char>>(()),
            Err(m) => spec_open_result(firewalld_running, *outcome) == Err::<(), Seq<char>>(m@),
        },
{
    if firewalld_running {
        match outcome {
            CommandOutcome::Success => Ok(()),
            CommandOutcome::Failed(status) => Err(joined("firewall-cmd failed with status: ", status.as_str())),
            CommandOutcome::NotFound(e) => Err(joined("Failed to execute firewall-cmd: ", e.as_str())),
            CommandOutcome::SpawnFailed(e) => Err(joined("Failed to execute firewall-cmd: ", e.as_str())),
        }
    } else {
        match outcome {
            CommandOutcome::Success => Ok(()),
            CommandOutcome::Failed(status) => Err(joined("iptables command failed with status: ", status.as_str())),
            CommandOutcome::NotFound(_) => Ok(()),
            CommandOutcome::SpawnFailed(e) => Err(joined("Failed to execute iptables: ", e.as_str())),
        }
    }
}

/// The result of closing a port, from how its command ended; firewalld's
/// failures name the port.
pub fn close_result(port: u16, protocol: Protocol, firewalld_running: bool, outcome: &CommandOutcome) -> (r: Result<(), String>)
    ensures
        match r {
            Ok(()) => spec_close_result(port, protocol, firewalld_running, *outcome) == Ok::<(), Seq<char>>(()),
            Err(m) => spec_close_result(port, protocol, firewalld_running, *outcome) == Err::<(), Seq<char>>(m@),
        },
{
    if firewalld_running {
        let mut head = text("Failed to close firewall port ");
        head.append(port_spec_text(port, protocol).as_str());
        head.append(": ");
        match outcome {
            CommandOutcome::Success => Ok(()),
            CommandOutcome::Failed(status) => {
                head.append("firewall-cmd failed with status: ");
                head.append(status.as_str());
                Err(head)
            },
            CommandOutcome::NotFound(e) => {
                head.append("Failed to execute firewall-cmd: ");
                head.append(e.as_str());
                Err(head)
            },
            CommandOutcome::SpawnFailed(e) => {
                head.append("Failed to execute firewall-cmd: ");
                head.append(e.as_str());
                Err(head)
            },
        }
    } else {
        match outcome {
            CommandOutcome::Success => Ok(()),
            CommandOutcome::Failed(status) => Err(joined("iptables -D failed with exit status: ", status.as_str())),
            CommandOutcome::NotFound(_) => Ok(()),
            CommandOutcome::SpawnFailed(e) => Err(joined("Failed to execute iptables -D: ", e.as_str())),
        }
    }
}

/// A held claim on an open port. While any guard of a port is held, the
/// port stays open.
#[derive(Debug)]
pub struct FirewallGuard {
    port: u16,
    protocol: Protocol,
}

impl View for FirewallGuard {
    type V = (u16, Protocol);

    closed spec fn view(&self) -> (u16, Protocol) {
        (self.port, self.protocol)
    }
}

impl FirewallGuard {
    /// The guarded port.
    pub fn port(&self) -> (r: u16)
        ensures
            r == self@.0,
    {
        self.port
    }

    /// The guarded port's protocol.
    pub fn protocol(&self) -> (r: Protocol)
        ensures
            r == self@.1,
    {
        self.protocol
    }
}

/// The ports with live guards: each with its protocol and how many guards
/// of it are held.
pub struct GuardRegistry {
    holders: HashMap<u16, (Protocol, u64)>,
}

impl View for GuardRegistry {
    type V = Map<u16, (Protocol, nat)>;

    closed spec fn view(&self) -> Map<u16, (Protocol, nat)> {
        self.holders@.map_values(|v: (Protocol, u64)| (v.0, v.1 as nat))
    }
}

/// The register after one more guard of a live port is handed out.
pub open spec fn spec_acquire(m: Map<u16, (Protocol, nat)>, port: u16) -> Map<u16, (Protocol, nat)> {
    if m.contains_key(port) {
        m.insert(port, (m[port].0, m[port].1 + 1))
    } else {
        m
    }
}

/// The register after a guard of `port` is let go, and whether the port
/// is then to be closed (it was the last guard).
pub open spec fn spec_release(m: Map<u16, (Protocol, nat)>, port: u16) -> (Map<u16, (Protocol, nat)>, bool) {
    if m[port].1 <= 1 {
        (m.remove(port), true)
    } else {
        (m.insert(port, (m[port].0, (m[port].1 - 1) as nat)), false)
    }
}

impl GuardRegistry {
    #[verifier::type_invariant]
    spec fn counts_positive(self) -> bool {
        forall|p: u16| #[trigger] self.holders@.contains_key(p) ==> self.holders@[p].1 >= 1
    }

    /// An empty register.
    pub fn new() -> (r: Self)
        ensures
            r@ == Map::<u16, (Protocol, nat)>::empty(),
    {
        let r = GuardRegistry { holders: HashMap::new() };
        assert(r@ =~= Map::<u16, (Protocol, nat)>::empty());
        r
    }

    /// How many guards of `port` are held (0 when it is not open).
    pub fn holders(&self, port: u16) -> (r: u64)
        ensures
            r == (if self@.contains_key(port) {
                self@[port].1
            } else {
                0
            }),
    {
        match self.holders.get(&port) {
            Some(entry) => entry.1,
            None => 0,
        }
    }

    /// Hands out another guard of `port` when one is live: the port stays
    /// open and is shared. `None` when no guard of it is held; the caller
    /// then opens the port and makes the first guard with
    /// `FirewallGuard::new`.
    pub fn acquire(&mut self, port: u16) -> (r: Option<FirewallGuard>)
        requires
            old(self)@.contains_key(port) ==> old(self)@[port].1 < u64::MAX,
        ensures
            final(self)@ == spec_acquire(old(self)@, port),
            match r {
                Some(g) => old(self)@.contains_key(port) && g@ == (port, old(self)@[port].0),
                None => !old(self)@.contains_key(port),
            },
    {
        proof {
            use_type_invariant(&*self);
        }
        let found = match self.holders.get(&port) {
            Some(entry) => Some(*entry),
            None => None,
        };
        match found {
            Some((protocol, count)) => {
                let mut holders = HashMap::new();
                std::mem::swap(&mut holders, &mut self.holders);
                holders.insert(port, (protocol, count + 1));
                self.holders = holders;
                assert(self@ =~= spec_acquire(old(self)@, port));
                Some(FirewallGuard { port, protocol })
            },
            None => None,
        }
    }

    /// Lets go of a guard. When it was the last of its port, the port
    /// leaves the register and `true` says it is to be closed.
    pub fn release(&mut self, guard: FirewallGuard) -> (close: bool)
        requires
            old(self)@.contains_key(guard@.0),
        ensures
            (final(self)@, close) == spec_release(old(self)@, guard@.0),
    {
        proof {
            use_type_invariant(&*self);
        }
        let port = guard.port;
        let (protocol, count) = match self.holders.get(&port) {
            Some(entry) => *entry,
            None => (guard.protocol, 1),
        };
        let mut holders = HashMap::new();
        std::mem::swap(&mut holders, &mut self.holders);
        if count <= 1 {
            holders.remove(&port);
            self.holders = holders;
            assert(self@ =~= old(self)@.remove(port));
            true
        } else {
            holders.insert(port, (protocol, count - 1));
            self.holders = holders;
            assert(self@ =~= old(self)@.insert(port, (protocol, (count - 1) as nat)));
            false
        }
    }
}

impl FirewallGuard {
    /// The first guard of a port, once opening it came to `opened`: on
    /// success the port enters the register with one holder; on failure
    /// the register is unchanged and the error is handed back.
    pub fn new(registry: &mut GuardRegistry, port: u16, protocol: Protocol, opened: Result<(), String>) -> (r: Result<
        FirewallGuard,
        String,
    >)
        requires
            !old(registry)@.contains_key(port),
        ensures
            match opened {
                Ok(()) => r matches Ok(g) && g@ == (port, protocol) && final(registry)@ == old(registry)@.insert(
                    port,
                    (protocol, 1nat),
                ),
                Err(e) => r == Err::<FirewallGuard, String>(e) && final(registry)@ == old(registry)@,
            },
    {
        proof {
            use_type_invariant(&*registry);
        }
        match opened {
            Ok(()) => {
                let mut holders = HashMap::new();
                std::mem::swap(&mut holders, &mut registry.holders);
                holders.insert(port, (protocol, 1));
                registry.holders = holders;
                assert(registry@ =~= old(registry)@.insert(port, (protocol, 1nat)));
                Ok(FirewallGuard { port, protocol })
            },
            Err(e) => Err(e),
        }
    }
}

/// Sharing a live port and then letting go of the shared guard leaves the
/// register as it was, and does not close the port.
pub proof fn lemma_share_then_release(m: Map<u16, (Protocol, nat)>, port: u16)
    requires
        m.contains_key(port),
        m[port].1 >= 1,
    ensures
        spec_release(spec_acquire(m, port), port) == (m, false),
{
    let a = spec_acquire(m, port);
    assert(a[port].1 == m[port].1 + 1);
    assert(spec_release(a, port).0 =~= m);
}

/// The port's first guard, let go, closes the port and leaves the register
/// as it was before the port was opened.
pub proof fn lemma_last_release_closes(m: Map<u16, (Protocol, nat)>, port: u16, protocol: Protocol)
    requires
        !m.contains_key(port),
    ensures
        spec_release(m.insert(port, (protocol, 1nat)), port) == (m, true),
{
    assert(spec_release(m.insert(port, (protocol, 1nat)), port).0 =~= m);
}

/// A port is closed only when its last guard is let go: while other guards
/// are held the port stays registered.
pub proof fn lemma_port_stays_open_while_held(m: Map<u16, (Protocol, nat)>, port: u16)
    requires
        m.contains_key(port),
        m[port].1 >= 2,
    ensures
        !spec_release(m, port).1,
        spec_release(m, port).0.contains_key(port),
        spec_release(m, port).0[port].1 == m[port].1 - 1,
{
}

} // verus!
