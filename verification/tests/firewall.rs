use tapauth::firewall::{
    close_command, close_result, open_command, open_result, CommandOutcome, FirewallGuard,
    GuardRegistry, Protocol,
};

fn args(v: &[&str]) -> Vec<String> {
    v.iter().map(|s| s.to_string()).collect()
}

#[test]
fn protocol_names() {
    assert_eq!(Protocol::Tcp.name(), "tcp");
    assert_eq!(Protocol::Udp.name(), "udp");
}

#[test]
fn open_and_close_commands() {
    let c = open_command(4242, Protocol::Tcp, true);
    assert_eq!(c.program, "firewall-cmd");
    assert_eq!(c.args, args(&["--add-port", "4242/tcp"]));
    let c = open_command(4242, Protocol::Udp, false);
    assert_eq!(c.program, "iptables");
    assert_eq!(c.args, args(&["-I", "INPUT", "1", "-p", "udp", "--dport", "4242", "-j", "ACCEPT"]));
    let c = close_command(80, Protocol::Tcp, true);
    assert_eq!(c.args, args(&["--remove-port", "80/tcp"]));
    let c = close_command(80, Protocol::Tcp, false);
    assert_eq!(c.program, "iptables");
    assert_eq!(c.args, args(&["-D", "INPUT", "-p", "tcp", "--dport", "80", "-j", "ACCEPT"]));
}

#[test]
fn command_outcomes() {
    assert_eq!(open_result(true, &CommandOutcome::Success), Ok(()));
    assert_eq!(
        open_result(true, &CommandOutcome::Failed("exit status: 1".into())),
        Err("firewall-cmd failed with status: exit status: 1".to_string())
    );
    assert_eq!(
        open_result(true, &CommandOutcome::NotFound("No such file".into())),
        Err("Failed to execute firewall-cmd: No such file".to_string())
    );
    // Without firewalld, a missing iptables means there is nothing to open.
    assert_eq!(open_result(false, &CommandOutcome::NotFound("No such file".into())), Ok(()));
    assert_eq!(
        open_result(false, &CommandOutcome::SpawnFailed("denied".into())),
        Err("Failed to execute iptables: denied".to_string())
    );
    assert_eq!(
        close_result(5000, Protocol::Tcp, true, &CommandOutcome::Failed("exit status: 2".into())),
        Err("Failed to close firewall port 5000/tcp: firewall-cmd failed with status: exit status: 2".to_string())
    );
    assert_eq!(
        close_result(5000, Protocol::Tcp, false, &CommandOutcome::Failed("exit status: 1".into())),
        Err("iptables -D failed with exit status: exit status: 1".to_string())
    );
    assert_eq!(close_result(5000, Protocol::Udp, false, &CommandOutcome::NotFound("x".into())), Ok(()));
}

#[test]
fn guards_of_one_port_are_shared_and_the_last_closes_it() {
    let mut registry = GuardRegistry::new();
    assert!(registry.acquire(7000).is_none());
    let first = FirewallGuard::new(&mut registry, 7000, Protocol::Tcp, Ok(())).unwrap();
    assert_eq!(first.port(), 7000);
    assert_eq!(registry.holders(7000), 1);
    let second = registry.acquire(7000).unwrap();
    assert_eq!(second.protocol(), Protocol::Tcp);
    assert_eq!(registry.holders(7000), 2);
    assert!(!registry.release(first));
    assert_eq!(registry.holders(7000), 1);
    assert!(registry.release(second));
    assert_eq!(registry.holders(7000), 0);
    assert!(registry.acquire(7000).is_none());
}

#[test]
fn failed_opening_leaves_the_register_unchanged() {
    let mut registry = GuardRegistry::new();
    let r = FirewallGuard::new(&mut registry, 7001, Protocol::Udp, Err("boom".to_string()));
    assert_eq!(r.unwrap_err(), "boom");
    assert_eq!(registry.holders(7001), 0);
}
