use seeker_config::addr::{parse_cidr, parse_ipv4};
use seeker_config::dns::DNSSetup;
use seeker_config::netif::{setup_ip, CommandError, CommandOutput, IpCommand, SetupStep};

#[test]
fn guard_restores_original_bytes_once() {
    let before = b"nameserver 192.168.1.1\nsearch lan\n".to_vec();
    let mut guard = DNSSetup::new(before.clone());
    assert_eq!(guard.override_content(), b"nameserver 127.0.0.1".to_vec());
    assert_eq!(guard.original_content(), &before[..]);
    assert_eq!(guard.original_content(), &before[..]);
    assert_eq!(guard.release(), Some(before));
    assert_eq!(guard.release(), None);
}

#[test]
fn guard_restores_empty_file() {
    let mut guard = DNSSetup::new(vec![]);
    assert_eq!(guard.release(), Some(vec![]));
    assert_eq!(guard.release(), None);
}

/// Runs the setup against a fake executor that fails at step `fail_at`,
/// returning every command it was asked to run and the final result.
fn run(fail_at: Option<usize>) -> (Vec<IpCommand>, Result<(), CommandError>) {
    let ip = parse_ipv4("10.8.0.2").unwrap();
    let cidr = parse_cidr("10.8.0.0/24").unwrap();
    let mut setup = setup_ip("tun0", ip, cidr);
    let mut calls = Vec::new();
    while let Some(cmd) = setup.next_command() {
        let n = calls.len();
        calls.push(cmd);
        let ok = fail_at != Some(n);
        setup.record(CommandOutput {
            success: ok,
            stdout: format!("out{}", n).into_bytes(),
            stderr: format!("err{}", n).into_bytes(),
        });
    }
    (calls, setup.finish())
}

#[test]
fn all_steps_run_in_order() {
    let (calls, result) = run(None);
    assert!(result.is_ok());
    assert_eq!(calls.len(), 3);
    assert!(calls.iter().all(|c| c.program == "ip"));
    assert_eq!(calls[0].args, vec!["addr", "replace", "10.8.0.2", "dev", "tun0"]);
    assert_eq!(calls[1].args, vec!["link", "set", "tun0", "up"]);
    assert_eq!(calls[2].args, vec!["route", "add", "10.8.0.0/24", "dev", "tun0"]);
}

#[test]
fn link_up_failure_skips_route() {
    let (calls, result) = run(Some(1));
    assert_eq!(calls.len(), 2);
    let err = result.unwrap_err();
    assert_eq!(err.step, SetupStep::LinkUp);
    assert_eq!(err.stdout, b"out1".to_vec());
    assert_eq!(err.stderr, b"err1".to_vec());
}

#[test]
fn first_step_failure_stops_everything() {
    let (calls, result) = run(Some(0));
    assert_eq!(calls.len(), 1);
    assert_eq!(result.unwrap_err().step, SetupStep::AssignAddress);
}

#[test]
fn route_failure_is_reported() {
    let (calls, result) = run(Some(2));
    assert_eq!(calls.len(), 3);
    assert_eq!(result.unwrap_err().step, SetupStep::AddRoute);
}
