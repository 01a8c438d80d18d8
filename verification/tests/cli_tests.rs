use kftun::cli::{command_line, command_line_is_valid, Side};
use kftun::proxy_cli::{arg_role, proxy_cli_outcome, ArgRole, CliOutcome};

fn args(a: &[&str]) -> Vec<String> {
    a.iter().map(|s| s.to_string()).collect()
}

#[test]
fn server_side_command_line() {
    let a = args(&["server", "7707", "1.2.3.4:7000"]);
    assert!(command_line_is_valid(&a));
    let c = command_line(&a).unwrap();
    assert_eq!(c.side, Side::Server);
    assert_eq!(c.port, "7707");
    assert_eq!(c.client_addr.as_deref(), Some("1.2.3.4:7000"));
    assert_eq!(c.server_port, None);
}

#[test]
fn client_side_command_line() {
    let c = command_line(&args(&["client", "7707"])).unwrap();
    assert_eq!(c.side, Side::Client);
    assert_eq!(c.port, "7707");
    assert_eq!(c.client_addr, None);
    assert_eq!(c.server_port, None);
    let c = command_line(&args(&["client", "7707", "9000"])).unwrap();
    assert_eq!(c.server_port.as_deref(), Some("9000"));
}

#[test]
fn help_cases() {
    assert!(command_line(&args(&[])).is_none());
    assert!(command_line(&args(&["-h"])).is_none());
    assert!(command_line(&args(&["client", "1", "--help"])).is_none());
    assert!(command_line(&args(&["server", "1"])).is_none());
    assert!(command_line(&args(&["client"])).is_none());
}

#[test]
fn later_side_wins() {
    let c = command_line(&args(&["server", "1", "client", "2"])).unwrap();
    assert_eq!(c.side, Side::Client);
    assert_eq!(c.port, "1");
    assert_eq!(c.server_port.as_deref(), Some("2"));
    assert_eq!(c.client_addr, None);
    assert!(command_line(&args(&["client", "1", "server"])).is_none());
}

#[test]
fn invalid_command_lines() {
    assert!(!command_line_is_valid(&args(&["7707"])));
    assert!(!command_line_is_valid(&args(&["-h", "x"])));
    assert!(!command_line_is_valid(&args(&["client", "1", "2", "3"])));
    assert!(command_line_is_valid(&args(&["client", "1", "2", "server", "-h"])));
}

#[test]
fn proxy_arg_roles() {
    assert_eq!(arg_role(0), ArgRole::Listen);
    assert_eq!(arg_role(1), ArgRole::Target);
    assert_eq!(arg_role(2), ArgRole::Unexpected);
    assert_eq!(arg_role(9), ArgRole::Unexpected);
}

#[test]
fn proxy_outcomes() {
    assert_eq!(proxy_cli_outcome(&vec![]), CliOutcome::Help);
    assert_eq!(proxy_cli_outcome(&vec![true]), CliOutcome::Help);
    assert_eq!(proxy_cli_outcome(&vec![true, true]), CliOutcome::Run);
    assert_eq!(proxy_cli_outcome(&vec![false]), CliOutcome::Fail);
    assert_eq!(proxy_cli_outcome(&vec![true, false]), CliOutcome::Fail);
    assert_eq!(proxy_cli_outcome(&vec![true, true, true]), CliOutcome::Fail);
}
