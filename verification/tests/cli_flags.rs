use sockscope::cli::{cli, flags_from_matches, Flags};

fn args(list: &[&str]) -> Vec<String> {
    list.iter().map(|s| s.to_string()).collect()
}

fn parse(list: &[&str]) -> Flags {
    match cli(&args(list)) {
        Ok(f) => f,
        Err(e) => panic!("arguments were refused: {}", e.message),
    }
}

#[test]
fn test_all_flags_parsing() {
    let args = parse(&[
        "test-bin",
        "-k",
        "--proto",
        "udp",
        "--ip",
        "192.168.0.1",
        "--remote-port",
        "53",
        "-p",
        "8080",
        "--program",
        "nginx",
        "--pid",
        "1234",
        "-o",
        "-l",
        "--exclude-ipv6",
    ]);

    assert!(args.kill);
    assert_eq!(args.proto.as_deref(), Some("udp"));
    assert_eq!(args.ip.as_deref(), Some("192.168.0.1"));
    assert_eq!(args.remote_port.as_deref(), Some("53"));
    assert_eq!(args.port.as_deref(), Some("8080"));
    assert_eq!(args.program.as_deref(), Some("nginx"));
    assert_eq!(args.pid.as_deref(), Some("1234"));
    assert!(args.open);
    assert!(args.listen);
    assert!(args.exclude_ipv6);
}

#[test]
fn test_default_values() {
    let args = parse(&["test-bin"]);

    assert!(!args.kill);
    assert!(args.proto.is_none());
    assert!(args.ip.is_none());
    assert!(args.remote_port.is_none());
    assert!(args.port.is_none());
    assert!(args.program.is_none());
    assert!(args.pid.is_none());
    assert!(!args.open);
    assert!(!args.listen);
    assert!(!args.exclude_ipv6);
}

#[test]
fn test_flag_short_and_long_equivalence() {
    let short = parse(&["test-bin", "-k", "-p", "80", "-o", "-l"]);
    let long = parse(&["test-bin", "--kill", "--port", "80", "--open", "--listen"]);

    assert_eq!(short.kill, long.kill);
    assert_eq!(short.port, long.port);
    assert_eq!(short.open, long.open);
    assert_eq!(short.listen, long.listen);
    assert_eq!(short.exclude_ipv6, long.exclude_ipv6);
}

#[test]
fn unknown_flag_is_refused() {
    let e = cli(&args(&["test-bin", "--no-such-flag"])).unwrap_err();
    assert_eq!(e.exit_code, 2);
    assert!(e.message.contains("--no-such-flag"));
}

#[test]
fn option_without_value_is_refused() {
    assert!(cli(&args(&["test-bin", "--proto"])).is_err());
}

#[test]
fn help_and_version_come_back_as_text() {
    let help = cli(&args(&["test-bin", "--help"])).unwrap_err();
    assert_eq!(help.exit_code, 0);
    assert!(help.message.contains("--exclude-ipv6"));
    assert!(help.message.contains("-k, --kill"));
    assert!(help.message.contains("--remote-port <REMOTE_PORT>"));
    assert!(help.message.contains("-p, --port <PORT>"));
    assert!(help.message.contains("--pid <PID>"));
    assert!(help.message.starts_with("Shows the machine's sockets and the processes that own them"));
    let version = cli(&args(&["test-bin", "-V"])).unwrap_err();
    assert_eq!(version.exit_code, 0);
    assert!(version.message.contains("0.1.0"));
}

#[test]
fn option_takes_value_after_equals_sign() {
    let f = parse(&["test-bin", "--pid=77", "--remote-port=443"]);
    assert_eq!(f.pid.as_deref(), Some("77"));
    assert_eq!(f.remote_port.as_deref(), Some("443"));
    assert!(!f.kill);
}

#[test]
fn flags_are_read_from_matches_of_another_command() {
    let m = clap::Command::new("other")
        .arg(clap::Arg::new("kill").long("kill").action(clap::ArgAction::SetTrue))
        .arg(clap::Arg::new("pid").long("pid").action(clap::ArgAction::Set))
        .try_get_matches_from(["other", "--kill", "--pid", "9"])
        .unwrap();
    let f = flags_from_matches(&m);
    assert!(f.kill);
    assert_eq!(f.pid.as_deref(), Some("9"));
    assert!(f.proto.is_none());
    assert!(!f.listen);
}

#[test]
fn flags_become_filter_options() {
    let f = parse(&["test-bin", "-k", "--proto", "tcp", "--ip", "10.0.0.1", "-p", "22", "-l"]);
    let o = f.filter_options();
    assert_eq!(o.by_proto.as_deref(), Some("tcp"));
    assert_eq!(o.by_remote_address.as_deref(), Some("10.0.0.1"));
    assert_eq!(o.by_local_port.as_deref(), Some("22"));
    assert!(o.by_remote_port.is_none());
    assert!(o.by_program.is_none());
    assert!(o.by_pid.is_none());
    assert!(o.by_listen);
    assert!(!o.by_open);
    assert!(!o.exclude_ipv6);
}
