use dces::cli::{parse_threshold, Cli, CliArg, CliCommand, CliError, SubcommandValues};

fn values(name: &str) -> SubcommandValues {
    SubcommandValues {
        name: name.to_string(),
        entry_point: Some("main.wasm".to_string()),
        node_name: Some("n1".to_string()),
        address: Some("0.0.0.0:5001".to_string()),
        start_threshold: None,
        rebuild: Some("localhost:6000".to_string()),
        address_resolves: true,
        rebuild_resolves: true,
    }
}

#[test]
fn threshold_values() {
    assert_eq!(parse_threshold("3"), Some(3));
    assert_eq!(parse_threshold("+12"), Some(12));
    assert_eq!(parse_threshold("007"), Some(7));
    assert_eq!(parse_threshold("4294967295"), Some(u32::MAX));
    assert_eq!(parse_threshold("4294967296"), None);
    assert_eq!(parse_threshold("99999999999999999999"), None);
    assert_eq!(parse_threshold("0"), None);
    assert_eq!(parse_threshold(""), None);
    assert_eq!(parse_threshold("+"), None);
    assert_eq!(parse_threshold("-1"), None);
    assert_eq!(parse_threshold("1a"), None);
    assert_eq!(parse_threshold(" 1"), None);
}

#[test]
fn start_command() {
    let mut v = values("start");
    v.start_threshold = Some("2".to_string());
    match Cli::from_arg_matches(Some(v)).unwrap().command {
        CliCommand::Start(s) => {
            assert_eq!(s.addr.as_str(), "0.0.0.0:5001");
            assert_eq!(s.entry_point, "main.wasm");
            assert_eq!(s.node_name, "n1");
            assert_eq!(s.start_threshold, Some(2));
        }
        _ => panic!("expected start"),
    }
    match Cli::from_arg_matches(Some(values("start"))).unwrap().command {
        CliCommand::Start(s) => assert_eq!(s.start_threshold, None),
        _ => panic!("expected start"),
    }
}

#[test]
fn connect_command() {
    match Cli::from_arg_matches(Some(values("connect"))).unwrap().command {
        CliCommand::Connect(c) => {
            assert_eq!(c.server_addr.as_str(), "0.0.0.0:5001");
            assert_eq!(c.client_rebuilding_addr.as_str(), "localhost:6000");
            assert_eq!(c.node_name, "n1");
        }
        _ => panic!("expected connect"),
    }
}

#[test]
fn command_errors() {
    assert_eq!(Cli::from_arg_matches(None).err(), Some(CliError::MissingSubcommand));
    assert_eq!(
        Cli::from_arg_matches(Some(values("stop"))).err(),
        Some(CliError::UnrecognizedSubcommand)
    );
    let mut v = values("start");
    v.start_threshold = Some("0".to_string());
    assert_eq!(
        Cli::from_arg_matches(Some(v)).err(),
        Some(CliError::ValueValidation(CliArg::StartThreshold))
    );
    let mut v = values("connect");
    v.rebuild = None;
    assert_eq!(Cli::from_arg_matches(Some(v)).err(), Some(CliError::ArgumentNotFound(CliArg::Rebuild)));
    let mut v = values("connect");
    v.address = None;
    v.node_name = None;
    assert_eq!(Cli::from_arg_matches(Some(v)).err(), Some(CliError::ArgumentNotFound(CliArg::Address)));
    let mut v = values("start");
    v.entry_point = None;
    assert_eq!(
        Cli::from_arg_matches(Some(v)).err(),
        Some(CliError::ArgumentNotFound(CliArg::EntryPoint))
    );
    let mut v = values("start");
    v.node_name = None;
    assert_eq!(Cli::from_arg_matches(Some(v)).err(), Some(CliError::ArgumentNotFound(CliArg::NodeName)));
}

#[test]
fn unresolved_addresses_are_invalid() {
    let mut v = values("start");
    v.address_resolves = false;
    assert_eq!(Cli::from_arg_matches(Some(v)).err(), Some(CliError::ValueValidation(CliArg::Address)));
    let mut v = values("connect");
    v.rebuild_resolves = false;
    assert_eq!(Cli::from_arg_matches(Some(v)).err(), Some(CliError::ValueValidation(CliArg::Rebuild)));
    let mut v = values("connect");
    v.address_resolves = false;
    v.rebuild_resolves = false;
    assert_eq!(Cli::from_arg_matches(Some(v)).err(), Some(CliError::ValueValidation(CliArg::Address)));
}
