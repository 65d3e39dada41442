use ncp::admission::OverwriteMode;
use ncp::cli::{parse_args, parse_recv_args, parse_send_args, Command};

fn strings(args: &[&str]) -> Vec<String> {
    args.iter().map(|s| s.to_string()).collect()
}

#[test]
fn send_arguments() {
    let cmd = parse_send_args(&strings(&["--host", "example", "--port", "9000", "--retries", "5", "--overwrite", "yes", "src/dir"])).unwrap();
    match cmd {
        Command::Send { host, port, retries, checksum, overwrite, src } => {
            assert_eq!(host, "example");
            assert_eq!(port, 9000);
            assert_eq!(retries, 5);
            assert!(checksum);
            assert_eq!(overwrite, OverwriteMode::Yes);
            assert_eq!(src, "src/dir");
        }
        _ => panic!("expected send"),
    }
}

#[test]
fn send_defaults_and_errors() {
    match parse_send_args(&strings(&["--host", "h", "--port", "+80", "--checksum", "none", "f"])).unwrap() {
        Command::Send { retries, checksum, overwrite, port, .. } => {
            assert_eq!(retries, 3);
            assert!(!checksum);
            assert_eq!(overwrite, OverwriteMode::Ask);
            assert_eq!(port, 80);
        }
        _ => panic!("expected send"),
    }
    assert_eq!(parse_send_args(&strings(&["--port", "1", "f"])).err(), Some("--host required".to_string()));
    assert_eq!(parse_send_args(&strings(&["--host", "h", "f"])).err(), Some("--port required".to_string()));
    assert_eq!(parse_send_args(&strings(&["--host", "h", "--port", "1"])).err(), Some("source path required".to_string()));
    assert_eq!(parse_send_args(&strings(&["--host", "h", "--port", "65536", "f"])).err(), Some("Invalid port".to_string()));
    assert_eq!(parse_send_args(&strings(&["--host", "h", "--port", "-1", "f"])).err(), Some("Invalid port".to_string()));
    assert_eq!(parse_send_args(&strings(&["--host"])).err(), Some("--host requires value".to_string()));
    assert_eq!(parse_send_args(&strings(&["--bogus"])).err(), Some("Unknown option: --bogus".to_string()));
    assert_eq!(parse_send_args(&strings(&["--host", "h", "--port", "1", "--overwrite", "maybe", "f"])).err(), Some("Invalid overwrite mode".to_string()));
    assert_eq!(parse_send_args(&strings(&["--retries", "x"])).err(), Some("Invalid retries".to_string()));
}

#[test]
fn recv_arguments() {
    match parse_recv_args(&strings(&["--port", "7000", "out"])).unwrap() {
        Command::Recv { host, port, checksum, overwrite, dst } => {
            assert_eq!(host, "0.0.0.0");
            assert_eq!(port, 7000);
            assert!(checksum);
            assert_eq!(overwrite, OverwriteMode::Ask);
            assert_eq!(dst, "out");
        }
        _ => panic!("expected recv"),
    }
    assert_eq!(parse_recv_args(&strings(&["--port", "7000"])).err(), Some("destination path required".to_string()));
    assert_eq!(parse_recv_args(&strings(&["--retries", "2"])).err(), Some("Unknown option: --retries".to_string()));
}

#[test]
fn top_level_arguments() {
    let args = parse_args(&strings(&["ncp", "-vv", "recv", "--port", "1", "d"])).unwrap();
    assert_eq!(args.verbose, 2);
    assert!(matches!(args.command, Command::Recv { .. }));
    let help = parse_args(&strings(&["ncp", "-v", "--help"])).unwrap();
    assert_eq!(help.verbose, 1);
    assert!(matches!(help.command, Command::Help));
    assert_eq!(parse_args(&strings(&["ncp"])).err(), Some("Usage: ncp [send|recv] [options]".to_string()));
    assert_eq!(parse_args(&strings(&["ncp", "-v"])).err(), Some("Missing command".to_string()));
    assert_eq!(parse_args(&strings(&["ncp", "copy"])).err(), Some("Unknown command: copy".to_string()));
    assert_eq!(parse_args(&strings(&["ncp", "send", "--port", "1", "f"])).err(), Some("--host required".to_string()));
}
