use ncp::framing::{decode_envelope, ProtocolError};
use ncp::protocol::{
    write_established, write_preflight_fail, write_probe, ErrorCode, Established, PreflightFail,
    Probe, MSG_META, MSG_PREFLIGHT_FAIL, MSG_TRANSFER_RESULT,
};
use ncp::session::{
    answer_probe, check_established, check_sent, expect_meta, expect_transfer_result,
    wait_for_preflight, AttemptProgress, PreflightReply, TransferError,
};

#[test]
fn handshake_echoes_session() {
    let probe = Probe::new("s-1".to_string(), "0.1.0".to_string(), "host".to_string());
    let env = decode_envelope(&write_probe(&probe).unwrap()).unwrap();
    let (session, reply) = answer_probe(env.msg_type, &env.payload, "0.2.0", vec!["resume".to_string()], 1234).unwrap();
    assert_eq!(session, "s-1");
    let env = decode_envelope(&reply).unwrap();
    let est = check_established(&probe, env.msg_type, &env.payload).unwrap();
    assert_eq!(est.session_id, "s-1");
    assert_eq!(est.version, "0.2.0");
    assert_eq!(est.server_time, 1234);
    assert_eq!(est.capabilities, vec!["resume".to_string()]);
}

#[test]
fn handshake_session_mismatch() {
    let probe = Probe::new("s-1".to_string(), "0.1.0".to_string(), "host".to_string());
    let other = Established::new("s-2".to_string(), "0.1.0".to_string(), 0);
    let env = decode_envelope(&write_established(&other).unwrap()).unwrap();
    assert!(matches!(check_established(&probe, env.msg_type, &env.payload), Err(ProtocolError::SessionMismatch)));
    assert!(matches!(check_established(&probe, MSG_META, &env.payload), Err(ProtocolError::UnexpectedMessage)));
    assert!(matches!(answer_probe(MSG_META, &[], "v", Vec::new(), 0), Err(ProtocolError::UnexpectedMessage)));
    assert!(matches!(answer_probe(6, &[0, 0], "v", Vec::new(), 0), Err(ProtocolError::Malformed)));
}

#[test]
fn unexpected_messages() {
    assert!(matches!(expect_meta(MSG_TRANSFER_RESULT, &[]), Err(ProtocolError::UnexpectedMessage)));
    assert!(matches!(wait_for_preflight(MSG_META, &[]), Err(ProtocolError::UnexpectedMessage)));
    assert!(matches!(expect_transfer_result(MSG_META, &[]), Err(ProtocolError::UnexpectedMessage)));
    assert!(matches!(expect_transfer_result(MSG_TRANSFER_RESULT, &[1]), Err(ProtocolError::Malformed)));
}

#[test]
fn refusal_fails_attempt_after_all_entries() {
    let fail = write_preflight_fail(&PreflightFail::new("s".to_string(), ErrorCode::Exists, "exists, skipping".to_string())).unwrap();
    let env = decode_envelope(&fail).unwrap();
    assert_eq!(env.msg_type, MSG_PREFLIGHT_FAIL);
    let mut progress = AttemptProgress::new();
    assert!(!progress.record(wait_for_preflight(env.msg_type, &env.payload).unwrap(), false));
    assert!(!progress.record(PreflightReply::Refused(PreflightFail::new("s".to_string(), ErrorCode::Declined, "declined".to_string())), true));
    assert_eq!(progress.entries_done, 2);
    match progress.verdict() {
        Err(TransferError::Refused(reason)) => assert_eq!(reason, "exists, skipping"),
        _ => panic!("expected a refusal"),
    }
    let mut clean = AttemptProgress::new();
    assert!(clean.record(PreflightReply::Admitted(ncp::protocol::PreflightOk::new("s".to_string(), false, 1)), false));
    assert!(!clean.record(PreflightReply::Admitted(ncp::protocol::PreflightOk::new("s".to_string(), false, 0)), true));
    assert!(matches!(clean.verdict(), Ok(2)));
}

#[test]
fn error_descriptions() {
    let e = check_sent(5, 7).unwrap_err();
    assert_eq!(e.describe(), "File size mismatch: sent 5 bytes, expected 7");
    assert!(check_sent(7, 7).is_ok());
    assert_eq!(TransferError::Protocol(ProtocolError::Truncated).describe(), "protocol error: truncated message");
    assert_eq!(TransferError::Failed(ErrorCode::ChecksumMismatch).describe(), "Transfer failed");
    assert_eq!(TransferError::Refused("no".to_string()).describe(), "no");
    assert_eq!(TransferError::Io("connection refused".to_string()).describe(), "connection refused");
}
