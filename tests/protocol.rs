use ncp::framing::{decode_envelope, ProtocolError};
use ncp::protocol::{
    read_established, read_meta, read_preflight_fail, read_preflight_ok, read_probe,
    read_transfer_result, read_transfer_start, write_established, write_meta, write_preflight_fail,
    write_preflight_ok, write_probe, write_transfer_result, write_transfer_start, ErrorCode,
    Established, FileMeta, Meta, PreflightFail, PreflightOk, Probe, TransferResult, TransferStart,
    MSG_ESTABLISHED, MSG_META, MSG_PREFLIGHT_FAIL, MSG_PREFLIGHT_OK, MSG_PROBE,
    MSG_TRANSFER_RESULT, MSG_TRANSFER_START,
};

#[test]
fn meta_round_trip() {
    let mut file = FileMeta::new("dir/ünïcode.txt".to_string(), 123456789, false);
    file.checksum = vec![1, 2, 3, 4, 5, 6, 7, 8];
    file.mode = 0o755;
    file.mtime = 1_700_000_123;
    let meta = Meta::new("s-1".to_string(), file);
    let bytes = write_meta(&meta).unwrap();
    let env = decode_envelope(&bytes).unwrap();
    assert_eq!(env.msg_type, MSG_META);
    let back = read_meta(&env.payload).unwrap();
    assert_eq!(back.session_id, "s-1");
    assert_eq!(back.file.name, "dir/ünïcode.txt");
    assert_eq!(back.file.size, 123456789);
    assert!(!back.file.is_dir);
    assert_eq!(back.file.checksum, vec![1, 2, 3, 4, 5, 6, 7, 8]);
    assert_eq!(back.file.mode, 0o755);
    assert_eq!(back.file.mtime, 1_700_000_123);
    assert_eq!(back.file.checksum_alg, "defaulthash");
}

#[test]
fn meta_layout() {
    let mut file = FileMeta::new("ab".to_string(), 5, true);
    file.mtime = 0x0102;
    let bytes = write_meta(&Meta::new("s".to_string(), file)).unwrap();
    let mut expected = vec![1, 0, 0, 0, 51];
    expected.extend_from_slice(&[0, 0, 0, 1, b's']);
    expected.extend_from_slice(&[0, 0, 0, 0, 0, 0, 0, 5, 1]);
    expected.extend_from_slice(&[0, 0, 0, 2, b'a', b'b']);
    expected.extend_from_slice(&[0, 0, 0x01, 0xa4]);
    expected.extend_from_slice(&[0, 0, 0, 0, 0, 0, 0x01, 0x02]);
    expected.extend_from_slice(&[0, 0, 0, 11]);
    expected.extend_from_slice(b"defaulthash");
    expected.extend_from_slice(&[0, 0, 0, 0]);
    assert_eq!(bytes, expected);
}

#[test]
fn meta_malformed() {
    assert!(matches!(read_meta(&[0, 0, 0]), Err(ProtocolError::Malformed)));
    let bad_utf8 = [0, 0, 0, 0, 0, 0, 0, 0, 0, 0, 0, 1, 0, 0, 0, 0, 1, 0xff, 0, 0, 0, 0];
    assert!(matches!(read_meta(&bad_utf8), Err(ProtocolError::Malformed)));
    let name_too_long = [0, 0, 0, 0, 0, 0, 0, 0, 0, 0, 0, 1, 0, 0, 0, 0, 9, b'a'];
    assert!(matches!(read_meta(&name_too_long), Err(ProtocolError::Malformed)));
    let good = write_meta(&Meta::new("s".to_string(), FileMeta::new("f".to_string(), 1, false))).unwrap();
    let env = decode_envelope(&good).unwrap();
    assert!(read_meta(&env.payload).is_ok());
    let mut trailing = env.payload.clone();
    trailing.push(7);
    assert!(matches!(read_meta(&trailing), Err(ProtocolError::Malformed)));
    let short = &env.payload[..env.payload.len() - 1];
    assert!(matches!(read_meta(short), Err(ProtocolError::Malformed)));
}

#[test]
fn preflight_ok_round_trip() {
    let msg = PreflightOk::new("s-2".to_string(), true, 4096);
    let bytes = write_preflight_ok(&msg).unwrap();
    let env = decode_envelope(&bytes).unwrap();
    assert_eq!(env.msg_type, MSG_PREFLIGHT_OK);
    let back = read_preflight_ok(&env.payload).unwrap();
    assert_eq!(back.session_id, "s-2");
    assert!(back.destination_exists);
    assert_eq!(back.available_space, 4096);
    assert!(matches!(read_preflight_ok(&[0, 0, 0, 0, 0, 0, 0, 0]), Err(ProtocolError::Malformed)));
}

#[test]
fn preflight_fail_round_trip() {
    let msg = PreflightFail::new("s-3".to_string(), ErrorCode::NoSpace, "no room".to_string());
    let bytes = write_preflight_fail(&msg).unwrap();
    let env = decode_envelope(&bytes).unwrap();
    assert_eq!(env.msg_type, MSG_PREFLIGHT_FAIL);
    let back = read_preflight_fail(&env.payload).unwrap();
    assert_eq!(back.session_id, "s-3");
    assert_eq!(back.code, ErrorCode::NoSpace);
    assert_eq!(back.reason, "no room");
    assert!(matches!(read_preflight_fail(&[0, 0, 0, 0, 42, 0, 0, 0, 0]), Err(ProtocolError::Malformed)));
}

#[test]
fn transfer_start_round_trip() {
    let bytes = write_transfer_start(&TransferStart::new("s".to_string(), 10 * 1024 * 1024)).unwrap();
    assert_eq!(bytes, vec![4, 0, 0, 0, 13, 0, 0, 0, 1, b's', 0, 0, 0, 0, 0, 0xa0, 0, 0]);
    let env = decode_envelope(&bytes).unwrap();
    assert_eq!(env.msg_type, MSG_TRANSFER_START);
    let back = read_transfer_start(&env.payload).unwrap();
    assert_eq!(back.session_id, "s");
    assert_eq!(back.file_size, 10 * 1024 * 1024);
}

#[test]
fn transfer_result_round_trip() {
    let ok = TransferResult::new("s".to_string(), true, 77);
    assert_eq!(ok.code, ErrorCode::Unknown);
    let mut failed = TransferResult::new("s".to_string(), false, 77);
    assert_eq!(failed.code, ErrorCode::ChecksumMismatch);
    assert!(failed.reason.is_empty() && failed.checksum.is_empty());
    failed.reason = "checksum mismatch".to_string();
    failed.checksum = vec![9, 8, 7];
    for msg in [ok, failed] {
        let env = decode_envelope(&write_transfer_result(&msg).unwrap()).unwrap();
        assert_eq!(env.msg_type, MSG_TRANSFER_RESULT);
        let back = read_transfer_result(&env.payload).unwrap();
        assert_eq!(back.session_id, msg.session_id);
        assert_eq!(back.ok, msg.ok);
        assert_eq!(back.code, msg.code);
        assert_eq!(back.received_bytes, 77);
        assert_eq!(back.reason, msg.reason);
        assert_eq!(back.checksum, msg.checksum);
    }
}

#[test]
fn handshake_round_trip() {
    let probe = Probe::new("test-session".to_string(), "0.1.0".to_string(), "test-client".to_string());
    assert_eq!(probe.keepalive_seconds, 30);
    let env = decode_envelope(&write_probe(&probe).unwrap()).unwrap();
    assert_eq!(env.msg_type, MSG_PROBE);
    let back = read_probe(&env.payload).unwrap();
    assert_eq!(back.session_id, "test-session");
    assert_eq!(back.version, "0.1.0");
    assert_eq!(back.client_name, "test-client");
    assert_eq!(back.keepalive_seconds, 30);
    assert!(back.capabilities.is_empty());

    let mut asking = Probe::new("s".to_string(), "1".to_string(), "c".to_string());
    asking.capabilities = vec!["checksum".to_string(), "".to_string(), "ünï".to_string()];
    let env = decode_envelope(&write_probe(&asking).unwrap()).unwrap();
    let back = read_probe(&env.payload).unwrap();
    assert_eq!(back.capabilities, asking.capabilities);

    let est = Established::new("test-session".to_string(), "0.1.0".to_string(), 1700000000);
    let env = decode_envelope(&write_established(&est).unwrap()).unwrap();
    assert_eq!(env.msg_type, MSG_ESTABLISHED);
    let back = read_established(&env.payload).unwrap();
    assert_eq!(back.session_id, "test-session");
    assert_eq!(back.server_time, 1700000000);

    let mut offering = Established::new("s".to_string(), "1".to_string(), 5);
    offering.capabilities = vec!["a".to_string(), "bc".to_string()];
    let bytes = write_established(&offering).unwrap();
    let mut expected = vec![7, 0, 0, 0, 33, 0, 0, 0, 1, b's', 0, 0, 0, 1, b'1'];
    expected.extend_from_slice(&[0, 0, 0, 2, 0, 0, 0, 1, b'a', 0, 0, 0, 2, b'b', b'c']);
    expected.extend_from_slice(&[0, 0, 0, 0, 0, 0, 0, 5]);
    assert_eq!(bytes, expected);
    let back = read_established(&decode_envelope(&bytes).unwrap().payload).unwrap();
    assert_eq!(back.capabilities, offering.capabilities);
    assert!(matches!(read_established(&[0, 0, 0, 0, 0, 0, 0, 0, 0, 0, 0, 9]), Err(ProtocolError::Malformed)));
}
