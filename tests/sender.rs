use ncp::admission::{OverwriteMode, PathState};
use ncp::checksum::calculate_bytes_checksum;
use ncp::framing::{decode_envelope, ProtocolError};
use ncp::protocol::{write_established, write_preflight_ok, ErrorCode, Established, FileMeta, PreflightOk, Probe};
use ncp::receiver::Receiver;
use ncp::retry::{after_failure, RetryDecision};
use ncp::sender::Sender;
use ncp::session::TransferError;

fn message(bytes: &[u8]) -> (u8, Vec<u8>) {
    let env = decode_envelope(bytes).unwrap();
    (env.msg_type, env.payload)
}

/// Connects a sender and a receiver in memory and runs the handshake.
fn connect(version: &str, verify: bool) -> (Sender, Receiver) {
    let probe = Probe::new("session-1".to_string(), "0.1.0".to_string(), "client".to_string());
    let (mut sender, hello) = Sender::new(probe);
    let mut receiver = Receiver::new(version.to_string(), verify, Vec::new());
    let (t, p) = message(&hello.unwrap());
    let reply = receiver.on_probe(t, &p, 1_700_000_000).unwrap();
    let (t, p) = message(&reply);
    let est = sender.on_established(t, &p).unwrap();
    assert_eq!(est.session_id, "session-1");
    assert_eq!(est.server_time, 1_700_000_000);
    (sender, receiver)
}

/// Sends one file; returns what the receiver wrote, whether the receiver's
/// outcome was ok, and what the sender concluded.
fn send_file(
    sender: &mut Sender,
    receiver: &mut Receiver,
    data: &[u8],
    declared: Vec<u8>,
    dest: PathState,
    mode: OverwriteMode,
    available: u64,
) -> (Vec<u8>, Option<bool>, Result<(), TransferError>) {
    let mut meta = FileMeta::new("file.bin".to_string(), data.len() as u64, false);
    meta.checksum = declared;
    let (t, p) = message(&sender.send_entry(meta).unwrap());
    receiver.on_meta(t, &p).unwrap();
    let admission = receiver.decide_entry(Ok(dest), mode, false, available).unwrap();
    let (t, p) = message(&admission.reply);
    let start = match sender.on_preflight(t, &p).unwrap() {
        Some(start) => start,
        None => return (Vec::new(), None, Ok(())),
    };
    let (t, p) = message(&start);
    receiver.on_transfer_start(t, &p).unwrap();
    let mut written = Vec::new();
    for chunk in data.chunks(5000) {
        let n = sender.sendable(chunk.len());
        sender.on_sent(n).unwrap();
        let mut offset = 0;
        while offset < n {
            let m = receiver.next_chunk_len().min(n - offset);
            receiver.on_chunk(&chunk[offset..offset + m]).unwrap();
            written.extend_from_slice(&chunk[offset..offset + m]);
            offset += m;
        }
    }
    sender.end_of_file().unwrap();
    let (outcome, reply) = receiver.finish_file().unwrap();
    let (t, p) = message(&reply);
    (written, Some(outcome.ok), sender.on_result(t, &p))
}

#[test]
fn end_to_end_ten_mib_file() {
    let data: Vec<u8> = (0..10 * 1024 * 1024).map(|i: usize| (i % 251) as u8 ^ (i >> 13) as u8).collect();
    let (mut sender, mut receiver) = connect("0.1.0", true);
    let existing = PathState { exists: true, is_dir: false };
    let (written, ok, verdict) = send_file(
        &mut sender,
        &mut receiver,
        &data,
        calculate_bytes_checksum(&data),
        existing,
        OverwriteMode::Yes,
        u64::MAX,
    );
    assert_eq!(ok, Some(true));
    assert!(verdict.is_ok());
    assert!(written == data);
    assert!(matches!(sender.finish(), Ok(1)));
    assert_eq!(receiver.on_end_of_stream(), Ok(()));
}

#[test]
fn checksum_mismatch_seen_by_sender() {
    let data = b"some file content".to_vec();
    let mut wrong = calculate_bytes_checksum(&data);
    wrong[0] ^= 0x80;
    let (mut sender, mut receiver) = connect("0.1.0", true);
    let absent = PathState { exists: false, is_dir: false };
    let (_, ok, verdict) = send_file(&mut sender, &mut receiver, &data, wrong, absent, OverwriteMode::Yes, 1 << 20);
    assert_eq!(ok, Some(false));
    assert!(matches!(verdict, Err(TransferError::Failed(ErrorCode::ChecksumMismatch))));
    assert!(sender.is_closed());
}

#[test]
fn retries_against_a_receiver_that_always_rejects() {
    let data = b"x".repeat(100);
    let max_attempts = 3;
    let mut attempt = 1;
    let mut connections = 0;
    let final_error = loop {
        connections += 1;
        let (mut sender, mut receiver) = connect("0.1.0", true);
        let existing = PathState { exists: true, is_dir: false };
        let (_, ok, verdict) = send_file(&mut sender, &mut receiver, &data, Vec::new(), existing, OverwriteMode::No, 1 << 20);
        assert_eq!(ok, None);
        assert!(verdict.is_ok());
        let err = match sender.finish() {
            Err(e) => e,
            Ok(_) => panic!("a refused entry must fail the attempt"),
        };
        match after_failure(attempt, max_attempts, &err.describe()) {
            RetryDecision::Retry { next_attempt, .. } => attempt = next_attempt,
            RetryDecision::GiveUp { message } => break message,
        }
    };
    assert_eq!(connections, 3);
    assert_eq!(final_error, "All 3 attempts failed. Last error: exists, skipping");
}

#[test]
fn sender_rejects_wrong_session_and_order() {
    let probe = Probe::new("mine".to_string(), "0.1.0".to_string(), "c".to_string());
    let (mut sender, hello) = Sender::new(probe);
    assert!(hello.is_ok());
    let other = write_established(&Established::new("theirs".to_string(), "0.1.0".to_string(), 0)).unwrap();
    let (t, p) = message(&other);
    assert!(matches!(sender.on_established(t, &p), Err(ProtocolError::SessionMismatch)));
    assert!(sender.is_closed());

    let (mut sender, _) = Sender::new(Probe::new("s".to_string(), "v".to_string(), "c".to_string()));
    let (t, p) = message(&write_preflight_ok(&PreflightOk::new("s".to_string(), false, 0)).unwrap());
    assert!(matches!(sender.on_preflight(t, &p), Err(TransferError::Protocol(ProtocolError::UnexpectedMessage))));
}

#[test]
fn sender_stops_at_announced_size() {
    let (mut sender, mut receiver) = connect("0.1.0", true);
    let meta = FileMeta::new("f".to_string(), 10, false);
    let (t, p) = message(&sender.send_entry(meta).unwrap());
    receiver.on_meta(t, &p).unwrap();
    let admission = receiver.decide_entry(Ok(PathState { exists: false, is_dir: false }), OverwriteMode::Ask, false, 100).unwrap();
    let (t, p) = message(&admission.reply);
    assert!(sender.on_preflight(t, &p).unwrap().is_some());
    assert_eq!(sender.sendable(8192), 10);
    sender.on_sent(4).unwrap();
    assert_eq!(sender.sendable(8192), 6);
    match sender.end_of_file() {
        Err(e) => assert_eq!(e.describe(), "File size mismatch: sent 4 bytes, expected 10"),
        Ok(()) => panic!("short file accepted"),
    }
}
