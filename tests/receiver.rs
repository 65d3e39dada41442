use ncp::admission::{AdmissionEffect, OverwriteMode, PathState};
use ncp::checksum::calculate_bytes_checksum;
use ncp::framing::{decode_envelope, ProtocolError};
use ncp::protocol::{
    read_established, read_preflight_fail, read_preflight_ok, read_transfer_result, write_meta,
    write_probe, write_transfer_start, ErrorCode, FileMeta, Meta, Probe, TransferStart, MSG_META,
    MSG_PREFLIGHT_FAIL, MSG_PREFLIGHT_OK,
};
use ncp::receiver::Receiver;

const ABSENT: PathState = PathState { exists: false, is_dir: false };

fn message(bytes: &[u8]) -> (u8, Vec<u8>) {
    let env = decode_envelope(bytes).unwrap();
    (env.msg_type, env.payload)
}

fn meta_message(name: &str, size: u64, is_dir: bool) -> (u8, Vec<u8>) {
    message(&write_meta(&Meta::new("sess".to_string(), FileMeta::new(name.to_string(), size, is_dir))).unwrap())
}

fn handshake(receiver: &mut Receiver) {
    let probe = Probe::new("sess".to_string(), "0.1.0".to_string(), "me".to_string());
    let (t, p) = message(&write_probe(&probe).unwrap());
    let (t, p) = message(&receiver.on_probe(t, &p, 99).unwrap());
    let est = read_established(&p).unwrap();
    assert_eq!(t, 7);
    assert_eq!(est.session_id, "sess");
    assert_eq!(est.version, "9.9");
}

fn send_file(receiver: &mut Receiver, data: &[u8], declared: Vec<u8>) -> (bool, ErrorCode) {
    let mut file = FileMeta::new("f.bin".to_string(), data.len() as u64, false);
    file.checksum = declared;
    let (t, p) = message(&write_meta(&Meta::new("sess".to_string(), file)).unwrap());
    let got = receiver.on_meta(t, &p).unwrap();
    assert_eq!(got.name, "f.bin");
    let admission = receiver.decide_entry(Ok(ABSENT), OverwriteMode::Ask, false, u64::MAX).unwrap();
    assert_eq!(admission.effect, AdmissionEffect::MakeParentAndReceive);
    let (t, p) = message(&admission.reply);
    assert_eq!(t, MSG_PREFLIGHT_OK);
    assert_eq!(read_preflight_ok(&p).unwrap().available_space, u64::MAX);
    let (t, p) = message(&write_transfer_start(&TransferStart::new("sess".to_string(), data.len() as u64)).unwrap());
    assert_eq!(receiver.on_transfer_start(t, &p), Ok(data.len() as u64));
    let mut offset = 0;
    loop {
        let n = receiver.next_chunk_len();
        if n == 0 {
            break;
        }
        receiver.on_chunk(&data[offset..offset + n]).unwrap();
        offset += n;
    }
    assert_eq!(offset, data.len());
    let (outcome, reply) = receiver.finish_file().unwrap();
    let (_, p) = message(&reply);
    let result = read_transfer_result(&p).unwrap();
    assert_eq!(result.ok, outcome.ok);
    assert_eq!(result.received_bytes, data.len() as u64);
    (outcome.ok, outcome.code)
}

#[test]
fn receiver_session_good_and_corrupt_files() {
    let mut receiver = Receiver::new("9.9".to_string(), true, Vec::new());
    handshake(&mut receiver);
    let data: Vec<u8> = (0..30000u32).map(|i| (i % 253) as u8).collect();
    assert_eq!(send_file(&mut receiver, &data, calculate_bytes_checksum(&data)), (true, ErrorCode::Unknown));
    let mut wrong = calculate_bytes_checksum(&data);
    wrong[7] ^= 1;
    assert_eq!(send_file(&mut receiver, &data, wrong), (false, ErrorCode::ChecksumMismatch));
    assert_eq!(receiver.on_end_of_stream(), Ok(()));
    assert!(receiver.is_closed());
}

#[test]
fn receiver_rejects_other_session() {
    let mut receiver = Receiver::new("9.9".to_string(), true, Vec::new());
    handshake(&mut receiver);
    let other = Meta::new("intruder".to_string(), FileMeta::new("f".to_string(), 1, false));
    let (t, p) = message(&write_meta(&other).unwrap());
    assert!(matches!(receiver.on_meta(t, &p), Err(ProtocolError::SessionMismatch)));
    assert!(receiver.is_closed());
}

#[test]
fn receiver_without_verification_accepts_any_digest() {
    let mut receiver = Receiver::new("9.9".to_string(), false, Vec::new());
    handshake(&mut receiver);
    assert_eq!(send_file(&mut receiver, b"payload", vec![0; 8]), (true, ErrorCode::Unknown));
}

#[test]
fn receiver_refusal_continues_with_next_entry() {
    let mut receiver = Receiver::new("9.9".to_string(), true, Vec::new());
    handshake(&mut receiver);
    let (t, p) = meta_message("big", 1000, false);
    assert!(!receiver.needs_space());
    receiver.on_meta(t, &p).unwrap();
    assert!(receiver.needs_space());
    let admission = receiver.decide_entry(Ok(ABSENT), OverwriteMode::Yes, false, 1099).unwrap();
    assert_eq!(admission.effect, AdmissionEffect::Skip);
    let (t, p) = message(&admission.reply);
    assert_eq!(t, MSG_PREFLIGHT_FAIL);
    assert_eq!(read_preflight_fail(&p).unwrap().code, ErrorCode::NoSpace);

    let (t, p) = meta_message("d", 0, true);
    receiver.on_meta(t, &p).unwrap();
    assert!(!receiver.needs_space());
    let admission = receiver.decide_entry(Err(ErrorCode::Conflict), OverwriteMode::Yes, false, 0).unwrap();
    assert_eq!(admission.effect, AdmissionEffect::Skip);
    let (_, p) = message(&admission.reply);
    assert_eq!(read_preflight_fail(&p).unwrap().code, ErrorCode::Conflict);

    let (t, p) = meta_message("d", 0, true);
    receiver.on_meta(t, &p).unwrap();
    let admission = receiver.decide_entry(Ok(ABSENT), OverwriteMode::No, false, 0).unwrap();
    assert_eq!(admission.effect, AdmissionEffect::MakeDirectory);
    assert_eq!(receiver.on_end_of_stream(), Ok(()));
}

#[test]
fn receiver_rejects_out_of_order_messages() {
    let mut receiver = Receiver::new("9.9".to_string(), true, Vec::new());
    assert!(matches!(receiver.on_meta(MSG_META, &[]), Err(ProtocolError::UnexpectedMessage)));
    assert!(receiver.is_closed());

    let mut receiver = Receiver::new("9.9".to_string(), true, Vec::new());
    handshake(&mut receiver);
    let (t, p) = meta_message("f", 10, false);
    receiver.on_meta(t, &p).unwrap();
    receiver.decide_entry(Ok(ABSENT), OverwriteMode::Yes, false, 100).unwrap();
    let (t, p) = message(&write_transfer_start(&TransferStart::new("sess".to_string(), 11)).unwrap());
    assert_eq!(receiver.on_transfer_start(t, &p), Err(ProtocolError::SizeMismatch));
    assert!(receiver.is_closed());

    let mut receiver = Receiver::new("9.9".to_string(), true, Vec::new());
    handshake(&mut receiver);
    let (t, p) = meta_message("f", 10, false);
    receiver.on_meta(t, &p).unwrap();
    receiver.decide_entry(Ok(ABSENT), OverwriteMode::Yes, false, 100).unwrap();
    let (t, p) = message(&write_transfer_start(&TransferStart::new("sess".to_string(), 10)).unwrap());
    receiver.on_transfer_start(t, &p).unwrap();
    receiver.on_chunk(b"abc").unwrap();
    assert!(matches!(receiver.on_chunk(&[0u8; 8]), Err(ProtocolError::UnexpectedMessage)));
    assert_eq!(receiver.on_end_of_stream(), Err(ProtocolError::Truncated));
}

#[test]
fn receiver_truncated_file() {
    let mut receiver = Receiver::new("9.9".to_string(), true, Vec::new());
    handshake(&mut receiver);
    let (t, p) = meta_message("f", 10, false);
    receiver.on_meta(t, &p).unwrap();
    receiver.decide_entry(Ok(ABSENT), OverwriteMode::Yes, false, 100).unwrap();
    let (t, p) = message(&write_transfer_start(&TransferStart::new("sess".to_string(), 10)).unwrap());
    receiver.on_transfer_start(t, &p).unwrap();
    receiver.on_chunk(b"abc").unwrap();
    assert!(matches!(receiver.finish_file(), Err(ProtocolError::Truncated)));
}
