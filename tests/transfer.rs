use ncp::admission::{admission_reply, decide_admission, AdmissionDecision, OverwriteMode, PathState};
use ncp::checksum::{calculate_bytes_checksum, StreamingChecksum};
use ncp::framing::decode_envelope;
use ncp::protocol::{write_meta, write_transfer_start, ErrorCode, FileMeta, Meta, TransferStart};
use ncp::receive::{bytes_equal, outcome_message, FileReceive, CHUNK_SIZE};
use ncp::session::{expect_meta, expect_transfer_result, expect_transfer_start, result_verdict, wait_for_preflight, PreflightReply, TransferError};

fn source_data(len: usize) -> Vec<u8> {
    (0..len).map(|i| ((i * 31 + i / 7) % 256) as u8).collect()
}

#[test]
fn end_to_end_single_file() {
    let data = source_data(10 * 1024 * 1024);

    // Sender: describe the file with its checksum.
    let mut sum = StreamingChecksum::new();
    for chunk in data.chunks(8192) {
        sum.update(chunk);
    }
    let mut file = FileMeta::new("big.bin".to_string(), data.len() as u64, false);
    file.checksum = sum.finalize();
    let meta_bytes = write_meta(&Meta::new("s".to_string(), file)).unwrap();

    // Receiver: decode, admit, reply.
    let env = decode_envelope(&meta_bytes).unwrap();
    let got = expect_meta(env.msg_type, &env.payload).unwrap().file;
    let dest = PathState { exists: true, is_dir: false };
    let decision = decide_admission(got.is_dir, got.size, dest, OverwriteMode::Yes, false, u64::MAX);
    assert!(matches!(decision, AdmissionDecision::Accepted { destination_exists: true, .. }));
    let reply = admission_reply(decision, "s").unwrap();

    // Sender: admitted, announce the bytes.
    let env = decode_envelope(&reply).unwrap();
    assert!(matches!(wait_for_preflight(env.msg_type, &env.payload), Ok(PreflightReply::Admitted(_))));
    let start = write_transfer_start(&TransferStart::new("s".to_string(), data.len() as u64)).unwrap();

    // Receiver: take the raw bytes chunk by chunk.
    let env = decode_envelope(&start).unwrap();
    let start = expect_transfer_start(env.msg_type, &env.payload).unwrap();
    let mut receive = FileReceive::new(start.file_size);
    let mut written = Vec::with_capacity(data.len());
    let mut offset = 0;
    while !receive.is_complete() {
        let n = receive.next_chunk_len();
        assert!(n <= CHUNK_SIZE && n > 0);
        let chunk = &data[offset..offset + n];
        written.extend_from_slice(chunk);
        receive.accept_chunk(chunk);
        offset += n;
    }
    assert_eq!(receive.received_bytes(), data.len() as u64);
    let outcome = receive.finish(&got.checksum);
    assert!(outcome.ok);
    assert_eq!(outcome.received_bytes, data.len() as u64);
    assert_eq!(written, data);

    // Sender: the outcome.
    let env = decode_envelope(&outcome_message(&outcome, "s").unwrap()).unwrap();
    let result = expect_transfer_result(env.msg_type, &env.payload).unwrap();
    assert!(result.ok);
    assert!(result_verdict(&result).is_ok());
}

#[test]
fn checksum_mismatch_fails_outcome() {
    let data = source_data(20000);
    let mut declared = calculate_bytes_checksum(&data);
    declared[0] ^= 0xff;

    let mut receive = FileReceive::new(data.len() as u64);
    let mut offset = 0;
    while !receive.is_complete() {
        let n = receive.next_chunk_len();
        receive.accept_chunk(&data[offset..offset + n]);
        offset += n;
    }
    let outcome = receive.finish(&declared);
    assert!(!outcome.ok);
    assert_eq!(outcome.code, ErrorCode::ChecksumMismatch);
    assert_eq!(outcome.reason, "checksum mismatch");
    assert_eq!(outcome.checksum, calculate_bytes_checksum(&data));

    let env = decode_envelope(&outcome_message(&outcome, "s").unwrap()).unwrap();
    let result = expect_transfer_result(env.msg_type, &env.payload).unwrap();
    assert!(!result.ok);
    assert_eq!(result.reason, "checksum mismatch");
    assert_eq!(result.checksum, calculate_bytes_checksum(&data));
    assert!(matches!(result_verdict(&result), Err(TransferError::Failed(ErrorCode::ChecksumMismatch))));
}

#[test]
fn no_declared_checksum_passes() {
    let mut receive = FileReceive::new(3);
    receive.accept_chunk(b"abc");
    let outcome = receive.finish(&[]);
    assert!(outcome.ok);
    assert_eq!(outcome.code, ErrorCode::Unknown);
}

#[test]
fn chunking_stops_at_file_size() {
    let mut receive = FileReceive::new(10000);
    assert_eq!(receive.next_chunk_len(), 8192);
    receive.accept_chunk(&[0u8; 8192]);
    assert_eq!(receive.next_chunk_len(), 1808);
    assert!(!receive.is_complete());
    receive.accept_chunk(&[0u8; 1808]);
    assert!(receive.is_complete());
    assert_eq!(receive.next_chunk_len(), 0);

    let empty = FileReceive::new(0);
    assert!(empty.is_complete());
    assert!(empty.finish(&[]).ok);
}

#[test]
fn byte_comparison() {
    assert!(bytes_equal(b"abc", b"abc"));
    assert!(!bytes_equal(b"abc", b"abd"));
    assert!(!bytes_equal(b"abc", b"ab"));
    assert!(bytes_equal(b"", b""));
}
