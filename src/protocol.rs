use vstd::prelude::*;
use vstd::string::StringExecFns;
use vstd::utf8::{decode_utf8, encode_utf8, encode_utf8_decode_utf8, encode_utf8_valid_utf8, valid_utf8};

use crate::codec::{
    be32, be64, copy_range, from_be32, from_be64, get_be32, get_be64, lemma_be32_round_trip,
    lemma_be64_round_trip, push_all, push_be32, push_be64,
};
use crate::framing::{bytes_of, encode_envelope, envelope_bytes, framed, ProtocolError, MAX_MESSAGE_SIZE};

verus! {

pub const MSG_META: u8 = 1;

pub const MSG_PREFLIGHT_OK: u8 = 2;

pub const MSG_PREFLIGHT_FAIL: u8 = 3;

pub const MSG_TRANSFER_START: u8 = 4;

pub const MSG_TRANSFER_RESULT: u8 = 5;

pub const MSG_PROBE: u8 = 6;

pub const MSG_ESTABLISHED: u8 = 7;

// ---------------------------------------------------------------------------
// Field layouts
// ---------------------------------------------------------------------------

/// A byte string on the wire: its 32-bit length, then the bytes.
pub open spec fn blob_bytes(b: Seq<u8>) -> Seq<u8> {
    be32(b.len() as u32) + b
}

/// Text on the wire: its UTF-8 bytes as a byte string.
pub open spec fn str_bytes(s: Seq<char>) -> Seq<u8> {
    blob_bytes(encode_utf8(s))
}

pub open spec fn bool_byte(v: bool) -> u8 {
    if v {
        1
    } else {
        0
    }
}

/// The byte string at `pos` in `b`, and the position after it.
pub open spec fn parse_blob(b: Seq<u8>, pos: int) -> Option<(Seq<u8>, int)> {
    if 0 <= pos && pos + 4 <= b.len() && pos + 4 + from_be32(b.subrange(pos, pos + 4)) <= b.len() {
        let end = pos + 4 + from_be32(b.subrange(pos, pos + 4));
        Some((b.subrange(pos + 4, end), end))
    } else {
        None
    }
}

/// The text at `pos` in `b`, and the position after it.
pub open spec fn parse_str(b: Seq<u8>, pos: int) -> Option<(Seq<char>, int)> {
    match parse_blob(b, pos) {
        Some((x, end)) => if valid_utf8(x) {
            Some((decode_utf8(x), end))
        } else {
            None
        },
        None => None,
    }
}

proof fn lemma_parse_blob(pre: Seq<u8>, x: Seq<u8>, post: Seq<u8>)
    requires
        x.len() <= u32::MAX,
    ensures
        parse_blob(pre + blob_bytes(x) + post, pre.len() as int) == Some(
            (x, (pre.len() + 4 + x.len()) as int),
        ),
{
    let b = pre + blob_bytes(x) + post;
    let p = pre.len() as int;
    lemma_be32_round_trip(x.len() as u32);
    assert(b.subrange(p, p + 4) =~= be32(x.len() as u32));
    assert(b.subrange(p + 4, p + 4 + x.len()) =~= x);
}

proof fn lemma_parse_str(pre: Seq<u8>, s: Seq<char>, post: Seq<u8>)
    requires
        encode_utf8(s).len() <= u32::MAX,
    ensures
        parse_str(pre + str_bytes(s) + post, pre.len() as int) == Some(
            (s, (pre.len() + 4 + encode_utf8(s).len()) as int),
        ),
{
    lemma_parse_blob(pre, encode_utf8(s), post);
    encode_utf8_valid_utf8(s);
    encode_utf8_decode_utf8(s);
}

/// Relies on String::from_utf8: it succeeds exactly on valid UTF-8 and then
/// holds the text those bytes encode.
#[verifier::external_body]
fn string_from_utf8(bytes: Vec<u8>) -> (r: Option<String>)
    ensures
        match r {
            Some(s) => valid_utf8(bytes@) && s@ == decode_utf8(bytes@),
            None => !valid_utf8(bytes@),
        },
{
    String::from_utf8(bytes).ok()
}

fn put_blob(out: &mut Vec<u8>, b: &[u8])
    requires
        b@.len() <= u32::MAX,
    ensures
        final(out)@ == old(out)@ + blob_bytes(b@),
{
    push_be32(out, b.len() as u32);
    push_all(out, b);
    assert(final(out)@ =~= old(out)@ + blob_bytes(b@));
}

fn put_str(out: &mut Vec<u8>, s: &str)
    requires
        encode_utf8(s@).len() <= u32::MAX,
    ensures
        final(out)@ == old(out)@ + str_bytes(s@),
{
    put_blob(out, s.as_bytes());
}

fn take_blob(b: &[u8], pos: usize) -> (r: Option<(Vec<u8>, usize)>)
    ensures
        match r {
            Some((x, end)) => parse_blob(b@, pos as int) == Some((x@, end as int)),
            None => parse_blob(b@, pos as int) is None,
        },
{
    if pos > b.len() || b.len() - pos < 4 {
        return None;
    }
    let n = get_be32(b, pos);
    if b.len() - pos - 4 < n as usize {
        return None;
    }
    let end = pos + 4 + n as usize;
    let x = copy_range(b, pos + 4, end);
    Some((x, end))
}

fn take_str(b: &[u8], pos: usize) -> (r: Option<(String, usize)>)
    ensures
        match r {
            Some((s, end)) => parse_str(b@, pos as int) == Some((s@, end as int)),
            None => parse_str(b@, pos as int) is None,
        },
{
    match take_blob(b, pos) {
        Some((x, end)) => match string_from_utf8(x) {
            Some(s) => Some((s, end)),
            None => None,
        },
        None => None,
    }
}

/// The text of each string.
pub open spec fn texts(v: Seq<String>) -> Seq<Seq<char>> {
    v.map_values(|s: String| s@)
}

/// Texts one after another on the wire, without their count.
pub open spec fn str_seq_bytes(list: Seq<Seq<char>>) -> Seq<u8>
    decreases list.len(),
{
    if list.len() == 0 {
        Seq::empty()
    } else {
        str_bytes(list[0]) + str_seq_bytes(list.drop_first())
    }
}

/// A list of texts on the wire: its 32-bit count, then each text.
pub open spec fn strs_bytes(list: Seq<Seq<char>>) -> Seq<u8> {
    be32(list.len() as u32) + str_seq_bytes(list)
}

/// `n` texts from position `pos`, and the position after them.
pub open spec fn parse_n_strs(b: Seq<u8>, pos: int, n: nat) -> Option<(Seq<Seq<char>>, int)>
    decreases n,
{
    if n == 0 {
        Some((Seq::empty(), pos))
    } else {
        match parse_str(b, pos) {
            Some((s, p)) => match parse_n_strs(b, p, (n - 1) as nat) {
                Some((rest, q)) => Some((seq![s] + rest, q)),
                None => None,
            },
            None => None,
        }
    }
}

/// The list of texts at `pos` in `b`, and the position after it.
pub open spec fn parse_strs(b: Seq<u8>, pos: int) -> Option<(Seq<Seq<char>>, int)> {
    if 0 <= pos && pos + 4 <= b.len() {
        parse_n_strs(b, pos + 4, from_be32(b.subrange(pos, pos + 4)) as nat)
    } else {
        None
    }
}

pub open spec fn prepend_texts(pre: Seq<Seq<char>>, r: Option<(Seq<Seq<char>>, int)>) -> Option<
    (Seq<Seq<char>>, int),
> {
    match r {
        Some((list, q)) => Some((pre + list, q)),
        None => None,
    }
}

proof fn lemma_str_seq_push(list: Seq<Seq<char>>, x: Seq<char>)
    ensures
        str_seq_bytes(list.push(x)) == str_seq_bytes(list) + str_bytes(x),
    decreases list.len(),
{
    if list.len() == 0 {
        let one = list.push(x);
        assert(one.drop_first().len() == 0);
        assert(str_seq_bytes(one.drop_first()) == Seq::<u8>::empty());
        assert(one[0] == x);
        assert(str_seq_bytes(one) == str_bytes(x) + str_seq_bytes(one.drop_first()));
        assert(str_seq_bytes(one) =~= str_bytes(x));
        assert(str_seq_bytes(list) + str_bytes(x) =~= str_bytes(x));
    } else {
        lemma_str_seq_push(list.drop_first(), x);
        assert(list.push(x).drop_first() =~= list.drop_first().push(x));
        assert(str_seq_bytes(list.push(x)) =~= str_bytes(list[0]) + (str_seq_bytes(
            list.drop_first(),
        ) + str_bytes(x)));
    }
}

proof fn lemma_str_seq_len(list: Seq<Seq<char>>)
    ensures
        str_seq_bytes(list).len() >= 4 * list.len(),
        forall|i: int|
            0 <= i < list.len() ==> str_seq_bytes(list).len() >= encode_utf8(
                #[trigger] list[i],
            ).len(),
    decreases list.len(),
{
    if list.len() > 0 {
        lemma_str_seq_len(list.drop_first());
        assert forall|i: int| 0 <= i < list.len() implies str_seq_bytes(list).len() >= encode_utf8(
            #[trigger] list[i],
        ).len() by {
            if i > 0 {
                assert(list[i] == list.drop_first()[i - 1]);
            }
        }
    }
}

proof fn lemma_parse_strs(pre: Seq<u8>, list: Seq<Seq<char>>, post: Seq<u8>)
    requires
        list.len() <= u32::MAX,
        forall|i: int| 0 <= i < list.len() ==> encode_utf8(#[trigger] list[i]).len() <= u32::MAX,
    ensures
        parse_strs(pre + strs_bytes(list) + post, pre.len() as int) == Some(
            (list, (pre.len() + strs_bytes(list).len()) as int),
        ),
{
    let b = pre + strs_bytes(list) + post;
    lemma_be32_round_trip(list.len() as u32);
    assert(b.subrange(pre.len() as int, pre.len() + 4int) =~= be32(list.len() as u32));
    lemma_parse_n_strs(pre + be32(list.len() as u32), list, post);
    assert(b =~= pre + be32(list.len() as u32) + str_seq_bytes(list) + post);
}

proof fn lemma_parse_n_strs(pre: Seq<u8>, list: Seq<Seq<char>>, post: Seq<u8>)
    requires
        forall|i: int| 0 <= i < list.len() ==> encode_utf8(#[trigger] list[i]).len() <= u32::MAX,
    ensures
        parse_n_strs(pre + str_seq_bytes(list) + post, pre.len() as int, list.len()) == Some(
            (list, (pre.len() + str_seq_bytes(list).len()) as int),
        ),
    decreases list.len(),
{
    let b = pre + str_seq_bytes(list) + post;
    if list.len() == 0 {
        assert(list =~= Seq::<Seq<char>>::empty());
    } else {
        let rest = list.drop_first();
        assert(encode_utf8(list[0]).len() <= u32::MAX);
        assert forall|i: int| 0 <= i < rest.len() implies encode_utf8(#[trigger] rest[i]).len()
            <= u32::MAX by {
            assert(rest[i] == list[i + 1]);
        }
        assert(b =~= pre + str_bytes(list[0]) + (str_seq_bytes(rest) + post));
        lemma_parse_str(pre, list[0], str_seq_bytes(rest) + post);
        assert(b =~= (pre + str_bytes(list[0])) + str_seq_bytes(rest) + post);
        lemma_parse_n_strs(pre + str_bytes(list[0]), rest, post);
        assert(seq![list[0]] + rest =~= list);
    }
}

fn put_strs(out: &mut Vec<u8>, list: &Vec<String>)
    requires
        list@.len() <= u32::MAX,
        forall|i: int| 0 <= i < list@.len() ==> encode_utf8((#[trigger] list@[i])@).len() <= u32::MAX,
    ensures
        final(out)@ == old(out)@ + strs_bytes(texts(list@)),
{
    push_be32(out, list.len() as u32);
    let ghost start = out@;
    let mut i: usize = 0;
    while i < list.len()
        invariant
            i <= list@.len(),
            list@.len() <= u32::MAX,
            forall|k: int| 0 <= k < list@.len() ==> encode_utf8((#[trigger] list@[k])@).len() <= u32::MAX,
            start == old(out)@ + be32(list@.len() as u32),
            out@ == start + str_seq_bytes(texts(list@.subrange(0, i as int))),
        decreases list@.len() - i,
    {
        proof {
            assert(texts(list@.subrange(0, i + 1)) =~= texts(list@.subrange(0, i as int)).push(
                list@[i as int]@,
            ));
            lemma_str_seq_push(texts(list@.subrange(0, i as int)), list@[i as int]@);
        }
        let ghost before = out@;
        put_str(out, list[i].as_str());
        i = i + 1;
        assert(out@ =~= start + str_seq_bytes(texts(list@.subrange(0, i as int))));
    }
    assert(list@.subrange(0, i as int) =~= list@);
    assert(texts(list@).len() == list@.len());
    assert(out@ =~= old(out)@ + strs_bytes(texts(list@)));
}

fn take_strs(b: &[u8], pos: usize) -> (r: Option<(Vec<String>, usize)>)
    ensures
        match r {
            Some((v, end)) => parse_strs(b@, pos as int) == Some((texts(v@), end as int)),
            None => parse_strs(b@, pos as int) is None,
        },
{
    if pos > b.len() || b.len() - pos < 4 {
        return None;
    }
    let n = get_be32(b, pos);
    let mut out: Vec<String> = Vec::new();
    let mut at: usize = pos + 4;
    let mut i: u32 = 0;
    assert(texts(out@) =~= Seq::<Seq<char>>::empty());
    assert(prepend_texts(Seq::empty(), parse_n_strs(b@, at as int, n as nat)) == parse_n_strs(
        b@,
        at as int,
        n as nat,
    )) by {
        match parse_n_strs(b@, at as int, n as nat) {
            Some((l, q)) => {
                assert(Seq::<Seq<char>>::empty() + l =~= l);
            },
            None => {},
        }
    }
    while i < n
        invariant
            i <= n,
            pos + 4 <= b@.len(),
            n == from_be32(b@.subrange(pos as int, pos + 4)),
            parse_strs(b@, pos as int) == prepend_texts(
                texts(out@),
                parse_n_strs(b@, at as int, (n - i) as nat),
            ),
        decreases n - i,
    {
        let ghost k = (n - i) as nat;
        match take_str(b, at) {
            Some((s, p)) => {
                proof {
                    let tail = parse_n_strs(b@, p as int, (k - 1) as nat);
                    assert(parse_n_strs(b@, at as int, k) == prepend_texts(seq![s@], tail));
                    assert(texts(out@.push(s)) =~= texts(out@) + seq![s@]);
                    match tail {
                        Some((l, q)) => {
                            assert(texts(out@) + (seq![s@] + l) =~= (texts(out@) + seq![s@]) + l);
                        },
                        None => {},
                    }
                }
                out.push(s);
                at = p;
                i = i + 1;
            },
            None => {
                return None;
            },
        }
    }
    assert(texts(out@) + Seq::<Seq<char>>::empty() =~= texts(out@));
    Some((out, at))
}

/// Frames a payload as a message, refusing one over the cap.
fn frame(msg_type: u8, payload: Vec<u8>) -> (r: Result<Vec<u8>, ProtocolError>)
    ensures
        payload@.len() <= MAX_MESSAGE_SIZE ==> r is Ok && r->Ok_0@ == envelope_bytes(msg_type, payload@),
        payload@.len() > MAX_MESSAGE_SIZE ==> r == Err::<Vec<u8>, ProtocolError>(ProtocolError::OversizedMessage),
{
    encode_envelope(msg_type, payload.as_slice())
}

// ---------------------------------------------------------------------------
// Error codes
// ---------------------------------------------------------------------------

/// Why an entry was refused or failed, as reported to the peer.
#[derive(Debug, Clone, Copy, PartialEq, Eq, Structural)]
pub enum ErrorCode {
    Unknown,
    NoSpace,
    Conflict,
    Exists,
    Declined,
    ChecksumMismatch,
    Io,
}

pub open spec fn error_code_byte(c: ErrorCode) -> u8 {
    match c {
        ErrorCode::Unknown => 0,
        ErrorCode::NoSpace => 1,
        ErrorCode::Conflict => 2,
        ErrorCode::Exists => 3,
        ErrorCode::Declined => 4,
        ErrorCode::ChecksumMismatch => 5,
        ErrorCode::Io => 6,
    }
}

pub open spec fn error_code_of_byte(b: u8) -> Option<ErrorCode> {
    if b == 0 {
        Some(ErrorCode::Unknown)
    } else if b == 1 {
        Some(ErrorCode::NoSpace)
    } else if b == 2 {
        Some(ErrorCode::Conflict)
    } else if b == 3 {
        Some(ErrorCode::Exists)
    } else if b == 4 {
        Some(ErrorCode::Declined)
    } else if b == 5 {
        Some(ErrorCode::ChecksumMismatch)
    } else if b == 6 {
        Some(ErrorCode::Io)
    } else {
        None
    }
}

fn code_to_byte(c: ErrorCode) -> (r: u8)
    ensures
        r == error_code_byte(c),
{
    match c {
        ErrorCode::Unknown => 0,
        ErrorCode::NoSpace => 1,
        ErrorCode::Conflict => 2,
        ErrorCode::Exists => 3,
        ErrorCode::Declined => 4,
        ErrorCode::ChecksumMismatch => 5,
        ErrorCode::Io => 6,
    }
}

fn code_from_byte(b: u8) -> (r: Option<ErrorCode>)
    ensures
        r == error_code_of_byte(b),
{
    if b == 0 {
        Some(ErrorCode::Unknown)
    } else if b == 1 {
        Some(ErrorCode::NoSpace)
    } else if b == 2 {
        Some(ErrorCode::Conflict)
    } else if b == 3 {
        Some(ErrorCode::Exists)
    } else if b == 4 {
        Some(ErrorCode::Declined)
    } else if b == 5 {
        Some(ErrorCode::ChecksumMismatch)
    } else if b == 6 {
        Some(ErrorCode::Io)
    } else {
        None
    }
}

// ---------------------------------------------------------------------------
// Session tag
// ---------------------------------------------------------------------------

/// A per-entry payload: the session id, then the message's own fields.
pub open spec fn in_session(session_id: Seq<char>, body: Seq<u8>) -> Seq<u8> {
    str_bytes(session_id) + body
}

/// The session id at the start of a payload, and the fields after it.
pub open spec fn split_session(b: Seq<u8>) -> Option<(Seq<char>, Seq<u8>)> {
    match parse_str(b, 0) {
        Some((session_id, p)) => Some((session_id, b.subrange(p, b.len() as int))),
        None => None,
    }
}

proof fn lemma_split_session(session_id: Seq<char>, body: Seq<u8>)
    requires
        encode_utf8(session_id).len() <= u32::MAX,
    ensures
        split_session(in_session(session_id, body)) == Some((session_id, body)),
{
    let b = in_session(session_id, body);
    assert(b =~= Seq::empty() + str_bytes(session_id) + body);
    lemma_parse_str(Seq::empty(), session_id, body);
    assert(b.subrange(4 + encode_utf8(session_id).len() as int, b.len() as int) =~= body);
}

fn take_session(payload: &[u8]) -> (r: Option<(String, Vec<u8>)>)
    ensures
        match r {
            Some((s, body)) => split_session(payload@) == Some((s@, body@)),
            None => split_session(payload@) is None,
        },
{
    match take_str(payload, 0) {
        Some((s, p)) => Some((s, copy_range(payload, p, payload.len()))),
        None => None,
    }
}

/// Starts a per-entry payload with its session id.
fn start_payload(session_id: &str) -> (r: Result<Vec<u8>, ProtocolError>)
    ensures
        match r {
            Ok(b) => b@ == str_bytes(session_id@) && encode_utf8(session_id@).len()
                <= MAX_MESSAGE_SIZE,
            Err(e) => e == ProtocolError::OversizedMessage && encode_utf8(session_id@).len()
                > MAX_MESSAGE_SIZE,
        },
{
    if session_id.as_bytes().len() > MAX_MESSAGE_SIZE as usize {
        return Err(ProtocolError::OversizedMessage);
    }
    let mut payload: Vec<u8> = Vec::new();
    put_str(&mut payload, session_id);
    assert(payload@ =~= str_bytes(session_id@));
    Ok(payload)
}

// ---------------------------------------------------------------------------
// Meta
// ---------------------------------------------------------------------------

/// Permission bits a new entry carries until told otherwise.
pub const DEFAULT_MODE: u32 = 0o644;

/// An entry's description, sent before any of its bytes.
#[derive(Debug)]
pub struct FileMeta {
    pub name: String,
    pub size: u64,
    pub is_dir: bool,
    /// Permission bits.
    pub mode: u32,
    /// Modification time, in seconds since the Unix epoch.
    pub mtime: u64,
    /// The algorithm of `checksum`.
    pub checksum_alg: String,
    /// Digest of the whole content; empty when none was computed.
    pub checksum: Vec<u8>,
}

pub struct FileMetaView {
    pub name: Seq<char>,
    pub size: u64,
    pub is_dir: bool,
    pub mode: u32,
    pub mtime: u64,
    pub checksum_alg: Seq<char>,
    pub checksum: Seq<u8>,
}

impl View for FileMeta {
    type V = FileMetaView;

    open spec fn view(&self) -> FileMetaView {
        FileMetaView {
            name: self.name@,
            size: self.size,
            is_dir: self.is_dir,
            mode: self.mode,
            mtime: self.mtime,
            checksum_alg: self.checksum_alg@,
            checksum: self.checksum@,
        }
    }
}

impl FileMeta {
    /// A description with the default mode, no modification time, and the
    /// name of the digest algorithm but no digest yet.
    pub fn new(name: String, size: u64, is_dir: bool) -> (r: Self)
        ensures
            r@ == (FileMetaView {
                name: name@,
                size,
                is_dir,
                mode: DEFAULT_MODE,
                mtime: 0,
                checksum_alg: "defaulthash"@,
                checksum: Seq::empty(),
            }),
    {
        FileMeta {
            name,
            size,
            is_dir,
            mode: DEFAULT_MODE,
            mtime: 0,
            checksum_alg: String::from_str("defaulthash"),
            checksum: Vec::new(),
        }
    }
}

/// The Meta message: an entry within a session.
#[derive(Debug)]
pub struct Meta {
    pub session_id: String,
    pub file: FileMeta,
}

pub struct MetaView {
    pub session_id: Seq<char>,
    pub file: FileMetaView,
}

impl View for Meta {
    type V = MetaView;

    open spec fn view(&self) -> MetaView {
        MetaView { session_id: self.session_id@, file: self.file@ }
    }
}

impl Meta {
    pub fn new(session_id: String, file: FileMeta) -> (r: Self)
        ensures
            r@ == (MetaView { session_id: session_id@, file: file@ }),
    {
        Meta { session_id, file }
    }
}

/// An entry's fields on the wire.
pub open spec fn entry_bytes(m: FileMetaView) -> Seq<u8> {
    be64(m.size) + seq![bool_byte(m.is_dir)] + str_bytes(m.name) + be32(m.mode) + be64(m.mtime)
        + str_bytes(m.checksum_alg) + blob_bytes(m.checksum)
}

pub open spec fn parse_entry(b: Seq<u8>) -> Option<FileMetaView> {
    if b.len() < 9 {
        None
    } else {
        match parse_str(b, 9) {
            Some((name, p)) => if p + 12 > b.len() {
                None
            } else {
                match parse_str(b, p + 12) {
                    Some((checksum_alg, q)) => match parse_blob(b, q) {
                        Some((checksum, end)) => if end == b.len() {
                            Some(
                                FileMetaView {
                                    name,
                                    size: from_be64(b.subrange(0, 8)),
                                    is_dir: b[8] != 0,
                                    mode: from_be32(b.subrange(p, p + 4)),
                                    mtime: from_be64(b.subrange(p + 4, p + 12)),
                                    checksum_alg,
                                    checksum,
                                },
                            )
                        } else {
                            None
                        },
                        None => None,
                    },
                    None => None,
                }
            },
            None => None,
        }
    }
}

pub open spec fn meta_payload(m: MetaView) -> Seq<u8> {
    in_session(m.session_id, entry_bytes(m.file))
}

pub open spec fn parse_meta(b: Seq<u8>) -> Option<MetaView> {
    match split_session(b) {
        Some((session_id, body)) => match parse_entry(body) {
            Some(file) => Some(MetaView { session_id, file }),
            None => None,
        },
        None => None,
    }
}

proof fn lemma_entry_round_trip(m: FileMetaView)
    requires
        encode_utf8(m.name).len() <= u32::MAX,
        encode_utf8(m.checksum_alg).len() <= u32::MAX,
        m.checksum.len() <= u32::MAX,
    ensures
        parse_entry(entry_bytes(m)) == Some(m),
{
    let b = entry_bytes(m);
    let p = 13 + encode_utf8(m.name).len() as int;
    let q = p + 12 + 4 + encode_utf8(m.checksum_alg).len() as int;
    let head = be64(m.size) + seq![bool_byte(m.is_dir)];
    let with_name = head + str_bytes(m.name);
    let with_times = with_name + be32(m.mode) + be64(m.mtime);
    let with_alg = with_times + str_bytes(m.checksum_alg);
    assert(head.len() == 9);
    assert(with_name.len() == p);
    assert(with_times.len() == p + 12);
    assert(with_alg.len() == q);
    assert(parse_str(b, 9) == Some((m.name, p))) by {
        assert(b =~= head + str_bytes(m.name) + (be32(m.mode) + be64(m.mtime) + str_bytes(
            m.checksum_alg,
        ) + blob_bytes(m.checksum)));
        lemma_parse_str(head, m.name, be32(m.mode) + be64(m.mtime) + str_bytes(m.checksum_alg)
            + blob_bytes(m.checksum));
    }
    assert(parse_str(b, p + 12) == Some((m.checksum_alg, q))) by {
        assert(b =~= with_times + str_bytes(m.checksum_alg) + blob_bytes(m.checksum));
        lemma_parse_str(with_times, m.checksum_alg, blob_bytes(m.checksum));
    }
    assert(parse_blob(b, q) == Some((m.checksum, b.len() as int))) by {
        assert(b =~= with_alg + blob_bytes(m.checksum) + Seq::empty());
        lemma_parse_blob(with_alg, m.checksum, Seq::empty());
    }
    assert(from_be64(b.subrange(0, 8)) == m.size) by {
        lemma_be64_round_trip(m.size);
        assert(b.subrange(0, 8) =~= be64(m.size));
    }
    assert(from_be32(b.subrange(p, p + 4)) == m.mode) by {
        lemma_be32_round_trip(m.mode);
        assert(b.subrange(p, p + 4) =~= be32(m.mode));
    }
    assert(from_be64(b.subrange(p + 4, p + 12)) == m.mtime) by {
        lemma_be64_round_trip(m.mtime);
        assert(b.subrange(p + 4, p + 12) =~= be64(m.mtime));
    }
    assert(b[8] == bool_byte(m.is_dir));
}

/// A Meta payload decodes to the message it was encoded from.
pub proof fn lemma_meta_round_trip(m: MetaView)
    requires
        encode_utf8(m.session_id).len() <= u32::MAX,
        encode_utf8(m.file.name).len() <= u32::MAX,
        encode_utf8(m.file.checksum_alg).len() <= u32::MAX,
        m.file.checksum.len() <= u32::MAX,
    ensures
        parse_meta(meta_payload(m)) == Some(m),
{
    lemma_split_session(m.session_id, entry_bytes(m.file));
    lemma_entry_round_trip(m.file);
}

/// The framed Meta message.
pub fn write_meta(meta: &Meta) -> (r: Result<Vec<u8>, ProtocolError>)
    ensures
        bytes_of(r) == framed(MSG_META, meta_payload(meta@)),
{
    let mut payload = start_payload(meta.session_id.as_str())?;
    let file = &meta.file;
    let name = file.name.as_str();
    let alg = file.checksum_alg.as_str();
    if name.as_bytes().len() > MAX_MESSAGE_SIZE as usize || alg.as_bytes().len()
        > MAX_MESSAGE_SIZE as usize || file.checksum.len() > MAX_MESSAGE_SIZE as usize {
        return Err(ProtocolError::OversizedMessage);
    }
    push_be64(&mut payload, file.size);
    payload.push(if file.is_dir { 1u8 } else { 0u8 });
    put_str(&mut payload, name);
    push_be32(&mut payload, file.mode);
    push_be64(&mut payload, file.mtime);
    put_str(&mut payload, alg);
    put_blob(&mut payload, file.checksum.as_slice());
    assert(payload@ =~= meta_payload(meta@));
    frame(MSG_META, payload)
}

fn read_entry(b: &[u8]) -> (r: Result<FileMeta, ProtocolError>)
    ensures
        match r {
            Ok(m) => parse_entry(b@) == Some(m@),
            Err(e) => e == ProtocolError::Malformed && parse_entry(b@) is None,
        },
{
    if b.len() < 9 {
        return Err(ProtocolError::Malformed);
    }
    let size = get_be64(b, 0);
    let is_dir = b[8] != 0;
    let (name, p) = match take_str(b, 9) {
        Some(x) => x,
        None => return Err(ProtocolError::Malformed),
    };
    if p > b.len() || b.len() - p < 12 {
        return Err(ProtocolError::Malformed);
    }
    let mode = get_be32(b, p);
    let mtime = get_be64(b, p + 4);
    let (checksum_alg, q) = match take_str(b, p + 12) {
        Some(x) => x,
        None => return Err(ProtocolError::Malformed),
    };
    let (checksum, end) = match take_blob(b, q) {
        Some(x) => x,
        None => return Err(ProtocolError::Malformed),
    };
    if end != b.len() {
        return Err(ProtocolError::Malformed);
    }
    Ok(FileMeta { name, size, is_dir, mode, mtime, checksum_alg, checksum })
}

/// Decodes a Meta payload.
pub fn read_meta(payload: &[u8]) -> (r: Result<Meta, ProtocolError>)
    ensures
        match r {
            Ok(m) => parse_meta(payload@) == Some(m@),
            Err(e) => e == ProtocolError::Malformed && parse_meta(payload@) is None,
        },
{
    let (session_id, body) = match take_session(payload) {
        Some(x) => x,
        None => return Err(ProtocolError::Malformed),
    };
    let file = read_entry(body.as_slice())?;
    Ok(Meta { session_id, file })
}

// ---------------------------------------------------------------------------
// PreflightOk
// ---------------------------------------------------------------------------

/// The receiver admits an entry.
#[derive(Debug)]
pub struct PreflightOk {
    pub session_id: String,
    pub destination_exists: bool,
    pub available_space: u64,
}

pub struct PreflightOkView {
    pub session_id: Seq<char>,
    pub destination_exists: bool,
    pub available_space: u64,
}

impl View for PreflightOk {
    type V = PreflightOkView;

    open spec fn view(&self) -> PreflightOkView {
        PreflightOkView {
            session_id: self.session_id@,
            destination_exists: self.destination_exists,
            available_space: self.available_space,
        }
    }
}

impl PreflightOk {
    pub fn new(session_id: String, destination_exists: bool, available_space: u64) -> (r: Self)
        ensures
            r@ == (PreflightOkView { session_id: session_id@, destination_exists, available_space }),
    {
        PreflightOk { session_id, destination_exists, available_space }
    }
}

pub open spec fn preflight_ok_payload(m: PreflightOkView) -> Seq<u8> {
    in_session(m.session_id, be64(m.available_space) + seq![bool_byte(m.destination_exists)])
}

pub open spec fn parse_preflight_ok(b: Seq<u8>) -> Option<PreflightOkView> {
    match split_session(b) {
        Some((session_id, body)) => if body.len() == 9 {
            Some(
                PreflightOkView {
                    session_id,
                    available_space: from_be64(body.subrange(0, 8)),
                    destination_exists: body[8] != 0,
                },
            )
        } else {
            None
        },
        None => None,
    }
}

pub fn write_preflight_ok(msg: &PreflightOk) -> (r: Result<Vec<u8>, ProtocolError>)
    ensures
        bytes_of(r) == framed(MSG_PREFLIGHT_OK, preflight_ok_payload(msg@)),
{
    let mut payload = start_payload(msg.session_id.as_str())?;
    push_be64(&mut payload, msg.available_space);
    payload.push(if msg.destination_exists { 1u8 } else { 0u8 });
    assert(payload@ =~= preflight_ok_payload(msg@));
    frame(MSG_PREFLIGHT_OK, payload)
}

pub fn read_preflight_ok(payload: &[u8]) -> (r: Result<PreflightOk, ProtocolError>)
    ensures
        match r {
            Ok(m) => parse_preflight_ok(payload@) == Some(m@),
            Err(e) => e == ProtocolError::Malformed && parse_preflight_ok(payload@) is None,
        },
{
    let (session_id, body) = match take_session(payload) {
        Some(x) => x,
        None => return Err(ProtocolError::Malformed),
    };
    if body.len() != 9 {
        return Err(ProtocolError::Malformed);
    }
    let available_space = get_be64(body.as_slice(), 0);
    Ok(PreflightOk { session_id, available_space, destination_exists: body[8] != 0 })
}

// ---------------------------------------------------------------------------
// PreflightFail
// ---------------------------------------------------------------------------

/// The receiver refuses an entry.
#[derive(Debug)]
pub struct PreflightFail {
    pub session_id: String,
    pub code: ErrorCode,
    pub reason: String,
}

pub struct PreflightFailView {
    pub session_id: Seq<char>,
    pub code: ErrorCode,
    pub reason: Seq<char>,
}

impl View for PreflightFail {
    type V = PreflightFailView;

    open spec fn view(&self) -> PreflightFailView {
        PreflightFailView { session_id: self.session_id@, code: self.code, reason: self.reason@ }
    }
}

impl PreflightFail {
    pub fn new(session_id: String, code: ErrorCode, reason: String) -> (r: Self)
        ensures
            r@ == (PreflightFailView { session_id: session_id@, code, reason: reason@ }),
    {
        PreflightFail { session_id, code, reason }
    }
}

pub open spec fn preflight_fail_payload(m: PreflightFailView) -> Seq<u8> {
    in_session(m.session_id, seq![error_code_byte(m.code)] + str_bytes(m.reason))
}

pub open spec fn parse_preflight_fail(b: Seq<u8>) -> Option<PreflightFailView> {
    match split_session(b) {
        Some((session_id, body)) => if body.len() < 1 {
            None
        } else {
            match (error_code_of_byte(body[0]), parse_str(body, 1)) {
                (Some(code), Some((reason, p))) => if p == body.len() {
                    Some(PreflightFailView { session_id, code, reason })
                } else {
                    None
                },
                _ => None,
            }
        },
        None => None,
    }
}

pub fn write_preflight_fail(msg: &PreflightFail) -> (r: Result<Vec<u8>, ProtocolError>)
    ensures
        bytes_of(r) == framed(MSG_PREFLIGHT_FAIL, preflight_fail_payload(msg@)),
{
    let mut payload = start_payload(msg.session_id.as_str())?;
    let reason = msg.reason.as_str();
    if reason.as_bytes().len() > MAX_MESSAGE_SIZE as usize {
        return Err(ProtocolError::OversizedMessage);
    }
    payload.push(code_to_byte(msg.code));
    put_str(&mut payload, reason);
    assert(payload@ =~= preflight_fail_payload(msg@));
    frame(MSG_PREFLIGHT_FAIL, payload)
}

pub fn read_preflight_fail(payload: &[u8]) -> (r: Result<PreflightFail, ProtocolError>)
    ensures
        match r {
            Ok(m) => parse_preflight_fail(payload@) == Some(m@),
            Err(e) => e == ProtocolError::Malformed && parse_preflight_fail(payload@) is None,
        },
{
    let (session_id, body) = match take_session(payload) {
        Some(x) => x,
        None => return Err(ProtocolError::Malformed),
    };
    if body.len() < 1 {
        return Err(ProtocolError::Malformed);
    }
    let code = match code_from_byte(body[0]) {
        Some(c) => c,
        None => return Err(ProtocolError::Malformed),
    };
    let (reason, p) = match take_str(body.as_slice(), 1) {
        Some(x) => x,
        None => return Err(ProtocolError::Malformed),
    };
    if p != body.len() {
        return Err(ProtocolError::Malformed);
    }
    Ok(PreflightFail { session_id, code, reason })
}

// ---------------------------------------------------------------------------
// TransferStart
// ---------------------------------------------------------------------------

/// Announces the raw bytes that follow.
#[derive(Debug)]
pub struct TransferStart {
    pub session_id: String,
    pub file_size: u64,
}

pub struct TransferStartView {
    pub session_id: Seq<char>,
    pub file_size: u64,
}

impl View for TransferStart {
    type V = TransferStartView;

    open spec fn view(&self) -> TransferStartView {
        TransferStartView { session_id: self.session_id@, file_size: self.file_size }
    }
}

impl TransferStart {
    pub fn new(session_id: String, file_size: u64) -> (r: Self)
        ensures
            r@ == (TransferStartView { session_id: session_id@, file_size }),
    {
        TransferStart { session_id, file_size }
    }
}

pub open spec fn transfer_start_payload(m: TransferStartView) -> Seq<u8> {
    in_session(m.session_id, be64(m.file_size))
}

pub open spec fn parse_transfer_start(b: Seq<u8>) -> Option<TransferStartView> {
    match split_session(b) {
        Some((session_id, body)) => if body.len() == 8 {
            Some(TransferStartView { session_id, file_size: from_be64(body) })
        } else {
            None
        },
        None => None,
    }
}

pub fn write_transfer_start(msg: &TransferStart) -> (r: Result<Vec<u8>, ProtocolError>)
    ensures
        bytes_of(r) == framed(MSG_TRANSFER_START, transfer_start_payload(msg@)),
{
    let mut payload = start_payload(msg.session_id.as_str())?;
    push_be64(&mut payload, msg.file_size);
    assert(payload@ =~= transfer_start_payload(msg@));
    frame(MSG_TRANSFER_START, payload)
}

pub fn read_transfer_start(payload: &[u8]) -> (r: Result<TransferStart, ProtocolError>)
    ensures
        match r {
            Ok(m) => parse_transfer_start(payload@) == Some(m@),
            Err(e) => e == ProtocolError::Malformed && parse_transfer_start(payload@) is None,
        },
{
    let (session_id, body) = match take_session(payload) {
        Some(x) => x,
        None => return Err(ProtocolError::Malformed),
    };
    if body.len() != 8 {
        return Err(ProtocolError::Malformed);
    }
    let file_size = get_be64(body.as_slice(), 0);
    assert(body@.subrange(0, 8) =~= body@);
    Ok(TransferStart { session_id, file_size })
}

// ---------------------------------------------------------------------------
// TransferResult
// ---------------------------------------------------------------------------

/// The receiver's verdict on one file.
#[derive(Debug)]
pub struct TransferResult {
    pub session_id: String,
    pub ok: bool,
    pub code: ErrorCode,
    /// Why the file failed; empty when it did not.
    pub reason: String,
    /// The digest the receiver computed; empty when none was.
    pub checksum: Vec<u8>,
    pub received_bytes: u64,
}

pub struct TransferResultView {
    pub session_id: Seq<char>,
    pub ok: bool,
    pub code: ErrorCode,
    pub reason: Seq<char>,
    pub checksum: Seq<u8>,
    pub received_bytes: u64,
}

impl View for TransferResult {
    type V = TransferResultView;

    open spec fn view(&self) -> TransferResultView {
        TransferResultView {
            session_id: self.session_id@,
            ok: self.ok,
            code: self.code,
            reason: self.reason@,
            checksum: self.checksum@,
            received_bytes: self.received_bytes,
        }
    }
}

impl TransferResult {
    /// A failed result carries `ChecksumMismatch`, a successful one `Unknown`;
    /// neither has a reason or a digest yet.
    pub fn new(session_id: String, ok: bool, received_bytes: u64) -> (r: Self)
        ensures
            r@ == (TransferResultView {
                session_id: session_id@,
                ok,
                code: if ok {
                    ErrorCode::Unknown
                } else {
                    ErrorCode::ChecksumMismatch
                },
                reason: Seq::empty(),
                checksum: Seq::empty(),
                received_bytes,
            }),
    {
        TransferResult {
            session_id,
            ok,
            code: if ok {
                ErrorCode::Unknown
            } else {
                ErrorCode::ChecksumMismatch
            },
            reason: String::new(),
            checksum: Vec::new(),
            received_bytes,
        }
    }
}

pub open spec fn transfer_result_payload(m: TransferResultView) -> Seq<u8> {
    in_session(
        m.session_id,
        seq![bool_byte(m.ok)] + be64(m.received_bytes) + seq![error_code_byte(m.code)] + str_bytes(
            m.reason,
        ) + blob_bytes(m.checksum),
    )
}

pub open spec fn parse_transfer_result(b: Seq<u8>) -> Option<TransferResultView> {
    match split_session(b) {
        Some((session_id, body)) => if body.len() < 10 {
            None
        } else {
            match (error_code_of_byte(body[9]), parse_str(body, 10)) {
                (Some(code), Some((reason, p))) => match parse_blob(body, p) {
                    Some((checksum, end)) => if end == body.len() {
                        Some(
                            TransferResultView {
                                session_id,
                                ok: body[0] != 0,
                                received_bytes: from_be64(body.subrange(1, 9)),
                                code,
                                reason,
                                checksum,
                            },
                        )
                    } else {
                        None
                    },
                    None => None,
                },
                _ => None,
            }
        },
        None => None,
    }
}

pub fn write_transfer_result(msg: &TransferResult) -> (r: Result<Vec<u8>, ProtocolError>)
    ensures
        bytes_of(r) == framed(MSG_TRANSFER_RESULT, transfer_result_payload(msg@)),
{
    let mut payload = start_payload(msg.session_id.as_str())?;
    let reason = msg.reason.as_str();
    if reason.as_bytes().len() > MAX_MESSAGE_SIZE as usize || msg.checksum.len()
        > MAX_MESSAGE_SIZE as usize {
        return Err(ProtocolError::OversizedMessage);
    }
    payload.push(if msg.ok { 1u8 } else { 0u8 });
    push_be64(&mut payload, msg.received_bytes);
    payload.push(code_to_byte(msg.code));
    put_str(&mut payload, reason);
    put_blob(&mut payload, msg.checksum.as_slice());
    assert(payload@ =~= transfer_result_payload(msg@));
    frame(MSG_TRANSFER_RESULT, payload)
}

pub fn read_transfer_result(payload: &[u8]) -> (r: Result<TransferResult, ProtocolError>)
    ensures
        match r {
            Ok(m) => parse_transfer_result(payload@) == Some(m@),
            Err(e) => e == ProtocolError::Malformed && parse_transfer_result(payload@) is None,
        },
{
    let (session_id, body) = match take_session(payload) {
        Some(x) => x,
        None => return Err(ProtocolError::Malformed),
    };
    if body.len() < 10 {
        return Err(ProtocolError::Malformed);
    }
    let code = match code_from_byte(body[9]) {
        Some(c) => c,
        None => return Err(ProtocolError::Malformed),
    };
    let (reason, p) = match take_str(body.as_slice(), 10) {
        Some(x) => x,
        None => return Err(ProtocolError::Malformed),
    };
    let (checksum, end) = match take_blob(body.as_slice(), p) {
        Some(x) => x,
        None => return Err(ProtocolError::Malformed),
    };
    if end != body.len() {
        return Err(ProtocolError::Malformed);
    }
    let received_bytes = get_be64(body.as_slice(), 1);
    Ok(TransferResult { session_id, ok: body[0] != 0, received_bytes, code, reason, checksum })
}

/// A TransferResult payload decodes to the message it was encoded from.
#[verifier::rlimit(40)]
pub proof fn lemma_transfer_result_round_trip(m: TransferResultView)
    requires
        encode_utf8(m.session_id).len() <= u32::MAX,
        encode_utf8(m.reason).len() <= u32::MAX,
        m.checksum.len() <= u32::MAX,
    ensures
        parse_transfer_result(transfer_result_payload(m)) == Some(m),
{
    let head = seq![bool_byte(m.ok)] + be64(m.received_bytes) + seq![error_code_byte(m.code)];
    let with_reason = head + str_bytes(m.reason);
    let body = with_reason + blob_bytes(m.checksum);
    let payload = transfer_result_payload(m);
    assert(payload == in_session(m.session_id, body));
    assert(split_session(payload) == Some((m.session_id, body))) by {
        lemma_split_session(m.session_id, body);
    }
    assert(head.len() == 10);
    assert(body.len() >= 10);
    assert(parse_str(body, 10) == Some((m.reason, with_reason.len() as int))) by {
        lemma_parse_str(head, m.reason, blob_bytes(m.checksum));
    }
    assert(parse_blob(body, with_reason.len() as int) == Some((m.checksum, body.len() as int))) by {
        assert(body =~= with_reason + blob_bytes(m.checksum) + Seq::empty());
        lemma_parse_blob(with_reason, m.checksum, Seq::empty());
    }
    assert(from_be64(body.subrange(1, 9)) == m.received_bytes) by {
        lemma_be64_round_trip(m.received_bytes);
        assert(body.subrange(1, 9) =~= be64(m.received_bytes));
    }
    assert(body[0] == bool_byte(m.ok));
    assert(body[9] == error_code_byte(m.code));
    assert(error_code_of_byte(error_code_byte(m.code)) == Some(m.code));
}

/// The fixed-layout messages decode to what they were encoded from.
pub proof fn lemma_fixed_messages_round_trip(ok: PreflightOkView, start: TransferStartView)
    requires
        encode_utf8(ok.session_id).len() <= u32::MAX,
        encode_utf8(start.session_id).len() <= u32::MAX,
    ensures
        parse_preflight_ok(preflight_ok_payload(ok)) == Some(ok),
        parse_transfer_start(transfer_start_payload(start)) == Some(start),
{
    let ok_body = be64(ok.available_space) + seq![bool_byte(ok.destination_exists)];
    lemma_split_session(ok.session_id, ok_body);
    lemma_be64_round_trip(ok.available_space);
    assert(ok_body.subrange(0, 8) =~= be64(ok.available_space));
    lemma_split_session(start.session_id, be64(start.file_size));
    lemma_be64_round_trip(start.file_size);
}

/// A PreflightFail payload decodes to the message it was encoded from.
pub proof fn lemma_preflight_fail_round_trip(m: PreflightFailView)
    requires
        encode_utf8(m.session_id).len() <= u32::MAX,
        encode_utf8(m.reason).len() <= u32::MAX,
    ensures
        parse_preflight_fail(preflight_fail_payload(m)) == Some(m),
{
    let body = seq![error_code_byte(m.code)] + str_bytes(m.reason);
    lemma_split_session(m.session_id, body);
    assert(body =~= seq![error_code_byte(m.code)] + str_bytes(m.reason) + Seq::empty());
    lemma_parse_str(seq![error_code_byte(m.code)], m.reason, Seq::empty());
    assert(error_code_of_byte(error_code_byte(m.code)) == Some(m.code));
}

// ---------------------------------------------------------------------------
// Handshake
// ---------------------------------------------------------------------------

/// Seconds between keepalives that a new probe asks for.
pub const DEFAULT_KEEPALIVE_SECONDS: u32 = 30;

/// Whether a list of texts can stand in a message at all; when it cannot,
/// its wire form alone is over the cap.
fn strs_fit(list: &Vec<String>) -> (r: bool)
    ensures
        r ==> list@.len() <= MAX_MESSAGE_SIZE && forall|i: int|
            0 <= i < list@.len() ==> encode_utf8((#[trigger] list@[i])@).len() <= MAX_MESSAGE_SIZE,
        !r ==> strs_bytes(texts(list@)).len() > MAX_MESSAGE_SIZE,
{
    proof {
        lemma_str_seq_len(texts(list@));
    }
    if list.len() > MAX_MESSAGE_SIZE as usize {
        return false;
    }
    let mut i: usize = 0;
    while i < list.len()
        invariant
            i <= list@.len(),
            list@.len() <= MAX_MESSAGE_SIZE,
            forall|k: int| 0 <= k < i ==> encode_utf8((#[trigger] list@[k])@).len() <= MAX_MESSAGE_SIZE,
        decreases list@.len() - i,
    {
        if list[i].as_str().as_bytes().len() > MAX_MESSAGE_SIZE as usize {
            proof {
                let t = texts(list@);
                lemma_str_seq_len(t);
                assert(t.len() == list@.len());
                assert(t[i as int] == list@[i as int]@);
                assert(str_seq_bytes(t).len() >= encode_utf8(t[i as int]).len());
                assert(strs_bytes(t).len() == 4 + str_seq_bytes(t).len());
            }
            return false;
        }
        i = i + 1;
    }
    true
}

/// The sender's opening message.
#[derive(Debug)]
pub struct Probe {
    pub session_id: String,
    pub version: String,
    pub client_name: String,
    /// Features the sender asks for.
    pub capabilities: Vec<String>,
    pub keepalive_seconds: u32,
}

pub struct ProbeView {
    pub session_id: Seq<char>,
    pub version: Seq<char>,
    pub client_name: Seq<char>,
    pub capabilities: Seq<Seq<char>>,
    pub keepalive_seconds: u32,
}

impl View for Probe {
    type V = ProbeView;

    open spec fn view(&self) -> ProbeView {
        ProbeView {
            session_id: self.session_id@,
            version: self.version@,
            client_name: self.client_name@,
            capabilities: texts(self.capabilities@),
            keepalive_seconds: self.keepalive_seconds,
        }
    }
}

impl Probe {
    /// A probe that asks for no capability and the default keepalive.
    pub fn new(session_id: String, version: String, client_name: String) -> (r: Self)
        ensures
            r@ == (ProbeView {
                session_id: session_id@,
                version: version@,
                client_name: client_name@,
                capabilities: Seq::empty(),
                keepalive_seconds: DEFAULT_KEEPALIVE_SECONDS,
            }),
    {
        let r = Probe {
            session_id,
            version,
            client_name,
            capabilities: Vec::new(),
            keepalive_seconds: DEFAULT_KEEPALIVE_SECONDS,
        };
        assert(texts(r.capabilities@) =~= Seq::<Seq<char>>::empty());
        r
    }
}

pub open spec fn probe_payload(m: ProbeView) -> Seq<u8> {
    str_bytes(m.session_id) + str_bytes(m.version) + str_bytes(m.client_name) + strs_bytes(
        m.capabilities,
    ) + be32(m.keepalive_seconds)
}

pub open spec fn parse_probe(b: Seq<u8>) -> Option<ProbeView> {
    match parse_str(b, 0) {
        Some((session_id, at_version)) => match parse_str(b, at_version) {
            Some((version, at_name)) => match parse_str(b, at_name) {
                Some((client_name, at_caps)) => match parse_strs(b, at_caps) {
                    Some((capabilities, at_keepalive)) => if at_keepalive + 4 == b.len() {
                        Some(
                            ProbeView {
                                session_id,
                                version,
                                client_name,
                                capabilities,
                                keepalive_seconds: from_be32(
                                    b.subrange(at_keepalive, at_keepalive + 4),
                                ),
                            },
                        )
                    } else {
                        None
                    },
                    None => None,
                },
                None => None,
            },
            None => None,
        },
        None => None,
    }
}

pub fn write_probe(msg: &Probe) -> (r: Result<Vec<u8>, ProtocolError>)
    ensures
        bytes_of(r) == framed(MSG_PROBE, probe_payload(msg@)),
{
    let a = msg.session_id.as_str();
    let b = msg.version.as_str();
    let c = msg.client_name.as_str();
    if a.as_bytes().len() > MAX_MESSAGE_SIZE as usize || b.as_bytes().len() > MAX_MESSAGE_SIZE as usize
        || c.as_bytes().len() > MAX_MESSAGE_SIZE as usize || !strs_fit(&msg.capabilities) {
        return Err(ProtocolError::OversizedMessage);
    }
    let mut payload: Vec<u8> = Vec::new();
    put_str(&mut payload, a);
    put_str(&mut payload, b);
    put_str(&mut payload, c);
    put_strs(&mut payload, &msg.capabilities);
    push_be32(&mut payload, msg.keepalive_seconds);
    assert(payload@ =~= probe_payload(msg@));
    frame(MSG_PROBE, payload)
}

pub fn read_probe(payload: &[u8]) -> (r: Result<Probe, ProtocolError>)
    ensures
        match r {
            Ok(m) => parse_probe(payload@) == Some(m@),
            Err(e) => e == ProtocolError::Malformed && parse_probe(payload@) is None,
        },
{
    let (session_id, at_version) = match take_str(payload, 0) {
        Some(x) => x,
        None => return Err(ProtocolError::Malformed),
    };
    let (version, at_name) = match take_str(payload, at_version) {
        Some(x) => x,
        None => return Err(ProtocolError::Malformed),
    };
    let (client_name, at_caps) = match take_str(payload, at_name) {
        Some(x) => x,
        None => return Err(ProtocolError::Malformed),
    };
    let (capabilities, at_keepalive) = match take_strs(payload, at_caps) {
        Some(x) => x,
        None => return Err(ProtocolError::Malformed),
    };
    if at_keepalive > payload.len() || payload.len() - at_keepalive != 4 {
        return Err(ProtocolError::Malformed);
    }
    let keepalive_seconds = get_be32(payload, at_keepalive);
    Ok(Probe { session_id, version, client_name, capabilities, keepalive_seconds })
}

/// The receiver's answer to a probe.
#[derive(Debug)]
pub struct Established {
    pub session_id: String,
    pub version: String,
    /// Features the receiver offers.
    pub capabilities: Vec<String>,
    /// Seconds since the Unix epoch on the receiver's clock.
    pub server_time: u64,
}

pub struct EstablishedView {
    pub session_id: Seq<char>,
    pub version: Seq<char>,
    pub capabilities: Seq<Seq<char>>,
    pub server_time: u64,
}

impl View for Established {
    type V = EstablishedView;

    open spec fn view(&self) -> EstablishedView {
        EstablishedView {
            session_id: self.session_id@,
            version: self.version@,
            capabilities: texts(self.capabilities@),
            server_time: self.server_time,
        }
    }
}

impl Established {
    /// An answer that offers no capability.
    pub fn new(session_id: String, version: String, server_time: u64) -> (r: Self)
        ensures
            r@ == (EstablishedView {
                session_id: session_id@,
                version: version@,
                capabilities: Seq::empty(),
                server_time,
            }),
    {
        let r = Established { session_id, version, capabilities: Vec::new(), server_time };
        assert(texts(r.capabilities@) =~= Seq::<Seq<char>>::empty());
        r
    }
}

pub open spec fn established_payload(m: EstablishedView) -> Seq<u8> {
    str_bytes(m.session_id) + str_bytes(m.version) + strs_bytes(m.capabilities) + be64(
        m.server_time,
    )
}

pub open spec fn parse_established(b: Seq<u8>) -> Option<EstablishedView> {
    match parse_str(b, 0) {
        Some((session_id, at_version)) => match parse_str(b, at_version) {
            Some((version, at_caps)) => match parse_strs(b, at_caps) {
                Some((capabilities, at_time)) => if at_time + 8 == b.len() {
                    Some(
                        EstablishedView {
                            session_id,
                            version,
                            capabilities,
                            server_time: from_be64(b.subrange(at_time, at_time + 8)),
                        },
                    )
                } else {
                    None
                },
                None => None,
            },
            None => None,
        },
        None => None,
    }
}

pub fn write_established(msg: &Established) -> (r: Result<Vec<u8>, ProtocolError>)
    ensures
        bytes_of(r) == framed(MSG_ESTABLISHED, established_payload(msg@)),
{
    let a = msg.session_id.as_str();
    let b = msg.version.as_str();
    if a.as_bytes().len() > MAX_MESSAGE_SIZE as usize || b.as_bytes().len() > MAX_MESSAGE_SIZE as usize
        || !strs_fit(&msg.capabilities) {
        return Err(ProtocolError::OversizedMessage);
    }
    let mut payload: Vec<u8> = Vec::new();
    put_str(&mut payload, a);
    put_str(&mut payload, b);
    put_strs(&mut payload, &msg.capabilities);
    push_be64(&mut payload, msg.server_time);
    assert(payload@ =~= established_payload(msg@));
    frame(MSG_ESTABLISHED, payload)
}

pub fn read_established(payload: &[u8]) -> (r: Result<Established, ProtocolError>)
    ensures
        match r {
            Ok(m) => parse_established(payload@) == Some(m@),
            Err(e) => e == ProtocolError::Malformed && parse_established(payload@) is None,
        },
{
    let (session_id, at_version) = match take_str(payload, 0) {
        Some(x) => x,
        None => return Err(ProtocolError::Malformed),
    };
    let (version, at_caps) = match take_str(payload, at_version) {
        Some(x) => x,
        None => return Err(ProtocolError::Malformed),
    };
    let (capabilities, at_time) = match take_strs(payload, at_caps) {
        Some(x) => x,
        None => return Err(ProtocolError::Malformed),
    };
    if at_time > payload.len() || payload.len() - at_time != 8 {
        return Err(ProtocolError::Malformed);
    }
    let server_time = get_be64(payload, at_time);
    Ok(Established { session_id, version, capabilities, server_time })
}

/// A probe decodes to what it was encoded from.
#[verifier::rlimit(40)]
pub proof fn lemma_probe_round_trip(p: ProbeView)
    requires
        encode_utf8(p.session_id).len() <= u32::MAX,
        encode_utf8(p.version).len() <= u32::MAX,
        encode_utf8(p.client_name).len() <= u32::MAX,
        p.capabilities.len() <= u32::MAX,
        forall|i: int|
            0 <= i < p.capabilities.len() ==> encode_utf8(#[trigger] p.capabilities[i]).len()
                <= u32::MAX,
    ensures
        parse_probe(probe_payload(p)) == Some(p),
{
    let b = probe_payload(p);
    let caps = strs_bytes(p.capabilities);
    let tail = be32(p.keepalive_seconds);
    let s1 = str_bytes(p.session_id);
    let s2 = s1 + str_bytes(p.version);
    let s3 = s2 + str_bytes(p.client_name);
    let s4 = s3 + caps;
    assert(b == s4 + tail);
    assert(parse_str(b, 0) == Some((p.session_id, s1.len() as int))) by {
        assert(b =~= Seq::empty() + s1 + (str_bytes(p.version) + str_bytes(p.client_name) + caps
            + tail));
        lemma_parse_str(Seq::empty(), p.session_id, str_bytes(p.version) + str_bytes(p.client_name)
            + caps + tail);
    }
    assert(parse_str(b, s1.len() as int) == Some((p.version, s2.len() as int))) by {
        assert(b =~= s1 + str_bytes(p.version) + (str_bytes(p.client_name) + caps + tail));
        lemma_parse_str(s1, p.version, str_bytes(p.client_name) + caps + tail);
    }
    assert(parse_str(b, s2.len() as int) == Some((p.client_name, s3.len() as int))) by {
        assert(b =~= s2 + str_bytes(p.client_name) + (caps + tail));
        lemma_parse_str(s2, p.client_name, caps + tail);
    }
    assert(parse_strs(b, s3.len() as int) == Some((p.capabilities, s4.len() as int))) by {
        lemma_parse_strs(s3, p.capabilities, tail);
    }
    assert(from_be32(b.subrange(s4.len() as int, s4.len() + 4int)) == p.keepalive_seconds) by {
        lemma_be32_round_trip(p.keepalive_seconds);
        assert(b.subrange(s4.len() as int, s4.len() + 4int) =~= tail);
    }
}

/// An Established decodes to what it was encoded from.
#[verifier::rlimit(40)]
pub proof fn lemma_established_round_trip(e: EstablishedView)
    requires
        encode_utf8(e.session_id).len() <= u32::MAX,
        encode_utf8(e.version).len() <= u32::MAX,
        e.capabilities.len() <= u32::MAX,
        forall|i: int|
            0 <= i < e.capabilities.len() ==> encode_utf8(#[trigger] e.capabilities[i]).len()
                <= u32::MAX,
    ensures
        parse_established(established_payload(e)) == Some(e),
{
    let c = established_payload(e);
    let caps = strs_bytes(e.capabilities);
    let time = be64(e.server_time);
    let t1 = str_bytes(e.session_id);
    let t2 = t1 + str_bytes(e.version);
    let t3 = t2 + caps;
    assert(c == t3 + time);
    assert(parse_str(c, 0) == Some((e.session_id, t1.len() as int))) by {
        assert(c =~= Seq::empty() + t1 + (str_bytes(e.version) + caps + time));
        lemma_parse_str(Seq::empty(), e.session_id, str_bytes(e.version) + caps + time);
    }
    assert(parse_str(c, t1.len() as int) == Some((e.version, t2.len() as int))) by {
        assert(c =~= t1 + str_bytes(e.version) + (caps + time));
        lemma_parse_str(t1, e.version, caps + time);
    }
    assert(parse_strs(c, t2.len() as int) == Some((e.capabilities, t3.len() as int))) by {
        lemma_parse_strs(t2, e.capabilities, time);
    }
    assert(from_be64(c.subrange(t3.len() as int, t3.len() + 8int)) == e.server_time) by {
        lemma_be64_round_trip(e.server_time);
        assert(c.subrange(t3.len() as int, t3.len() + 8int) =~= time);
    }
}

} // verus!
