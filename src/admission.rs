use vstd::prelude::*;
use vstd::string::StringExecFns;

use crate::diskspace::{check_disk_space, format_bytes, human_bytes, required_space};
use crate::framing::{bytes_of, framed, ProtocolError};
use crate::protocol::{
    preflight_fail_payload, preflight_ok_payload, write_preflight_fail, write_preflight_ok,
    ErrorCode, PreflightFail, PreflightFailView, PreflightOk, PreflightOkView, MSG_PREFLIGHT_FAIL,
    MSG_PREFLIGHT_OK,
};

verus! {

/// What the receiver does when an entry's destination already exists.
#[derive(Debug, Clone, Copy, PartialEq, Eq, Structural)]
pub enum OverwriteMode {
    /// Ask the user each time.
    Ask,
    /// Always replace.
    Yes,
    /// Never replace; skip the entry.
    No,
}

/// What the filesystem holds at a path.
#[derive(Debug, Clone, Copy, PartialEq, Eq, Structural)]
pub struct PathState {
    pub exists: bool,
    pub is_dir: bool,
}

/// The receiver's verdict on one entry.
#[derive(Debug)]
pub enum AdmissionDecision {
    Accepted { available_space: u64, destination_exists: bool },
    Rejected { reason: String, code: ErrorCode },
}

pub uninterp spec fn joined_path(base: Seq<char>, name: Seq<char>) -> Seq<char>;

/// Relies on std::path::Path::join, whose result depends on the two paths
/// alone.
#[verifier::external_body]
fn join_path(base: &str, name: &str) -> (r: String)
    ensures
        r@ == joined_path(base@, name@),
{
    std::path::Path::new(base).join(name).to_string_lossy().into_owned()
}

/// Where an entry named `file_name` lands under the target `dst`: inside it
/// when it is a directory, else `dst` itself. A directory entry cannot land
/// on an existing non-directory.
pub fn determine_final_path(
    dst: &str,
    dst_state: PathState,
    file_name: &str,
    is_dir: bool,
) -> (r: Result<String, ErrorCode>)
    ensures
        dst_state.is_dir ==> r is Ok && r->Ok_0@ == joined_path(dst@, file_name@),
        !dst_state.is_dir && dst_state.exists && is_dir ==> r == Err::<String, ErrorCode>(
            ErrorCode::Conflict,
        ),
        !dst_state.is_dir && !(dst_state.exists && is_dir) ==> r is Ok && r->Ok_0@ == dst@,
{
    if dst_state.is_dir {
        Ok(join_path(dst, file_name))
    } else if dst_state.exists && is_dir {
        Err(ErrorCode::Conflict)
    } else {
        Ok(String::from_str(dst))
    }
}

/// Whether the user must be asked before the entry can be admitted.
pub fn needs_prompt(mode: OverwriteMode, dest: PathState) -> (r: bool)
    ensures
        r == (mode == OverwriteMode::Ask && dest.exists),
{
    mode == OverwriteMode::Ask && dest.exists
}

/// Why an entry is refused, if it is: `None` admits it.
pub open spec fn refusal(
    is_dir: bool,
    size: u64,
    dest: PathState,
    mode: OverwriteMode,
    confirmed: bool,
    available: u64,
) -> Option<ErrorCode> {
    if is_dir && dest.exists && !dest.is_dir {
        Some(ErrorCode::Conflict)
    } else if dest.exists && mode == OverwriteMode::No {
        Some(ErrorCode::Exists)
    } else if dest.exists && mode == OverwriteMode::Ask && !confirmed {
        Some(ErrorCode::Declined)
    } else if !is_dir && available < required_space(size) {
        Some(ErrorCode::NoSpace)
    } else {
        None
    }
}

/// The text that goes with a refusal.
pub open spec fn refusal_reason(code: ErrorCode, size: u64, available: u64) -> Seq<char> {
    match code {
        ErrorCode::Conflict => "destination exists and is not a directory"@,
        ErrorCode::Exists => "exists, skipping"@,
        ErrorCode::Declined => "declined"@,
        _ => "Insufficient disk space. Need: "@ + human_bytes(size as nat) + ", Available: "@
            + human_bytes(available as nat),
    }
}

/// A refusal with the text that goes with `code`.
pub fn refuse(code: ErrorCode, size: u64, available: u64) -> (r: AdmissionDecision)
    ensures
        r is Rejected,
        r->code == code,
        r->reason@ == refusal_reason(code, size, available),
{
    let reason = match code {
        ErrorCode::Conflict => String::from_str("destination exists and is not a directory"),
        ErrorCode::Exists => String::from_str("exists, skipping"),
        ErrorCode::Declined => String::from_str("declined"),
        _ => {
            let mut reason = String::from_str("Insufficient disk space. Need: ");
            let need = format_bytes(size);
            reason.append(need.as_str());
            reason.append(", Available: ");
            let have = format_bytes(available);
            reason.append(have.as_str());
            reason
        },
    };
    AdmissionDecision::Rejected { reason, code }
}

/// Decides whether an entry of `size` bytes is admitted to a destination in
/// state `dest`. `confirmed` is the user's answer, heeded only where
/// `needs_prompt` holds; `available` is the free space there, heeded only for
/// files.
pub fn decide_admission(
    is_dir: bool,
    size: u64,
    dest: PathState,
    mode: OverwriteMode,
    confirmed: bool,
    available: u64,
) -> (r: AdmissionDecision)
    ensures
        match r {
            AdmissionDecision::Accepted { available_space, destination_exists } => refusal(
                is_dir,
                size,
                dest,
                mode,
                confirmed,
                available,
            ) is None && destination_exists == dest.exists && available_space == (if is_dir {
                0
            } else {
                available
            }),
            AdmissionDecision::Rejected { reason, code } => refusal(
                is_dir,
                size,
                dest,
                mode,
                confirmed,
                available,
            ) == Some(code) && reason@ == refusal_reason(code, size, available),
        },
{
    if is_dir && dest.exists && !dest.is_dir {
        refuse(ErrorCode::Conflict, size, available)
    } else if dest.exists && mode == OverwriteMode::No {
        refuse(ErrorCode::Exists, size, available)
    } else if dest.exists && mode == OverwriteMode::Ask && !confirmed {
        refuse(ErrorCode::Declined, size, available)
    } else if !is_dir && !check_disk_space(available, size) {
        refuse(ErrorCode::NoSpace, size, available)
    } else {
        AdmissionDecision::Accepted {
            available_space: if is_dir {
                0
            } else {
                available
            },
            destination_exists: dest.exists,
        }
    }
}

/// What the receiver does on disk once an entry has been decided.
#[derive(Debug, Clone, Copy, PartialEq, Eq, Structural)]
pub enum AdmissionEffect {
    /// Create the directory at the final path.
    MakeDirectory,
    /// Create the final path's parent directories, then take the file's bytes.
    MakeParentAndReceive,
    /// Nothing: the entry was refused.
    Skip,
}

/// The work an admission decision calls for. A refused entry touches
/// nothing on disk, so it never leaves a pending write behind.
pub fn admission_effect(is_dir: bool, decision: &AdmissionDecision) -> (r: AdmissionEffect)
    ensures
        decision is Rejected ==> r == AdmissionEffect::Skip,
        decision is Accepted && is_dir ==> r == AdmissionEffect::MakeDirectory,
        decision is Accepted && !is_dir ==> r == AdmissionEffect::MakeParentAndReceive,
{
    match decision {
        AdmissionDecision::Rejected { .. } => AdmissionEffect::Skip,
        AdmissionDecision::Accepted { .. } => if is_dir {
            AdmissionEffect::MakeDirectory
        } else {
            AdmissionEffect::MakeParentAndReceive
        },
    }
}

/// The view of a decision that reaches the wire, within a session.
pub open spec fn decision_reply(d: AdmissionDecision, session_id: Seq<char>) -> Result<
    Seq<u8>,
    ProtocolError,
> {
    match d {
        AdmissionDecision::Accepted { available_space, destination_exists } => framed(
            MSG_PREFLIGHT_OK,
            preflight_ok_payload(
                PreflightOkView { session_id, destination_exists, available_space },
            ),
        ),
        AdmissionDecision::Rejected { reason, code } => framed(
            MSG_PREFLIGHT_FAIL,
            preflight_fail_payload(PreflightFailView { session_id, code, reason: reason@ }),
        ),
    }
}

/// The framed reply that tells the sender of a decision.
pub fn admission_reply(decision: AdmissionDecision, session_id: &str) -> (r: Result<
    Vec<u8>,
    ProtocolError,
>)
    ensures
        bytes_of(r) == decision_reply(decision, session_id@),
{
    match decision {
        AdmissionDecision::Accepted { available_space, destination_exists } => {
            write_preflight_ok(
                &PreflightOk {
                    session_id: String::from_str(session_id),
                    destination_exists,
                    available_space,
                },
            )
        },
        AdmissionDecision::Rejected { reason, code } => {
            write_preflight_fail(
                &PreflightFail { session_id: String::from_str(session_id), code, reason },
            )
        },
    }
}

} // verus!
