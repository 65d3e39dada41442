//! Point-to-point file and directory transfer over a reliable byte stream.
//!
//! The protocol frames each message as a one-byte type tag, a 32-bit
//! big-endian length of at most 1 MiB, and the payload; a file's content
//! follows its `TransferStart` unframed. A sender opens with a probe, then
//! for each entry sends its metadata, waits for the receiver's admission
//! verdict, streams an admitted file's bytes and waits for the result. The
//! receiver admits an entry against the free space and its overwrite policy,
//! and verifies each file against the digest the sender declared before it
//! is committed.
//!
//! Every function here is verified against its contract; the I/O around it
//! (sockets, files, the prompt, the clock) is left to the caller.

pub mod admission;
pub mod checksum;
pub mod cli;
pub mod codec;
pub mod directory;
pub mod diskspace;
pub mod framing;
pub mod protocol;
pub mod receive;
pub mod receiver;
pub mod retry;
pub mod sender;
pub mod session;
pub mod text;
