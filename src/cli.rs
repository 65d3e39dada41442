use vstd::prelude::*;
use vstd::string::{StrSliceExecFns, StringExecFns};

use crate::admission::OverwriteMode;

verus! {

// ---------------------------------------------------------------------------
// Words and numbers
// ---------------------------------------------------------------------------

/// Whether two strings hold the same characters.
pub fn str_eq(a: &str, b: &str) -> (r: bool)
    ensures
        r == (a@ == b@),
{
    let n = a.unicode_len();
    if n != b.unicode_len() {
        return false;
    }
    let mut i: usize = 0;
    while i < n
        invariant
            n == a@.len(),
            n == b@.len(),
            i <= n,
            a@.subrange(0, i as int) == b@.subrange(0, i as int),
        decreases n - i,
    {
        if a.get_char(i) != b.get_char(i) {
            assert(a@.subrange(0, i + 1)[i as int] != b@.subrange(0, i + 1)[i as int]);
            return false;
        }
        assert(a@.subrange(0, i + 1) =~= a@.subrange(0, i as int).push(a@[i as int]));
        assert(b@.subrange(0, i + 1) =~= b@.subrange(0, i as int).push(b@[i as int]));
        i = i + 1;
    }
    assert(a@ =~= a@.subrange(0, n as int));
    assert(b@ =~= b@.subrange(0, n as int));
    true
}

pub open spec fn is_digit(c: char) -> bool {
    '0' <= c && c <= '9'
}

pub open spec fn all_digits(s: Seq<char>) -> bool {
    forall|i: int| 0 <= i < s.len() ==> is_digit(#[trigger] s[i])
}

/// The number that a string of decimal digits writes.
pub open spec fn digits_value(s: Seq<char>) -> nat
    decreases s.len(),
{
    if s.len() == 0 {
        0
    } else {
        10 * digits_value(s.drop_last()) + (s.last() as nat - '0' as nat) as nat
    }
}

/// The unsigned number that `s` writes, when it is at most `max`: decimal
/// digits, at least one, after an optional `+`.
pub open spec fn parse_unsigned(s: Seq<char>, max: nat) -> Option<nat> {
    let d = if s.len() > 0 && s[0] == '+' {
        s.drop_first()
    } else {
        s
    };
    if d.len() > 0 && all_digits(d) && digits_value(d) <= max {
        Some(digits_value(d))
    } else {
        None
    }
}

fn parse_number(s: &str, max: u64) -> (r: Option<u64>)
    requires
        max <= u32::MAX,
    ensures
        match parse_unsigned(s@, max as nat) {
            Some(v) => r == Some(v as u64),
            None => r is None,
        },
{
    let n = s.unicode_len();
    let mut start: usize = 0;
    if n > 0 && s.get_char(0) == '+' {
        start = 1;
    }
    let ghost d = s@.subrange(start as int, n as int);
    assert(d =~= if s@.len() > 0 && s@[0] == '+' { s@.drop_first() } else { s@ });
    if start == n {
        return None;
    }
    let mut val: u64 = 0;
    let mut i: usize = start;
    while i < n
        invariant
            start <= i <= n,
            n == s@.len(),
            max <= u32::MAX,
            d == s@.subrange(start as int, n as int),
            d == (if s@.len() > 0 && s@[0] == '+' {
                s@.drop_first()
            } else {
                s@
            }),
            all_digits(s@.subrange(start as int, i as int)),
            digits_value(s@.subrange(start as int, i as int)) > max ==> val == max + 1,
            digits_value(s@.subrange(start as int, i as int)) <= max ==> val == digits_value(
                s@.subrange(start as int, i as int),
            ),
        decreases n - i,
    {
        let c = s.get_char(i);
        let ghost prefix = s@.subrange(start as int, i as int);
        let ghost next = s@.subrange(start as int, i + 1);
        assert(next.drop_last() =~= prefix);
        if !('0' <= c && c <= '9') {
            assert(d[i - start] == c);
            assert(!is_digit(d[i - start]));
            assert(!all_digits(d));
            return None;
        }
        assert forall|k: int| 0 <= k < next.len() implies is_digit(#[trigger] next[k]) by {
            if k < prefix.len() {
                assert(next[k] == prefix[k]);
            }
        }
        let digit = (c as u32 - '0' as u32) as u64;
        if val > max {
            val = max + 1;
        } else {
            let v = val * 10 + digit;
            if v > max {
                val = max + 1;
            } else {
                val = v;
            }
        }
        i = i + 1;
    }
    if val > max {
        None
    } else {
        Some(val)
    }
}

pub open spec fn overwrite_of(s: Seq<char>) -> Option<OverwriteMode> {
    if s == "ask"@ {
        Some(OverwriteMode::Ask)
    } else if s == "yes"@ {
        Some(OverwriteMode::Yes)
    } else if s == "no"@ {
        Some(OverwriteMode::No)
    } else {
        None
    }
}

fn parse_overwrite(s: &str) -> (r: Option<OverwriteMode>)
    ensures
        r == overwrite_of(s@),
{
    if str_eq(s, "ask") {
        Some(OverwriteMode::Ask)
    } else if str_eq(s, "yes") {
        Some(OverwriteMode::Yes)
    } else if str_eq(s, "no") {
        Some(OverwriteMode::No)
    } else {
        None
    }
}

/// Whether `--checksum` takes the value `s`, and what it selects.
pub open spec fn checksum_of(s: Seq<char>) -> Option<bool> {
    if s == "hash"@ {
        Some(true)
    } else if s == "none"@ {
        Some(false)
    } else {
        None
    }
}

fn parse_checksum(s: &str) -> (r: Option<bool>)
    ensures
        r == checksum_of(s@),
{
    if str_eq(s, "hash") {
        Some(true)
    } else if str_eq(s, "none") {
        Some(false)
    } else {
        None
    }
}

pub open spec fn is_flag(s: Seq<char>) -> bool {
    s.len() > 0 && s[0] == '-'
}

fn starts_with_dash(s: &str) -> (r: bool)
    ensures
        r == is_flag(s@),
{
    s.unicode_len() > 0 && s.get_char(0) == '-'
}

// ---------------------------------------------------------------------------
// Commands
// ---------------------------------------------------------------------------

/// What the program was asked to do.
#[derive(Debug)]
pub enum Command {
    Send {
        host: String,
        port: u16,
        retries: u32,
        /// Whether entries carry a digest of their content.
        checksum: bool,
        overwrite: OverwriteMode,
        src: String,
    },
    Recv { host: String, port: u16, checksum: bool, overwrite: OverwriteMode, dst: String },
    Help,
}

#[derive(Debug)]
pub struct Args {
    pub verbose: u8,
    pub command: Command,
}

/// The text of each argument.
pub open spec fn words(args: Seq<String>) -> Seq<Seq<char>> {
    args.map_values(|s: String| s@)
}

/// Options gathered while reading arguments.
pub struct Options {
    pub host: Option<Seq<char>>,
    pub port: Option<u16>,
    pub retries: u32,
    pub checksum: bool,
    pub overwrite: OverwriteMode,
    pub path: Option<Seq<char>>,
}

pub open spec fn opt_text(o: Option<String>) -> Option<Seq<char>> {
    match o {
        Some(s) => Some(s@),
        None => None,
    }
}

/// Options before any argument is read: three attempts, with checksums,
/// asking before an overwrite; the receiver binds every address.
pub open spec fn default_options(recv: bool) -> Options {
    Options {
        host: if recv {
            Some("0.0.0.0"@)
        } else {
            None
        },
        port: None,
        retries: 3,
        checksum: true,
        overwrite: OverwriteMode::Ask,
        path: None,
    }
}

/// Reads the arguments of `send` (or of `recv`, which has no `--retries`)
/// from position `i`. A later option overrides an earlier one.
pub open spec fn scan_options(args: Seq<Seq<char>>, i: int, recv: bool, acc: Options) -> Result<
    Options,
    Seq<char>,
>
    decreases args.len() - i,
{
    if i < 0 || i >= args.len() {
        Ok(acc)
    } else {
        let a = args[i];
        let has_value = i + 1 < args.len();
        let v = args[i + 1];
        if a == "--host"@ {
            if !has_value {
                Err("--host requires value"@)
            } else {
                scan_options(args, i + 2, recv, Options { host: Some(v), ..acc })
            }
        } else if a == "--port"@ {
            if !has_value {
                Err("--port requires value"@)
            } else {
                match parse_unsigned(v, u16::MAX as nat) {
                    Some(n) => scan_options(args, i + 2, recv, Options { port: Some(n as u16), ..acc }),
                    None => Err("Invalid port"@),
                }
            }
        } else if a == "--retries"@ && !recv {
            if !has_value {
                Err("--retries requires value"@)
            } else {
                match parse_unsigned(v, u32::MAX as nat) {
                    Some(n) => scan_options(args, i + 2, recv, Options { retries: n as u32, ..acc }),
                    None => Err("Invalid retries"@),
                }
            }
        } else if a == "--checksum"@ {
            if !has_value {
                Err("--checksum requires value"@)
            } else {
                match checksum_of(v) {
                    Some(c) => scan_options(args, i + 2, recv, Options { checksum: c, ..acc }),
                    None => Err("Invalid checksum mode"@),
                }
            }
        } else if a == "--overwrite"@ {
            if !has_value {
                Err("--overwrite requires value"@)
            } else {
                match overwrite_of(v) {
                    Some(m) => scan_options(args, i + 2, recv, Options { overwrite: m, ..acc }),
                    None => Err("Invalid overwrite mode"@),
                }
            }
        } else if !is_flag(a) {
            scan_options(args, i + 1, recv, Options { path: Some(a), ..acc })
        } else {
            Err("Unknown option: "@ + a)
        }
    }
}

/// The options of `send` (or `recv`) read from position `start`, with the
/// required ones checked.
pub open spec fn command_options(args: Seq<Seq<char>>, start: int, recv: bool) -> Result<
    Options,
    Seq<char>,
> {
    match scan_options(args, start, recv, default_options(recv)) {
        Err(e) => Err(e),
        Ok(o) => if o.host is None {
            Err("--host required"@)
        } else if o.port is None {
            Err("--port required"@)
        } else if o.path is None {
            if recv {
                Err("destination path required"@)
            } else {
                Err("source path required"@)
            }
        } else {
            Ok(o)
        },
    }
}

/// Whether `c` is the command that `o` describes.
pub open spec fn command_matches(c: Command, o: Options, recv: bool) -> bool {
    if recv {
        c is Recv && Some(c->Recv_host@) == o.host && Some(c->Recv_port) == o.port
            && c->Recv_checksum == o.checksum && c->Recv_overwrite == o.overwrite && Some(
            c->Recv_dst@,
        ) == o.path
    } else {
        c is Send && Some(c->Send_host@) == o.host && Some(c->Send_port) == o.port
            && c->Send_retries == o.retries && c->Send_checksum == o.checksum && c->Send_overwrite
            == o.overwrite && Some(c->Send_src@) == o.path
    }
}

fn scan_command(args: &[String], start: usize, recv: bool) -> (r: Result<Command, String>)
    requires
        start <= args@.len(),
    ensures
        match command_options(words(args@), start as int, recv) {
            Ok(o) => r is Ok && command_matches(r->Ok_0, o, recv),
            Err(e) => r is Err && r->Err_0@ == e,
        },
{
    let ghost w = words(args@);
    let mut host: Option<String> = if recv {
        Some(String::from_str("0.0.0.0"))
    } else {
        None
    };
    let mut port: Option<u16> = None;
    let mut retries: u32 = 3;
    let mut checksum = true;
    let mut overwrite = OverwriteMode::Ask;
    let mut path: Option<String> = None;
    let mut i: usize = start;
    assert(w.len() == args@.len());
    while i < args.len()
        invariant
            start <= i <= args@.len(),
            w == words(args@),
            w.len() == args@.len(),
            scan_options(w, start as int, recv, default_options(recv)) == scan_options(
                w,
                i as int,
                recv,
                Options { host: opt_text(host), port, retries, checksum, overwrite, path: opt_text(path) },
            ),
        decreases args@.len() - i,
    {
        let a = args[i].as_str();
        assert(w[i as int] == a@);
        let has_value = i + 1 < args.len();
        if has_value {
            assert(w[i + 1] == args@[i + 1]@);
        }
        if str_eq(a, "--host") {
            if !has_value {
                return Err(String::from_str("--host requires value"));
            }
            host = Some(args[i + 1].clone());
            i = i + 2;
        } else if str_eq(a, "--port") {
            if !has_value {
                return Err(String::from_str("--port requires value"));
            }
            match parse_number(args[i + 1].as_str(), 65535) {
                Some(n) => port = Some(n as u16),
                None => return Err(String::from_str("Invalid port")),
            }
            i = i + 2;
        } else if str_eq(a, "--retries") && !recv {
            if !has_value {
                return Err(String::from_str("--retries requires value"));
            }
            match parse_number(args[i + 1].as_str(), 4294967295) {
                Some(n) => retries = n as u32,
                None => return Err(String::from_str("Invalid retries")),
            }
            i = i + 2;
        } else if str_eq(a, "--checksum") {
            if !has_value {
                return Err(String::from_str("--checksum requires value"));
            }
            match parse_checksum(args[i + 1].as_str()) {
                Some(c) => checksum = c,
                None => return Err(String::from_str("Invalid checksum mode")),
            }
            i = i + 2;
        } else if str_eq(a, "--overwrite") {
            if !has_value {
                return Err(String::from_str("--overwrite requires value"));
            }
            match parse_overwrite(args[i + 1].as_str()) {
                Some(m) => overwrite = m,
                None => return Err(String::from_str("Invalid overwrite mode")),
            }
            i = i + 2;
        } else if !starts_with_dash(a) {
            path = Some(args[i].clone());
            i = i + 1;
        } else {
            let mut msg = String::from_str("Unknown option: ");
            msg.append(a);
            return Err(msg);
        }
    }
    let host = match host {
        Some(h) => h,
        None => return Err(String::from_str("--host required")),
    };
    let port = match port {
        Some(p) => p,
        None => return Err(String::from_str("--port required")),
    };
    let path = match path {
        Some(p) => p,
        None => return Err(
            if recv {
                String::from_str("destination path required")
            } else {
                String::from_str("source path required")
            },
        ),
    };
    if recv {
        Ok(Command::Recv { host, port, checksum, overwrite, dst: path })
    } else {
        Ok(Command::Send { host, port, retries, checksum, overwrite, src: path })
    }
}

/// Reads the arguments that follow `send`.
pub fn parse_send_args(args: &[String]) -> (r: Result<Command, String>)
    ensures
        match command_options(words(args@), 0, false) {
            Ok(o) => r is Ok && command_matches(r->Ok_0, o, false),
            Err(e) => r is Err && r->Err_0@ == e,
        },
{
    scan_command(args, 0, false)
}

/// Reads the arguments that follow `recv`.
pub fn parse_recv_args(args: &[String]) -> (r: Result<Command, String>)
    ensures
        match command_options(words(args@), 0, true) {
            Ok(o) => r is Ok && command_matches(r->Ok_0, o, true),
            Err(e) => r is Err && r->Err_0@ == e,
        },
{
    scan_command(args, 0, true)
}

/// The leading flags from position `i`: where the command stands, the
/// verbosity, and whether help was asked for.
pub open spec fn scan_flags(args: Seq<Seq<char>>, i: int, verbose: u8) -> (int, u8, bool)
    decreases args.len() - i,
{
    if 0 <= i < args.len() && is_flag(args[i]) && args[i] != "--"@ {
        if args[i] == "-v"@ {
            scan_flags(args, i + 1, 1)
        } else if args[i] == "-vv"@ {
            scan_flags(args, i + 1, 2)
        } else if args[i] == "--help"@ || args[i] == "-h"@ {
            (i, verbose, true)
        } else {
            (i, verbose, false)
        }
    } else {
        (i, verbose, false)
    }
}

/// Reads the whole command line, the program's name first.
pub fn parse_args(args: &[String]) -> (r: Result<Args, String>)
    ensures
        ({
            let w = words(args@);
            let (i, verbose, help) = scan_flags(w, 1, 0);
            if w.len() < 2 {
                r is Err && r->Err_0@ == "Usage: ncp [send|recv] [options]"@
            } else if help {
                r is Ok && r->Ok_0.verbose == verbose && r->Ok_0.command is Help
            } else if i >= w.len() {
                r is Err && r->Err_0@ == "Missing command"@
            } else if w[i] == "send"@ || w[i] == "recv"@ {
                let recv = w[i] == "recv"@;
                match command_options(w, i + 1, recv) {
                    Ok(o) => r is Ok && r->Ok_0.verbose == verbose && command_matches(
                        r->Ok_0.command,
                        o,
                        recv,
                    ),
                    Err(e) => r is Err && r->Err_0@ == e,
                }
            } else {
                r is Err && r->Err_0@ == "Unknown command: "@ + w[i]
            }
        }),
{
    let ghost w = words(args@);
    assert(w.len() == args@.len());
    if args.len() < 2 {
        return Err(String::from_str("Usage: ncp [send|recv] [options]"));
    }
    let mut verbose: u8 = 0;
    let mut i: usize = 1;
    let mut at_command = false;
    while i < args.len() && !at_command
        invariant
            1 <= i <= args@.len(),
            w == words(args@),
            w.len() == args@.len(),
            at_command ==> scan_flags(w, 1, 0) == (i as int, verbose, false),
            !at_command ==> scan_flags(w, 1, 0) == scan_flags(w, i as int, verbose),
        decreases args@.len() - i, if at_command { 0int } else { 1int },
    {
        let a = args[i].as_str();
        assert(w[i as int] == a@);
        if !starts_with_dash(a) || str_eq(a, "--") {
            at_command = true;
        } else if str_eq(a, "-v") {
            verbose = 1;
            i = i + 1;
        } else if str_eq(a, "-vv") {
            verbose = 2;
            i = i + 1;
        } else if str_eq(a, "--help") || str_eq(a, "-h") {
            return Ok(Args { verbose, command: Command::Help });
        } else {
            at_command = true;
        }
    }
    if i >= args.len() {
        return Err(String::from_str("Missing command"));
    }
    let a = args[i].as_str();
    assert(w[i as int] == a@);
    proof {
        reveal_strlit("send");
        reveal_strlit("recv");
        assert("send"@ != "recv"@) by {
            assert("send"@[0] != "recv"@[0]);
        }
    }
    if str_eq(a, "send") {
        let command = scan_command(args, i + 1, false)?;
        Ok(Args { verbose, command })
    } else if str_eq(a, "recv") {
        let command = scan_command(args, i + 1, true)?;
        Ok(Args { verbose, command })
    } else {
        let mut msg = String::from_str("Unknown command: ");
        msg.append(a);
        Err(msg)
    }
}

} // verus!
