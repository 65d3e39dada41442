use vstd::prelude::*;
use vstd::string::StringExecFns;

use crate::text::{decimal, decimal_string};

verus! {

/// Bytes that must be free to take a file of `size` bytes: the size plus a
/// tenth of it (rounded down), saturating at the largest `u64`.
pub open spec fn required_space(size: u64) -> u64 {
    if size + size / 10 > u64::MAX {
        u64::MAX
    } else {
        (size + size / 10) as u64
    }
}

/// The space a file of `size` bytes asks for, margin included.
pub fn required_with_margin(size: u64) -> (r: u64)
    ensures
        r == required_space(size),
{
    let margin = size / 10;
    match size.checked_add(margin) {
        Some(v) => v,
        None => u64::MAX,
    }
}

/// Whether `available` bytes are enough for a file of `required_bytes`.
pub fn check_disk_space(available: u64, required_bytes: u64) -> (r: bool)
    ensures
        r == (available >= required_space(required_bytes)),
{
    available >= required_with_margin(required_bytes)
}

pub open spec fn unit_index(bytes: int) -> int {
    if bytes >= 1099511627776 {
        4
    } else if bytes >= 1073741824 {
        3
    } else if bytes >= 1048576 {
        2
    } else {
        1
    }
}

pub open spec fn unit_divisor(k: int) -> int {
    if k == 4 {
        1099511627776
    } else if k == 3 {
        1073741824
    } else if k == 2 {
        1048576
    } else {
        1024
    }
}

pub open spec fn unit_name(k: int) -> Seq<char> {
    if k == 4 {
        "TB"@
    } else if k == 3 {
        "GB"@
    } else if k == 2 {
        "MB"@
    } else {
        "KB"@
    }
}

/// Tenths of a unit in `bytes`, rounded to nearest, ties to even.
pub open spec fn tenths(bytes: int, d: int) -> int {
    let q = (bytes * 10) / d;
    let r = (bytes * 10) % d;
    if 2 * r > d || (2 * r == d && q % 2 == 1) {
        q + 1
    } else {
        q
    }
}

/// `bytes` in human-readable form: below 1024 as a count of bytes, else in
/// the largest unit up to TB that it reaches, with one decimal.
pub open spec fn human_bytes(bytes: nat) -> Seq<char> {
    if bytes < 1024 {
        decimal(bytes) + " B"@
    } else {
        let k = unit_index(bytes as int);
        let t = tenths(bytes as int, unit_divisor(k));
        decimal((t / 10) as nat) + "."@ + decimal((t % 10) as nat) + " "@ + unit_name(k)
    }
}

fn unit_str(k: u64) -> (r: &'static str)
    ensures
        r@ == unit_name(k as int),
{
    if k == 4 {
        "TB"
    } else if k == 3 {
        "GB"
    } else if k == 2 {
        "MB"
    } else {
        "KB"
    }
}

/// Formats a byte count for people to read.
pub fn format_bytes(bytes: u64) -> (r: String)
    ensures
        r@ == human_bytes(bytes as nat),
{
    if bytes < 1024 {
        let mut s = decimal_string(bytes);
        s.append(" B");
        return s;
    }
    let k: u64 = if bytes >= 1099511627776 {
        4
    } else if bytes >= 1073741824 {
        3
    } else if bytes >= 1048576 {
        2
    } else {
        1
    };
    let d: u64 = if k == 4 {
        1099511627776
    } else if k == 3 {
        1073741824
    } else if k == 2 {
        1048576
    } else {
        1024
    };
    assert(k as int == unit_index(bytes as int));
    assert(d as int == unit_divisor(k as int));
    let x: u128 = bytes as u128 * 10;
    let q: u128 = x / (d as u128);
    let rem: u128 = x % (d as u128);
    assert(q <= x / 1024) by (nonlinear_arith)
        requires
            q == x / (d as u128),
            d >= 1024,
    {
        vstd::arithmetic::div_mod::lemma_div_is_ordered_by_denominator(x as int, 1024, d as int);
    }
    let t: u128 = if 2 * rem > d as u128 || (2 * rem == d as u128 && q % 2 == 1) {
        q + 1
    } else {
        q
    };
    assert(t as int == tenths(bytes as int, d as int));
    let mut s = decimal_string((t / 10) as u64);
    s.append(".");
    let frac = decimal_string((t % 10) as u64);
    s.append(frac.as_str());
    s.append(" ");
    s.append(unit_str(k));
    s
}

} // verus!
