//! Human-readable byte sizes.
//!
//! The shell prints sizes as `{:.N}` of `bytes / 1024^k`. Those quotients
//! are exact binary fractions, and fixed-precision float formatting rounds
//! their exact value to the nearest digit, ties to even; the functions here
//! compute the same digits with integers.

use vstd::prelude::*;
use crate::text::{decimal, push_str, push_zero_padded, u64_to_string, zero_pad};

verus! {

/// `n / d` rounded to the nearest integer, ties to the even one.
pub open spec fn round_half_even(n: nat, d: nat) -> nat
    recommends
        d > 0,
{
    let q = n / d;
    let r = n % d;
    if 2 * r > d {
        q + 1
    } else if 2 * r < d {
        q
    } else if q % 2 == 0 {
        q
    } else {
        q + 1
    }
}

fn round_half_even_exec(n: u128, d: u128) -> (r: u128)
    requires
        d > 0,
        n < 0x1_0000_0000_0000_0000_0000_0000,
        d < 0x1_0000_0000_0000_0000,
    ensures
        r as nat == round_half_even(n as nat, d as nat),
{
    let q = n / d;
    let rem = n % d;
    if 2 * rem > d {
        q + 1
    } else if 2 * rem < d {
        q
    } else if q % 2 == 0 {
        q
    } else {
        q + 1
    }
}

/// `v / 10^places` printed with `places` fraction digits.
pub open spec fn fixed_text(v: nat, places: nat) -> Seq<char> {
    if places == 0 {
        decimal(v)
    } else if places == 1 {
        decimal(v / 10) + seq!['.'] + decimal(v % 10)
    } else {
        decimal(v / 100) + seq!['.'] + zero_pad(decimal(v % 100), 2)
    }
}

/// Size of a share entry: `"{:.1} MB"` from 1 MiB, `"{:.1} KB"` from 1 KiB, else `"{n} B"`.
pub open spec fn size_text(bytes: nat) -> Seq<char> {
    if bytes >= 1_048_576 {
        fixed_text(round_half_even(bytes * 10, 1_048_576), 1) + " MB"@
    } else if bytes >= 1024 {
        fixed_text(round_half_even(bytes * 10, 1024), 1) + " KB"@
    } else {
        decimal(bytes) + " B"@
    }
}

/// Size of a download: `"{:.2} GB"` from 1 GiB, `"{:.1} MB"` from 1 MiB,
/// `"{:.0} KB"` from 1 KiB, else `"{n} B"`.
pub open spec fn update_bytes_text(bytes: nat) -> Seq<char> {
    if bytes >= 1_073_741_824 {
        fixed_text(round_half_even(bytes * 100, 1_073_741_824), 2) + " GB"@
    } else if bytes >= 1_048_576 {
        fixed_text(round_half_even(bytes * 10, 1_048_576), 1) + " MB"@
    } else if bytes >= 1024 {
        fixed_text(round_half_even(bytes, 1024), 0) + " KB"@
    } else {
        decimal(bytes) + " B"@
    }
}

fn push_fixed(out: &mut String, v: u128, places: u64)
    requires
        places <= 2,
        v < 0x1_0000_0000_0000_0000,
    ensures
        final(out)@ == old(out)@ + fixed_text(v as nat, places as nat),
{
    if places == 0 {
        let s = u64_to_string(v as u64);
        push_str(out, s.as_str());
    } else if places == 1 {
        let whole = u64_to_string((v / 10) as u64);
        push_str(out, whole.as_str());
        crate::text::push_char(out, '.');
        let frac = u64_to_string((v % 10) as u64);
        push_str(out, frac.as_str());
    } else {
        let whole = u64_to_string((v / 100) as u64);
        push_str(out, whole.as_str());
        crate::text::push_char(out, '.');
        push_zero_padded(out, (v % 100) as u64, 2);
    }
    assert(out@ =~= old(out)@ + fixed_text(v as nat, places as nat));
}

/// Size of a share entry (see [`size_text`]).
pub fn format_size(bytes: u64) -> (r: String)
    ensures
        r@ == size_text(bytes as nat),
{
    let b = bytes as u128;
    let mut r = String::new();
    if bytes >= 1_048_576 {
        let v = round_half_even_exec(b * 10, 1_048_576);
        push_fixed(&mut r, v, 1);
        push_str(&mut r, " MB");
    } else if bytes >= 1024 {
        let v = round_half_even_exec(b * 10, 1024);
        push_fixed(&mut r, v, 1);
        push_str(&mut r, " KB");
    } else {
        let s = u64_to_string(bytes);
        push_str(&mut r, s.as_str());
        push_str(&mut r, " B");
    }
    assert(r@ =~= size_text(bytes as nat));
    r
}

/// Size of a download for update progress labels (see [`update_bytes_text`]).
pub fn format_update_bytes(bytes: u64) -> (r: String)
    ensures
        r@ == update_bytes_text(bytes as nat),
{
    let b = bytes as u128;
    let mut r = String::new();
    if bytes >= 1_073_741_824 {
        let v = round_half_even_exec(b * 100, 1_073_741_824);
        push_fixed(&mut r, v, 2);
        push_str(&mut r, " GB");
    } else if bytes >= 1_048_576 {
        let v = round_half_even_exec(b * 10, 1_048_576);
        push_fixed(&mut r, v, 1);
        push_str(&mut r, " MB");
    } else if bytes >= 1024 {
        let v = round_half_even_exec(b, 1024);
        push_fixed(&mut r, v, 0);
        push_str(&mut r, " KB");
    } else {
        let s = u64_to_string(bytes);
        push_str(&mut r, s.as_str());
        push_str(&mut r, " B");
    }
    assert(r@ =~= update_bytes_text(bytes as nat));
    r
}

} // verus!
