//! Classification of a byte count: pick the largest sensible unit by range
//! and render the count in that unit, whole bytes as an integer and the
//! larger units with two decimal places (exact division, then rounding to
//! the nearest hundredth with halves up).

use vstd::prelude::*;
use vstd::string::StringExecFns;

use crate::render::{dec_digits, dec_string, fixed2_chars, fixed2_string, round_div};

verus! {

/// The display unit chosen for a byte count. `Bytes` carries the count
/// itself; the other variants carry the value in hundredths of the unit
/// (the two-decimal fixed-point magnitude).
#[derive(Clone, Copy, Debug, PartialEq, Eq, Structural)]
pub enum SizeClass {
    Bytes(u64),
    Kilobytes(u64),
    Megabytes(u64),
    Gigabytes(u64),
}

/// The class of a byte count: bytes up to 999, kilobytes up to 999,999,
/// megabytes up to 999,999,999, gigabytes above. The scaled variants hold
/// the count over the unit's byte factor, in hundredths, halves rounded up.
pub open spec fn spec_class_of(n: nat) -> SizeClass
    recommends
        n <= u64::MAX,
{
    if n <= 999 {
        SizeClass::Bytes(n as u64)
    } else if n <= 999999 {
        SizeClass::Kilobytes(round_div(n * 100, 1000) as u64)
    } else if n <= 999999999 {
        SizeClass::Megabytes(round_div(n * 100, 1000000) as u64)
    } else {
        SizeClass::Gigabytes(round_div(n * 100, 1000000000) as u64)
    }
}

/// The display string of a class: the magnitude, a space, and the unit's
/// name (`bytes`, `KB`, `MB`, `GB`).
pub open spec fn spec_render_class(c: SizeClass) -> Seq<char> {
    match c {
        SizeClass::Bytes(b) => dec_digits(b as nat) + " bytes"@,
        SizeClass::Kilobytes(h) => fixed2_chars(h as nat) + " KB"@,
        SizeClass::Megabytes(h) => fixed2_chars(h as nat) + " MB"@,
        SizeClass::Gigabytes(h) => fixed2_chars(h as nat) + " GB"@,
    }
}

/// The human-readable form of a byte count: its class, rendered.
pub open spec fn spec_format_size(n: nat) -> Seq<char>
    recommends
        n <= u64::MAX,
{
    spec_render_class(spec_class_of(n))
}

/// Chooses the display unit for a byte count.
pub fn classify_class(n: u64) -> (c: SizeClass)
    ensures
        c == spec_class_of(n as nat),
{
    if n <= 999 {
        SizeClass::Bytes(n)
    } else if n <= 999_999 {
        let h = ((n as u128) * 100 + 500) / 1000;
        SizeClass::Kilobytes(h as u64)
    } else if n <= 999_999_999 {
        let h = ((n as u128) * 100 + 500_000) / 1_000_000;
        SizeClass::Megabytes(h as u64)
    } else {
        let h = ((n as u128) * 100 + 500_000_000) / 1_000_000_000;
        proof {
            assert(h <= u64::MAX);
        }
        SizeClass::Gigabytes(h as u64)
    }
}

/// Renders a chosen class as its display string.
pub fn render_size_class(c: SizeClass) -> (r: String)
    ensures
        r@ == spec_render_class(c),
{
    match c {
        SizeClass::Bytes(b) => {
            let mut s = dec_string(b as u128);
            s.append(" bytes");
            s
        },
        SizeClass::Kilobytes(h) => {
            let mut s = fixed2_string(h as u128);
            s.append(" KB");
            s
        },
        SizeClass::Megabytes(h) => {
            let mut s = fixed2_string(h as u128);
            s.append(" MB");
            s
        },
        SizeClass::Gigabytes(h) => {
            let mut s = fixed2_string(h as u128);
            s.append(" GB");
            s
        },
    }
}

/// Converts a byte count into its human-readable string: the count itself
/// for sizes under 1000 bytes, otherwise the count over the chosen unit's
/// byte factor with two decimal places.
pub fn format_size(size: u64) -> (r: String)
    ensures
        r@ == spec_format_size(size as nat),
{
    render_size_class(classify_class(size))
}

/// Every byte count up to 999 is displayed as its digit string followed
/// by " bytes".
pub proof fn lemma_bytes_band(n: nat)
    requires
        n <= 999,
    ensures
        spec_format_size(n) == dec_digits(n) + " bytes"@,
{
}

/// Every byte count from 1,000 to 999,999 is displayed as the count over
/// 1000, rounded to hundredths with halves up, followed by " KB".
pub proof fn lemma_kilobytes_band(n: nat)
    requires
        1000 <= n <= 999999,
    ensures
        spec_format_size(n) == fixed2_chars(round_div(n * 100, 1000)) + " KB"@,
{
    assert(round_div(n * 100, 1000) <= u64::MAX);
}

/// Classification is a pure function of the byte count: any two results
/// for the same count are identical.
pub proof fn lemma_classify_deterministic(n: nat, r1: Seq<char>, r2: Seq<char>)
    requires
        r1 == spec_format_size(n),
        r2 == spec_format_size(n),
    ensures
        r1 == r2,
{
}

} // verus!
