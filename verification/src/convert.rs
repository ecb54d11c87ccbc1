//! Conversion of a magnitude in an explicit unit into an exact quantity of
//! bytes, and the breakdown of that quantity over all four units. The
//! quantity is held canonically in thousandths of a byte, which every
//! magnitude of up to three decimal places in any unit reaches exactly.

use vstd::prelude::*;

use crate::classify::{spec_class_of, SizeClass};
use crate::decimal::Decimal;
use crate::render::round_div;
use crate::units::{SizeError, Unit};

verus! {

/// A magnitude expressed in an explicit unit.
#[derive(Clone, Copy, Debug, PartialEq, Eq, Structural)]
pub struct UnitValue {
    pub magnitude: Decimal,
    pub unit: Unit,
}

/// One quantity of bytes, viewed in all four units. Held canonically in
/// thousandths of a byte; each view is derived from that one field, so the
/// four views agree by construction.
#[derive(Clone, Copy, Debug, PartialEq, Eq, Structural)]
pub struct SizeBreakdown {
    milli_bytes: u128,
}

impl SizeBreakdown {
    /// The quantity in thousandths of a byte.
    pub closed spec fn spec_milli_bytes(self) -> nat {
        self.milli_bytes as nat
    }

    /// Every breakdown comes from at most `u64::MAX` thousandths of a unit
    /// of at most a billion bytes.
    #[verifier::type_invariant]
    spec fn wf(self) -> bool {
        self.milli_bytes <= u64::MAX * 1000000000
    }

    /// The quantity in thousandths of a byte: the exact canonical view.
    pub fn bytes_milli(&self) -> (r: u128)
        ensures
            r as nat == self.spec_milli_bytes(),
    {
        self.milli_bytes
    }

    /// The quantity in bytes, in hundredths, halves rounded up.
    pub fn bytes_hundredths(&self) -> (r: u128)
        ensures
            r as nat == round_div(self.spec_milli_bytes(), 10),
    {
        proof {
            use_type_invariant(self);
        }
        (self.milli_bytes + 5) / 10
    }

    /// The quantity in kilobytes, in hundredths, halves rounded up.
    pub fn kilobytes_hundredths(&self) -> (r: u128)
        ensures
            r as nat == round_div(self.spec_milli_bytes(), 10000),
    {
        proof {
            use_type_invariant(self);
        }
        (self.milli_bytes + 5000) / 10000
    }

    /// The quantity in megabytes, in hundredths, halves rounded up.
    pub fn megabytes_hundredths(&self) -> (r: u128)
        ensures
            r as nat == round_div(self.spec_milli_bytes(), 10000000),
    {
        proof {
            use_type_invariant(self);
        }
        (self.milli_bytes + 5_000_000) / 10_000_000
    }

    /// The quantity in gigabytes, in hundredths, halves rounded up.
    pub fn gigabytes_hundredths(&self) -> (r: u128)
        ensures
            r as nat == round_div(self.spec_milli_bytes(), 10000000000),
    {
        proof {
            use_type_invariant(self);
        }
        (self.milli_bytes + 5_000_000_000) / 10_000_000_000
    }
}

impl UnitValue {
    /// The quantity this magnitude names, in thousandths of a byte:
    /// thousandths of a unit times bytes per unit.
    pub open spec fn spec_milli_bytes(self) -> nat {
        (self.magnitude.millis * self.unit.spec_factor()) as nat
    }

    /// Derives the exact breakdown of this magnitude.
    pub fn breakdown(&self) -> (b: SizeBreakdown)
        ensures
            b.spec_milli_bytes() == self.spec_milli_bytes(),
    {
        proof {
            assert(self.magnitude.millis * self.unit.spec_factor() <= u64::MAX * 1000000000)
                by (nonlinear_arith)
                requires
                    self.magnitude.millis <= u64::MAX,
                    self.unit.spec_factor() <= 1000000000,
            ;
        }
        let q = (self.magnitude.millis as u128) * (self.unit.factor() as u128);
        SizeBreakdown { milli_bytes: q }
    }
}

/// Converts a magnitude and a unit tag into the exact breakdown of the
/// quantity they name. A tag other than `B`, `KB`, `MB`, `GB` is an
/// `InvalidUnit` error, and no breakdown is produced.
pub fn convert(magnitude: Decimal, unit_tag: &str) -> (r: Result<SizeBreakdown, SizeError>)
    ensures
        match Unit::spec_of_tag(unit_tag@) {
            Some(u) => r matches Ok(b) && b.spec_milli_bytes() == magnitude.millis
                * u.spec_factor(),
            None => r == Result::<SizeBreakdown, SizeError>::Err(SizeError::InvalidUnit),
        },
{
    let unit = match Unit::parse(unit_tag) {
        Ok(u) => u,
        Err(e) => {
            return Err(e);
        },
    };
    let value = UnitValue { magnitude, unit };
    Ok(value.breakdown())
}

/// Round trip for kilobytes: a magnitude of m thousandths in kilobytes
/// names exactly m bytes (magnitude × 1000), and classifying that byte
/// count selects the band its size falls in — bytes below 1,000 bytes,
/// kilobytes up to 999,999 bytes, megabytes up to 999,999,999 bytes, and
/// gigabytes above.
pub proof fn lemma_kilobytes_round_trip(v: UnitValue)
    requires
        v.unit == Unit::Kilobytes,
    ensures
        v.spec_milli_bytes() == v.magnitude.millis * 1000,
        v.spec_milli_bytes() / 1000 == v.magnitude.millis,
        v.magnitude.millis <= 999 ==> spec_class_of(v.magnitude.millis as nat) is Bytes,
        1000 <= v.magnitude.millis <= 999999 ==> spec_class_of(v.magnitude.millis as nat)
            is Kilobytes,
        1000000 <= v.magnitude.millis <= 999999999 ==> spec_class_of(v.magnitude.millis as nat)
            is Megabytes,
        1000000000 <= v.magnitude.millis ==> spec_class_of(v.magnitude.millis as nat)
            is Gigabytes,
{
    assert(v.magnitude.millis * 1000 / 1000 == v.magnitude.millis) by (nonlinear_arith);
}

} // verus!
