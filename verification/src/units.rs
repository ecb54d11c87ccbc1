//! Unit tags and the errors of the library: the four byte-based units, their
//! byte factors (1000 between adjacent units), and parsing of a unit tag
//! from its case-sensitive text form.

use vstd::prelude::*;
use vstd::string::StrSliceExecFns;

verus! {

/// One of the four recognized byte-based units.
#[derive(Clone, Copy, Debug, PartialEq, Eq, Structural)]
pub enum Unit {
    Bytes,
    Kilobytes,
    Megabytes,
    Gigabytes,
}

/// The errors the library reports.
#[derive(Clone, Copy, Debug, PartialEq, Eq, Structural)]
pub enum SizeError {
    /// The unit tag is none of `B`, `KB`, `MB`, `GB`.
    InvalidUnit,
    /// The size text is not a decimal number the library accepts, or it is
    /// too large to represent.
    InvalidSizeFormat,
}

impl Unit {
    /// How many bytes one whole unit is.
    pub open spec fn spec_factor(self) -> nat {
        match self {
            Unit::Bytes => 1,
            Unit::Kilobytes => 1000,
            Unit::Megabytes => 1000000,
            Unit::Gigabytes => 1000000000,
        }
    }

    /// How many bytes one whole unit is.
    pub fn factor(self) -> (r: u64)
        ensures
            r == self.spec_factor(),
    {
        match self {
            Unit::Bytes => 1,
            Unit::Kilobytes => 1000,
            Unit::Megabytes => 1_000_000,
            Unit::Gigabytes => 1_000_000_000,
        }
    }

    /// The unit a tag denotes, if it is one of the four recognized tags
    /// (case-sensitive exact match).
    pub open spec fn spec_of_tag(tag: Seq<char>) -> Option<Unit> {
        if tag == "B"@ {
            Some(Unit::Bytes)
        } else if tag == "KB"@ {
            Some(Unit::Kilobytes)
        } else if tag == "MB"@ {
            Some(Unit::Megabytes)
        } else if tag == "GB"@ {
            Some(Unit::Gigabytes)
        } else {
            None
        }
    }

    /// Parses a unit tag; any text other than the four recognized tags is
    /// an `InvalidUnit` error.
    pub fn parse(tag: &str) -> (r: Result<Unit, SizeError>)
        ensures
            r == match Unit::spec_of_tag(tag@) {
                Some(u) => Result::<Unit, SizeError>::Ok(u),
                None => Result::<Unit, SizeError>::Err(SizeError::InvalidUnit),
            },
    {
        if str_eq(tag, "B") {
            Ok(Unit::Bytes)
        } else if str_eq(tag, "KB") {
            Ok(Unit::Kilobytes)
        } else if str_eq(tag, "MB") {
            Ok(Unit::Megabytes)
        } else if str_eq(tag, "GB") {
            Ok(Unit::Gigabytes)
        } else {
            Err(SizeError::InvalidUnit)
        }
    }
}

/// The conversion factor between adjacent units is exactly 1000: a
/// kilobyte is 1000 bytes, a megabyte 1000 kilobytes, a gigabyte 1000
/// megabytes.
pub proof fn lemma_adjacent_unit_factor()
    ensures
        Unit::Kilobytes.spec_factor() == 1000 * Unit::Bytes.spec_factor(),
        Unit::Megabytes.spec_factor() == 1000 * Unit::Kilobytes.spec_factor(),
        Unit::Gigabytes.spec_factor() == 1000 * Unit::Megabytes.spec_factor(),
{
}

/// Character-for-character equality of two string slices.
fn str_eq(a: &str, b: &str) -> (r: bool)
    ensures
        r == (a@ == b@),
{
    let na = a.unicode_len();
    let nb = b.unicode_len();
    if na != nb {
        proof {
            assert(a@ != b@);
        }
        return false;
    }
    let mut i: usize = 0;
    while i < na
        invariant
            na == a@.len(),
            na == b@.len(),
            i <= na,
            forall|j: int| 0 <= j < i ==> a@[j] == b@[j],
        decreases na - i,
    {
        if a.get_char(i) != b.get_char(i) {
            proof {
                assert(a@[i as int] != b@[i as int]);
                assert(a@ != b@);
            }
            return false;
        }
        i += 1;
    }
    proof {
        assert(a@ =~= b@);
    }
    true
}

} // verus!
