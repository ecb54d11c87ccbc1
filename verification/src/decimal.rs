//! Exact decimal magnitudes. A magnitude is held in thousandths, so every
//! value with up to three decimal places is represented exactly, and a
//! magnitude of v thousandths in kilobytes is exactly v bytes. The parser
//! accepts a run of digits, optionally followed by a point and one to three
//! fraction digits, and reports anything else (or a value too large for the
//! representation) as `InvalidSizeFormat`.

use vstd::prelude::*;
use vstd::string::StrSliceExecFns;

use crate::units::SizeError;

verus! {

/// A non-negative magnitude held exactly in thousandths.
#[derive(Clone, Copy, Debug, PartialEq, Eq, Structural)]
pub struct Decimal {
    /// The magnitude times 1000.
    pub millis: u64,
}

impl Decimal {
    /// Builds the magnitude `m / 1000`.
    pub fn from_millis(m: u64) -> (d: Decimal)
        ensures
            d.millis == m,
    {
        Decimal { millis: m }
    }
}

/// Whether `c` is a decimal digit.
pub open spec fn is_digit_char(c: char) -> bool {
    48 <= c as int <= 57
}

/// The value of a single decimal digit character.
pub open spec fn digit_val(c: char) -> nat
    recommends
        is_digit_char(c),
{
    (c as int - 48) as nat
}

/// Whether every character of `s` is a decimal digit.
pub open spec fn all_digits(s: Seq<char>) -> bool {
    forall|i: int| 0 <= i < s.len() ==> is_digit_char(#[trigger] s[i])
}

/// The value of a digit string read in base ten.
pub open spec fn digits_val(s: Seq<char>) -> nat
    recommends
        all_digits(s),
    decreases s.len(),
{
    if s.len() == 0 {
        0
    } else {
        digits_val(s.drop_last()) * 10 + digit_val(s.last())
    }
}

/// Ten to the `n`.
pub open spec fn spec_pow10(n: nat) -> nat
    decreases n,
{
    if n == 0 {
        1
    } else {
        10 * spec_pow10((n - 1) as nat)
    }
}

/// What a fraction of `len` digits counts in thousandths per unit of its
/// value: the fraction digits fill the leading decimal places.
pub open spec fn frac_scale(len: nat) -> nat
    recommends
        1 <= len <= 3,
{
    if len == 1 {
        100
    } else if len == 2 {
        10
    } else {
        1
    }
}

/// Whether `s` splits at index `i` into a non-empty digit run, a point,
/// and one to three fraction digits.
pub open spec fn dot_split_at(s: Seq<char>, i: int) -> bool {
    &&& 0 < i < s.len() - 1
    &&& s[i] == '.'
    &&& s.len() - 1 - i <= 3
    &&& all_digits(s.take(i))
    &&& all_digits(s.skip(i + 1))
}

/// Whether `s` is a decimal number the library accepts: digits alone, or
/// digits, a point, and one to three fraction digits.
pub open spec fn is_valid_decimal(s: Seq<char>) -> bool {
    (s.len() > 0 && all_digits(s)) || (exists|i: int| dot_split_at(s, i))
}

/// The value of a valid decimal string, in thousandths.
pub open spec fn spec_decimal_millis(s: Seq<char>) -> nat
    recommends
        is_valid_decimal(s),
{
    if s.len() > 0 && all_digits(s) {
        digits_val(s) * 1000
    } else {
        let i = choose|i: int| dot_split_at(s, i);
        digits_val(s.take(i)) * 1000 + digits_val(s.skip(i + 1)) * frac_scale(
            (s.len() - 1 - i) as nat,
        )
    }
}

/// The first few powers of ten, spelled out.
proof fn lemma_pow10_small()
    ensures
        spec_pow10(0) == 1,
        spec_pow10(1) == 10,
        spec_pow10(2) == 100,
        spec_pow10(3) == 1000,
{
    assert(spec_pow10(0) == 1);
    assert(spec_pow10(1) == 10);
    assert(spec_pow10(2) == 100);
    assert(spec_pow10(3) == 1000);
}

/// A split can only stand at a point character when every other character
/// is a digit.
proof fn lemma_split_is_dot(s: Seq<char>, dotpos: int, k: int)
    requires
        0 <= dotpos < s.len(),
        s[dotpos] == '.',
        forall|j: int| 0 <= j < s.len() && j != dotpos ==> is_digit_char(#[trigger] s[j]),
        dot_split_at(s, k),
    ensures
        k == dotpos,
{
    if k != dotpos {
        if dotpos < k {
            assert(s.take(k)[dotpos] == s[dotpos]);
        } else {
            assert(s.skip(k + 1)[dotpos - k - 1] == s[dotpos]);
        }
        assert(is_digit_char('.'));
        assert(false);
    }
}

/// No split exists when some character is neither a digit nor a point.
proof fn lemma_no_split_at_bad_char(s: Seq<char>, bad: int, k: int)
    requires
        0 <= bad < s.len(),
        s[bad] != '.',
        !is_digit_char(s[bad]),
    ensures
        !dot_split_at(s, k),
{
    if dot_split_at(s, k) {
        if bad < k {
            assert(s.take(k)[bad] == s[bad]);
        } else if bad > k {
            assert(s.skip(k + 1)[bad - k - 1] == s[bad]);
        }
        assert(false);
    }
}

/// No split exists when the string holds two point characters.
proof fn lemma_no_split_two_dots(s: Seq<char>, d1: int, d2: int, k: int)
    requires
        0 <= d1 < d2 < s.len(),
        s[d1] == '.',
        s[d2] == '.',
    ensures
        !dot_split_at(s, k),
{
    if dot_split_at(s, k) {
        if k != d1 {
            if d1 < k {
                assert(s.take(k)[d1] == s[d1]);
            } else {
                assert(s.skip(k + 1)[d1 - k - 1] == s[d1]);
            }
            assert(is_digit_char('.'));
        } else {
            assert(s.skip(k + 1)[d2 - k - 1] == s[d2]);
            assert(is_digit_char('.'));
        }
        assert(false);
    }
}

/// Reading one more digit multiplies the prefix value by ten and adds it.
proof fn lemma_digits_val_step(s: Seq<char>, i: int)
    requires
        0 <= i < s.len(),
    ensures
        digits_val(s.take(i + 1)) == digits_val(s.take(i)) * 10 + digit_val(s[i]),
{
    assert(s.take(i + 1).drop_last() =~= s.take(i));
    assert(s.take(i + 1).last() == s[i]);
}

/// A digit string is worth at least any of its prefixes.
proof fn lemma_digits_val_take(s: Seq<char>, k: int)
    requires
        0 <= k <= s.len(),
    ensures
        digits_val(s.take(k)) <= digits_val(s),
    decreases s.len() - k,
{
    if k == s.len() {
        assert(s.take(k) =~= s);
    } else {
        lemma_digits_val_take(s.drop_last(), k);
        assert(s.drop_last().take(k) =~= s.take(k));
    }
}

/// A digit string of length n is worth less than ten to the n.
proof fn lemma_digits_val_bound(s: Seq<char>)
    requires
        all_digits(s),
    ensures
        digits_val(s) < spec_pow10(s.len()),
    decreases s.len(),
{
    if s.len() > 0 {
        assert(all_digits(s.drop_last()));
        lemma_digits_val_bound(s.drop_last());
        assert(digit_val(s.last()) <= 9);
    }
}

/// Reads the digit run `s[from..to]` in base ten; `None` when its value
/// does not fit in a `u64`.
fn parse_digits_run(s: &str, from: usize, to: usize) -> (r: Option<u64>)
    requires
        from <= to <= s@.len(),
        all_digits(s@.subrange(from as int, to as int)),
    ensures
        match r {
            Some(v) => v as nat == digits_val(s@.subrange(from as int, to as int)),
            None => digits_val(s@.subrange(from as int, to as int)) > u64::MAX,
        },
{
    let ghost d = s@.subrange(from as int, to as int);
    let mut acc: u64 = 0;
    let mut i: usize = from;
    while i < to
        invariant
            from <= i <= to <= s@.len(),
            d == s@.subrange(from as int, to as int),
            all_digits(d),
            acc as nat == digits_val(d.take(i - from)),
        decreases to - i,
    {
        let c = s.get_char(i);
        proof {
            assert(d[i - from] == s@[i as int]);
            assert(is_digit_char(c));
            lemma_digits_val_step(d, i - from);
        }
        let dv: u64 = (c as u32 - 48) as u64;
        let next = match acc.checked_mul(10) {
            Some(t) => t.checked_add(dv),
            None => None,
        };
        match next {
            Some(v) => {
                acc = v;
            },
            None => {
                proof {
                    assert(digits_val(d.take(i - from + 1)) > u64::MAX);
                    lemma_digits_val_take(d, i - from + 1);
                }
                return None;
            },
        }
        i += 1;
    }
    proof {
        assert(d.take(to - from) =~= d);
    }
    Some(acc)
}

/// Parses a decimal magnitude: a run of digits, optionally followed by a
/// point and one to three fraction digits. Any other text, and any value
/// over `u64::MAX` thousandths, is an `InvalidSizeFormat` error.
pub fn parse_decimal(s: &str) -> (r: Result<Decimal, SizeError>)
    ensures
        (is_valid_decimal(s@) && spec_decimal_millis(s@) <= u64::MAX) ==> (r matches Ok(d)
            && d.millis as nat == spec_decimal_millis(s@)),
        !(is_valid_decimal(s@) && spec_decimal_millis(s@) <= u64::MAX) ==> r
            == Result::<Decimal, SizeError>::Err(SizeError::InvalidSizeFormat),
{
    let n = s.unicode_len();
    if n == 0 {
        return Err(SizeError::InvalidSizeFormat);
    }
    let mut i: usize = 0;
    let mut dot: usize = n;
    while i < n
        invariant
            i <= n,
            n == s@.len(),
            dot == n || (dot < i && s@[dot as int] == '.'),
            forall|j: int| 0 <= j < i && j != dot ==> is_digit_char(#[trigger] s@[j]),
        decreases n - i,
    {
        let c = s.get_char(i);
        if c == '.' {
            if dot < n {
                proof {
                    assert forall|k: int| !dot_split_at(s@, k) by {
                        lemma_no_split_two_dots(s@, dot as int, i as int, k);
                    }
                    assert(!is_digit_char(s@[dot as int]));
                    assert(!is_valid_decimal(s@));
                }
                return Err(SizeError::InvalidSizeFormat);
            }
            dot = i;
        } else {
            let v = c as u32;
            if v < 48 || v > 57 {
                proof {
                    assert(!is_digit_char(s@[i as int]));
                    assert forall|k: int| !dot_split_at(s@, k) by {
                        lemma_no_split_at_bad_char(s@, i as int, k);
                    }
                    assert(!is_valid_decimal(s@));
                }
                return Err(SizeError::InvalidSizeFormat);
            }
        }
        i += 1;
    }
    if dot == n {
        proof {
            assert(all_digits(s@));
            assert(s@.subrange(0, n as int) =~= s@);
        }
        match parse_digits_run(s, 0, n) {
            Some(w) => {
                match w.checked_mul(1000) {
                    Some(m) => Ok(Decimal { millis: m }),
                    None => {
                        proof {
                            assert(spec_decimal_millis(s@) > u64::MAX);
                        }
                        Err(SizeError::InvalidSizeFormat)
                    },
                }
            },
            None => {
                proof {
                    assert(digits_val(s@) * 1000 >= digits_val(s@));
                }
                Err(SizeError::InvalidSizeFormat)
            },
        }
    } else {
        let fraclen = n - 1 - dot;
        if dot == 0 || fraclen < 1 || fraclen > 3 {
            proof {
                assert forall|k: int| !dot_split_at(s@, k) by {
                    if dot_split_at(s@, k) {
                        lemma_split_is_dot(s@, dot as int, k);
                    }
                }
                assert(!is_digit_char(s@[dot as int]));
                assert(!is_valid_decimal(s@));
            }
            return Err(SizeError::InvalidSizeFormat);
        }
        let ghost whole = s@.take(dot as int);
        let ghost frac = s@.skip(dot as int + 1);
        proof {
            assert(whole =~= s@.subrange(0, dot as int));
            assert(frac =~= s@.subrange(dot as int + 1, n as int));
            assert(dot_split_at(s@, dot as int));
            let k = choose|k: int| dot_split_at(s@, k);
            lemma_split_is_dot(s@, dot as int, k);
            assert(!is_digit_char(s@[dot as int]));
            assert(spec_decimal_millis(s@) == digits_val(whole) * 1000 + digits_val(frac)
                * frac_scale(fraclen as nat));
        }
        match parse_digits_run(s, 0, dot) {
            None => {
                proof {
                    assert(digits_val(whole) * 1000 >= digits_val(whole));
                }
                Err(SizeError::InvalidSizeFormat)
            },
            Some(w) => {
                let fv = match parse_digits_run(s, dot + 1, n) {
                    Some(fv) => fv,
                    None => {
                        proof {
                            lemma_digits_val_bound(frac);
                            lemma_pow10_small();
                            assert(spec_pow10(frac.len()) <= 1000);
                        }
                        return Err(SizeError::InvalidSizeFormat);
                    },
                };
                proof {
                    lemma_digits_val_bound(frac);
                    lemma_pow10_small();
                    assert(spec_pow10(frac.len()) <= 1000);
                }
                let scale: u64 = if fraclen == 1 {
                    100
                } else if fraclen == 2 {
                    10
                } else {
                    1
                };
                proof {
                    assert(scale == frac_scale(fraclen as nat));
                    assert(fv * scale <= 999) by (nonlinear_arith)
                        requires
                            fv < spec_pow10(frac.len()),
                            frac.len() == fraclen,
                            1 <= fraclen <= 3,
                            scale == frac_scale(fraclen as nat),
                            spec_pow10(1) == 10,
                            spec_pow10(2) == 100,
                            spec_pow10(3) == 1000,
                    ;
                }
                let scaled: u64 = fv * scale;
                match w.checked_mul(1000) {
                    None => Err(SizeError::InvalidSizeFormat),
                    Some(p) => {
                        match p.checked_add(scaled) {
                            None => Err(SizeError::InvalidSizeFormat),
                            Some(m) => Ok(Decimal { millis: m }),
                        }
                    },
                }
            },
        }
    }
}

} // verus!
