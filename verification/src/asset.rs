//! Fixed-precision token amounts.
//!
//! An [`Asset`] is a signed 64-bit integer count of the smallest unit; five
//! decimal digits sit after the point, so a raw amount of `100_000` reads as
//! `1.00000 GRAEL`. All arithmetic is checked: overflow yields `None`, never a
//! wrapped value.

use vstd::prelude::*;
use vstd::string::StringExecFns;

verus! {

/// Raw units per whole token: five digits after the decimal point.
pub const ASSET_PRECISION_FACTOR: i64 = 100_000;

/// Failure kinds raised while parsing an asset from text.
#[derive(Clone, Copy, Debug, PartialEq, Eq, Structural)]
pub enum AssetErrorKind {
    InvalidFormat,
    InvalidAssetType,
    InvalidAmount,
    StrTooLarge,
}

/// A parsing failure, carrying its kind.
#[derive(Clone, Copy, Debug, PartialEq, Eq, Structural)]
pub struct AssetError {
    pub kind: AssetErrorKind,
}

/// A fixed-precision signed amount of the chain's single token symbol.
#[derive(Clone, Copy, Debug, PartialEq, Eq, Structural)]
pub struct Asset {
    pub amount: i64,
}

/// Truncating division of `x` by a positive divisor `d`: rounds toward zero,
/// as the machine division below does.
pub open spec fn trunc_div(x: int, d: int) -> int {
    if x >= 0 {
        x / d
    } else {
        ((x * -1) / d) * -1
    }
}

/// The product of two amounts, rescaled back into fixed precision.
pub open spec fn mul_value(a: int, b: int) -> int {
    trunc_div(a * b, ASSET_PRECISION_FACTOR as int)
}

pub open spec fn fits_i64(x: int) -> bool {
    i64::MIN <= x <= i64::MAX
}

/// The value of `base` raised to `n` in fixed precision, `None` as soon as an
/// intermediate product leaves the 64-bit range.
pub open spec fn pow_value(base: int, n: nat) -> Option<int>
    decreases n,
{
    if n == 0 {
        Some(ASSET_PRECISION_FACTOR as int)
    } else {
        match pow_value(base, (n - 1) as nat) {
            Option::None => Option::None,
            Option::Some(p) => {
                if fits_i64(mul_value(p, base)) {
                    Option::Some(mul_value(p, base))
                } else {
                    Option::None
                }
            },
        }
    }
}

impl Asset {
    /// Wraps a raw amount of smallest units.
    pub fn new(amount: i64) -> (r: Asset)
        ensures
            r.amount == amount,
    {
        Asset { amount }
    }

    /// Checked addition: the exact sum, or `None` outside the 64-bit range.
    pub fn checked_add(self, other: Asset) -> (r: Option<Asset>)
        ensures
            fits_i64(self.amount + other.amount) ==> r == Some(
                Asset { amount: (self.amount + other.amount) as i64 },
            ),
            !fits_i64(self.amount + other.amount) ==> r is None,
    {
        match self.amount.checked_add(other.amount) {
            Option::Some(sum) => Some(Asset { amount: sum }),
            Option::None => None,
        }
    }

    /// Checked subtraction: the exact difference, or `None` outside the
    /// 64-bit range.
    pub fn checked_sub(self, other: Asset) -> (r: Option<Asset>)
        ensures
            fits_i64(self.amount - other.amount) ==> r == Some(
                Asset { amount: (self.amount - other.amount) as i64 },
            ),
            !fits_i64(self.amount - other.amount) ==> r is None,
    {
        match self.amount.checked_sub(other.amount) {
            Option::Some(diff) => Some(Asset { amount: diff }),
            Option::None => None,
        }
    }

    /// Checked fixed-precision multiplication: `(a * b) / 10^5` rounded
    /// toward zero, or `None` outside the 64-bit range.
    pub fn checked_mul(self, other: Asset) -> (r: Option<Asset>)
        ensures
            fits_i64(mul_value(self.amount as int, other.amount as int)) ==> r == Some(
                Asset { amount: mul_value(self.amount as int, other.amount as int) as i64 },
            ),
            !fits_i64(mul_value(self.amount as int, other.amount as int)) ==> r is None,
    {
        let a: i128 = self.amount as i128;
        let b: i128 = other.amount as i128;
        assert(a as int * (b as int) <= i128::MAX as int && a as int * (b as int)
            >= i128::MIN as int) by (nonlinear_arith)
            requires
                i64::MIN as int <= a as int <= i64::MAX as int,
                i64::MIN as int <= b as int <= i64::MAX as int,
        {}
        let p: i128 = a * b;
        let q: Option<i128> = i128::checked_div(p, ASSET_PRECISION_FACTOR as i128);
        match q {
            Option::Some(v) => {
                if v < i64::MIN as i128 || v > i64::MAX as i128 {
                    None
                } else {
                    Some(Asset { amount: v as i64 })
                }
            },
            Option::None => None,
        }
    }

    /// Checked fixed-precision exponentiation by repeated multiplication;
    /// the zeroth power is one whole token.
    pub fn pow(self, n: u16) -> (r: Option<Asset>)
        ensures
            match pow_value(self.amount as int, n as nat) {
                Option::Some(v) => r == Some(Asset { amount: v as i64 }),
                Option::None => r is None,
            },
    {
        let mut acc = Asset { amount: ASSET_PRECISION_FACTOR };
        let mut i: u16 = 0;
        while i < n
            invariant
                i <= n,
                pow_value(self.amount as int, i as nat) == Some(acc.amount as int),
            decreases n - i,
        {
            match acc.checked_mul(self) {
                Option::Some(next) => {
                    acc = next;
                },
                Option::None => {
                    proof {
                        lemma_pow_value_none(self.amount as int, i as nat, n as nat);
                    }
                    return None;
                },
            }
            i = i + 1;
        }
        Some(acc)
    }
}

/// Once an intermediate power leaves the 64-bit range, every later power is
/// absent as well.
proof fn lemma_pow_value_none(base: int, i: nat, n: nat)
    requires
        i < n,
        pow_value(base, (i + 1) as nat) is None,
    ensures
        pow_value(base, n) is None,
    decreases n - i,
{
    if i + 1 < n {
        lemma_pow_value_none(base, i + 1, n);
    }
}



/// Ten raised to `n`.
pub open spec fn pow10(n: nat) -> nat
    decreases n,
{
    if n == 0 {
        1
    } else {
        10 * pow10((n - 1) as nat)
    }
}

proof fn lemma_pow10_values()
    ensures
        pow10(0) == 1,
        pow10(1) == 10,
        pow10(2) == 100,
        pow10(3) == 1000,
        pow10(4) == 10_000,
        pow10(5) == 100_000,
{
    assert(pow10(0) == 1);
    assert(pow10(1) == 10);
    assert(pow10(2) == 100);
    assert(pow10(3) == 1000);
    assert(pow10(4) == 10_000);
    assert(pow10(5) == 100_000);
}

proof fn lemma_pow10_mono(a: nat, b: nat)
    requires
        a <= b,
    ensures
        pow10(a) <= pow10(b),
    decreases b,
{
    if a < b {
        lemma_pow10_mono(a, (b - 1) as nat);
        assert(pow10((b - 1) as nat) <= 10 * pow10((b - 1) as nat)) by (nonlinear_arith)
            requires
                pow10((b - 1) as nat) >= 0,
        {}
    }
}

/// The character of one decimal digit.
pub open spec fn digit_char(d: int) -> char {
    if d == 0 {
        '0'
    } else if d == 1 {
        '1'
    } else if d == 2 {
        '2'
    } else if d == 3 {
        '3'
    } else if d == 4 {
        '4'
    } else if d == 5 {
        '5'
    } else if d == 6 {
        '6'
    } else if d == 7 {
        '7'
    } else if d == 8 {
        '8'
    } else {
        '9'
    }
}

/// The decimal digits of `n`, most significant first.
pub open spec fn dec_chars(n: nat) -> Seq<char>
    decreases n,
{
    if n < 10 {
        seq![digit_char(n as int)]
    } else {
        dec_chars(n / 10).push(digit_char((n % 10) as int))
    }
}

/// Exactly five fractional digits, zero-padded.
pub open spec fn frac_chars(f: nat) -> Seq<char> {
    seq![
        digit_char((f / 10000) as int % 10),
        digit_char((f / 1000) as int % 10),
        digit_char((f / 100) as int % 10),
        digit_char((f / 10) as int % 10),
        digit_char(f as int % 10),
    ]
}

/// The canonical text of an amount: sign, whole part, point, five
/// fractional digits, and the symbol.
pub open spec fn asset_chars(amount: int) -> Seq<char> {
    let mag = if amount >= 0 {
        amount
    } else {
        -amount
    };
    let sign: Seq<char> = if amount < 0 {
        seq!['-']
    } else {
        Seq::empty()
    };
    sign + dec_chars((mag / (ASSET_PRECISION_FACTOR as int)) as nat) + seq!['.'] + frac_chars(
        (mag % (ASSET_PRECISION_FACTOR as int)) as nat,
    ) + seq![' ', 'G', 'R', 'A', 'E', 'L']
}

/// Appends one decimal digit.
fn append_digit(s: &mut String, d: u64)
    requires
        d < 10,
    ensures
        final(s)@ == old(s)@ + seq![digit_char(d as int)],
{
    if d == 0 {
        s.append("0");
        proof {
            reveal_strlit("0");
            assert("0"@ =~= seq![digit_char(0)]);
        }
    } else if d == 1 {
        s.append("1");
        proof {
            reveal_strlit("1");
            assert("1"@ =~= seq![digit_char(1)]);
        }
    } else if d == 2 {
        s.append("2");
        proof {
            reveal_strlit("2");
            assert("2"@ =~= seq![digit_char(2)]);
        }
    } else if d == 3 {
        s.append("3");
        proof {
            reveal_strlit("3");
            assert("3"@ =~= seq![digit_char(3)]);
        }
    } else if d == 4 {
        s.append("4");
        proof {
            reveal_strlit("4");
            assert("4"@ =~= seq![digit_char(4)]);
        }
    } else if d == 5 {
        s.append("5");
        proof {
            reveal_strlit("5");
            assert("5"@ =~= seq![digit_char(5)]);
        }
    } else if d == 6 {
        s.append("6");
        proof {
            reveal_strlit("6");
            assert("6"@ =~= seq![digit_char(6)]);
        }
    } else if d == 7 {
        s.append("7");
        proof {
            reveal_strlit("7");
            assert("7"@ =~= seq![digit_char(7)]);
        }
    } else if d == 8 {
        s.append("8");
        proof {
            reveal_strlit("8");
            assert("8"@ =~= seq![digit_char(8)]);
        }
    } else {
        s.append("9");
        proof {
            reveal_strlit("9");
            assert("9"@ =~= seq![digit_char(9)]);
        }
    }
}

/// Appends the decimal digits of `n`, most significant first.
fn append_dec(s: &mut String, n: u64)
    ensures
        final(s)@ == old(s)@ + dec_chars(n as nat),
    decreases n,
{
    if n >= 10 {
        append_dec(s, n / 10);
        append_digit(s, n % 10);
        proof {
            assert(old(s)@ + dec_chars(n as nat / 10) + seq![digit_char((n % 10) as int)] =~= old(
                s,
            )@ + dec_chars(n as nat));
        }
    } else {
        append_digit(s, n);
    }
}

impl Asset {
    /// The canonical text of the amount, such as `1.00000 GRAEL`.
    pub fn to_string(&self) -> (r: String)
        ensures
            r@ == asset_chars(self.amount as int),
    {
        let mut s = String::from_str("");
        proof {
            reveal_strlit("");
            assert(""@ =~= Seq::<char>::empty());
        }
        let mag: u64 = if self.amount >= 0 {
            self.amount as u64
        } else {
            (-(self.amount as i128)) as u64
        };
        if self.amount < 0 {
            s.append("-");
            proof {
                reveal_strlit("-");
                assert("-"@ =~= seq!['-']);
            }
        }
        append_dec(&mut s, mag / (ASSET_PRECISION_FACTOR as u64));
        s.append(".");
        proof {
            reveal_strlit(".");
            assert("."@ =~= seq!['.']);
        }
        let f = mag % (ASSET_PRECISION_FACTOR as u64);
        append_digit(&mut s, f / 10000);
        append_digit(&mut s, f / 1000 % 10);
        append_digit(&mut s, f / 100 % 10);
        append_digit(&mut s, f / 10 % 10);
        append_digit(&mut s, f % 10);
        s.append(" GRAEL");
        proof {
            reveal_strlit(" GRAEL");
            assert(" GRAEL"@ =~= seq![' ', 'G', 'R', 'A', 'E', 'L']);
            assert(s@ =~= asset_chars(self.amount as int));
        }
        s
    }
}

impl core::str::FromStr for Asset {
    type Err = AssetError;

    /// Parses the canonical text form: an optional sign, the whole part,
    /// a point, exactly five fractional digits, then ` GRAEL`.
    fn from_str(s: &str) -> Result<Asset, AssetError> {
        let bytes = s.as_bytes();
        if bytes.len() > 32 {
            return Err(AssetError { kind: AssetErrorKind::StrTooLarge });
        }
        let mut i: usize = 0;
        let neg = bytes.len() > 0 && bytes[0] == 45u8;
        if neg {
            i = 1;
        }
        let mut whole: u64 = 0;
        let mut whole_digits: usize = 0;
        while i < bytes.len() && bytes[i] >= 48u8 && bytes[i] <= 57u8
            invariant
                i <= bytes@.len(),
                whole_digits <= i,
                bytes@.len() <= 32,
            decreases bytes@.len() - i,
        {
            let scaled = match whole.checked_mul(10) {
                Option::Some(v) => v,
                Option::None => {
                    return Err(AssetError { kind: AssetErrorKind::InvalidAmount });
                },
            };
            whole = match scaled.checked_add((bytes[i] - 48u8) as u64) {
                Option::Some(v) => v,
                Option::None => {
                    return Err(AssetError { kind: AssetErrorKind::InvalidAmount });
                },
            };
            whole_digits = whole_digits + 1;
            i = i + 1;
        }
        if whole_digits == 0 {
            return Err(AssetError { kind: AssetErrorKind::InvalidFormat });
        }
        if i >= bytes.len() || bytes[i] != 46u8 {
            return Err(AssetError { kind: AssetErrorKind::InvalidFormat });
        }
        i = i + 1;
        let mut frac: u64 = 0;
        let mut frac_digits: usize = 0;
        while i < bytes.len() && bytes[i] >= 48u8 && bytes[i] <= 57u8 && frac_digits < 5
            invariant
                i <= bytes@.len(),
                frac_digits <= 5,
                frac < pow10(frac_digits as nat),
            decreases bytes@.len() - i,
        {
            proof {
                lemma_pow10_values();
                lemma_pow10_mono(frac_digits as nat, 4);
            }
            frac = frac * 10 + ((bytes[i] - 48u8) as u64);
            frac_digits = frac_digits + 1;
            i = i + 1;
        }
        proof {
            lemma_pow10_values();
            lemma_pow10_mono(frac_digits as nat, 5);
        }
        if frac_digits != 5 {
            return Err(AssetError { kind: AssetErrorKind::InvalidAmount });
        }
        // The symbol, byte for byte: space, G, R, A, E, L.
        if bytes.len() - i != 6 {
            return Err(AssetError { kind: AssetErrorKind::InvalidAssetType });
        }
        if bytes[i] != 32u8 || bytes[i + 1] != 71u8 || bytes[i + 2] != 82u8 || bytes[i + 3]
            != 65u8 || bytes[i + 4] != 69u8 || bytes[i + 5] != 76u8 {
            return Err(AssetError { kind: AssetErrorKind::InvalidAssetType });
        }
        let scaled = match whole.checked_mul(ASSET_PRECISION_FACTOR as u64) {
            Option::Some(v) => v,
            Option::None => {
                return Err(AssetError { kind: AssetErrorKind::InvalidAmount });
            },
        };
        let raw_u: u64 = match scaled.checked_add(frac) {
            Option::Some(v) => v,
            Option::None => {
                return Err(AssetError { kind: AssetErrorKind::InvalidAmount });
            },
        };
        if raw_u > 0x7FFF_FFFF_FFFF_FFFFu64 {
            return Err(AssetError { kind: AssetErrorKind::InvalidAmount });
        }
        let raw: i64 = if neg {
            -(raw_u as i64)
        } else {
            raw_u as i64
        };
        Ok(Asset { amount: raw })
    }
}

} // verus!
