//! Decimal rendering of unsigned integers.

use vstd::prelude::*;

verus! {

/// Decimal digits of `n`, without leading zeros (`0` is `"0"`).
pub open spec fn dec_digits(n: nat) -> Seq<u8>
    decreases n,
{
    if n < 10 {
        seq![(0x30 + n) as u8]
    } else {
        dec_digits(n / 10).push((0x30 + n % 10) as u8)
    }
}

/// The decimal digits of `n`.
pub fn u32_digits(n: u32) -> (r: Vec<u8>)
    ensures
        r@ == dec_digits(n as nat),
{
    let mut digits: Vec<u8> = Vec::new();
    let mut t = n;
    while t >= 10
        invariant
            dec_digits(n as nat) == dec_digits(t as nat) + digits@,
        decreases t,
    {
        let d = (0x30 + t % 10) as u8;
        let ghost prev = digits@;
        digits.insert(0, d);
        proof {
            assert(dec_digits(t as nat) == dec_digits((t / 10) as nat).push(d));
            assert(dec_digits(t as nat) + prev =~= dec_digits((t / 10) as nat) + digits@) by {
                assert(digits@ =~= seq![d] + prev);
            }
        }
        t = t / 10;
    }
    let d = (0x30 + t) as u8;
    let ghost prev = digits@;
    digits.insert(0, d);
    assert(digits@ =~= dec_digits(t as nat) + prev);
    digits
}

/// The decimal digits of `n`.
pub fn usize_digits(n: usize) -> (r: Vec<u8>)
    ensures
        r@ == dec_digits(n as nat),
{
    let mut digits: Vec<u8> = Vec::new();
    let mut t = n;
    while t >= 10
        invariant
            dec_digits(n as nat) == dec_digits(t as nat) + digits@,
        decreases t,
    {
        let d = (0x30 + t % 10) as u8;
        let ghost prev = digits@;
        digits.insert(0, d);
        proof {
            assert(dec_digits(t as nat) == dec_digits((t / 10) as nat).push(d));
            assert(dec_digits(t as nat) + prev =~= dec_digits((t / 10) as nat) + digits@) by {
                assert(digits@ =~= seq![d] + prev);
            }
        }
        t = t / 10;
    }
    let d = (0x30 + t) as u8;
    let ghost prev = digits@;
    digits.insert(0, d);
    assert(digits@ =~= dec_digits(t as nat) + prev);
    digits
}

} // verus!
