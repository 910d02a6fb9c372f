//! Hexadecimal rendering of addresses and flag values.

use vstd::prelude::*;

verus! {

/// The ASCII byte for one hex digit, lowercase.
pub open spec fn hex_digit(d: int) -> u8 {
    if d < 10 {
        (48 + d) as u8
    } else {
        (87 + d) as u8
    }
}

/// The hex digits of `v`, most significant first, without leading zeros.
pub open spec fn hex_digits(v: int) -> Seq<u8>
    decreases v,
{
    if v < 16 {
        seq![hex_digit(v)]
    } else {
        hex_digits(v / 16).push(hex_digit(v % 16))
    }
}

/// The full rendering: `0x` followed by the digits.
pub open spec fn hex_text(v: int) -> Seq<u8> {
    seq![48u8, 120u8] + hex_digits(v)
}

/// A value the hex renderer accepts.
pub trait Hexable {
    /// The numeric value rendered, for specifications.
    spec fn hex_value(&self) -> u64;

    /// The numeric value rendered.
    fn to_u64(&self) -> (r: u64)
        ensures
            r == self.hex_value(),
    ;
}

impl Hexable for u8 {
    open spec fn hex_value(&self) -> u64 {
        *self as u64
    }

    fn to_u64(&self) -> (r: u64) {
        *self as u64
    }
}

impl Hexable for u64 {
    open spec fn hex_value(&self) -> u64 {
        *self
    }

    fn to_u64(&self) -> (r: u64) {
        *self
    }
}

impl Hexable for usize {
    open spec fn hex_value(&self) -> u64 {
        *self as u64
    }

    fn to_u64(&self) -> (r: u64) {
        *self as u64
    }
}

/// Renders its value as lowercase `0x…` text.
pub struct Hex<T>(pub T);

impl<T: Hexable> Hex<T> {
    /// The rendered text bytes.
    pub fn text(&self) -> (r: Vec<u8>)
        ensures
            r@ == hex_text(self.0.hex_value() as int),
    {
        let v0 = self.0.to_u64();
        let ghost whole = hex_digits(v0 as int);
        let mut digits: Vec<u8> = Vec::new();
        let mut n = v0;
        while n >= 16
            invariant
                whole =~= hex_digits(n as int) + digits@.reverse(),
            decreases n,
        {
            let d = (n % 16) as u8;
            let b: u8 = if d < 10 {
                48 + d
            } else {
                87 + d
            };
            let ghost before = digits@;
            digits.push(b);
            proof {
                assert(before.push(hex_digit(n as int % 16)).reverse() =~= seq![
                    hex_digit(n as int % 16),
                ] + before.reverse());
            }
            n = n / 16;
        }
        let last: u8 = if n < 10 {
            48 + n as u8
        } else {
            87 + n as u8
        };
        proof {
            assert(whole =~= seq![hex_digit(n as int)] + digits@.reverse());
        }
        let mut out: Vec<u8> = Vec::new();
        out.push(48);
        out.push(120);
        out.push(last);
        let mut k = digits.len();
        proof {
            assert(digits@.subrange(k as int, k as int).reverse() =~= Seq::<u8>::empty());
            assert(out@ =~= seq![48u8, 120u8, hex_digit(n as int)] + digits@.subrange(
                k as int,
                k as int,
            ).reverse());
        }
        while k > 0
            invariant
                k <= digits@.len(),
                out@ =~= seq![48u8, 120u8, hex_digit(n as int)] + digits@.subrange(
                    k as int,
                    digits@.len() as int,
                ).reverse(),
            decreases k,
        {
            out.push(digits[k - 1]);
            proof {
                let tail = digits@.subrange(k as int, digits@.len() as int);
                let tail2 = digits@.subrange(k - 1, digits@.len() as int);
                assert(tail2 =~= seq![digits@[k - 1]] + tail);
                assert(tail2.reverse() =~= tail.reverse().push(digits@[k - 1]));
            }
            k = k - 1;
        }
        proof {
            assert(digits@.subrange(0, digits@.len() as int) =~= digits@);
            assert(out@ =~= hex_text(v0 as int));
        }
        out
    }
}

} // verus!
