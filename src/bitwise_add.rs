use vstd::prelude::*;
use crate::adder::FullAdder;
use crate::bits::{
    bits_value, digit, lemma_low_digits_all, lemma_low_digits_step, lemma_split_overflow,
    lemma_value_bound, lemma_value_prepend, low_digits, two_pow, Bits,
};
use crate::bitwise::{Bitwise, BitwiseCheck};

verus! {

/// Ripple-carry adder: one full adder per digit, the carry passed from the
/// least significant digit upwards.
pub struct BitwiseAdd {
    bitwise: Bitwise,
    adders: Vec<FullAdder>,
}

impl BitwiseCheck for BitwiseAdd {
    closed spec fn width(&self) -> nat {
        self.bitwise.size as nat
    }

    fn size(&self) -> (r: u8) {
        self.bitwise.size
    }
}

impl BitwiseAdd {
    /// One full adder for each digit.
    pub closed spec fn wf(&self) -> bool {
        self.adders@.len() == self.bitwise.size
    }

    pub fn new(size: u8) -> (r: BitwiseAdd)
        ensures
            r.wf(),
            r.width() == size,
    {
        let mut adders: Vec<FullAdder> = Vec::new();
        let mut i: u8 = 0;
        while i < size
            invariant
                i <= size,
                adders@.len() == i,
            decreases size - i,
        {
            adders.push(FullAdder::new());
            i = i + 1;
        }
        BitwiseAdd { bitwise: Bitwise::new(size), adders }
    }

    /// `d1 + d2 + carry`, as its low digits and the carry out of the top digit.
    pub fn evaluate(&mut self, d1: &Bits, d2: &Bits, carry: bool) -> (r: (Bits, bool))
        requires
            old(self).wf(),
            d1@.len() == old(self).width(),
            d2@.len() == old(self).width(),
        ensures
            final(self).wf(),
            final(self).width() == old(self).width(),
            r.0@.len() == d1@.len(),
            bits_value(r.0@) == (bits_value(d1@) + bits_value(d2@) + digit(carry)) % two_pow(
                d1@.len(),
            ),
            r.1 == (bits_value(d1@) + bits_value(d2@) + digit(carry) >= two_pow(d1@.len())),
    {
        let n: usize = d1.len();
        let ghost w = self.width();
        let mut carry_in: bool = carry;
        let mut output: Vec<bool> = Vec::new();
        let mut i: usize = 0;
        while i < n
            invariant
                n == d1@.len(),
                n == d2@.len(),
                n == w,
                n <= 255,
                self.wf(),
                self.width() == w,
                i <= n,
                output@.len() == i,
                bits_value(output@) + digit(carry_in) * two_pow(i as nat) == bits_value(
                    low_digits(d1@, i as nat),
                ) + bits_value(low_digits(d2@, i as nat)) + digit(carry),
            decreases n - i,
        {
            let j: usize = n - 1 - i;
            let a = d1.get(j);
            let b = d2.get(j);
            let res = self.adders[i].evaluate(a, b, carry_in);
            proof {
                lemma_low_digits_step(d1@, i as nat);
                lemma_low_digits_step(d2@, i as nat);
                let p = two_pow(i as nat);
                assert(two_pow((i + 1) as nat) == 2 * p);
                assert((digit(res.sum) + 2 * digit(res.carry_out)) * p == digit(res.sum) * p + digit(
                    res.carry_out,
                ) * (2 * p)) by (nonlinear_arith);
                assert((digit(a) + digit(b) + digit(carry_in)) * p == digit(a) * p + digit(b) * p
                    + digit(carry_in) * p) by (nonlinear_arith);
            }
            let ghost before = output@;
            output.insert(0, res.sum);
            proof {
                assert(output@ =~= seq![res.sum] + before);
                lemma_value_prepend(res.sum, before);
            }
            carry_in = res.carry_out;
            i = i + 1;
        }
        proof {
            lemma_low_digits_all(d1@);
            lemma_low_digits_all(d2@);
            lemma_value_bound(output@);
            lemma_split_overflow(
                (bits_value(d1@) + bits_value(d2@) + digit(carry)) as int,
                bits_value(output@) as int,
                carry_in,
                two_pow(n as nat) as int,
            );
        }
        assert(crate::bits::fit_width(output@, output@.len()) =~= output@);
        (Bits::from_vector_b(output, None), carry_in)
    }
}

} // verus!
