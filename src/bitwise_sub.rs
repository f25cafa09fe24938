use vstd::prelude::*;
use crate::bits::{
    bits_value, digit, lemma_low_digits_all, lemma_low_digits_step, lemma_split_underflow,
    lemma_value_bound, lemma_value_prepend, low_digits, two_pow, Bits,
};
use crate::bitwise::{Bitwise, BitwiseCheck};
use crate::subtractor::FullSubtractor;

verus! {

/// Ripple-borrow subtractor: one full subtractor per digit, the borrow passed
/// from the least significant digit upwards.
pub struct BitwiseSub {
    bitwise: Bitwise,
    subtractors: Vec<FullSubtractor>,
}

impl BitwiseCheck for BitwiseSub {
    closed spec fn width(&self) -> nat {
        self.bitwise.size as nat
    }

    fn size(&self) -> (r: u8) {
        self.bitwise.size
    }
}

impl BitwiseSub {
    /// One full subtractor for each digit.
    pub closed spec fn wf(&self) -> bool {
        self.subtractors@.len() == self.bitwise.size
    }

    pub fn new(size: u8) -> (r: BitwiseSub)
        ensures
            r.wf(),
            r.width() == size,
    {
        let mut subtractors: Vec<FullSubtractor> = Vec::new();
        let mut i: u8 = 0;
        while i < size
            invariant
                i <= size,
                subtractors@.len() == i,
            decreases size - i,
        {
            subtractors.push(FullSubtractor::new());
            i = i + 1;
        }
        BitwiseSub { bitwise: Bitwise::new(size), subtractors }
    }

    /// `d1 - d2 - borrow` modulo `2^n`, and whether it went below zero.
    pub fn evaluate(&mut self, d1: &Bits, d2: &Bits, borrow: bool) -> (r: (Bits, bool))
        requires
            old(self).wf(),
            d1@.len() == old(self).width(),
            d2@.len() == old(self).width(),
        ensures
            final(self).wf(),
            final(self).width() == old(self).width(),
            r.0@.len() == d1@.len(),
            bits_value(r.0@) == (bits_value(d1@) - bits_value(d2@) - digit(borrow)) % (two_pow(
                d1@.len(),
            ) as int),
            r.1 == (bits_value(d1@) < bits_value(d2@) + digit(borrow)),
    {
        let n: usize = d1.len();
        let ghost w = self.width();
        let mut borrow_in: bool = borrow;
        let mut output: Vec<bool> = Vec::new();
        let mut i: usize = 0;
        while i < n
            invariant
                n == d1@.len(),
                n == d2@.len(),
                n == w,
                n <= 255,
                self.wf(),
                self.width() == w,
                i <= n,
                output@.len() == i,
                bits_value(output@) - digit(borrow_in) * two_pow(i as nat) == bits_value(
                    low_digits(d1@, i as nat),
                ) - bits_value(low_digits(d2@, i as nat)) - digit(borrow),
            decreases n - i,
        {
            let j: usize = n - 1 - i;
            let a = d1.get(j);
            let b = d2.get(j);
            let res = self.subtractors[i].evaluate(a, b, borrow_in);
            proof {
                lemma_low_digits_step(d1@, i as nat);
                lemma_low_digits_step(d2@, i as nat);
                let p = two_pow(i as nat);
                assert(two_pow((i + 1) as nat) == 2 * p);
                assert((digit(res.difference) - 2 * digit(res.borrow_out)) * p == digit(
                    res.difference,
                ) * p - digit(res.borrow_out) * (2 * p)) by (nonlinear_arith);
                assert((digit(a) - digit(b) - digit(borrow_in)) * p == digit(a) * p - digit(b) * p
                    - digit(borrow_in) * p) by (nonlinear_arith);
            }
            let ghost before = output@;
            output.insert(0, res.difference);
            proof {
                assert(output@ =~= seq![res.difference] + before);
                lemma_value_prepend(res.difference, before);
            }
            borrow_in = res.borrow_out;
            i = i + 1;
        }
        proof {
            lemma_low_digits_all(d1@);
            lemma_low_digits_all(d2@);
            lemma_value_bound(output@);
            lemma_split_underflow(
                bits_value(d1@) - bits_value(d2@) - digit(borrow),
                bits_value(output@) as int,
                borrow_in,
                two_pow(n as nat) as int,
            );
        }
        assert(crate::bits::fit_width(output@, output@.len()) =~= output@);
        (Bits::from_vector_b(output, None), borrow_in)
    }
}

} // verus!
