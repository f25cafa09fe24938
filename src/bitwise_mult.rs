use vstd::prelude::*;
use crate::bits::{
    bits_value, digit, fit_width, lemma_leading_zeros, lemma_low_digits_all, lemma_low_digits_step,
    lemma_trailing_zeros, lemma_two_pow_add, lemma_two_pow_monotone, lemma_value_bound,
    low_digits, two_pow, zeros, Bits,
};
use crate::bitwise::{Bitwise, BitwiseCheck};
use crate::bitwise_add::BitwiseAdd;
use crate::gates::And;

verus! {

/// Array multiplier: a square of AND gates forms the partial products, and a
/// chain of double-width adders sums them.
pub struct BitwiseMult {
    bitwise: Bitwise,
    ands: Vec<Vec<And>>,
    bitwise_adds: Vec<BitwiseAdd>,
}

impl BitwiseCheck for BitwiseMult {
    closed spec fn width(&self) -> nat {
        self.bitwise.size as nat
    }

    fn size(&self) -> (r: u8) {
        self.bitwise.size
    }
}

impl BitwiseMult {
    /// A square of AND gates, and one double-width adder for each partial
    /// product after the first.
    pub closed spec fn wf(&self) -> bool {
        &&& self.bitwise.size <= 127
        &&& self.ands@.len() == self.bitwise.size
        &&& forall|r: int|
            0 <= r < self.ands@.len() ==> #[trigger] self.ands@[r]@.len() == self.bitwise.size
        &&& self.bitwise_adds@.len() + 1 >= self.bitwise.size
        &&& forall|r: int|
            0 <= r < self.bitwise_adds@.len() ==> {
                &&& (#[trigger] self.bitwise_adds@[r]).wf()
                &&& self.bitwise_adds@[r].width() == 2 * self.bitwise.size
            }
    }

    pub fn new(size: u8) -> (r: BitwiseMult)
        requires
            size <= 127,
        ensures
            r.wf(),
            r.width() == size,
    {
        let mut ands: Vec<Vec<And>> = Vec::new();
        let mut i: u8 = 0;
        while i < size
            invariant
                i <= size,
                ands@.len() == i,
                forall|r: int| 0 <= r < i ==> #[trigger] ands@[r]@.len() == size,
            decreases size - i,
        {
            let mut ands_row: Vec<And> = Vec::new();
            let mut k: u8 = 0;
            while k < size
                invariant
                    k <= size,
                    ands_row@.len() == k,
                decreases size - k,
            {
                ands_row.push(And::new());
                k = k + 1;
            }
            ands.push(ands_row);
            i = i + 1;
        }
        let mut bitwise_adds: Vec<BitwiseAdd> = Vec::new();
        let mut j: u8 = 1;
        while j < size
            invariant
                1 <= j,
                size <= 127,
                j <= size || size == 0,
                bitwise_adds@.len() + 1 == j,
                forall|r: int|
                    0 <= r < bitwise_adds@.len() ==> {
                        &&& (#[trigger] bitwise_adds@[r]).wf()
                        &&& bitwise_adds@[r].width() == 2 * size
                    },
            decreases size - j,
        {
            bitwise_adds.push(BitwiseAdd::new(size * 2));
            j = j + 1;
        }
        BitwiseMult { bitwise: Bitwise::new(size), ands, bitwise_adds }
    }

    /// The product `d1 * d2`, written with twice the operand width.
    pub fn evaluate(&mut self, d1: &Bits, d2: &Bits) -> (r: Bits)
        requires
            old(self).wf(),
            d1@.len() == old(self).width(),
            d2@.len() == old(self).width(),
        ensures
            final(self).wf(),
            final(self).width() == old(self).width(),
            r@.len() == 2 * d1@.len(),
            bits_value(r@) == bits_value(d1@) * bits_value(d2@),
    {
        let n: usize = d1.len();
        let ghost w = self.width();
        let ghost v1 = bits_value(d1@);
        let mut output: Bits = Bits::from_vector_b(Vec::new(), None);
        proof {
            lemma_value_bound(d1@);
            assert(low_digits(d2@, 0) =~= Seq::<bool>::empty());
        }
        let mut i: usize = 0;
        while i < n
            invariant
                n == d1@.len(),
                n == d2@.len(),
                n == w,
                n <= 127,
                v1 == bits_value(d1@),
                v1 < two_pow(n as nat),
                self.wf(),
                self.width() == w,
                i <= n,
                i == 0 ==> output@.len() == 0,
                i > 0 ==> output@.len() == 2 * n,
                bits_value(output@) == v1 * bits_value(low_digits(d2@, i as nat)),
            decreases n - i,
        {
            let bit2 = d2.get(n - 1 - i);
            let mut and_result: Vec<bool> = Vec::new();
            let mut k: usize = 0;
            while k < n - i
                invariant
                    k <= n - i,
                    and_result@ =~= zeros(k as nat),
                decreases n - i - k,
            {
                and_result.push(false);
                k = k + 1;
            }
            let ghost lead = and_result@;
            proof {
                assert(self.ands@[i as int]@.len() == w);
            }
            let mut k: usize = 0;
            while k < n
                invariant
                    n == d1@.len(),
                    n == w,
                    i < n,
                    self.wf(),
                    self.width() == w,
                    k <= n,
                    and_result@ =~= lead + (if bit2 {
                        d1@.subrange(0, k as int)
                    } else {
                        zeros(k as nat)
                    }),
                decreases n - k,
            {
                proof {
                    assert(self.ands@[i as int]@.len() == w);
                }
                let and_bit = self.ands[i][k].evaluate(d1.get(k), bit2);
                and_result.push(and_bit);
                k = k + 1;
            }
            let ghost row = if bit2 {
                d1@
            } else {
                zeros(n as nat)
            };
            proof {
                assert(d1@.subrange(0, n as int) =~= d1@);
                assert(and_result@ =~= lead + row);
            }
            let ghost body = and_result@;
            let mut k: usize = 0;
            while k < i
                invariant
                    k <= i,
                    and_result@ =~= body + zeros(k as nat),
                decreases i - k,
            {
                and_result.push(false);
                k = k + 1;
            }
            proof {
                lemma_leading_zeros((n - i) as nat, row);
                lemma_trailing_zeros(body, i as nat);
                crate::bits::lemma_zeros_value(n as nat);
                assert(bits_value(row) == digit(bit2) * v1);
                assert(and_result@.len() == 2 * n);
                assert(fit_width(and_result@, and_result@.len()) =~= and_result@);
            }
            let partial = Bits::from_vector_b(and_result, None);
            proof {
                let p = two_pow(i as nat);
                let low = bits_value(low_digits(d2@, i as nat));
                lemma_low_digits_step(d2@, i as nat);
                assert(bits_value(partial@) == digit(bit2) * v1 * p);
                assert(v1 * (digit(bit2) * p + low) == digit(bit2) * v1 * p + v1 * low)
                    by (nonlinear_arith);
                let next = bits_value(low_digits(d2@, (i + 1) as nat));
                lemma_value_bound(low_digits(d2@, (i + 1) as nat));
                lemma_two_pow_monotone((i + 1) as nat, n as nat);
                lemma_two_pow_add(n as nat, n as nat);
                assert(v1 * next < two_pow(n as nat) * two_pow(n as nat)) by (nonlinear_arith)
                    requires
                        v1 < two_pow(n as nat),
                        next < two_pow(n as nat),
                ;
            }
            if i == 0 {
                output = partial;
                proof {
                    assert(bits_value(low_digits(d2@, 0)) == 0);
                }
            } else {
                proof {
                    assert(self.bitwise_adds@[i - 1].wf());
                }
                let (aggregated, _) = self.bitwise_adds[i - 1].evaluate(&partial, &output, false);
                proof {
                    vstd::arithmetic::div_mod::lemma_small_mod(
                        bits_value(partial@) + bits_value(output@),
                        two_pow(2 * n as nat),
                    );
                }
                output = aggregated;
            }
            i = i + 1;
        }
        proof {
            lemma_low_digits_all(d2@);
            if n == 0 {
                assert(d2@ =~= Seq::<bool>::empty());
            }
        }
        output
    }
}

} // verus!
