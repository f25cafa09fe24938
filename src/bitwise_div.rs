use vstd::prelude::*;
use crate::bits::{
    bits_value, digit, lemma_low_digits_all, lemma_low_digits_step, lemma_split_underflow,
    lemma_value_bound, lemma_value_prepend, low_digits, two_pow, zeros, Bits,
};
use crate::bitwise::{Bitwise, BitwiseCheck};
use crate::gates::{Not, Or};
use crate::subtractor::FullSubtractorRestore;

verus! {

/// One step of restoring division: bringing down digit `b` after a running
/// remainder of `p % dv` yields the next quotient digit and remainder.
pub proof fn lemma_restoring_step(p: nat, dv: nat, b: bool)
    requires
        dv > 0,
    ensures
        ({
            let w = 2 * (p % dv) + digit(b);
            let q = w >= dv;
            &&& (2 * p + digit(b)) / dv == 2 * (p / dv) + digit(q)
            &&& (2 * p + digit(b)) % dv == w - digit(q) * dv
        }),
{
    let w = 2 * (p % dv) + digit(b);
    let q = w >= dv;
    vstd::arithmetic::div_mod::lemma_fundamental_div_mod(p as int, dv as int);
    let k = p / dv;
    let m = p % dv;
    let x = 2 * p + digit(b);
    let qq = 2 * k + digit(q);
    let rr = w - digit(q) * dv;
    assert(x == qq * dv + rr) by (nonlinear_arith)
        requires
            p == dv * k + m,
            x == 2 * p + digit(b),
            w == 2 * m + digit(b),
            qq == 2 * k + digit(q),
            rr == w - digit(q) * dv,
    ;
    assert(0 <= rr < dv);
    vstd::arithmetic::div_mod::lemma_fundamental_div_mod_converse(x as int, dv as int, qq as int, rr);
}

/// Restoring divider: one row of subtract-or-restore cells per quotient digit.
pub struct BitwiseDiv {
    bitwise: Bitwise,
    ors: Vec<Or>,
    nots: Vec<Not>,
    subrestores: Vec<Vec<FullSubtractorRestore>>,
}

impl BitwiseCheck for BitwiseDiv {
    closed spec fn width(&self) -> nat {
        self.bitwise.size as nat
    }

    fn size(&self) -> (r: u8) {
        self.bitwise.size
    }
}

impl BitwiseDiv {
    /// One row of cells, one OR and one NOT for each quotient digit.
    pub closed spec fn wf(&self) -> bool {
        &&& self.ors@.len() == self.bitwise.size
        &&& self.nots@.len() == self.bitwise.size
        &&& self.subrestores@.len() == self.bitwise.size
        &&& forall|r: int|
            0 <= r < self.subrestores@.len() ==> #[trigger] self.subrestores@[r]@.len()
                == self.bitwise.size
    }

    pub fn new(size: u8) -> (r: BitwiseDiv)
        ensures
            r.wf(),
            r.width() == size,
    {
        let mut ors: Vec<Or> = Vec::new();
        let mut nots: Vec<Not> = Vec::new();
        let mut subrestores: Vec<Vec<FullSubtractorRestore>> = Vec::new();
        let mut i: u8 = 0;
        while i < size
            invariant
                i <= size,
                ors@.len() == i,
                nots@.len() == i,
                subrestores@.len() == i,
                forall|r: int| 0 <= r < i ==> #[trigger] subrestores@[r]@.len() == size,
            decreases size - i,
        {
            ors.push(Or::new());
            nots.push(Not::new());
            let mut subrestores_row: Vec<FullSubtractorRestore> = Vec::new();
            let mut k: u8 = 0;
            while k < size
                invariant
                    k <= size,
                    subrestores_row@.len() == k,
                decreases size - k,
            {
                subrestores_row.push(FullSubtractorRestore::new());
                k = k + 1;
            }
            subrestores.push(subrestores_row);
            i = i + 1;
        }
        BitwiseDiv { bitwise: Bitwise::new(size), ors, nots, subrestores }
    }

    /// Runs the cells of `row` on `a - d`, least significant digit first,
    /// keeping the difference digits when `select` is high and the digits of
    /// `a` otherwise. The borrow out says whether `a < d`.
    fn ripple(&mut self, row: usize, a: &Vec<bool>, d: &Bits, select: bool) -> (r: (
        Vec<bool>,
        bool,
    ))
        requires
            old(self).wf(),
            row < old(self).width(),
            a@.len() == old(self).width(),
            d@.len() == old(self).width(),
        ensures
            final(self).wf(),
            final(self).width() == old(self).width(),
            r.0@.len() == a@.len(),
            bits_value(r.0@) == if select {
                (bits_value(a@) - bits_value(d@)) % (two_pow(a@.len()) as int)
            } else {
                bits_value(a@) as int
            },
            r.1 == (bits_value(a@) < bits_value(d@)),
    {
        let n: usize = d.len();
        let ghost w = self.width();
        let mut borrow_in: bool = false;
        let mut output: Vec<bool> = Vec::new();
        let ghost mut diff_value: int = 0;
        let mut i: usize = 0;
        while i < n
            invariant
                n == a@.len(),
                n == d@.len(),
                n == w,
                row < w,
                self.wf(),
                self.width() == w,
                i <= n,
                output@.len() == i,
                0 <= diff_value < two_pow(i as nat),
                diff_value - digit(borrow_in) * two_pow(i as nat) == bits_value(
                    low_digits(a@, i as nat),
                ) - bits_value(low_digits(d@, i as nat)),
                bits_value(output@) == if select {
                    diff_value
                } else {
                    bits_value(low_digits(a@, i as nat)) as int
                },
            decreases n - i,
        {
            let j: usize = n - 1 - i;
            let bit_a = a[j];
            let bit_d = d.get(j);
            proof {
                assert(self.subrestores@[row as int]@.len() == w);
            }
            let (cell, borrow_out) = self.subrestores[row][i].evaluate(
                bit_a,
                bit_d,
                borrow_in,
                select,
            );
            let ghost delta = (bit_a != bit_d) != borrow_in;
            proof {
                lemma_low_digits_step(a@, i as nat);
                lemma_low_digits_step(d@, i as nat);
                let p = two_pow(i as nat);
                assert(two_pow((i + 1) as nat) == 2 * p);
                assert((digit(delta) - 2 * digit(borrow_out)) * p == digit(delta) * p - digit(
                    borrow_out,
                ) * (2 * p)) by (nonlinear_arith);
                assert((digit(bit_a) - digit(bit_d) - digit(borrow_in)) * p == digit(bit_a) * p
                    - digit(bit_d) * p - digit(borrow_in) * p) by (nonlinear_arith);
                assert(digit(delta) * p + diff_value < 2 * p) by (nonlinear_arith)
                    requires
                        diff_value < p,
                        digit(delta) <= 1,
                ;
                assert(0 <= digit(delta) * p) by (nonlinear_arith)
                    requires
                        p >= 1,
                ;
                crate::bits::lemma_two_pow_pos(i as nat);
                diff_value = digit(delta) * p + diff_value;
            }
            let ghost before = output@;
            output.insert(0, cell);
            proof {
                assert(output@ =~= seq![cell] + before);
                lemma_value_prepend(cell, before);
            }
            borrow_in = borrow_out;
            i = i + 1;
        }
        proof {
            lemma_low_digits_all(a@);
            lemma_low_digits_all(d@);
            lemma_split_underflow(
                bits_value(a@) - bits_value(d@),
                diff_value,
                borrow_in,
                two_pow(n as nat) as int,
            );
        }
        (output, borrow_in)
    }

    /// One row: the quotient digit is high when the window `bit_or · 2^n + a`
    /// reaches `d`; the committed remainder is the window less `d` then, and
    /// `a` otherwise.
    fn row(&mut self, row: usize, a: Vec<bool>, d: &Bits, bit_or: bool) -> (r: (bool, Vec<bool>))
        requires
            old(self).wf(),
            row < old(self).width(),
            a@.len() == old(self).width(),
            d@.len() == old(self).width(),
        ensures
            final(self).wf(),
            final(self).width() == old(self).width(),
            ({
                let window = digit(bit_or) * two_pow(a@.len()) + bits_value(a@);
                &&& r.0 == (window >= bits_value(d@))
                &&& r.1@.len() == a@.len()
                &&& bits_value(r.1@) == if r.0 {
                    (window - bits_value(d@)) % (two_pow(a@.len()) as int)
                } else {
                    bits_value(a@) as int
                }
            }),
    {
        let (_, last_borrow_out) = self.ripple(row, &a, d, true);
        let not_borrow_out = self.nots[row].evaluate(last_borrow_out);
        let quotient = self.ors[row].evaluate(bit_or, not_borrow_out);
        let (remainder, _) = self.ripple(row, &a, d, quotient);
        proof {
            let p = two_pow(a@.len()) as int;
            lemma_value_bound(d@);
            let window = digit(bit_or) * two_pow(a@.len()) + bits_value(a@);
            if bit_or {
                vstd::arithmetic::div_mod::lemma_mod_add_multiples_vanish(
                    bits_value(a@) - bits_value(d@),
                    p,
                );
                assert(window == p + bits_value(a@));
                assert(quotient);
                assert(window >= bits_value(d@));
            } else {
                assert(window == bits_value(a@));
            }
            assert(quotient == (window >= bits_value(d@)));
        }
        (quotient, remainder)
    }

    /// Quotient and remainder of `a` by a non-zero `d`.
    pub fn evaluate(&mut self, a: &Bits, d: &Bits) -> (r: (Bits, Bits))
        requires
            old(self).wf(),
            a@.len() == old(self).width(),
            d@.len() == old(self).width(),
            bits_value(d@) > 0,
        ensures
            final(self).wf(),
            final(self).width() == old(self).width(),
            r.0@.len() == a@.len(),
            r.1@.len() == a@.len(),
            bits_value(r.0@) == bits_value(a@) / bits_value(d@),
            bits_value(r.1@) == bits_value(a@) % bits_value(d@),
            bits_value(a@) == bits_value(r.0@) * bits_value(d@) + bits_value(r.1@),
            bits_value(r.1@) < bits_value(d@),
    {
        let n: usize = a.len();
        let ghost w = self.width();
        let ghost dv = bits_value(d@);
        proof {
            lemma_value_bound(d@);
            if n == 0 {
                assert(d@ =~= Seq::<bool>::empty());
            }
        }
        let mut remainder: Vec<bool> = Vec::new();
        let mut k: usize = 0;
        while k < n
            invariant
                k <= n,
                remainder@ =~= zeros(k as nat),
            decreases n - k,
        {
            remainder.push(false);
            k = k + 1;
        }
        proof {
            crate::bits::lemma_zeros_value(n as nat);
            assert(a@.subrange(0, 0) =~= Seq::<bool>::empty());
        }
        let mut quotient: Vec<bool> = Vec::new();
        let mut i: usize = 0;
        while i < n
            invariant
                n == a@.len(),
                n == d@.len(),
                n == w,
                n <= 255,
                n >= 1,
                dv == bits_value(d@),
                0 < dv < two_pow(n as nat),
                self.wf(),
                self.width() == w,
                i <= n,
                quotient@.len() == i,
                remainder@.len() == n,
                bits_value(quotient@) == bits_value(a@.subrange(0, i as int)) / dv,
                bits_value(remainder@) == bits_value(a@.subrange(0, i as int)) % dv,
            decreases n - i,
        {
            let bit_or = remainder[0];
            let mut row_a: Vec<bool> = Vec::new();
            let mut k: usize = 1;
            while k < n
                invariant
                    1 <= k <= n,
                    remainder@.len() == n,
                    row_a@ =~= remainder@.subrange(1, k as int),
                decreases n - k,
            {
                row_a.push(remainder[k]);
                k = k + 1;
            }
            let bit_a = a.get(i);
            let ghost tail = row_a@;
            row_a.push(bit_a);
            let ghost prefix = a@.subrange(0, i as int);
            proof {
                assert(remainder@ =~= seq![bit_or] + tail);
                lemma_value_prepend(bit_or, tail);
                assert(row_a@ =~= tail.push(bit_a));
                assert(row_a@.drop_last() =~= tail);
                let pn = two_pow((n - 1) as nat);
                assert(two_pow(n as nat) == 2 * pn);
                assert(2 * (digit(bit_or) * pn) == digit(bit_or) * (2 * pn)) by (nonlinear_arith);
                assert(a@.subrange(0, i + 1).drop_last() =~= prefix);
                lemma_restoring_step(bits_value(prefix), dv, bit_a);
                lemma_value_bound(row_a@);
            }
            let ghost ra = row_a@;
            let (quotient_bit, next) = self.row(i, row_a, d, bit_or);
            proof {
                let p = two_pow(n as nat) as int;
                let window = 2 * (bits_value(prefix) % dv) + digit(bit_a);
                assert(bits_value(ra) == 2 * bits_value(tail) + digit(bit_a));
                assert(a@.subrange(0, i + 1).last() == bit_a);
                assert(bits_value(a@.subrange(0, i + 1)) == 2 * bits_value(prefix) + digit(bit_a));
                assert(quotient_bit == (window >= dv));
                assert(window == digit(bit_or) * p + bits_value(ra));
                if quotient_bit {
                    vstd::arithmetic::div_mod::lemma_small_mod((window - dv) as nat, p as nat);
                    assert(bits_value(next@) == window - dv);
                    assert(digit(quotient_bit) * dv == dv);
                } else {
                    assert(!bit_or);
                    assert(bits_value(next@) == window);
                    assert(digit(quotient_bit) * dv == 0);
                }
                assert(bits_value(next@) == window - digit(quotient_bit) * dv);
                assert(window - digit(quotient_bit) * dv == (2 * bits_value(prefix) + digit(bit_a))
                    % dv);
                assert(bits_value(next@) == bits_value(a@.subrange(0, i + 1)) % dv);
            }
            remainder = next;
            let ghost before = quotient@;
            quotient.push(quotient_bit);
            proof {
                assert(quotient@.drop_last() =~= before);
            }
            i = i + 1;
        }
        proof {
            assert(a@.subrange(0, n as int) =~= a@);
            vstd::arithmetic::div_mod::lemma_fundamental_div_mod(bits_value(a@) as int, dv as int);
            assert(bits_value(a@) == dv * (bits_value(a@) / dv) + bits_value(a@) % dv);
            assert(dv * (bits_value(a@) / dv) == (bits_value(a@) / dv) * dv) by (nonlinear_arith);
        }
        assert(crate::bits::fit_width(quotient@, quotient@.len()) =~= quotient@);
        assert(crate::bits::fit_width(remainder@, remainder@.len()) =~= remainder@);
        (Bits::from_vector_b(quotient, None), Bits::from_vector_b(remainder, None))
    }
}

} // verus!
