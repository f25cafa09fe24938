use vstd::prelude::*;
use crate::bits::{bits_value, lemma_value_bound, lemma_value_concat, low_digits, two_pow, Bits};
use crate::mux::Mux2To1;

verus! {

/// `s` rotated towards its least significant end by `k` places: the digit at
/// position `j` moves to position `j + k`, wrapping around.
pub open spec fn rotate_right(s: Seq<bool>, k: int) -> Seq<bool> {
    Seq::new(s.len(), |j: int| s[(j - k) % (s.len() as int)])
}

/// `s` rotated towards its most significant end by `k` places.
pub open spec fn rotate_left(s: Seq<bool>, k: int) -> Seq<bool> {
    Seq::new(s.len(), |j: int| s[(j + k) % (s.len() as int)])
}

/// `s` read backwards.
pub open spec fn reversed(s: Seq<bool>) -> Seq<bool> {
    Seq::new(s.len(), |j: int| s[s.len() - 1 - j])
}

/// Splitting a sequence splits its value into quotient and remainder.
pub proof fn lemma_value_split(a: Seq<bool>, b: Seq<bool>)
    ensures
        bits_value(a) == bits_value(a + b) / two_pow(b.len()),
        bits_value(b) == bits_value(a + b) % two_pow(b.len()),
{
    lemma_value_concat(a, b);
    lemma_value_bound(b);
    vstd::arithmetic::div_mod::lemma_fundamental_div_mod_converse(
        bits_value(a + b) as int,
        two_pow(b.len()) as int,
        bits_value(a) as int,
        bits_value(b) as int,
    );
}

/// A right rotation moves the low `k` digits in front of the others.
pub proof fn lemma_rotate_right_concat(s: Seq<bool>, k: int)
    requires
        0 <= k <= s.len(),
        s.len() > 0,
    ensures
        rotate_right(s, k) =~= s.subrange(s.len() - k, s.len() as int) + s.subrange(
            0,
            s.len() - k,
        ),
{
    let n = s.len() as int;
    assert forall|j: int| 0 <= j < n implies #[trigger] rotate_right(s, k)[j] == (s.subrange(
        n - k,
        n,
    ) + s.subrange(0, n - k))[j] by {
        if j < k {
            vstd::arithmetic::div_mod::lemma_fundamental_div_mod_converse(j - k, n, -1, j - k + n);
        } else {
            vstd::arithmetic::div_mod::lemma_fundamental_div_mod_converse(j - k, n, 0, j - k);
        }
    }
}

/// A left rotation moves the high `k` digits behind the others.
pub proof fn lemma_rotate_left_concat(s: Seq<bool>, k: int)
    requires
        0 <= k <= s.len(),
        s.len() > 0,
    ensures
        rotate_left(s, k) =~= s.subrange(k, s.len() as int) + s.subrange(0, k),
{
    let n = s.len() as int;
    assert forall|j: int| 0 <= j < n implies #[trigger] rotate_left(s, k)[j] == (s.subrange(k, n)
        + s.subrange(0, k))[j] by {
        if j < n - k {
            vstd::arithmetic::div_mod::lemma_fundamental_div_mod_converse(j + k, n, 0, j + k);
        } else {
            vstd::arithmetic::div_mod::lemma_fundamental_div_mod_converse(j + k, n, 1, j + k - n);
        }
    }
}

/// Right rotation by `k` of an `n`-digit value `v` gives
/// `(v >> k) | (v << (n - k))`, kept to `n` digits.
pub proof fn lemma_rotate_right_value(s: Seq<bool>, k: nat)
    requires
        k <= s.len(),
    ensures
        bits_value(rotate_right(s, k as int)) == bits_value(s) / two_pow(k) + (bits_value(s)
            % two_pow(k)) * two_pow((s.len() - k) as nat),
{
    let n = s.len() as int;
    if n == 0 {
        assert(rotate_right(s, k as int) =~= s);
        assert(two_pow(0) == 1);
    } else {
        let hi = s.subrange(0, n - k);
        let lo = s.subrange(n - k, n);
        lemma_rotate_right_concat(s, k as int);
        assert(s =~= hi + lo);
        lemma_value_split(hi, lo);
        lemma_value_concat(lo, hi);
    }
}

/// Left rotation by `k` of an `n`-digit value `v` gives
/// `(v << k) | (v >> (n - k))`, kept to `n` digits.
pub proof fn lemma_rotate_left_value(s: Seq<bool>, k: nat)
    requires
        k <= s.len(),
    ensures
        bits_value(rotate_left(s, k as int)) == (bits_value(s) % two_pow((s.len() - k) as nat))
            * two_pow(k) + bits_value(s) / two_pow((s.len() - k) as nat),
{
    let n = s.len() as int;
    if n == 0 {
        assert(rotate_left(s, k as int) =~= s);
        assert(two_pow(0) == 1);
        assert(k == 0);
        assert(bits_value(s) == 0);
        assert(0nat % 1nat == 0) by (nonlinear_arith);
        assert(0nat / 1nat == 0) by (nonlinear_arith);
    } else {
        let hi = s.subrange(0, k as int);
        let lo = s.subrange(k as int, n);
        lemma_rotate_left_concat(s, k as int);
        assert(s =~= hi + lo);
        lemma_value_split(hi, lo);
        lemma_value_concat(lo, hi);
        assert(hi.len() == k);
        assert(lo.len() == (s.len() - k) as nat);
        assert(bits_value(lo) == bits_value(s) % two_pow((s.len() - k) as nat));
        assert(bits_value(hi) == bits_value(s) / two_pow((s.len() - k) as nat));
        assert(bits_value(lo + hi) == bits_value(lo) * two_pow(k) + bits_value(hi));
    }
}

/// Rotating by `a` then by `b` rotates by `a + b`.
proof fn lemma_rotate_right_compose(s: Seq<bool>, a: int, b: int)
    requires
        s.len() > 0,
    ensures
        rotate_right(rotate_right(s, a), b) =~= rotate_right(s, a + b),
{
    let n = s.len() as int;
    assert forall|j: int| 0 <= j < n implies #[trigger] rotate_right(rotate_right(s, a), b)[j]
        == rotate_right(s, a + b)[j] by {
        let x = j - b;
        vstd::arithmetic::div_mod::lemma_sub_mod_noop_right(x % n, a, n);
        vstd::arithmetic::div_mod::lemma_sub_mod_noop(x, a, n);
        vstd::arithmetic::div_mod::lemma_mod_twice(x, n);
        assert(x - a == j - (a + b));
    }
}

/// One shifter stage: rotating by `k` takes position `j` from `j - k`,
/// wrapping round from the end.
proof fn lemma_rotate_right_index(s: Seq<bool>, k: int, j: int)
    requires
        0 < k <= s.len(),
        0 <= j < s.len(),
    ensures
        rotate_right(s, k)[j] == if j < k {
            s[s.len() - k + j]
        } else {
            s[j - k]
        },
{
    let n = s.len() as int;
    if j < k {
        vstd::arithmetic::div_mod::lemma_fundamental_div_mod_converse(j - k, n, -1, j - k + n);
    } else {
        vstd::arithmetic::div_mod::lemma_fundamental_div_mod_converse(j - k, n, 0, j - k);
    }
}

/// Rotating right inside a mirror is rotating left.
proof fn lemma_mirror_rotate(s: Seq<bool>, k: int)
    requires
        s.len() > 0,
    ensures
        reversed(rotate_right(reversed(s), k)) =~= rotate_left(s, k),
{
    let n = s.len() as int;
    assert forall|j: int| 0 <= j < n implies #[trigger] reversed(rotate_right(reversed(s), k))[j]
        == rotate_left(s, k)[j] by {
        let m = (j + k) % n;
        let q = (j + k) / n;
        vstd::arithmetic::div_mod::lemma_fundamental_div_mod(j + k, n);
        assert(n - 1 - j - k == (-q) * n + (n - 1 - m)) by (nonlinear_arith)
            requires
                j + k == n * q + m,
        ;
        vstd::arithmetic::div_mod::lemma_fundamental_div_mod_converse(
            n - 1 - j - k,
            n,
            -q,
            n - 1 - m,
        );
    }
}

/// Logarithmic rotator: stage `k` rotates by `2^k` places when digit `k` of
/// the shift amount is high. The direction is fixed when it is built.
pub struct BarrelShifter {
    size: u8,
    right: bool,
    muxes: Vec<Vec<Mux2To1>>,
}

impl BarrelShifter {
    /// One row of `2^size` multiplexers for each stage.
    pub closed spec fn wf(&self) -> bool {
        &&& self.size <= 7
        &&& self.muxes@.len() == self.size
        &&& forall|r: int|
            0 <= r < self.muxes@.len() ==> #[trigger] self.muxes@[r]@.len() == two_pow(
                self.size as nat,
            )
    }

    /// The number of stages, which is the width of the shift amount.
    pub closed spec fn stages(&self) -> nat {
        self.size as nat
    }

    /// Whether the shifter rotates towards the least significant end.
    pub closed spec fn rotates_right(&self) -> bool {
        self.right
    }

    pub fn new(size: u8, right: bool) -> (r: BarrelShifter)
        requires
            size <= 7,
        ensures
            r.wf(),
            r.stages() == size,
            r.rotates_right() == right,
    {
        let mut width: usize = 1;
        let mut k: u8 = 0;
        while k < size
            invariant
                k <= size <= 7,
                width == two_pow(k as nat),
                width <= 128,
            decreases size - k,
        {
            proof {
                crate::bits::lemma_two_pow_monotone((k + 1) as nat, 7);
                reveal_with_fuel(two_pow, 8);
            }
            width = width * 2;
            k = k + 1;
        }
        let mut muxes: Vec<Vec<Mux2To1>> = Vec::new();
        let mut i: u8 = 0;
        while i < size
            invariant
                i <= size,
                width == two_pow(size as nat),
                muxes@.len() == i,
                forall|r: int| 0 <= r < i ==> #[trigger] muxes@[r]@.len() == width,
            decreases size - i,
        {
            let mut row_muxes: Vec<Mux2To1> = Vec::new();
            let mut j: usize = 0;
            while j < width
                invariant
                    j <= width,
                    row_muxes@.len() == j,
                decreases width - j,
            {
                row_muxes.push(Mux2To1::new());
                j = j + 1;
            }
            muxes.push(row_muxes);
            i = i + 1;
        }
        BarrelShifter { size, right, muxes }
    }

    fn reverse(v: Vec<bool>) -> (r: Vec<bool>)
        ensures
            r@ == reversed(v@),
    {
        let mut out: Vec<bool> = Vec::new();
        let n = v.len();
        let mut j: usize = 0;
        while j < n
            invariant
                n == v@.len(),
                j <= n,
                out@.len() == j,
                forall|t: int| 0 <= t < j ==> out@[t] == v@[n - 1 - t],
            decreases n - j,
        {
            out.push(v[n - 1 - j]);
            j = j + 1;
        }
        assert(out@ =~= reversed(v@));
        out
    }

    /// Rotates `i` by the value of `s`; the flag is the digit that ends up at
    /// the end the rotation moves towards.
    pub fn evaluate(&mut self, i: &Bits, s: &Bits) -> (r: (Bits, bool))
        requires
            old(self).wf(),
            i@.len() == two_pow(old(self).stages()),
            s@.len() == old(self).stages(),
        ensures
            final(self).wf(),
            final(self).stages() == old(self).stages(),
            final(self).rotates_right() == old(self).rotates_right(),
            r.0@ == if old(self).rotates_right() {
                rotate_right(i@, bits_value(s@) as int)
            } else {
                rotate_left(i@, bits_value(s@) as int)
            },
            r.1 == if old(self).rotates_right() {
                r.0@[0]
            } else {
                r.0@[r.0@.len() - 1]
            },
    {
        let n: usize = i.len();
        let size: usize = self.size as usize;
        let ghost size0 = self.size;
        let ghost right0 = self.right;
        proof {
            crate::bits::lemma_two_pow_pos(size as nat);
        }
        let mut current = i.data();
        if !self.right {
            current = BarrelShifter::reverse(current);
        }
        let ghost start = current@;
        proof {
            assert(rotate_right(start, 0) =~= start) by {
                assert forall|j: int| 0 <= j < start.len() implies rotate_right(start, 0)[j]
                    == start[j] by {
                    vstd::arithmetic::div_mod::lemma_small_mod(j as nat, start.len());
                }
            }
            assert(low_digits(s@, 0) =~= Seq::<bool>::empty());
        }
        let mut nz: usize = 1;
        let mut k: usize = 0;
        while k < size
            invariant
                size == size0,
                size == s@.len(),
                n == two_pow(size as nat),
                n == start.len(),
                n >= 1,
                self.wf(),
                self.size == size0,
                self.right == right0,
                k <= size,
                nz == two_pow(k as nat),
                current@ == rotate_right(start, bits_value(low_digits(s@, k as nat)) as int),
            decreases size - k,
        {
            proof {
                crate::bits::lemma_two_pow_monotone((k + 1) as nat, size as nat);
                crate::bits::lemma_two_pow_pos(k as nat);
                assert(two_pow((k + 1) as nat) == 2 * nz);
            }
            let bit_s = s.get(size - 1 - k);
            let ghost cur = current@;
            let mut output: Vec<bool> = Vec::new();
            let mut j: usize = 0;
            while j < n
                invariant
                    n == cur.len(),
                    cur == current@,
                    0 < nz < n,
                    k < size,
                    size == size0,
                    self.wf(),
                    self.size == size0,
                    self.right == right0,
                    n == two_pow(size0 as nat),
                    j <= n,
                    output@.len() == j,
                    forall|t: int|
                        0 <= t < j ==> #[trigger] output@[t] == if bit_s {
                            rotate_right(cur, nz as int)[t]
                        } else {
                            cur[t]
                        },
                decreases n - j,
            {
                let a1 = if j < nz {
                    current[n - nz + j]
                } else {
                    current[j - nz]
                };
                proof {
                    lemma_rotate_right_index(cur, nz as int, j as int);
                    assert(self.muxes@[k as int]@.len() == n);
                }
                let m = self.muxes[k][j].evaluate(current[j], a1, bit_s);
                output.push(m);
                j = j + 1;
            }
            proof {
                let before = bits_value(low_digits(s@, k as nat)) as int;
                crate::bits::lemma_low_digits_step(s@, k as nat);
                let after = bits_value(low_digits(s@, (k + 1) as nat)) as int;
                assert(s@[s@.len() - 1 - k] == bit_s);
                if bit_s {
                    lemma_rotate_right_compose(start, before, nz as int);
                    assert(output@ =~= rotate_right(cur, nz as int));
                    assert(after == before + nz);
                } else {
                    assert(output@ =~= cur);
                    assert(after == before);
                }
            }
            current = output;
            nz = nz * 2;
            k = k + 1;
        }
        proof {
            crate::bits::lemma_low_digits_all(s@);
        }
        if self.right {
            assert(crate::bits::fit_width(current@, current@.len()) =~= current@);
            let result = Bits::from_vector_b(current, None);
            let first_bit = result.get(0);
            (result, first_bit)
        } else {
            let ghost rot = current@;
            current = BarrelShifter::reverse(current);
            proof {
                assert(reversed(start) =~= i@);
                lemma_mirror_rotate(i@, bits_value(s@) as int);
            }
            assert(crate::bits::fit_width(current@, current@.len()) =~= current@);
            let result = Bits::from_vector_b(current, None);
            let first_bit = result.get(result.len() - 1);
            (result, first_bit)
        }
    }
}

} // verus!
