use vstd::prelude::*;
use vstd::std_specs::cmp::PartialEqSpec;

verus! {

/// `2` raised to `n`.
pub open spec fn two_pow(n: nat) -> nat
    decreases n,
{
    if n == 0 {
        1
    } else {
        2 * two_pow((n - 1) as nat)
    }
}

/// The numeric weight of one signal: `1` for high, `0` for low.
pub open spec fn digit(b: bool) -> nat {
    if b {
        1
    } else {
        0
    }
}

/// The unsigned value of a digit sequence, most significant digit first.
pub open spec fn bits_value(s: Seq<bool>) -> nat
    decreases s.len(),
{
    if s.len() == 0 {
        0
    } else {
        2 * bits_value(s.drop_last()) + digit(s.last())
    }
}

/// `n` low signals.
pub open spec fn zeros(n: nat) -> Seq<bool> {
    Seq::new(n, |i: int| false)
}

/// The `n` lowest binary digits of `x`, most significant first.
pub open spec fn int_to_bits(x: nat, n: nat) -> Seq<bool>
    decreases n,
{
    if n == 0 {
        Seq::empty()
    } else {
        int_to_bits(x / 2, (n - 1) as nat).push(x % 2 == 1)
    }
}

/// The fewest binary digits that write `x`; zero is written with one digit.
pub open spec fn min_digits(x: nat) -> nat
    decreases x,
{
    if x < 2 {
        1
    } else {
        1 + min_digits(x / 2)
    }
}

/// `s` brought to `n` digits: left-padded with low signals when shorter,
/// cut down to its rightmost `n` digits when longer.
pub open spec fn fit_width(s: Seq<bool>, n: nat) -> Seq<bool> {
    if s.len() <= n {
        zeros((n - s.len()) as nat) + s
    } else {
        s.subrange(s.len() - n, s.len() as int)
    }
}

pub proof fn lemma_two_pow_pos(n: nat)
    ensures
        two_pow(n) >= 1,
    decreases n,
{
    if n > 0 {
        lemma_two_pow_pos((n - 1) as nat);
    }
}

pub proof fn lemma_two_pow_add(a: nat, b: nat)
    ensures
        two_pow(a + b) == two_pow(a) * two_pow(b),
    decreases b,
{
    assert(two_pow(0) == 1);
    if b > 0 {
        let bm = (b - 1) as nat;
        lemma_two_pow_add(a, bm);
        assert(two_pow(a + b) == 2 * two_pow(a + bm));
        assert(two_pow(b) == 2 * two_pow(bm));
        let x = two_pow(a);
        let y = two_pow(bm);
        assert(2 * (x * y) == x * (2 * y)) by (nonlinear_arith);
        assert(two_pow(a + b) == x * two_pow(b));
    } else {
        assert(two_pow(a) * 1 == two_pow(a));
        assert(two_pow(a + b) == two_pow(a));
    }
}

pub proof fn lemma_two_pow_monotone(a: nat, b: nat)
    requires
        a <= b,
    ensures
        two_pow(a) <= two_pow(b),
    decreases b,
{
    if a < b {
        lemma_two_pow_monotone(a, (b - 1) as nat);
        lemma_two_pow_pos((b - 1) as nat);
    }
}

/// A value written with `n` digits is below `2^n`.
pub proof fn lemma_value_bound(s: Seq<bool>)
    ensures
        bits_value(s) < two_pow(s.len()),
    decreases s.len(),
{
    if s.len() > 0 {
        lemma_value_bound(s.drop_last());
    }
}

/// Placing a digit in front adds its weight.
pub proof fn lemma_value_prepend(b: bool, s: Seq<bool>)
    ensures
        bits_value(seq![b] + s) == digit(b) * two_pow(s.len()) + bits_value(s),
    decreases s.len(),
{
    let t = seq![b] + s;
    if s.len() == 0 {
        assert(t.drop_last() =~= Seq::<bool>::empty());
        assert(t.last() == b);
        assert(two_pow(s.len()) == 1);
        assert(digit(b) * two_pow(s.len()) == digit(b));
        assert(bits_value(t) == 2 * bits_value(t.drop_last()) + digit(b));
        assert(bits_value(t.drop_last()) == 0);
    } else {
        assert(t.drop_last() =~= seq![b] + s.drop_last());
        assert(t.last() == s.last());
        lemma_value_prepend(b, s.drop_last());
        let p = two_pow((s.len() - 1) as nat);
        assert(two_pow(s.len()) == 2 * p);
        assert(digit(b) * (2 * p) == 2 * (digit(b) * p)) by (nonlinear_arith);
        assert(bits_value(t) == 2 * bits_value(t.drop_last()) + digit(s.last()));
        assert(bits_value(s) == 2 * bits_value(s.drop_last()) + digit(s.last()));
    }
}

/// Concatenation: the left part is shifted by the width of the right part.
pub proof fn lemma_value_concat(a: Seq<bool>, b: Seq<bool>)
    ensures
        bits_value(a + b) == bits_value(a) * two_pow(b.len()) + bits_value(b),
    decreases b.len(),
{
    if b.len() == 0 {
        assert(a + b =~= a);
        assert(two_pow(0) == 1);
    } else {
        assert((a + b).drop_last() =~= a + b.drop_last());
        assert((a + b).last() == b.last());
        lemma_value_concat(a, b.drop_last());
        let p = two_pow((b.len() - 1) as nat);
        assert(two_pow(b.len()) == 2 * p);
        assert(2 * (bits_value(a) * p + bits_value(b.drop_last())) == bits_value(a) * (2 * p) + 2
            * bits_value(b.drop_last())) by (nonlinear_arith);
    }
}

/// Low signals are worth nothing.
pub proof fn lemma_zeros_value(n: nat)
    ensures
        bits_value(zeros(n)) == 0,
    decreases n,
{
    if n > 0 {
        assert(zeros(n).drop_last() =~= zeros((n - 1) as nat));
        lemma_zeros_value((n - 1) as nat);
    }
}

/// Leading low signals leave the value unchanged, whatever the width.
pub proof fn lemma_leading_zeros(n: nat, s: Seq<bool>)
    ensures
        bits_value(zeros(n) + s) == bits_value(s),
{
    lemma_value_concat(zeros(n), s);
    lemma_zeros_value(n);
}

/// Trailing low signals multiply the value by a power of two.
pub proof fn lemma_trailing_zeros(s: Seq<bool>, n: nat)
    ensures
        bits_value(s + zeros(n)) == bits_value(s) * two_pow(n),
{
    lemma_value_concat(s, zeros(n));
    lemma_zeros_value(n);
}

/// A prefix is worth no more than the whole sequence.
pub proof fn lemma_prefix_value_le(s: Seq<bool>, i: int)
    requires
        0 <= i <= s.len(),
    ensures
        bits_value(s.subrange(0, i)) <= bits_value(s),
{
    assert(s =~= s.subrange(0, i) + s.subrange(i, s.len() as int));
    lemma_value_concat(s.subrange(0, i), s.subrange(i, s.len() as int));
    lemma_two_pow_pos((s.len() - i) as nat);
    let p = bits_value(s.subrange(0, i));
    let q = two_pow((s.len() - i) as nat);
    assert(p <= p * q) by (nonlinear_arith)
        requires
            q >= 1,
    ;
}

/// Writing `x` with `n` digits and reading it back gives `x`.
pub proof fn lemma_int_to_bits_value(x: nat, n: nat)
    requires
        x < two_pow(n),
    ensures
        int_to_bits(x, n).len() == n,
        bits_value(int_to_bits(x, n)) == x,
    decreases n,
{
    if n > 0 {
        lemma_int_to_bits_value(x / 2, (n - 1) as nat);
        let s = int_to_bits(x, n);
        assert(s.drop_last() =~= int_to_bits(x / 2, (n - 1) as nat));
    }
}

/// `x` fits in its own minimal number of digits.
pub proof fn lemma_min_digits_fit(x: nat)
    ensures
        x < two_pow(min_digits(x)),
    decreases x,
{
    assert(two_pow(0) == 1);
    assert(two_pow(1) == 2);
    if x >= 2 {
        lemma_min_digits_fit(x / 2);
        assert(two_pow(min_digits(x)) == 2 * two_pow(min_digits(x / 2)));
    }
}

/// A value below `2^k` needs at most `k` digits.
pub proof fn lemma_min_digits_le(x: nat, k: nat)
    requires
        k >= 1,
        x < two_pow(k),
    ensures
        min_digits(x) <= k,
    decreases x,
{
    assert(two_pow(0) == 1);
    assert(two_pow(1) == 2);
    if x >= 2 {
        assert(two_pow(k) == 2 * two_pow((k - 1) as nat));
        lemma_min_digits_le(x / 2, (k - 1) as nat);
    }
}

/// Two sequences of one width with the same value are the same sequence.
pub proof fn lemma_value_injective(s: Seq<bool>, t: Seq<bool>)
    requires
        s.len() == t.len(),
        bits_value(s) == bits_value(t),
    ensures
        s == t,
    decreases s.len(),
{
    if s.len() > 0 {
        lemma_value_injective(s.drop_last(), t.drop_last());
        assert(s =~= s.drop_last().push(s.last()));
        assert(t =~= t.drop_last().push(t.last()));
    } else {
        assert(s =~= t);
    }
}

/// Bits of any two widths are equal exactly when their values are: padding
/// the narrower one with leading low signals changes nothing.
pub proof fn lemma_equal_by_value(s: Seq<bool>, t: Seq<bool>, n: nat)
    requires
        s.len() <= n,
        t.len() <= n,
    ensures
        (fit_width(s, n) == fit_width(t, n)) == (bits_value(s) == bits_value(t)),
{
    lemma_leading_zeros((n - s.len()) as nat, s);
    lemma_leading_zeros((n - t.len()) as nat, t);
    if bits_value(s) == bits_value(t) {
        lemma_value_injective(fit_width(s, n), fit_width(t, n));
    }
}

/// The `k` least significant digits of `s`.
pub open spec fn low_digits(s: Seq<bool>, k: nat) -> Seq<bool> {
    s.subrange(s.len() - k, s.len() as int)
}

/// One more low digit adds the next digit's weight.
pub proof fn lemma_low_digits_step(s: Seq<bool>, k: nat)
    requires
        k < s.len(),
    ensures
        low_digits(s, k + 1) =~= seq![s[s.len() - 1 - k]] + low_digits(s, k),
        bits_value(low_digits(s, k + 1)) == digit(s[s.len() - 1 - k]) * two_pow(k) + bits_value(
            low_digits(s, k),
        ),
{
    assert(low_digits(s, k + 1) =~= seq![s[s.len() - 1 - k]] + low_digits(s, k));
    lemma_value_prepend(s[s.len() - 1 - k], low_digits(s, k));
}

/// All the low digits are the whole sequence.
pub proof fn lemma_low_digits_all(s: Seq<bool>)
    ensures
        low_digits(s, s.len()) =~= s,
{
}

/// A value `x` that splits as `r + c * p` with `r < p` and a one-digit `c`
/// has `r` as remainder and `c` as overflow flag.
pub proof fn lemma_split_overflow(x: int, r: int, c: bool, p: int)
    requires
        p > 0,
        0 <= r < p,
        x == r + digit(c) * p,
    ensures
        r == x % p,
        c == (x >= p),
{
    vstd::arithmetic::div_mod::lemma_fundamental_div_mod_converse(x, p, digit(c) as int, r);
}

/// A value `x` that splits as `r - c * p` with `r < p` and a one-digit `c`
/// has `r` as (Euclidean) remainder and `c` as underflow flag.
pub proof fn lemma_split_underflow(x: int, r: int, c: bool, p: int)
    requires
        p > 0,
        0 <= r < p,
        x == r - digit(c) * p,
    ensures
        r == x % p,
        c == (x < 0),
{
    vstd::arithmetic::div_mod::lemma_fundamental_div_mod_converse(x, p, -digit(c) as int, r);
}

/// A fixed-width sequence of binary signals, most significant digit first.
pub struct Bits {
    size: u8,
    data: Vec<bool>,
}

impl View for Bits {
    type V = Seq<bool>;

    closed spec fn view(&self) -> Seq<bool> {
        self.data@
    }
}

impl Bits {
    #[verifier::type_invariant]
    spec fn inv(self) -> bool {
        self.data@.len() == self.size as nat
    }

    /// The width; it always fits in a `u8`.
    pub fn len(&self) -> (r: usize)
        ensures
            r == self@.len(),
            r <= 255,
    {
        proof {
            use_type_invariant(self);
        }
        self.data.len()
    }

    /// The signal at position `i`, counted from the most significant digit.
    pub fn get(&self, i: usize) -> (r: bool)
        requires
            i < self@.len(),
        ensures
            r == self@[i as int],
    {
        self.data[i]
    }

    fn from_fitted(data: Vec<bool>, size: u8) -> (r: Bits)
        requires
            data@.len() == size,
        ensures
            r@ == data@,
    {
        Bits { size, data }
    }

    pub fn from_vector_b(bools: Vec<bool>, size: Option<u8>) -> (r: Bits)
        requires
            size is None ==> bools@.len() <= 255,
        ensures
            r@ == fit_width(
                bools@,
                match size {
                    Some(n) => n as nat,
                    None => bools@.len(),
                },
            ),
    {
        Bits::from_slice_b(bools.as_slice(), size)
    }

    pub fn from_slice_b(bools: &[bool], size: Option<u8>) -> (r: Bits)
        requires
            size is None ==> bools@.len() <= 255,
        ensures
            r@ == fit_width(
                bools@,
                match size {
                    Some(n) => n as nat,
                    None => bools@.len(),
                },
            ),
    {
        let n: u8 = match size {
            Some(n) => n,
            None => bools.len() as u8,
        };
        let data = Bits::pad_to(bools, n as usize);
        Bits::from_fitted(data, n)
    }

    /// `bools` brought to `n` digits.
    fn pad_to(bools: &[bool], n: usize) -> (r: Vec<bool>)
        ensures
            r@ == fit_width(bools@, n as nat),
    {
        let len: usize = bools.len();
        let mut data: Vec<bool> = Vec::new();
        let start: usize;
        if len <= n {
            let padding: usize = n - len;
            let mut i: usize = 0;
            while i < padding
                invariant
                    i <= padding,
                    data@ =~= zeros(i as nat),
                decreases padding - i,
            {
                data.push(false);
                i = i + 1;
            }
            start = 0;
        } else {
            start = len - n;
        }
        let ghost pad = data@;
        let mut j: usize = start;
        while j < len
            invariant
                start <= j <= len,
                len == bools@.len(),
                data@ =~= pad + bools@.subrange(start as int, j as int),
            decreases len - j,
        {
            data.push(bools[j]);
            j = j + 1;
        }
        assert(data@ =~= fit_width(bools@, n as nat));
        data
    }

    /// Whether two digit sequences have the same value, whatever their widths.
    fn same_value(a: &[bool], b: &[bool]) -> (r: bool)
        ensures
            r == (bits_value(a@) == bits_value(b@)),
    {
        let n: usize = if a.len() < b.len() {
            b.len()
        } else {
            a.len()
        };
        let pa = Bits::pad_to(a, n);
        let pb = Bits::pad_to(b, n);
        proof {
            lemma_equal_by_value(a@, b@, n as nat);
        }
        let mut i: usize = 0;
        while i < n
            invariant
                i <= n,
                pa@.len() == n,
                pb@.len() == n,
                (pa@ == pb@) == (bits_value(a@) == bits_value(b@)),
                forall|t: int| 0 <= t < i ==> pa@[t] == pb@[t],
            decreases n - i,
        {
            if pa[i] != pb[i] {
                assert(pa@[i as int] != pb@[i as int]);
                return false;
            }
            i = i + 1;
        }
        assert(pa@ =~= pb@);
        true
    }

    pub fn from_slice_i(ints: &[u8], size: Option<u8>) -> (r: Bits)
        requires
            size is None ==> ints@.len() <= 255,
        ensures
            r@ == fit_width(
                ints@.map_values(|n: u8| n == 1),
                match size {
                    Some(n) => n as nat,
                    None => ints@.len(),
                },
            ),
    {
        let mut bools: Vec<bool> = Vec::new();
        let mut i: usize = 0;
        while i < ints.len()
            invariant
                i <= ints@.len(),
                bools@ =~= ints@.subrange(0, i as int).map_values(|n: u8| n == 1),
            decreases ints@.len() - i,
        {
            bools.push(ints[i] == 1);
            i = i + 1;
        }
        assert(ints@.subrange(0, ints@.len() as int) =~= ints@);
        Bits::from_vector_b(bools, size)
    }

    pub fn from_bits(bits: &Bits) -> (r: Bits)
        ensures
            r@ == bits@,
    {
        proof {
            use_type_invariant(bits);
        }
        Bits::from_fitted(bits.data.clone(), bits.size)
    }

    /// The `n` low digits of `x`, built from the most significant one down.
    fn digits_of(x: u32, n: u8) -> (r: Vec<bool>)
        ensures
            r@ == int_to_bits(x as nat, n as nat),
        decreases n,
    {
        if n == 0 {
            Vec::new()
        } else {
            let mut v = Bits::digits_of(x / 2, n - 1);
            v.push(x % 2 == 1);
            v
        }
    }

    /// The unsigned `value` written with `size` digits, or with as few digits
    /// as it needs when no size is given.
    pub fn from_int(value: u32, size: Option<u8>) -> (r: Bits)
        requires
            size matches Some(n) ==> value < two_pow(n as nat),
        ensures
            r@ == int_to_bits(
                value as nat,
                match size {
                    Some(n) => n as nat,
                    None => min_digits(value as nat),
                },
            ),
            r@.len() == match size {
                Some(n) => n as nat,
                None => min_digits(value as nat),
            },
            bits_value(r@) == value,
    {
        proof {
            reveal_with_fuel(two_pow, 33);
            lemma_min_digits_le(value as nat, 32);
        }
        let n: u8 = match size {
            Some(n) => n,
            None => {
                let mut w: u8 = 1;
                let mut t: u32 = value;
                while t >= 2
                    invariant
                        w as nat + min_digits(t as nat) == 1 + min_digits(value as nat),
                        min_digits(value as nat) <= 32,
                    decreases t,
                {
                    t = t / 2;
                    w = w + 1;
                }
                w
            },
        };
        proof {
            if size is None {
                lemma_min_digits_fit(value as nat);
            }
            lemma_int_to_bits_value(value as nat, n as nat);
        }
        let data = Bits::digits_of(value, n);
        Bits::from_fitted(data, n)
    }

    pub fn to_int(&self) -> (r: u32)
        requires
            bits_value(self@) <= u32::MAX,
        ensures
            r == bits_value(self@),
    {
        let mut acc: u32 = 0;
        let mut i: usize = 0;
        while i < self.data.len()
            invariant
                i <= self@.len(),
                self@ == self.data@,
                bits_value(self@) <= u32::MAX,
                acc == bits_value(self@.subrange(0, i as int)),
            decreases self@.len() - i,
        {
            proof {
                assert(self@.subrange(0, i + 1).drop_last() =~= self@.subrange(0, i as int));
                lemma_prefix_value_le(self@, i + 1);
            }
            acc = 2 * acc + if self.data[i] {
                1
            } else {
                0
            };
            i = i + 1;
        }
        assert(self@.subrange(0, i as int) =~= self@);
        acc
    }

    /// The signals, most significant first.
    pub fn iter(&self) -> (r: std::slice::Iter<'_, bool>)
        ensures
            vstd::std_specs::slice::into_iter_elts(r) == self@,
    {
        self.data.as_slice().iter()
    }

    pub fn data(&self) -> (r: Vec<bool>)
        ensures
            r@ == self@,
    {
        self.data.clone()
    }
}

/// Bits of two widths holding one value compare equal: written at the wider
/// width they are the same sequence of signals.
pub proof fn lemma_eq_ignores_width(a: &Bits, b: &Bits)
    requires
        bits_value(a@) == bits_value(b@),
    ensures
        a.eq_spec(b),
        ({
            let n = if a@.len() <= b@.len() {
                b@.len()
            } else {
                a@.len()
            };
            fit_width(a@, n) == fit_width(b@, n)
        }),
{
    let n = if a@.len() <= b@.len() {
        b@.len()
    } else {
        a@.len()
    };
    lemma_equal_by_value(a@, b@, n);
}

impl PartialEq for Bits {
    fn eq(&self, other: &Bits) -> bool {
        Bits::same_value(self.data.as_slice(), other.data.as_slice())
    }
}

impl vstd::std_specs::cmp::PartialEqSpecImpl for Bits {
    open spec fn obeys_eq_spec() -> bool {
        true
    }

    open spec fn eq_spec(&self, other: &Bits) -> bool {
        bits_value(self@) == bits_value(other@)
    }
}

impl<const N: usize> PartialEq<[bool; N]> for Bits {
    fn eq(&self, other: &[bool; N]) -> bool {
        Bits::same_value(self.data.as_slice(), other.as_slice())
    }
}

impl<const N: usize> vstd::std_specs::cmp::PartialEqSpecImpl<[bool; N]> for Bits {
    open spec fn obeys_eq_spec() -> bool {
        true
    }

    open spec fn eq_spec(&self, other: &[bool; N]) -> bool {
        bits_value(self@) == bits_value(other@)
    }
}

impl PartialEq<Vec<bool>> for Bits {
    fn eq(&self, other: &Vec<bool>) -> bool {
        Bits::same_value(self.data.as_slice(), other.as_slice())
    }
}

impl vstd::std_specs::cmp::PartialEqSpecImpl<Vec<bool>> for Bits {
    open spec fn obeys_eq_spec() -> bool {
        true
    }

    open spec fn eq_spec(&self, other: &Vec<bool>) -> bool {
        bits_value(self@) == bits_value(other@)
    }
}

impl<'a> PartialEq<&'a [bool]> for Bits {
    fn eq(&self, other: &&'a [bool]) -> bool {
        Bits::same_value(self.data.as_slice(), *other)
    }
}

impl<'a> vstd::std_specs::cmp::PartialEqSpecImpl<&'a [bool]> for Bits {
    open spec fn obeys_eq_spec() -> bool {
        true
    }

    open spec fn eq_spec(&self, other: &&'a [bool]) -> bool {
        bits_value(self@) == bits_value(other@)
    }
}

impl<'a, const N: usize> PartialEq<&'a [bool; N]> for Bits {
    fn eq(&self, other: &&'a [bool; N]) -> bool {
        Bits::same_value(self.data.as_slice(), other.as_slice())
    }
}

impl<'a, const N: usize> vstd::std_specs::cmp::PartialEqSpecImpl<&'a [bool; N]> for Bits {
    open spec fn obeys_eq_spec() -> bool {
        true
    }

    open spec fn eq_spec(&self, other: &&'a [bool; N]) -> bool {
        bits_value(self@) == bits_value(other@)
    }
}

} // verus!
