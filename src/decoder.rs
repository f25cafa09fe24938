use vstd::prelude::*;
use crate::bits::{bits_value, digit, fit_width, lemma_value_bound, lemma_value_prepend, two_pow, Bits};
use crate::gates::{And, And3, Not};

verus! {

/// The outputs of a decoder with `k` inputs holding `v`: `2^k` lines, of which
/// the one at position `2^k - 1 - v` (the `v`-th from the end) follows
/// `enable` and all others are low.
pub open spec fn decoded(k: nat, v: nat, enable: bool) -> Seq<bool> {
    Seq::new(two_pow(k), |j: int| enable && j == two_pow(k) - 1 - v)
}

/// A disabled decoder holds every line low; an enabled one holds exactly one
/// line high, the one for the input value.
pub proof fn lemma_decoded_one_hot(k: nat, v: nat, enable: bool)
    requires
        v < two_pow(k),
    ensures
        decoded(k, v, enable).len() == two_pow(k),
        !enable ==> forall|j: int| 0 <= j < two_pow(k) ==> !#[trigger] decoded(k, v, enable)[j],
        enable ==> decoded(k, v, enable)[two_pow(k) - 1 - v],
        enable ==> forall|j: int|
            0 <= j < two_pow(k) && j != two_pow(k) - 1 - v ==> !#[trigger] decoded(
                k,
                v,
                enable,
            )[j],
{
}

/// Splitting on the most significant input: the upper half decodes when it
/// is high, the lower half when it is low.
pub proof fn lemma_decoded_split(k: nat, msb: bool, rest: nat, enable: bool)
    requires
        rest < two_pow(k),
    ensures
        Seq::new(
            2 * two_pow(k),
            |j: int| enable && (decoded(k, rest, msb) + decoded(k, rest, !msb))[j],
        ) =~= decoded(k + 1, digit(msb) * two_pow(k) + rest, enable),
{
    assert(two_pow(k + 1) == 2 * two_pow(k));
}

/// Two-input decoder: two inverters and one three-input AND per output line,
/// each gated by `enable`.
pub struct Decoder2To4 {
    not0: Not,
    not1: Not,
    ands3: Vec<And3>,
}

impl Decoder2To4 {
    /// One AND gate for each of the four lines.
    pub closed spec fn wf(&self) -> bool {
        self.ands3@.len() == 4
    }

    /// The inverters take the two inputs; each AND gate combines one
    /// polarity of each input with `enable`, from the line for 0 to the
    /// line for 3.
    pub closed spec fn wired(&self, signal_a: bool, signal_b: bool, enable: bool) -> bool {
        &&& self.not0.wired(signal_a)
        &&& self.not1.wired(signal_b)
        &&& self.ands3@[0].wired(!signal_b, !signal_a, enable)
        &&& self.ands3@[1].wired(!signal_b, signal_a, enable)
        &&& self.ands3@[2].wired(signal_b, !signal_a, enable)
        &&& self.ands3@[3].wired(signal_b, signal_a, enable)
    }

    pub fn new() -> (r: Decoder2To4)
        ensures
            r.wf(),
    {
        let mut ands3: Vec<And3> = Vec::new();
        let mut i: usize = 0;
        while i < 4
            invariant
                i <= 4,
                ands3@.len() == i,
            decreases 4 - i,
        {
            ands3.push(And3::new());
            i = i + 1;
        }
        Decoder2To4 { not0: Not::new(), not1: Not::new(), ands3 }
    }

    /// Decodes the value `2 * signal_b + signal_a`.
    pub fn evaluate(&mut self, signal_a: &bool, signal_b: &bool, enable: bool) -> (r: Vec<bool>)
        requires
            old(self).wf(),
        ensures
            final(self).wf(),
            final(self).wired(*signal_a, *signal_b, enable),
            r@ == decoded(2, 2 * digit(*signal_b) + digit(*signal_a), enable),
    {
        let not0_result = self.not0.evaluate(*signal_a);
        let not1_result = self.not1.evaluate(*signal_b);

        let out0 = self.ands3[0].evaluate(not1_result, not0_result, enable);
        let out1 = self.ands3[1].evaluate(not1_result, *signal_a, enable);
        let out2 = self.ands3[2].evaluate(*signal_b, not0_result, enable);
        let out3 = self.ands3[3].evaluate(*signal_b, *signal_a, enable);

        let outputs = vec![out3, out2, out1, out0];
        proof {
            reveal_with_fuel(two_pow, 3);
            assert(outputs@ =~= decoded(2, 2 * digit(*signal_b) + digit(*signal_a), enable));
        }
        outputs
    }
}

/// An `n`-to-`2^n` decoder. Depth two is the base decoder; a deeper one
/// splits on its most significant input between two decoders of one less
/// depth and gates their joined outputs with `enable`.
pub struct Decoder {
    depth: u8,
    not: Not,
    ands: Option<Vec<And>>,
    lower_half_decoder: Option<Box<Decoder>>,
    upper_half_decoder: Option<Box<Decoder>>,
    decoder2to4: Option<Decoder2To4>,
}

impl Decoder {
    /// The number of inputs.
    pub closed spec fn inputs(&self) -> nat {
        self.depth as nat
    }

    /// Every node of depth above two owns two well-formed halves of one less
    /// depth and one AND gate per output; a node of depth two owns the base
    /// decoder.
    pub closed spec fn wf(&self) -> bool
        decreases self,
    {
        &&& 2 <= self.depth <= 7
        &&& if self.depth == 2 {
            match self.decoder2to4 {
                Some(base) => base.wf(),
                None => false,
            }
        } else {
            &&& match self.ands {
                Some(ands) => ands@.len() == two_pow(self.depth as nat),
                None => false,
            }
            &&& match self.lower_half_decoder {
                Some(lower) => lower.depth == self.depth - 1 && lower.wf(),
                None => false,
            }
            &&& match self.upper_half_decoder {
                Some(upper) => upper.depth == self.depth - 1 && upper.wf(),
                None => false,
            }
        }
    }

    pub fn new(depth: u8) -> (r: Decoder)
        requires
            2 <= depth <= 7,
        ensures
            r.wf(),
            r.inputs() == depth,
        decreases depth,
    {
        if depth == 2 {
            Decoder {
                depth,
                not: Not::new(),
                ands: None,
                lower_half_decoder: None,
                upper_half_decoder: None,
                decoder2to4: Some(Decoder2To4::new()),
            }
        } else {
            let mut bits_size: usize = 1;
            let mut k: u8 = 0;
            while k < depth
                invariant
                    k <= depth <= 7,
                    bits_size == two_pow(k as nat),
                decreases depth - k,
            {
                proof {
                    crate::bits::lemma_two_pow_monotone((k + 1) as nat, 7);
                    reveal_with_fuel(two_pow, 8);
                }
                bits_size = bits_size * 2;
                k = k + 1;
            }
            let mut ands: Vec<And> = Vec::new();
            let mut i: usize = 0;
            while i < bits_size
                invariant
                    i <= bits_size,
                    ands@.len() == i,
                decreases bits_size - i,
            {
                ands.push(And::new());
                i = i + 1;
            }

            let lower_half_decoder = Box::new(Decoder::new(depth - 1));
            let upper_half_decoder = Box::new(Decoder::new(depth - 1));

            Decoder {
                depth,
                not: Not::new(),
                ands: Some(ands),
                lower_half_decoder: Some(lower_half_decoder),
                upper_half_decoder: Some(upper_half_decoder),
                decoder2to4: None,
            }
        }
    }

    /// Each line passed through its own AND gate with `enable`.
    fn gate_lines(ands: &mut Vec<And>, lines: &Vec<bool>, enable: bool) -> (r: Vec<bool>)
        requires
            old(ands)@.len() == lines@.len(),
        ensures
            final(ands)@.len() == old(ands)@.len(),
            r@ == Seq::new(lines@.len(), |j: int| enable && lines@[j]),
    {
        let mut outputs: Vec<bool> = Vec::new();
        let mut i: usize = 0;
        while i < lines.len()
            invariant
                ands@.len() == lines@.len(),
                i <= lines@.len(),
                outputs@.len() == i,
                forall|t: int| 0 <= t < i ==> #[trigger] outputs@[t] == (enable && lines@[t]),
            decreases lines@.len() - i,
        {
            let gated = ands[i].evaluate(lines[i], enable);
            outputs.push(gated);
            i = i + 1;
        }
        assert(outputs@ =~= Seq::new(lines@.len(), |j: int| enable && lines@[j]));
        outputs
    }

    /// Exactly the line for the value of `inputs` follows `enable`.
    pub fn evaluate(&mut self, inputs: Bits, enable: bool) -> (r: Vec<bool>)
        requires
            old(self).wf(),
            inputs@.len() == old(self).inputs(),
        ensures
            final(self).wf(),
            final(self).inputs() == old(self).inputs(),
            r@ == decoded(inputs@.len(), bits_value(inputs@), enable),
        decreases old(self).inputs(),
    {
        if self.depth == 2 {
            let a = inputs.get(1);
            let b = inputs.get(0);
            proof {
                reveal_with_fuel(bits_value, 3);
                assert(inputs@.drop_last().drop_last() =~= Seq::<bool>::empty());
            }
            match &mut self.decoder2to4 {
                Some(decoder) => {
                    return decoder.evaluate(&a, &b, enable);
                },
                None => {
                    return Vec::new();
                },
            }
        }
        let n: usize = inputs.len();
        let msb = inputs.get(0);
        let mut rest_data: Vec<bool> = Vec::new();
        let mut k: usize = 1;
        while k < n
            invariant
                1 <= k <= n,
                n == inputs@.len(),
                rest_data@ =~= inputs@.subrange(1, k as int),
            decreases n - k,
        {
            rest_data.push(inputs.get(k));
            k = k + 1;
        }
        let ghost rest = rest_data@;
        let ghost half = two_pow((n - 1) as nat);
        proof {
            assert(inputs@ =~= seq![msb] + rest);
            lemma_value_prepend(msb, rest);
            lemma_value_bound(rest);
            assert(two_pow(n as nat) == 2 * half);
            assert(fit_width(rest, rest.len()) =~= rest);
        }
        let rest_copy = rest_data.clone();
        let not_result = self.not.evaluate(msb);
        let lower_result = match &mut self.lower_half_decoder {
            Some(lower) => lower.evaluate(Bits::from_vector_b(rest_data, None), not_result),
            None => Vec::new(),
        };
        let upper_result = match &mut self.upper_half_decoder {
            Some(upper) => upper.evaluate(Bits::from_vector_b(rest_copy, None), msb),
            None => Vec::new(),
        };
        let mut combined: Vec<bool> = upper_result;
        let mut lower_lines = lower_result;
        combined.append(&mut lower_lines);
        proof {
            lemma_decoded_split((n - 1) as nat, msb, bits_value(rest), enable);
        }
        let outputs = match &mut self.ands {
            Some(ands) => Decoder::gate_lines(ands, &combined, enable),
            None => Vec::new(),
        };
        outputs
    }
}

} // verus!
