use vstd::prelude::*;
use crate::bits::{fit_width, zeros, Bits};
use crate::flip_flop::{random_signal, DFlipFlop};

verus! {

/// Parallel-in, parallel-out register: one D latch per digit.
pub struct PIPORegister {
    size: u8,
    d_flip_flops: Vec<DFlipFlop>,
    ds: Vec<bool>,
}

impl PIPORegister {
    /// One latch and one pending input for each digit.
    pub closed spec fn wf(&self) -> bool {
        &&& self.d_flip_flops@.len() == self.size
        &&& self.ds@.len() == self.size
    }

    /// The number of digits.
    pub closed spec fn width(&self) -> nat {
        self.size as nat
    }

    /// The stored digits, most significant first. Latch `k` holds the digit
    /// of weight `2^k`.
    pub closed spec fn contents(&self) -> Seq<bool> {
        Seq::new(self.size as nat, |j: int| self.d_flip_flops@[self.size - 1 - j].q_out())
    }

    /// The pending input, most significant first.
    pub closed spec fn pending(&self) -> Seq<bool> {
        Seq::new(self.size as nat, |j: int| self.ds@[self.size - 1 - j])
    }

    /// A register in an undefined power-on state.
    pub fn new(size: u8) -> (r: PIPORegister)
        ensures
            r.wf(),
            r.width() == size,
    {
        let mut d_flip_flops: Vec<DFlipFlop> = Vec::new();
        let mut ds: Vec<bool> = Vec::new();
        let mut i: u8 = 0;
        while i < size
            invariant
                i <= size,
                d_flip_flops@.len() == i,
                ds@.len() == i,
            decreases size - i,
        {
            d_flip_flops.push(DFlipFlop::new());
            ds.push(random_signal());
            i = i + 1;
        }
        PIPORegister { size, d_flip_flops, ds }
    }

    pub fn output(&mut self) -> (r: Bits)
        requires
            old(self).wf(),
        ensures
            r@ == old(self).contents(),
            *final(self) == *old(self),
    {
        let n: usize = self.size as usize;
        let mut data: Vec<bool> = Vec::new();
        let mut j: usize = 0;
        while j < n
            invariant
                self.wf(),
                n == self.size,
                j <= n,
                data@.len() == j,
                forall|t: int| 0 <= t < j ==> #[trigger] data@[t] == self.contents()[t],
            decreases n - j,
        {
            data.push(self.d_flip_flops[n - 1 - j].stored());
            j = j + 1;
        }
        assert(data@ =~= self.contents());
        assert(fit_width(data@, data@.len()) =~= data@);
        Bits::from_vector_b(data, None)
    }

    /// Clears every latch and the pending input.
    pub fn reset_states(&mut self)
        requires
            old(self).wf(),
        ensures
            final(self).wf(),
            final(self).width() == old(self).width(),
            final(self).contents() == zeros(old(self).width()),
            final(self).pending() == zeros(old(self).width()),
    {
        let n: usize = self.size as usize;
        let ghost size0 = self.size;
        let mut k: usize = 0;
        while k < n
            invariant
                self.wf(),
                self.size == size0,
                n == size0,
                k <= n,
                forall|t: int| 0 <= t < k ==> !(#[trigger] self.d_flip_flops@[t]).q_out(),
            decreases n - k,
        {
            self.d_flip_flops[k].reset_states();
            k = k + 1;
        }
        let mut ds: Vec<bool> = Vec::new();
        let mut i: usize = 0;
        while i < n
            invariant
                i <= n,
                ds@ =~= zeros(i as nat),
            decreases n - i,
        {
            ds.push(false);
            i = i + 1;
        }
        self.ds = ds;
        assert(self.contents() =~= zeros(size0 as nat));
        assert(self.pending() =~= zeros(size0 as nat));
    }

    /// Loads the pending input, most significant digit first.
    pub fn set_d(&mut self, ds: &[bool])
        requires
            old(self).wf(),
            ds@.len() == old(self).width(),
        ensures
            final(self).wf(),
            final(self).width() == old(self).width(),
            final(self).pending() == ds@,
            final(self).contents() == old(self).contents(),
    {
        let n: usize = ds.len();
        let mut reversed: Vec<bool> = Vec::new();
        let mut j: usize = 0;
        while j < n
            invariant
                n == ds@.len(),
                j <= n,
                reversed@.len() == j,
                forall|t: int| 0 <= t < j ==> #[trigger] reversed@[t] == ds@[n - 1 - t],
            decreases n - j,
        {
            reversed.push(ds[n - 1 - j]);
            j = j + 1;
        }
        self.ds = reversed;
        assert(self.pending() =~= ds@);
        assert(self.contents() =~= old(self).contents());
    }

    /// One clock tick of every latch: with the clock enabled the register
    /// takes the pending input, otherwise it keeps its contents.
    pub fn clock_tick(&mut self, enable: bool) -> (r: Bits)
        requires
            old(self).wf(),
        ensures
            final(self).wf(),
            final(self).width() == old(self).width(),
            final(self).pending() == old(self).pending(),
            final(self).contents() == if enable {
                old(self).pending()
            } else {
                old(self).contents()
            },
            r@ == final(self).contents(),
    {
        let n: usize = self.size as usize;
        let ghost size0 = self.size;
        let ghost ds0 = self.ds@;
        let ghost q0 = Seq::new(n as nat, |t: int| self.d_flip_flops@[t].q_out());
        let mut k: usize = 0;
        while k < n
            invariant
                self.wf(),
                self.size == size0,
                self.ds@ == ds0,
                n == size0,
                q0.len() == n,
                k <= n,
                forall|t: int|
                    0 <= t < k ==> (#[trigger] self.d_flip_flops@[t]).q_out() == if enable {
                        ds0[t]
                    } else {
                        q0[t]
                    },
                forall|t: int| k <= t < n ==> (#[trigger] self.d_flip_flops@[t]).q_out() == q0[t],
            decreases n - k,
        {
            let d = self.ds[k];
            self.d_flip_flops[k].set_d(d);
            self.d_flip_flops[k].clock_tick(enable);
            k = k + 1;
        }
        proof {
            if enable {
                assert(self.contents() =~= old(self).pending());
            } else {
                assert(self.contents() =~= old(self).contents());
            }
        }
        self.output()
    }
}

} // verus!
