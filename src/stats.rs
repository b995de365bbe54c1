//! Streaming moments of a population of signal-strength samples.
use vstd::prelude::*;

verus! {

/// The sum of the samples of `s`.
pub open spec fn sum_of(s: Seq<i16>) -> int
    decreases s.len(),
{
    if s.len() == 0 {
        0
    } else {
        sum_of(s.drop_last()) + s.last()
    }
}

/// The sum of the squares of the samples of `s`.
pub open spec fn squares_of(s: Seq<i16>) -> int
    decreases s.len(),
{
    if s.len() == 0 {
        0
    } else {
        squares_of(s.drop_last()) + s.last() * s.last()
    }
}

/// Count, sum and sum of squares of the samples seen so far, enough to give
/// their mean and variance without keeping them.
pub struct RssiStats {
    count: u32,
    sum: i64,
    sum_sq: u64,
    samples: Ghost<Seq<i16>>,
}

impl View for RssiStats {
    type V = Seq<i16>;

    /// The samples seen so far, in order.
    closed spec fn view(&self) -> Seq<i16> {
        self.samples@
    }
}

impl RssiStats {
    /// The moments agree with the samples seen.
    pub closed spec fn wf(&self) -> bool {
        &&& self.count == self.samples@.len()
        &&& self.sum == sum_of(self.samples@)
        &&& self.sum_sq == squares_of(self.samples@)
        &&& -32768 * self.count <= self.sum <= 32767 * self.count
        &&& self.sum_sq <= 1073741824 * self.count
    }

    /// An accumulator with no samples.
    pub fn new() -> (r: RssiStats)
        ensures
            r.wf(),
            r@ == Seq::<i16>::empty(),
    {
        RssiStats { count: 0, sum: 0, sum_sq: 0, samples: Ghost(Seq::empty()) }
    }

    /// Adds one sample.
    pub fn update(&mut self, v: i16)
        requires
            old(self).wf(),
            old(self)@.len() < u32::MAX,
        ensures
            final(self).wf(),
            final(self)@ == old(self)@.push(v),
    {
        let ghost s = self.samples@.push(v);
        assert(s.drop_last() =~= self.samples@);
        assert(v as int * v as int <= 1073741824) by (nonlinear_arith)
            requires
                -32768 <= v <= 32767,
        ;
        assert(v as int * v as int >= 0) by (nonlinear_arith);
        self.count = self.count + 1;
        self.sum = self.sum + v as i64;
        self.sum_sq = self.sum_sq + (v as i64 * v as i64) as u64;
        self.samples = Ghost(s);
    }

    /// How many samples were added.
    pub fn len(&self) -> (r: u32)
        requires
            self.wf(),
        ensures
            r == self@.len(),
    {
        self.count
    }

    /// Whether no sample was added: no data is available.
    pub fn is_empty(&self) -> (r: bool)
        requires
            self.wf(),
        ensures
            r == (self@.len() == 0),
    {
        self.count == 0
    }

    /// The sum of the samples.
    pub fn sum(&self) -> (r: i64)
        requires
            self.wf(),
        ensures
            r == sum_of(self@),
    {
        self.sum
    }

    /// The sum of the squares of the samples.
    pub fn sum_of_squares(&self) -> (r: u64)
        requires
            self.wf(),
        ensures
            r == squares_of(self@),
    {
        self.sum_sq
    }
}

} // verus!
