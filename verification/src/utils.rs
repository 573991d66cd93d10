//! A rolling average of episode rewards over a fixed window.

use vstd::prelude::*;

verus! {

/// Number of values that the average runs over.
pub const AVERAGE_WINDOW_SIZE: usize = 100;

/// Sum of the values.
pub open spec fn sum_of(values: Seq<i64>) -> int
    decreases values.len(),
{
    if values.len() == 0 {
        0
    } else {
        sum_of(values.drop_last()) + values.last()
    }
}

/// The window after a value arrives: a full window drops its oldest value.
pub open spec fn slid(window: Seq<i64>, value: i64) -> Seq<i64> {
    if window.len() < AVERAGE_WINDOW_SIZE {
        window.push(value)
    } else {
        window.drop_first().push(value)
    }
}

/// The mean of the values, rounded towards zero.
pub open spec fn mean_of(values: Seq<i64>) -> int {
    if sum_of(values) >= 0 {
        sum_of(values) / (values.len() as int)
    } else {
        -((-sum_of(values)) / (values.len() as int))
    }
}

proof fn lemma_sum_bounds(values: Seq<i64>)
    ensures
        -0x8000_0000_0000_0000 * values.len() <= sum_of(values) <= 0x7fff_ffff_ffff_ffff
            * values.len(),
    decreases values.len(),
{
    if values.len() > 0 {
        lemma_sum_bounds(values.drop_last());
    }
}

proof fn lemma_sum_drop_first(values: Seq<i64>)
    requires
        values.len() > 0,
    ensures
        sum_of(values.drop_first()) == sum_of(values) - values[0],
    decreases values.len(),
{
    if values.len() == 1 {
        assert(values.drop_first() =~= Seq::<i64>::empty());
        assert(values.drop_last() =~= Seq::<i64>::empty());
    } else {
        lemma_sum_drop_first(values.drop_last());
        assert(values.drop_first().drop_last() =~= values.drop_last().drop_first());
    }
}

/// The mean of a window lies between the least and the greatest of what an
/// `i64` holds, so it is one itself.
proof fn lemma_mean_fits(values: Seq<i64>)
    requires
        values.len() > 0,
    ensures
        -0x8000_0000_0000_0000 <= mean_of(values) <= 0x7fff_ffff_ffff_ffff,
{
    lemma_sum_bounds(values);
    let n = values.len() as int;
    let s = sum_of(values);
    if s >= 0 {
        assert(s / n <= 0x7fff_ffff_ffff_ffff) by (nonlinear_arith)
            requires
                0 <= s <= 0x7fff_ffff_ffff_ffff * n,
                n > 0,
        ;
        assert(s / n >= 0) by (nonlinear_arith)
            requires
                0 <= s,
                n > 0,
        ;
    } else {
        assert((-s) / n <= 0x8000_0000_0000_0000) by (nonlinear_arith)
            requires
                0 <= -s <= 0x8000_0000_0000_0000 * n,
                n > 0,
        ;
        assert((-s) / n >= 0) by (nonlinear_arith)
            requires
                0 <= -s,
                n > 0,
        ;
    }
}

/// The last values pushed, at most [`AVERAGE_WINDOW_SIZE`] of them, with
/// their running sum.
pub struct RollingAverage {
    buf: Vec<i64>,
    idx: usize,
    len: usize,
    sum: i128,
}

impl View for RollingAverage {
    type V = Seq<i64>;

    /// The values of the window, oldest first.
    closed spec fn view(&self) -> Seq<i64> {
        if self.len < AVERAGE_WINDOW_SIZE {
            self.buf@.take(self.len as int)
        } else {
            self.buf@.subrange(self.idx as int, AVERAGE_WINDOW_SIZE as int) + self.buf@.take(
                self.idx as int,
            )
        }
    }
}

impl RollingAverage {
    pub closed spec fn wf(&self) -> bool {
        &&& self.buf@.len() == AVERAGE_WINDOW_SIZE
        &&& self.idx < AVERAGE_WINDOW_SIZE
        &&& self.len <= AVERAGE_WINDOW_SIZE
        &&& self.len < AVERAGE_WINDOW_SIZE ==> self.idx == self.len
        &&& self.sum == sum_of(self@)
    }

    /// An empty window.
    pub fn new() -> (average: Self)
        ensures
            average.wf(),
            average@ == Seq::<i64>::empty(),
    {
        let average = RollingAverage { buf: vec![0i64; AVERAGE_WINDOW_SIZE], idx: 0, len: 0, sum: 0 };
        assert(average@ =~= Seq::<i64>::empty());
        average
    }

    /// Adds a value; a full window loses its oldest.
    pub fn push(&mut self, value: i64)
        requires
            old(self).wf(),
        ensures
            final(self).wf(),
            final(self)@ == slid(old(self)@, value),
    {
        proof {
            lemma_sum_bounds(self@);
            if self.len == AVERAGE_WINDOW_SIZE {
                lemma_sum_drop_first(self@);
                lemma_sum_bounds(self@.drop_first());
            }
        }
        if self.len == AVERAGE_WINDOW_SIZE {
            assert(self@[0] == self.buf@[self.idx as int]);
            self.sum = self.sum - self.buf[self.idx] as i128;
        } else {
            self.len += 1;
        }
        self.buf[self.idx] = value;
        self.sum = self.sum + value as i128;
        self.idx = (self.idx + 1) % AVERAGE_WINDOW_SIZE;
        proof {
            assert(self@ =~= slid(old(self)@, value));
            assert(slid(old(self)@, value).drop_last() =~= if old(self)@.len()
                < AVERAGE_WINDOW_SIZE {
                old(self)@
            } else {
                old(self)@.drop_first()
            });
        }
    }

    /// Number of values in the window.
    pub fn len(&self) -> (len: usize)
        requires
            self.wf(),
        ensures
            len == self@.len(),
    {
        self.len
    }

    /// Sum of the values in the window.
    pub fn total(&self) -> (total: i128)
        requires
            self.wf(),
        ensures
            total == sum_of(self@),
    {
        self.sum
    }

    /// The mean of the window, rounded towards zero; nothing for an empty
    /// window.
    pub fn average(&self) -> (mean: Option<i64>)
        requires
            self.wf(),
        ensures
            mean is None <==> self@.len() == 0,
            mean matches Some(m) ==> m == mean_of(self@),
    {
        if self.len == 0 {
            return None;
        }
        proof {
            lemma_sum_bounds(self@);
            lemma_mean_fits(self@);
        }
        let count: u128 = self.len as u128;
        if self.sum >= 0 {
            Some((self.sum as u128 / count) as i64)
        } else {
            let magnitude: u128 = (-self.sum) as u128;
            Some((-((magnitude / count) as i128)) as i64)
        }
    }
}

} // verus!
