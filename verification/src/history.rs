//! Process-lifetime rings: the eight most recent positive layout-rail
//! positions, used to fill in missed detections with their mean, and the
//! eight most recent capture timestamps, used for the rolling FPS figure.

use vstd::prelude::*;

verus! {

/// Slots in each ring.
pub const HISTORY_LEN: usize = 8;

/// The sum of the positive entries of a slot sequence.
pub open spec fn pos_sum(s: Seq<i64>) -> int
    decreases s.len(),
{
    if s.len() == 0 {
        0
    } else {
        pos_sum(s.drop_last()) + if s.last() > 0 {
            s.last() as int
        } else {
            0
        }
    }
}

/// How many entries of a slot sequence are positive.
pub open spec fn pos_count(s: Seq<i64>) -> int
    decreases s.len(),
{
    if s.len() == 0 {
        0
    } else {
        pos_count(s.drop_last()) + if s.last() > 0 {
            1int
        } else {
            0int
        }
    }
}

/// A ring of the eight most recent positive layout-rail x positions; -1
/// marks an empty slot.
pub struct LayoutHistory {
    slots: Vec<i64>,
}

impl View for LayoutHistory {
    type V = Seq<i64>;

    closed spec fn view(&self) -> Seq<i64> {
        self.slots@
    }
}

impl LayoutHistory {
    /// Eight slots, each either empty (-1) or a recorded position that
    /// fitted a u32.
    pub open spec fn wf(&self) -> bool {
        self@.len() == 8 && forall|i: int| 0 <= i < 8 ==> -1 <= #[trigger] self@[i] <= u32::MAX
    }

    /// A ring with every slot empty.
    pub fn new() -> (h: LayoutHistory)
        ensures
            h.wf(),
            forall|i: int| 0 <= i < 8 ==> #[trigger] h@[i] == -1,
    {
        let mut slots: Vec<i64> = Vec::new();
        let mut i: usize = 0;
        while i < HISTORY_LEN
            invariant
                i <= 8,
                slots@.len() == i,
                forall|j: int| 0 <= j < i ==> #[trigger] slots@[j] == -1,
            decreases 8 - i,
        {
            slots.push(-1i64);
            i = i + 1;
        }
        LayoutHistory { slots }
    }

    /// Records a measured position into the slot of the given frame tick.
    pub fn record(&mut self, tick: usize, x: u32)
        requires
            old(self).wf(),
        ensures
            final(self).wf(),
            final(self)@ == old(self)@.update((tick % 8) as int, x as i64),
    {
        let i: usize = tick % HISTORY_LEN;
        self.slots[i] = x as i64;
    }

    /// The mean of the positive slots, when any slot is positive.
    pub fn mean(&self) -> (out: Option<u32>)
        requires
            self.wf(),
        ensures
            out == mean_spec(self@),
            out is Some <==> pos_count(self@) > 0,
            out matches Some(m) ==> m as int == pos_sum(self@) / pos_count(self@),
    {
        let mut sum: i64 = 0;
        let mut count: i64 = 0;
        let mut i: usize = 0;
        while i < HISTORY_LEN
            invariant
                self.wf(),
                i <= 8,
                sum == pos_sum(self@.take(i as int)),
                count == pos_count(self@.take(i as int)),
                0 <= count <= i,
                0 <= sum <= i * 0xffff_ffff,
            decreases 8 - i,
        {
            let v: i64 = self.slots[i];
            proof {
                assert(self@.take(i + 1).drop_last() =~= self@.take(i as int));
                assert(self@.take(i + 1).last() == self@[i as int]);
            }
            if v > 0 {
                sum = sum + v;
                count = count + 1;
            }
            i = i + 1;
        }
        proof {
            assert(self@.take(8) =~= self@);
        }
        if count > 0 {
            proof {
                lemma_pos_sum_bounded(self@);
                assert(sum / count <= 0xffff_ffff && sum / count >= 0) by (nonlinear_arith)
                    requires
                        0 <= sum,
                        1 <= count,
                        sum <= count * 0xffff_ffff,
                ;
            }
            let m: i64 = sum / count;
            Some(m as u32)
        } else {
            None
        }
    }

    /// The layout-rail x to use this frame: the measured value when the
    /// scan found one, else the mean of the remembered positive slots,
    /// else none.
    pub fn smoothed(&self, detected: Option<u32>) -> (out: Option<u32>)
        requires
            self.wf(),
        ensures
            out == smoothed_spec(self@, detected),
    {
        match detected {
            Some(x) => Some(x),
            None => self.mean(),
        }
    }

}

/// The mean of the positive slots of a history, when any is positive.
pub open spec fn mean_spec(s: Seq<i64>) -> Option<u32> {
    if pos_count(s) > 0 {
        Some((pos_sum(s) / pos_count(s)) as u32)
    } else {
        None
    }
}

/// The layout-rail x a history yields for a frame: the measured value
/// when there is one, else the history's mean.
pub open spec fn smoothed_spec(s: Seq<i64>, detected: Option<u32>) -> Option<u32> {
    match detected {
        Some(x) => Some(x),
        None => mean_spec(s),
    }
}

/// The positive slots sum to at most one u32 maximum per positive slot.
proof fn lemma_pos_sum_bounded(s: Seq<i64>)
    requires
        forall|i: int| 0 <= i < s.len() ==> #[trigger] s[i] <= u32::MAX,
    ensures
        0 <= pos_count(s),
        pos_sum(s) <= pos_count(s) * 0xffff_ffff,
        0 <= pos_sum(s),
    decreases s.len(),
{
    if s.len() > 0 {
        assert forall|i: int| 0 <= i < s.drop_last().len() implies #[trigger] s.drop_last()[i]
            <= u32::MAX by {
            assert(s.drop_last()[i] == s[i]);
        }
        lemma_pos_sum_bounded(s.drop_last());
        assert(pos_sum(s) <= pos_count(s) * 0xffff_ffff) by (nonlinear_arith)
            requires
                pos_sum(s.drop_last()) <= pos_count(s.drop_last()) * 0xffff_ffff,
                0 <= pos_count(s.drop_last()),
                pos_sum(s) == pos_sum(s.drop_last()) + if s.last() > 0 {
                    s.last() as int
                } else {
                    0
                },
                pos_count(s) == pos_count(s.drop_last()) + if s.last() > 0 {
                    1int
                } else {
                    0
                },
                s.last() <= u32::MAX,
        ;
    }
}

/// A history whose slots are all empty or zero yields no synthesized
/// position: the mean draws on positive slots alone.
pub proof fn lemma_all_empty_no_mean(s: Seq<i64>)
    requires
        forall|i: int| 0 <= i < s.len() ==> #[trigger] s[i] <= 0,
    ensures
        pos_count(s) == 0,
    decreases s.len(),
{
    if s.len() > 0 {
        assert forall|i: int| 0 <= i < s.drop_last().len() implies #[trigger] s.drop_last()[i]
            <= 0 by {
            assert(s.drop_last()[i] == s[i]);
        }
        lemma_all_empty_no_mean(s.drop_last());
    }
}

/// Slots that hold no positive value never affect the mean: overwriting a
/// non-positive slot with another non-positive value changes neither the
/// sum nor the count of the positive slots.
pub proof fn lemma_mean_ignores_empty(s: Seq<i64>, i: int, v: i64)
    requires
        0 <= i < s.len(),
        s[i] <= 0,
        v <= 0,
    ensures
        pos_sum(s.update(i, v)) == pos_sum(s),
        pos_count(s.update(i, v)) == pos_count(s),
    decreases s.len(),
{
    let t = s.update(i, v);
    if i == s.len() - 1 {
        assert(t.drop_last() =~= s.drop_last());
    } else {
        assert(t.drop_last() =~= s.drop_last().update(i, v));
        lemma_mean_ignores_empty(s.drop_last(), i, v);
        assert(t.last() == s.last());
    }
}

/// A ring of the eight most recent capture timestamps, in milliseconds.
pub struct FpsHistory {
    times: Vec<u64>,
}

impl View for FpsHistory {
    type V = Seq<u64>;

    closed spec fn view(&self) -> Seq<u64> {
        self.times@
    }
}

/// The total forward time, in milliseconds, across the first k adjacent
/// timestamp pairs; a pair that goes backwards contributes nothing.
pub open spec fn deltas_sum(s: Seq<u64>, k: int) -> int
    decreases k,
{
    if k <= 0 {
        0
    } else {
        deltas_sum(s, k - 1) + if s[k] >= s[k - 1] {
            s[k] - s[k - 1]
        } else {
            0
        }
    }
}

impl FpsHistory {
    pub open spec fn wf(&self) -> bool {
        self@.len() == 8
    }

    /// A ring with every timestamp zero.
    pub fn new() -> (h: FpsHistory)
        ensures
            h.wf(),
    {
        let mut times: Vec<u64> = Vec::new();
        let mut i: usize = 0;
        while i < HISTORY_LEN
            invariant
                i <= 8,
                times@.len() == i,
            decreases 8 - i,
        {
            times.push(0u64);
            i = i + 1;
        }
        FpsHistory { times }
    }

    /// Records a capture timestamp into the slot of the given frame tick.
    pub fn record(&mut self, tick: usize, t_ms: u64)
        requires
            old(self).wf(),
        ensures
            final(self).wf(),
            final(self)@ == old(self)@.update((tick % 8) as int, t_ms),
    {
        let i: usize = tick % HISTORY_LEN;
        self.times[i] = t_ms;
    }

    /// The rolling frame rate in hundredths of a frame per second: eight
    /// frames per total milliseconds across the ring's seven adjacent
    /// pairs, or nothing while that total is zero.
    pub fn fps_centi(&self) -> (out: Option<u32>)
        requires
            self.wf(),
        ensures
            out is None <==> deltas_sum(self@, 7) == 0,
            out matches Some(f) ==> f as int == 800000int / deltas_sum(self@, 7),
    {
        let mut total: u128 = 0;
        let mut k: usize = 1;
        while k < HISTORY_LEN
            invariant
                self.wf(),
                1 <= k <= 8,
                total == deltas_sum(self@, k as int - 1),
                total <= (k - 1) * 0xffff_ffff_ffff_ffff,
            decreases 8 - k,
        {
            let prev: u64 = self.times[k - 1];
            let cur: u64 = self.times[k];
            if cur >= prev {
                total = total + (cur - prev) as u128;
            }
            k = k + 1;
        }
        if total == 0 {
            None
        } else {
            let f: u128 = 800000u128 / total;
            Some(f as u32)
        }
    }
}

} // verus!
