use vstd::prelude::*;

use crate::track_id::{TrackId, NUM_TRACKS};

verus! {

/// `a + b`, held at `u64::MAX` instead of overflowing.
pub open spec fn sat_add(a: u64, b: u64) -> u64 {
    if a + b > u64::MAX {
        u64::MAX
    } else {
        (a + b) as u64
    }
}

/// Position of `cnt` inside a loop of length `len` (0 when there is no loop).
pub open spec fn spec_relative(cnt: u64, len: u64) -> u64 {
    if len == 0 {
        0
    } else {
        (cnt % len) as u64
    }
}

/// Absolute index of the next loop boundary strictly after `cnt`
/// (0 when there is no loop), held at `u64::MAX`.
pub open spec fn spec_next_loop(cnt: u64, len: u64) -> u64 {
    if len == 0 {
        0
    } else {
        sat_add(sat_add(cnt, (len - cnt % len) as u64), 1)
    }
}

/// What a `GlobalCounter` holds: the sample rate and, per track index, the
/// running sample count and the loop length.
pub struct CounterView {
    pub sample_rate: u64,
    pub cnt: Seq<u64>,
    pub len: Seq<u64>,
}

impl CounterView {
    pub open spec fn absolute(self, id: TrackId) -> u64 {
        self.cnt[id.spec_index()]
    }

    pub open spec fn get_len(self, id: TrackId) -> u64 {
        self.len[id.spec_index()]
    }

    pub open spec fn relative(self, id: TrackId) -> u64 {
        spec_relative(self.absolute(id), self.get_len(id))
    }

    pub open spec fn next_loop(self, id: TrackId) -> u64 {
        spec_next_loop(self.absolute(id), self.get_len(id))
    }

    pub open spec fn wf(self) -> bool {
        self.cnt.len() == NUM_TRACKS && self.len.len() == NUM_TRACKS
    }

    /// The same counters with the count of `id` replaced by `v`.
    pub open spec fn with_cnt(self, id: TrackId, v: u64) -> CounterView {
        CounterView { cnt: self.cnt.update(id.spec_index(), v), ..self }
    }

    /// The same counters with the loop length of `id` replaced by `v`.
    pub open spec fn with_len(self, id: TrackId, v: u64) -> CounterView {
        CounterView { len: self.len.update(id.spec_index(), v), ..self }
    }

    /// Every count advanced by `amount`.
    pub open spec fn advanced_by(self, amount: u64) -> CounterView {
        CounterView { cnt: Seq::new(self.cnt.len(), |i: int| sat_add(self.cnt[i], amount)), ..self }
    }
}

#[derive(Debug, Clone, Copy)]
struct WrappedCounter {
    cnt: u64,
    len: u64,
}

/// Per-track sample counters and loop lengths shared by all tracks.
///
/// Counts saturate at `u64::MAX` rather than wrap.
#[derive(Debug, Clone, Copy)]
pub struct GlobalCounter {
    sample_rate: u64,
    counters: [WrappedCounter; NUM_TRACKS],
}

impl View for GlobalCounter {
    type V = CounterView;

    closed spec fn view(&self) -> CounterView {
        CounterView {
            sample_rate: self.sample_rate,
            cnt: Seq::new(NUM_TRACKS as nat, |i: int| self.counters@[i].cnt),
            len: Seq::new(NUM_TRACKS as nat, |i: int| self.counters@[i].len),
        }
    }
}

impl GlobalCounter {
    /// Counters at zero, with no loops yet.
    pub fn new(sample_rate: u64) -> (r: GlobalCounter)
        ensures
            r@.wf(),
            r@.sample_rate == sample_rate,
            forall|id: TrackId| r@.absolute(id) == 0 && r@.get_len(id) == 0,
    {
        let z = WrappedCounter { cnt: 0, len: 0 };
        GlobalCounter { sample_rate, counters: [z, z, z, z] }
    }

    pub proof fn lemma_wf(&self)
        ensures
            self@.wf(),
    {
    }

    pub fn sample_rate(&self) -> (r: u64)
        ensures
            r == self@.sample_rate,
    {
        self.sample_rate
    }

    /// Puts the counter of `ctr_id` back to its initial state: no count and
    /// no loop.
    pub fn register(&mut self, ctr_id: TrackId)
        ensures
            final(self)@ == old(self)@.with_cnt(ctr_id, 0).with_len(ctr_id, 0),
    {
        let i = ctr_id.index();
        self.counters[i] = WrappedCounter { cnt: 0, len: 0 };
        assert(final(self)@.cnt =~= old(self)@.cnt.update(i as int, 0));
        assert(final(self)@.len =~= old(self)@.len.update(i as int, 0));
    }

    /// Advances the count of one track by `amount`.
    pub fn advance(&mut self, ctr_id: TrackId, amount: u64)
        ensures
            final(self)@ == old(self)@.with_cnt(ctr_id, sat_add(old(self)@.absolute(ctr_id), amount)),
    {
        let i = ctr_id.index();
        let mut c = self.counters[i];
        c.cnt = c.cnt.saturating_add(amount);
        self.counters[i] = c;
        assert(final(self)@.cnt =~= old(self)@.cnt.update(i as int, c.cnt));
        assert(final(self)@.len =~= old(self)@.len);
    }

    /// Advances every count by `amount`; called once per tick.
    pub fn advance_all(&mut self, amount: u64)
        ensures
            final(self)@ == old(self)@.advanced_by(amount),
            forall|id: TrackId| final(self)@.absolute(id) >= old(self)@.absolute(id),
    {
        let mut i: usize = 0;
        while i < NUM_TRACKS
            invariant
                i <= NUM_TRACKS,
                self.sample_rate == old(self).sample_rate,
                forall|j: int| 0 <= j < i ==> self.counters@[j].cnt == sat_add(old(self).counters@[j].cnt, amount),
                forall|j: int| i <= j < NUM_TRACKS ==> self.counters@[j].cnt == old(self).counters@[j].cnt,
                forall|j: int| 0 <= j < NUM_TRACKS ==> self.counters@[j].len == old(self).counters@[j].len,
            decreases NUM_TRACKS - i,
        {
            let mut c = self.counters[i];
            c.cnt = c.cnt.saturating_add(amount);
            self.counters[i] = c;
            i = i + 1;
        }
        assert(final(self)@.cnt =~= old(self)@.advanced_by(amount).cnt);
        assert(final(self)@.len =~= old(self)@.len);
    }

    /// Sets the count of one track to `amount`.
    pub fn reset_to(&mut self, ctr_id: TrackId, amount: u64)
        ensures
            final(self)@ == old(self)@.with_cnt(ctr_id, amount),
    {
        let i = ctr_id.index();
        let mut c = self.counters[i];
        c.cnt = amount;
        self.counters[i] = c;
        assert(final(self)@.cnt =~= old(self)@.cnt.update(i as int, amount));
        assert(final(self)@.len =~= old(self)@.len);
    }

    /// Sets the loop length of one track.
    pub fn set_len(&mut self, ctr_id: TrackId, len: u64)
        ensures
            final(self)@ == old(self)@.with_len(ctr_id, len),
    {
        let i = ctr_id.index();
        let mut c = self.counters[i];
        c.len = len;
        self.counters[i] = c;
        assert(final(self)@.len =~= old(self)@.len.update(i as int, len));
        assert(final(self)@.cnt =~= old(self)@.cnt);
    }

    pub fn get_len(&self, ctr_id: TrackId) -> (r: u64)
        ensures
            r == self@.get_len(ctr_id),
    {
        self.counters[ctr_id.index()].len
    }

    pub fn absolute(&self, ctr_id: TrackId) -> (r: u64)
        ensures
            r == self@.absolute(ctr_id),
    {
        self.counters[ctr_id.index()].cnt
    }

    /// `absolute(id) mod len(id)`, or 0 when the track has no loop.
    pub fn relative(&self, ctr_id: TrackId) -> (r: u64)
        ensures
            r == self@.relative(ctr_id),
    {
        let c = self.counters[ctr_id.index()];
        if c.len == 0 {
            return 0;
        }
        c.cnt % c.len
    }

    /// Absolute index of the next loop boundary of `ctr_id`, strictly after
    /// now: `cnt + (len - cnt mod len) + 1`, or 0 when the track has no loop.
    pub fn get_next_loop(&self, ctr_id: TrackId) -> (r: u64)
        ensures
            r == self@.next_loop(ctr_id),
            self@.get_len(ctr_id) > 0 && self@.absolute(ctr_id) as int + self@.get_len(ctr_id) + 1
                <= u64::MAX ==> r as int == self@.absolute(ctr_id) + (self@.get_len(ctr_id)
                - self@.relative(ctr_id)) + 1,
            self@.get_len(ctr_id) > 0 ==> r > self@.absolute(ctr_id) || r == u64::MAX,
    {
        let c = self.counters[ctr_id.index()];
        if c.len == 0 {
            return 0;
        }
        let gap = c.len - c.cnt % c.len;
        c.cnt.saturating_add(gap).saturating_add(1)
    }
}

} // verus!
