use vstd::prelude::*;

verus! {

/// Which loop boundary to move to.
#[derive(Debug, Clone, Copy, PartialEq, Eq, Structural)]
pub enum RelativeCnt {
    Start,
    End,
}

/// A counter that only grows, read against a configurable loop length.
#[derive(Debug, Clone, Copy)]
pub struct MonotonicCtr {
    pub cnt: usize,
    pub len: usize,
}

impl Default for MonotonicCtr {
    fn default() -> (r: MonotonicCtr)
        ensures
            r.cnt == 0 && r.len == 0,
    {
        MonotonicCtr { cnt: 0, len: 0 }
    }
}

/// Room to move `cnt` one past the end of its loop of length `len` (no loop
/// needs no room).
pub open spec fn start_fits(cnt: usize, len: usize) -> bool {
    len == 0 || cnt + len + 1 <= usize::MAX
}

/// Room to move `cnt` to the end of its loop of length `len` (no loop needs
/// no room).
pub open spec fn end_fits(cnt: usize, len: usize) -> bool {
    len == 0 || cnt + len <= usize::MAX
}

impl MonotonicCtr {
    pub open spec fn spec_next_end(self) -> MonotonicCtr {
        if self.len == 0 {
            MonotonicCtr { cnt: 0, len: 0 }
        } else {
            MonotonicCtr { cnt: (self.len - self.cnt % self.len + self.cnt) as usize, len: self.len }
        }
    }

    pub open spec fn spec_next_start(self) -> MonotonicCtr {
        if self.len == 0 {
            MonotonicCtr { cnt: 0, len: 0 }
        } else {
            MonotonicCtr { cnt: (self.len - self.cnt % self.len + self.cnt + 1) as usize, len: self.len }
        }
    }

    /// The counter moved to the start or the end of the current loop.
    pub fn from_rel(&self, rel: RelativeCnt) -> (r: MonotonicCtr)
        requires
            rel == RelativeCnt::Start ==> start_fits(self.cnt, self.len),
            rel == RelativeCnt::End ==> end_fits(self.cnt, self.len),
        ensures
            r == (match rel {
                RelativeCnt::Start => self.spec_next_start(),
                RelativeCnt::End => self.spec_next_end(),
            }),
    {
        match rel {
            RelativeCnt::Start => self.next_start(),
            RelativeCnt::End => self.next_end(),
        }
    }

    /// The counter one past the end of the current loop: the start of the
    /// next one. With no loop, a zero counter.
    pub fn next_start(&self) -> (r: MonotonicCtr)
        requires
            start_fits(self.cnt, self.len),
        ensures
            r == self.spec_next_start(),
    {
        if self.len == 0 {
            return MonotonicCtr { cnt: 0, len: 0 };
        }
        MonotonicCtr { cnt: (self.len - (self.cnt % self.len)) + self.cnt + 1, len: self.len }
    }

    /// The counter at the end of the current loop. With no loop, a zero
    /// counter.
    pub fn next_end(&self) -> (r: MonotonicCtr)
        requires
            end_fits(self.cnt, self.len),
        ensures
            r == self.spec_next_end(),
    {
        if self.len == 0 {
            return MonotonicCtr { cnt: 0, len: 0 };
        }
        MonotonicCtr { cnt: (self.len - (self.cnt % self.len)) + self.cnt, len: self.len }
    }

    pub fn set_len(&mut self, len: usize)
        ensures
            final(self).len == len,
            final(self).cnt == old(self).cnt,
    {
        self.len = len;
    }
}

impl std::ops::Add<usize> for MonotonicCtr {
    type Output = MonotonicCtr;

    fn add(self, rhs: usize) -> (r: MonotonicCtr) {
        MonotonicCtr { cnt: self.cnt + rhs, len: self.len }
    }
}

impl vstd::std_specs::ops::AddSpecImpl<usize> for MonotonicCtr {
    open spec fn obeys_add_spec() -> bool {
        true
    }

    open spec fn add_req(self, rhs: usize) -> bool {
        self.cnt + rhs <= usize::MAX
    }

    open spec fn add_spec(self, rhs: usize) -> MonotonicCtr {
        MonotonicCtr { cnt: (self.cnt + rhs) as usize, len: self.len }
    }
}

impl std::ops::Sub for MonotonicCtr {
    type Output = usize;

    /// The distance from `rhs` up to `self`, 0 when `rhs` is ahead.
    fn sub(self, rhs: MonotonicCtr) -> (r: usize) {
        if self.cnt < rhs.cnt {
            0
        } else {
            self.cnt - rhs.cnt
        }
    }
}

impl vstd::std_specs::ops::SubSpecImpl for MonotonicCtr {
    open spec fn obeys_sub_spec() -> bool {
        true
    }

    open spec fn sub_req(self, rhs: MonotonicCtr) -> bool {
        true
    }

    open spec fn sub_spec(self, rhs: MonotonicCtr) -> usize {
        if self.cnt < rhs.cnt {
            0
        } else {
            (self.cnt - rhs.cnt) as usize
        }
    }
}

impl PartialEq for MonotonicCtr {
    /// Counters compare by count alone.
    fn eq(&self, other: &MonotonicCtr) -> (r: bool) {
        self.cnt == other.cnt
    }
}

impl vstd::std_specs::cmp::PartialEqSpecImpl for MonotonicCtr {
    open spec fn obeys_eq_spec() -> bool {
        true
    }

    open spec fn eq_spec(&self, other: &MonotonicCtr) -> bool {
        self.cnt == other.cnt
    }
}

impl PartialOrd for MonotonicCtr {
    /// Counters are ordered by count alone.
    fn partial_cmp(&self, other: &MonotonicCtr) -> (r: Option<std::cmp::Ordering>) {
        if self.cnt < other.cnt {
            Some(std::cmp::Ordering::Less)
        } else if self.cnt == other.cnt {
            Some(std::cmp::Ordering::Equal)
        } else {
            Some(std::cmp::Ordering::Greater)
        }
    }
}

impl vstd::std_specs::cmp::PartialOrdSpecImpl for MonotonicCtr {
    open spec fn obeys_partial_cmp_spec() -> bool {
        true
    }

    open spec fn partial_cmp_spec(&self, other: &MonotonicCtr) -> Option<std::cmp::Ordering> {
        if self.cnt < other.cnt {
            Some(std::cmp::Ordering::Less)
        } else if self.cnt == other.cnt {
            Some(std::cmp::Ordering::Equal)
        } else {
            Some(std::cmp::Ordering::Greater)
        }
    }
}

} // verus!
