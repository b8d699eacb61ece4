use vstd::prelude::*;

verus! {

/// Identifier of one of the engine's four tracks.
#[derive(Debug, Clone, Copy, PartialEq, Eq, Structural)]
pub enum TrackId {
    A,
    B,
    C,
    D,
}

/// Number of tracks the engine owns.
pub const NUM_TRACKS: usize = 4;

impl TrackId {
    /// Dense index of the track, in `0..NUM_TRACKS`.
    pub open spec fn spec_index(self) -> int {
        match self {
            TrackId::A => 0,
            TrackId::B => 1,
            TrackId::C => 2,
            TrackId::D => 3,
        }
    }

    /// The track whose dense index is `i`.
    pub open spec fn spec_from_index(i: int) -> TrackId
        recommends
            0 <= i < NUM_TRACKS,
    {
        if i == 0 {
            TrackId::A
        } else if i == 1 {
            TrackId::B
        } else if i == 2 {
            TrackId::C
        } else {
            TrackId::D
        }
    }

    /// Dense index of the track.
    pub fn index(self) -> (r: usize)
        ensures
            r as int == self.spec_index(),
            r < NUM_TRACKS,
    {
        match self {
            TrackId::A => 0,
            TrackId::B => 1,
            TrackId::C => 2,
            TrackId::D => 3,
        }
    }

    /// The track with dense index `i`.
    pub fn from_index(i: usize) -> (r: TrackId)
        requires
            i < NUM_TRACKS,
        ensures
            r == Self::spec_from_index(i as int),
            r.spec_index() == i as int,
    {
        if i == 0 {
            TrackId::A
        } else if i == 1 {
            TrackId::B
        } else if i == 2 {
            TrackId::C
        } else {
            TrackId::D
        }
    }

    /// All tracks, in index order.
    pub fn all_tracks() -> (r: [TrackId; NUM_TRACKS])
        ensures
            forall|i: int| 0 <= i < NUM_TRACKS ==> (#[trigger] r@[i]).spec_index() == i,
    {
        [TrackId::A, TrackId::B, TrackId::C, TrackId::D]
    }
}

/// Distinct tracks have distinct indices.
pub proof fn lemma_index_injective(a: TrackId, b: TrackId)
    ensures
        a.spec_index() == b.spec_index() <==> a == b,
        0 <= a.spec_index() < NUM_TRACKS,
        TrackId::spec_from_index(a.spec_index()) == a,
{
}

} // verus!
