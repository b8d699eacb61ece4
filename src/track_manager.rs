use vstd::prelude::*;

use crate::counter::{CounterView, GlobalCounter};
use crate::error::Error;
use crate::track::{
    has_headroom, MixSample, Sample, Settings, Status, SyncTo, Track, TrackView, StateType,
};
use crate::track_id::{TrackId, NUM_TRACKS};

verus! {

/// A request from the controller to the engine.
#[derive(Debug, Clone, Copy, PartialEq, Eq, Structural)]
pub enum TrackCommand {
    AdvanceTrackState,
    FocusOnTrack(TrackId),
    ConfigureTrack(TrackId, Settings),
}

/// The engine's answer to a command.
#[derive(Debug, Clone, Copy, PartialEq, Eq, Structural)]
pub enum TrackResponse {
    CommandFailed,
    CommandSucceeded,
}

/// A status message from the engine to the controller.
#[derive(Debug, Clone)]
pub enum TrackInfo {
    FocusedTrackChanged(TrackId),
    StatusUpdate(TrackId, Status),
    CounterUpdate(GlobalCounter),
    WaveformUpdate(TrackId, Status, Vec<Sample>, Vec<Sample>),
    /// Duration of the previous tick, in microseconds.
    ProcessingLatency(u64),
}

/// What the controller reports for the engine's answer to a command:
/// success, or an internal error carrying `message`.
pub fn command_outcome(response: TrackResponse, message: &str) -> (r: Result<(), Error>)
    ensures
        response is CommandSucceeded ==> r is Ok,
        response is CommandFailed ==> (r matches Err(Error::InternalError { message: m }) && m@ == message@),
{
    match response {
        TrackResponse::CommandSucceeded => Ok(()),
        TrackResponse::CommandFailed => Err(Error::InternalError { message: message.to_owned() }),
    }
}

/// What one tick hands back: the answer to the command taken, if any, and
/// the status messages, in order.
#[derive(Debug, Clone)]
pub struct TickOutput {
    pub response: Option<TrackResponse>,
    pub infos: Vec<TrackInfo>,
}

/// The status snapshot of a track.
pub open spec fn status_of(t: TrackView) -> Status {
    Status { state: t.state, buf_index: t.read_head, buf_size: t.fl.len() as usize, ctr: t.sync_ctr }
}

/// `info` is the message published for track `t` after it has played: its
/// buffers while they are being modified, else its status alone.
pub open spec fn is_track_info(info: TrackInfo, t: TrackView) -> bool {
    match info {
        TrackInfo::StatusUpdate(id, st) => !t.state.spec_is_being_modified() && id == t.id && st
            == status_of(t),
        TrackInfo::WaveformUpdate(id, st, fl, fr) => t.state.spec_is_being_modified() && id
            == t.id && st == status_of(t) && fl@ == t.fl && fr@ == t.fr,
        _ => false,
    }
}

/// The byte sequences of a list of MIDI messages.
pub open spec fn events_view(events: Seq<Vec<u8>>) -> Seq<Seq<u8>> {
    events.map_values(|e: Vec<u8>| e@)
}

/// A track after the MIDI messages `events`, in order, at time `now`.
pub open spec fn midi_fold(t: TrackView, c: CounterView, events: Seq<Seq<u8>>, now: u64) -> TrackView
    decreases events.len(),
{
    if events.len() == 0 {
        t
    } else {
        midi_fold(t, c, events.drop_last(), now).after_midi(c, events.last(), now)
    }
}

/// The answer to `cmd`: none without a command; a failure for a track
/// configured to follow itself; success otherwise.
pub open spec fn command_response(cmd: Option<TrackCommand>) -> Option<TrackResponse> {
    match cmd {
        None => None,
        Some(TrackCommand::ConfigureTrack(id, s)) => {
            if s.sync == SyncTo::Track(id) {
                Some(TrackResponse::CommandFailed)
            } else {
                Some(TrackResponse::CommandSucceeded)
            }
        },
        Some(_) => Some(TrackResponse::CommandSucceeded),
    }
}

/// Every track that holds a loop has its loop length in the counters equal
/// to its buffer length.
pub open spec fn lengths_synced(m: ManagerView) -> bool {
    forall|i: int|
        0 <= i < NUM_TRACKS && (#[trigger] m.tracks[i]).state.spec_has_loop() ==> m.ctr.len[i]
            == m.tracks[i].fl.len()
}

/// What a `TrackManager` holds: the counters, the four tracks by index and
/// the focused track.
pub struct ManagerView {
    pub ctr: CounterView,
    pub tracks: Seq<TrackView>,
    pub focused: TrackId,
}

impl ManagerView {
    pub open spec fn wf(self) -> bool {
        &&& self.ctr.wf()
        &&& self.tracks.len() == NUM_TRACKS
        &&& forall|i: int|
            0 <= i < NUM_TRACKS ==> (#[trigger] self.tracks[i]).wf() && self.tracks[i].id.spec_index()
                == i
    }

    pub open spec fn track(self, id: TrackId) -> TrackView {
        self.tracks[id.spec_index()]
    }

    pub open spec fn with_track(self, id: TrackId, t: TrackView) -> ManagerView {
        ManagerView { tracks: self.tracks.update(id.spec_index(), t), ..self }
    }

    /// The engine after executing `cmd` at time `now`.
    pub open spec fn after_command(self, cmd: Option<TrackCommand>, now: u64) -> ManagerView {
        match cmd {
            None => self,
            Some(TrackCommand::AdvanceTrackState) => self.with_track(
                self.focused,
                self.track(self.focused).advanced(self.ctr, now),
            ),
            Some(TrackCommand::ConfigureTrack(id, s)) => {
                if s.sync == SyncTo::Track(id) {
                    self
                } else {
                    self.with_track(id, self.track(id).configured(s))
                }
            },
            Some(TrackCommand::FocusOnTrack(id)) => ManagerView { focused: id, ..self },
        }
    }

    /// The engine after routing `events` to the focused track at time `now`.
    pub open spec fn after_midi(self, events: Seq<Seq<u8>>, now: u64) -> ManagerView {
        self.with_track(self.focused, midi_fold(self.track(self.focused), self.ctr, events, now))
    }

    /// The engine after the focused track has read one tick of input.
    pub open spec fn after_input(self, fl: Seq<Sample>, fr: Seq<Sample>) -> ManagerView {
        let (t, c) = self.track(self.focused).after_read(self.ctr, fl, fr);
        ManagerView { ctr: c, ..self.with_track(self.focused, t) }
    }

    /// The sum of what the first `k` tracks add to output frame `i` of `n`,
    /// from their left (`left`) or right loops.
    pub open spec fn mixed(self, n: nat, k: int, i: int, left: bool) -> int
        decreases k,
    {
        if k <= 0 {
            0
        } else {
            let t = self.tracks[k - 1];
            self.mixed(n, k - 1, i, left) + t.played(self.ctr, n, if left {
                t.fl
            } else {
                t.fr
            })[i]
        }
    }

    /// The engine just before its tracks play: after the command, the MIDI
    /// messages and the focused track's input of one tick.
    pub open spec fn before_output(
        self,
        cmd: Option<TrackCommand>,
        events: Seq<Seq<u8>>,
        fl: Seq<Sample>,
        fr: Seq<Sample>,
        now: u64,
    ) -> ManagerView {
        self.after_command(cmd, now).after_midi(events, now).after_input(fl, fr)
    }

    /// The engine after a whole tick with `n` output frames.
    pub open spec fn after_tick(
        self,
        cmd: Option<TrackCommand>,
        events: Seq<Seq<u8>>,
        fl: Seq<Sample>,
        fr: Seq<Sample>,
        now: u64,
        n: nat,
    ) -> ManagerView {
        let m = self.before_output(cmd, events, fl, fr, now);
        ManagerView { ctr: m.ctr.advanced_by(n as u64), ..m.after_output(n) }
    }

    /// Every track after writing a tick of `n` output frames.
    pub open spec fn after_output(self, n: nat) -> ManagerView {
        ManagerView { tracks: Seq::new(NUM_TRACKS as nat, |i: int| self.tracks[i].after_write(self.ctr, n)), ..self }
    }
}

/// The engine's real-time side: the four tracks, the shared counters and
/// the focused track. One call of `process` is one tick of the host's
/// callback.
pub struct TrackManager {
    global_ctr: GlobalCounter,
    tracks: [Track; NUM_TRACKS],
    focused_track_id: TrackId,
}

impl View for TrackManager {
    type V = ManagerView;

    closed spec fn view(&self) -> ManagerView {
        ManagerView {
            ctr: self.global_ctr@,
            tracks: Seq::new(NUM_TRACKS as nat, |i: int| self.tracks@[i]@),
            focused: self.focused_track_id,
        }
    }
}

impl TrackManager {
    pub open spec fn wf(&self) -> bool {
        self@.wf()
    }

    /// Four idle, empty tracks with counters at zero, created at time `now`
    /// (milliseconds); track `A` has the focus.
    pub fn new(sample_rate: u64, now: u64) -> (r: TrackManager)
        ensures
            r.wf(),
            r@.focused == TrackId::A,
            lengths_synced(r@),
            r@.ctr.sample_rate == sample_rate,
            forall|id: TrackId| r@.ctr.absolute(id) == 0 && r@.ctr.get_len(id) == 0,
            forall|i: int|
                0 <= i < NUM_TRACKS ==> (#[trigger] r@.tracks[i]).state == StateType::Idle
                    && r@.tracks[i].fl.len() == 0 && r@.tracks[i].sync == SyncTo::Off,
    {
        let r = TrackManager {
            global_ctr: GlobalCounter::new(sample_rate),
            tracks: [
                Track::new_at(TrackId::A, now),
                Track::new_at(TrackId::B, now),
                Track::new_at(TrackId::C, now),
                Track::new_at(TrackId::D, now),
            ],
            focused_track_id: TrackId::A,
        };
        proof {
            r.global_ctr.lemma_wf();
        }
        r
    }

    pub fn focused_track_id(&self) -> (r: TrackId)
        ensures
            r == self@.focused,
    {
        self.focused_track_id
    }

    pub fn global_counter(&self) -> (r: &GlobalCounter)
        ensures
            r@ == self@.ctr,
    {
        &self.global_ctr
    }

    pub fn track(&self, id: TrackId) -> (r: &Track)
        requires
            self.wf(),
        ensures
            r@ == self@.track(id),
    {
        &self.tracks[id.index()]
    }

    /// Executes one command at time `now` and answers it. A track configured
    /// to follow itself is refused.
    fn apply_command(&mut self, command: Option<TrackCommand>, now: u64) -> (r: Option<TrackResponse>)
        requires
            old(self).wf(),
        ensures
            final(self).wf(),
            final(self)@ == old(self)@.after_command(command, now),
            r == command_response(command),
    {
        match command {
            None => None,
            Some(TrackCommand::AdvanceTrackState) => {
                let f = self.focused_track_id.index();
                self.tracks[f].advance_state_at(&self.global_ctr, now);
                assert(self@.tracks =~= old(self)@.after_command(command, now).tracks);
                Some(TrackResponse::CommandSucceeded)
            },
            Some(TrackCommand::ConfigureTrack(id, settings)) => {
                if settings.sync == SyncTo::Track(id) {
                    return Some(TrackResponse::CommandFailed);
                }
                let k = id.index();
                self.tracks[k].configure(settings);
                assert(self@.tracks =~= old(self)@.after_command(command, now).tracks);
                Some(TrackResponse::CommandSucceeded)
            },
            Some(TrackCommand::FocusOnTrack(id)) => {
                self.focused_track_id = id;
                assert(self@.tracks =~= old(self)@.tracks);
                Some(TrackResponse::CommandSucceeded)
            },
        }
    }
    /// Routes the MIDI messages of one tick to the focused track.
    fn route_midi(&mut self, midi_events: &Vec<Vec<u8>>, now: u64)
        requires
            old(self).wf(),
        ensures
            final(self).wf(),
            final(self)@ == old(self)@.after_midi(events_view(midi_events@), now),
    {
        let f = self.focused_track_id.index();
        let ghost ev = events_view(midi_events@);
        let ghost t0 = self@.track(self.focused_track_id);
        assert(midi_fold(t0, old(self)@.ctr, ev.subrange(0, 0), now) == t0);
        assert(self@.tracks =~= old(self)@.with_track(old(self)@.focused, t0).tracks);
        let mut e: usize = 0;
        while e < midi_events.len()
            invariant
                e <= midi_events@.len(),
                f == self.focused_track_id.spec_index(),
                self.wf(),
                ev == events_view(midi_events@),
                t0 == old(self)@.track(old(self)@.focused),
                self@ == old(self)@.with_track(
                    old(self)@.focused,
                    midi_fold(t0, old(self)@.ctr, ev.subrange(0, e as int), now),
                ),
            decreases midi_events@.len() - e,
        {
            proof {
                assert(ev.subrange(0, e + 1).drop_last() =~= ev.subrange(0, e as int));
                assert(ev.subrange(0, e + 1).last() == midi_events@[e as int]@);
                assert(self@.tracks[f as int].wf());
            }
            let ghost pre = self@;
            self.tracks[f].handle_midi_event_at(&self.global_ctr, midi_events[e].as_slice(), now);
            assert(self@.tracks =~= pre.tracks.update(f as int, self.tracks@[f as int]@));
            e = e + 1;
            assert(self@.tracks =~= old(self)@.with_track(
                old(self)@.focused,
                midi_fold(t0, old(self)@.ctr, ev.subrange(0, e as int), now),
            ).tracks);
        }
        assert(ev.subrange(0, midi_events@.len() as int) =~= ev);
    }

    /// Lets the focused track read one tick of input.
    fn route_input(&mut self, fl_input: &[Sample], fr_input: &[Sample])
        requires
            old(self).wf(),
            fl_input@.len() == fr_input@.len(),
        ensures
            final(self).wf(),
            final(self)@ == old(self)@.after_input(fl_input@, fr_input@),
    {
        let f = self.focused_track_id.index();
        self.tracks[f].read_from(&mut self.global_ctr, fl_input, fr_input);
        proof {
            self.global_ctr.lemma_wf();
        }
        assert(self@.tracks =~= old(self)@.after_input(fl_input@, fr_input@).tracks);
    }

    /// Zeroes the outputs, lets every track play into them in index order
    /// and collects each track's status message.
    fn mix_tracks(&mut self, fl_output: &mut [MixSample], fr_output: &mut [MixSample], infos: &mut Vec<TrackInfo>)
        requires
            old(self).wf(),
            old(fl_output)@.len() == old(fr_output)@.len(),
        ensures
            final(self).wf(),
            final(self)@ == old(self)@.after_output(old(fl_output)@.len()),
            final(fl_output)@.len() == old(fl_output)@.len(),
            final(fr_output)@.len() == old(fr_output)@.len(),
            forall|i: int|
                0 <= i < old(fl_output)@.len() ==> final(fl_output)@[i] == #[trigger] old(self)@.mixed(
                    old(fl_output)@.len(),
                    NUM_TRACKS as int,
                    i,
                    true,
                ),
            forall|i: int|
                0 <= i < old(fr_output)@.len() ==> final(fr_output)@[i] == #[trigger] old(self)@.mixed(
                    old(fr_output)@.len(),
                    NUM_TRACKS as int,
                    i,
                    false,
                ),
            final(infos)@.len() == old(infos)@.len() + NUM_TRACKS,
            forall|j: int| 0 <= j < old(infos)@.len() ==> final(infos)@[j] == old(infos)@[j],
            forall|j: int|
                0 <= j < NUM_TRACKS ==> is_track_info(
                    #[trigger] final(infos)@[old(infos)@.len() + j],
                    old(self)@.after_output(old(fl_output)@.len()).tracks[j],
                ),
    {
        let n = fl_output.len();
        let ghost m0 = self@;
        let mut i: usize = 0;
        while i < n
            invariant
                i <= n == fl_output@.len() == fr_output@.len(),
                forall|j: int| 0 <= j < i ==> fl_output@[j] == 0 && fr_output@[j] == 0,
            decreases n - i,
        {
            fl_output[i] = 0;
            fr_output[i] = 0;
            i = i + 1;
        }
        let mut k: usize = 0;
        while k < NUM_TRACKS
            invariant
                k <= NUM_TRACKS,
                n == fl_output@.len() == fr_output@.len() == old(fl_output)@.len(),
                m0 == old(self)@,
                m0.wf(),
                self.wf(),
                self@.ctr == m0.ctr,
                self@.focused == m0.focused,
                forall|j: int| 0 <= j < k ==> self@.tracks[j] == m0.tracks[j].after_write(m0.ctr, n as nat),
                forall|j: int| k <= j < NUM_TRACKS ==> self@.tracks[j] == m0.tracks[j],
                forall|i: int| 0 <= i < n ==> fl_output@[i] == m0.mixed(n as nat, k as int, i, true),
                forall|i: int| 0 <= i < n ==> fr_output@[i] == m0.mixed(n as nat, k as int, i, false),
                forall|i: int|
                    0 <= i < n ==> -(k * 0x8000_0000) <= #[trigger] fl_output@[i] <= k * 0x8000_0000,
                forall|i: int|
                    0 <= i < n ==> -(k * 0x8000_0000) <= #[trigger] fr_output@[i] <= k * 0x8000_0000,
                infos@.len() == old(infos)@.len() + k,
                forall|j: int| 0 <= j < old(infos)@.len() ==> infos@[j] == old(infos)@[j],
                forall|j: int|
                    0 <= j < k ==> is_track_info(
                        #[trigger] infos@[old(infos)@.len() + j],
                        m0.tracks[j].after_write(m0.ctr, n as nat),
                    ),
            decreases NUM_TRACKS - k,
        {
            let ghost before_l = fl_output@;
            let ghost before_r = fr_output@;
            let ghost tk = m0.tracks[k as int];
            assert(has_headroom(fl_output@));
            assert(has_headroom(fr_output@));
            assert(self@.tracks[k as int].wf());
            let ghost pre = self@;
            self.tracks[k].write_to(&self.global_ctr, fl_output, fr_output);
            assert(self@.tracks =~= pre.tracks.update(k as int, self.tracks@[k as int]@));
            proof {
                assert forall|i: int| 0 <= i < n implies fl_output@[i] == m0.mixed(n as nat, k + 1, i, true) by {
                    assert(fl_output@[i] == before_l[i] + tk.played(m0.ctr, n as nat, tk.fl)[i]);
                }
                assert forall|i: int| 0 <= i < n implies fr_output@[i] == m0.mixed(n as nat, k + 1, i, false) by {
                    assert(fr_output@[i] == before_r[i] + tk.played(m0.ctr, n as nat, tk.fr)[i]);
                }
                assert forall|i: int| 0 <= i < n implies -((k + 1) * 0x8000_0000) <= #[trigger] fl_output@[i] <= (k + 1) * 0x8000_0000 by {
                    assert(fl_output@[i] == before_l[i] + tk.played(m0.ctr, n as nat, tk.fl)[i]);
                    assert(-(k * 0x8000_0000) <= before_l[i] <= k * 0x8000_0000);
                }
                assert forall|i: int| 0 <= i < n implies -((k + 1) * 0x8000_0000) <= #[trigger] fr_output@[i] <= (k + 1) * 0x8000_0000 by {
                    assert(fr_output@[i] == before_r[i] + tk.played(m0.ctr, n as nat, tk.fr)[i]);
                    assert(-(k * 0x8000_0000) <= before_r[i] <= k * 0x8000_0000);
                }
            }
            let status = self.tracks[k].get_status();
            let id = self.tracks[k].id();
            let info = if status.state.is_being_modified() {
                let (fl, fr) = self.tracks[k].get_raw_buffers();
                TrackInfo::WaveformUpdate(id, status, vstd::slice::slice_to_vec(fl), vstd::slice::slice_to_vec(fr))
            } else {
                TrackInfo::StatusUpdate(id, status)
            };
            infos.push(info);
            k = k + 1;
        }
        assert(self@.tracks =~= old(self)@.after_output(n as nat).tracks);
    }

    /// One tick of the audio callback at time `now` (milliseconds):
    /// executes `command` if there is one, routes `midi_events` and the
    /// input to the focused track, mixes every track into the zeroed
    /// outputs, publishes each track's status, a counter snapshot and
    /// `prev_latency` (the previous tick's duration), and advances every
    /// counter by the number of output frames.
    pub fn process(
        &mut self,
        command: Option<TrackCommand>,
        midi_events: &Vec<Vec<u8>>,
        fl_input: &[Sample],
        fr_input: &[Sample],
        fl_output: &mut [MixSample],
        fr_output: &mut [MixSample],
        now: u64,
        prev_latency: u64,
    ) -> (r: TickOutput)
        requires
            old(self).wf(),
            fl_input@.len() == fr_input@.len(),
            old(fl_output)@.len() == old(fr_output)@.len(),
        ensures
            final(self).wf(),
            r.response == command_response(command),
            final(self)@ == old(self)@.after_tick(
                command,
                events_view(midi_events@),
                fl_input@,
                fr_input@,
                now,
                old(fl_output)@.len(),
            ),
            final(fl_output)@.len() == old(fl_output)@.len(),
            final(fr_output)@.len() == old(fr_output)@.len(),
            forall|i: int|
                0 <= i < old(fl_output)@.len() ==> final(fl_output)@[i] == #[trigger] old(self)@.before_output(
                    command,
                    events_view(midi_events@),
                    fl_input@,
                    fr_input@,
                    now,
                ).mixed(old(fl_output)@.len(), NUM_TRACKS as int, i, true),
            forall|i: int|
                0 <= i < old(fr_output)@.len() ==> final(fr_output)@[i] == #[trigger] old(self)@.before_output(
                    command,
                    events_view(midi_events@),
                    fl_input@,
                    fr_input@,
                    now,
                ).mixed(old(fr_output)@.len(), NUM_TRACKS as int, i, false),
            ({
                let base: int = if command is Some && command->0 is FocusOnTrack { 1 } else { 0 };
                let m = old(self)@.before_output(command, events_view(midi_events@), fl_input@, fr_input@, now);
                &&& r.infos@.len() == base + NUM_TRACKS + 2
                &&& base == 1 ==> r.infos@[0] is FocusedTrackChanged
                    && r.infos@[0]->FocusedTrackChanged_0 == final(self)@.focused
                &&& base == 1 ==> forall|j: int|
                    0 <= j < NUM_TRACKS ==> is_track_info(
                        #[trigger] r.infos@[1 + j],
                        m.after_output(old(fl_output)@.len()).tracks[j],
                    )
                &&& base == 0 ==> forall|j: int|
                    0 <= j < NUM_TRACKS ==> is_track_info(
                        #[trigger] r.infos@[j],
                        m.after_output(old(fl_output)@.len()).tracks[j],
                    )
                &&& r.infos@[base + NUM_TRACKS] is CounterUpdate
                &&& r.infos@[base + NUM_TRACKS]->CounterUpdate_0@ == m.ctr
                &&& r.infos@[base + NUM_TRACKS + 1] is ProcessingLatency
                &&& r.infos@[base + NUM_TRACKS + 1]->ProcessingLatency_0 == prev_latency
            }),
    {
        let mut infos: Vec<TrackInfo> = Vec::new();
        let response = self.apply_command(command, now);
        if let Some(TrackCommand::FocusOnTrack(id)) = command {
            infos.push(TrackInfo::FocusedTrackChanged(id));
        }
        self.route_midi(midi_events, now);
        self.route_input(fl_input, fr_input);
        let ghost m = self@;
        let ghost b0 = infos@.len() as int;
        self.mix_tracks(fl_output, fr_output, &mut infos);
        let ghost mid = infos@;
        infos.push(TrackInfo::CounterUpdate(self.global_ctr));
        infos.push(TrackInfo::ProcessingLatency(prev_latency));
        let n = fl_output.len();
        self.global_ctr.advance_all(n as u64);
        proof {
            self.global_ctr.lemma_wf();
            let mo = m.after_output(n as nat);
            assert forall|j: int| 0 <= j < NUM_TRACKS implies is_track_info(#[trigger] infos@[b0 + j], mo.tracks[j]) by {
                assert(infos@[b0 + j] == mid[b0 + j]);
            }
            if b0 == 1 {
                assert forall|j: int| 0 <= j < NUM_TRACKS implies is_track_info(#[trigger] infos@[1 + j], mo.tracks[j]) by {
                    assert(infos@[b0 + j] == infos@[1 + j]);
                }
            } else {
                assert forall|j: int| 0 <= j < NUM_TRACKS implies is_track_info(#[trigger] infos@[j], mo.tracks[j]) by {
                    assert(infos@[b0 + j] == infos@[j]);
                }
            }
        }
        TickOutput { response, infos }
    }
}

} // verus!
