use vstd::prelude::*;

use crate::counter::{CounterView, GlobalCounter};
use crate::track_id::TrackId;

verus! {

/// A fixed-point audio sample as the loop buffers hold it.
pub type Sample = i32;

/// A sample of the output mix, wide enough to sum every track without
/// overflow.
pub type MixSample = i64;

/// Wall-clock interval under which a second state advance counts as a
/// double click.
pub const DOUBLE_CLICK_MS: u64 = 500;

/// Relies on std::time::SystemTime::now: the wall-clock time in milliseconds
/// since the Unix epoch (0 if the clock is set before it). Nothing is
/// promised of the value.
#[verifier::external_body]
fn now_millis() -> u64 {
    match std::time::SystemTime::now().duration_since(std::time::UNIX_EPOCH) {
        Ok(d) => d.as_millis() as u64,
        Err(_) => 0,
    }
}

/// State of a track's state machine. The queued states carry the absolute
/// sample index at which their transition takes effect.
#[derive(Debug, Clone, Copy, PartialEq, Eq, Structural)]
pub enum StateType {
    Idle,
    RecordingQueued(u64),
    Recording,
    OverdubbingQueued(u64),
    Overdubbing,
    PlayingQueued(u64),
    Playing,
    Paused,
}

impl StateType {
    pub open spec fn spec_is_recording(self) -> bool {
        self is Recording || self is OverdubbingQueued
    }

    pub open spec fn spec_is_stopped(self) -> bool {
        self is Idle || self is RecordingQueued || self is Paused || self is PlayingQueued
    }

    /// The track holds a committed loop: it has started recording.
    pub open spec fn spec_has_loop(self) -> bool {
        !(self is Idle || self is RecordingQueued)
    }

    pub open spec fn spec_is_being_modified(self) -> bool {
        self is Recording || self is OverdubbingQueued || self is Overdubbing
    }

    /// The loop is still growing: `Recording` or `OverdubbingQueued`.
    pub fn is_recording(&self) -> (r: bool)
        ensures
            r == self.spec_is_recording(),
    {
        match self {
            StateType::Recording | StateType::OverdubbingQueued(_) => true,
            _ => false,
        }
    }

    /// Nothing is played: `Idle`, `RecordingQueued`, `Paused` or
    /// `PlayingQueued`.
    pub fn is_stopped(&self) -> (r: bool)
        ensures
            r == self.spec_is_stopped(),
    {
        match self {
            StateType::Idle | StateType::RecordingQueued(_) | StateType::Paused
            | StateType::PlayingQueued(_) => true,
            _ => false,
        }
    }

    /// The buffer contents change in this state: recording or overdubbing.
    pub fn is_being_modified(&self) -> (r: bool)
        ensures
            r == self.spec_is_being_modified(),
    {
        match self {
            StateType::Recording | StateType::OverdubbingQueued(_) | StateType::Overdubbing => true,
            _ => false,
        }
    }
}

/// Which track's counter a track follows.
#[derive(Debug, Clone, Copy, PartialEq, Eq, Structural)]
pub enum SyncTo {
    Off,
    Track(TrackId),
}

/// Per-track settings.
#[derive(Debug, Clone, Copy, PartialEq, Eq, Structural)]
pub struct Settings {
    pub sync: SyncTo,
}

/// Snapshot of a track published to the controller.
#[derive(Debug, Clone, Copy, PartialEq, Eq, Structural)]
pub struct Status {
    pub state: StateType,
    pub buf_index: usize,
    pub buf_size: usize,
    pub ctr: TrackId,
}

/// What a `Track` holds, with its buffers as sequences.
pub struct TrackView {
    pub id: TrackId,
    pub sync: SyncTo,
    pub sync_ctr: TrackId,
    pub state: StateType,
    pub last_state: StateType,
    pub last_change: u64,
    pub read_head: usize,
    pub write_head: usize,
    pub last_write_head: usize,
    pub fl: Seq<Sample>,
    pub fr: Seq<Sample>,
}

/// The counter a track with identifier `id` follows under `sync`.
pub open spec fn sync_target(id: TrackId, sync: SyncTo) -> TrackId {
    match sync {
        SyncTo::Track(t) => t,
        SyncTo::Off => id,
    }
}

/// The count a track's own counter restarts from when a queued recording
/// starts at frame `from` of a tick of `n` frames: 0 when it starts with the
/// tick, else the number of frames recorded in the tick.
pub open spec fn recording_start_count(from: int, n: nat) -> u64 {
    if from > 0 {
        (n - from) as u64
    } else {
        0
    }
}

/// `a + b` clipped to the range of a sample.
pub open spec fn clip_add(a: Sample, b: Sample) -> Sample {
    let s = a + b;
    if s > i32::MAX {
        i32::MAX
    } else if s < i32::MIN {
        i32::MIN
    } else {
        s as i32
    }
}

/// `buf` after adding `input`, sample by sample, at positions `w0`,
/// `w0 + 1`, ... taken modulo the length of `buf`.
pub open spec fn overdub_seq(buf: Seq<Sample>, w0: int, input: Seq<Sample>) -> Seq<Sample>
    decreases input.len(),
{
    if input.len() == 0 || buf.len() == 0 {
        buf
    } else {
        let prev = overdub_seq(buf, w0, input.drop_last());
        let p = (w0 + input.len() - 1) % (buf.len() as int);
        prev.update(p, clip_add(prev[p], input.last()))
    }
}

/// Whether an advance at `now` follows the previous one at `last` within
/// the double-click interval.
pub open spec fn is_double_click(last: u64, now: u64) -> bool {
    now < last + DOUBLE_CLICK_MS
}

/// The 3-byte MIDI message that advances a track in state `state`: a
/// sustain-pedal control change on channel 0, pressed, or released while
/// recording.
pub open spec fn is_pedal_trigger(event: Seq<u8>, state: StateType) -> bool {
    &&& event.len() == 3
    &&& event[0] == 0xB0u8
    &&& event[1] == 0x40u8
    &&& (event[2] > 0 || state == StateType::Recording)
}

impl TrackView {
    pub open spec fn wf(self) -> bool {
        &&& self.fl.len() == self.fr.len()
        &&& self.read_head == 0 || self.read_head < self.fl.len()
        &&& self.write_head <= self.fl.len()
        &&& self.sync != SyncTo::Track(self.id)
        &&& self.sync_ctr == sync_target(self.id, self.sync)
    }

    pub open spec fn len(self) -> nat {
        self.fl.len()
    }

    /// Index at which a transition requested now takes effect: the next
    /// frame when the track follows its own counter, else the next loop
    /// boundary of the counter it follows.
    pub open spec fn trigger_index(self, c: CounterView) -> u64 {
        if self.sync_ctr == self.id {
            c.absolute(self.sync_ctr)
        } else {
            c.next_loop(self.sync_ctr)
        }
    }

    /// The state that a (non double-click) advance leads to.
    pub open spec fn next_state(self, c: CounterView) -> StateType {
        match self.state {
            StateType::Idle => StateType::RecordingQueued(self.trigger_index(c)),
            StateType::RecordingQueued(i) => StateType::RecordingQueued(i),
            StateType::Recording => StateType::OverdubbingQueued(self.trigger_index(c)),
            StateType::OverdubbingQueued(i) => StateType::OverdubbingQueued(i),
            StateType::Overdubbing => StateType::Playing,
            StateType::PlayingQueued(i) => StateType::PlayingQueued(i),
            StateType::Playing => StateType::Paused,
            StateType::Paused => StateType::PlayingQueued(c.next_loop(self.sync_ctr)),
        }
    }

    /// The track after `clear` at time `now`.
    pub open spec fn cleared(self, now: u64) -> TrackView {
        TrackView {
            state: StateType::Idle,
            last_state: StateType::Idle,
            last_change: now,
            read_head: 0,
            write_head: 0,
            fl: Seq::empty(),
            fr: Seq::empty(),
            ..self
        }
    }

    /// The track after an advance at time `now`.
    pub open spec fn advanced(self, c: CounterView, now: u64) -> TrackView {
        if is_double_click(self.last_change, now) && self.state != StateType::Recording {
            self.cleared(now)
        } else {
            TrackView {
                state: self.next_state(c),
                last_state: self.state,
                last_change: now,
                ..self
            }
        }
    }

    /// The track after the MIDI message `event` at time `now`.
    pub open spec fn after_midi(self, c: CounterView, event: Seq<u8>, now: u64) -> TrackView {
        if is_pedal_trigger(event, self.state) {
            self.advanced(c, now)
        } else {
            self
        }
    }

    /// The track configured with `settings`; a sync on itself counts as none.
    pub open spec fn configured(self, settings: Settings) -> TrackView {
        let sync = if settings.sync == SyncTo::Track(self.id) {
            SyncTo::Off
        } else {
            settings.sync
        };
        TrackView { sync, sync_ctr: sync_target(self.id, sync), ..self }
    }

    /// The track and counter after appending `fl`/`fr` to the loop while
    /// recording: the write head follows the end and the loop length grows.
    pub open spec fn recorded(self, c: CounterView, fl: Seq<Sample>, fr: Seq<Sample>) -> (TrackView, CounterView) {
        let t = TrackView {
            fl: self.fl + fl,
            fr: self.fr + fr,
            write_head: (self.fl.len() + fl.len()) as usize,
            ..self
        };
        (t, c.with_len(self.id, t.fl.len() as u64))
    }

    /// First write position of an overdub: the write head, wrapped to 0 at
    /// the end of the loop.
    pub open spec fn overdub_start(self) -> int {
        if self.write_head >= self.fl.len() {
            0
        } else {
            self.write_head as int
        }
    }

    /// The track after adding `fl`/`fr` into the loop from the write head
    /// on, wrapping at the end of the loop. An empty loop is left as it is.
    pub open spec fn overdubbed(self, fl: Seq<Sample>, fr: Seq<Sample>) -> TrackView {
        if self.fl.len() == 0 {
            self
        } else {
            let w0 = self.overdub_start();
            TrackView {
                fl: overdub_seq(self.fl, w0, fl),
                fr: overdub_seq(self.fr, w0, fr),
                write_head: ((w0 + fl.len()) % (self.fl.len() as int)) as usize,
                ..self
            }
        }
    }

    /// Offset into this tick's frames from which a queued transition at
    /// `idx` takes effect.
    pub open spec fn offset_of(self, c: CounterView, idx: u64) -> int {
        let start = c.absolute(self.sync_ctr) as int;
        if idx > start {
            idx - start
        } else {
            0
        }
    }

    /// Whether a queued index `idx` lies beyond this tick of `n` frames.
    pub open spec fn not_yet(self, c: CounterView, idx: u64, n: nat) -> bool {
        c.absolute(self.sync_ctr) + n < idx
    }

    /// The track and counter after reading the `fl`/`fr` input of one tick.
    pub open spec fn after_read(self, c: CounterView, fl: Seq<Sample>, fr: Seq<Sample>) -> (TrackView, CounterView) {
        let t = TrackView { last_write_head: self.write_head, ..self };
        let n = fl.len();
        match t.state {
            StateType::RecordingQueued(idx) => {
                if t.not_yet(c, idx, n) {
                    (t, c)
                } else {
                    let from = t.offset_of(c, idx);
                    let t1 = TrackView {
                        state: StateType::Recording,
                        fl: t.fl + fl.subrange(from, n as int),
                        fr: t.fr + fr.subrange(from, n as int),
                        ..t
                    };
                    (t1, c.with_len(t.id, t1.fl.len() as u64).with_cnt(t.id, recording_start_count(from, n)))
                }
            },
            StateType::Recording => t.recorded(c, fl, fr),
            StateType::OverdubbingQueued(idx) => {
                if t.not_yet(c, idx, n) {
                    t.recorded(c, fl, fr)
                } else {
                    let from = t.offset_of(c, idx);
                    let (t1, c1) = if from > 0 {
                        t.recorded(c, fl.subrange(0, from), fr.subrange(0, from))
                    } else {
                        (t, c)
                    };
                    (
                        TrackView { state: StateType::Overdubbing, ..t1 }.overdubbed(
                            fl.subrange(from, n as int),
                            fr.subrange(from, n as int),
                        ),
                        c1,
                    )
                }
            },
            StateType::Overdubbing => (t.overdubbed(fl, fr), c),
            _ => (t, c),
        }
    }

    /// Whether the track plays into a tick of `n` output frames.
    pub open spec fn plays(self, c: CounterView, n: nat) -> bool {
        &&& self.fl.len() > 0
        &&& match self.state {
            StateType::Playing | StateType::Overdubbing => true,
            StateType::PlayingQueued(idx) => !self.not_yet(c, idx, n),
            _ => false,
        }
    }

    /// First output frame the track plays into.
    pub open spec fn play_from(self, c: CounterView) -> int {
        match self.state {
            StateType::PlayingQueued(idx) => self.offset_of(c, idx),
            _ => 0,
        }
    }

    /// What the track adds to each of `n` output frames, reading from `buf`
    /// (its left or right loop).
    pub open spec fn played(self, c: CounterView, n: nat, buf: Seq<Sample>) -> Seq<int> {
        Seq::new(
            n,
            |i: int|
                if self.plays(c, n) && i >= self.play_from(c) {
                    buf[(self.read_head + i - self.play_from(c)) % (self.fl.len() as int)] as int
                } else {
                    0
                },
        )
    }

    /// The track after writing a tick of `n` output frames.
    pub open spec fn after_write(self, c: CounterView, n: nat) -> TrackView {
        if self.fl.len() == 0 {
            self
        } else if self.plays(c, n) {
            let rh = ((self.read_head + n - self.play_from(c)) % (self.fl.len() as int)) as usize;
            TrackView {
                state: if self.state is PlayingQueued {
                    StateType::Playing
                } else {
                    self.state
                },
                read_head: rh,
                write_head: rh,
                ..self
            }
        } else if self.state is PlayingQueued {
            self
        } else {
            TrackView { read_head: 0, ..self }
        }
    }
}

/// Every value of `out` can take one more sample without leaving the range
/// of a mix sample.
pub open spec fn has_headroom(out: Seq<MixSample>) -> bool {
    forall|i: int|
        0 <= i < out.len() ==> i64::MIN - i32::MIN <= #[trigger] out[i] <= i64::MAX - i32::MAX
}

/// One step of a wrapping position: `(a + 1) mod b` from `a mod b`.
proof fn lemma_mod_step(a: int, b: int)
    requires
        b > 0,
    ensures
        (a + 1) % b == if a % b + 1 == b {
            0
        } else {
            a % b + 1
        },
{
    vstd::arithmetic::div_mod::lemma_mod_bound(a, b);
    vstd::arithmetic::div_mod::lemma_add_mod_noop(a, 1, b);
    let x = a % b;
    if b == 1 {
        assert(1int % 1 == 0) by (nonlinear_arith);
    } else {
        vstd::arithmetic::div_mod::lemma_small_mod(1, b as nat);
    }
    if x + 1 < b {
        vstd::arithmetic::div_mod::lemma_small_mod((x + 1) as nat, b as nat);
    } else {
        vstd::arithmetic::div_mod::lemma_mod_self_0(b);
    }
}

/// `a + b` clipped to the range of a sample.
fn clipped_add(a: Sample, b: Sample) -> (r: Sample)
    ensures
        r == clip_add(a, b),
{
    let s = a as i64 + b as i64;
    if s > i32::MAX as i64 {
        i32::MAX
    } else if s < i32::MIN as i64 {
        i32::MIN
    } else {
        s as i32
    }
}

/// Appends `input[from..to]` to `buf`.
fn append_samples(buf: &mut Vec<Sample>, input: &[Sample], from: usize, to: usize)
    requires
        from <= to <= input@.len(),
    ensures
        final(buf)@ == old(buf)@ + input@.subrange(from as int, to as int),
{
    let mut k = from;
    while k < to
        invariant
            from <= k <= to <= input@.len(),
            buf@ == old(buf)@ + input@.subrange(from as int, k as int),
        decreases to - k,
    {
        buf.push(input[k]);
        k = k + 1;
        assert(buf@ =~= old(buf)@ + input@.subrange(from as int, k as int));
    }
}

/// A loop track: its state machine, stereo loop buffers and play/record heads.
pub struct Track {
    id: TrackId,
    settings: Settings,
    sync_ctr_id: TrackId,
    state: StateType,
    last_state: StateType,
    last_state_change: u64,
    read_head: usize,
    write_head: usize,
    last_write_head: usize,
    fl_buffer: Vec<Sample>,
    fr_buffer: Vec<Sample>,
}

impl View for Track {
    type V = TrackView;

    closed spec fn view(&self) -> TrackView {
        TrackView {
            id: self.id,
            sync: self.settings.sync,
            sync_ctr: self.sync_ctr_id,
            state: self.state,
            last_state: self.last_state,
            last_change: self.last_state_change,
            read_head: self.read_head,
            write_head: self.write_head,
            last_write_head: self.last_write_head,
            fl: self.fl_buffer@,
            fr: self.fr_buffer@,
        }
    }
}

impl Track {
    pub open spec fn wf(&self) -> bool {
        self@.wf()
    }

    /// An idle, empty track following its own counter, created at time `now`
    /// (milliseconds).
    pub fn new_at(id: TrackId, now: u64) -> (r: Track)
        ensures
            r.wf(),
            r@.id == id,
            r@.sync == SyncTo::Off,
            r@.state == StateType::Idle,
            r@.last_state == StateType::Idle,
            r@.last_change == now,
            r@.read_head == 0,
            r@.write_head == 0,
            r@.last_write_head == 0,
            r@.fl.len() == 0,
    {
        Track {
            id,
            settings: Settings { sync: SyncTo::Off },
            sync_ctr_id: id,
            state: StateType::Idle,
            last_state: StateType::Idle,
            last_state_change: now,
            read_head: 0,
            write_head: 0,
            last_write_head: 0,
            fl_buffer: Vec::new(),
            fr_buffer: Vec::new(),
        }
    }

    /// An idle, empty track following its own counter, created now.
    pub fn new(id: TrackId) -> (r: Track)
        ensures
            r.wf(),
            r@.id == id,
            r@.sync == SyncTo::Off,
            r@.state == StateType::Idle,
            r@.last_state == StateType::Idle,
            r@.read_head == 0,
            r@.write_head == 0,
            r@.last_write_head == 0,
            r@.fl.len() == 0,
    {
        Track::new_at(id, now_millis())
    }

    pub fn id(&self) -> (r: TrackId)
        ensures
            r == self@.id,
    {
        self.id
    }

    pub fn state(&self) -> (r: StateType)
        ensures
            r == self@.state,
    {
        self.state
    }

    pub fn last_state(&self) -> (r: StateType)
        ensures
            r == self@.last_state,
    {
        self.last_state
    }

    /// Time (milliseconds) of the last state change.
    pub fn last_state_change(&self) -> (r: u64)
        ensures
            r == self@.last_change,
    {
        self.last_state_change
    }

    pub fn read_head(&self) -> (r: usize)
        ensures
            r == self@.read_head,
    {
        self.read_head
    }

    pub fn write_head(&self) -> (r: usize)
        ensures
            r == self@.write_head,
    {
        self.write_head
    }

    /// Write head as it stood when the last input was read.
    pub fn last_write_head(&self) -> (r: usize)
        ensures
            r == self@.last_write_head,
    {
        self.last_write_head
    }

    pub fn settings(&self) -> (r: Settings)
        ensures
            r.sync == self@.sync,
    {
        self.settings
    }

    /// The left and right loop buffers.
    pub fn get_raw_buffers(&self) -> (r: (&[Sample], &[Sample]))
        ensures
            r.0@ == self@.fl,
            r.1@ == self@.fr,
    {
        (self.fl_buffer.as_slice(), self.fr_buffer.as_slice())
    }

    /// Updates the track with `settings`. A sync on the track itself is
    /// treated as no sync.
    pub fn configure(&mut self, settings: Settings)
        requires
            old(self).wf(),
        ensures
            final(self).wf(),
            final(self)@ == old(self)@.configured(settings),
    {
        let sync = match settings.sync {
            SyncTo::Track(t) => {
                if t == self.id {
                    SyncTo::Off
                } else {
                    SyncTo::Track(t)
                }
            },
            SyncTo::Off => SyncTo::Off,
        };
        self.settings = Settings { sync };
        self.sync_ctr_id = match sync {
            SyncTo::Track(t) => t,
            SyncTo::Off => self.id,
        };
    }

    /// Metadata about the track.
    pub fn get_status(&self) -> (r: Status)
        ensures
            r.state == self@.state,
            r.buf_index == self@.read_head,
            r.buf_size == self@.fl.len(),
            r.ctr == self@.sync_ctr,
    {
        Status {
            state: self.state,
            buf_index: self.read_head,
            buf_size: self.fl_buffer.len(),
            ctr: self.sync_ctr_id,
        }
    }

    /// Complete reset of the track at time `now`: idle, heads at zero, empty
    /// buffers.
    pub fn clear_at(&mut self, now: u64)
        requires
            old(self).wf(),
        ensures
            final(self).wf(),
            final(self)@ == old(self)@.cleared(now),
    {
        self.state = StateType::Idle;
        self.last_state = StateType::Idle;
        self.last_state_change = now;
        self.read_head = 0;
        self.write_head = 0;
        self.fl_buffer.clear();
        self.fr_buffer.clear();
        assert(self.fl_buffer@ =~= Seq::<Sample>::empty());
        assert(self.fr_buffer@ =~= Seq::<Sample>::empty());
    }

    /// Complete reset of the track, stamped with the current time.
    pub fn clear(&mut self)
        requires
            old(self).wf(),
        ensures
            final(self).wf(),
            final(self)@ == old(self)@.cleared(final(self)@.last_change),
    {
        let now = now_millis();
        self.clear_at(now);
    }

    /// Advances the state machine at time `now` (milliseconds). Within the
    /// double-click interval of the previous change, and outside
    /// `Recording`, the track is cleared instead.
    pub fn advance_state_at(&mut self, global_ctr: &GlobalCounter, now: u64)
        requires
            old(self).wf(),
        ensures
            final(self).wf(),
            final(self)@ == old(self)@.advanced(global_ctr@, now),
    {
        if now < self.last_state_change || now - self.last_state_change < DOUBLE_CLICK_MS {
            if self.state != StateType::Recording {
                self.clear_at(now);
                return;
            }
        }
        let trigger = if self.sync_ctr_id == self.id {
            global_ctr.absolute(self.sync_ctr_id)
        } else {
            global_ctr.get_next_loop(self.sync_ctr_id)
        };
        self.last_state = self.state;
        self.last_state_change = now;
        self.state = match self.state {
            StateType::Idle => StateType::RecordingQueued(trigger),
            StateType::RecordingQueued(i) => StateType::RecordingQueued(i),
            StateType::Recording => StateType::OverdubbingQueued(trigger),
            StateType::OverdubbingQueued(i) => StateType::OverdubbingQueued(i),
            StateType::Overdubbing => StateType::Playing,
            StateType::PlayingQueued(i) => StateType::PlayingQueued(i),
            StateType::Playing => StateType::Paused,
            StateType::Paused => StateType::PlayingQueued(global_ctr.get_next_loop(self.sync_ctr_id)),
        };
    }

    /// Advances the state machine, reading the wall clock for double-click
    /// detection: the track either is cleared or takes the next state.
    pub fn advance_state(&mut self, global_ctr: &GlobalCounter)
        requires
            old(self).wf(),
        ensures
            final(self).wf(),
            final(self)@ == old(self)@.advanced(global_ctr@, final(self)@.last_change),
            old(self)@.state == StateType::Recording ==> final(self)@.state == old(self)@.next_state(global_ctr@),
            final(self)@.state == old(self)@.next_state(global_ctr@) || final(self)@ == old(self)@.cleared(final(self)@.last_change),
    {
        let now = now_millis();
        self.advance_state_at(global_ctr, now);
    }

    /// Handles a MIDI message at time `now`: a sustain-pedal press on
    /// channel 0 advances the state; a release does so only while recording.
    /// Anything else is ignored.
    pub fn handle_midi_event_at(&mut self, global_ctr: &GlobalCounter, event: &[u8], now: u64)
        requires
            old(self).wf(),
        ensures
            final(self).wf(),
            final(self)@ == old(self)@.after_midi(global_ctr@, event@, now),
    {
        if event.len() != 3 {
            return;
        }
        if event[0] == 0xB0 && event[1] == 0x40 {
            if event[2] > 0 || self.state == StateType::Recording {
                self.advance_state_at(global_ctr, now);
            }
        }
    }

    /// Handles a MIDI message, reading the wall clock for double-click
    /// detection.
    pub fn handle_midi_event(&mut self, global_ctr: &GlobalCounter, event: &[u8])
        requires
            old(self).wf(),
        ensures
            final(self).wf(),
            final(self)@ == old(self)@.after_midi(global_ctr@, event@, final(self)@.last_change),
            !is_pedal_trigger(event@, old(self)@.state) ==> final(self)@ == old(self)@,
    {
        let now = now_millis();
        self.handle_midi_event_at(global_ctr, event, now);
    }
    /// Appends `fl[from..to]`/`fr[from..to]` to the loop while recording,
    /// moving the write head to the end and the loop length along.
    fn record(
        &mut self,
        global_ctr: &mut GlobalCounter,
        fl_input: &[Sample],
        fr_input: &[Sample],
        from: usize,
        to: usize,
    )
        requires
            old(self).wf(),
            fl_input@.len() == fr_input@.len(),
            from <= to <= fl_input@.len(),
        ensures
            final(self).wf(),
            (final(self)@, final(global_ctr)@) == old(self)@.recorded(
                old(global_ctr)@,
                fl_input@.subrange(from as int, to as int),
                fr_input@.subrange(from as int, to as int),
            ),
    {
        append_samples(&mut self.fl_buffer, fl_input, from, to);
        append_samples(&mut self.fr_buffer, fr_input, from, to);
        self.write_head = self.fl_buffer.len();
        global_ctr.set_len(self.id, self.fl_buffer.len() as u64);
    }

    /// Adds `fl[from..]`/`fr[from..]` into the loop from the write head on,
    /// wrapping at the end of the loop.
    fn overdub(&mut self, fl_input: &[Sample], fr_input: &[Sample], from: usize)
        requires
            old(self).wf(),
            fl_input@.len() == fr_input@.len(),
            from <= fl_input@.len(),
        ensures
            final(self).wf(),
            final(self)@ == old(self)@.overdubbed(
                fl_input@.subrange(from as int, fl_input@.len() as int),
                fr_input@.subrange(from as int, fr_input@.len() as int),
            ),
    {
        let b = self.fl_buffer.len();
        if b == 0 {
            return;
        }
        let n = fl_input.len();
        let ghost fl_in = fl_input@.subrange(from as int, n as int);
        let ghost fr_in = fr_input@.subrange(from as int, n as int);
        let mut w: usize = if self.write_head >= b {
            0
        } else {
            self.write_head
        };
        let ghost w0 = w as int;
        proof {
            vstd::arithmetic::div_mod::lemma_small_mod(w0 as nat, b as nat);
        }
        let mut k: usize = from;
        while k < n
            invariant
                from <= k <= n == fl_input@.len() == fr_input@.len(),
                b == self.fl_buffer@.len() == self.fr_buffer@.len() == old(self)@.fl.len(),
                b == old(self)@.fr.len(),
                b > 0,
                w < b,
                w as int == (w0 + (k - from)) % (b as int),
                0 <= w0 < b,
                fl_in == fl_input@.subrange(from as int, n as int),
                fr_in == fr_input@.subrange(from as int, n as int),
                self.fl_buffer@ == overdub_seq(old(self)@.fl, w0, fl_in.subrange(0, k - from)),
                self.fr_buffer@ == overdub_seq(old(self)@.fr, w0, fr_in.subrange(0, k - from)),
                self@ == (TrackView { fl: self.fl_buffer@, fr: self.fr_buffer@, ..old(self)@ }),
            decreases n - k,
        {
            proof {
                let j = (k - from) as int;
                assert(fl_in.subrange(0, j + 1).drop_last() =~= fl_in.subrange(0, j));
                assert(fr_in.subrange(0, j + 1).drop_last() =~= fr_in.subrange(0, j));
                assert(fl_in.subrange(0, j + 1).last() == fl_input@[k as int]);
                assert(fr_in.subrange(0, j + 1).last() == fr_input@[k as int]);
                lemma_mod_step(w0 + j, b as int);
            }
            let ghost fl_prev = self.fl_buffer@;
            let ghost fr_prev = self.fr_buffer@;
            let lv = clipped_add(self.fl_buffer[w], fl_input[k]);
            self.fl_buffer.set(w, lv);
            let rv = clipped_add(self.fr_buffer[w], fr_input[k]);
            self.fr_buffer.set(w, rv);
            proof {
                let j = (k - from) as int;
                assert(self.fl_buffer@ == overdub_seq(old(self)@.fl, w0, fl_in.subrange(0, j + 1)));
                assert(self.fr_buffer@ == overdub_seq(old(self)@.fr, w0, fr_in.subrange(0, j + 1)));
            }
            w = if w + 1 == b {
                0
            } else {
                w + 1
            };
            k = k + 1;
        }
        assert(fl_in.subrange(0, n - from) =~= fl_in);
        assert(fr_in.subrange(0, n - from) =~= fr_in);
        self.write_head = w;
    }

    /// Consumes one tick of input, `fl_input`/`fr_input`, according to the
    /// state: a queued recording starts at its index (the track's own count
    /// restarting at 0, or at the number of frames recorded when the start falls
    /// inside the tick, and its loop length following the buffer), recording
    /// appends, a queued overdub appends up to its index and overdubs from
    /// there, and overdubbing adds into the loop. Other states ignore the
    /// input.
    pub fn read_from(&mut self, global_ctr: &mut GlobalCounter, fl_input: &[Sample], fr_input: &[Sample])
        requires
            old(self).wf(),
            fl_input@.len() == fr_input@.len(),
        ensures
            final(self).wf(),
            (final(self)@, final(global_ctr)@) == old(self)@.after_read(
                old(global_ctr)@,
                fl_input@,
                fr_input@,
            ),
    {
        self.last_write_head = self.write_head;
        let start = global_ctr.absolute(self.sync_ctr_id);
        let n = fl_input.len();
        match self.state {
            StateType::RecordingQueued(idx) => {
                if idx > start && idx - start > n as u64 {
                    return;
                }
                let from: usize = if idx > start {
                    (idx - start) as usize
                } else {
                    0
                };
                append_samples(&mut self.fl_buffer, fl_input, from, n);
                append_samples(&mut self.fr_buffer, fr_input, from, n);
                self.state = StateType::Recording;
                global_ctr.set_len(self.id, self.fl_buffer.len() as u64);
                let restart: u64 = if from > 0 {
                    (n - from) as u64
                } else {
                    0
                };
                global_ctr.reset_to(self.id, restart);
            },
            StateType::Recording => {
                self.record(global_ctr, fl_input, fr_input, 0, n);
                assert(fl_input@.subrange(0, n as int) =~= fl_input@);
                assert(fr_input@.subrange(0, n as int) =~= fr_input@);
            },
            StateType::OverdubbingQueued(idx) => {
                if idx > start && idx - start > n as u64 {
                    self.record(global_ctr, fl_input, fr_input, 0, n);
                    assert(fl_input@.subrange(0, n as int) =~= fl_input@);
                    assert(fr_input@.subrange(0, n as int) =~= fr_input@);
                    return;
                }
                let from: usize = if idx > start {
                    (idx - start) as usize
                } else {
                    0
                };
                if from > 0 {
                    self.record(global_ctr, fl_input, fr_input, 0, from);
                }
                self.state = StateType::Overdubbing;
                self.overdub(fl_input, fr_input, from);
            },
            StateType::Overdubbing => {
                self.overdub(fl_input, fr_input, 0);
                assert(fl_input@.subrange(0, n as int) =~= fl_input@);
                assert(fr_input@.subrange(0, n as int) =~= fr_input@);
            },
            _ => {},
        }
    }

    /// Mixes one tick of the loop into `fl_output`/`fr_output` by adding to
    /// the values there. An empty loop adds nothing; stopped or recording
    /// tracks rewind the read head and add nothing; a queued playback waits
    /// for its index and then starts playing at that frame.
    pub fn write_to(
        &mut self,
        global_ctr: &GlobalCounter,
        fl_output: &mut [MixSample],
        fr_output: &mut [MixSample],
    )
        requires
            old(self).wf(),
            old(fl_output)@.len() == old(fr_output)@.len(),
            has_headroom(old(fl_output)@),
            has_headroom(old(fr_output)@),
        ensures
            final(self).wf(),
            final(self)@ == old(self)@.after_write(global_ctr@, old(fl_output)@.len()),
            final(fl_output)@.len() == old(fl_output)@.len(),
            final(fr_output)@.len() == old(fr_output)@.len(),
            forall|i: int|
                0 <= i < old(fl_output)@.len() ==> final(fl_output)@[i] == old(fl_output)@[i]
                    + #[trigger] old(self)@.played(global_ctr@, old(fl_output)@.len(), old(self)@.fl)[i],
            forall|i: int|
                0 <= i < old(fr_output)@.len() ==> final(fr_output)@[i] == old(fr_output)@[i]
                    + #[trigger] old(self)@.played(global_ctr@, old(fr_output)@.len(), old(self)@.fr)[i],
    {
        let ghost t0 = self@;
        let ghost n0 = fl_output@.len();
        let b = self.fl_buffer.len();
        if b == 0 {
            return;
        }
        let n = fl_output.len();
        let start = global_ctr.absolute(self.sync_ctr_id);
        let mut from: usize = 0;
        match self.state {
            StateType::Playing | StateType::Overdubbing => {},
            StateType::PlayingQueued(idx) => {
                if idx > start && idx - start > n as u64 {
                    return;
                }
                if idx > start {
                    from = (idx - start) as usize;
                }
                self.state = StateType::Playing;
            },
            _ => {
                self.read_head = 0;
                return;
            },
        }
        assert(t0.plays(global_ctr@, n0));
        assert(from == t0.play_from(global_ctr@));
        let ghost r0 = self.read_head as int;
        proof {
            vstd::arithmetic::div_mod::lemma_small_mod(r0 as nat, b as nat);
        }
        let mut rh = self.read_head;
        let mut i = from;
        while i < n
            invariant
                from <= i <= n == fl_output@.len() == fr_output@.len(),
                n == n0 == old(fl_output)@.len() == old(fr_output)@.len(),
                b == self.fl_buffer@.len() == self.fr_buffer@.len() == t0.fl.len(),
                b > 0,
                self.fl_buffer@ == t0.fl,
                self.fr_buffer@ == t0.fr,
                rh < b,
                0 <= r0 < b,
                rh as int == (r0 + (i - from)) % (b as int),
                r0 == t0.read_head,
                from == t0.play_from(global_ctr@),
                t0.plays(global_ctr@, n0),
                forall|j: int| 0 <= j < from ==> fl_output@[j] == old(fl_output)@[j],
                forall|j: int| 0 <= j < from ==> fr_output@[j] == old(fr_output)@[j],
                forall|j: int| i <= j < n ==> fl_output@[j] == old(fl_output)@[j],
                forall|j: int| i <= j < n ==> fr_output@[j] == old(fr_output)@[j],
                forall|j: int|
                    from <= j < i ==> fl_output@[j] == old(fl_output)@[j] + t0.fl[(r0 + j - from) % (b as int)],
                forall|j: int|
                    from <= j < i ==> fr_output@[j] == old(fr_output)@[j] + t0.fr[(r0 + j - from) % (b as int)],
                has_headroom(old(fl_output)@),
                has_headroom(old(fr_output)@),
            decreases n - i,
        {
            proof {
                vstd::arithmetic::div_mod::lemma_small_mod(r0 as nat, b as nat);
                lemma_mod_step(r0 + (i - from), b as int);
            }
            assert(fl_output@[i as int] == old(fl_output)@[i as int]);
            assert(fr_output@[i as int] == old(fr_output)@[i as int]);
            assert(i64::MIN - i32::MIN <= old(fl_output)@[i as int] <= i64::MAX - i32::MAX);
            assert(i64::MIN - i32::MIN <= old(fr_output)@[i as int] <= i64::MAX - i32::MAX);
            let lv = fl_output[i] + self.fl_buffer[rh] as i64;
            fl_output[i] = lv;
            let rv = fr_output[i] + self.fr_buffer[rh] as i64;
            fr_output[i] = rv;
            rh = if rh + 1 == b {
                0
            } else {
                rh + 1
            };
            i = i + 1;
        }
        self.read_head = rh;
        self.write_head = rh;
        proof {
            let pl = t0.played(global_ctr@, n0, t0.fl);
            let pr = t0.played(global_ctr@, n0, t0.fr);
            assert forall|j: int| 0 <= j < n0 implies fl_output@[j] == old(fl_output)@[j] + pl[j] by {}
            assert forall|j: int| 0 <= j < n0 implies fr_output@[j] == old(fr_output)@[j] + pr[j] by {}
        }
    }
}

} // verus!
