//! Properties of the engine that span several operations.
use vstd::prelude::*;

use crate::counter::CounterView;
use crate::track::{clip_add, is_double_click, overdub_seq, MixSample, Sample, StateType, TrackView};
use crate::track_id::{TrackId, NUM_TRACKS};
use crate::track_manager::{lengths_synced, midi_fold, ManagerView, TrackCommand, TrackManager};

verus! {

/// Every track of the engine has left and right buffers of equal length.
pub proof fn buffer_parity(m: &TrackManager)
    requires
        m.wf(),
    ensures
        forall|i: int| 0 <= i < NUM_TRACKS ==> (#[trigger] m@.tracks[i]).fl.len() == m@.tracks[i].fr.len(),
{
}

/// Over a tick, no sample count goes down, except the focused track's own
/// count when that track starts recording in the tick.
pub proof fn counter_monotone(
    m: ManagerView,
    cmd: Option<TrackCommand>,
    events: Seq<Seq<u8>>,
    fl: Seq<Sample>,
    fr: Seq<Sample>,
    now: u64,
    n: nat,
)
    requires
        m.wf(),
        n <= u64::MAX,
    ensures
        forall|id: TrackId|
            #![trigger m.after_tick(cmd, events, fl, fr, now, n).ctr.absolute(id)]
            m.after_tick(cmd, events, fl, fr, now, n).ctr.absolute(id) >= m.ctr.absolute(id) || ({
                let m2 = m.after_command(cmd, now).after_midi(events, now);
                &&& id == m2.focused
                &&& m2.track(id).state is RecordingQueued
                &&& m.before_output(cmd, events, fl, fr, now).track(id).state is Recording
            }),
{
    let m2 = m.after_command(cmd, now).after_midi(events, now);
    let m3 = m.before_output(cmd, events, fl, fr, now);
    let f = m2.focused;
    let t = m2.track(f);
    lemma_control_keeps_loops(m, cmd, events, now);
    assert(0 <= f.spec_index() < NUM_TRACKS);
    assert(m.tracks[f.spec_index()].id.spec_index() == f.spec_index());
    crate::track_id::lemma_index_injective(t.id, f);
    assert(t.id == f);
    assert forall|id: TrackId|
        #![trigger m.after_tick(cmd, events, fl, fr, now, n).ctr.absolute(id)]
        m.after_tick(cmd, events, fl, fr, now, n).ctr.absolute(id) >= m.ctr.absolute(id) || ({
            &&& id == f
            &&& t.state is RecordingQueued
            &&& m3.track(id).state is Recording
        }) by {
        let i = id.spec_index();
        assert(0 <= i < NUM_TRACKS);
        assert(m.after_tick(cmd, events, fl, fr, now, n).ctr.cnt[i] == crate::counter::sat_add(m3.ctr.cnt[i], n as u64));
        if !(id == f && t.state is RecordingQueued && m3.track(id).state is Recording) {
            assert(m3.ctr.cnt[i] == m.ctr.cnt[i]) by {
                crate::track_id::lemma_index_injective(id, f);
                match t.state {
                    StateType::RecordingQueued(idx) => {},
                    StateType::OverdubbingQueued(idx) => {},
                    _ => {},
                }
            }
        }
    }
}

/// An advance either clears the track or keeps its buffers; it leads into a
/// state with a loop only from a state with a loop.
proof fn lemma_advance_keeps_loop(t: TrackView, c: CounterView, now: u64)
    ensures
        t.advanced(c, now).state.spec_has_loop() ==> t.state.spec_has_loop() && t.advanced(c, now).fl
            == t.fl && t.advanced(c, now).fr == t.fr && t.advanced(c, now).id == t.id,
        t.advanced(c, now).fl.len() <= t.fl.len(),
{
}

/// MIDI messages that leave a track holding a loop left its buffers alone.
proof fn lemma_midi_keeps_loop(t: TrackView, c: CounterView, events: Seq<Seq<u8>>, now: u64)
    ensures
        midi_fold(t, c, events, now).state.spec_has_loop() ==> t.state.spec_has_loop() && midi_fold(
            t,
            c,
            events,
            now,
        ).fl == t.fl && midi_fold(t, c, events, now).fr == t.fr,
        midi_fold(t, c, events, now).id == t.id,
        midi_fold(t, c, events, now).sync_ctr == t.sync_ctr,
        midi_fold(t, c, events, now).fl.len() <= t.fl.len(),
    decreases events.len(),
{
    if events.len() > 0 {
        let prev = midi_fold(t, c, events.drop_last(), now);
        lemma_midi_keeps_loop(t, c, events.drop_last(), now);
        lemma_advance_keeps_loop(prev, c, now);
    }
}

/// Overdubbing keeps the length of the loop.
pub proof fn lemma_overdub_len(buf: Seq<Sample>, w0: int, input: Seq<Sample>)
    ensures
        overdub_seq(buf, w0, input).len() == buf.len(),
    decreases input.len(),
{
    if input.len() > 0 && buf.len() > 0 {
        lemma_overdub_len(buf, w0, input.drop_last());
    }
}

/// The command and MIDI steps of a tick leave every track that still holds
/// a loop with the buffers it had, and the counters unchanged.
proof fn lemma_control_keeps_loops(m: ManagerView, cmd: Option<TrackCommand>, events: Seq<Seq<u8>>, now: u64)
    requires
        m.wf(),
    ensures
        ({
            let m2 = m.after_command(cmd, now).after_midi(events, now);
            &&& m2.ctr == m.ctr
            &&& m2.tracks.len() == NUM_TRACKS
            &&& forall|i: int|
                0 <= i < NUM_TRACKS && (#[trigger] m2.tracks[i]).state.spec_has_loop() ==> m.tracks[i].state.spec_has_loop()
                    && m2.tracks[i].fl == m.tracks[i].fl && m2.tracks[i].fr == m.tracks[i].fr
            &&& forall|i: int| 0 <= i < NUM_TRACKS ==> (#[trigger] m2.tracks[i]).id == m.tracks[i].id
            &&& forall|i: int| 0 <= i < NUM_TRACKS ==> (#[trigger] m2.tracks[i]).fl.len() <= m.tracks[i].fl.len()
        }),
{
    let m1 = m.after_command(cmd, now);
    let m2 = m1.after_midi(events, now);
    let f = m1.focused;
    assert(0 <= f.spec_index() < NUM_TRACKS);
    lemma_midi_keeps_loop(m1.track(f), m1.ctr, events, now);
    match cmd {
        Some(TrackCommand::AdvanceTrackState) => {
            lemma_advance_keeps_loop(m.track(m.focused), m.ctr, now);
        },
        _ => {},
    }
    assert forall|i: int| 0 <= i < NUM_TRACKS && (#[trigger] m2.tracks[i]).state.spec_has_loop() implies m.tracks[i].state.spec_has_loop()
        && m2.tracks[i].fl == m.tracks[i].fl && m2.tracks[i].fr == m.tracks[i].fr by {
        if i == f.spec_index() {
        }
    }
}

/// Reading one tick of input keeps the loop length of a track holding a
/// loop equal to its buffer length, and never shortens the buffer.
proof fn lemma_read_keeps_length(t: TrackView, c: CounterView, fl: Seq<Sample>, fr: Seq<Sample>)
    requires
        t.wf(),
        c.wf(),
        fl.len() == fr.len(),
        t.state.spec_has_loop() ==> c.get_len(t.id) == t.fl.len(),
        t.fl.len() + fl.len() <= usize::MAX,
    ensures
        ({
            let (t2, c2) = t.after_read(c, fl, fr);
            &&& t2.state.spec_has_loop() ==> c2.get_len(t.id) == t2.fl.len()
            &&& t2.id == t.id
            &&& t.state.spec_has_loop() ==> t2.state.spec_has_loop() && t2.fl.len() >= t.fl.len()
            &&& forall|j: int| 0 <= j < NUM_TRACKS && j != t.id.spec_index() ==> #[trigger] c2.len[j] == c.len[j]
            &&& c2.wf()
        }),
{
    let t1 = TrackView { last_write_head: t.write_head, ..t };
    let n = fl.len();
    match t1.state {
        StateType::OverdubbingQueued(idx) => {
            if !t1.not_yet(c, idx, n) {
                let from = t1.offset_of(c, idx);
                let (t2, c2) = if from > 0 {
                    t1.recorded(c, fl.subrange(0, from), fr.subrange(0, from))
                } else {
                    (t1, c)
                };
                let u = TrackView { state: StateType::Overdubbing, ..t2 };
                lemma_overdub_len(u.fl, u.overdub_start(), fl.subrange(from, n as int));
                lemma_overdub_len(u.fr, u.overdub_start(), fr.subrange(from, n as int));
                let w = u.overdubbed(fl.subrange(from, n as int), fr.subrange(from, n as int));
                assert(w.fl.len() == u.fl.len());
                assert(c2.get_len(t.id) == u.fl.len());
                assert(u.fl.len() >= t.fl.len());
                assert(c2.wf());
            }
        },
        StateType::Overdubbing => {
            lemma_overdub_len(t1.fl, t1.overdub_start(), fl);
        },
        _ => {},
    }
}

/// Every tick keeps each loop length equal to the buffer length of its
/// track, for the tracks that hold a loop.
pub proof fn lengths_stay_synced(
    m: ManagerView,
    cmd: Option<TrackCommand>,
    events: Seq<Seq<u8>>,
    fl: Seq<Sample>,
    fr: Seq<Sample>,
    now: u64,
    n: nat,
)
    requires
        m.wf(),
        lengths_synced(m),
        fl.len() == fr.len(),
        forall|i: int| 0 <= i < NUM_TRACKS ==> (#[trigger] m.tracks[i]).fl.len() + fl.len() <= usize::MAX,
    ensures
        lengths_synced(m.after_tick(cmd, events, fl, fr, now, n)),
{
    lemma_length_step(m, cmd, events, fl, fr, now, n);
}

/// Once a track holds a loop of non-zero length, a tick that does not clear
/// it (the track still holds a loop after the tick's command and MIDI)
/// leaves its loop length non-zero and no shorter.
pub proof fn loop_length_stable(
    m: ManagerView,
    id: TrackId,
    cmd: Option<TrackCommand>,
    events: Seq<Seq<u8>>,
    fl: Seq<Sample>,
    fr: Seq<Sample>,
    now: u64,
    n: nat,
)
    requires
        m.wf(),
        lengths_synced(m),
        fl.len() == fr.len(),
        forall|i: int| 0 <= i < NUM_TRACKS ==> (#[trigger] m.tracks[i]).fl.len() + fl.len() <= usize::MAX,
        m.ctr.get_len(id) > 0,
        m.after_command(cmd, now).after_midi(events, now).track(id).state.spec_has_loop(),
    ensures
        m.after_tick(cmd, events, fl, fr, now, n).ctr.get_len(id) >= m.ctr.get_len(id),
{
    lemma_length_step(m, cmd, events, fl, fr, now, n);
}

proof fn lemma_length_step(
    m: ManagerView,
    cmd: Option<TrackCommand>,
    events: Seq<Seq<u8>>,
    fl: Seq<Sample>,
    fr: Seq<Sample>,
    now: u64,
    n: nat,
)
    requires
        m.wf(),
        lengths_synced(m),
        fl.len() == fr.len(),
        forall|i: int| 0 <= i < NUM_TRACKS ==> (#[trigger] m.tracks[i]).fl.len() + fl.len() <= usize::MAX,
    ensures
        lengths_synced(m.after_tick(cmd, events, fl, fr, now, n)),
        forall|id: TrackId|
            #![trigger m.after_tick(cmd, events, fl, fr, now, n).ctr.get_len(id)]
            m.after_command(cmd, now).after_midi(events, now).track(id).state.spec_has_loop() ==> m.after_tick(
                cmd,
                events,
                fl,
                fr,
                now,
                n,
            ).ctr.get_len(id) >= m.ctr.get_len(id),
{
    let m1 = m.after_command(cmd, now);
    let m2 = m1.after_midi(events, now);
    let m3 = m.before_output(cmd, events, fl, fr, now);
    let m4 = m.after_tick(cmd, events, fl, fr, now, n);
    lemma_control_keeps_loops(m, cmd, events, now);
    let f = m2.focused;
    let fi = f.spec_index();
    assert(0 <= fi < NUM_TRACKS);
    let t = m2.tracks[fi];
    assert(t.id == f) by {
        crate::track_id::lemma_index_injective(m.tracks[fi].id, f);
    }
    assert(m2.wf()) by {
        assert forall|i: int| 0 <= i < NUM_TRACKS implies (#[trigger] m2.tracks[i]).wf() && m2.tracks[i].id.spec_index() == i by {
            lemma_control_wf(m, cmd, events, now, i);
        }
    }
    assert(m.tracks[fi].fl.len() + fl.len() <= usize::MAX);
    lemma_read_keeps_length(t, m2.ctr, fl, fr);
    assert forall|i: int| 0 <= i < NUM_TRACKS && (#[trigger] m4.tracks[i]).state.spec_has_loop() implies m4.ctr.len[i]
        == m4.tracks[i].fl.len() by {
        assert(m4.tracks[i] == m3.tracks[i].after_write(m3.ctr, n));
        assert(m4.ctr.len[i] == m3.ctr.len[i]);
    }
    assert forall|id: TrackId|
        #![trigger m4.ctr.get_len(id)]
        m2.track(id).state.spec_has_loop() implies m4.ctr.get_len(id) >= m.ctr.get_len(id) by {
        let i = id.spec_index();
        assert(0 <= i < NUM_TRACKS);
        assert(m4.ctr.len[i] == m3.ctr.len[i]);
    }
}

/// The command and MIDI steps keep every track well formed.
proof fn lemma_control_wf(m: ManagerView, cmd: Option<TrackCommand>, events: Seq<Seq<u8>>, now: u64, i: int)
    requires
        m.wf(),
        0 <= i < NUM_TRACKS,
    ensures
        m.after_command(cmd, now).after_midi(events, now).tracks[i].wf(),
        m.after_command(cmd, now).after_midi(events, now).tracks[i].id.spec_index() == i,
{
    let m1 = m.after_command(cmd, now);
    lemma_control_keeps_loops(m, cmd, events, now);
    assert(0 <= m1.focused.spec_index() < NUM_TRACKS);
    assert(m1.wf());
    lemma_midi_wf(m1.track(m1.focused), m1.ctr, events, now);
}

/// MIDI messages keep a track well formed.
proof fn lemma_midi_wf(t: TrackView, c: CounterView, events: Seq<Seq<u8>>, now: u64)
    requires
        t.wf(),
    ensures
        midi_fold(t, c, events, now).wf(),
    decreases events.len(),
{
    if events.len() > 0 {
        lemma_midi_wf(t, c, events.drop_last(), now);
    }
}

/// Two tracks that follow the same other track's counter and are advanced
/// from the same state at the same moment are queued for the same index,
/// that counter's next loop boundary, and cross into recording or
/// overdubbing on the same tick of input.
pub proof fn sync_determinism(
    t1: TrackView,
    t2: TrackView,
    c: CounterView,
    now: u64,
    c2: CounterView,
    fl1: Seq<Sample>,
    fr1: Seq<Sample>,
    fl2: Seq<Sample>,
    fr2: Seq<Sample>,
)
    requires
        t1.wf(),
        t2.wf(),
        t1.sync_ctr == t2.sync_ctr,
        t1.sync_ctr != t1.id,
        t2.sync_ctr != t2.id,
        t1.state == t2.state,
        t1.state is Idle || t1.state is Recording,
        t1.state is Recording || !is_double_click(t1.last_change, now),
        t2.state is Recording || !is_double_click(t2.last_change, now),
        fl1.len() == fl2.len(),
    ensures
        t1.advanced(c, now).state == t2.advanced(c, now).state,
        t1.advanced(c, now).state == (if t1.state is Idle {
            StateType::RecordingQueued(c.next_loop(t1.sync_ctr))
        } else {
            StateType::OverdubbingQueued(c.next_loop(t1.sync_ctr))
        }),
        t1.advanced(c, now).after_read(c2, fl1, fr1).0.state == t2.advanced(c, now).after_read(
            c2,
            fl2,
            fr2,
        ).0.state,
{
}

/// Tracks that follow the same other track's counter and wait for the same
/// index cross into recording or overdubbing on the same tick of input, and
/// the first one's read leaves the followed counter as it was for the second.
pub proof fn sync_read_determinism(
    t1: TrackView,
    t2: TrackView,
    c: CounterView,
    fl1: Seq<Sample>,
    fr1: Seq<Sample>,
    fl2: Seq<Sample>,
    fr2: Seq<Sample>,
)
    requires
        t1.wf(),
        t2.wf(),
        c.wf(),
        t1.sync_ctr == t2.sync_ctr,
        t1.sync_ctr != t1.id,
        t2.sync_ctr != t2.id,
        t1.state == t2.state,
        t1.state is RecordingQueued || t1.state is OverdubbingQueued,
        fl1.len() == fl2.len(),
    ensures
        t1.after_read(c, fl1, fr1).0.state == t2.after_read(c, fl2, fr2).0.state,
        t1.after_read(c, fl1, fr1).1.absolute(t1.sync_ctr) == c.absolute(t1.sync_ctr),
        t1.after_read(c, fl1, fr1).1.get_len(t1.sync_ctr) == c.get_len(t1.sync_ctr),
{
    crate::track_id::lemma_index_injective(t1.id, t1.sync_ctr);
}

/// A track that follows another track's loop of non-zero length, advanced
/// from `Idle`, is queued for that loop's next boundary:
/// `absolute + (len - relative) + 1`.
pub proof fn sync_trigger_index(t: TrackView, c: CounterView, now: u64)
    requires
        t.wf(),
        t.state is Idle,
        t.sync_ctr != t.id,
        !is_double_click(t.last_change, now),
        c.get_len(t.sync_ctr) > 0,
        c.absolute(t.sync_ctr) + c.get_len(t.sync_ctr) + 1 <= u64::MAX,
    ensures
        t.advanced(c, now).state == StateType::RecordingQueued(
            (c.absolute(t.sync_ctr) + (c.get_len(t.sync_ctr) - c.relative(t.sync_ctr)) + 1) as u64,
        ),
{
    vstd::arithmetic::div_mod::lemma_mod_bound(
        c.absolute(t.sync_ctr) as int,
        c.get_len(t.sync_ctr) as int,
    );
}

/// An overdub that does not reach the end of the loop adds each input
/// sample, clipped, at its own position from `w0` on and leaves the rest.
pub proof fn overdub_in_place(buf: Seq<Sample>, w0: int, input: Seq<Sample>)
    requires
        0 <= w0,
        w0 + input.len() <= buf.len(),
    ensures
        overdub_seq(buf, w0, input).len() == buf.len(),
        forall|p: int|
            0 <= p < buf.len() ==> #[trigger] overdub_seq(buf, w0, input)[p] == if w0 <= p < w0 + input.len() {
                clip_add(buf[p], input[p - w0])
            } else {
                buf[p]
            },
    decreases input.len(),
{
    lemma_overdub_len(buf, w0, input);
    if input.len() > 0 {
        let prev_in = input.drop_last();
        overdub_in_place(buf, w0, prev_in);
        let q = w0 + input.len() - 1;
        vstd::arithmetic::div_mod::lemma_small_mod(q as nat, buf.len());
        assert forall|p: int| 0 <= p < buf.len() implies #[trigger] overdub_seq(buf, w0, input)[p] == if w0 <= p < w0 + input.len() {
            clip_add(buf[p], input[p - w0])
        } else {
            buf[p]
        } by {
            if p != q && w0 <= p < w0 + input.len() {
                assert(prev_in[p - w0] == input[p - w0]);
            }
        }
    }
}

/// Overdubbing silence leaves the loop as it was.
pub proof fn overdub_silence(buf: Seq<Sample>, w0: int, input: Seq<Sample>)
    requires
        0 <= w0,
        w0 + input.len() <= buf.len(),
        forall|k: int| 0 <= k < input.len() ==> input[k] == 0,
    ensures
        overdub_seq(buf, w0, input) == buf,
{
    overdub_in_place(buf, w0, input);
    assert(overdub_seq(buf, w0, input) =~= buf);
}

/// Two advances within the double-click interval, the first from any state
/// but `Recording`, leave the track idle with empty buffers.
pub proof fn double_click_clears(t: TrackView, c1: CounterView, now1: u64, c2: CounterView, now2: u64)
    requires
        t.state != StateType::Recording,
        now2 < now1 + crate::track::DOUBLE_CLICK_MS,
    ensures
        t.advanced(c1, now1).advanced(c2, now2).state == StateType::Idle,
        t.advanced(c1, now1).advanced(c2, now2).fl.len() == 0,
        t.advanced(c1, now1).advanced(c2, now2).fr.len() == 0,
{
}

/// Mixing is order free: two tracks writing into the same output add the
/// same values whichever writes first, and each ends in the same state.
pub proof fn mix_order_free(a: TrackView, b: TrackView, c: CounterView, out: Seq<MixSample>)
    ensures
        ({
            let n = out.len();
            let pa = a.played(c, n, a.fl);
            let pb = b.played(c, n, b.fl);
            Seq::new(n, |i: int| (out[i] + pa[i]) + pb[i]) =~= Seq::new(n, |i: int| (out[i] + pb[i]) + pa[i])
        }),
        ({
            let n = out.len();
            let pa = a.played(c, n, a.fr);
            let pb = b.played(c, n, b.fr);
            Seq::new(n, |i: int| (out[i] + pa[i]) + pb[i]) =~= Seq::new(n, |i: int| (out[i] + pb[i]) + pa[i])
        }),
{
}

/// A cleared track adds nothing to any output frame.
pub proof fn cleared_track_is_silent(t: TrackView, now: u64, c: CounterView, n: nat)
    ensures
        t.cleared(now).played(c, n, t.cleared(now).fl) =~= Seq::new(n, |i: int| 0int),
        t.cleared(now).played(c, n, t.cleared(now).fr) =~= Seq::new(n, |i: int| 0int),
{
}

} // verus!
