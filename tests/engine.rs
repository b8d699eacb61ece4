use deloop::counter::GlobalCounter;
use deloop::track::{Settings, StateType, SyncTo, Track};
use deloop::track_id::TrackId;
use deloop::track_manager::{command_outcome, TrackCommand, TrackInfo, TrackManager, TrackResponse};

const RATE: u64 = 48000;

/// A float amplitude as a fixed-point sample with 23 fractional bits.
fn fixed(x: f32) -> i32 {
    (x as f64 * 8388608.0).round() as i32
}

fn wall_clock_ms() -> u64 {
    std::time::SystemTime::now()
        .duration_since(std::time::UNIX_EPOCH)
        .unwrap()
        .as_millis() as u64
}

/// A track that has recorded `input` once and is left in `Recording`.
fn recording_track(ctr: &mut GlobalCounter, input: &[i32]) -> Track {
    let mut track = Track::new_at(TrackId::A, 0);
    track.advance_state_at(ctr, 1_000);
    track.read_from(ctr, input, input);
    track
}

/// One tick of the engine with `n` frames of `input`; returns the outputs.
fn tick(
    m: &mut TrackManager,
    command: Option<TrackCommand>,
    input: &[i32],
    now: u64,
) -> (Vec<i64>, Vec<i64>, Option<TrackResponse>, Vec<TrackInfo>) {
    let mut fl = vec![0i64; input.len()];
    let mut fr = vec![0i64; input.len()];
    let out = m.process(command, &Vec::new(), input, input, &mut fl, &mut fr, now, 0);
    (fl, fr, out.response, out.infos)
}

#[test]
fn test_stop() {
    let mut global_ctr = GlobalCounter::new(48000);
    let mut track = Track::new_at(TrackId::A, 0);
    track.advance_state_at(&global_ctr, 1_000);
    track.read_from(&mut global_ctr, &[], &[]);
    assert_eq!(track.state(), StateType::Recording);
    let input_buffer = (0..1024).map(|x| x as i32).collect::<Vec<i32>>();
    track.read_from(&mut global_ctr, &input_buffer, &input_buffer);
    track.clear();

    assert_eq!(track.state(), StateType::Idle);
    assert_eq!(track.last_state(), StateType::Idle);
    assert_eq!((wall_clock_ms() - track.last_state_change()) / 1000, 0);
    assert_eq!(track.read_head(), 0);
    assert_eq!(track.write_head(), 0);
    assert_eq!(track.get_raw_buffers().0.len(), 0);
    assert_eq!(track.get_raw_buffers().1.len(), 0);
}

#[test]
fn record_play_basic() {
    let one = fixed(1.0);
    let mut m = TrackManager::new(RATE, 0);
    let chunk = vec![one; 512];
    // The pedal at sample 0 queues and starts the recording in the same tick.
    let (_, _, resp, _) = tick(&mut m, Some(TrackCommand::AdvanceTrackState), &chunk, 1_000);
    assert_eq!(resp, Some(TrackResponse::CommandSucceeded));
    assert_eq!(m.track(TrackId::A).state(), StateType::Recording);
    let mut recorded = 512;
    while recorded < 48000 {
        let n = std::cmp::min(512, 48000 - recorded);
        tick(&mut m, None, &vec![one; n], 1_100);
        recorded += n;
    }
    assert_eq!(m.global_counter().absolute(TrackId::A), 48000);
    // The pedal at sample 48000: the overdub is queued for that very index.
    let silence = vec![0; 512];
    let (fl, fr, _, _) = tick(&mut m, Some(TrackCommand::AdvanceTrackState), &silence, 2_000);
    assert_eq!(m.track(TrackId::A).state(), StateType::Overdubbing);
    let (bl, br) = m.track(TrackId::A).get_raw_buffers();
    assert_eq!(bl.len(), 48000);
    assert_eq!(br.len(), 48000);
    assert_eq!(m.global_counter().get_len(TrackId::A), 48000);
    assert!(fl.iter().all(|&x| x == one as i64));
    assert!(fr.iter().all(|&x| x == one as i64));
    // 48000 samples of playback in all, then the loop wraps.
    let mut played = 512;
    while played < 48000 + 1024 {
        let n = std::cmp::min(512, 48000 + 1024 - played);
        let (fl, _, _, _) = tick(&mut m, None, &vec![0; n], 2_100);
        assert!(fl.iter().all(|&x| x == one as i64));
        played += n;
    }
    assert_eq!(m.track(TrackId::A).read_head(), 1024);
    tick(&mut m, Some(TrackCommand::AdvanceTrackState), &silence, 3_000);
    assert_eq!(m.track(TrackId::A).state(), StateType::Playing);
}

#[test]
fn sync_to_master() {
    let mut ctr = GlobalCounter::new(RATE);
    ctr.set_len(TrackId::A, 24000);
    ctr.reset_to(TrackId::A, 34000);
    assert_eq!(ctr.relative(TrackId::A), 10000);
    let mut b = Track::new_at(TrackId::B, 0);
    b.configure(Settings { sync: SyncTo::Track(TrackId::A) });
    b.advance_state_at(&ctr, 1_000);
    assert_eq!(b.state(), StateType::RecordingQueued(34000 + 14001));
    // Nothing is recorded before the boundary.
    ctr.advance_all(13000);
    let input: Vec<i32> = (0..512).collect();
    b.read_from(&mut ctr, &input, &input);
    assert_eq!(b.get_raw_buffers().0.len(), 0);
    // The tick that holds the boundary records from its frame on.
    ctr.advance_all(1000);
    assert_eq!(ctr.absolute(TrackId::A), 48000);
    b.read_from(&mut ctr, &input, &input);
    assert_eq!(b.state(), StateType::Recording);
    assert_eq!(b.get_raw_buffers().0.len(), 511);
    assert_eq!(b.get_raw_buffers().0[0], 1);
    assert_eq!(ctr.get_len(TrackId::B), 511);
    // A start inside the tick restarts the own count at the frames recorded.
    assert_eq!(ctr.absolute(TrackId::B), 511);
}

#[test]
fn recording_restarts_own_count() {
    // A start at the first frame of the tick restarts the count at 0.
    let mut ctr = GlobalCounter::new(RATE);
    ctr.reset_to(TrackId::A, 900);
    let mut t = Track::new_at(TrackId::A, 0);
    t.advance_state_at(&ctr, 1_000);
    assert_eq!(t.state(), StateType::RecordingQueued(900));
    t.read_from(&mut ctr, &[1; 64], &[1; 64]);
    assert_eq!(ctr.absolute(TrackId::A), 0);
    assert_eq!(ctr.get_len(TrackId::A), 64);
    // A start at frame 24 of a 64-frame tick restarts it at 40.
    let mut ctr = GlobalCounter::new(RATE);
    ctr.set_len(TrackId::A, 100);
    ctr.reset_to(TrackId::A, 76);
    let mut b = Track::new_at(TrackId::B, 0);
    b.configure(Settings { sync: SyncTo::Track(TrackId::A) });
    b.advance_state_at(&ctr, 1_000);
    assert_eq!(b.state(), StateType::RecordingQueued(101));
    ctr.advance_all(1);
    let input: Vec<i32> = (0..64).collect();
    b.read_from(&mut ctr, &input, &input);
    assert_eq!(b.get_raw_buffers().0, &input[24..]);
    assert_eq!(ctr.absolute(TrackId::B), 40);
    assert_eq!(ctr.get_len(TrackId::B), 40);
}

/// Playing track from a recording of `n` samples of `v`.
fn playing_track(ctr: &mut GlobalCounter, n: usize, v: i32) -> Track {
    let mut t = recording_track(ctr, &vec![v; n]);
    t.advance_state_at(ctr, 2_000);
    t.read_from(ctr, &[], &[]);
    assert_eq!(t.state(), StateType::Overdubbing);
    t.advance_state_at(ctr, 3_000);
    assert_eq!(t.state(), StateType::Playing);
    t
}

#[test]
fn double_click_clears() {
    let mut ctr = GlobalCounter::new(RATE);
    let mut t = playing_track(&mut ctr, 100, 7);
    t.advance_state_at(&ctr, 4_000);
    t.advance_state_at(&ctr, 4_100);
    assert_eq!(t.state(), StateType::Idle);
    assert_eq!(t.get_raw_buffers().0.len(), 0);
    assert_eq!(t.get_raw_buffers().1.len(), 0);
}

#[test]
fn double_click_spares_recording() {
    let mut ctr = GlobalCounter::new(RATE);
    let mut t = recording_track(&mut ctr, &vec![3; 256]);
    t.read_from(&mut ctr, &vec![3; 100], &vec![3; 100]);
    t.advance_state_at(&ctr, 1_100);
    assert!(matches!(t.state(), StateType::OverdubbingQueued(_)));
    assert_eq!(t.get_raw_buffers().0.len(), 356);
}

#[test]
fn pedal_release_while_recording() {
    let mut ctr = GlobalCounter::new(RATE);
    let mut t = recording_track(&mut ctr, &vec![1; 64]);
    t.handle_midi_event_at(&ctr, &[0xB0, 0x40, 0x00], 5_000);
    assert!(matches!(t.state(), StateType::OverdubbingQueued(_)));
}

#[test]
fn pedal_release_ignored_outside_recording() {
    let mut ctr = GlobalCounter::new(RATE);
    let mut t = playing_track(&mut ctr, 64, 1);
    t.handle_midi_event_at(&ctr, &[0xB0, 0x40, 0x00], 5_000);
    assert_eq!(t.state(), StateType::Playing);
    t.handle_midi_event_at(&ctr, &[0xB0, 0x41, 0x7F], 6_000);
    assert_eq!(t.state(), StateType::Playing);
    t.handle_midi_event_at(&ctr, &[0xB0, 0x40], 7_000);
    assert_eq!(t.state(), StateType::Playing);
    t.handle_midi_event_at(&ctr, &[0xB0, 0x40, 0x7F], 8_000);
    assert_eq!(t.state(), StateType::Paused);
}

#[test]
fn overdub_accumulation() {
    let mut ctr = GlobalCounter::new(RATE);
    let mut t = recording_track(&mut ctr, &vec![fixed(0.25); 1000]);
    t.advance_state_at(&ctr, 2_000);
    let dub = vec![fixed(0.1); 1000];
    t.read_from(&mut ctr, &dub, &dub);
    assert_eq!(t.state(), StateType::Overdubbing);
    let (fl, fr) = t.get_raw_buffers();
    assert_eq!(fl.len(), 1000);
    assert!(fl.iter().all(|&x| x == fixed(0.35)));
    assert!(fr.iter().all(|&x| x == fixed(0.35)));
}

#[test]
fn overdub_clips_at_full_scale() {
    let mut ctr = GlobalCounter::new(RATE);
    let mut t = recording_track(&mut ctr, &vec![i32::MAX - 1; 4]);
    t.advance_state_at(&ctr, 2_000);
    t.read_from(&mut ctr, &[5, 5, 5, 5], &[-5, -5, -5, -5]);
    let (fl, fr) = t.get_raw_buffers();
    assert_eq!(fl, &[i32::MAX; 4]);
    assert_eq!(fr, &[i32::MAX - 6; 4]);
}

#[test]
fn buffers_stay_paired() {
    let mut ctr = GlobalCounter::new(RATE);
    let mut t = recording_track(&mut ctr, &[1, 2, 3]);
    t.read_from(&mut ctr, &[4, 5], &[6, 7]);
    t.advance_state_at(&ctr, 2_000);
    t.read_from(&mut ctr, &[1; 7], &[2; 7]);
    let (fl, fr) = t.get_raw_buffers();
    assert_eq!(fl.len(), fr.len());
    assert_eq!(fl.len(), 5);
    assert_eq!(fl, &[3, 4, 4, 5, 6]);
    assert_eq!(fr, &[5, 6, 5, 8, 9]);
}

#[test]
fn counter_never_goes_back_over_ticks() {
    let mut m = TrackManager::new(RATE, 0);
    let mut last = [0u64; 4];
    for k in 0..20u64 {
        let cmd = if k % 5 == 0 { Some(TrackCommand::AdvanceTrackState) } else { None };
        tick(&mut m, cmd, &[1; 128], 1_000 + k * 1_000);
        for (i, id) in [TrackId::A, TrackId::B, TrackId::C, TrackId::D].iter().enumerate() {
            let now = m.global_counter().absolute(*id);
            if *id != TrackId::A {
                assert!(now >= last[i]);
            }
            last[i] = now;
        }
    }
    assert_eq!(m.global_counter().absolute(TrackId::B), 20 * 128);
}

#[test]
fn loop_length_stays_set() {
    let mut m = TrackManager::new(RATE, 0);
    tick(&mut m, Some(TrackCommand::AdvanceTrackState), &[1; 64], 1_000);
    tick(&mut m, Some(TrackCommand::AdvanceTrackState), &[1; 64], 2_000);
    assert_eq!(m.global_counter().get_len(TrackId::A), 64);
    for k in 0..10 {
        tick(&mut m, None, &[1; 50], 3_000 + k);
        assert!(m.global_counter().get_len(TrackId::A) >= 64);
    }
}

#[test]
fn synced_tracks_share_trigger() {
    let mut ctr = GlobalCounter::new(RATE);
    ctr.set_len(TrackId::A, 1000);
    ctr.reset_to(TrackId::A, 2500);
    let mut b = Track::new_at(TrackId::B, 0);
    let mut c = Track::new_at(TrackId::C, 0);
    b.configure(Settings { sync: SyncTo::Track(TrackId::A) });
    c.configure(Settings { sync: SyncTo::Track(TrackId::A) });
    b.advance_state_at(&ctr, 1_000);
    c.advance_state_at(&ctr, 1_000);
    assert_eq!(b.state(), c.state());
    assert_eq!(b.state(), StateType::RecordingQueued(ctr.get_next_loop(TrackId::A)));
    assert_eq!(ctr.get_next_loop(TrackId::A), 3001);
    ctr.advance_all(500);
    b.read_from(&mut ctr, &[0; 600], &[0; 600]);
    c.read_from(&mut ctr, &[0; 600], &[0; 600]);
    assert_eq!(b.state(), StateType::Recording);
    assert_eq!(c.state(), StateType::Recording);
}

/// Track B overdubbing a five-sample loop.
fn overdubbing_b() -> Track {
    let mut ctr = GlobalCounter::new(RATE);
    let mut b = Track::new_at(TrackId::B, 0);
    b.advance_state_at(&ctr, 1_000);
    b.read_from(&mut ctr, &[1, 2, 3, 4, 5], &[6, 7, 8, 9, 10]);
    b.advance_state_at(&ctr, 2_000);
    b.read_from(&mut ctr, &[], &[]);
    assert_eq!(b.state(), StateType::Overdubbing);
    b
}

#[test]
fn mix_order_does_not_matter() {
    let mut a1 = playing_track(&mut GlobalCounter::new(RATE), 3, 10);
    let mut a2 = playing_track(&mut GlobalCounter::new(RATE), 3, 10);
    let mut b1 = overdubbing_b();
    let mut b2 = overdubbing_b();
    let ctr = GlobalCounter::new(RATE);
    let (mut l1, mut r1) = (vec![0i64; 8], vec![0i64; 8]);
    let (mut l2, mut r2) = (vec![0i64; 8], vec![0i64; 8]);
    a1.write_to(&ctr, &mut l1, &mut r1);
    b1.write_to(&ctr, &mut l1, &mut r1);
    b2.write_to(&ctr, &mut l2, &mut r2);
    a2.write_to(&ctr, &mut l2, &mut r2);
    assert_eq!(l1, l2);
    assert_eq!(r1, r2);
    assert_eq!(l1, vec![11, 12, 13, 14, 15, 11, 12, 13]);
    assert_eq!(r1, vec![16, 17, 18, 19, 20, 16, 17, 18]);
}

#[test]
fn cleared_track_is_silent() {
    let mut ctr = GlobalCounter::new(RATE);
    let mut t = playing_track(&mut ctr, 16, 9);
    t.clear_at(10_000);
    let (mut l, mut r) = (vec![5i64; 32], vec![-5i64; 32]);
    t.write_to(&ctr, &mut l, &mut r);
    assert_eq!(l, vec![5i64; 32]);
    assert_eq!(r, vec![-5i64; 32]);
}

#[test]
fn one_command_per_tick() {
    let mut m = TrackManager::new(RATE, 0);
    let (_, _, resp, infos) = tick(&mut m, None, &[0; 8], 1_000);
    assert_eq!(resp, None);
    assert_eq!(infos.len(), 6);
    let (_, _, resp, infos) = tick(&mut m, Some(TrackCommand::FocusOnTrack(TrackId::C)), &[0; 8], 2_000);
    assert_eq!(resp, Some(TrackResponse::CommandSucceeded));
    assert_eq!(m.focused_track_id(), TrackId::C);
    assert!(matches!(infos[0], TrackInfo::FocusedTrackChanged(TrackId::C)));
    assert!(matches!(infos[5], TrackInfo::CounterUpdate(_)));
    assert!(matches!(infos[6], TrackInfo::ProcessingLatency(0)));
}

#[test]
fn self_sync_is_refused() {
    let mut m = TrackManager::new(RATE, 0);
    let cmd = TrackCommand::ConfigureTrack(TrackId::B, Settings { sync: SyncTo::Track(TrackId::B) });
    let (_, _, resp, _) = tick(&mut m, Some(cmd), &[0; 8], 1_000);
    assert_eq!(resp, Some(TrackResponse::CommandFailed));
    let mut t = Track::new_at(TrackId::B, 0);
    t.configure(Settings { sync: SyncTo::Track(TrackId::B) });
    assert_eq!(t.settings().sync, SyncTo::Off);
    assert_eq!(t.get_status().ctr, TrackId::B);
    assert!(command_outcome(TrackResponse::CommandSucceeded, "x").is_ok());
    assert!(command_outcome(TrackResponse::CommandFailed, "Failed to configure track").is_err());
}

#[test]
fn waveform_published_while_recording() {
    let mut m = TrackManager::new(RATE, 0);
    let (_, _, _, infos) = tick(&mut m, Some(TrackCommand::AdvanceTrackState), &[4; 16], 1_000);
    match &infos[0] {
        TrackInfo::WaveformUpdate(id, status, fl, fr) => {
            assert_eq!(*id, TrackId::A);
            assert_eq!(status.buf_size, 16);
            assert_eq!(fl, &vec![4; 16]);
            assert_eq!(fr, &vec![4; 16]);
        }
        _ => panic!("expected a waveform"),
    }
    assert!(matches!(infos[1], TrackInfo::StatusUpdate(TrackId::B, _)));
}

#[test]
fn paused_track_resumes_at_boundary() {
    let mut ctr = GlobalCounter::new(RATE);
    let mut t = playing_track(&mut ctr, 10, 1);
    t.advance_state_at(&ctr, 4_000);
    assert_eq!(t.state(), StateType::Paused);
    t.advance_state_at(&ctr, 5_000);
    // The own loop has length 10 and the count is 0: next boundary at 11.
    assert_eq!(t.state(), StateType::PlayingQueued(11));
    let (mut l, mut r) = (vec![0i64; 8], vec![0i64; 8]);
    t.write_to(&ctr, &mut l, &mut r);
    assert_eq!(l, vec![0i64; 8]);
    ctr.advance_all(8);
    t.write_to(&ctr, &mut l, &mut r);
    assert_eq!(t.state(), StateType::Playing);
    assert_eq!(l, vec![0, 0, 0, 1, 1, 1, 1, 1]);
}

#[test]
fn counter_queries() {
    let mut ctr = GlobalCounter::new(44100);
    assert_eq!(ctr.sample_rate(), 44100);
    assert_eq!(ctr.relative(TrackId::D), 0);
    assert_eq!(ctr.get_next_loop(TrackId::D), 0);
    ctr.advance(TrackId::D, 25);
    ctr.set_len(TrackId::D, 10);
    assert_eq!(ctr.relative(TrackId::D), 5);
    assert_eq!(ctr.get_next_loop(TrackId::D), 31);
    ctr.reset_to(TrackId::D, u64::MAX - 2);
    assert_eq!(ctr.get_next_loop(TrackId::D), u64::MAX);
    ctr.advance_all(10);
    assert_eq!(ctr.absolute(TrackId::D), u64::MAX);
    assert_eq!(ctr.absolute(TrackId::A), 10);
}
