use deloop::common::{MonotonicCtr, RelativeCnt};
use deloop::error::Error;
use deloop::io_selector::{IoRequest, IoTask, SelectedIO};
use deloop::ports::{
    client_name, client_names, contains_str, ends_with, peers_to_disconnect, port_name_pattern,
    publish_plan, starts_with, subscription_plan, Connection, EnginePort, LabeledPorts,
};
use deloop::util::truncate_string;

fn names(v: &[&str]) -> Vec<String> {
    v.iter().map(|s| s.to_string()).collect()
}

fn pairs(plan: &[Connection]) -> Vec<(String, EnginePort)> {
    plan.iter().map(|c| (c.peer.clone(), c.port)).collect()
}

#[test]
fn labels_ports_by_suffix() {
    let l = LabeledPorts::from_ports_names(&names(&["dev:out_FL", "dev:out_FR", "dev:aux_MONO", "dev:other"]));
    assert_eq!(l.fl.as_deref(), Some("dev:out_FL"));
    assert_eq!(l.fr.as_deref(), Some("dev:out_FR"));
    assert_eq!(l.mono.as_deref(), Some("dev:aux_MONO"));
    let l = LabeledPorts::from_ports_names(&names(&["a_FL", "b_FL", "x"]));
    assert_eq!(l.fl.as_deref(), Some("b_FL"));
    assert_eq!(l.fr, None);
    assert_eq!(l.mono, None);
}

#[test]
fn subscribes_stereo_mono_and_midi() {
    let midi = names(&["pedal"]);
    let p = subscription_plan("synth", &names(&["synth:L_FL", "synth:R_FR"]), &midi).unwrap();
    assert_eq!(
        pairs(&p),
        vec![("synth:L_FL".to_string(), EnginePort::InputFl), ("synth:R_FR".to_string(), EnginePort::InputFr)]
    );
    let p = subscription_plan("mic", &names(&["mic:in_MONO"]), &midi).unwrap();
    assert_eq!(
        pairs(&p),
        vec![("mic:in_MONO".to_string(), EnginePort::InputFl), ("mic:in_MONO".to_string(), EnginePort::InputFr)]
    );
    let p = subscription_plan("pedal", &names(&["system:midi_capture_1"]), &midi).unwrap();
    assert_eq!(pairs(&p), vec![("system:midi_capture_1".to_string(), EnginePort::Control)]);
}

#[test]
fn subscription_errors() {
    let midi = names(&["pedal"]);
    match subscription_plan("ghost", &Vec::new(), &midi) {
        Err(Error::SourceNotFound { source_name }) => assert_eq!(source_name, "ghost"),
        other => panic!("unexpected {:?}", other),
    }
    match subscription_plan("odd", &names(&["odd:left_FL", "odd:x"]), &midi) {
        Err(Error::UnexpectedPortFormat { client_name, labeled_ports }) => {
            assert_eq!(client_name, "odd");
            assert_eq!(labeled_ports.fl.as_deref(), Some("odd:left_FL"));
        }
        other => panic!("unexpected {:?}", other),
    }
    assert!(matches!(
        subscription_plan("keys", &names(&["keys:port"]), &midi),
        Err(Error::UnexpectedPortFormat { .. })
    ));
}

#[test]
fn publishes_to_sinks() {
    let p = publish_plan("speakers", &names(&["speakers:playback_FL", "speakers:playback_FR"])).unwrap();
    assert_eq!(
        pairs(&p),
        vec![
            ("speakers:playback_FL".to_string(), EnginePort::OutputFl),
            ("speakers:playback_FR".to_string(), EnginePort::OutputFr)
        ]
    );
    match publish_plan("none", &Vec::new()) {
        Err(Error::SinkNotFound { sink_name }) => assert_eq!(sink_name, "none"),
        other => panic!("unexpected {:?}", other),
    }
    assert!(matches!(publish_plan("x", &names(&["x:a"])), Err(Error::UnexpectedPortFormat { .. })));
}

#[test]
fn lists_distinct_clients() {
    let mut c = client_names(&names(&["system:capture_1", "system:capture_2", "synth:out_FL", "bare"]));
    c.sort();
    assert_eq!(c, names(&["bare", "synth", "system"]));
    assert_eq!(client_name("a:b:c"), "a");
    assert_eq!(client_name(":x"), "");
}

#[test]
fn picks_peers_to_disconnect() {
    let conns = names(&["synth:L_FL", "other:x", "a2j:synth port"]);
    assert_eq!(peers_to_disconnect("synth", &conns, EnginePort::InputFl), names(&["synth:L_FL"]));
    assert_eq!(
        peers_to_disconnect("synth", &conns, EnginePort::Control),
        names(&["synth:L_FL", "a2j:synth port"])
    );
    assert!(starts_with("abc", "ab"));
    assert!(!starts_with("ab", "abc"));
    assert!(ends_with("abc", "bc"));
    assert!(contains_str("abc", ""));
    assert!(!contains_str("abc", "ca"));
}

#[test]
fn escapes_port_patterns() {
    assert_eq!(port_name_pattern("a.b (1)"), "a\\.b \\(1\\)");
    assert_eq!(port_name_pattern("plain"), "plain");
}

#[test]
fn truncates_long_strings() {
    assert_eq!(truncate_string("short", 15), "short");
    assert_eq!(truncate_string("a_rather_long_device_name", 15), "a_rather_long_d...");
}

#[test]
fn monotonic_counter() {
    let c = MonotonicCtr { cnt: 25, len: 10 };
    assert_eq!(c.next_end().cnt, 30);
    assert_eq!(c.next_start().cnt, 31);
    assert_eq!(c.from_rel(RelativeCnt::Start).cnt, 31);
    assert_eq!(c.from_rel(RelativeCnt::End).cnt, 30);
    let z = MonotonicCtr { cnt: usize::MAX, len: 0 };
    assert_eq!(z.next_start().cnt, 0);
    assert_eq!(z.next_end().cnt, 0);
    let edge = MonotonicCtr { cnt: usize::MAX - 10, len: 10 };
    assert_eq!(edge.next_end().cnt, usize::MAX - 10 + (10 - (usize::MAX - 10) % 10));
    let mut d = MonotonicCtr::default();
    d.set_len(4);
    assert_eq!(d.len, 4);
    let e = c + 5;
    assert_eq!(e.cnt, 30);
    assert_eq!(e - c, 5);
    assert_eq!(c - e, 0);
    assert!(c < e);
    assert!(c == MonotonicCtr { cnt: 25, len: 3 });
}

/// Runs a selection change with the given host outcomes, in order.
fn run(sel: &mut SelectedIO, first: Option<IoTask>, outcomes: &[bool]) -> Vec<IoRequest> {
    let mut calls = Vec::new();
    let mut next = first;
    let mut k = 0;
    while let Some(task) = next {
        calls.push(task.request());
        next = sel.complete(task, outcomes[k]);
        k += 1;
    }
    calls
}

#[test]
fn toggles_audio_sources() {
    let mut sel = SelectedIO::default();
    let t = sel.toggle_audio_source("synth");
    assert_eq!(run(&mut sel, Some(t), &[true]), vec![IoRequest::SubscribeTo("synth".to_string())]);
    assert_eq!(sel.audio_sources, names(&["synth"]));
    let t = sel.toggle_audio_source("synth");
    assert_eq!(run(&mut sel, Some(t), &[false]), vec![IoRequest::UnsubscribeFrom("synth".to_string())]);
    assert_eq!(sel.audio_sources, names(&["synth"]));
    let t = sel.toggle_audio_source("synth");
    run(&mut sel, Some(t), &[true]);
    assert!(sel.audio_sources.is_empty());
}

#[test]
fn selects_audio_sink() {
    let mut sel = SelectedIO::default();
    let t = sel.select_audio_sink(Some("out".to_string()));
    let calls = run(&mut sel, t, &[true, true]);
    assert_eq!(calls, vec![IoRequest::StopPublishing, IoRequest::PublishTo("out".to_string())]);
    assert_eq!(sel.audio_sink.as_deref(), Some("out"));
    assert!(sel.select_audio_sink(Some("out".to_string())).is_none());
    let t = sel.select_audio_sink(Some("other".to_string()));
    let calls = run(&mut sel, t, &[true, false, false]);
    assert_eq!(
        calls,
        vec![IoRequest::StopPublishing, IoRequest::PublishTo("other".to_string()), IoRequest::StopPublishing]
    );
    assert_eq!(sel.audio_sink, None);
    let t = sel.select_audio_sink(Some("x".to_string()));
    run(&mut sel, t, &[false]);
    assert_eq!(sel.audio_sink, None);
}

#[test]
fn selects_control_source() {
    let mut sel = SelectedIO::default();
    let t = sel.select_control_source(Some("pedal".to_string()));
    assert_eq!(run(&mut sel, t, &[true]), vec![IoRequest::SubscribeTo("pedal".to_string())]);
    assert_eq!(sel.control_source.as_deref(), Some("pedal"));
    let t = sel.select_control_source(Some("keys".to_string()));
    let calls = run(&mut sel, t, &[true, false]);
    assert_eq!(
        calls,
        vec![IoRequest::UnsubscribeFrom("pedal".to_string()), IoRequest::SubscribeTo("keys".to_string())]
    );
    assert_eq!(sel.control_source, None);
    let t = sel.select_control_source(None);
    assert!(t.is_none());
}
