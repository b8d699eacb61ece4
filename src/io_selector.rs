use vstd::prelude::*;

use crate::ports::{contains_name, names_view, opt_view, string_eq};

verus! {

/// A call on the audio host that a selection change needs.
#[derive(Debug, Clone, PartialEq, Eq)]
pub enum IoRequest {
    SubscribeTo(String),
    UnsubscribeFrom(String),
    PublishTo(String),
    StopPublishing,
}

/// A selection change waiting for the outcome of its current host call
/// (see `IoTask::request`).
#[derive(Debug, Clone, PartialEq, Eq)]
pub enum IoTask {
    /// Subscribing to (or unsubscribing from) an audio source.
    ToggleSource { source: String, subscribe: bool },
    /// Stopping the current publication before publishing to `sink`.
    StopForSink { sink: Option<String> },
    /// Publishing to a newly selected sink.
    PublishSink { sink: String },
    /// Stopping a publication that failed half way; its outcome is ignored.
    RetractSink,
    /// Leaving the current control source before taking `next`.
    DropControl { current: String, next: Option<String> },
    /// Subscribing to a newly selected control source.
    TakeControl { source: String },
}

impl IoTask {
    /// The host call that has to complete before the change goes on.
    pub fn request(&self) -> (r: IoRequest)
        ensures
            match *self {
                IoTask::ToggleSource { source, subscribe } => if subscribe {
                    (r matches IoRequest::SubscribeTo(s) && s@ == source@)
                } else {
                    (r matches IoRequest::UnsubscribeFrom(s) && s@ == source@)
                },
                IoTask::StopForSink { .. } => r is StopPublishing,
                IoTask::PublishSink { sink } => (r matches IoRequest::PublishTo(s) && s@ == sink@),
                IoTask::RetractSink => r is StopPublishing,
                IoTask::DropControl { current, .. } => (r matches IoRequest::UnsubscribeFrom(s) && s@ == current@),
                IoTask::TakeControl { source } => (r matches IoRequest::SubscribeTo(s) && s@ == source@),
            },
    {
        match self {
            IoTask::ToggleSource { source, subscribe } => {
                if *subscribe {
                    IoRequest::SubscribeTo(source.clone())
                } else {
                    IoRequest::UnsubscribeFrom(source.clone())
                }
            },
            IoTask::StopForSink { .. } => IoRequest::StopPublishing,
            IoTask::PublishSink { sink } => IoRequest::PublishTo(sink.clone()),
            IoTask::RetractSink => IoRequest::StopPublishing,
            IoTask::DropControl { current, .. } => IoRequest::UnsubscribeFrom(current.clone()),
            IoTask::TakeControl { source } => IoRequest::SubscribeTo(source.clone()),
        }
    }
}

/// The user's choice of audio sources, audio sink and control source, as
/// far as the host has carried it out.
#[derive(Debug, Clone)]
pub struct SelectedIO {
    pub audio_sources: Vec<String>,
    pub audio_sink: Option<String>,
    pub control_source: Option<String>,
}

impl Default for SelectedIO {
    fn default() -> (r: SelectedIO)
        ensures
            r.audio_sources@.len() == 0,
            r.audio_sink is None,
            r.control_source is None,
    {
        SelectedIO { audio_sources: Vec::new(), audio_sink: None, control_source: None }
    }
}

/// Two optional strings hold the same characters.
pub open spec fn same_opt(a: Option<String>, b: Option<String>) -> bool {
    opt_view(a) == opt_view(b)
}

fn opt_string_eq(a: &Option<String>, b: &Option<String>) -> (r: bool)
    ensures
        r == same_opt(*a, *b),
{
    match (a, b) {
        (Some(x), Some(y)) => string_eq(x.as_str(), y.as_str()),
        (None, None) => true,
        _ => false,
    }
}

impl SelectedIO {
    pub open spec fn wf(&self) -> bool {
        names_view(self.audio_sources@).no_duplicates()
    }

    /// The selected audio sources, as a set of names.
    pub open spec fn source_set(&self) -> Set<Seq<char>> {
        names_view(self.audio_sources@).to_set()
    }

    /// Starts toggling `audio_source`: unsubscribing when it is selected,
    /// subscribing otherwise.
    pub fn toggle_audio_source(&self, audio_source: &str) -> (r: IoTask)
        ensures
            (r matches IoTask::ToggleSource { source, subscribe } && source@ == audio_source@
                && subscribe == !names_view(self.audio_sources@).contains(audio_source@)),
    {
        let selected = contains_name(&self.audio_sources, audio_source);
        IoTask::ToggleSource { source: audio_source.to_owned(), subscribe: !selected }
    }

    /// Starts selecting `audio_sink`: nothing to do when it is already
    /// selected; otherwise the current publication is stopped first.
    pub fn select_audio_sink(&self, audio_sink: Option<String>) -> (r: Option<IoTask>)
        ensures
            same_opt(self.audio_sink, audio_sink) ==> r is None,
            !same_opt(self.audio_sink, audio_sink) ==> (r matches Some(IoTask::StopForSink { sink }) && same_opt(sink, audio_sink)),
    {
        if opt_string_eq(&self.audio_sink, &audio_sink) {
            return None;
        }
        Some(IoTask::StopForSink { sink: audio_sink })
    }

    /// Starts selecting `control_source`: nothing to do when it is already
    /// selected; otherwise the current one, if any, is left first.
    pub fn select_control_source(&self, control_source: Option<String>) -> (r: Option<IoTask>)
        ensures
            same_opt(self.control_source, control_source) ==> r is None,
            !same_opt(self.control_source, control_source) ==> match self.control_source {
                Some(c) => (r matches Some(IoTask::DropControl { current, next }) && current@ == c@
                    && same_opt(next, control_source)),
                None => (r matches Some(IoTask::TakeControl { source }) && opt_view(control_source) == Some(source@)),
            },
    {
        if opt_string_eq(&self.control_source, &control_source) {
            return None;
        }
        match &self.control_source {
            Some(c) => Some(IoTask::DropControl { current: c.clone(), next: control_source }),
            None => match control_source {
                Some(n) => Some(IoTask::TakeControl { source: n }),
                None => None,
            },
        }
    }

    /// Removes `name` from the selected audio sources.
    fn remove_source(&mut self, name: &str)
        requires
            old(self).wf(),
        ensures
            final(self).wf(),
            final(self).source_set() == old(self).source_set().remove(name@),
            final(self).audio_sink == old(self).audio_sink,
            final(self).control_source == old(self).control_source,
    {
        let ghost before = names_view(self.audio_sources@);
        let mut k: usize = 0;
        while k < self.audio_sources.len()
            invariant
                k <= self.audio_sources@.len(),
                self.audio_sources == old(self).audio_sources,
                self.audio_sink == old(self).audio_sink,
                self.control_source == old(self).control_source,
                before == names_view(self.audio_sources@),
                before.no_duplicates(),
                forall|j: int| 0 <= j < k ==> self.audio_sources@[j]@ != name@,
            decreases self.audio_sources@.len() - k,
        {
            if string_eq(self.audio_sources[k].as_str(), name) {
                self.audio_sources.remove(k);
                proof {
                    let after = names_view(self.audio_sources@);
                    assert(after =~= before.remove(k as int));
                    assert(before[k as int] == name@);
                    assert(after.to_set() =~= before.to_set().remove(name@)) by {
                        assert forall|x: Seq<char>| after.to_set().contains(x) <==> before.to_set().remove(name@).contains(x) by {
                            if after.to_set().contains(x) {
                                let i = choose|i: int| 0 <= i < after.len() && after[i] == x;
                                if i < k {
                                    assert(before[i] == x);
                                } else {
                                    assert(before[i + 1] == x);
                                }
                                assert(x != name@);
                            }
                            if before.to_set().remove(name@).contains(x) {
                                let i = choose|i: int| 0 <= i < before.len() && before[i] == x;
                                if i < k {
                                    assert(after[i] == x);
                                } else if i > k {
                                    assert(after[i - 1] == x);
                                }
                            }
                        }
                    }
                }
                return;
            }
            k = k + 1;
        }
        assert(before.to_set() =~= before.to_set().remove(name@));
    }

    /// Adds `name` to the selected audio sources.
    fn insert_source(&mut self, name: &str)
        requires
            old(self).wf(),
        ensures
            final(self).wf(),
            final(self).source_set() == old(self).source_set().insert(name@),
            final(self).audio_sink == old(self).audio_sink,
            final(self).control_source == old(self).control_source,
    {
        let ghost before = names_view(self.audio_sources@);
        if contains_name(&self.audio_sources, name) {
            assert(before.to_set() =~= before.to_set().insert(name@));
            return;
        }
        self.audio_sources.push(name.to_owned());
        proof {
            let after = names_view(self.audio_sources@);
            assert(after =~= before.push(name@));
            assert(after.to_set() =~= before.to_set().insert(name@)) by {
                assert forall|x: Seq<char>| after.to_set().contains(x) <==> before.to_set().insert(name@).contains(x) by {
                    if after.to_set().contains(x) {
                        let i = choose|i: int| 0 <= i < after.len() && after[i] == x;
                        if i < before.len() {
                            assert(before[i] == x);
                        }
                    }
                    if before.to_set().insert(name@).contains(x) && x != name@ {
                        let i = choose|i: int| 0 <= i < before.len() && before[i] == x;
                        assert(after[i] == x);
                    }
                    if x == name@ {
                        assert(after[before.len() as int] == x);
                    }
                }
            }
        }
    }

    /// Takes the outcome of the host call `task` waited on and returns the
    /// next task of the same change, if any.
    pub fn complete(&mut self, task: IoTask, succeeded: bool) -> (r: Option<IoTask>)
        requires
            old(self).wf(),
        ensures
            final(self).wf(),
            match task {
                IoTask::ToggleSource { source, subscribe } => {
                    &&& r is None
                    &&& final(self).audio_sink == old(self).audio_sink
                    &&& final(self).control_source == old(self).control_source
                    &&& final(self).source_set() == if !succeeded {
                        old(self).source_set()
                    } else if subscribe {
                        old(self).source_set().insert(source@)
                    } else {
                        old(self).source_set().remove(source@)
                    }
                },
                IoTask::StopForSink { sink } => {
                    &&& final(self).audio_sources == old(self).audio_sources
                    &&& final(self).control_source == old(self).control_source
                    &&& if !succeeded {
                        r is None && final(self).audio_sink == old(self).audio_sink
                    } else {
                        &&& final(self).audio_sink is None
                        &&& match sink {
                            Some(s) => (r matches Some(IoTask::PublishSink { sink: p }) && p@ == s@),
                            None => r is None,
                        }
                    }
                },
                IoTask::PublishSink { sink } => {
                    &&& final(self).audio_sources == old(self).audio_sources
                    &&& final(self).control_source == old(self).control_source
                    &&& if succeeded {
                        r is None && opt_view(final(self).audio_sink) == Some(sink@)
                    } else {
                        r matches Some(IoTask::RetractSink) && final(self).audio_sink is None
                    }
                },
                IoTask::RetractSink => {
                    &&& r is None
                    &&& final(self).audio_sources == old(self).audio_sources
                    &&& final(self).control_source == old(self).control_source
                    &&& final(self).audio_sink is None
                },
                IoTask::DropControl { current, next } => {
                    &&& final(self).audio_sources == old(self).audio_sources
                    &&& final(self).audio_sink == old(self).audio_sink
                    &&& if !succeeded {
                        r is None && final(self).control_source == old(self).control_source
                    } else {
                        &&& final(self).control_source is None
                        &&& match next {
                            Some(n) => (r matches Some(IoTask::TakeControl { source: p }) && p@ == n@),
                            None => r is None,
                        }
                    }
                },
                IoTask::TakeControl { source } => {
                    &&& r is None
                    &&& final(self).audio_sources == old(self).audio_sources
                    &&& final(self).audio_sink == old(self).audio_sink
                    &&& if succeeded {
                        opt_view(final(self).control_source) == Some(source@)
                    } else {
                        final(self).control_source == old(self).control_source
                    }
                },
            },
    {
        match task {
            IoTask::ToggleSource { source, subscribe } => {
                if succeeded {
                    if subscribe {
                        self.insert_source(source.as_str());
                    } else {
                        self.remove_source(source.as_str());
                    }
                }
                None
            },
            IoTask::StopForSink { sink } => {
                if !succeeded {
                    return None;
                }
                self.audio_sink = None;
                match sink {
                    Some(s) => Some(IoTask::PublishSink { sink: s }),
                    None => None,
                }
            },
            IoTask::PublishSink { sink } => {
                if succeeded {
                    self.audio_sink = Some(sink);
                    None
                } else {
                    self.audio_sink = None;
                    Some(IoTask::RetractSink)
                }
            },
            IoTask::RetractSink => {
                self.audio_sink = None;
                None
            },
            IoTask::DropControl { current, next } => {
                if !succeeded {
                    return None;
                }
                self.control_source = None;
                match next {
                    Some(n) => Some(IoTask::TakeControl { source: n }),
                    None => None,
                }
            },
            IoTask::TakeControl { source } => {
                if succeeded {
                    self.control_source = Some(source);
                }
                None
            },
        }
    }
}

} // verus!
