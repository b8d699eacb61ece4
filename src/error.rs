use vstd::prelude::*;

use crate::ports::LabeledPorts;

verus! {

/// Failures reported to the controller's caller.
#[derive(Debug, Clone)]
pub enum Error {
    /// The engine refused or did not answer a command.
    InternalError { message: String },
    TrackNotFound { track_id: usize },
    PortNotFound { name: String },
    SourceNotFound { source_name: String },
    SinkNotFound { sink_name: String },
    /// The device's ports are neither stereo, mono nor a single MIDI port.
    UnexpectedPortFormat { client_name: String, labeled_ports: LabeledPorts },
}

} // verus!
