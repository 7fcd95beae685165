use vstd::prelude::*;
use vstd::string::*;
use crate::error::CaptureError;

verus! {

/// The loopback source to open: on Linux, the sound server to connect to
/// (`None` for the local default); elsewhere it carries nothing.
#[derive(Clone, Debug)]
pub struct SpeakerInput {
    pub server_name: Option<String>,
}

impl SpeakerInput {
    /// A source on the local default sound server.
    pub fn new() -> (r: Result<SpeakerInput, CaptureError>)
        ensures
            r matches Ok(input) && input.server_name is None,
    {
        Ok(SpeakerInput { server_name: None })
    }
}

/// The monitor source of the default output sink: the sink's name with
/// `.monitor` appended. Without a default sink the device cannot be opened.
pub fn monitor_source_name(default_sink: Option<String>) -> (r: Result<String, CaptureError>)
    ensures
        default_sink matches Some(sink) ==> (r matches Ok(name) && name@ == sink@ + ".monitor"@),
        default_sink is None ==> r matches Err(CaptureError::DeviceInitFailed(_)),
{
    match default_sink {
        Some(sink) => Ok(sink.concat(".monitor")),
        None => Err(CaptureError::DeviceInitFailed(String::from_str("Could not get default sink name"))),
    }
}

} // verus!
