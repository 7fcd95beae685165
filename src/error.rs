use vstd::prelude::*;

verus! {

/// What can go wrong with a capture session or one of its segments.
#[derive(Clone, Debug, PartialEq, Eq)]
pub enum CaptureError {
    /// The native audio API refused to open or negotiate the device.
    DeviceInitFailed(String),
    /// No loopback source exists; a virtual loopback driver must be installed.
    SetupRequired,
    /// A session is already live.
    AlreadyCapturing,
    /// There is no session to stop.
    NotCapturing,
    /// One segment could not be turned into a WAV container.
    EncodeFailed,
    /// The native API failed while reading; the session ends.
    StreamReadError,
}

} // verus!
