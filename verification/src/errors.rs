//! What can go wrong in capturing, and how it is reported.

use crate::text::{append_decimal, decimal};
use vstd::prelude::*;
use vstd::string::StringExecFns;

verus! {

/// Seconds that the whole portal negotiation may take. On desktops whose portal has no working
/// camera backend the calls can block for ever instead of failing.
pub const PORTAL_TIMEOUT_SECS: u64 = 5;

/// Seconds that a pipeline may take to reach its playing state.
pub const PLAYING_TIMEOUT_SECS: u64 = 3;

/// What can go wrong in capturing.
#[derive(Debug, PartialEq, Eq)]
pub enum CaptureError {
    /// A frame holds fewer samples than its size calls for.
    FrameSizeMismatch,
    /// The portal knows of no camera.
    NoCameraPresent,
    /// The portal did not answer in time.
    PortalTimedOut,
    /// The device directory cannot be listed.
    DevicesNotListed,
    /// There is no video device.
    NoVideoDevices,
    /// A pipeline did not start.
    NotPlaying,
    /// A pipeline description did not make a pipeline.
    NotAPipeline,
    /// An element is missing from a pipeline.
    ElementNotFound(String),
    /// An element of a pipeline does not hand out samples.
    NotASink(String),
    /// There is no recording to stop.
    NotRecording,
}

/// The report of an error.
pub open spec fn error_text(e: CaptureError) -> Seq<char> {
    match e {
        CaptureError::FrameSizeMismatch => "frame size doesn't match RGBA buffer length"@,
        CaptureError::NoCameraPresent => "portal reports no camera present"@,
        CaptureError::PortalTimedOut => "portal negotiation timed out after "@ + decimal(
            PORTAL_TIMEOUT_SECS as nat,
        ) + "s"@,
        CaptureError::DevicesNotListed => "failed to list /dev for video devices"@,
        CaptureError::NoVideoDevices => "no /dev/video* devices found"@,
        CaptureError::NotPlaying => "pipeline did not reach Playing within "@ + decimal(
            PLAYING_TIMEOUT_SECS as nat,
        ) + "s"@,
        CaptureError::NotAPipeline => "expected gst::parse::launch to return a Pipeline"@,
        CaptureError::ElementNotFound(name) => name@ + " element not found in pipeline"@,
        CaptureError::NotASink(name) => name@ + " is not an AppSink"@,
        CaptureError::NotRecording => "not currently recording"@,
    }
}

impl CaptureError {
    /// The report of the error.
    pub fn message(&self) -> (res: String)
        ensures
            res@ == error_text(*self),
    {
        match self {
            CaptureError::FrameSizeMismatch => {
                "frame size doesn't match RGBA buffer length".to_owned()
            },
            CaptureError::NoCameraPresent => "portal reports no camera present".to_owned(),
            CaptureError::PortalTimedOut => {
                let mut out: String = "portal negotiation timed out after ".to_owned();
                append_decimal(&mut out, PORTAL_TIMEOUT_SECS);
                out.append("s");
                out
            },
            CaptureError::DevicesNotListed => "failed to list /dev for video devices".to_owned(),
            CaptureError::NoVideoDevices => "no /dev/video* devices found".to_owned(),
            CaptureError::NotPlaying => {
                let mut out: String = "pipeline did not reach Playing within ".to_owned();
                append_decimal(&mut out, PLAYING_TIMEOUT_SECS);
                out.append("s");
                out
            },
            CaptureError::NotAPipeline => {
                "expected gst::parse::launch to return a Pipeline".to_owned()
            },
            CaptureError::ElementNotFound(name) => {
                let mut out: String = name.clone();
                out.append(" element not found in pipeline");
                out
            },
            CaptureError::NotASink(name) => {
                let mut out: String = name.clone();
                out.append(" is not an AppSink");
                out
            },
            CaptureError::NotRecording => "not currently recording".to_owned(),
        }
    }
}

} // verus!
