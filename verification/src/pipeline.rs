//! Descriptions of the media pipelines that preview and record.

use crate::camera::{CameraId, Setup};
use crate::mode::{mode_caps, Mode};
use crate::paths::{file_name, joined, recording_path};
use crate::text::{append_decimal, append_signed_decimal, decimal, signed_decimal, str_eq};
use vstd::prelude::*;
use vstd::string::StringExecFns;

verus! {

/// Largest width at which the live preview is drawn. The preview is only about this wide on the
/// screen, and handing a full-size picture to the renderer for every frame would overrun it.
pub const PREVIEW_MAX_WIDTH: u32 = 800;

/// The name of the sink that feeds the preview.
pub const PREVIEW_SINK: &'static str = "preview_sink";

/// The name of the sink that keeps the latest full-size sample.
pub const PHOTO_SINK: &'static str = "photo_sink";

/// A source that reads from the portal's connection.
pub open spec fn portal_source_text(fd: int) -> Seq<char> {
    "pipewiresrc fd="@ + signed_decimal(fd)
}

/// A source that reads from a device node.
pub open spec fn device_source_text(device: Seq<char>) -> Seq<char> {
    "v4l2src device="@ + device
}

/// A source for a device in a mode. A compressed mode is decoded right after the source; raw
/// modes need no decoder.
pub open spec fn selected_source_text(device: Seq<char>, mode: Option<Mode>) -> Seq<char> {
    match mode {
        Some(m) => if m.media_type@ == "image/jpeg"@ {
            device_source_text(device) + " ! "@ + mode_caps(m) + " ! jpegdec"@
        } else {
            device_source_text(device) + " ! "@ + mode_caps(m)
        },
        None => device_source_text(device),
    }
}

/// The preview pipeline of a source: one branch scaled down for the screen, one at full size for
/// photos.
pub open spec fn preview_text(source: Seq<char>) -> Seq<char> {
    source + " ! videoconvert ! video/x-raw,format=RGBA ! tee name=t "@
        + "t. ! queue max-size-buffers=4 leaky=downstream ! videoscale ! "@
        + "video/x-raw,width="@ + decimal(PREVIEW_MAX_WIDTH as nat) + ",pixel-aspect-ratio=1/1 ! "@
        + "appsink name="@ + PREVIEW_SINK@ + " sync=false max-buffers=1 drop=true "@
        + "t. ! queue max-size-buffers=2 leaky=downstream ! "@ + "appsink name="@ + PHOTO_SINK@
        + " sync=false max-buffers=1 drop=true"@
}

/// The pipeline that records a source to a file.
pub open spec fn recording_text(source: Seq<char>, path: Seq<char>) -> Seq<char> {
    source + " ! videoconvert ! vp8enc ! webmmux ! filesink location=\""@ + path + "\""@
}

/// A source that reads from the portal's connection.
pub fn portal_source(fd: i32) -> (res: String)
    ensures
        res@ == portal_source_text(fd as int),
{
    let mut out: String = "pipewiresrc fd=".to_owned();
    append_signed_decimal(&mut out, fd as i64);
    out
}

/// A source that reads from a device node.
pub fn device_source(device: &str) -> (res: String)
    ensures
        res@ == device_source_text(device@),
{
    let mut out: String = "v4l2src device=".to_owned();
    out.append(device);
    out
}

/// Describes a preview pipeline that splits into two sinks: a scaled-down one that drives the
/// preview on the screen, and a full-size one whose latest sample is kept for photos. Scaling in
/// the pipeline keeps even a large source smooth, while photos still honor the selected size.
pub fn build_preview_pipeline(source: &str) -> (res: String)
    ensures
        res@ == preview_text(source@),
{
    let mut out: String = source.to_owned();
    out.append(" ! videoconvert ! video/x-raw,format=RGBA ! tee name=t ");
    out.append("t. ! queue max-size-buffers=4 leaky=downstream ! videoscale ! ");
    out.append("video/x-raw,width=");
    append_decimal(&mut out, PREVIEW_MAX_WIDTH as u64);
    out.append(",pixel-aspect-ratio=1/1 ! ");
    out.append("appsink name=");
    out.append(PREVIEW_SINK);
    out.append(" sync=false max-buffers=1 drop=true ");
    out.append("t. ! queue max-size-buffers=2 leaky=downstream ! ");
    out.append("appsink name=");
    out.append(PHOTO_SINK);
    out.append(" sync=false max-buffers=1 drop=true");
    out
}

/// How to bring up the camera that the user selected.
pub enum Selection {
    /// Ask the portal.
    Portal,
    /// Bring up this preview pipeline; once it plays, this is the setup.
    Device { setup: Setup, pipeline: String },
}

/// Whether this is how to bring up a camera in a mode.
pub open spec fn is_selection(id: CameraId, mode: Option<Mode>, selection: Selection) -> bool {
    match selection {
        Selection::Portal => id is Portal,
        Selection::Device { setup, pipeline } => {
            &&& id is V4l2
            &&& setup is V4l2
            &&& setup@ == id@
            &&& pipeline@ == preview_text(selected_source_text(id@->0, mode))
        },
    }
}

fn selected_source(path: &str, mode: &Option<Mode>) -> (res: String)
    ensures
        res@ == selected_source_text(path@, *mode),
{
    let mut out: String = device_source(path);
    match mode {
        Some(m) => {
            out.append(" ! ");
            out.append(m.caps_str().as_str());
            if str_eq(m.media_type.as_str(), "image/jpeg") {
                out.append(" ! jpegdec");
            }
        },
        None => {},
    }
    out
}

/// Plans the preview for a selected camera and mode. A device gets a pipeline pinned to the mode;
/// the portal negotiates for itself and takes no mode.
pub fn build_selected(id: &CameraId, mode: &Option<Mode>) -> (res: Selection)
    ensures
        is_selection(*id, *mode, res),
{
    match id {
        CameraId::Portal => Selection::Portal,
        CameraId::V4l2(path) => {
            let source: String = selected_source(path.as_str(), mode);
            Selection::Device {
                setup: Setup::V4l2 { device: path.clone() },
                pipeline: build_preview_pipeline(source.as_str()),
            }
        },
    }
}

/// A recording to be started: the file it goes to and the pipeline that writes it.
pub struct RecordingPlan {
    pub path: String,
    pub pipeline: String,
}

/// The source that a recording reads from.
pub open spec fn recording_source(setup: Setup, remote_fd: Option<i32>) -> Seq<char> {
    match setup {
        Setup::Portal => portal_source_text(remote_fd->0 as int),
        Setup::V4l2 { device } => device_source_text(device@),
    }
}

/// Plans a recording. It has a pipeline of its own, so that starting it, stopping it and
/// finalizing its file do not disturb the preview. Behind the portal it reads from a connection
/// of its own, which has to be open.
pub fn start_recording(setup: &Setup, remote_fd: Option<i32>, dir: &str, secs: u64) -> (res:
    RecordingPlan)
    requires
        setup is Portal ==> remote_fd is Some,
    ensures
        res.path@ == joined(dir@, file_name(secs, ".webm"@)),
        res.pipeline@ == recording_text(recording_source(*setup, remote_fd), res.path@),
{
    let path: String = recording_path(dir, secs);
    let mut pipeline: String = match setup {
        Setup::Portal => portal_source(remote_fd.unwrap()),
        Setup::V4l2 { device } => device_source(device.as_str()),
    };
    pipeline.append(" ! videoconvert ! vp8enc ! webmmux ! filesink location=\"");
    pipeline.append(path.as_str());
    pipeline.append("\"");
    RecordingPlan { path, pipeline }
}

/// How the end of a recording came out.
pub enum Finalized {
    /// The file is complete.
    Complete,
    /// The pipeline reported an error, with details.
    Failed { error: String, debug: String },
    /// The pipeline did not finish in time.
    TimedOut,
}

/// Seconds that a recording may take to finalize its file.
pub const FINALIZE_TIMEOUT_SECS: u64 = 5;

/// What is logged of the end of a recording.
pub open spec fn finalize_text(end: Finalized) -> Option<Seq<char>> {
    match end {
        Finalized::Complete => None,
        Finalized::Failed { error, debug } => Some(
            "Error while finalizing recording: "@ + error@ + " ("@ + debug@ + ")"@,
        ),
        Finalized::TimedOut => Some(
            "Timed out waiting for recording to finalize; file may be truncated."@,
        ),
    }
}

/// A recording that was stopped: its file, and what to log of its end.
pub struct StoppedRecording {
    pub path: String,
    pub note: Option<String>,
}

/// Stops a recording. Its file is handed out however its end came out; what went wrong is only
/// logged.
pub fn stop_recording(path: String, end: &Finalized) -> (res: StoppedRecording)
    ensures
        res.path == path,
        match res.note {
            Some(note) => finalize_text(*end) == Some(note@),
            None => finalize_text(*end) is None,
        },
{
    let note: Option<String> = match end {
        Finalized::Complete => None,
        Finalized::Failed { error, debug } => {
            let mut out: String = "Error while finalizing recording: ".to_owned();
            out.append(error.as_str());
            out.append(" (");
            out.append(debug.as_str());
            out.append(")");
            Some(out)
        },
        Finalized::TimedOut => Some(
            "Timed out waiting for recording to finalize; file may be truncated.".to_owned(),
        ),
    };
    StoppedRecording { path, note }
}

} // verus!
