//! The application: what it shows, and what it does in answer to events.

use crate::camera::{index_for_setup, is_setup_index, setup_text, CameraId, CameraInfo, Setup};
use crate::frame::Frame;
use crate::mode::{mode_label, Mode};
use crate::photo::{Photo, PhotoPlan};
use vstd::prelude::*;
use vstd::string::StringExecFns;

verus! {

/// What the application is told.
pub enum Message {
    Frame(Frame),
    TakePhoto,
    PhotoPlanned(PhotoPlan),
    PhotoWritten(Result<String, String>),
    ToggleRecording,
    RecordingStarted(Result<String, String>),
    RecordingStopped(Result<String, String>),
    ToggleSettings,
    SelectCamera(usize),
    SelectMode(usize),
    ApplySettings,
    CameraSwitched(Result<Setup, String>),
}

/// What the application has done in the outside world, in the order in which it is to be done.
pub enum Effect {
    /// Draw this frame as the preview.
    ShowFrame(Frame),
    /// Plan a photo of the latest full-size sample; `PhotoPlanned` tells the plan.
    TakePhoto,
    /// Write this photo to a file; `PhotoWritten` tells the outcome.
    WritePhoto(Photo),
    /// Start to record; `RecordingStarted` tells the outcome.
    StartRecording(Setup),
    /// Stop the recording; `RecordingStopped` tells the outcome once the effects after this one
    /// are done as well.
    StopRecording,
    /// Let the preview pipeline run.
    PlayPreview,
    /// Halt the preview pipeline, which frees its device.
    StopPreview,
    /// Forget the frame on the screen.
    DropPreview,
    /// Forget the latest full-size sample.
    DropSample,
    /// Bring up a preview of this camera in this mode; `CameraSwitched` tells the outcome.
    BuildSelected { id: CameraId, mode: Option<Mode> },
    /// Use the pipeline that was brought up in place of the former one.
    AdoptPipeline,
}

/// The state of the application.
pub struct AppModel {
    setup: Setup,
    is_v4l2: bool,
    has_preview: bool,
    is_recording: bool,
    busy: bool,
    status: String,
    cameras: Vec<CameraInfo>,
    camera_labels: Vec<String>,
    selected_camera: Option<usize>,
    selected_mode: Option<usize>,
    show_context: bool,
}

/// The state of the application, as contracts speak of it.
pub ghost struct Model {
    /// The capture path in use, and whether it holds a video device.
    pub setup: Setup,
    pub is_v4l2: bool,
    /// Whether there is a frame on the screen.
    pub has_preview: bool,
    pub is_recording: bool,
    /// Whether a recording is being started or stopped.
    pub busy: bool,
    pub status: Seq<char>,
    /// The cameras to choose from, and how they are offered.
    pub cameras: Seq<CameraInfo>,
    pub camera_labels: Seq<Seq<char>>,
    pub selected_camera: Option<usize>,
    pub selected_mode: Option<usize>,
    /// Whether the settings are open.
    pub show_context: bool,
}

/// How cameras are offered.
pub open spec fn labels_of(cameras: Seq<CameraInfo>) -> Seq<Seq<char>> {
    cameras.map_values(|c: CameraInfo| c.label@)
}

impl View for AppModel {
    type V = Model;

    closed spec fn view(&self) -> Model {
        Model {
            setup: self.setup,
            is_v4l2: self.is_v4l2,
            has_preview: self.has_preview,
            is_recording: self.is_recording,
            busy: self.busy,
            status: self.status@,
            cameras: self.cameras@,
            camera_labels: self.camera_labels@.map_values(|s: String| s@),
            selected_camera: self.selected_camera,
            selected_mode: self.selected_mode,
            show_context: self.show_context,
        }
    }
}

impl Model {
    /// What holds of the application at all times: it knows whether its capture path holds a
    /// device, and every camera is offered under its label.
    pub open spec fn wf(self) -> bool {
        &&& self.is_v4l2 == (self.setup is V4l2)
        &&& self.camera_labels == labels_of(self.cameras)
    }

    /// The camera that is selected, if the selection stands for one.
    pub open spec fn camera(self) -> Option<CameraInfo> {
        match self.selected_camera {
            Some(i) => if i < self.cameras.len() {
                Some(self.cameras[i as int])
            } else {
                None
            },
            None => None,
        }
    }

    /// The modes of the selected camera.
    pub open spec fn modes(self) -> Seq<Mode> {
        match self.camera() {
            Some(camera) => camera.modes@,
            None => Seq::empty(),
        }
    }

    /// The mode that is selected, if the selection stands for one.
    pub open spec fn mode(self) -> Option<Mode> {
        match self.selected_mode {
            Some(i) => if i < self.modes().len() {
                Some(self.modes()[i as int])
            } else {
                None
            },
            None => None,
        }
    }

    /// The state with another status line.
    pub open spec fn with_status(self, status: Seq<char>) -> Model {
        Model { status, ..self }
    }

    /// The state after a message.
    pub open spec fn next(self, message: Message) -> Model {
        match message {
            Message::Frame(frame) => if frame.width > 0 && frame.height > 0 {
                Model { has_preview: true, ..self }
            } else {
                self
            },
            Message::TakePhoto => self,
            Message::PhotoPlanned(PhotoPlan::NoFrame) => self.with_status("No frame captured yet"@),
            Message::PhotoPlanned(PhotoPlan::Refused { error }) => self.with_status(
                "Photo failed: "@ + error@,
            ),
            Message::PhotoPlanned(PhotoPlan::Write(_)) => self,
            Message::PhotoWritten(Ok(path)) => self.with_status("Saved "@ + path@),
            Message::PhotoWritten(Err(error)) => self.with_status("Photo failed: "@ + error@),
            Message::ToggleRecording => Model { busy: true, ..self },
            Message::RecordingStarted(Ok(path)) => Model {
                busy: false,
                is_recording: true,
                status: "Recording to "@ + path@,
                ..self
            },
            Message::RecordingStarted(Err(error)) => Model {
                busy: false,
                status: "Recording failed: "@ + error@,
                ..self
            },
            Message::RecordingStopped(Ok(path)) => Model {
                busy: false,
                is_recording: false,
                status: "Saved "@ + path@,
                ..self
            },
            Message::RecordingStopped(Err(error)) => Model {
                busy: false,
                is_recording: false,
                status: "Recording error: "@ + error@,
                ..self
            },
            Message::ToggleSettings => Model { show_context: !self.show_context, ..self },
            Message::SelectCamera(i) => Model {
                selected_camera: Some(i),
                selected_mode: None,
                ..self
            },
            Message::SelectMode(i) => Model { selected_mode: Some(i), ..self },
            Message::ApplySettings => if self.is_recording {
                self.with_status("Stop the recording before switching cameras."@)
            } else if self.camera() is Some {
                Model { has_preview: false, ..self }
            } else {
                self
            },
            Message::CameraSwitched(Ok(setup)) => Model {
                setup,
                is_v4l2: setup is V4l2,
                status: setup_text(setup),
                show_context: false,
                ..self
            },
            Message::CameraSwitched(Err(error)) => self.with_status(
                "Couldn't switch camera: "@ + error@,
            ),
        }
    }

    /// What a message has done in the outside world.
    pub open spec fn effects(self, message: Message) -> Seq<Effect> {
        match message {
            Message::Frame(frame) => if frame.width > 0 && frame.height > 0 {
                seq![Effect::ShowFrame(frame)]
            } else {
                seq![]
            },
            Message::TakePhoto => seq![Effect::TakePhoto],
            Message::PhotoPlanned(PhotoPlan::Write(photo)) => seq![Effect::WritePhoto(photo)],
            Message::ToggleRecording => if self.busy {
                seq![]
            } else if self.is_recording {
                if self.is_v4l2 {
                    seq![Effect::StopRecording, Effect::PlayPreview]
                } else {
                    seq![Effect::StopRecording]
                }
            } else {
                if self.is_v4l2 {
                    seq![Effect::StopPreview, Effect::StartRecording(self.setup)]
                } else {
                    seq![Effect::StartRecording(self.setup)]
                }
            },
            Message::RecordingStarted(Err(_)) => if self.is_v4l2 {
                seq![Effect::PlayPreview]
            } else {
                seq![]
            },
            Message::ApplySettings => match self.camera() {
                Some(camera) => if self.is_recording {
                    seq![]
                } else {
                    seq![
                        Effect::StopPreview,
                        Effect::DropPreview,
                        Effect::DropSample,
                        Effect::BuildSelected { id: camera.id, mode: self.mode() },
                    ]
                },
                None => seq![],
            },
            Message::CameraSwitched(Ok(_)) => seq![Effect::AdoptPipeline],
            Message::CameraSwitched(Err(_)) => seq![Effect::PlayPreview],
            _ => seq![],
        }
    }
}

/// What the settings show.
pub struct Drawer {
    pub camera_labels: Vec<String>,
    pub selected_camera: Option<usize>,
    pub mode_labels: Vec<String>,
    pub selected_mode: Option<usize>,
    pub resolution_note: String,
    pub apply_enabled: bool,
    pub recording_warning: Option<String>,
}

/// What the main window shows beside the preview picture.
pub struct MainView {
    /// Shown in place of the preview until there is one.
    pub placeholder: Option<String>,
    pub record_icon: String,
    /// Whether the record button would end a recording.
    pub record_stops: bool,
    pub record_enabled: bool,
    pub status: String,
}

fn with_text(head: &str, tail: &str) -> (res: String)
    ensures
        res@ == head@ + tail@,
{
    let mut out: String = head.to_owned();
    out.append(tail);
    out
}

impl AppModel {
    /// What holds of the application at all times.
    pub open spec fn wf(self) -> bool {
        self@.wf()
    }

    /// The application as it starts on a capture path, with the cameras that were found. The
    /// selection stands at the camera in use.
    pub fn init(setup: Setup, cameras: Vec<CameraInfo>) -> (res: AppModel)
        ensures
            res.wf(),
            is_setup_index(cameras@, setup, res@.selected_camera),
            res@ == (Model {
                setup,
                is_v4l2: setup is V4l2,
                has_preview: false,
                is_recording: false,
                busy: false,
                status: setup_text(setup),
                cameras: cameras@,
                camera_labels: labels_of(cameras@),
                selected_camera: res@.selected_camera,
                selected_mode: None,
                show_context: false,
            }),
    {
        let is_v4l2: bool = setup.is_v4l2();
        let status: String = setup.describe();
        let mut camera_labels: Vec<String> = Vec::new();
        let mut i: usize = 0;
        while i < cameras.len()
            invariant
                i <= cameras.len(),
                camera_labels@.len() == i,
                forall|j: int| 0 <= j < i ==> (#[trigger] camera_labels@[j])@ == cameras@[j].label@,
            decreases cameras.len() - i,
        {
            camera_labels.push(cameras[i].label.clone());
            i = i + 1;
        }
        let selected_camera: Option<usize> = index_for_setup(&cameras, &setup);
        let res: AppModel = AppModel {
            setup,
            is_v4l2,
            has_preview: false,
            is_recording: false,
            busy: false,
            status,
            cameras,
            camera_labels,
            selected_camera,
            selected_mode: None,
            show_context: false,
        };
        assert(res@.camera_labels =~= labels_of(res@.cameras));
        res
    }

    /// The modes of the selected camera; none for the portal, which negotiates its own size.
    pub fn current_modes(&self) -> (res: &[Mode])
        ensures
            res@ == self@.modes(),
    {
        match self.camera_index() {
            Some(i) => self.cameras[i].modes.as_slice(),
            None => {
                let none: &[Mode] = &[];
                assert(none@ =~= Seq::<Mode>::empty());
                none
            },
        }
    }

    /// Answers a message with the next state and with what is to be done.
    pub fn update(&mut self, message: Message) -> (effects: Vec<Effect>)
        requires
            old(self).wf(),
        ensures
            final(self).wf(),
            final(self)@ == old(self)@.next(message),
            effects@ == old(self)@.effects(message),
    {
        let mut effects: Vec<Effect> = Vec::new();
        match message {
            Message::Frame(frame) => {
                if frame.width > 0 && frame.height > 0 {
                    self.has_preview = true;
                    effects.push(Effect::ShowFrame(frame));
                }
            },
            Message::TakePhoto => {
                effects.push(Effect::TakePhoto);
            },
            Message::PhotoPlanned(PhotoPlan::NoFrame) => {
                self.status = "No frame captured yet".to_owned();
            },
            Message::PhotoPlanned(PhotoPlan::Refused { error }) => {
                self.status = with_text("Photo failed: ", error.as_str());
            },
            Message::PhotoPlanned(PhotoPlan::Write(photo)) => {
                effects.push(Effect::WritePhoto(photo));
            },
            Message::PhotoWritten(Ok(path)) => {
                self.status = with_text("Saved ", path.as_str());
            },
            Message::PhotoWritten(Err(error)) => {
                self.status = with_text("Photo failed: ", error.as_str());
            },
            Message::ToggleRecording => {
                if !self.busy {
                    self.busy = true;
                    if self.is_recording {
                        effects.push(Effect::StopRecording);
                        if self.is_v4l2 {
                            effects.push(Effect::PlayPreview);
                        }
                    } else {
                        if self.is_v4l2 {
                            // The recording pipeline could not open the device otherwise.
                            effects.push(Effect::StopPreview);
                        }
                        effects.push(Effect::StartRecording(self.setup.clone()));
                    }
                }
            },
            Message::RecordingStarted(Ok(path)) => {
                self.busy = false;
                self.is_recording = true;
                self.status = with_text("Recording to ", path.as_str());
            },
            Message::RecordingStarted(Err(error)) => {
                self.busy = false;
                self.status = with_text("Recording failed: ", error.as_str());
                if self.is_v4l2 {
                    effects.push(Effect::PlayPreview);
                }
            },
            Message::RecordingStopped(Ok(path)) => {
                self.busy = false;
                self.is_recording = false;
                self.status = with_text("Saved ", path.as_str());
            },
            Message::RecordingStopped(Err(error)) => {
                self.busy = false;
                self.is_recording = false;
                self.status = with_text("Recording error: ", error.as_str());
            },
            Message::ToggleSettings => {
                self.show_context = !self.show_context;
            },
            Message::SelectCamera(i) => {
                self.selected_camera = Some(i);
                // The place of a mode means nothing for another camera.
                self.selected_mode = None;
            },
            Message::SelectMode(i) => {
                self.selected_mode = Some(i);
            },
            Message::ApplySettings => {
                if self.is_recording {
                    self.status = "Stop the recording before switching cameras.".to_owned();
                } else {
                    effects = self.switch_camera();
                }
            },
            Message::CameraSwitched(Ok(setup)) => {
                self.is_v4l2 = setup.is_v4l2();
                self.status = setup.describe();
                self.setup = setup;
                self.show_context = false;
                effects.push(Effect::AdoptPipeline);
            },
            Message::CameraSwitched(Err(error)) => {
                self.status = with_text("Couldn't switch camera: ", error.as_str());
                effects.push(Effect::PlayPreview);
            },
        }
        assert(effects@ =~= old(self)@.effects(message));
        effects
    }

    /// The place of the selected camera, if the selection stands for one.
    fn camera_index(&self) -> (res: Option<usize>)
        ensures
            match res {
                Some(i) => i < self@.cameras.len() && self@.camera() == Some(
                    self@.cameras[i as int],
                ),
                None => self@.camera() is None,
            },
    {
        match self.selected_camera {
            Some(i) => if i < self.cameras.len() {
                Some(i)
            } else {
                None
            },
            None => None,
        }
    }

    /// Gives up the live preview for that of the selected camera. The device is freed first, and
    /// no picture of the former camera is left to be shown or saved.
    fn switch_camera(&mut self) -> (effects: Vec<Effect>)
        requires
            old(self).wf(),
            !old(self)@.is_recording,
        ensures
            final(self).wf(),
            final(self)@ == old(self)@.next(Message::ApplySettings),
            effects@ == old(self)@.effects(Message::ApplySettings),
    {
        let mut effects: Vec<Effect> = Vec::new();
        if let Some(i) = self.camera_index() {
            let id: CameraId = self.cameras[i].id.clone();
            let mut mode: Option<Mode> = None;
            if let Some(m) = self.selected_mode {
                if m < self.cameras[i].modes.len() {
                    mode = Some(self.cameras[i].modes[m].clone());
                }
            }
            self.has_preview = false;
            effects.push(Effect::StopPreview);
            effects.push(Effect::DropPreview);
            effects.push(Effect::DropSample);
            effects.push(Effect::BuildSelected { id, mode });
        }
        assert(effects@ =~= old(self)@.effects(Message::ApplySettings));
        effects
    }

    /// Whether the settings are open.
    pub fn settings_open(&self) -> (res: bool)
        ensures
            res == self@.show_context,
    {
        self.show_context
    }

    /// What the settings show, if they are open. A switch is refused while a recording runs, so
    /// it cannot be asked for then.
    pub fn context_drawer(&self) -> (res: Option<Drawer>)
        ensures
            res is Some <==> self@.show_context,
            res matches Some(drawer) ==> {
                &&& drawer.camera_labels@.map_values(|s: String| s@) == self@.camera_labels
                &&& drawer.selected_camera == self@.selected_camera
                &&& drawer.mode_labels@.map_values(|s: String| s@) == self@.modes().map_values(
                    |m: Mode| mode_label(m),
                )
                &&& drawer.selected_mode == self@.selected_mode
                &&& drawer.resolution_note@ == if self@.modes().len() > 0 {
                    "Pick a resolution, or leave unset for automatic."@
                } else {
                    "This source negotiates its own resolution — no manual modes to pick."@
                }
                &&& drawer.apply_enabled == !self@.is_recording
                &&& drawer.recording_warning is Some <==> self@.is_recording
                &&& drawer.recording_warning matches Some(warning) ==> warning@
                    == "Stop the recording before switching cameras."@
            },
    {
        if !self.show_context {
            return None;
        }
        let mut camera_labels: Vec<String> = Vec::new();
        let mut i: usize = 0;
        while i < self.camera_labels.len()
            invariant
                i <= self.camera_labels.len(),
                camera_labels@.len() == i,
                forall|j: int| 0 <= j < i ==> #[trigger] camera_labels@[j] == self.camera_labels@[j],
            decreases self.camera_labels.len() - i,
        {
            camera_labels.push(self.camera_labels[i].clone());
            i = i + 1;
        }
        let modes: &[Mode] = self.current_modes();
        let mut mode_labels: Vec<String> = Vec::new();
        let mut k: usize = 0;
        while k < modes.len()
            invariant
                k <= modes@.len(),
                mode_labels@.len() == k,
                forall|j: int| 0 <= j < k ==> (#[trigger] mode_labels@[j])@ == mode_label(modes@[j]),
            decreases modes@.len() - k,
        {
            mode_labels.push(modes[k].label());
            k = k + 1;
        }
        let resolution_note: String = if mode_labels.len() > 0 {
            "Pick a resolution, or leave unset for automatic.".to_owned()
        } else {
            "This source negotiates its own resolution — no manual modes to pick.".to_owned()
        };
        assert(camera_labels@.map_values(|s: String| s@) =~= self@.camera_labels);
        assert(mode_labels@.map_values(|s: String| s@) =~= self@.modes().map_values(
            |m: Mode| mode_label(m),
        ));
        Some(
            Drawer {
                camera_labels,
                selected_camera: self.selected_camera,
                mode_labels,
                selected_mode: self.selected_mode,
                resolution_note,
                apply_enabled: !self.is_recording,
                recording_warning: if self.is_recording {
                    Some("Stop the recording before switching cameras.".to_owned())
                } else {
                    None
                },
            },
        )
    }

    /// What the main window shows beside the preview picture. The record button is at rest while
    /// a recording is being started or stopped.
    pub fn main_view(&self) -> (res: MainView)
        ensures
            res.placeholder is Some <==> !self@.has_preview,
            res.placeholder matches Some(text) ==> text@ == "Waiting for camera…"@,
            res.record_icon@ == if self@.is_recording {
                "media-playback-stop-symbolic"@
            } else {
                "media-record-symbolic"@
            },
            res.record_stops == self@.is_recording,
            res.record_enabled == !self@.busy,
            res.status@ == if self@.is_recording {
                "● Recording — "@ + self@.status
            } else {
                self@.status
            },
    {
        MainView {
            placeholder: if self.has_preview {
                None
            } else {
                Some("Waiting for camera…".to_owned())
            },
            record_icon: if self.is_recording {
                "media-playback-stop-symbolic".to_owned()
            } else {
                "media-record-symbolic".to_owned()
            },
            record_stops: self.is_recording,
            record_enabled: !self.busy,
            status: if self.is_recording {
                with_text("● Recording — ", self.status.as_str())
            } else {
                self.status.clone()
            },
        }
    }
}

} // verus!
