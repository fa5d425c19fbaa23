//! Cameras: which ones there are, how they are named, and which one is in use.

use crate::mode::Mode;
use crate::mode_list::{caps_of, extract_modes, is_mode_list, CapsStructure};
use crate::text::{starts_with, str_eq};
use vstd::prelude::*;
use vstd::string::StringExecFns;

verus! {

/// Which capture backend feeds the pipeline. The portal is the sandboxable path; direct access to
/// a video device is what is left when the portal fails.
#[derive(Debug, PartialEq, Eq)]
pub enum Setup {
    Portal,
    V4l2 { device: String },
}

/// A capture source that the user can pick: the portal, which negotiates device and resolution
/// itself, or one `/dev/video*` node.
#[derive(Debug, PartialEq, Eq)]
pub enum CameraId {
    Portal,
    V4l2(String),
}

/// A camera that the user can select, with the modes it advertises.
#[derive(Clone, Debug, PartialEq, Eq)]
pub struct CameraInfo {
    pub id: CameraId,
    pub label: String,
    pub modes: Vec<Mode>,
}

/// The device node that a setup uses, none for the portal.
impl View for Setup {
    type V = Option<Seq<char>>;

    open spec fn view(&self) -> Option<Seq<char>> {
        match self {
            Setup::Portal => None,
            Setup::V4l2 { device } => Some(device@),
        }
    }
}

/// The device node of a camera, none for the portal.
impl View for CameraId {
    type V = Option<Seq<char>>;

    open spec fn view(&self) -> Option<Seq<char>> {
        match self {
            CameraId::Portal => None,
            CameraId::V4l2(path) => Some(path@),
        }
    }
}

impl Clone for Setup {
    fn clone(&self) -> (res: Self)
        ensures
            res == *self,
    {
        match self {
            Setup::Portal => Setup::Portal,
            Setup::V4l2 { device } => Setup::V4l2 { device: device.clone() },
        }
    }
}

impl Clone for CameraId {
    fn clone(&self) -> (res: Self)
        ensures
            res == *self,
    {
        match self {
            CameraId::Portal => CameraId::Portal,
            CameraId::V4l2(path) => CameraId::V4l2(path.clone()),
        }
    }
}

/// How a setup is described to the user.
pub open spec fn setup_text(setup: Setup) -> Seq<char> {
    match setup {
        Setup::Portal => "Portal · PipeWire"@,
        Setup::V4l2 { device } => "Direct V4L2 · "@ + device@,
    }
}

impl Setup {
    /// How the setup is described to the user.
    pub fn describe(&self) -> (res: String)
        ensures
            res@ == setup_text(*self),
    {
        match self {
            Setup::Portal => "Portal · PipeWire".to_owned(),
            Setup::V4l2 { device } => {
                let mut out: String = "Direct V4L2 · ".to_owned();
                out.append(device.as_str());
                out
            },
        }
    }

    /// Whether the setup opens a video device directly.
    pub fn is_v4l2(&self) -> (res: bool)
        ensures
            res == (self is V4l2),
    {
        match self {
            Setup::V4l2 { .. } => true,
            Setup::Portal => false,
        }
    }
}

impl CameraId {
    /// Whether this is the camera that a setup uses.
    pub fn is_used_by(&self, setup: &Setup) -> (res: bool)
        ensures
            res == (self@ == setup@),
    {
        match (self, setup) {
            (CameraId::Portal, Setup::Portal) => true,
            (CameraId::V4l2(path), Setup::V4l2 { device }) => str_eq(
                path.as_str(),
                device.as_str(),
            ),
            _ => false,
        }
    }
}

/// A property of a monitored device; the value is there where it is text.
pub struct Property {
    pub name: String,
    pub value: Option<String>,
}

/// What the device monitor reports of a device.
pub struct Device {
    pub display_name: String,
    pub properties: Option<Vec<Property>>,
    pub caps: Option<Vec<CapsStructure>>,
}

/// The text of the first property of a name.
pub open spec fn text_property(properties: Seq<Property>, name: Seq<char>) -> Option<Seq<char>>
    decreases properties.len(),
{
    if properties.len() == 0 {
        None
    } else if properties[0].name@ == name {
        match properties[0].value {
            Some(value) => Some(value@),
            None => None,
        }
    } else {
        text_property(properties.drop_first(), name)
    }
}

/// The `/dev/video*` node that a property names, if it names one.
pub open spec fn node_property(properties: Seq<Property>, name: Seq<char>) -> Option<Seq<char>> {
    match text_property(properties, name) {
        Some(value) => if "/dev/video"@.is_prefix_of(value) {
            Some(value)
        } else {
            None
        },
        None => None,
    }
}

/// The `/dev/video*` node of a device: that of the first of four properties which names one.
pub open spec fn device_node(properties: Option<Vec<Property>>) -> Option<Seq<char>> {
    match properties {
        None => None,
        Some(list) => if node_property(list@, "device.path"@) is Some {
            node_property(list@, "device.path"@)
        } else if node_property(list@, "api.v4l2.path"@) is Some {
            node_property(list@, "api.v4l2.path"@)
        } else if node_property(list@, "object.path"@) is Some {
            node_property(list@, "object.path"@)
        } else {
            node_property(list@, "device"@)
        },
    }
}

fn find_node(properties: &Vec<Property>, name: &str) -> (res: Option<String>)
    ensures
        match res {
            Some(path) => node_property(properties@, name@) == Some(path@),
            None => node_property(properties@, name@) is None,
        },
{
    let mut i: usize = 0;
    assert(properties@.skip(0) =~= properties@);
    while i < properties.len()
        invariant
            i <= properties.len(),
            text_property(properties@, name@) == text_property(properties@.skip(i as int), name@),
        decreases properties.len() - i,
    {
        if str_eq(properties[i].name.as_str(), name) {
            return match &properties[i].value {
                Some(value) => if starts_with(value.as_str(), "/dev/video") {
                    Some(value.clone())
                } else {
                    None
                },
                None => None,
            };
        }
        assert(properties@.skip(i as int).drop_first() =~= properties@.skip(i + 1));
        i = i + 1;
    }
    None
}

/// The `/dev/video*` node of a monitored device, under the names that different versions of the
/// media framework give it. What names another kind of node is passed over.
pub fn device_path(properties: &Option<Vec<Property>>) -> (res: Option<String>)
    ensures
        match res {
            Some(path) => device_node(*properties) == Some(path@),
            None => device_node(*properties) is None,
        },
{
    match properties {
        None => None,
        Some(list) => {
            let first: Option<String> = find_node(list, "device.path");
            if first.is_some() {
                return first;
            }
            let second: Option<String> = find_node(list, "api.v4l2.path");
            if second.is_some() {
                return second;
            }
            let third: Option<String> = find_node(list, "object.path");
            if third.is_some() {
                return third;
            }
            find_node(list, "device")
        },
    }
}

/// The devices that have a `/dev/video*` node, in the order in which they were reported.
pub open spec fn addressable(devices: Seq<Device>) -> Seq<Device>
    decreases devices.len(),
{
    if devices.len() == 0 {
        Seq::empty()
    } else if device_node(devices.last().properties) is Some {
        addressable(devices.drop_last()).push(devices.last())
    } else {
        addressable(devices.drop_last())
    }
}

/// Whether a camera entry describes a device.
pub open spec fn describes(camera: CameraInfo, device: Device) -> bool {
    &&& camera.id is V4l2
    &&& camera.id@ == device_node(device.properties)
    &&& camera.label@ == device.display_name@ + " ("@ + device_node(device.properties)->0 + ")"@
    &&& is_mode_list(caps_of(device.caps), camera.modes@)
}

/// The entry that leaves the choice of a camera to the portal.
pub open spec fn is_portal_entry(camera: CameraInfo) -> bool {
    &&& camera.id is Portal
    &&& camera.label@ == "Auto (portal / default)"@
    &&& camera.modes@ == Seq::<Mode>::empty()
}

/// The cameras to choose from: the portal, then every device that has a `/dev/video*` node.
pub open spec fn is_camera_list(devices: Seq<Device>, cameras: Seq<CameraInfo>) -> bool {
    &&& cameras.len() == 1 + addressable(devices).len()
    &&& is_portal_entry(cameras[0])
    &&& forall|i: int|
        0 <= i < addressable(devices).len() ==> describes(
            #[trigger] cameras[i + 1],
            addressable(devices)[i],
        )
}

/// Lists the cameras to choose from. The first entry is always the portal, so the user can return
/// to the default; the addressable `/dev/video*` devices follow, each with its modes.
pub fn enumerate_cameras(devices: &Vec<Device>) -> (cameras: Vec<CameraInfo>)
    ensures
        is_camera_list(devices@, cameras@),
{
    let mut cameras: Vec<CameraInfo> = Vec::new();
    cameras.push(
        CameraInfo {
            id: CameraId::Portal,
            label: "Auto (portal / default)".to_owned(),
            modes: Vec::new(),
        },
    );
    let mut n: usize = 0;
    while n < devices.len()
        invariant
            n <= devices.len(),
            is_camera_list(devices@.take(n as int), cameras@),
        decreases devices.len() - n,
    {
        let device: &Device = &devices[n];
        let ghost before = cameras@;
        let ghost known = addressable(devices@.take(n as int));
        assert(devices@.take(n + 1).drop_last() =~= devices@.take(n as int));
        match device_path(&device.properties) {
            Some(path) => {
                let mut label: String = device.display_name.clone();
                label.append(" (");
                label.append(path.as_str());
                label.append(")");
                let modes: Vec<Mode> = extract_modes(&device.caps);
                cameras.push(CameraInfo { id: CameraId::V4l2(path), label, modes });
                assert forall|i: int| 0 <= i < known.len() + 1 implies describes(
                    #[trigger] cameras@[i + 1],
                    addressable(devices@.take(n + 1))[i],
                ) by {
                    if i < known.len() {
                        assert(cameras@[i + 1] == before[i + 1]);
                    }
                }
            },
            None => {},
        }
        n = n + 1;
    }
    assert(devices@.take(devices.len() as int) =~= devices@);
    cameras
}

/// Whether this is the place of the first camera that a setup uses, or none where there is none.
pub open spec fn is_setup_index(cameras: Seq<CameraInfo>, setup: Setup, index: Option<usize>) -> bool {
    match index {
        Some(i) => {
            &&& i < cameras.len()
            &&& cameras[i as int].id@ == setup@
            &&& forall|j: int| 0 <= j < i ==> (#[trigger] cameras[j]).id@ != setup@
        },
        None => forall|j: int| 0 <= j < cameras.len() ==> (#[trigger] cameras[j]).id@ != setup@,
    }
}

/// Finds the camera that a setup uses, so that the choice opens on the right entry.
pub fn index_for_setup(cameras: &Vec<CameraInfo>, setup: &Setup) -> (res: Option<usize>)
    ensures
        is_setup_index(cameras@, *setup, res),
{
    let mut i: usize = 0;
    while i < cameras.len()
        invariant
            i <= cameras.len(),
            forall|j: int| 0 <= j < i ==> (#[trigger] cameras@[j]).id@ != setup@,
        decreases cameras.len() - i,
    {
        if cameras[i].id.is_used_by(setup) {
            return Some(i);
        }
        i = i + 1;
    }
    None
}

/// The first camera is the portal, however many devices there are, so the portal is always found
/// there.
pub proof fn portal_comes_first(
    devices: Seq<Device>,
    cameras: Seq<CameraInfo>,
    index: Option<usize>,
)
    requires
        is_camera_list(devices, cameras),
        is_setup_index(cameras, Setup::Portal, index),
    ensures
        cameras[0].id is Portal,
        index == Some(0usize),
{
    assert(cameras[0].id@ == Setup::Portal@);
    if let Some(i) = index {
        if i > 0 {
            assert(cameras[0].id@ != Setup::Portal@);
        }
    }
}

/// Every other camera is a `/dev/video*` node.
pub proof fn other_cameras_are_device_nodes(devices: Seq<Device>, cameras: Seq<CameraInfo>, i: int)
    requires
        is_camera_list(devices, cameras),
        0 < i < cameras.len(),
    ensures
        cameras[i].id matches CameraId::V4l2(path) && "/dev/video"@.is_prefix_of(path@),
{
    lemma_addressable(devices, i - 1);
    assert(describes(cameras[(i - 1) + 1], addressable(devices)[i - 1]));
}

proof fn lemma_addressable(devices: Seq<Device>, i: int)
    requires
        0 <= i < addressable(devices).len(),
    ensures
        device_node(addressable(devices)[i].properties) is Some,
    decreases devices.len(),
{
    if i < addressable(devices.drop_last()).len() {
        lemma_addressable(devices.drop_last(), i);
    }
}

} // verus!
