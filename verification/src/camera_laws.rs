//! Which cameras are found, under which nodes, and which one is in use.

use crate::camera::{addressable, describes, device_node, device_path, enumerate_cameras, index_for_setup, node_property, text_property, CameraId, CameraInfo, Device, Property, Setup};
use crate::mode::Mode;
use crate::mode_list::{caps_of, extract_modes, is_mode_list, CapsStructure};
use vstd::prelude::*;

verus! {

/// Whether two setups use the same camera: both the portal, or both the same node.
pub open spec fn same_camera(one: Setup, other: Setup) -> bool {
    match (one, other) {
        (Setup::Portal, Setup::Portal) => true,
        (Setup::V4l2 { device: a }, Setup::V4l2 { device: b }) => a@ == b@,
        _ => false,
    }
}

/// Whether a camera is the one that a setup uses.
pub open spec fn is_camera_of(id: CameraId, setup: Setup) -> bool {
    match (id, setup) {
        (CameraId::Portal, Setup::Portal) => true,
        (CameraId::V4l2(path), Setup::V4l2 { device }) => path@ == device@,
        _ => false,
    }
}

/// A direct setup is described with its node at the end, after the same words for every node; only
/// setups that use the same camera are described alike.
pub proof fn descriptions_name_the_node(one: Setup, other: Setup, a: String, b: String)
    requires
        call_ensures(Setup::describe, (&one,), a),
        call_ensures(Setup::describe, (&other,), b),
    ensures
        a@ == b@ <==> same_camera(one, other),
        one matches Setup::V4l2 { device } ==> a@ == "Direct V4L2 · "@ + device@,
        one is Portal ==> a@ == "Portal · PipeWire"@,
{
    reveal_strlit("Direct V4L2 · ");
    reveal_strlit("Portal · PipeWire");
    if let Setup::V4l2 { device: x } = one {
        assert(a@[0] == 'D');
        if let Setup::V4l2 { device: y } = other {
            let head = "Direct V4L2 · "@;
            assert((head + x@).skip(head.len() as int) =~= x@);
            assert((head + y@).skip(head.len() as int) =~= y@);
        } else {
            assert(b@[0] == 'P');
        }
    } else {
        assert(a@[0] == 'P');
        if let Setup::V4l2 { device: y } = other {
            assert(b@[0] == 'D');
        }
    }
}

/// A setup that holds a video device is known as such.
pub proof fn direct_setups_are_told_apart(setup: Setup, res: bool)
    requires
        call_ensures(Setup::is_v4l2, (&setup,), res),
    ensures
        res <==> setup !is Portal,
{
}

/// A camera is in use by a setup exactly if it is the portal for the portal, or has its node.
pub proof fn cameras_are_matched_by_node(id: CameraId, setup: Setup, res: bool)
    requires
        call_ensures(CameraId::is_used_by, (&id, &setup), res),
    ensures
        res <==> is_camera_of(id, setup),
{
}

/// The names under which a node is looked for, in their order.
pub open spec fn node_names() -> Seq<Seq<char>> {
    seq!["device.path"@, "api.v4l2.path"@, "object.path"@, "device"@]
}

/// Whether the property at this place is the first of its name.
pub open spec fn is_first_named(properties: Seq<Property>, i: int, name: Seq<char>) -> bool {
    &&& 0 <= i < properties.len()
    &&& properties[i].name@ == name
    &&& forall|j: int| 0 <= j < i ==> (#[trigger] properties[j]).name@ != name
}

/// Whether a property holds this `/dev/video*` node.
pub open spec fn holds_node(property: Property, node: Seq<char>) -> bool {
    &&& property.value matches Some(value) && value@ == node
    &&& "/dev/video"@.is_prefix_of(node)
}

proof fn lemma_text_property(properties: Seq<Property>, name: Seq<char>)
    ensures
        text_property(properties, name) matches Some(value) ==> exists|i: int|
            #[trigger] is_first_named(properties, i, name) && (properties[i].value matches Some(
                text,
            ) && text@ == value),
        text_property(properties, name) is None ==> forall|i: int|
            #[trigger] is_first_named(properties, i, name) ==> properties[i].value is None,
    decreases properties.len(),
{
    if properties.len() > 0 {
        if properties[0].name@ == name {
            assert(is_first_named(properties, 0, name));
            assert forall|i: int| #[trigger] is_first_named(properties, i, name) implies i == 0 by {
                if i > 0 {
                    assert(properties[0].name@ != name);
                }
            }
        } else {
            let rest = properties.drop_first();
            lemma_text_property(rest, name);
            if let Some(value) = text_property(rest, name) {
                let i = choose|i: int|
                    #[trigger] is_first_named(rest, i, name) && (rest[i].value matches Some(text)
                        && text@ == value);
                assert forall|j: int| 0 <= j < i + 1 implies (#[trigger] properties[j]).name@
                    != name by {
                    if j > 0 {
                        assert(rest[j - 1].name@ != name);
                    }
                }
                assert(is_first_named(properties, i + 1, name));
            } else {
                assert forall|i: int| #[trigger]
                    is_first_named(properties, i, name) implies properties[i].value is None by {
                    assert forall|j: int| 0 <= j < i - 1 implies (#[trigger] rest[j]).name@
                        != name by {
                        assert(properties[j + 1].name@ != name);
                    }
                    assert(is_first_named(rest, i - 1, name));
                }
            }
        }
    }
}

proof fn lemma_first_is_one(properties: Seq<Property>, i: int, j: int, name: Seq<char>)
    requires
        is_first_named(properties, i, name),
        is_first_named(properties, j, name),
    ensures
        i == j,
{
    if i < j {
        assert(properties[i].name@ != name);
    }
    if j < i {
        assert(properties[j].name@ != name);
    }
}

proof fn lemma_node_property(properties: Seq<Property>, name: Seq<char>)
    ensures
        node_property(properties, name) matches Some(node) ==> exists|i: int|
            #[trigger] is_first_named(properties, i, name) && holds_node(properties[i], node),
        node_property(properties, name) is None ==> forall|i: int, node: Seq<char>|
            is_first_named(properties, i, name) ==> !#[trigger] holds_node(properties[i], node),
{
    lemma_text_property(properties, name);
    if let Some(value) = text_property(properties, name) {
        let i = choose|i: int|
            #[trigger] is_first_named(properties, i, name) && (properties[i].value matches Some(
                text,
            ) && text@ == value);
        if node_property(properties, name) is Some {
            assert(holds_node(properties[i], value));
        } else {
            assert forall|j: int, node: Seq<char>|
                is_first_named(properties, j, name) implies !#[trigger] holds_node(
                properties[j],
                node,
            ) by {
                lemma_first_is_one(properties, i, j, name);
            }
        }
    }
}

/// The node of a device is held by the first property of one of four names, and the first
/// properties of the names before it hold none.
pub proof fn nodes_are_found_under_the_earliest_name(
    properties: Vec<Property>,
    path: String,
) -> (res: (int, int))
    requires
        call_ensures(device_path, (&Some(properties),), Some(path)),
    ensures
        0 <= res.0 < 4,
        is_first_named(properties@, res.1, node_names()[res.0]),
        holds_node(properties@[res.1], path@),
        forall|k: int, i: int, node: Seq<char>|
            0 <= k < res.0 && is_first_named(properties@, i, #[trigger] node_names()[k])
                ==> !#[trigger] holds_node(properties@[i], node),
{
    lemma_node_choice(properties)
}

proof fn lemma_node_choice(properties: Vec<Property>) -> (res: (int, int))
    requires
        device_node(Some(properties)) is Some,
    ensures
        0 <= res.0 < 4,
        is_first_named(properties@, res.1, node_names()[res.0]),
        holds_node(properties@[res.1], device_node(Some(properties))->0),
        forall|k: int, i: int, node: Seq<char>|
            0 <= k < res.0 && is_first_named(properties@, i, #[trigger] node_names()[k])
                ==> !#[trigger] holds_node(properties@[i], node),
{
    let list = properties@;
    let names = node_names();
    lemma_node_property(list, names[0]);
    lemma_node_property(list, names[1]);
    lemma_node_property(list, names[2]);
    lemma_node_property(list, names[3]);
    let k: int = if node_property(list, names[0]) is Some {
        0
    } else if node_property(list, names[1]) is Some {
        1
    } else if node_property(list, names[2]) is Some {
        2
    } else {
        3
    };
    let node = device_node(Some(properties))->0;
    assert(node_property(list, names[k]) == Some(node));
    let i = choose|i: int|
        #[trigger] is_first_named(list, i, names[k]) && holds_node(list[i], node);
    (k, i)
}

/// A device has no node only where no first property of the four names holds one, or it has no
/// properties.
pub proof fn no_node_is_missed(properties: Vec<Property>, k: int, i: int, node: Seq<char>)
    requires
        call_ensures(device_path, (&Some(properties),), None::<String>),
        0 <= k < 4,
        is_first_named(properties@, i, node_names()[k]),
    ensures
        !holds_node(properties@[i], node),
{
    lemma_node_property(properties@, node_names()[k]);
}

/// A device without properties has no node.
pub proof fn no_properties_no_node(path: Option<String>)
    requires
        call_ensures(device_path, (&None::<Vec<Property>>,), path),
    ensures
        path is None,
{
}

/// Looking up the node of a device gives the node by which it is listed.
pub proof fn devices_are_listed_under_their_node(properties: Option<Vec<Property>>, path: Option<String>)
    requires
        call_ensures(device_path, (&properties,), path),
    ensures
        path is Some <==> device_node(properties) is Some,
        path matches Some(text) ==> device_node(properties) == Some(text@),
{
}

proof fn lemma_addressable_filter(devices: Seq<Device>)
    ensures
        addressable(devices) == devices.filter(|d: Device| device_node(d.properties) is Some),
    decreases devices.len(),
{
    reveal(Seq::filter);
    if devices.len() > 0 {
        lemma_addressable_filter(devices.drop_last());
    }
}

/// The cameras are the portal, which has no modes, and after it one for each device that has a
/// node, in the order of the devices: under that node, labelled with the name of the device and
/// the node, and with the modes that its capabilities amount to.
pub proof fn every_addressable_device_is_a_camera(devices: Vec<Device>, cameras: Vec<CameraInfo>)
    requires
        call_ensures(enumerate_cameras, (&devices,), cameras),
    ensures
        ({
            let found = devices@.filter(|d: Device| device_node(d.properties) is Some);
            &&& cameras@.len() == 1 + found.len()
            &&& cameras@[0].id is Portal
            &&& cameras@[0].label@ == "Auto (portal / default)"@
            &&& cameras@[0].modes@.len() == 0
            &&& forall|i: int|
                0 <= i < found.len() ==> {
                    let camera = #[trigger] cameras@[i + 1];
                    let node = device_node(found[i].properties)->0;
                    &&& camera.id matches CameraId::V4l2(path) && path@ == node
                    &&& camera.label@ == found[i].display_name@ + " ("@ + node + ")"@
                    &&& is_mode_list(caps_of(found[i].caps), camera.modes@)
                }
        }),
{
    lemma_addressable_filter(devices@);
    let found = addressable(devices@);
    assert forall|i: int| 0 <= i < found.len() implies {
        let camera = #[trigger] cameras@[i + 1];
        let node = device_node(found[i].properties)->0;
        &&& camera.id matches CameraId::V4l2(path) && path@ == node
        &&& camera.label@ == found[i].display_name@ + " ("@ + node + ")"@
        &&& is_mode_list(caps_of(found[i].caps), camera.modes@)
    } by {
        assert(describes(cameras@[i + 1], found[i]));
    }
}

/// What is listed as the modes of a camera is what its capabilities are collapsed into.
pub proof fn cameras_list_the_modes_of_their_device(caps: Option<Vec<CapsStructure>>, modes: Vec<Mode>)
    requires
        call_ensures(extract_modes, (&caps,), modes),
    ensures
        is_mode_list(caps_of(caps), modes@),
        caps matches Some(list) ==> caps_of(caps) == list@,
        caps is None ==> caps_of(caps).len() == 0,
{
}

/// The camera of a setup is found wherever it is listed, and what is found is the first one that
/// the setup uses.
pub proof fn the_camera_in_use_is_found(
    cameras: Vec<CameraInfo>,
    setup: Setup,
    index: Option<usize>,
    k: int,
)
    requires
        call_ensures(index_for_setup, (&cameras, &setup), index),
    ensures
        index matches Some(i) ==> i < cameras@.len() && is_camera_of(
            cameras@[i as int].id,
            setup,
        ),
        0 <= k < cameras@.len() && is_camera_of(cameras@[k].id, setup) ==> (index matches Some(i)
            && i <= k),
{
    if 0 <= k < cameras@.len() && is_camera_of(cameras@[k].id, setup) {
        assert(cameras@[k].id@ == setup@);
    }
}

} // verus!
