use vstd::prelude::*;

use crate::node_map::NodeMap;
use crate::text::{parse_hex_u16, parsed_hex_u16};

verus! {

/// What the device manager reports of one input device: the properties that
/// the keyboard heuristic and the identity read, and the device node.
pub struct UdevDevice {
    pub input_keyboard: Option<String>,
    pub input_key: Option<String>,
    pub devnode: Option<String>,
    pub vendor_id: Option<String>,
    pub model_id: Option<String>,
}

/// The hardware identity of a keyboard, keyed elsewhere by its device node.
#[derive(Clone, Copy, Debug, PartialEq, Eq, Structural)]
pub struct UdevKeyboardInfo {
    pub vendor_id: u16,
    pub product_id: u16,
}

impl View for UdevKeyboardInfo {
    type V = UdevKeyboardInfo;

    open spec fn view(&self) -> UdevKeyboardInfo {
        *self
    }
}

/// A property that is present and reads exactly `1`.
pub open spec fn flag_set(v: Option<String>) -> bool {
    match v {
        Some(s) => s@ == seq!['1'],
        None => false,
    }
}

/// The keyboard heuristic: keyboard-class, key-generating, with a device node.
pub open spec fn is_keyboard_device(d: UdevDevice) -> bool {
    flag_set(d.input_keyboard) && flag_set(d.input_key) && d.devnode is Some
}

pub open spec fn parsed_id(v: Option<String>) -> Option<u16> {
    match v {
        Some(s) => parsed_hex_u16(s@),
        None => None,
    }
}

/// A device the heuristic keeps, with both identifiers present and readable.
pub open spec fn identified_keyboard(d: UdevDevice) -> bool {
    is_keyboard_device(d) && parsed_id(d.vendor_id) is Some && parsed_id(d.model_id) is Some
}

/// The candidates of a device list, by device node; of two devices with one
/// node, the later in the list stands. Devices without readable identifiers
/// are left out.
pub open spec fn udev_candidates(devs: Seq<UdevDevice>) -> Map<Seq<char>, UdevKeyboardInfo>
    decreases devs.len(),
{
    if devs.len() == 0 {
        Map::empty()
    } else {
        let later = udev_candidates(devs.drop_first());
        let d = devs[0];
        if identified_keyboard(d) && !later.contains_key(d.devnode->Some_0@) {
            later.insert(
                d.devnode->Some_0@,
                UdevKeyboardInfo {
                    vendor_id: parsed_id(d.vendor_id)->Some_0,
                    product_id: parsed_id(d.model_id)->Some_0,
                },
            )
        } else {
            later
        }
    }
}

fn is_flag_set(v: &Option<String>) -> (r: bool)
    ensures
        r == flag_set(*v),
{
    match v {
        Some(s) => {
            let t = s.as_str();
            if t.unicode_len() == 1 && t.get_char(0) == '1' {
                assert(s@ == seq!['1']);
                true
            } else {
                false
            }
        },
        None => false,
    }
}

/// The keyboard heuristic on a reported device.
pub fn device_is_keyboard(device: &UdevDevice) -> (r: bool)
    ensures
        r == is_keyboard_device(*device),
{
    let input_keyboard = is_flag_set(&device.input_keyboard);
    let input_key = is_flag_set(&device.input_key);
    let has_device_node = device.devnode.is_some();
    input_keyboard && input_key && has_device_node
}

fn parse_id(v: &Option<String>) -> (r: Option<u16>)
    ensures
        r == parsed_id(*v),
{
    match v {
        Some(s) => parse_hex_u16(s.as_str()),
        None => None,
    }
}

/// The keyboards among the devices that the device manager reports, by device node.
pub fn udev_keyboards(devices: Vec<UdevDevice>) -> (r: NodeMap<UdevKeyboardInfo>)
    ensures
        r.wf(),
        r@ == udev_candidates(devices@),
{
    let ghost all = devices@;
    let mut rest = devices;
    let mut acc: NodeMap<UdevKeyboardInfo> = NodeMap::new();
    assert(all.skip(all.len() as int) == Seq::<UdevDevice>::empty());
    while rest.len() > 0
        invariant
            acc.wf(),
            all == devices@,
            rest@ == all.take(rest@.len() as int),
            rest@.len() <= all.len(),
            acc@ == udev_candidates(all.skip(rest@.len() as int)),
        decreases rest@.len(),
    {
        let d = rest.pop().unwrap();
        let ghost i = rest@.len() as int;
        proof {
            assert(all[i] == d);
            assert(all.skip(i).drop_first() == all.skip(i + 1));
            assert(all.skip(i)[0] == d);
            assert(rest@ == all.take(i));
        }
        if device_is_keyboard(&d) {
            let vendor_id = parse_id(&d.vendor_id);
            let product_id = parse_id(&d.model_id);
            match (d.devnode, vendor_id, product_id) {
                (Some(node), Some(vendor_id), Some(product_id)) => {
                    if !acc.contains_key(&node) {
                        acc.insert_new(node, UdevKeyboardInfo { vendor_id, product_id });
                    }
                },
                _ => {},
            }
        }
    }
    assert(all.skip(0) == all);
    acc
}

/// The kind of a hotplug notification.
#[derive(Clone, Copy, Debug, PartialEq, Eq, Structural)]
pub enum HotplugKind {
    Add,
    Change,
    Remove,
    Bind,
    Unbind,
    Unknown,
}

/// One hotplug notification of the input subsystem.
pub struct HotplugEvent {
    pub kind: HotplugKind,
    pub device: UdevDevice,
}

/// An add or remove of a device that passes the keyboard heuristic.
pub open spec fn keyboard_event(event: HotplugEvent) -> bool {
    (event.kind == HotplugKind::Add || event.kind == HotplugKind::Remove) && is_keyboard_device(
        event.device,
    )
}

/// Whether a notification concerns a keyboard coming or going.
pub fn is_keyboard_event(event: &HotplugEvent) -> (r: bool)
    ensures
        r == keyboard_event(*event),
{
    let kind_matches = match event.kind {
        HotplugKind::Add | HotplugKind::Remove => true,
        _ => false,
    };
    kind_matches && device_is_keyboard(&event.device)
}

} // verus!
