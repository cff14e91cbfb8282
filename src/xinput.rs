use vstd::prelude::*;
use vstd::utf8::{decode_utf8, valid_utf8};

use crate::node_map::NodeMap;
use crate::text::string_from_utf8;

verus! {

/// Device use of a core keyboard in the X input extension.
pub const DEVICE_USE_X_KEYBOARD: u8 = 1;

/// Device use of an extension keyboard in the X input extension.
pub const DEVICE_USE_X_EXTENSION_KEYBOARD: u8 = 3;

/// Length of the first read of the device-node property.
pub const INITIAL_READ_LENGTH: u32 = 256;

/// Why an X input enumeration pass failed.
#[derive(Clone, Copy, Debug, PartialEq, Eq, Structural)]
pub enum XInputError {
    DeviceNameNotUtf8,
    DeviceNodeNotUtf8,
    DeviceNodeNotString,
}

/// One device as the display server lists it. `device_node` is the resolved
/// "Device Node" property, left empty where it was not read.
pub struct XInputDevice {
    pub name: Vec<u8>,
    pub device_id: u8,
    pub device_use: u8,
    pub device_node: String,
}

/// A keyboard that the display server reports, keyed elsewhere by its device node.
#[derive(Debug)]
pub struct XInputKeyboardInfo {
    pub name: String,
    pub xinput_id: u8,
}

pub ghost struct XInputCandidate {
    pub name: Seq<char>,
    pub xinput_id: u8,
}

impl View for XInputKeyboardInfo {
    type V = XInputCandidate;

    open spec fn view(&self) -> XInputCandidate {
        XInputCandidate { name: self.name@, xinput_id: self.xinput_id }
    }
}

pub open spec fn is_keyboard_use(device_use: u8) -> bool {
    device_use == DEVICE_USE_X_KEYBOARD || device_use == DEVICE_USE_X_EXTENSION_KEYBOARD
}

/// The server classifies the device as a keyboard and it has a device node.
pub open spec fn reported_keyboard(d: XInputDevice) -> bool {
    is_keyboard_use(d.device_use) && d.device_node@.len() > 0
}

/// The candidates of a device list, by device node; of two devices with one
/// node, the later in the list stands.
pub open spec fn xinput_candidates(devs: Seq<XInputDevice>) -> Map<Seq<char>, XInputCandidate>
    decreases devs.len(),
{
    if devs.len() == 0 {
        Map::empty()
    } else {
        let later = xinput_candidates(devs.drop_first());
        let d = devs[0];
        if reported_keyboard(d) && !later.contains_key(d.device_node@) {
            later.insert(
                d.device_node@,
                XInputCandidate { name: decode_utf8(d.name@), xinput_id: d.device_id },
            )
        } else {
            later
        }
    }
}

/// Some reported keyboard has a name that is not valid UTF-8.
pub open spec fn has_undecodable_name(devs: Seq<XInputDevice>) -> bool {
    exists|i: int| 0 <= i < devs.len() && reported_keyboard(#[trigger] devs[i]) && !valid_utf8(devs[i].name@)
}

/// Whether a device use is one of the two keyboard classifications.
pub fn is_keyboard_class(device_use: u8) -> (r: bool)
    ensures
        r == is_keyboard_use(device_use),
{
    device_use == DEVICE_USE_X_KEYBOARD || device_use == DEVICE_USE_X_EXTENSION_KEYBOARD
}

/// The keyboards among the devices that the display server lists, by device node.
pub fn xinput_keyboards(devices: Vec<XInputDevice>) -> (r: Result<NodeMap<XInputKeyboardInfo>, XInputError>)
    ensures
        match r {
            Ok(m) => !has_undecodable_name(devices@) && m.wf() && m@ == xinput_candidates(devices@),
            Err(e) => has_undecodable_name(devices@) && e == XInputError::DeviceNameNotUtf8,
        },
{
    let ghost all = devices@;
    let mut rest = devices;
    let mut acc: NodeMap<XInputKeyboardInfo> = NodeMap::new();
    assert(all.skip(all.len() as int) == Seq::<XInputDevice>::empty());
    while rest.len() > 0
        invariant
            acc.wf(),
            all == devices@,
            rest@ == all.take(rest@.len() as int),
            rest@.len() <= all.len(),
            acc@ == xinput_candidates(all.skip(rest@.len() as int)),
            forall|j: int|
                rest@.len() <= j < all.len() && reported_keyboard(#[trigger] all[j]) ==> valid_utf8(
                    all[j].name@,
                ),
        decreases rest@.len(),
    {
        let d = rest.pop().unwrap();
        let ghost i = rest@.len() as int;
        proof {
            assert(all[i] == d);
            assert(all.skip(i).drop_first() == all.skip(i + 1));
            assert(all.skip(i)[0] == d);
            assert(rest@ == all.take(i));
        }
        if is_keyboard_class(d.device_use) && d.device_node.as_str().unicode_len() > 0 {
            let XInputDevice { name, device_id, device_use: _, device_node } = d;
            match string_from_utf8(name) {
                None => {
                    assert(reported_keyboard(all[i]) && !valid_utf8(all[i].name@));
                    return Err(XInputError::DeviceNameNotUtf8);
                },
                Some(name) => {
                    if !acc.contains_key(&device_node) {
                        acc.insert_new(device_node, XInputKeyboardInfo { name, xinput_id: device_id });
                    }
                },
            }
        }
    }
    assert(all.skip(0) == all);
    Ok(acc)
}

/// What the value of a property holds: bytes, or items of a wider format.
pub enum PropertyItems {
    Bytes(Vec<u8>),
    Wider,
}

/// One reply to a property read: the length returned, what is left after it,
/// and the items.
pub struct PropertyReply {
    pub length: u32,
    pub bytes_after: u32,
    pub items: PropertyItems,
}

/// What follows the first, bounded read of the device-node property.
#[derive(Clone, Copy, Debug, PartialEq, Eq, Structural)]
pub enum FirstReadOutcome {
    /// The property is empty: the device has no device node.
    Empty,
    /// The first read holds the whole value.
    Complete,
    /// Bytes remain: read again with this length.
    ReadAgain(u32),
}

/// The length that covers the whole value, capped at the largest length a read takes.
pub open spec fn full_length(length: u32, bytes_after: u32) -> u32 {
    if length + bytes_after <= u32::MAX {
        (length + bytes_after) as u32
    } else {
        u32::MAX
    }
}

pub open spec fn first_read_outcome(length: u32, bytes_after: u32) -> FirstReadOutcome {
    if length == 0 {
        FirstReadOutcome::Empty
    } else if bytes_after != 0 {
        FirstReadOutcome::ReadAgain(full_length(length, bytes_after))
    } else {
        FirstReadOutcome::Complete
    }
}

/// The device node that property items hold, or why they hold none.
pub open spec fn node_text(items: PropertyItems) -> Result<Seq<char>, XInputError> {
    match items {
        PropertyItems::Bytes(b) => if valid_utf8(b@) {
            Ok(decode_utf8(b@))
        } else {
            Err(XInputError::DeviceNodeNotUtf8)
        },
        PropertyItems::Wider => Err(XInputError::DeviceNodeNotString),
    }
}

/// The device node that the two-phase read resolves: nothing for an empty
/// property, else the text of the second read where one was owed, else of the first.
pub open spec fn resolved_node(first: PropertyReply, second: Option<PropertyReply>) -> Result<
    Seq<char>,
    XInputError,
> {
    match first_read_outcome(first.length, first.bytes_after) {
        FirstReadOutcome::Empty => Ok(Seq::empty()),
        FirstReadOutcome::Complete => node_text(first.items),
        FirstReadOutcome::ReadAgain(_) => node_text(second.unwrap().items),
    }
}

/// Decides, from the first read's reply, whether and how to read again.
pub fn after_first_read(length: u32, bytes_after: u32) -> (r: FirstReadOutcome)
    ensures
        r == first_read_outcome(length, bytes_after),
{
    if length == 0 {
        FirstReadOutcome::Empty
    } else if bytes_after != 0 {
        FirstReadOutcome::ReadAgain(length.saturating_add(bytes_after))
    } else {
        FirstReadOutcome::Complete
    }
}

/// The device node that property items hold.
pub fn decode_device_node(items: PropertyItems) -> (r: Result<String, XInputError>)
    ensures
        match r {
            Ok(s) => node_text(items) == Ok::<Seq<char>, XInputError>(s@),
            Err(e) => node_text(items) == Err::<Seq<char>, XInputError>(e),
        },
{
    match items {
        PropertyItems::Bytes(b) => match string_from_utf8(b) {
            Some(s) => Ok(s),
            None => Err(XInputError::DeviceNodeNotUtf8),
        },
        PropertyItems::Wider => Err(XInputError::DeviceNodeNotString),
    }
}

/// Resolves the device node from the first reply and, where the first reply
/// asked for one, the reply to the second read.
pub fn resolve_device_node(first: PropertyReply, second: Option<PropertyReply>) -> (r: Result<
    String,
    XInputError,
>)
    requires
        second is Some <==> first_read_outcome(first.length, first.bytes_after) is ReadAgain,
    ensures
        match r {
            Ok(s) => resolved_node(first, second) == Ok::<Seq<char>, XInputError>(s@),
            Err(e) => resolved_node(first, second) == Err::<Seq<char>, XInputError>(e),
        },
{
    match after_first_read(first.length, first.bytes_after) {
        FirstReadOutcome::Empty => Ok(String::new()),
        FirstReadOutcome::Complete => decode_device_node(first.items),
        FirstReadOutcome::ReadAgain(_) => decode_device_node(second.unwrap().items),
    }
}

/// Where the first read is not empty and reports bytes left, the device node is
/// what the second read, of the full length, holds: the first read's items do
/// not count.
pub proof fn lemma_truncated_read_is_reread(first: PropertyReply, second: PropertyReply)
    requires
        first.length != 0,
        first.bytes_after != 0,
    ensures
        first_read_outcome(first.length, first.bytes_after) == FirstReadOutcome::ReadAgain(
            full_length(first.length, first.bytes_after),
        ),
        first.length + first.bytes_after <= u32::MAX ==> full_length(first.length, first.bytes_after)
            == first.length + first.bytes_after,
        resolved_node(first, Some(second)) == node_text(second.items),
{
}

} // verus!
