use xsprite::node_map::NodeMap;
use xsprite::presence::{KeyboardInfo, KeyboardPresenceState};
use xsprite::udev::{udev_keyboards, UdevDevice, UdevKeyboardInfo};
use xsprite::xinput::{xinput_keyboards, XInputDevice, XInputKeyboardInfo, XInputError};

fn xdev(name: &str, id: u8, device_use: u8, node: &str) -> XInputDevice {
    XInputDevice {
        name: name.as_bytes().to_vec(),
        device_id: id,
        device_use,
        device_node: node.to_string(),
    }
}

fn udev(node: &str, vendor: &str, model: &str) -> UdevDevice {
    UdevDevice {
        input_keyboard: Some("1".to_string()),
        input_key: Some("1".to_string()),
        devnode: Some(node.to_string()),
        vendor_id: Some(vendor.to_string()),
        model_id: Some(model.to_string()),
    }
}

fn xmap(devs: Vec<XInputDevice>) -> NodeMap<XInputKeyboardInfo> {
    xinput_keyboards(devs).unwrap()
}

fn umap(devs: Vec<UdevDevice>) -> NodeMap<UdevKeyboardInfo> {
    udev_keyboards(devs)
}

fn nodes(m: &NodeMap<KeyboardInfo>) -> Vec<String> {
    let mut v = Vec::new();
    for i in 0..m.len() {
        v.push(m.key_at(i).clone());
    }
    v.sort();
    v
}

fn find<'a>(m: &'a NodeMap<KeyboardInfo>, node: &str) -> Option<&'a KeyboardInfo> {
    m.get(&node.to_string())
}

const A: &str = "/dev/input/event3";
const B: &str = "/dev/input/event5";

fn round_ab() -> (NodeMap<XInputKeyboardInfo>, NodeMap<UdevKeyboardInfo>) {
    (
        xmap(vec![xdev("Alpha", 9, 1, A), xdev("Beta", 11, 3, B)]),
        umap(vec![udev(A, "046d", "c52b"), udev(B, "1234", "abcd")]),
    )
}

fn round_a() -> (NodeMap<XInputKeyboardInfo>, NodeMap<UdevKeyboardInfo>) {
    (
        xmap(vec![xdev("Alpha", 9, 1, A)]),
        umap(vec![udev(A, "046d", "c52b")]),
    )
}

#[test]
fn second_update_adds_nothing() {
    let mut state = KeyboardPresenceState::new();
    let (x, d) = round_ab();
    let first = state.update(&x, &d);
    assert_eq!(nodes(&first), vec![A.to_string(), B.to_string()]);
    let second = state.update(&x, &d);
    assert_eq!(second.len(), 0);
    let third = state.update(&x, &d);
    assert_eq!(third.len(), 0);
}

#[test]
fn one_sided_nodes_are_left_out() {
    let mut state = KeyboardPresenceState::new();
    let x = xmap(vec![xdev("Alpha", 9, 1, A), xdev("Power Button", 4, 3, "/dev/input/event0")]);
    let d = umap(vec![udev(A, "046d", "c52b"), udev("/dev/input/event7", "0001", "0002")]);
    let added = state.update(&x, &d);
    assert_eq!(nodes(&added), vec![A.to_string()]);
    assert!(find(&added, "/dev/input/event0").is_none());
    assert!(find(&added, "/dev/input/event7").is_none());
}

#[test]
fn joined_record_takes_fields_from_both_sources() {
    let mut state = KeyboardPresenceState::new();
    let x = xmap(vec![xdev("Foo", 9, 1, A)]);
    let d = umap(vec![udev(A, "046d", "c52b")]);
    let added = state.update(&x, &d);
    let k = find(&added, A).unwrap();
    assert_eq!(k.name, "Foo");
    assert_eq!(k.device_node, A);
    assert_eq!(k.xinput_id, 9);
    assert_eq!(k.vendor_id, 0x046d);
    assert_eq!(k.product_id, 0xc52b);
}

#[test]
fn forgotten_keyboard_is_added_again() {
    let mut state = KeyboardPresenceState::new();
    let (x1, d1) = round_ab();
    let (x2, d2) = round_a();
    let (x3, d3) = round_ab();
    let r1 = state.update(&x1, &d1);
    let r2 = state.update(&x2, &d2);
    let r3 = state.update(&x3, &d3);
    assert_eq!(nodes(&r1), vec![A.to_string(), B.to_string()]);
    assert_eq!(nodes(&r2), Vec::<String>::new());
    assert_eq!(nodes(&r3), vec![B.to_string()]);
}

#[test]
fn removal_from_one_source_forgets_keyboard() {
    let mut state = KeyboardPresenceState::new();
    let (x1, d1) = round_ab();
    state.update(&x1, &d1);
    let x2 = xmap(vec![xdev("Alpha", 9, 1, A), xdev("Beta", 11, 3, B)]);
    let d2 = umap(vec![udev(A, "046d", "c52b")]);
    assert_eq!(state.update(&x2, &d2).len(), 0);
    let added = state.update(&x1, &d1);
    assert_eq!(nodes(&added), vec![B.to_string()]);
}

#[test]
fn empty_enumerations_add_nothing() {
    let mut state = KeyboardPresenceState::new();
    let x = xmap(vec![]);
    let d = umap(vec![]);
    assert_eq!(state.update(&x, &d).len(), 0);
}

#[test]
fn xinput_keeps_keyboard_classes_with_nodes() {
    let m = xmap(vec![
        xdev("Mouse", 2, 0, "/dev/input/event1"),
        xdev("Core", 3, 1, "/dev/input/event2"),
        xdev("Ext", 4, 3, "/dev/input/event4"),
        xdev("Virtual", 5, 3, ""),
        xdev("ExtPointer", 6, 4, "/dev/input/event6"),
    ]);
    assert_eq!(m.len(), 2);
    assert_eq!(m.get(&"/dev/input/event2".to_string()).unwrap().xinput_id, 3);
    assert_eq!(m.get(&"/dev/input/event4".to_string()).unwrap().name, "Ext");
}

#[test]
fn xinput_later_device_with_same_node_stands() {
    let m = xmap(vec![xdev("First", 3, 1, A), xdev("Second", 4, 3, A)]);
    assert_eq!(m.len(), 1);
    let k = m.get(&A.to_string()).unwrap();
    assert_eq!(k.name, "Second");
    assert_eq!(k.xinput_id, 4);
}

#[test]
fn xinput_name_not_utf8_fails_pass() {
    let bad = XInputDevice {
        name: vec![0x66, 0xff, 0x6f],
        device_id: 7,
        device_use: 1,
        device_node: A.to_string(),
    };
    assert_eq!(
        xinput_keyboards(vec![xdev("Fine", 3, 1, B), bad]).err(),
        Some(XInputError::DeviceNameNotUtf8)
    );
}

#[test]
fn xinput_bad_name_of_non_keyboard_is_ignored() {
    let bad = XInputDevice {
        name: vec![0xff],
        device_id: 7,
        device_use: 0,
        device_node: A.to_string(),
    };
    assert_eq!(xinput_keyboards(vec![bad]).unwrap().len(), 0);
}

#[test]
fn xinput_name_decodes_multibyte_text() {
    let d = XInputDevice {
        name: "Clavier \u{e9}".as_bytes().to_vec(),
        device_id: 12,
        device_use: 1,
        device_node: A.to_string(),
    };
    let m = xinput_keyboards(vec![d]).unwrap();
    assert_eq!(m.get(&A.to_string()).unwrap().name, "Clavier \u{e9}");
}
