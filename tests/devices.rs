use xsprite::udev::{device_is_keyboard, is_keyboard_event, udev_keyboards, HotplugEvent, HotplugKind, UdevDevice};
use xsprite::watch::{next_action, LoopAction, MonitorSignal};

fn keyboard(node: &str) -> UdevDevice {
    UdevDevice {
        input_keyboard: Some("1".to_string()),
        input_key: Some("1".to_string()),
        devnode: Some(node.to_string()),
        vendor_id: Some("046d".to_string()),
        model_id: Some("c52b".to_string()),
    }
}

fn mouse() -> UdevDevice {
    UdevDevice {
        input_keyboard: None,
        input_key: Some("1".to_string()),
        devnode: Some("/dev/input/event9".to_string()),
        vendor_id: Some("046d".to_string()),
        model_id: Some("c077".to_string()),
    }
}

#[test]
fn heuristic_needs_all_three_signs() {
    assert!(device_is_keyboard(&keyboard("/dev/input/event3")));
    assert!(!device_is_keyboard(&mouse()));
    let mut d = keyboard("/dev/input/event3");
    d.input_key = Some("0".to_string());
    assert!(!device_is_keyboard(&d));
    let mut d = keyboard("/dev/input/event3");
    d.input_keyboard = Some("11".to_string());
    assert!(!device_is_keyboard(&d));
    let mut d = keyboard("/dev/input/event3");
    d.devnode = None;
    assert!(!device_is_keyboard(&d));
}

#[test]
fn udev_reads_identifiers_in_hex() {
    let m = udev_keyboards(vec![keyboard("/dev/input/event3"), mouse()]);
    assert_eq!(m.len(), 1);
    let k = m.get(&"/dev/input/event3".to_string()).unwrap();
    assert_eq!(k.vendor_id, 0x046d);
    assert_eq!(k.product_id, 0xc52b);
}

#[test]
fn udev_skips_missing_or_unreadable_identifiers() {
    let mut missing = keyboard("/dev/input/event3");
    missing.vendor_id = None;
    let mut unreadable = keyboard("/dev/input/event4");
    unreadable.model_id = Some("zz12".to_string());
    let mut too_large = keyboard("/dev/input/event5");
    too_large.vendor_id = Some("10000".to_string());
    let fine = keyboard("/dev/input/event6");
    let m = udev_keyboards(vec![missing, unreadable, too_large, fine]);
    assert_eq!(m.len(), 1);
    assert!(m.get(&"/dev/input/event6".to_string()).is_some());
}

#[test]
fn udev_later_device_with_same_node_stands() {
    let first = keyboard("/dev/input/event3");
    let mut second = keyboard("/dev/input/event3");
    second.vendor_id = Some("1234".to_string());
    let m = udev_keyboards(vec![first, second]);
    assert_eq!(m.len(), 1);
    assert_eq!(m.get(&"/dev/input/event3".to_string()).unwrap().vendor_id, 0x1234);
}

#[test]
fn keyboard_add_wakes_loop_once() {
    let ev = HotplugEvent { kind: HotplugKind::Add, device: keyboard("/dev/input/event3") };
    assert!(is_keyboard_event(&ev));
    assert_eq!(next_action(&MonitorSignal::Event(ev)), LoopAction::Reconcile);
}

#[test]
fn keyboard_remove_wakes_loop() {
    let ev = HotplugEvent { kind: HotplugKind::Remove, device: keyboard("/dev/input/event3") };
    assert_eq!(next_action(&MonitorSignal::Event(ev)), LoopAction::Reconcile);
}

#[test]
fn other_notifications_do_not_wake_loop() {
    let change = HotplugEvent { kind: HotplugKind::Change, device: keyboard("/dev/input/event3") };
    assert!(!is_keyboard_event(&change));
    assert_eq!(next_action(&MonitorSignal::Event(change)), LoopAction::Wait);
    let mouse_add = HotplugEvent { kind: HotplugKind::Add, device: mouse() };
    assert_eq!(next_action(&MonitorSignal::Event(mouse_add)), LoopAction::Wait);
    assert_eq!(next_action(&MonitorSignal::ReadError), LoopAction::Wait);
}

#[test]
fn ended_stream_reconciles_again() {
    assert_eq!(next_action(&MonitorSignal::Ended), LoopAction::Reconcile);
}
