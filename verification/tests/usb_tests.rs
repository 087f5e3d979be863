use unlock_sweep::session::TestOutcome;
use unlock_sweep::usb::{command_frame, ResponseKind, ResponseMarkers, UsbDevice, UsbTarget};

fn target() -> UsbTarget {
    UsbTarget { vendor_id: 0x12d1, product_ids: vec![0x1037, 0x1057], serial: "8DF7N17A2100".to_string() }
}

fn device(vendor_id: u16, product_id: u16, serial: &str) -> UsbDevice {
    UsbDevice { vendor_id, product_id, serial: serial.to_string() }
}

fn markers() -> ResponseMarkers {
    ResponseMarkers { success: b"OKAY".to_vec(), failure: b"FAIL".to_vec() }
}

#[test]
fn target_needs_vendor_product_and_serial() {
    let t = target();
    assert!(t.matches(&device(0x12d1, 0x1037, "8DF7N17A2100")));
    assert!(t.matches(&device(0x12d1, 0x1057, "8DF7N17A2100")));
    assert!(!t.matches(&device(0x18d1, 0x1037, "8DF7N17A2100")));
    assert!(!t.matches(&device(0x12d1, 0x1038, "8DF7N17A2100")));
    assert!(!t.matches(&device(0x12d1, 0x1037, "8DF7N17A2101")));
    assert!(!t.matches(&device(0x12d1, 0x1037, "8DF7N17A210")));
    assert!(!t.matches(&device(0x12d1, 0x1037, "8df7n17a2100")));
}

#[test]
fn empty_whitelist_selects_nothing() {
    let t = UsbTarget { vendor_id: 1, product_ids: vec![], serial: "s".to_string() };
    assert!(!t.matches(&device(1, 0, "s")));
}

#[test]
fn first_matching_device_is_found() {
    let t = target();
    let devices = vec![
        device(0x1d6b, 0x0002, ""),
        device(0x12d1, 0x1037, "OTHER"),
        device(0x12d1, 0x1057, "8DF7N17A2100"),
        device(0x12d1, 0x1037, "8DF7N17A2100"),
    ];
    assert_eq!(t.find(&devices), Some(2));
    assert!(t.is_present(&devices));
}

#[test]
fn missing_device_is_not_found() {
    let t = target();
    let devices = vec![device(0x1d6b, 0x0002, ""), device(0x12d1, 0x1037, "OTHER")];
    assert_eq!(t.find(&devices), None);
    assert!(!t.is_present(&devices));
    assert_eq!(t.find(&vec![]), None);
    assert!(!t.is_present(&vec![]));
}

#[test]
fn response_is_told_by_its_first_bytes() {
    let m = markers();
    assert_eq!(m.classify(b"OKAY"), ResponseKind::Success);
    assert_eq!(m.classify(b"OKAYunlocked"), ResponseKind::Success);
    assert_eq!(m.classify(b"FAILcheck password failed"), ResponseKind::Failure);
    assert_eq!(m.classify(b"INFOerasing"), ResponseKind::Unknown);
    assert_eq!(m.classify(b""), ResponseKind::Unknown);
    assert_eq!(m.classify(b"OKA"), ResponseKind::Unknown);
    assert_eq!(m.classify(b" OKAY"), ResponseKind::Unknown);
    assert_eq!(m.classify(b"okay"), ResponseKind::Unknown);
    assert_eq!(m.classify(b"FAIL OKAY"), ResponseKind::Failure);
}

#[test]
fn success_marker_is_tried_first() {
    let m = ResponseMarkers { success: b"OK".to_vec(), failure: b"OKAY".to_vec() };
    assert_eq!(m.classify(b"OKAY"), ResponseKind::Success);
    let n = ResponseMarkers { success: b"OKAY".to_vec(), failure: b"OK".to_vec() };
    assert_eq!(n.classify(b"OKAY"), ResponseKind::Success);
    assert_eq!(n.classify(b"OK"), ResponseKind::Failure);
}

#[test]
fn only_success_unlocks() {
    let m = markers();
    assert_eq!(m.judge(b"OKAY"), TestOutcome::Unlocked);
    assert_eq!(m.judge(b"FAILnope"), TestOutcome::Rejected);
    assert_eq!(m.judge(b"\xff\xfe"), TestOutcome::Rejected);
    assert_eq!(m.judge(b""), TestOutcome::Rejected);
}

#[test]
fn frame_is_the_bare_command() {
    assert_eq!(command_frame("oem unlock ", "1855899918978974"), b"oem unlock 1855899918978974".to_vec());
    assert_eq!(command_frame("reboot-bootloader", ""), b"reboot-bootloader".to_vec());
    assert_eq!(command_frame("", ""), Vec::<u8>::new());
}
