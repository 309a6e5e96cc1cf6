//! Scan-level behaviour: ordering, termination policy, soft failures.

use hid_enum::hid::{enumerate_from, process_entry, DeviceProbe, HidAttributes, HidCaps};

fn narrow(s: &str) -> Vec<u8> {
    let mut v = s.as_bytes().to_vec();
    v.push(0);
    v
}

fn wide(s: &str) -> Vec<u16> {
    let mut v: Vec<u16> = s.encode_utf16().collect();
    v.push(0);
    v
}

fn good_probe(path: &str, class: &str) -> DeviceProbe {
    DeviceProbe {
        interface_present: true,
        detail_path: Some(narrow(path)),
        class_name: Some(narrow(class)),
        driver_ok: true,
        opened: true,
        attributes: Some(HidAttributes {
            vendor_id: 0x04d8,
            product_id: 0x003f,
            release_number: 0x0100,
        }),
        caps: Some(HidCaps { usage_page: 1, usage: 6 }),
        serial_number: Some(wide("SN123")),
        manufacturer_string: Some(wide("Acme")),
        product_string: Some(wide("Widget")),
    }
}

fn exhausted_probe() -> DeviceProbe {
    DeviceProbe {
        interface_present: false,
        detail_path: None,
        class_name: None,
        driver_ok: false,
        opened: false,
        attributes: None,
        caps: None,
        serial_number: None,
        manufacturer_string: None,
        product_string: None,
    }
}

const PATH_WITH_IFACE: &str = "\\\\?\\hid#vid_04d8&pid_003f&mi_02#8&2d&0#{4d1e55b2}";
const PATH_NO_IFACE: &str = "\\\\?\\hid#vid_04d8&pid_003f#8&2d&0#{4d1e55b2}";

#[test]
fn empty_system_returns_empty_sequence() {
    let probes: Vec<DeviceProbe> = Vec::new();
    let records = enumerate_from(&probes);
    assert!(records.is_empty());
}

#[test]
fn exhausted_interface_lookup_is_normal_end() {
    let probes = vec![good_probe(PATH_WITH_IFACE, "HIDClass"), exhausted_probe()];
    let records = enumerate_from(&probes);
    assert_eq!(records.len(), 1);
}

#[test]
fn single_device_record_fields() {
    let probes = vec![good_probe(PATH_WITH_IFACE, "HIDClass"), exhausted_probe()];
    let records = enumerate_from(&probes);
    assert_eq!(records.len(), 1);
    let r = &records[0];
    assert_eq!(r.path, PATH_WITH_IFACE);
    assert_eq!(r.vendor_id, 0x04d8);
    assert_eq!(r.product_id, 0x003f);
    assert_eq!(r.release_number, 0x0100);
    assert_eq!(r.serial_number, "SN123");
    assert_eq!(r.manufacturer_string, "Acme");
    assert_eq!(r.product_string, "Widget");
    assert_eq!(r.usage_page, 1);
    assert_eq!(r.usage, 6);
    assert_eq!(r.interface_number, 2);
}

#[test]
fn path_without_marker_gives_sentinel() {
    let probes = vec![good_probe(PATH_NO_IFACE, "HIDClass")];
    let records = enumerate_from(&probes);
    assert_eq!(records.len(), 1);
    assert_eq!(records[0].interface_number, -1);
}

#[test]
fn mouse_class_is_retained() {
    let records = enumerate_from(&vec![good_probe(PATH_WITH_IFACE, "Mouse")]);
    assert_eq!(records.len(), 1);
}

#[test]
fn keyboard_class_is_retained() {
    let records = enumerate_from(&vec![good_probe(PATH_WITH_IFACE, "Keyboard")]);
    assert_eq!(records.len(), 1);
}

#[test]
fn rejected_class_stops_whole_scan() {
    // The surprising global-stop policy: one foreign class ends the scan,
    // and the later matching entry is never reported.
    let probes = vec![
        good_probe(PATH_WITH_IFACE, "HIDClass"),
        good_probe(PATH_WITH_IFACE, "Disk"),
        good_probe(PATH_WITH_IFACE, "HIDClass"),
    ];
    let records = enumerate_from(&probes);
    assert_eq!(records.len(), 1);
}

#[test]
fn open_failure_stops_scan() {
    let mut failing = good_probe(PATH_WITH_IFACE, "HIDClass");
    failing.opened = false;
    let probes = vec![failing, good_probe(PATH_WITH_IFACE, "HIDClass")];
    let records = enumerate_from(&probes);
    assert!(records.is_empty());
}

#[test]
fn detail_failure_stops_scan() {
    let mut failing = good_probe(PATH_WITH_IFACE, "HIDClass");
    failing.detail_path = None;
    let probes = vec![failing, good_probe(PATH_WITH_IFACE, "HIDClass")];
    let records = enumerate_from(&probes);
    assert!(records.is_empty());
}

#[test]
fn driver_property_failure_stops_scan() {
    let mut failing = good_probe(PATH_WITH_IFACE, "HIDClass");
    failing.driver_ok = false;
    let records = enumerate_from(&vec![failing]);
    assert!(records.is_empty());
}

#[test]
fn empty_path_is_never_emitted() {
    let mut failing = good_probe(PATH_WITH_IFACE, "HIDClass");
    failing.detail_path = Some(vec![0]);
    let records = enumerate_from(&vec![failing]);
    assert!(records.is_empty());
}

#[test]
fn attribute_failure_still_appends_record() {
    let mut soft = good_probe(PATH_WITH_IFACE, "HIDClass");
    soft.attributes = None;
    let probes = vec![soft, good_probe(PATH_WITH_IFACE, "HIDClass")];
    let records = enumerate_from(&probes);
    assert_eq!(records.len(), 2);
    assert_eq!(records[0].vendor_id, 0);
    assert_eq!(records[0].product_id, 0);
    assert_eq!(records[0].release_number, 0);
    assert_eq!(records[1].vendor_id, 0x04d8);
}

#[test]
fn capability_failure_leaves_zero_usage() {
    let mut soft = good_probe(PATH_WITH_IFACE, "HIDClass");
    soft.caps = None;
    let records = enumerate_from(&vec![soft]);
    assert_eq!(records.len(), 1);
    assert_eq!(records[0].usage_page, 0);
    assert_eq!(records[0].usage, 0);
}

#[test]
fn string_query_failure_leaves_field_empty() {
    let mut soft = good_probe(PATH_WITH_IFACE, "HIDClass");
    soft.serial_number = None;
    let records = enumerate_from(&vec![soft]);
    assert_eq!(records.len(), 1);
    assert_eq!(records[0].serial_number, "");
    assert_eq!(records[0].manufacturer_string, "Acme");
    assert_eq!(records[0].product_string, "Widget");
}

#[test]
fn consecutive_scans_are_identical() {
    let probes = vec![
        good_probe(PATH_WITH_IFACE, "HIDClass"),
        good_probe(PATH_NO_IFACE, "Mouse"),
    ];
    let first = enumerate_from(&probes);
    let second = enumerate_from(&probes);
    assert_eq!(first.len(), second.len());
    for (a, b) in first.iter().zip(second.iter()) {
        assert_eq!(a.vendor_id, b.vendor_id);
        assert_eq!(a.product_id, b.product_id);
        assert_eq!(a.usage_page, b.usage_page);
        assert_eq!(a.usage, b.usage);
        assert_eq!(a.interface_number, b.interface_number);
        assert_eq!(a.path, b.path);
        assert_eq!(a.serial_number, b.serial_number);
    }
}

#[test]
fn process_entry_accepts_good_probe() {
    let record = process_entry(&good_probe(PATH_WITH_IFACE, "HIDClass"));
    assert!(record.is_some());
    assert_eq!(record.unwrap().interface_number, 2);
}

#[test]
fn process_entry_rejects_exhausted_probe() {
    assert!(process_entry(&exhausted_probe()).is_none());
}
