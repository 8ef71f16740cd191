use usb_platform::device::{sort_by_number, DeviceInfo, InterfaceInfo, Speed};
use usb_platform::enumeration::{has_device_name_shape, list_devices, probe_device};
use usb_platform::error::{Error, ErrorKind};
use usb_platform::sysfs::{
    IoFailure, ReadOutcome, SysfsAttr, SysfsEntry, SysfsError, SysfsErrorKind, SysfsPath,
};

const ROOT: &str = "/sys/bus/usb/devices/";

fn text(name: &str, content: &str) -> SysfsAttr {
    SysfsAttr { name: name.to_string(), content: ReadOutcome::Text(content.to_string()) }
}

fn unreadable(name: &str) -> SysfsAttr {
    SysfsAttr {
        name: name.to_string(),
        content: ReadOutcome::Failed(IoFailure::Unreadable {
            code: Some(13),
            message: "Permission denied (os error 13)".to_string(),
        }),
    }
}

fn entry(parent: &str, name: &str, is_dir: bool, attrs: Vec<SysfsAttr>) -> SysfsEntry {
    let path = if parent.ends_with('/') {
        format!("{parent}{name}")
    } else {
        format!("{parent}/{name}")
    };
    SysfsEntry { path, name: name.to_string(), is_dir, attrs }
}

fn device_attrs(busnum: &str) -> Vec<SysfsAttr> {
    vec![
        text("busnum", busnum),
        text("devnum", "7\n"),
        text("devpath", "6.4\n"),
        text("idVendor", "1d6b\n"),
        text("idProduct", "0002\n"),
        text("bcdDevice", "0510\n"),
        text("bDeviceClass", "09\n"),
        text("bDeviceSubClass", "00\n"),
        text("bDeviceProtocol", "01\n"),
        text("bMaxPacketSize0", "64\n"),
        text("speed", "480\n"),
        text("manufacturer", "Linux Foundation\n"),
        text("product", "  Hub  \n"),
    ]
}

fn without(attrs: Vec<SysfsAttr>, name: &str) -> Vec<SysfsAttr> {
    attrs.into_iter().filter(|a| a.name != name).collect()
}

fn with(attrs: Vec<SysfsAttr>, attr: SysfsAttr) -> Vec<SysfsAttr> {
    let mut out = without(attrs, &attr.name);
    out.push(attr);
    out
}

fn device(name: &str, attrs: Vec<SysfsAttr>, entries: Vec<SysfsEntry>) -> SysfsPath {
    SysfsPath { node: entry(ROOT, name, true, attrs), entries }
}

fn interface(parent: &str, name: &str, number: &str) -> SysfsEntry {
    entry(
        parent,
        name,
        true,
        vec![
            text("bInterfaceNumber", number),
            text("bInterfaceClass", "03\n"),
            text("bInterfaceSubClass", "01\n"),
            text("bInterfaceProtocol", "02\n"),
            text("interface", "Keyboard\n"),
        ],
    )
}

fn probe(path: SysfsPath) -> DeviceInfo {
    probe_device(path).expect("the device is well formed")
}

#[test]
fn bus_id_is_bus_number_in_three_digits() {
    assert_eq!(probe(device("1-6", device_attrs("1\n"), vec![])).bus_id, "001");
    assert_eq!(probe(device("1-6", device_attrs("42\n"), vec![])).bus_id, "042");
    assert_eq!(probe(device("1-6", device_attrs("255\n"), vec![])).bus_id, "255");
    assert_eq!(probe(device("1-6", device_attrs("0\n"), vec![])).bus_id, "000");
}

#[test]
fn probe_reads_every_field() {
    let d = probe(device("1-6.4", device_attrs("3\n"), vec![]));
    assert_eq!(d.busnum, 3);
    assert_eq!(d.bus_id, "003");
    assert_eq!(d.device_address, 7);
    assert_eq!(d.port_chain, vec![6, 4]);
    assert_eq!(d.vendor_id, 0x1d6b);
    assert_eq!(d.product_id, 0x0002);
    assert_eq!(d.device_version, 0x0510);
    assert_eq!(d.class, 9);
    assert_eq!(d.subclass, 0);
    assert_eq!(d.protocol, 1);
    assert_eq!(d.max_packet_size_0, 64);
    assert_eq!(d.speed, Some(Speed::High));
    assert_eq!(d.manufacturer_string.as_deref(), Some("Linux Foundation"));
    assert_eq!(d.product_string.as_deref(), Some("Hub"));
    assert_eq!(d.serial_number, None);
    assert!(d.interfaces.is_empty());
    assert_eq!(d.path.node.path, "/sys/bus/usb/devices/1-6.4");
    assert_eq!(d.path.node.name, "1-6.4");
}

fn chain_of(devpath: Option<&str>) -> Vec<u8> {
    let attrs = match devpath {
        Some(t) => with(device_attrs("1\n"), text("devpath", t)),
        None => without(device_attrs("1\n"), "devpath"),
    };
    probe(device("1-6", attrs, vec![])).port_chain
}

#[test]
fn port_chain_is_read_hop_by_hop() {
    assert_eq!(chain_of(Some("1.6.4")), vec![1, 6, 4]);
    assert_eq!(chain_of(Some("1.6.4\n")), vec![1, 6, 4]);
    assert_eq!(chain_of(Some("0\n")), vec![0]);
    assert_eq!(chain_of(Some("255.+3\n")), vec![255, 3]);
}

#[test]
fn port_chain_is_all_or_nothing() {
    assert_eq!(chain_of(None), Vec::<u8>::new());
    assert_eq!(chain_of(Some("")), Vec::<u8>::new());
    assert_eq!(chain_of(Some("1..4")), Vec::<u8>::new());
    assert_eq!(chain_of(Some("1.6.x")), Vec::<u8>::new());
    assert_eq!(chain_of(Some("1.6.")), Vec::<u8>::new());
    assert_eq!(chain_of(Some(".1")), Vec::<u8>::new());
    assert_eq!(chain_of(Some("1.256")), Vec::<u8>::new());
    assert_eq!(chain_of(Some("1. 6")), Vec::<u8>::new());
    assert_eq!(chain_of(Some("1.-6")), Vec::<u8>::new());
    let failing = with(device_attrs("1\n"), unreadable("devpath"));
    assert_eq!(probe(device("1-6", failing, vec![])).port_chain, Vec::<u8>::new());
}

fn numbers(d: &DeviceInfo) -> Vec<u8> {
    d.interfaces.iter().map(|i| i.interface_number).collect()
}

#[test]
fn interfaces_come_in_number_order() {
    let dir = "/sys/bus/usb/devices/1-6";
    let forward = vec![
        interface(dir, "1-6:1.0", "00\n"),
        interface(dir, "1-6:1.1", "01\n"),
        interface(dir, "1-6:1.2", "02\n"),
        interface(dir, "1-6:1.10", "0a\n"),
    ];
    let mut backward = forward.clone();
    backward.reverse();
    let mixed = vec![forward[2].clone(), forward[0].clone(), forward[3].clone(), forward[1].clone()];
    for entries in [forward, backward, mixed] {
        let d = probe(device("1-6", device_attrs("1\n"), entries));
        assert_eq!(numbers(&d), vec![0, 1, 2, 10]);
    }
}

#[test]
fn interfaces_with_one_number_are_all_kept() {
    let dir = "/sys/bus/usb/devices/1-6";
    let entries = vec![
        interface(dir, "1-6:1.3", "03\n"),
        interface(dir, "1-6:1.1", "01\n"),
        interface(dir, "1-6:2.1", "01\n"),
        interface(dir, "1-6:1.0", "00\n"),
    ];
    let d = probe(device("1-6", device_attrs("1\n"), entries));
    assert_eq!(numbers(&d), vec![0, 1, 1, 3]);
}

#[test]
fn interface_fields_are_read_in_hexadecimal() {
    let dir = "/sys/bus/usb/devices/1-6";
    let mut e = interface(dir, "1-6:1.0", "1f\n");
    e.attrs = with(e.attrs, text("bInterfaceClass", "ff\n"));
    let d = probe(device("1-6", device_attrs("1\n"), vec![e]));
    assert_eq!(
        d.interfaces,
        vec![InterfaceInfo {
            interface_number: 0x1f,
            class: 0xff,
            subclass: 1,
            protocol: 2,
            interface_string: Some("Keyboard".to_string()),
        }]
    );
}

#[test]
fn subdirectories_that_are_no_interfaces_are_passed_over() {
    let dir = "/sys/bus/usb/devices/1-6";
    let power = entry(dir, "power", true, vec![text("bInterfaceNumber", "05\n")]);
    let mut plain_file = interface(dir, "1-6:1.7", "07\n");
    plain_file.is_dir = false;
    let mut incomplete = interface(dir, "1-6:1.8", "08\n");
    incomplete.attrs = without(incomplete.attrs, "bInterfaceProtocol");
    let mut malformed = interface(dir, "1-6:1.9", "09\n");
    malformed.attrs = with(malformed.attrs, text("bInterfaceClass", "zz\n"));
    let mut unnamed = interface(dir, "1-6:1.2", "02\n");
    unnamed.attrs = without(unnamed.attrs, "interface");
    let mut no_colon = interface(dir, "1-6.1", "04\n");
    no_colon.name = "1-6.1".to_string();
    let entries = vec![power, plain_file, incomplete, malformed, unnamed, no_colon];
    let d = probe(device("1-6", device_attrs("1\n"), entries));
    assert_eq!(numbers(&d), vec![2]);
    assert_eq!(d.interfaces[0].interface_string, None);
}

#[test]
fn children_are_the_directories() {
    let dir = "/sys/bus/usb/devices/1-6";
    let mut file = entry(dir, "uevent", false, vec![]);
    file.is_dir = false;
    let path = device(
        "1-6",
        device_attrs("1\n"),
        vec![entry(dir, "power", true, vec![]), file, interface(dir, "1-6:1.0", "00\n")],
    );
    let names: Vec<&str> = path.children().iter().map(|e| e.name.as_str()).collect();
    assert_eq!(names, vec!["power", "1-6:1.0"]);
}

#[test]
fn missing_vendor_id_fails_the_probe() {
    let attrs = without(device_attrs("1\n"), "idVendor");
    let e = probe_device(device("1-6", attrs, vec![])).unwrap_err();
    assert_eq!(
        e,
        SysfsError(
            "/sys/bus/usb/devices/1-6/idVendor".to_string(),
            SysfsErrorKind::Io(IoFailure::Missing)
        )
    );
}

#[test]
fn vendor_id_that_is_not_hexadecimal_fails_the_probe() {
    let attrs = with(device_attrs("1\n"), text("idVendor", "12xz\n"));
    let e = probe_device(device("1-6", attrs, vec![])).unwrap_err();
    assert_eq!(
        e,
        SysfsError(
            "/sys/bus/usb/devices/1-6/idVendor".to_string(),
            SysfsErrorKind::Parse("12xz\n".to_string())
        )
    );
}

#[test]
fn unreadable_attribute_fails_the_probe_with_the_system_error() {
    let attrs = with(device_attrs("1\n"), unreadable("bcdDevice"));
    let e = probe_device(device("1-6", attrs, vec![])).unwrap_err();
    assert_eq!(e.0, "/sys/bus/usb/devices/1-6/bcdDevice");
    assert_eq!(
        e.source(),
        Some(&IoFailure::Unreadable {
            code: Some(13),
            message: "Permission denied (os error 13)".to_string()
        })
    );
}

#[test]
fn the_first_failure_in_reading_order_is_the_one_returned() {
    let mut attrs = without(device_attrs("1\n"), "bMaxPacketSize0");
    attrs = without(attrs, "devnum");
    attrs = with(attrs, text("idProduct", "\n"));
    let e = probe_device(device("1-6", attrs, vec![])).unwrap_err();
    assert_eq!(e.0, "/sys/bus/usb/devices/1-6/devnum");
    let mut attrs = without(device_attrs("1\n"), "bMaxPacketSize0");
    attrs = with(attrs, text("idProduct", "\n"));
    let e = probe_device(device("1-6", attrs, vec![])).unwrap_err();
    assert_eq!(e, SysfsError(
        "/sys/bus/usb/devices/1-6/idProduct".to_string(),
        SysfsErrorKind::Parse("\n".to_string())
    ));
    let attrs = with(device_attrs("1\n"), text("busnum", "256\n"));
    let e = probe_device(device("1-6", attrs, vec![])).unwrap_err();
    assert_eq!(e.1, SysfsErrorKind::Parse("256\n".to_string()));
}

#[test]
fn every_required_attribute_is_required() {
    for name in [
        "busnum",
        "devnum",
        "idVendor",
        "idProduct",
        "bcdDevice",
        "bDeviceClass",
        "bDeviceSubClass",
        "bDeviceProtocol",
        "bMaxPacketSize0",
    ] {
        let attrs = without(device_attrs("1\n"), name);
        let e = probe_device(device("1-6", attrs, vec![])).unwrap_err();
        assert_eq!(e.0, format!("/sys/bus/usb/devices/1-6/{name}"));
        assert_eq!(e.1, SysfsErrorKind::Io(IoFailure::Missing));
    }
}

#[test]
fn optional_attributes_degrade_to_absent() {
    let mut attrs = device_attrs("1\n");
    for name in ["speed", "manufacturer", "product", "serial", "devpath"] {
        attrs = without(attrs, name);
    }
    let d = probe(device("1-6", attrs, vec![]));
    assert_eq!(d.speed, None);
    assert_eq!(d.manufacturer_string, None);
    assert_eq!(d.product_string, None);
    assert_eq!(d.serial_number, None);
    assert!(d.port_chain.is_empty());
    let attrs = with(device_attrs("1\n"), unreadable("serial"));
    assert_eq!(probe(device("1-6", attrs, vec![])).serial_number, None);
    let attrs = with(device_attrs("1\n"), text("serial", " \t\n"));
    assert_eq!(probe(device("1-6", attrs, vec![])).serial_number.as_deref(), Some(""));
}

#[test]
fn speed_is_looked_up_by_name() {
    let cases = [
        ("1.5\n", Some(Speed::Low)),
        ("low", Some(Speed::Low)),
        ("12\n", Some(Speed::Full)),
        ("full", Some(Speed::Full)),
        ("480\n", Some(Speed::High)),
        ("high", Some(Speed::High)),
        ("5000\n", Some(Speed::Super)),
        ("super", Some(Speed::Super)),
        ("10000\n", Some(Speed::SuperPlus)),
        ("super+", Some(Speed::SuperPlus)),
        ("20000\n", None),
        ("unknown\n", None),
        ("", None),
        ("High", None),
    ];
    for (content, expected) in cases {
        let attrs = with(device_attrs("1\n"), text("speed", content));
        assert_eq!(probe(device("1-6", attrs, vec![])).speed, expected, "{content:?}");
    }
    assert_eq!(Speed::from_str("480"), Some(Speed::High));
    assert_eq!(Speed::from_str("480\n"), None);
}

#[test]
fn device_names_are_digits_dashes_and_dots() {
    assert!(has_device_name_shape("1-6"));
    assert!(has_device_name_shape("1-6.4.2"));
    assert!(has_device_name_shape("12-0"));
    assert!(has_device_name_shape(""));
    assert!(!has_device_name_shape("usb1"));
    assert!(!has_device_name_shape("1-6:1.0"));
    assert!(!has_device_name_shape("1-6 "));
    assert!(!has_device_name_shape("1_6"));
    assert!(!has_device_name_shape("1-\u{0663}"));
}

fn names(devices: &[DeviceInfo]) -> Vec<&str> {
    devices.iter().map(|d| d.path.node.name.as_str()).collect()
}

#[test]
fn root_hubs_and_interfaces_are_not_listed() {
    let listing = vec![
        device("usb1", device_attrs("1\n"), vec![]),
        device("1-6", device_attrs("1\n"), vec![]),
        device("1-6:1.0", device_attrs("1\n"), vec![]),
        device("1-6.4", device_attrs("1\n"), vec![]),
        device("usb2", device_attrs("2\n"), vec![]),
        device("2-1", device_attrs("2\n"), vec![]),
    ];
    let devices = list_devices(Ok(listing)).unwrap();
    assert_eq!(names(&devices), vec!["1-6", "1-6.4", "2-1"]);
    assert_eq!(devices[2].bus_id, "002");
}

#[test]
fn a_failing_device_does_not_hide_its_siblings() {
    let listing = vec![
        device("1-1", device_attrs("1\n"), vec![]),
        device("1-2", without(device_attrs("1\n"), "idVendor"), vec![]),
        device("1-3", with(device_attrs("1\n"), text("idVendor", "nothex\n")), vec![]),
        device("1-4", device_attrs("1\n"), vec![]),
        device("1-5", with(device_attrs("1\n"), unreadable("busnum")), vec![]),
    ];
    let devices = list_devices(Ok(listing)).unwrap();
    assert_eq!(names(&devices), vec!["1-1", "1-4"]);
}

#[test]
fn an_empty_tree_lists_no_devices() {
    assert!(list_devices(Ok(vec![])).unwrap().is_empty());
}

#[test]
fn a_root_that_cannot_be_listed_fails_the_enumeration() {
    let failure = IoFailure::Unreadable { code: Some(2), message: "gone".to_string() };
    let e = list_devices(Err(failure.clone())).unwrap_err();
    assert_eq!(e, Error::Io(failure));
    assert_eq!(e.kind(), ErrorKind::Io);
    assert_eq!(list_devices(Err(IoFailure::Missing)).unwrap_err(), Error::Io(IoFailure::Missing));
}

#[test]
fn attribute_failures_become_errors_of_their_class() {
    let io = SysfsError("/d/a".to_string(), SysfsErrorKind::Io(IoFailure::Missing));
    let e = Error::from(io);
    assert_eq!(e.kind(), ErrorKind::Io);
    assert_eq!(
        e,
        Error::Attribute(SysfsError("/d/a".to_string(), SysfsErrorKind::Io(IoFailure::Missing)))
    );
    let parse = SysfsError("/d/a".to_string(), SysfsErrorKind::Parse("x".to_string()));
    assert_eq!(Error::from(parse).kind(), ErrorKind::Parse);
}

fn numbered(interface_number: u8, class: u8) -> InterfaceInfo {
    InterfaceInfo { interface_number, class, subclass: 0, protocol: 0, interface_string: None }
}

#[test]
fn sorting_keeps_every_interface() {
    assert_eq!(sort_by_number(vec![]), vec![]);
    assert_eq!(sort_by_number(vec![numbered(4, 1)]), vec![numbered(4, 1)]);
    let sorted = sort_by_number(vec![
        numbered(9, 1),
        numbered(0, 2),
        numbered(255, 3),
        numbered(9, 4),
        numbered(3, 5),
        numbered(0, 6),
    ]);
    let order: Vec<u8> = sorted.iter().map(|i| i.interface_number).collect();
    assert_eq!(order, vec![0, 0, 3, 9, 9, 255]);
    let mut classes: Vec<u8> = sorted.iter().map(|i| i.class).collect();
    classes.sort();
    assert_eq!(classes, vec![1, 2, 3, 4, 5, 6]);
    for i in &sorted {
        let expected = match i.class {
            1 | 4 => 9,
            2 | 6 => 0,
            3 => 255,
            _ => 3,
        };
        assert_eq!(i.interface_number, expected);
    }
}

#[test]
fn devices_are_listed_in_the_order_of_the_tree() {
    let listing = vec![
        device("2-1", device_attrs("2\n"), vec![]),
        device("1-6.4", device_attrs("1\n"), vec![]),
        device("1-6", device_attrs("1\n"), vec![interface("/sys/bus/usb/devices/1-6", "1-6:1.0", "00\n")]),
    ];
    let devices = list_devices(Ok(listing.clone())).unwrap();
    assert_eq!(names(&devices), vec!["2-1", "1-6.4", "1-6"]);
    assert_eq!(devices[2].interfaces.len(), 1);
    for (device, entry) in devices.iter().zip(&listing) {
        let alone = probe_device(entry.clone()).unwrap();
        assert_eq!(device.bus_id, alone.bus_id);
        assert_eq!(device.interfaces, alone.interfaces);
        assert_eq!(device.path.node.path, entry.node.path);
    }
}
