use ruspirate::device::{
    compare_paths, is_bus_pirate, Device, Devices, PortInfo, PortType, BUSPIRATE_PID,
    BUSPIRATE_VID,
};
use ruspirate::path::{components_of, components_precede, str_path_precedes, Component};
use ruspirate::text::{chars_of, chars_precede, index_of, str_contains};
use std::path::PathBuf;
use std::cmp::Ordering;

fn device(path: &str, hwid: &str) -> Device {
    Device { device: path.to_string(), hwid: hwid.to_string() }
}

fn port(path: &str, hwid: &str, port_type: PortType) -> PortInfo {
    PortInfo { device: path.to_string(), hwid: hwid.to_string(), port_type }
}

fn catalog() -> Devices {
    Devices::from_vec(vec![
        device("/dev/ttyUSB1", "USB VID:PID=04D8:FB00 SER=A"),
        device("/dev/ttyACM0", "USB VID:PID=04D8:FB00 SER=usb0"),
        device("/dev/tty.usb0", "USB VID:PID=04D8:FB00 SER=C"),
    ])
}

#[test]
fn detect_keeps_the_bus_pirates_in_order() {
    let pirate = PortType::UsbPort { vid: 0x04d8, pid: 0xfb00 };
    let ports = vec![
        port("/dev/ttyS0", "n/a", PortType::Other),
        port("/dev/ttyUSB0", "one", pirate),
        port("/dev/ttyUSB1", "ftdi", PortType::UsbPort { vid: 0x0403, pid: 0x6001 }),
        port("/dev/ttyUSB2", "two", pirate),
        port("/dev/ttyUSB3", "wrong product", PortType::UsbPort { vid: 0x04d8, pid: 0x000a }),
        port("/dev/ttyUSB4", "wrong vendor", PortType::UsbPort { vid: 0x1234, pid: 0xfb00 }),
    ];
    let found = Devices::detect(&ports);
    assert_eq!(found.len(), 2);
    assert_eq!(
        found.into_vec(),
        vec![device("/dev/ttyUSB0", "one"), device("/dev/ttyUSB2", "two")]
    );
    assert_eq!(Devices::detect(&vec![]).len(), 0);
}

#[test]
fn bus_pirate_is_told_by_vendor_and_product() {
    assert_eq!(BUSPIRATE_VID, 0x04d8);
    assert_eq!(BUSPIRATE_PID, 0xfb00);
    assert!(is_bus_pirate(&port("a", "b", PortType::UsbPort { vid: 0x04d8, pid: 0xfb00 })));
    assert!(!is_bus_pirate(&port("a", "b", PortType::UsbPort { vid: 0x04d8, pid: 0xfb01 })));
    assert!(!is_bus_pirate(&port("a", "b", PortType::Other)));
}

#[test]
fn default_is_the_first_device() {
    let devices = catalog();
    assert_eq!(devices.default(), Some(&device("/dev/ttyUSB1", "USB VID:PID=04D8:FB00 SER=A")));
    assert_eq!(devices.find_or_default(None), devices.default());
    let empty = Devices::from_vec(vec![]);
    assert_eq!(empty.default(), None);
    assert_eq!(empty.find_or_default(None), None);
    assert_eq!(empty.len(), 0);
}

#[test]
fn find_returns_the_first_match_in_path_or_hardware_id() {
    let devices = catalog();
    assert_eq!(
        devices.find("usb0"),
        Some(&device("/dev/ttyACM0", "USB VID:PID=04D8:FB00 SER=usb0"))
    );
    assert_eq!(devices.find("tty.usb"), Some(&device("/dev/tty.usb0", "USB VID:PID=04D8:FB00 SER=C")));
    assert_eq!(devices.find("ttyUSB"), devices.get(0));
    assert_eq!(devices.find("SER=C"), devices.get(2));
    assert_eq!(devices.find("usb9"), None);
    assert_eq!(devices.find(""), devices.get(0));
    assert_eq!(devices.find_or_default(Some("usb0")), devices.get(1));
    assert_eq!(devices.find_or_default(Some("nothing")), None);
    assert_eq!(Devices::from_vec(vec![]).find("usb0"), None);
}

#[test]
fn get_is_by_position() {
    let devices = catalog();
    assert_eq!(devices.len(), 3);
    assert_eq!(devices.get(1).map(|d| d.device.as_str()), Some("/dev/ttyACM0"));
    assert_eq!(devices.get(3), None);
}

#[test]
fn sort_is_by_path_and_stable() {
    let mut devices = Devices::from_vec(vec![
        device("/dev/ttyUSB1", "first"),
        device("/dev/ttyACM0", "second"),
        device("/dev/ttyUSB1", "third"),
        device("/dev/ttyUSB10", "fourth"),
        device("/dev/ttyACM0", "fifth"),
        device("/dev/tty", "sixth"),
    ]);
    devices.sort();
    assert_eq!(
        devices.into_vec(),
        vec![
            device("/dev/tty", "sixth"),
            device("/dev/ttyACM0", "second"),
            device("/dev/ttyACM0", "fifth"),
            device("/dev/ttyUSB1", "first"),
            device("/dev/ttyUSB1", "third"),
            device("/dev/ttyUSB10", "fourth"),
        ]
    );
}

#[test]
fn sort_does_not_change_what_find_finds_among_one_match() {
    let mut devices = catalog();
    devices.sort();
    assert_eq!(devices.get(0).map(|d| d.device.as_str()), Some("/dev/tty.usb0"));
    assert_eq!(
        devices.find("SER=usb0"),
        Some(&device("/dev/ttyACM0", "USB VID:PID=04D8:FB00 SER=usb0"))
    );
    let mut none = Devices::from_vec(vec![]);
    none.sort();
    assert_eq!(none.len(), 0);
    let mut one = Devices::from_vec(vec![device("b", "x")]);
    one.sort();
    assert_eq!(one.into_vec(), vec![device("b", "x")]);
}

#[test]
fn sort_by_follows_the_comparison_and_is_stable() {
    let mut devices = Devices::from_vec(vec![
        device("c", "2"),
        device("a", "3"),
        device("b", "1"),
        device("d", "2"),
        device("e", "1"),
    ]);
    devices.sort_by(|x, y| x.hwid.cmp(&y.hwid));
    assert_eq!(
        devices.into_vec(),
        vec![
            device("b", "1"),
            device("e", "1"),
            device("c", "2"),
            device("d", "2"),
            device("a", "3"),
        ]
    );
    let mut reversed = Devices::from_vec(vec![device("a", ""), device("c", ""), device("b", "")]);
    reversed.sort_by(|x, y| y.device.cmp(&x.device));
    assert_eq!(
        reversed.into_vec(),
        vec![device("c", ""), device("b", ""), device("a", "")]
    );
}

fn name(text: &str) -> Component {
    Component::Name(text.chars().collect())
}

#[test]
fn names_compare_as_in_a_dictionary() {
    assert!(chars_precede(&chars_of(""), &chars_of("a")));
    assert!(chars_precede(&chars_of("abc"), &chars_of("abd")));
    assert!(chars_precede(&chars_of("abc"), &chars_of("abc")));
    assert!(!chars_precede(&chars_of("abd"), &chars_of("abc")));
    assert!(!chars_precede(&chars_of("a"), &chars_of("")));
    assert!(chars_precede(&chars_of("Z"), &chars_of("a")));
    assert!(chars_precede(&chars_of("z"), &chars_of("\u{e9}")));
}

#[test]
fn paths_compare_component_by_component() {
    assert_eq!(compare_paths(&device("a", "z"), &device("b", "a")), Ordering::Less);
    assert_eq!(compare_paths(&device("b", ""), &device("a", "")), Ordering::Greater);
    assert_eq!(compare_paths(&device("ab", "1"), &device("ab", "2")), Ordering::Equal);
    assert_eq!(compare_paths(&device("ab", ""), &device("abc", "")), Ordering::Less);
    assert_eq!(compare_paths(&device("", ""), &device("", "")), Ordering::Equal);
    assert_eq!(compare_paths(&device("/dev/a/b", ""), &device("/dev/a-b", "")), Ordering::Less);
    assert_eq!(compare_paths(&device("/dev/a-b", ""), &device("/dev/a/b", "")), Ordering::Greater);
    assert_eq!(compare_paths(&device("/dev/a", ""), &device("/dev/a/b", "")), Ordering::Less);
    assert_eq!(compare_paths(&device("/dev/a b", ""), &device("/dev/a/b", "")), Ordering::Greater);
    assert_eq!(compare_paths(&device("/dev//tty0/", ""), &device("/dev/tty0", "")), Ordering::Equal);
    assert_eq!(compare_paths(&device("/dev/./tty0", ""), &device("/dev/tty0", "")), Ordering::Equal);
    assert_eq!(compare_paths(&device("/a", ""), &device("-a", "")), Ordering::Less);
    assert_eq!(compare_paths(&device("./a", ""), &device("a", "")), Ordering::Less);
    assert_eq!(compare_paths(&device("../a", ""), &device("./a", "")), Ordering::Greater);
    assert_eq!(compare_paths(&device("..", ""), &device("!", "")), Ordering::Less);
    assert!(str_path_precedes("/dev/a/b", "/dev/a-b"));
    assert!(!str_path_precedes("/dev/a-b", "/dev/a/b"));
    assert!(str_path_precedes("a//b", "a/b") && str_path_precedes("a/b", "a//b"));
}

#[test]
fn paths_compare_as_std_paths_do() {
    let paths = [
        "", ".", "..", "/", "//", "./", "../", "/.", "/..", "a", "a/", "a/.", "a/..", "./a",
        ".a", "..a", "...", "/a", "//a", "/a/b", "/a//b", "/a/./b", "/a/b/", "/a/b/.", "/a-b",
        "/a b", "/a.b", "/a+b", "/a,b", "/a0b", "a/b", "a-b", "a b", "-a", " a", "/dev/ttyUSB0",
        "/dev/ttyUSB1", "/dev/ttyUSB10", "/dev/ttyUSB2", "/dev/ttyACM0", "/dev/tty",
        "/dev/tty.usbserial", "/dev/serial/by-id/usb-x", "/dev/serial-by-id", "dev/ttyUSB0",
        "/Dev/ttyUSB0", "/dev/gr\u{fc}n", "/dev/gr\u{e9}n/x", "a/../b", "a/./../b", "./.", "./..",
        "../.", "/./a", "/../a", ".//a",
    ];
    for a in paths {
        for b in paths {
            assert_eq!(
                compare_paths(&device(a, "x"), &device(b, "y")),
                PathBuf::from(a).cmp(&PathBuf::from(b)),
                "{:?} against {:?}",
                a,
                b
            );
        }
    }
}

#[test]
fn components_of_paths() {
    assert_eq!(components_of(&chars_of("")), vec![]);
    assert_eq!(components_of(&chars_of("/")), vec![Component::Root]);
    assert_eq!(components_of(&chars_of(".")), vec![Component::Current]);
    assert_eq!(components_of(&chars_of("..")), vec![Component::Parent]);
    assert_eq!(
        components_of(&chars_of("/dev/ttyUSB0")),
        vec![Component::Root, name("dev"), name("ttyUSB0")]
    );
    assert_eq!(
        components_of(&chars_of("//dev/.//serial/../tty0/")),
        vec![Component::Root, name("dev"), name("serial"), Component::Parent, name("tty0")]
    );
    assert_eq!(
        components_of(&chars_of("./a/./b/.")),
        vec![Component::Current, name("a"), name("b")]
    );
    assert_eq!(components_of(&chars_of(".a/..b/...")), vec![name(".a"), name("..b"), name("...")]);
    assert_eq!(components_of(&chars_of("/.")), vec![Component::Root]);
    assert!(components_precede(&vec![], &vec![Component::Root]));
    assert!(!components_precede(&vec![Component::Root], &vec![]));
    assert!(components_precede(&vec![Component::Root], &vec![Component::Current]));
    assert!(components_precede(&vec![Component::Current], &vec![Component::Parent]));
    assert!(components_precede(&vec![Component::Parent], &vec![name("")]));
    assert!(!components_precede(&vec![name("a")], &vec![Component::Parent]));
    assert!(components_precede(&vec![name("a")], &vec![name("a"), name("b")]));
    assert!(!components_precede(&vec![name("a"), name("b")], &vec![name("a")]));
}

#[test]
fn sort_orders_by_components_not_by_characters() {
    let mut devices = Devices::from_vec(vec![device("/dev/a/b", "1"), device("/dev/a-b", "2")]);
    devices.sort();
    assert_eq!(
        devices.into_vec(),
        vec![device("/dev/a/b", "1"), device("/dev/a-b", "2")]
    );
    let mut more = Devices::from_vec(vec![
        device("/dev/a-b", "1"),
        device("/dev/a/b", "2"),
        device("/dev//a/b/", "3"),
        device("/dev/a b", "4"),
        device("dev/a", "5"),
        device("/dev/a", "6"),
        device("/dev/a/./b", "7"),
    ]);
    let mut std_sorted: Vec<(PathBuf, &str)> = vec![
        (PathBuf::from("/dev/a-b"), "1"),
        (PathBuf::from("/dev/a/b"), "2"),
        (PathBuf::from("/dev//a/b/"), "3"),
        (PathBuf::from("/dev/a b"), "4"),
        (PathBuf::from("dev/a"), "5"),
        (PathBuf::from("/dev/a"), "6"),
        (PathBuf::from("/dev/a/./b"), "7"),
    ];
    std_sorted.sort_by(|x, y| x.0.cmp(&y.0));
    more.sort();
    let ours: Vec<String> = more.into_vec().into_iter().map(|d| d.hwid).collect();
    let theirs: Vec<String> = std_sorted.into_iter().map(|(_, id)| id.to_string()).collect();
    assert_eq!(ours, theirs);
    assert_eq!(ours, vec!["6", "2", "3", "7", "4", "1", "5"]);
}

#[test]
fn substring_search() {
    assert!(str_contains("/dev/ttyUSB0", "USB"));
    assert!(str_contains("/dev/ttyUSB0", "/dev/ttyUSB0"));
    assert!(str_contains("/dev/ttyUSB0", ""));
    assert!(str_contains("", ""));
    assert!(!str_contains("", "a"));
    assert!(!str_contains("/dev/ttyUSB0", "usb"));
    assert!(!str_contains("abc", "abcd"));
    assert!(str_contains("aab", "ab"));
    assert!(str_contains("gr\u{fc}n", "\u{fc}n"));
    assert_eq!(index_of(&chars_of("hello"), &chars_of("l")), Some(2));
    assert_eq!(index_of(&chars_of("hello"), &chars_of("lo")), Some(3));
    assert_eq!(index_of(&chars_of("hello"), &chars_of("")), Some(0));
    assert_eq!(index_of(&chars_of("hello"), &chars_of("ol")), None);
    assert_eq!(index_of(&chars_of("gr\u{fc}n"), &chars_of("n")), Some(3));
    assert_eq!(chars_of("a\u{fc}"), vec!['a', '\u{fc}']);
}

#[test]
fn device_matches_path_or_hardware_id() {
    let d = device("/dev/ttyUSB0", "USB VID:PID=04D8:FB00");
    assert!(d.is_match("ttyUSB"));
    assert!(d.is_match("04D8"));
    assert!(!d.is_match("ACM"));
}
