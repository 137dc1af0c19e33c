use aerogel::devices::{nix_find_keyboard_device, DeviceError};

const DEVICES: &str = "I: Bus=0019 Vendor=0000 Product=0001 Version=0000
N: Name=\"Power Button\"
P: Phys=PNP0C0C/button/input0
S: Sysfs=/devices/LNXSYSTM:00/LNXSYBUS:00/PNP0C0C:00/input/input0
U: Uniq=
H: Handlers=kbd event0 
B: PROP=0
B: EV=3
B: KEY=10000000000000 0

I: Bus=0011 Vendor=0001 Product=0001 Version=ab41
N: Name=\"AT Translated Set 2 keyboard\"
P: Phys=isa0060/serio0/input0
S: Sysfs=/devices/platform/i8042/serio0/input/input3
U: Uniq=
H: Handlers=sysrq kbd event3 leds 
B: PROP=0
B: EV=120013
B: KEY=402000000 3803078f800d001 feffffdfffefffff fffffffffffffffe
B: MSC=10
B: LED=7

I: Bus=0003 Vendor=046d Product=c52b Version=0111
N: Name=\"Mouse\"
H: Handlers=sysrq kbd event9 
B: EV=120013
";

#[test]
fn test_nix_find_keyboard_device() {
    let keyboard_device = nix_find_keyboard_device(DEVICES).unwrap();
    assert!(keyboard_device.contains("/dev/input/event"));
}

#[test]
fn first_keyboard_is_found() {
    assert_eq!(nix_find_keyboard_device(DEVICES), Ok("/dev/input/event3".to_string()));
}

#[test]
fn no_keyboard_gives_the_empty_name() {
    assert_eq!(nix_find_keyboard_device(""), Ok(String::new()));
    assert_eq!(nix_find_keyboard_device("H: Handlers=sysrq kbd event3\nB: EV=3\n"), Ok(String::new()));
}

#[test]
fn keyboard_without_a_named_handler() {
    assert_eq!(nix_find_keyboard_device("B: EV=120013\n"), Ok("/dev/input/".to_string()));
    assert_eq!(
        nix_find_keyboard_device("H: Handlers=sysrq kbd leds\nB: EV=120013\n"),
        Ok("/dev/input/H: Handlers=sysrq kbd leds".to_string())
    );
    assert_eq!(
        nix_find_keyboard_device("H: Handlers=kbd event7\nB: EV=120013\n"),
        Ok("/dev/input/".to_string())
    );
}

#[test]
fn handlers_are_kept_by_their_last_component() {
    assert_eq!(
        nix_find_keyboard_device("H: Handlers=sysrq /a/b event5 x\nB: EV=120013\n"),
        Ok("/dev/input/event5".to_string())
    );
    assert_eq!(
        nix_find_keyboard_device("H: Handlers=sysrq event1/other event2\nEV=120013"),
        Ok("/dev/input/event2".to_string())
    );
    assert_eq!(
        nix_find_keyboard_device("H: Handlers=sysrq event4 EV=120013"),
        Ok("/dev/input/event4".to_string())
    );
}

#[test]
fn handlers_without_a_last_component_fail() {
    assert_eq!(nix_find_keyboard_device("H: Handlers=sysrq/.."), Err(DeviceError::NoFileName));
    assert_eq!(
        nix_find_keyboard_device("B: EV=120013\nH: Handlers=sysrq/.."),
        Ok("/dev/input/".to_string())
    );
}
