use socketcand::beacon::{DeviceType, PORT};
use socketcand::Bus;

#[test]
fn bus_accessors_and_names() {
    let bus = Bus::new(0);
    assert_eq!(bus.index(), 0);
    assert!(!bus.is_virtual());
    assert_eq!(bus.name(), b"can0".to_vec());
    let bus = Bus::new_virtual(7);
    assert_eq!(bus.index(), 7);
    assert!(bus.is_virtual());
    assert_eq!(bus.name(), b"vcan7".to_vec());
}

#[test]
fn device_type_names() {
    assert_eq!(DeviceType::SocketCan.as_str(), "SocketCAN");
    assert_eq!(DeviceType::Embedded.as_str(), "embedded");
    assert_eq!(DeviceType::Adapter.as_str(), "adapter");
}

#[test]
fn beacon_with_description_and_buses() {
    let busses = [Bus::new(0), Bus::new_virtual(12)];
    let out = socketcand::beacon::format("dev", DeviceType::Embedded.as_str(), Some("desk"), "10.0.0.1", 29536, &busses);
    assert_eq!(
        String::from_utf8(out).unwrap(),
        "<CANBeacon name=\"dev\" type=\"embedded\" description=\"desk\">\t<URL>can://10.0.0.1:29536</URL>\\t<Bus name=\"can0\">\\t<Bus name=\"vcan12\"></CANBeacon>"
    );
}

#[test]
fn beacon_without_description_or_buses() {
    let out = socketcand::beacon::format("x", "adapter", None, "::1", 0, &[]);
    assert_eq!(
        String::from_utf8(out).unwrap(),
        "<CANBeacon name=\"x\" type=\"adapter\">\t<URL>can://::1:0</URL></CANBeacon>"
    );
    assert_eq!(PORT, 42000);
}

#[test]
fn beacon_output_numbers_physical_buses() {
    let out = socketcand::beacon::beacon_output("gw", DeviceType::SocketCan, None, "192.168.1.2", 29536, 2);
    assert_eq!(
        String::from_utf8(out).unwrap(),
        "<CANBeacon name=\"gw\" type=\"SocketCAN\">\t<URL>can://192.168.1.2:29536</URL>\\t<Bus name=\"can0\">\\t<Bus name=\"can1\"></CANBeacon>"
    );
}
