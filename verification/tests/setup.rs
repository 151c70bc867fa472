use serial_bridge::config::DEFAULT_BAUD_RATE;
use serial_bridge::config::DEFAULT_NET_PORT;
use serial_bridge::config::SERIAL_READ_BUF_LEN;
use serial_bridge::config::SERIAL_READ_TIMEOUT_MS;
use serial_bridge::config::bind_address;
use serial_bridge::config::default_bind_ip;
use serial_bridge::config::device_banner;
use serial_bridge::config::listening_banner;
use serial_bridge::config::resolve_port_name;

#[test]
fn defaults_as_documented() {
    assert_eq!(DEFAULT_BAUD_RATE, 250000);
    assert_eq!(DEFAULT_NET_PORT, 9090);
    assert_eq!(SERIAL_READ_BUF_LEN, 1024);
    assert_eq!(SERIAL_READ_TIMEOUT_MS, 10);
    assert_eq!(default_bind_ip(), "0.0.0.0");
}

#[test]
fn requested_name_wins() {
    let r = resolve_port_name("/dev/ttyUSB1".to_string(), Some("/dev/ttyUSB0".to_string()));
    assert_eq!(r, Some("/dev/ttyUSB1".to_string()));
}

#[test]
fn empty_request_takes_first_available() {
    let r = resolve_port_name(String::new(), Some("/dev/ttyUSB0".to_string()));
    assert_eq!(r, Some("/dev/ttyUSB0".to_string()));
}

#[test]
fn no_request_and_no_device() {
    assert_eq!(resolve_port_name(String::new(), None), None);
}

#[test]
fn bind_address_text() {
    assert_eq!(bind_address("0.0.0.0", 9090), "0.0.0.0:9090");
    assert_eq!(bind_address("127.0.0.1", 80), "127.0.0.1:80");
}

#[test]
fn banner_text() {
    assert_eq!(
        device_banner("/dev/ttyUSB0", 250000),
        "Using serial port /dev/ttyUSB0 at 250000"
    );
    assert_eq!(listening_banner("0.0.0.0", 9090), "listening at 0.0.0.0:9090");
}
