use serial_bridge::forward::NetAction;
use serial_bridge::forward::NetEvent;
use serial_bridge::forward::SerialAction;
use serial_bridge::forward::SerialEvent;
use serial_bridge::forward::chunk;
use serial_bridge::forward::net_step;
use serial_bridge::forward::run_net_direction;
use serial_bridge::forward::run_serial_direction;
use serial_bridge::forward::serial_step;

#[test]
fn serial_data_forwarded_exactly() {
    let a = serial_step(SerialEvent::Data(b"OK\r\n".to_vec()));
    assert!(matches!(a, SerialAction::ForwardToNet(v) if v == b"OK\r\n".to_vec()));
}

#[test]
fn serial_timeout_is_idle() {
    assert!(matches!(serial_step(SerialEvent::TimedOut), SerialAction::Idle));
}

#[test]
fn serial_error_only_reported() {
    assert!(matches!(serial_step(SerialEvent::Failed), SerialAction::ReportError));
}

#[test]
fn net_data_forwarded_exactly() {
    let a = net_step(NetEvent::Got(b"AT\r\n".to_vec()));
    assert!(matches!(a, NetAction::ForwardToSerial(v) if v == b"AT\r\n".to_vec()));
}

#[test]
fn net_zero_read_stops_without_write() {
    assert!(matches!(net_step(NetEvent::Got(Vec::new())), NetAction::Stop));
}

#[test]
fn net_error_stops() {
    assert!(matches!(net_step(NetEvent::Failed), NetAction::StopOnError));
}

#[test]
fn chunk_takes_exact_prefix() {
    let buf = vec![65u8, 84u8, 13u8, 10u8];
    assert_eq!(chunk(&buf, 2), vec![65u8, 84u8]);
    assert_eq!(chunk(&buf, 0), Vec::<u8>::new());
    assert_eq!(chunk(&buf, 4), buf);
}

#[test]
fn serial_run_forwards_all_device_bytes() {
    let evs = vec![
        SerialEvent::TimedOut,
        SerialEvent::Data(b"OK\r\n".to_vec()),
        SerialEvent::TimedOut,
        SerialEvent::Failed,
        SerialEvent::Data(b"!".to_vec()),
    ];
    assert_eq!(run_serial_direction(&evs), b"OK\r\n!".to_vec());
}

#[test]
fn serial_run_of_timeouts_writes_nothing() {
    let evs = vec![SerialEvent::TimedOut, SerialEvent::TimedOut, SerialEvent::TimedOut];
    assert_eq!(run_serial_direction(&evs), Vec::<u8>::new());
}

#[test]
fn net_run_stops_at_close() {
    let evs = vec![
        NetEvent::Got(b"AT\r\n".to_vec()),
        NetEvent::Got(b"+++".to_vec()),
        NetEvent::Got(Vec::new()),
        NetEvent::Got(b"after close".to_vec()),
    ];
    let (out, stopped) = run_net_direction(&evs);
    assert_eq!(out, b"AT\r\n+++".to_vec());
    assert!(stopped);
}

#[test]
fn net_run_stops_at_error() {
    let evs = vec![
        NetEvent::Got(b"a".to_vec()),
        NetEvent::Failed,
        NetEvent::Got(b"b".to_vec()),
    ];
    let (out, stopped) = run_net_direction(&evs);
    assert_eq!(out, b"a".to_vec());
    assert!(stopped);
}

#[test]
fn net_run_without_close_forwards_everything() {
    let evs = vec![NetEvent::Got(b"a".to_vec()), NetEvent::Got(b"b".to_vec())];
    let (out, stopped) = run_net_direction(&evs);
    assert_eq!(out, b"ab".to_vec());
    assert!(!stopped);
}
