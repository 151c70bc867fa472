use serial_bridge::admission::Admission;
use serial_bridge::admission::SessionSlot;
use serial_bridge::admission::rejection_message;

#[test]
fn first_connection_admitted() {
    let mut slot = SessionSlot::new();
    assert_eq!(slot.decide(), Admission::Admitted);
}

#[test]
fn second_connection_rejected() {
    let mut slot = SessionSlot::new();
    assert_eq!(slot.decide(), Admission::Admitted);
    assert_eq!(slot.decide(), Admission::Rejected);
}

#[test]
fn no_client_ever_admitted_again() {
    // The reference bridge never hands the slot back, not even when the first
    // client disconnects: every attempt after the first is rejected.
    let mut slot = SessionSlot::new();
    assert_eq!(slot.decide(), Admission::Admitted);
    for _ in 0..10 {
        assert_eq!(slot.decide(), Admission::Rejected);
    }
}

#[test]
fn rejection_message_exact() {
    assert_eq!(rejection_message(), "only one client per serial port");
}
