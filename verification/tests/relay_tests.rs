use rust_socksd::dispatch::AdmissionControl;
use rust_socksd::relay::{relay_pump, RelayDirection};

#[test]
fn relay_delivers_exactly_what_was_read() {
    let chunks: Vec<Vec<u8>> = vec![
        b"GET / HTTP/1.1\r\n".to_vec(),
        Vec::new(),
        b"Host: example.com\r\n\r\n".to_vec(),
        vec![0, 1, 2, 255],
    ];
    let (out, bytes) = relay_pump(&chunks);
    let mut expected: Vec<u8> = Vec::new();
    for c in &chunks {
        expected.extend_from_slice(c);
    }
    assert_eq!(out, expected);
    assert_eq!(bytes, expected.len() as u64);
}

#[test]
fn relay_direction_counts_every_byte_once() {
    let mut dir = RelayDirection::new();
    assert_eq!(dir.bytes, 0);
    let first = dir.carry(&vec![1, 2, 3]);
    assert_eq!(first, vec![1, 2, 3]);
    assert_eq!(dir.bytes, 3);
    let second = dir.carry(&Vec::new());
    assert!(second.is_empty());
    assert_eq!(dir.bytes, 3);
    let third = dir.carry(&vec![9]);
    assert_eq!(third, vec![9]);
    assert_eq!(dir.bytes, 4);
}

#[test]
fn admission_never_exceeds_the_cap() {
    let mut admission = AdmissionControl::new(2);
    assert_eq!(admission.capacity(), 2);
    assert!(admission.try_acquire());
    assert!(admission.try_acquire());
    // The third simultaneous client is not admitted.
    assert!(!admission.try_acquire());
    assert_eq!(admission.in_flight(), 2);
    admission.release();
    assert_eq!(admission.in_flight(), 1);
    // A freed slot admits the waiter.
    assert!(admission.try_acquire());
    assert!(!admission.try_acquire());
    assert!(admission.in_flight() <= admission.capacity());
}

#[test]
fn admission_cap_of_one_serializes_connections() {
    let mut admission = AdmissionControl::new(1);
    assert!(admission.try_acquire());
    for _ in 0..5 {
        assert!(!admission.try_acquire());
        assert_eq!(admission.in_flight(), 1);
    }
    admission.release();
    assert_eq!(admission.in_flight(), 0);
    assert!(admission.try_acquire());
}
