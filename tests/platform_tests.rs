use aegis_agent::capabilities::{capability_verdict, check_capabilities, CapabilityError, RequiredCap};
use aegis_agent::clock::{get_ktime_ns, timespec_to_ns};
use aegis_agent::codec::{native_byte_order, ByteOrder};

#[test]
fn timespec_conversion() {
    assert_eq!(timespec_to_ns(0, 0), 0);
    assert_eq!(timespec_to_ns(3, 250), 3_000_000_250);
    assert_eq!(timespec_to_ns(i64::MAX, 0), i64::MAX as u64);
    assert_eq!(timespec_to_ns(9_223_372_036, 999_999_999), i64::MAX as u64);
    assert_eq!(timespec_to_ns(-5, 0), 0);
}

#[test]
fn monotonic_clock_advances() {
    let a = get_ktime_ns();
    let b = get_ktime_ns();
    assert!(a > 0);
    assert!(b >= a);
}

#[test]
fn byte_order_matches_machine() {
    let expected = if u16::from_ne_bytes([1, 0]) == 1 { ByteOrder::Little } else { ByteOrder::Big };
    assert_eq!(native_byte_order(), expected);
}

#[test]
fn capability_verdicts() {
    assert!(capability_verdict(Ok(true), Ok(true)).is_ok());
    match capability_verdict(Ok(false), Ok(true)) {
        Err(CapabilityError::Missing { caps }) => assert_eq!(caps, vec![RequiredCap::Bpf]),
        other => panic!("unexpected {:?}", other),
    }
    match capability_verdict(Ok(false), Ok(false)) {
        Err(CapabilityError::Missing { caps }) => {
            assert_eq!(caps, vec![RequiredCap::Bpf, RequiredCap::NetAdmin])
        }
        other => panic!("unexpected {:?}", other),
    }
    match capability_verdict(Ok(true), Err(caps::errors::CapsError::from("boom"))) {
        Err(CapabilityError::QueryFailed { cap, .. }) => assert_eq!(cap, RequiredCap::NetAdmin),
        other => panic!("unexpected {:?}", other),
    }
    match capability_verdict(Err(caps::errors::CapsError::from("boom")), Ok(false)) {
        Err(CapabilityError::QueryFailed { cap, .. }) => assert_eq!(cap, RequiredCap::Bpf),
        other => panic!("unexpected {:?}", other),
    }
    assert_eq!(RequiredCap::NetAdmin.name(), "CAP_NET_ADMIN");
}

#[test]
fn capability_check_runs() {
    match check_capabilities() {
        Ok(()) => {}
        Err(CapabilityError::Missing { caps }) => assert!(!caps.is_empty()),
        Err(CapabilityError::QueryFailed { .. }) => {}
    }
}
