use aegis_agent::codec::ByteOrder;
use aegis_agent::rules::{Bpf, RawEntry};
use aegis_agent::service::{
    ip_change_ack, monitor_step, AuthError, AuthInterceptor, IpChangeTally, MonitorAction,
    MonitorEvent, RemoteAddr, SessionManagerService, StatusCode,
};

fn ip(a: u8, b: u8, c: u8, d: u8) -> u32 {
    u32::from_be_bytes([a, b, c, d])
}

#[test]
fn test_interceptor_rejects_unauthorized_ip() {
    let controller_ip = ip(10, 0, 0, 1);
    let interceptor = AuthInterceptor { controller_ip };

    let unauthorized_ip = ip(10, 0, 0, 99);
    let result = interceptor.call(Some(RemoteAddr::V4(unauthorized_ip)));

    assert!(result.is_err());
    assert_eq!(result.unwrap_err().code(), StatusCode::PermissionDenied);
}

#[test]
fn test_interceptor_rejects_ipv6() {
    let controller_ip = ip(10, 0, 0, 1);
    let interceptor = AuthInterceptor { controller_ip };

    let result = interceptor.call(Some(RemoteAddr::V6));

    assert!(result.is_err());
}

#[test]
fn test_interceptor_rejects_no_address() {
    let controller_ip = ip(10, 0, 0, 1);
    let interceptor = AuthInterceptor { controller_ip };

    let result = interceptor.call(None);

    assert!(result.is_err());
}

#[test]
fn interceptor_admits_the_controller_only() {
    let interceptor = AuthInterceptor { controller_ip: ip(10, 0, 0, 1) };
    assert_eq!(interceptor.call(Some(RemoteAddr::V4(ip(10, 0, 0, 1)))), Ok(()));
    let denied = interceptor.call(Some(RemoteAddr::V4(ip(10, 0, 0, 99)))).unwrap_err();
    assert_eq!(denied, AuthError::NotController { ip: ip(10, 0, 0, 99) });
    assert_eq!(denied.message(), "Only controller requests are accepted");
    assert_eq!(interceptor.call(Some(RemoteAddr::V6)), Err(AuthError::NotIpv4));
    assert_eq!(interceptor.call(None), Err(AuthError::NoRemoteAddress));
    assert_eq!(AuthError::NotIpv4.code(), StatusCode::PermissionDenied);
}

#[test]
fn test_service_creation() {
    let _service = SessionManagerService::new(Bpf::for_host());
}

fn entries_with_src(src: u32, n: u16) -> Vec<RawEntry> {
    let bpf = Bpf::with_order(ByteOrder::Little);
    (0..n)
        .map(|p| match bpf.add_rule(ip(10, 0, 0, 9), src, p, 1) {
            aegis_agent::rules::MapOp::Update { key, value } => RawEntry { key, value },
            _ => unreachable!(),
        })
        .collect()
}

#[test]
fn test_ip_change_success() {
    let service = SessionManagerService::new(Bpf::with_order(ByteOrder::Little));
    let entries = entries_with_src(0x0A000001, 3);
    let plan = service.rules.replace_src_ip(&entries, 0x0A000001, 0x0A000002, 5);
    assert_eq!(plan.updates.len(), 3);

    let mut tally = IpChangeTally::new();
    tally.record(Some(plan.updates.len() as u64));
    let response = tally.ack();
    assert!(response.success);
    assert_eq!(tally.total_updated, 3);
}

#[test]
fn test_ip_change_multiple_events() {
    let changes = [(0x0A000001u32, 0x0A000002u32), (0x0A000003, 0x0A000004), (0x0A000005, 0x0A000006)];
    let service = SessionManagerService::new(Bpf::with_order(ByteOrder::Little));
    let mut tally = IpChangeTally::new();
    let mut call_count = 0;
    for (old_ip, new_ip) in changes {
        let entries = entries_with_src(old_ip, 1);
        let plan = service.rules.replace_src_ip(&entries, old_ip, new_ip, 5);
        call_count += 1;
        tally.record(Some(plan.updates.len() as u64));
    }
    assert!(tally.ack().success);
    assert_eq!(call_count, 3);
    assert_eq!(tally.total_updated, 3);
}

#[test]
fn test_ip_change_with_errors() {
    let mut tally = IpChangeTally::new();
    // the map update failed
    tally.record(None);
    assert!(!tally.ack().success);
}

#[test]
fn test_ip_change_empty_list() {
    let tally = IpChangeTally::new();
    assert!(tally.ack().success);
    assert!(ip_change_ack(&vec![]).success);
}

#[test]
fn ip_change_ack_is_the_and_of_outcomes() {
    assert!(ip_change_ack(&vec![Some(2), Some(0)]).success);
    assert!(!ip_change_ack(&vec![Some(2), None, Some(1)]).success);
    let mut tally = IpChangeTally::new();
    tally.record(Some(u64::MAX));
    tally.record(Some(5));
    assert_eq!(tally.total_updated, u64::MAX);
}

#[test]
fn monitor_stream_steps() {
    assert_eq!(monitor_step(MonitorEvent::Received), MonitorAction::Forward);
    assert_eq!(monitor_step(MonitorEvent::Lagged(4)), MonitorAction::Skip(4));
    assert_eq!(monitor_step(MonitorEvent::Closed), MonitorAction::Stop);
    assert_eq!(monitor_step(MonitorEvent::ClientGone), MonitorAction::Stop);
}
