use std::collections::BTreeMap;

use aegis_agent::codec::{ByteOrder, SessionKey, SessionValue, KEY_SIZE, VALUE_SIZE};
use aegis_agent::rules::{Bpf, MapOp, RawEntry, RewritePlan, SessionRecord};
use aegis_agent::service::{
    session_list, LoginEvent, SessionManagerService, StatusCode, WireSession,
};
use aegis_agent::verdict::{classify, DataPlaneGlobals, PacketHeader, Verdict};

const SEC: u64 = 1_000_000_000;

/// A stand-in for the kernel's session map.
#[derive(Default)]
struct TestMap {
    entries: BTreeMap<Vec<u8>, Vec<u8>>,
}

impl TestMap {
    fn apply(&mut self, op: &MapOp) {
        match op {
            MapOp::Update { key, value } => {
                self.entries.insert(key.clone(), value.clone());
            }
            MapOp::Delete { key } => {
                self.entries.remove(key);
            }
        }
    }

    fn delete_batch(&mut self, keys: &[Vec<u8>]) {
        for k in keys {
            self.entries.remove(k);
        }
    }

    fn rewrite(&mut self, plan: &RewritePlan) {
        for e in &plan.updates {
            self.entries.insert(e.key.clone(), e.value.clone());
        }
        self.delete_batch(&plan.stale);
    }

    fn pass(&self) -> Vec<RawEntry> {
        self.entries
            .iter()
            .map(|(k, v)| RawEntry { key: k.clone(), value: v.clone() })
            .collect()
    }

    fn lookup(&self, key: &SessionKey, order: ByteOrder) -> Option<SessionValue> {
        self.entries
            .get(&key.to_bytes())
            .and_then(|v| SessionValue::from_bytes(v, order))
    }
}

fn key(d: u32, s: u32, p: u16) -> SessionKey {
    SessionKey { dest_ip: d, src_ip: s, dest_port: p }
}

#[test]
fn key_bytes_are_network_order() {
    let k = key(0x0A00_0009, 0x0A00_0005, 22);
    assert_eq!(k.to_bytes(), vec![10, 0, 0, 9, 10, 0, 0, 5, 0, 22]);
    assert_eq!(k.to_bytes().len(), KEY_SIZE);
    assert_eq!(SessionKey::from_bytes(&k.to_bytes()), Some(k));
    assert_eq!(SessionKey::from_bytes(&vec![0u8; 9]), None);
    assert_eq!(SessionKey::from_bytes(&vec![0u8; 12]), None);
}

#[test]
fn value_bytes_follow_host_order() {
    let v = SessionValue { created_at_ns: 0x0102_0304_0506_0708, last_seen_ns: 9 };
    let le = v.to_bytes(ByteOrder::Little);
    assert_eq!(&le[..8], &[8, 7, 6, 5, 4, 3, 2, 1]);
    assert_eq!(&le[8..], &[9, 0, 0, 0, 0, 0, 0, 0]);
    let be = v.to_bytes(ByteOrder::Big);
    assert_eq!(&be[..8], &[1, 2, 3, 4, 5, 6, 7, 8]);
    assert_eq!(be.len(), VALUE_SIZE);
    assert_eq!(SessionValue::from_bytes(&le, ByteOrder::Little), Some(v));
    assert_eq!(SessionValue::from_bytes(&be, ByteOrder::Big), Some(v));
    assert_eq!(SessionValue::from_bytes(&vec![0u8; 15], ByteOrder::Little), None);
}

#[test]
fn add_rule_stamps_both_times() {
    let bpf = Bpf::with_order(ByteOrder::Little);
    let mut map = TestMap::default();
    map.apply(&bpf.add_rule(0x0A00_0009, 0x0A00_0005, 22, 7 * SEC));
    let v = map.lookup(&key(0x0A00_0009, 0x0A00_0005, 22), ByteOrder::Little).unwrap();
    assert_eq!(v.created_at_ns, 7 * SEC);
    assert_eq!(v.last_seen_ns, 7 * SEC);
}

#[test]
fn add_then_remove_leaves_nothing() {
    let bpf = Bpf::with_order(ByteOrder::Big);
    let mut map = TestMap::default();
    map.apply(&bpf.add_rule(1, 2, 3, 100));
    map.apply(&bpf.remove_rule(1, 2, 3));
    assert_eq!(map.lookup(&key(1, 2, 3), ByteOrder::Big), None);
    // removing an absent rule is no error
    map.apply(&bpf.remove_rule(1, 2, 3));
    assert!(map.entries.is_empty());
}

#[test]
fn adding_twice_keeps_one_entry_with_new_times() {
    let bpf = Bpf::with_order(ByteOrder::Little);
    let mut map = TestMap::default();
    map.apply(&bpf.add_rule(1, 2, 3, 100));
    map.apply(&bpf.add_rule(1, 2, 3, 250));
    assert_eq!(map.entries.len(), 1);
    assert_eq!(
        map.lookup(&key(1, 2, 3), ByteOrder::Little),
        Some(SessionValue { created_at_ns: 250, last_seen_ns: 250 })
    );
}

#[test]
fn cleanup_selects_only_stale_well_formed_entries() {
    let bpf = Bpf::with_order(ByteOrder::Little);
    let mut map = TestMap::default();
    map.apply(&bpf.add_rule(1, 1, 1, 10 * SEC)); // idle 61 s at t = 71 s
    map.apply(&bpf.add_rule(2, 2, 2, 11 * SEC)); // idle exactly 60 s: kept
    map.apply(&bpf.add_rule(3, 3, 3, 80 * SEC)); // seen after now: kept
    map.entries.insert(vec![9; 10], vec![0; 15]); // malformed value
    map.entries.insert(vec![9; 11], vec![0; 16]); // malformed key
    let stale = bpf.cleanup_ebpf_rules(&map.pass(), 60 * SEC, 71 * SEC);
    assert_eq!(stale, vec![key(1, 1, 1).to_bytes()]);
    map.delete_batch(&stale);
    assert_eq!(map.entries.len(), 4);
    assert!(map.lookup(&key(2, 2, 2), ByteOrder::Little).is_some());
}

#[test]
fn list_rules_reports_seconds_left() {
    let bpf = Bpf::with_order(ByteOrder::Little);
    let mut map = TestMap::default();
    map.apply(&bpf.add_rule(0x0A00_0009, 0x0A00_0005, 22, 100 * SEC));
    map.entries.insert(vec![1; 10], vec![1; 3]);
    let fresh = bpf.list_rules(&map.pass(), 60 * SEC, 100 * SEC);
    assert_eq!(
        fresh,
        vec![SessionRecord { src_ip: 0x0A00_0005, dest_ip: 0x0A00_0009, dest_port: 22, time_left_sec: 60 }]
    );
    // 29.5 s idle: 30.5 s left, truncated
    let later = bpf.list_rules(&map.pass(), 60 * SEC, 129 * SEC + SEC / 2);
    assert_eq!(later[0].time_left_sec, 30);
    // overdue entries report zero
    let overdue = bpf.list_rules(&map.pass(), 60 * SEC, 500 * SEC);
    assert_eq!(overdue[0].time_left_sec, 0);
    // more seconds than an i32 holds
    let huge = bpf.list_rules(&map.pass(), u64::MAX, 100 * SEC);
    assert_eq!(huge[0].time_left_sec, i32::MAX);
}

#[test]
fn replace_src_ip_moves_entries_and_keeps_creation_time() {
    let bpf = Bpf::with_order(ByteOrder::Little);
    let mut map = TestMap::default();
    map.apply(&bpf.add_rule(0x0A00_0009, 0x0A00_0001, 22, 5 * SEC));
    map.apply(&bpf.add_rule(0x0A00_0009, 0x0A00_0001, 443, 6 * SEC));
    map.apply(&bpf.add_rule(0x0A00_0009, 0x0A00_0003, 22, 7 * SEC));
    let plan = bpf.replace_src_ip(&map.pass(), 0x0A00_0001, 0x0A00_0002, 20 * SEC);
    assert_eq!(plan.updates.len(), 2);
    assert_eq!(plan.stale.len(), 2);
    map.rewrite(&plan);
    assert_eq!(map.entries.len(), 3);
    assert_eq!(
        map.lookup(&key(0x0A00_0009, 0x0A00_0002, 22), ByteOrder::Little),
        Some(SessionValue { created_at_ns: 5 * SEC, last_seen_ns: 20 * SEC })
    );
    assert_eq!(
        map.lookup(&key(0x0A00_0009, 0x0A00_0002, 443), ByteOrder::Little),
        Some(SessionValue { created_at_ns: 6 * SEC, last_seen_ns: 20 * SEC })
    );
    assert_eq!(map.lookup(&key(0x0A00_0009, 0x0A00_0001, 22), ByteOrder::Little), None);
    assert!(map.lookup(&key(0x0A00_0009, 0x0A00_0003, 22), ByteOrder::Little).is_some());
}

#[test]
fn replace_src_ip_without_matches_is_empty() {
    let bpf = Bpf::with_order(ByteOrder::Big);
    let mut map = TestMap::default();
    map.apply(&bpf.add_rule(1, 2, 3, 4));
    let plan = bpf.replace_src_ip(&map.pass(), 7, 8, 9);
    assert!(plan.updates.is_empty());
    assert!(plan.stale.is_empty());
}

fn submit(svc: &SessionManagerService, map: &mut TestMap, event: LoginEvent, now: u64) -> Result<(), StatusCode> {
    let op = svc.submit_session(event, now)?;
    map.apply(&op);
    Ok(())
}

fn happy_path(map: &mut TestMap, svc: &SessionManagerService) {
    let event = LoginEvent { activate: true, src_ip: 0x0A00_0005, dst_ip: 0x0A00_0009, dst_port: 22 };
    assert_eq!(submit(svc, map, event, 1000 * SEC), Ok(()));
}

#[test]
fn scenario_happy_path_snapshot() {
    let svc = SessionManagerService::new(Bpf::with_order(ByteOrder::Little));
    let mut map = TestMap::default();
    happy_path(&mut map, &svc);
    // the reaper's tick: cleanup, then snapshot
    let now = 1000 * SEC + SEC / 10;
    let stale = svc.rules.cleanup_ebpf_rules(&map.pass(), 60 * SEC, now);
    assert!(stale.is_empty());
    let snapshot = svc.rules.list_rules(&map.pass(), 60 * SEC, now);
    let wire = session_list(&snapshot);
    assert_eq!(
        wire,
        vec![WireSession { src_ip: 0x0A00_0005, dst_ip: 0x0A00_0009, dst_port: 22, time_left: 59 }]
    );
}

#[test]
fn scenario_expiry_drops_traffic() {
    let svc = SessionManagerService::new(Bpf::with_order(ByteOrder::Little));
    let mut map = TestMap::default();
    happy_path(&mut map, &svc);
    let now = 1061 * SEC;
    let stale = svc.rules.cleanup_ebpf_rules(&map.pass(), 60 * SEC, now);
    assert_eq!(stale.len(), 1);
    map.delete_batch(&stale);
    assert!(svc.rules.list_rules(&map.pass(), 60 * SEC, now).is_empty());
    let g = DataPlaneGlobals { controller_ip: 0x0A00_0001, controller_port: 443, lazy_update_timeout: SEC };
    let pkt = PacketHeader { src_ip: 0x0A00_0005, dest_ip: 0x0A00_0009, dest_port: 22 };
    let entry = map.lookup(&key(0x0A00_0009, 0x0A00_0005, 22), ByteOrder::Little);
    assert_eq!(classify(&g, &pkt, entry, now), (Verdict::Drop, None));
}

#[test]
fn scenario_deactivate() {
    let svc = SessionManagerService::new(Bpf::with_order(ByteOrder::Little));
    let mut map = TestMap::default();
    happy_path(&mut map, &svc);
    let event = LoginEvent { activate: false, src_ip: 0x0A00_0005, dst_ip: 0x0A00_0009, dst_port: 22 };
    assert_eq!(submit(&svc, &mut map, event, 1001 * SEC), Ok(()));
    assert!(svc.rules.list_rules(&map.pass(), 60 * SEC, 1002 * SEC).is_empty());
}

#[test]
fn scenario_ip_change() {
    let svc = SessionManagerService::new(Bpf::with_order(ByteOrder::Little));
    let mut map = TestMap::default();
    map.apply(&svc.rules.add_rule(0x0A00_0009, 0x0A00_0001, 22, 10 * SEC));
    map.apply(&svc.rules.add_rule(0x0A00_0008, 0x0A00_0001, 80, 11 * SEC));
    let plan = svc.rules.replace_src_ip(&map.pass(), 0x0A00_0001, 0x0A00_0002, 30 * SEC);
    let mut tally = aegis_agent::service::IpChangeTally::new();
    map.rewrite(&plan);
    tally.record(Some(plan.updates.len() as u64));
    assert!(tally.ack().success);
    let snap = svc.rules.list_rules(&map.pass(), 60 * SEC, 30 * SEC);
    assert_eq!(snap.len(), 2);
    assert!(snap.iter().all(|r| r.src_ip == 0x0A00_0002));
    assert_eq!(
        map.lookup(&key(0x0A00_0009, 0x0A00_0002, 22), ByteOrder::Little).unwrap().created_at_ns,
        10 * SEC
    );
    assert_eq!(
        map.lookup(&key(0x0A00_0008, 0x0A00_0002, 80), ByteOrder::Little).unwrap().created_at_ns,
        11 * SEC
    );
}

#[test]
fn scenario_port_overflow() {
    let svc = SessionManagerService::new(Bpf::with_order(ByteOrder::Little));
    let mut map = TestMap::default();
    let event = LoginEvent { activate: true, src_ip: 1, dst_ip: 2, dst_port: 70000 };
    assert_eq!(submit(&svc, &mut map, event, 5), Err(StatusCode::InvalidArgument));
    assert!(map.entries.is_empty());
}

#[test]
fn submit_port_bounds() {
    let svc = SessionManagerService::new(Bpf::with_order(ByteOrder::Big));
    let over = LoginEvent { activate: true, src_ip: 1, dst_ip: 2, dst_port: 65536 };
    assert_eq!(svc.submit_session(over, 5), Err(StatusCode::InvalidArgument));
    let edge = LoginEvent { activate: true, src_ip: 1, dst_ip: 2, dst_port: 65535 };
    let op = svc.submit_session(edge, 5).unwrap();
    assert_eq!(op, svc.rules.add_rule(2, 1, 65535, 5));
    let off = LoginEvent { activate: false, src_ip: 1, dst_ip: 2, dst_port: 65535 };
    assert_eq!(svc.submit_session(off, 5).unwrap(), MapOp::Delete { key: key(2, 1, 65535).to_bytes() });
}

#[test]
fn classifier_verdicts() {
    let g = DataPlaneGlobals { controller_ip: 0x0A00_0001, controller_port: 443, lazy_update_timeout: SEC };
    let control = PacketHeader { src_ip: 0x0A00_0001, dest_ip: 7, dest_port: 443 };
    assert_eq!(classify(&g, &control, None, 0), (Verdict::Pass, None));
    let pkt = PacketHeader { src_ip: 5, dest_ip: 9, dest_port: 22 };
    assert_eq!(classify(&g, &pkt, None, 0), (Verdict::Drop, None));
    let v = SessionValue { created_at_ns: 10, last_seen_ns: 100 };
    assert_eq!(classify(&g, &pkt, Some(v), 100 + SEC - 1), (Verdict::Pass, None));
    assert_eq!(
        classify(&g, &pkt, Some(v), 100 + SEC),
        (Verdict::Pass, Some(SessionValue { created_at_ns: 10, last_seen_ns: 100 + SEC }))
    );
}

#[test]
fn globals_layout() {
    let g = DataPlaneGlobals { controller_ip: 0x0A00_0001, controller_port: 443, lazy_update_timeout: 0x0102 };
    assert_eq!(
        g.to_bytes(ByteOrder::Little),
        vec![10, 0, 0, 1, 0x01, 0xBB, 0, 0, 0x02, 0x01, 0, 0, 0, 0, 0, 0]
    );
    assert_eq!(
        g.to_bytes(ByteOrder::Big),
        vec![10, 0, 0, 1, 0x01, 0xBB, 0, 0, 0, 0, 0, 0, 0, 0, 0x01, 0x02]
    );
}
