//! The rule manager: what each operation on the session map reads and what it
//! asks the map to do.
//!
//! The session map itself lives in the kernel and is reached through system
//! calls; this module never touches it. An operation takes the entries that a
//! pass over the map yielded (as raw bytes, since the map may hold anything) and
//! the current monotonic time, and returns the writes to make. Their effect on
//! a map, seen as `Map<Seq<u8>, Seq<u8>>`, is stated by [`apply_op`],
//! [`apply_deletes`] and [`apply_rewrite`].
use vstd::prelude::*;
use crate::codec::{ByteOrder, SessionKey, SessionValue, key_bytes, value_bytes, key_of, value_of};

verus! {

/// Nanoseconds in one second.
pub const NANOS_PER_SEC: u64 = 1_000_000_000;

/// One entry of the session map as a pass over it yielded it.
#[derive(Clone, Debug, PartialEq, Eq)]
pub struct RawEntry {
    pub key: Vec<u8>,
    pub value: Vec<u8>,
}

/// A single write to the session map.
#[derive(Clone, Debug, PartialEq, Eq)]
pub enum MapOp {
    /// Insert the entry, or overwrite the value stored under its key.
    Update { key: Vec<u8>, value: Vec<u8> },
    /// Remove the entry under the key; a missing key is not an error.
    Delete { key: Vec<u8> },
}

/// What a source-address change asks of the map: first every update, in order,
/// then one batch delete of `stale`.
#[derive(Clone, Debug, PartialEq, Eq)]
pub struct RewritePlan {
    pub updates: Vec<RawEntry>,
    pub stale: Vec<Vec<u8>>,
}

/// One line of a snapshot: a live pin-hole and the whole seconds it has left.
#[derive(Clone, Copy, Debug, PartialEq, Eq, Structural)]
pub struct SessionRecord {
    pub src_ip: u32,
    pub dest_ip: u32,
    pub dest_port: u16,
    pub time_left_sec: i32,
}

/// The model of the session map: raw key bytes to raw value bytes.
pub type RawMap = Map<Seq<u8>, Seq<u8>>;

/// `op` is the write that opens the pin-hole `k` at time `now`.
pub open spec fn adds(op: MapOp, k: SessionKey, now: u64, order: ByteOrder) -> bool {
    &&& op is Update
    &&& op->Update_key@ == key_bytes(k)
    &&& op->Update_value@ == value_bytes(SessionValue { created_at_ns: now, last_seen_ns: now }, order)
}

/// `op` is the write that closes the pin-hole `k`.
pub open spec fn removes(op: MapOp, k: SessionKey) -> bool {
    op is Delete && op->Delete_key@ == key_bytes(k)
}

/// The map after one write.
pub open spec fn apply_op(m: RawMap, op: MapOp) -> RawMap {
    match op {
        MapOp::Update { key, value } => m.insert(key@, value@),
        MapOp::Delete { key } => m.remove(key@),
    }
}

/// The set of keys that a batch delete names.
pub open spec fn key_set(keys: Seq<Vec<u8>>) -> Set<Seq<u8>> {
    Set::new(|k: Seq<u8>| exists|i: int| 0 <= i < keys.len() && keys[i]@ == k)
}

/// The map after a batch delete of `keys`.
pub open spec fn apply_deletes(m: RawMap, keys: Seq<Vec<u8>>) -> RawMap {
    m.remove_keys(key_set(keys))
}

/// The map after the updates of `ups`, made in order.
pub open spec fn apply_updates(m: RawMap, ups: Seq<RawEntry>) -> RawMap
    decreases ups.len(),
{
    if ups.len() == 0 {
        m
    } else {
        apply_updates(m, ups.drop_last()).insert(ups.last().key@, ups.last().value@)
    }
}

/// The map after a rewrite plan has been carried out.
pub open spec fn apply_rewrite(m: RawMap, plan: RewritePlan) -> RawMap {
    apply_deletes(apply_updates(m, plan.updates@), plan.stale@)
}

/// `entries` is a complete pass over `m` that yields each key once.
pub open spec fn lists(entries: Seq<RawEntry>, m: RawMap) -> bool {
    &&& forall|i: int|
        0 <= i < entries.len() ==> #[trigger] m.contains_key(entries[i].key@) && m[entries[i].key@]
            == entries[i].value@
    &&& forall|k: Seq<u8>|
        #[trigger] m.contains_key(k) ==> exists|i: int| 0 <= i < entries.len() && entries[i].key@ == k
    &&& forall|i: int, j: int|
        0 <= i < j < entries.len() ==> #[trigger] entries[i].key@ != #[trigger] entries[j].key@
}

/// Every entry with well-formed key and value was created no later than it
/// was last seen, and last seen no later than `now`.
pub open spec fn timely(m: RawMap, order: ByteOrder, now: u64) -> bool {
    forall|k: Seq<u8>|
        #[trigger] m.contains_key(k) && key_of(k) is Some && value_of(m[k], order) is Some ==> {
            let v = value_of(m[k], order)->0;
            v.created_at_ns <= v.last_seen_ns <= now
        }
}

/// Keys of the entries of `m` with well-formed key and value whose source address is `ip`.
pub open spec fn keys_from(m: RawMap, order: ByteOrder, ip: u32) -> Set<Seq<u8>> {
    m.dom().filter(
        |k: Seq<u8>| key_of(k) is Some && key_of(k)->0.src_ip == ip && value_of(m[k], order) is Some,
    )
}

/// `now - then`, or zero when `then` lies ahead.
pub open spec fn elapsed(now: u64, then: u64) -> u64 {
    if now >= then {
        (now - then) as u64
    } else {
        0
    }
}

/// An entry idle for longer than `timeout_ns`.
pub open spec fn is_stale(v: SessionValue, now: u64, timeout_ns: u64) -> bool {
    elapsed(now, v.last_seen_ns) > timeout_ns
}

/// Whole seconds left before an entry last seen at `last_seen_ns` expires,
/// zero once it is due, and `i32::MAX` where more remain than that counts.
pub open spec fn time_left_sec(last_seen_ns: u64, now: u64, timeout_ns: u64) -> i32 {
    let left = if timeout_ns >= elapsed(now, last_seen_ns) {
        timeout_ns - elapsed(now, last_seen_ns)
    } else {
        0
    };
    let secs = left / (NANOS_PER_SEC as int);
    if secs > i32::MAX {
        i32::MAX
    } else {
        secs as i32
    }
}

/// Both halves of the entry have the size of their kind.
pub open spec fn well_formed(e: RawEntry, order: ByteOrder) -> bool {
    key_of(e.key@) is Some && value_of(e.value@, order) is Some
}

pub open spec fn key_in(e: RawEntry) -> SessionKey {
    key_of(e.key@)->0
}

pub open spec fn value_in(e: RawEntry, order: ByteOrder) -> SessionValue {
    value_of(e.value@, order)->0
}

/// An entry with well-formed key and value that has been idle for longer than `timeout_ns`.
pub open spec fn expired(key: Seq<u8>, value: Seq<u8>, order: ByteOrder, now: u64, timeout_ns: u64) -> bool {
    &&& key_of(key) is Some
    &&& value_of(value, order) is Some
    &&& is_stale(value_of(value, order)->0, now, timeout_ns)
}

/// The keys that a cleanup pass deletes: those of well-formed stale entries, in order.
pub open spec fn stale_keys(entries: Seq<RawEntry>, order: ByteOrder, now: u64, timeout_ns: u64) -> Seq<Seq<u8>>
    decreases entries.len(),
{
    if entries.len() == 0 {
        seq![]
    } else {
        let e = entries.last();
        let rest = stale_keys(entries.drop_last(), order, now, timeout_ns);
        if expired(e.key@, e.value@, order, now, timeout_ns) {
            rest.push(e.key@)
        } else {
            rest
        }
    }
}

/// The snapshot line of a well-formed entry.
pub open spec fn record_of(e: RawEntry, order: ByteOrder, now: u64, timeout_ns: u64) -> SessionRecord {
    SessionRecord {
        src_ip: key_in(e).src_ip,
        dest_ip: key_in(e).dest_ip,
        dest_port: key_in(e).dest_port,
        time_left_sec: time_left_sec(value_in(e, order).last_seen_ns, now, timeout_ns),
    }
}

/// The snapshot of a pass: one line per well-formed entry, in order.
pub open spec fn snapshot(entries: Seq<RawEntry>, order: ByteOrder, now: u64, timeout_ns: u64) -> Seq<SessionRecord>
    decreases entries.len(),
{
    if entries.len() == 0 {
        seq![]
    } else {
        let e = entries.last();
        let rest = snapshot(entries.drop_last(), order, now, timeout_ns);
        if well_formed(e, order) {
            rest.push(record_of(e, order, now, timeout_ns))
        } else {
            rest
        }
    }
}

/// A well-formed entry whose source address is `old_ip`.
pub open spec fn moves(e: RawEntry, order: ByteOrder, old_ip: u32) -> bool {
    well_formed(e, order) && key_in(e).src_ip == old_ip
}

/// The key of `k` with its source address replaced.
pub open spec fn with_src(k: SessionKey, ip: u32) -> SessionKey {
    SessionKey { src_ip: ip, ..k }
}

/// The key under which a moving entry is written again.
pub open spec fn moved_key(e: RawEntry, new_ip: u32) -> Seq<u8> {
    key_bytes(with_src(key_in(e), new_ip))
}

/// The value written for a moving entry: its creation time, last seen `now`.
pub open spec fn moved_value(e: RawEntry, order: ByteOrder, now: u64) -> Seq<u8> {
    value_bytes(SessionValue { created_at_ns: value_in(e, order).created_at_ns, last_seen_ns: now }, order)
}

/// The entries that move to `new_ip`, in order.
pub open spec fn moving(entries: Seq<RawEntry>, order: ByteOrder, old_ip: u32) -> Seq<RawEntry>
    decreases entries.len(),
{
    if entries.len() == 0 {
        seq![]
    } else {
        let rest = moving(entries.drop_last(), order, old_ip);
        if moves(entries.last(), order, old_ip) {
            rest.push(entries.last())
        } else {
            rest
        }
    }
}

/// The plan is the rewrite of exactly the entries in `moved`, in order.
pub open spec fn rewrites(plan: RewritePlan, moved: Seq<RawEntry>, order: ByteOrder, new_ip: u32, now: u64) -> bool {
    &&& plan.updates@.len() == moved.len()
    &&& plan.stale@.len() == moved.len()
    &&& forall|i: int|
        0 <= i < moved.len() ==> {
            &&& #[trigger] plan.updates@[i].key@ == moved_key(moved[i], new_ip)
            &&& plan.updates@[i].value@ == moved_value(moved[i], order, now)
            &&& plan.stale@[i]@ == moved[i].key@
        }
}

/// The rule manager of the session map. `order` is the byte order in which
/// the host, and so the packet classifier, stores the timestamps.
#[derive(Clone, Copy, Debug, PartialEq, Eq, Structural)]
pub struct Bpf {
    pub order: ByteOrder,
}

impl Bpf {
    /// A rule manager for a host of the given byte order.
    pub fn with_order(order: ByteOrder) -> (r: Bpf)
        ensures
            r.order == order,
    {
        Bpf { order }
    }

    /// A rule manager for the machine this runs on.
    pub fn for_host() -> Bpf {
        Bpf { order: crate::codec::native_byte_order() }
    }

    /// The write that opens the pin-hole `(dest_ip, src_ip, dest_port)` at time
    /// `now`: both timestamps are `now`, and an existing entry is overwritten.
    pub fn add_rule(&self, dest_ip: u32, src_ip: u32, dest_port: u16, now: u64) -> (r: MapOp)
        ensures
            adds(r, SessionKey { dest_ip, src_ip, dest_port }, now, self.order),
    {
        let key = SessionKey { dest_ip, src_ip, dest_port };
        let val = SessionValue { created_at_ns: now, last_seen_ns: now };
        MapOp::Update { key: key.to_bytes(), value: val.to_bytes(self.order) }
    }

    /// The write that closes the pin-hole `(dest_ip, src_ip, dest_port)`.
    pub fn remove_rule(&self, dest_ip: u32, src_ip: u32, dest_port: u16) -> (r: MapOp)
        ensures
            removes(r, SessionKey { dest_ip, src_ip, dest_port }),
    {
        let key = SessionKey { dest_ip, src_ip, dest_port };
        MapOp::Delete { key: key.to_bytes() }
    }

    /// The keys to delete in one batch so that no entry idle for more than
    /// `timeout_ns` at time `now` is left. Entries with a key or value of the
    /// wrong size are skipped, never deleted.
    pub fn cleanup_ebpf_rules(&self, entries: &Vec<RawEntry>, timeout_ns: u64, now: u64) -> (r: Vec<Vec<u8>>)
        ensures
            r@.map_values(|k: Vec<u8>| k@) == stale_keys(entries@, self.order, now, timeout_ns),
    {
        let mut out: Vec<Vec<u8>> = Vec::new();
        let mut i: usize = 0;
        while i < entries.len()
            invariant
                i <= entries@.len(),
                out@.map_values(|k: Vec<u8>| k@) == stale_keys(
                    entries@.subrange(0, i as int),
                    self.order,
                    now,
                    timeout_ns,
                ),
            decreases entries.len() - i,
        {
            let e = &entries[i];
            let ghost before = out@;
            assert(entries@.subrange(0, i + 1).drop_last() =~= entries@.subrange(0, i as int));
            assert(entries@.subrange(0, i + 1).last() == entries@[i as int]);
            if let Some(_key) = SessionKey::from_bytes(&e.key) {
                if let Some(val) = SessionValue::from_bytes(&e.value, self.order) {
                    if now.saturating_sub(val.last_seen_ns) > timeout_ns {
                        out.push(e.key.clone());
                        assert(out@.map_values(|k: Vec<u8>| k@) =~= before.map_values(
                            |k: Vec<u8>| k@,
                        ).push(e.key@));
                    }
                }
            }
            i = i + 1;
        }
        assert(entries@.subrange(0, entries@.len() as int) =~= entries@);
        out
    }

    /// The snapshot of a pass: for each well-formed entry, its addresses,
    /// port and the whole seconds it has left before `timeout_ns` of idleness.
    pub fn list_rules(&self, entries: &Vec<RawEntry>, timeout_ns: u64, now: u64) -> (r: Vec<SessionRecord>)
        ensures
            r@ == snapshot(entries@, self.order, now, timeout_ns),
    {
        let mut out: Vec<SessionRecord> = Vec::new();
        let mut i: usize = 0;
        while i < entries.len()
            invariant
                i <= entries@.len(),
                out@ == snapshot(entries@.subrange(0, i as int), self.order, now, timeout_ns),
            decreases entries.len() - i,
        {
            let e = &entries[i];
            assert(entries@.subrange(0, i + 1).drop_last() =~= entries@.subrange(0, i as int));
            assert(entries@.subrange(0, i + 1).last() == entries@[i as int]);
            if let Some(key) = SessionKey::from_bytes(&e.key) {
                if let Some(val) = SessionValue::from_bytes(&e.value, self.order) {
                    let elapsed = now.saturating_sub(val.last_seen_ns);
                    let left_ns = timeout_ns.saturating_sub(elapsed);
                    let secs = left_ns / NANOS_PER_SEC;
                    let time_left_sec: i32 = if secs > i32::MAX as u64 {
                        i32::MAX
                    } else {
                        secs as i32
                    };
                    out.push(
                        SessionRecord {
                            src_ip: key.src_ip,
                            dest_ip: key.dest_ip,
                            dest_port: key.dest_port,
                            time_left_sec,
                        },
                    );
                }
            }
            i = i + 1;
        }
        assert(entries@.subrange(0, entries@.len() as int) =~= entries@);
        out
    }

    /// The rewrite that moves every well-formed entry with source address
    /// `old_ip` to `new_ip`: the new entry keeps `created_at_ns` and is last
    /// seen `now`, and the old entry is deleted afterwards. The number of
    /// entries rewritten is `r.updates.len()`.
    pub fn replace_src_ip(&self, entries: &Vec<RawEntry>, old_ip: u32, new_ip: u32, now: u64) -> (r: RewritePlan)
        ensures
            rewrites(r, moving(entries@, self.order, old_ip), self.order, new_ip, now),
    {
        let mut updates: Vec<RawEntry> = Vec::new();
        let mut stale: Vec<Vec<u8>> = Vec::new();
        let mut i: usize = 0;
        while i < entries.len()
            invariant
                i <= entries@.len(),
                rewrites(
                    RewritePlan { updates, stale },
                    moving(entries@.subrange(0, i as int), self.order, old_ip),
                    self.order,
                    new_ip,
                    now,
                ),
            decreases entries.len() - i,
        {
            let e = &entries[i];
            assert(entries@.subrange(0, i + 1).drop_last() =~= entries@.subrange(0, i as int));
            assert(entries@.subrange(0, i + 1).last() == entries@[i as int]);
            if let Some(key) = SessionKey::from_bytes(&e.key) {
                if let Some(val) = SessionValue::from_bytes(&e.value, self.order) {
                    if key.src_ip == old_ip {
                        let moved = SessionKey { dest_ip: key.dest_ip, src_ip: new_ip, dest_port: key.dest_port };
                        let fresh = SessionValue { created_at_ns: val.created_at_ns, last_seen_ns: now };
                        updates.push(RawEntry { key: moved.to_bytes(), value: fresh.to_bytes(self.order) });
                        stale.push(e.key.clone());
                    }
                }
            }
            i = i + 1;
        }
        assert(entries@.subrange(0, entries@.len() as int) =~= entries@);
        RewritePlan { updates, stale }
    }
}

} // verus!
