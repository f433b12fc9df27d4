//! What the rule manager's writes do to the session map, proved over the
//! map model of [`crate::rules`].
use vstd::prelude::*;
use crate::codec::{
    lemma_key_bytes_of,
    ByteOrder, SessionKey, SessionValue, key_bytes, value_bytes, key_of, value_of,
    lemma_key_round_trip, lemma_value_round_trip, lemma_key_bytes_injective,
};
use crate::rules::{
    RawEntry, MapOp, RawMap, RewritePlan, adds, removes, apply_op, apply_deletes, apply_updates,
    apply_rewrite, key_set, lists, expired, key_in, value_in, stale_keys, moves,
    moving, moved_key, moved_value, rewrites, with_src, timely, keys_from,
};

verus! {

/// After the write of an add, the map holds the pin-hole's key, and its value
/// reads back with `created_at_ns == last_seen_ns == now`.
pub proof fn lemma_add_then_lookup(m: RawMap, op: MapOp, k: SessionKey, now: u64, order: ByteOrder)
    requires
        adds(op, k, now, order),
    ensures
        apply_op(m, op).contains_key(key_bytes(k)),
        key_of(key_bytes(k)) == Some(k),
        value_of(apply_op(m, op)[key_bytes(k)], order) == Some(
            SessionValue { created_at_ns: now, last_seen_ns: now },
        ),
{
    lemma_key_round_trip(k);
    lemma_value_round_trip(SessionValue { created_at_ns: now, last_seen_ns: now }, order);
}

/// Adding a pin-hole and then removing it leaves its key absent.
pub proof fn lemma_add_then_remove(m: RawMap, add: MapOp, remove: MapOp, k: SessionKey, now: u64, order: ByteOrder)
    requires
        adds(add, k, now, order),
        removes(remove, k),
    ensures
        !apply_op(apply_op(m, add), remove).contains_key(key_bytes(k)),
        apply_op(apply_op(m, add), remove) == m.remove(key_bytes(k)),
{
    assert(apply_op(apply_op(m, add), remove) =~= m.remove(key_bytes(k)));
}

/// Adding the same pin-hole twice leaves one entry for it, with the
/// timestamps of the second add; the map is as if only the second had happened.
pub proof fn lemma_add_twice(m: RawMap, first: MapOp, second: MapOp, k: SessionKey, t1: u64, t2: u64, order: ByteOrder)
    requires
        adds(first, k, t1, order),
        adds(second, k, t2, order),
    ensures
        apply_op(apply_op(m, first), second) == apply_op(m, second),
        apply_op(apply_op(m, first), second).dom() == m.dom().insert(key_bytes(k)),
        value_of(apply_op(apply_op(m, first), second)[key_bytes(k)], order) == Some(
            SessionValue { created_at_ns: t2, last_seen_ns: t2 },
        ),
{
    assert(apply_op(apply_op(m, first), second) =~= apply_op(m, second));
    lemma_add_then_lookup(m, second, k, t2, order);
}

/// A key lies in the cleanup set exactly when some expired entry of the pass has it.
pub proof fn lemma_stale_keys_members(entries: Seq<RawEntry>, order: ByteOrder, now: u64, timeout_ns: u64)
    ensures
        forall|x: Seq<u8>|
            stale_keys(entries, order, now, timeout_ns).contains(x) <==> exists|i: int|
                0 <= i < entries.len() && expired(
                    #[trigger] entries[i].key@,
                    entries[i].value@,
                    order,
                    now,
                    timeout_ns,
                ) && entries[i].key@ == x,
    decreases entries.len(),
{
    if entries.len() > 0 {
        let init = entries.drop_last();
        lemma_stale_keys_members(init, order, now, timeout_ns);
        assert forall|x: Seq<u8>|
            stale_keys(entries, order, now, timeout_ns).contains(x) <==> exists|i: int|
                0 <= i < entries.len() && expired(
                    #[trigger] entries[i].key@,
                    entries[i].value@,
                    order,
                    now,
                    timeout_ns,
                ) && entries[i].key@ == x by {
            if stale_keys(entries, order, now, timeout_ns).contains(x) {
                if stale_keys(init, order, now, timeout_ns).contains(x) {
                    let i = choose|i: int|
                        0 <= i < init.len() && expired(
                            #[trigger] init[i].key@,
                            init[i].value@,
                            order,
                            now,
                            timeout_ns,
                        ) && init[i].key@ == x;
                    assert(entries[i] == init[i]);
                } else {
                    assert(entries[entries.len() - 1] == entries.last());
                }
            }
            if exists|i: int|
                0 <= i < entries.len() && expired(
                    #[trigger] entries[i].key@,
                    entries[i].value@,
                    order,
                    now,
                    timeout_ns,
                ) && entries[i].key@ == x {
                let i = choose|i: int|
                    0 <= i < entries.len() && expired(
                        #[trigger] entries[i].key@,
                        entries[i].value@,
                        order,
                        now,
                        timeout_ns,
                    ) && entries[i].key@ == x;
                let rest = stale_keys(init, order, now, timeout_ns);
                let last = entries.last();
                if i < entries.len() - 1 {
                    assert(init[i] == entries[i]);
                    assert(expired(init[i].key@, init[i].value@, order, now, timeout_ns));
                    assert(rest.contains(x));
                    let j = choose|j: int| 0 <= j < rest.len() && rest[j] == x;
                    if expired(last.key@, last.value@, order, now, timeout_ns) {
                        assert(rest.push(last.key@)[j] == x);
                    }
                } else {
                    assert(entries[i] == last);
                    assert(rest.push(last.key@)[rest.len() as int] == x);
                }
            }
        }
    }
}

/// After the batch delete that a cleanup pass at `now` computed from a
/// complete pass over `m`, no entry with well-formed key and value that has
/// been idle for more than `timeout_ns` remains, and every other entry of `m`
/// is still there.
pub proof fn lemma_cleanup_leaves_no_stale(
    m: RawMap,
    entries: Seq<RawEntry>,
    keys: Seq<Vec<u8>>,
    order: ByteOrder,
    now: u64,
    timeout_ns: u64,
)
    requires
        lists(entries, m),
        keys.map_values(|k: Vec<u8>| k@) == stale_keys(entries, order, now, timeout_ns),
    ensures
        forall|k: Seq<u8>|
            #[trigger] apply_deletes(m, keys).contains_key(k) ==> !expired(
                k,
                apply_deletes(m, keys)[k],
                order,
                now,
                timeout_ns,
            ),
        forall|k: Seq<u8>|
            #[trigger] m.contains_key(k) && !expired(k, m[k], order, now, timeout_ns)
                ==> apply_deletes(m, keys).contains_key(k) && apply_deletes(m, keys)[k] == m[k],
{
    lemma_stale_keys_members(entries, order, now, timeout_ns);
    let sk = stale_keys(entries, order, now, timeout_ns);
    assert forall|k: Seq<u8>| key_set(keys).contains(k) <==> sk.contains(k) by {
        if key_set(keys).contains(k) {
            let i = choose|i: int| 0 <= i < keys.len() && keys[i]@ == k;
            assert(sk[i] == keys[i]@);
        }
        if sk.contains(k) {
            let i = choose|i: int| 0 <= i < sk.len() && sk[i] == k;
            assert(keys.map_values(|k: Vec<u8>| k@)[i] == keys[i]@);
        }
    }
    assert forall|k: Seq<u8>| #[trigger] m.contains_key(k) implies (key_set(keys).contains(k)
        <==> expired(k, m[k], order, now, timeout_ns)) by {
        let j = choose|j: int| 0 <= j < entries.len() && entries[j].key@ == k;
        assert(m.contains_key(entries[j].key@));
        if sk.contains(k) {
            let i = choose|i: int|
                0 <= i < entries.len() && expired(
                    #[trigger] entries[i].key@,
                    entries[i].value@,
                    order,
                    now,
                    timeout_ns,
                ) && entries[i].key@ == k;
            if i != j {
                if i < j {
                    assert(entries[i].key@ != entries[j].key@);
                } else {
                    assert(entries[j].key@ != entries[i].key@);
                }
            }
        } else {
            assert(!expired(entries[j].key@, entries[j].value@, order, now, timeout_ns));
        }
    }
}

/// Which keys the updates of `ups` leave in the map, and what they hold.
pub proof fn lemma_updates(m: RawMap, ups: Seq<RawEntry>)
    ensures
        forall|k: Seq<u8>|
            #[trigger] apply_updates(m, ups).contains_key(k) <==> (m.contains_key(k) || exists|j: int|
                0 <= j < ups.len() && ups[j].key@ == k),
        forall|k: Seq<u8>|
            m.contains_key(k) && (forall|j: int| 0 <= j < ups.len() ==> ups[j].key@ != k)
                ==> #[trigger] apply_updates(m, ups)[k] == m[k],
        forall|k: Seq<u8>|
            (exists|j: int| 0 <= j < ups.len() && ups[j].key@ == k) ==> exists|j: int|
                0 <= j < ups.len() && ups[j].key@ == k && #[trigger] apply_updates(m, ups)[k]
                    == ups[j].value@,
    decreases ups.len(),
{
    if ups.len() > 0 {
        let init = ups.drop_last();
        lemma_updates(m, init);
        let last = ups.len() - 1;
        assert(ups[last] == ups.last());
        assert(apply_updates(m, ups) == apply_updates(m, init).insert(ups[last].key@, ups[last].value@));
        assert forall|j: int| 0 <= j < init.len() implies init[j] == ups[j] by {}
        assert forall|k: Seq<u8>|
            #[trigger] apply_updates(m, ups).contains_key(k) <==> (m.contains_key(k) || exists|j: int|
                0 <= j < ups.len() && ups[j].key@ == k) by {
            if exists|j: int| 0 <= j < ups.len() && ups[j].key@ == k {
                let j = choose|j: int| 0 <= j < ups.len() && ups[j].key@ == k;
                if j < last {
                    assert(init[j].key@ == k);
                }
            }
            if exists|j: int| 0 <= j < init.len() && init[j].key@ == k {
                let j = choose|j: int| 0 <= j < init.len() && init[j].key@ == k;
                assert(ups[j].key@ == k);
            }
        }
        assert forall|k: Seq<u8>|
            (exists|j: int| 0 <= j < ups.len() && ups[j].key@ == k) implies exists|j: int|
                0 <= j < ups.len() && ups[j].key@ == k && #[trigger] apply_updates(m, ups)[k]
                    == ups[j].value@ by {
            if ups[last].key@ != k {
                let j = choose|j: int| 0 <= j < ups.len() && ups[j].key@ == k;
                assert(init[j].key@ == k);
                let j2 = choose|j2: int|
                    0 <= j2 < init.len() && init[j2].key@ == k && apply_updates(m, init)[k]
                        == init[j2].value@;
                assert(ups[j2] == init[j2]);
            }
        }
    }
}

/// The moving entries are entries of the pass, and all of the entries that move.
pub proof fn lemma_moving(entries: Seq<RawEntry>, order: ByteOrder, old_ip: u32)
    ensures
        moving(entries, order, old_ip).len() <= entries.len(),
        forall|i: int|
            0 <= i < moving(entries, order, old_ip).len() ==> entries.contains(
                #[trigger] moving(entries, order, old_ip)[i],
            ) && moves(moving(entries, order, old_ip)[i], order, old_ip),
        forall|j: int|
            0 <= j < entries.len() && moves(#[trigger] entries[j], order, old_ip) ==> moving(
                entries,
                order,
                old_ip,
            ).contains(entries[j]),
    decreases entries.len(),
{
    if entries.len() > 0 {
        let init = entries.drop_last();
        lemma_moving(init, order, old_ip);
        let rest = moving(init, order, old_ip);
        let mv = moving(entries, order, old_ip);
        let n = entries.len() - 1;
        assert(entries[n] == entries.last());
        assert forall|i: int| 0 <= i < mv.len() implies entries.contains(#[trigger] mv[i]) && moves(
            mv[i],
            order,
            old_ip,
        ) by {
            if i < rest.len() {
                assert(mv[i] == rest[i]);
                let j = choose|j: int| 0 <= j < init.len() && init[j] == rest[i];
                assert(entries[j] == init[j]);
            } else {
                assert(mv[i] == entries[n]);
            }
        }
        assert forall|j: int| 0 <= j < entries.len() && moves(#[trigger] entries[j], order, old_ip)
            implies mv.contains(entries[j]) by {
            if j < n {
                assert(init[j] == entries[j]);
                let i = choose|i: int| 0 <= i < rest.len() && rest[i] == init[j];
                assert(mv[i] == rest[i]);
            } else {
                assert(mv[rest.len() as int] == entries[n]);
            }
        }
    }
}

/// A pass that yields each key once has moving entries with distinct keys.
pub proof fn lemma_moving_distinct(entries: Seq<RawEntry>, order: ByteOrder, old_ip: u32)
    requires
        forall|a: int, b: int|
            0 <= a < b < entries.len() ==> #[trigger] entries[a].key@ != #[trigger] entries[b].key@,
    ensures
        forall|a: int, b: int|
            0 <= a < b < moving(entries, order, old_ip).len() ==> #[trigger] moving(
                entries,
                order,
                old_ip,
            )[a].key@ != #[trigger] moving(entries, order, old_ip)[b].key@,
    decreases entries.len(),
{
    if entries.len() > 0 {
        let init = entries.drop_last();
        let n = entries.len() - 1;
        assert forall|a: int, b: int| 0 <= a < b < init.len() implies #[trigger] init[a].key@
            != #[trigger] init[b].key@ by {
            assert(entries[a].key@ != entries[b].key@);
        }
        lemma_moving_distinct(init, order, old_ip);
        lemma_moving(init, order, old_ip);
        let rest = moving(init, order, old_ip);
        let mv = moving(entries, order, old_ip);
        assert(entries[n] == entries.last());
        assert forall|a: int, b: int| 0 <= a < b < mv.len() implies #[trigger] mv[a].key@
            != #[trigger] mv[b].key@ by {
            if b < rest.len() {
                assert(mv[a] == rest[a] && mv[b] == rest[b]);
            } else {
                assert(mv[a] == rest[a]);
                assert(mv[b] == entries[n]);
                assert(entries.drop_last().contains(rest[a]));
                let j = choose|j: int| 0 <= j < init.len() && init[j] == rest[a];
                assert(init[j] == entries[j]);
                assert(entries[j].key@ != entries[n].key@);
            }
        }
    }
}

/// The write of an add made at `later` keeps every entry timely at `later`.
pub proof fn lemma_add_keeps_timely(m: RawMap, op: MapOp, k: SessionKey, now: u64, later: u64, order: ByteOrder)
    requires
        timely(m, order, now),
        now <= later,
        adds(op, k, later, order),
    ensures
        timely(apply_op(m, op), order, later),
{
    lemma_value_round_trip(SessionValue { created_at_ns: later, last_seen_ns: later }, order);
    let m2 = apply_op(m, op);
    assert forall|x: Seq<u8>|
        #[trigger] m2.contains_key(x) && key_of(x) is Some && value_of(m2[x], order) is Some implies {
            let v = value_of(m2[x], order)->0;
            v.created_at_ns <= v.last_seen_ns <= later
        } by {
        if x != key_bytes(k) {
            assert(m.contains_key(x));
        }
    }
}

/// The write of a remove keeps every remaining entry timely.
pub proof fn lemma_remove_keeps_timely(m: RawMap, op: MapOp, now: u64, later: u64, order: ByteOrder)
    requires
        timely(m, order, now),
        now <= later,
        op is Delete,
    ensures
        timely(apply_op(m, op), order, later),
{
    let m2 = apply_op(m, op);
    assert forall|x: Seq<u8>|
        #[trigger] m2.contains_key(x) && key_of(x) is Some && value_of(m2[x], order) is Some implies {
            let v = value_of(m2[x], order)->0;
            v.created_at_ns <= v.last_seen_ns <= later
        } by {
        assert(m.contains_key(x));
    }
}

/// A batch delete, such as that of a cleanup pass, keeps every remaining entry timely.
pub proof fn lemma_batch_delete_keeps_timely(m: RawMap, keys: Seq<Vec<u8>>, now: u64, later: u64, order: ByteOrder)
    requires
        timely(m, order, now),
        now <= later,
    ensures
        timely(apply_deletes(m, keys), order, later),
{
    let m2 = apply_deletes(m, keys);
    assert forall|x: Seq<u8>|
        #[trigger] m2.contains_key(x) && key_of(x) is Some && value_of(m2[x], order) is Some implies {
            let v = value_of(m2[x], order)->0;
            v.created_at_ns <= v.last_seen_ns <= later
        } by {
        assert(m.contains_key(x));
    }
}

/// A source-address rewrite made at `later` from a complete pass over `m`
/// keeps every entry timely: the moved entries keep their creation time,
/// which was no later than their last sighting.
pub proof fn lemma_rewrite_keeps_timely(
    m: RawMap,
    entries: Seq<RawEntry>,
    plan: RewritePlan,
    old_ip: u32,
    new_ip: u32,
    now: u64,
    later: u64,
    order: ByteOrder,
)
    requires
        lists(entries, m),
        timely(m, order, now),
        now <= later,
        rewrites(plan, moving(entries, order, old_ip), order, new_ip, later),
    ensures
        timely(apply_rewrite(m, plan), order, later),
{
    let moved = moving(entries, order, old_ip);
    let ups = plan.updates@;
    let mu = apply_updates(m, ups);
    lemma_updates(m, ups);
    lemma_moving(entries, order, old_ip);
    assert forall|x: Seq<u8>|
        #[trigger] mu.contains_key(x) && key_of(x) is Some && value_of(mu[x], order) is Some implies {
            let v = value_of(mu[x], order)->0;
            v.created_at_ns <= v.last_seen_ns <= later
        } by {
        if exists|j: int| 0 <= j < ups.len() && ups[j].key@ == x {
            let j = choose|j: int| 0 <= j < ups.len() && ups[j].key@ == x && mu[x] == ups[j].value@;
            let e = moved[j];
            assert(ups[j].value@ == moved_value(e, order, later));
            assert(entries.contains(e) && moves(e, order, old_ip));
            let i = choose|i: int| 0 <= i < entries.len() && entries[i] == e;
            assert(m.contains_key(entries[i].key@));
            assert(m[e.key@] == e.value@);
            let created = value_in(e, order).created_at_ns;
            lemma_value_round_trip(SessionValue { created_at_ns: created, last_seen_ns: later }, order);
        } else {
            assert(m.contains_key(x));
        }
    }
    lemma_batch_delete_keeps_timely(mu, plan.stale@, later, later, order);
}

/// The classifier's refresh of a sighting, which keeps `created_at_ns` and
/// stores the time of the packet, keeps every entry timely at that time.
pub proof fn lemma_refresh_keeps_timely(m: RawMap, k: Seq<u8>, now: u64, later: u64, order: ByteOrder)
    requires
        timely(m, order, now),
        now <= later,
        m.contains_key(k),
        key_of(k) is Some,
        value_of(m[k], order) is Some,
    ensures
        timely(
            m.insert(
                k,
                value_bytes(
                    SessionValue {
                        created_at_ns: value_of(m[k], order)->0.created_at_ns,
                        last_seen_ns: later,
                    },
                    order,
                ),
            ),
            order,
            later,
        ),
{
    let fresh = SessionValue { created_at_ns: value_of(m[k], order)->0.created_at_ns, last_seen_ns: later };
    lemma_value_round_trip(fresh, order);
    let m2 = m.insert(k, value_bytes(fresh, order));
    assert forall|x: Seq<u8>|
        #[trigger] m2.contains_key(x) && key_of(x) is Some && value_of(m2[x], order) is Some implies {
            let v = value_of(m2[x], order)->0;
            v.created_at_ns <= v.last_seen_ns <= later
        } by {
        if x != k {
            assert(m.contains_key(x));
        }
    }
}

/// The keys of the entries that move, as a set: exactly the well-formed
/// entries of `m` with source address `old_ip`, one per moving entry.
proof fn lemma_moving_keys(m: RawMap, entries: Seq<RawEntry>, order: ByteOrder, old_ip: u32)
    requires
        lists(entries, m),
    ensures
        moving(entries, order, old_ip).map_values(|e: RawEntry| e.key@).to_set() == keys_from(
            m,
            order,
            old_ip,
        ),
        moving(entries, order, old_ip).map_values(|e: RawEntry| e.key@).to_set().len() == moving(
            entries,
            order,
            old_ip,
        ).len(),
{
    let moved = moving(entries, order, old_ip);
    let ks = moved.map_values(|e: RawEntry| e.key@);
    lemma_moving(entries, order, old_ip);
    lemma_moving_distinct(entries, order, old_ip);
    assert forall|x: Seq<u8>| ks.to_set().contains(x) <==> keys_from(m, order, old_ip).contains(x) by {
        if ks.to_set().contains(x) {
            let i = choose|i: int| 0 <= i < ks.len() && ks[i] == x;
            let e = moved[i];
            assert(entries.contains(e) && moves(e, order, old_ip));
            let j = choose|j: int| 0 <= j < entries.len() && entries[j] == e;
            assert(m.contains_key(entries[j].key@));
        }
        if keys_from(m, order, old_ip).contains(x) {
            let j = choose|j: int| 0 <= j < entries.len() && entries[j].key@ == x;
            assert(m.contains_key(entries[j].key@));
            assert(moves(entries[j], order, old_ip));
            let i = choose|i: int| 0 <= i < moved.len() && moved[i] == entries[j];
            assert(ks[i] == x);
        }
    }
    assert(ks.to_set() =~= keys_from(m, order, old_ip));
    assert(ks.no_duplicates()) by {
        assert forall|a: int, b: int| 0 <= a < ks.len() && 0 <= b < ks.len() && a != b implies ks[a]
            != ks[b] by {
            if a < b {
                assert(moved[a].key@ != moved[b].key@);
            } else {
                assert(moved[b].key@ != moved[a].key@);
            }
        }
    }
    ks.unique_seq_to_set();
}

/// The batch delete of a rewrite names exactly the keys of the moving entries.
proof fn lemma_rewrite_stale(plan: RewritePlan, moved: Seq<RawEntry>, order: ByteOrder, new_ip: u32, now: u64)
    requires
        rewrites(plan, moved, order, new_ip, now),
    ensures
        key_set(plan.stale@) == moved.map_values(|e: RawEntry| e.key@).to_set(),
{
    let mk = moved.map_values(|e: RawEntry| e.key@);
    assert forall|x: Seq<u8>| key_set(plan.stale@).contains(x) <==> mk.to_set().contains(x) by {
        if key_set(plan.stale@).contains(x) {
            let i = choose|i: int| 0 <= i < plan.stale@.len() && plan.stale@[i]@ == x;
            assert(plan.updates@[i].key@ == moved_key(moved[i], new_ip));
            assert(mk[i] == x);
        }
        if mk.to_set().contains(x) {
            let i = choose|i: int| 0 <= i < mk.len() && mk[i] == x;
            assert(plan.updates@[i].key@ == moved_key(moved[i], new_ip));
            assert(plan.stale@[i]@ == x);
        }
    }
    assert(key_set(plan.stale@) =~= mk.to_set());
}

/// What each update of a rewrite writes, and that their keys are distinct.
proof fn lemma_rewrite_updates(entries: Seq<RawEntry>, plan: RewritePlan, old_ip: u32, new_ip: u32, now: u64, order: ByteOrder)
    requires
        forall|a: int, b: int|
            0 <= a < b < entries.len() ==> #[trigger] entries[a].key@ != #[trigger] entries[b].key@,
        rewrites(plan, moving(entries, order, old_ip), order, new_ip, now),
    ensures
        forall|i: int|
            0 <= i < plan.updates@.len() ==> {
                &&& key_of(#[trigger] plan.updates@[i].key@) == Some(
                    with_src(key_in(moving(entries, order, old_ip)[i]), new_ip),
                )
                &&& value_of(plan.updates@[i].value@, order) == Some(
                    SessionValue {
                        created_at_ns: value_in(moving(entries, order, old_ip)[i], order).created_at_ns,
                        last_seen_ns: now,
                    },
                )
            },
        plan.updates@.map_values(|e: RawEntry| e.key@).no_duplicates(),
{
    let moved = moving(entries, order, old_ip);
    let ups = plan.updates@;
    let n = ups.len();
    lemma_moving(entries, order, old_ip);
    lemma_moving_distinct(entries, order, old_ip);
    assert forall|i: int| 0 <= i < n implies {
        &&& key_of(#[trigger] ups[i].key@) == Some(with_src(key_in(moved[i]), new_ip))
        &&& value_of(ups[i].value@, order) == Some(
            SessionValue { created_at_ns: value_in(moved[i], order).created_at_ns, last_seen_ns: now },
        )
    } by {
        lemma_key_round_trip(with_src(key_in(moved[i]), new_ip));
        lemma_value_round_trip(
            SessionValue { created_at_ns: value_in(moved[i], order).created_at_ns, last_seen_ns: now },
            order,
        );
        assert(ups[i].key@ == moved_key(moved[i], new_ip));
    }
    let nk = ups.map_values(|e: RawEntry| e.key@);
    assert forall|a: int, b: int| 0 <= a < nk.len() && 0 <= b < nk.len() && a != b implies nk[a]
        != nk[b] by {
        assert(ups[a].key@ == moved_key(moved[a], new_ip));
        assert(ups[b].key@ == moved_key(moved[b], new_ip));
        if nk[a] == nk[b] {
            let ka = key_in(moved[a]);
            let kb = key_in(moved[b]);
            lemma_key_bytes_injective(with_src(ka, new_ip), with_src(kb, new_ip));
            assert(moves(moved[a], order, old_ip) && moves(moved[b], order, old_ip));
            assert(ka == kb);
            lemma_key_bytes_of(moved[a].key@);
            lemma_key_bytes_of(moved[b].key@);
            if a < b {
                assert(moved[a].key@ != moved[b].key@);
            } else {
                assert(moved[b].key@ != moved[a].key@);
            }
        }
    }
}

/// After the rewrite of `old_ip` into `new_ip` computed from a complete pass
/// over `m`, with `n` entries rewritten: `n` fewer entries have source address
/// `old_ip` (none is left), `n` more have `new_ip`, and each rewritten entry
/// keeps its `created_at_ns`. This holds when the two addresses differ and no
/// rewritten key was already in the map.
#[verifier::rlimit(60)]
pub proof fn lemma_rewrite_counts(
    m: RawMap,
    entries: Seq<RawEntry>,
    plan: RewritePlan,
    old_ip: u32,
    new_ip: u32,
    now: u64,
    order: ByteOrder,
)
    requires
        m.dom().finite(),
        lists(entries, m),
        old_ip != new_ip,
        rewrites(plan, moving(entries, order, old_ip), order, new_ip, now),
        forall|i: int|
            0 <= i < moving(entries, order, old_ip).len() ==> !m.contains_key(
                #[trigger] moved_key(moving(entries, order, old_ip)[i], new_ip),
            ),
    ensures
        keys_from(apply_rewrite(m, plan), order, old_ip).len() + plan.updates@.len() == keys_from(
            m,
            order,
            old_ip,
        ).len(),
        keys_from(apply_rewrite(m, plan), order, old_ip).len() == 0,
        keys_from(apply_rewrite(m, plan), order, new_ip).len() == keys_from(m, order, new_ip).len()
            + plan.updates@.len(),
        forall|i: int|
            0 <= i < plan.updates@.len() ==> {
                let k = #[trigger] plan.updates@[i].key@;
                &&& apply_rewrite(m, plan).contains_key(k)
                &&& value_of(apply_rewrite(m, plan)[k], order) == Some(
                    SessionValue {
                        created_at_ns: value_in(moving(entries, order, old_ip)[i], order).created_at_ns,
                        last_seen_ns: now,
                    },
                )
            },
{
    let moved = moving(entries, order, old_ip);
    let ups = plan.updates@;
    let n = ups.len();
    let mu = apply_updates(m, ups);
    let m2 = apply_rewrite(m, plan);
    let old_keys = moved.map_values(|e: RawEntry| e.key@).to_set();
    let new_keys = ups.map_values(|e: RawEntry| e.key@);
    lemma_updates(m, ups);
    lemma_moving_keys(m, entries, order, old_ip);
    lemma_rewrite_stale(plan, moved, order, new_ip, now);
    lemma_rewrite_updates(entries, plan, old_ip, new_ip, now, order);
    new_keys.unique_seq_to_set();
    assert forall|j: int| 0 <= j < n implies !old_keys.contains(#[trigger] ups[j].key@) by {
        if old_keys.contains(ups[j].key@) {
            assert(keys_from(m, order, old_ip).contains(ups[j].key@));
        }
    }
    // no entry with the old address is left
    assert(keys_from(m2, order, old_ip) =~= Set::<Seq<u8>>::empty()) by {
        assert forall|x: Seq<u8>| !keys_from(m2, order, old_ip).contains(x) by {
            if keys_from(m2, order, old_ip).contains(x) {
                if exists|j: int| 0 <= j < n && ups[j].key@ == x {
                    let j = choose|j: int| 0 <= j < n && ups[j].key@ == x;
                    assert(key_of(ups[j].key@) == Some(with_src(key_in(moved[j]), new_ip)));
                } else {
                    assert(m.contains_key(x));
                    assert(keys_from(m, order, old_ip).contains(x));
                }
            }
        }
    }
    // the entries with the new address: those of m and the rewritten ones
    let before = keys_from(m, order, new_ip);
    let added = new_keys.to_set();
    assert forall|x: Seq<u8>| before.contains(x) implies !added.contains(x) by {
        if added.contains(x) {
            let j = choose|j: int| 0 <= j < n && new_keys[j] == x;
            assert(ups[j].key@ == moved_key(moved[j], new_ip));
        }
    }
    assert(keys_from(m2, order, new_ip) =~= before + added) by {
        assert forall|x: Seq<u8>| keys_from(m2, order, new_ip).contains(x) <==> (before
            + added).contains(x) by {
            if keys_from(m2, order, new_ip).contains(x) {
                if exists|j: int| 0 <= j < n && ups[j].key@ == x {
                    let j = choose|j: int| 0 <= j < n && ups[j].key@ == x;
                    assert(new_keys[j] == x);
                } else {
                    assert(m.contains_key(x));
                }
            }
            if before.contains(x) {
                assert(!old_keys.contains(x));
                assert forall|j: int| 0 <= j < n implies ups[j].key@ != x by {
                    assert(ups[j].key@ == moved_key(moved[j], new_ip));
                }
            }
            if added.contains(x) {
                let j = choose|j: int| 0 <= j < n && new_keys[j] == x;
                assert(ups[j].key@ == x);
                let j2 = choose|j2: int| 0 <= j2 < n && ups[j2].key@ == x && mu[x] == ups[j2].value@;
                assert(key_of(ups[j2].key@) == Some(with_src(key_in(moved[j2]), new_ip)));
            }
        }
    }
    assert(before.finite()) by {
        assert(before.subset_of(m.dom()));
        vstd::set_lib::lemma_len_subset(before, m.dom());
    }
    vstd::set_lib::lemma_set_disjoint_lens(before, added);
    // rewritten entries keep their creation time
    assert forall|i: int| 0 <= i < n implies {
        let k = #[trigger] ups[i].key@;
        &&& m2.contains_key(k)
        &&& value_of(m2[k], order) == Some(
            SessionValue { created_at_ns: value_in(moved[i], order).created_at_ns, last_seen_ns: now },
        )
    } by {
        let x = ups[i].key@;
        let j = choose|j: int| 0 <= j < n && ups[j].key@ == x && mu[x] == ups[j].value@;
        if j != i {
            assert(new_keys[i] == new_keys[j]);
        }
    }
}

} // verus!
