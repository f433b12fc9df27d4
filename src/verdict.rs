//! What the packet classifier decides for each IPv4 packet, stated over the
//! same session map. The classifier runs in the kernel; this is the contract
//! it keeps, written so that the control plane can be reasoned about with it.
use vstd::prelude::*;
use crate::codec::{
    ByteOrder, SessionValue, push_u16_be, push_u32_be, push_u64, u16_be_bytes, u32_be_bytes,
    u64_bytes,
};
use crate::config::Config;

verus! {

/// The read-only values the classifier is loaded with.
#[derive(Clone, Copy, Debug, PartialEq, Eq, Structural)]
pub struct DataPlaneGlobals {
    pub controller_ip: u32,
    pub controller_port: u16,
    pub lazy_update_timeout: u64,
}

impl DataPlaneGlobals {
    pub fn from_config(config: &Config) -> (r: DataPlaneGlobals)
        ensures
            r.controller_ip == config.controller_ip,
            r.controller_port == config.controller_port,
            r.lazy_update_timeout == config.lazy_update_timeout,
    {
        DataPlaneGlobals {
            controller_ip: config.controller_ip,
            controller_port: config.controller_port,
            lazy_update_timeout: config.lazy_update_timeout,
        }
    }
}

/// Size in bytes of the classifier's read-only globals.
pub const GLOBALS_SIZE: usize = 16;

/// The read-only globals as the classifier lays them out:
/// `CONTROLLER_IP[4]` and `CONTROLLER_PORT[2]` in network byte order, two
/// bytes of padding, then `LAZY_UPDATE_TIMEOUT[8]` in host byte order.
pub open spec fn globals_bytes(g: DataPlaneGlobals, order: ByteOrder) -> Seq<u8> {
    u32_be_bytes(g.controller_ip) + u16_be_bytes(g.controller_port) + seq![0u8, 0u8] + u64_bytes(
        g.lazy_update_timeout,
        order,
    )
}

impl DataPlaneGlobals {
    /// The bytes to load into the classifier's read-only data on a host of the given order.
    pub fn to_bytes(&self, order: ByteOrder) -> (r: Vec<u8>)
        ensures
            r@ == globals_bytes(*self, order),
            r@.len() == GLOBALS_SIZE,
    {
        let mut out: Vec<u8> = Vec::with_capacity(GLOBALS_SIZE);
        push_u32_be(&mut out, self.controller_ip);
        push_u16_be(&mut out, self.controller_port);
        out.push(0);
        out.push(0);
        push_u64(&mut out, self.lazy_update_timeout, order);
        assert(out@ =~= globals_bytes(*self, order));
        out
    }
}

/// The header fields the classifier reads.
#[derive(Clone, Copy, Debug, PartialEq, Eq, Structural)]
pub struct PacketHeader {
    pub src_ip: u32,
    pub dest_ip: u32,
    pub dest_port: u16,
}

#[derive(Clone, Copy, Debug, PartialEq, Eq, Structural)]
pub enum Verdict {
    Pass,
    Drop,
}

/// The verdict on a packet, given what the session map holds under its key,
/// and the value to store back when the entry's sighting is refreshed.
pub fn classify(g: &DataPlaneGlobals, pkt: &PacketHeader, entry: Option<SessionValue>, now: u64) -> (r: (
    Verdict,
    Option<SessionValue>,
))
    ensures
        pkt.dest_port == g.controller_port && pkt.src_ip == g.controller_ip ==> r == (
        Verdict::Pass,
        None::<SessionValue>,
        ),
        !(pkt.dest_port == g.controller_port && pkt.src_ip == g.controller_ip) ==> match entry {
            None => r == (Verdict::Drop, None::<SessionValue>),
            Some(v) => r.0 == Verdict::Pass && if now >= v.last_seen_ns && now - v.last_seen_ns
                >= g.lazy_update_timeout {
                r.1 == Some(SessionValue { created_at_ns: v.created_at_ns, last_seen_ns: now })
            } else {
                r.1 is None
            },
        },
{
    if pkt.dest_port == g.controller_port && pkt.src_ip == g.controller_ip {
        return (Verdict::Pass, None);
    }
    match entry {
        None => (Verdict::Drop, None),
        Some(v) => {
            if now >= v.last_seen_ns && now - v.last_seen_ns >= g.lazy_update_timeout {
                (Verdict::Pass, Some(SessionValue { created_at_ns: v.created_at_ns, last_seen_ns: now }))
            } else {
                (Verdict::Pass, None)
            }
        },
    }
}

} // verus!
