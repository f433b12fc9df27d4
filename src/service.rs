//! Decisions of the session service: who may call it, what a submit asks of
//! the rule manager, how the replies of a batch of address changes add up,
//! and what a monitor stream does with each broadcast event.
use vstd::prelude::*;
use crate::codec::SessionKey;
use crate::rules::{Bpf, MapOp, SessionRecord, adds, removes};

verus! {

/// The status codes with which the service turns a request away.
#[derive(Clone, Copy, Debug, PartialEq, Eq, Structural)]
pub enum StatusCode {
    InvalidArgument,
    PermissionDenied,
}

/// The remote address of a connection, as far as the interceptor needs it.
#[derive(Clone, Copy, Debug, PartialEq, Eq, Structural)]
pub enum RemoteAddr {
    V4(u32),
    V6,
}

/// Why a request was turned away before it reached the service.
#[derive(Clone, Copy, Debug, PartialEq, Eq, Structural)]
pub enum AuthError {
    /// The peer connected over IPv6.
    NotIpv4,
    /// The peer's IPv4 address is not the controller's.
    NotController { ip: u32 },
    /// The transport did not say where the request came from.
    NoRemoteAddress,
}

impl AuthError {
    /// Every rejection is reported as permission denied.
    pub fn code(&self) -> (r: StatusCode)
        ensures
            r == StatusCode::PermissionDenied,
    {
        StatusCode::PermissionDenied
    }

    /// The message sent back with the status.
    pub fn message(&self) -> (r: &'static str)
        ensures
            r@ == match *self {
                AuthError::NotIpv4 => "Only IPv4 addresses are supported"@,
                AuthError::NotController { .. } => "Only controller requests are accepted"@,
                AuthError::NoRemoteAddress => "Cannot determine remote address"@,
            },
    {
        match self {
            AuthError::NotIpv4 => "Only IPv4 addresses are supported",
            AuthError::NotController { .. } => "Only controller requests are accepted",
            AuthError::NoRemoteAddress => "Cannot determine remote address",
        }
    }
}

/// The interceptor in front of every request: only the controller, over IPv4, passes.
#[derive(Clone, Copy, Debug, PartialEq, Eq, Structural)]
pub struct AuthInterceptor {
    pub controller_ip: u32,
}

impl AuthInterceptor {
    /// Lets a request through exactly when it comes from the controller's IPv4 address.
    pub fn call(&self, remote: Option<RemoteAddr>) -> (r: Result<(), AuthError>)
        ensures
            r is Ok <==> remote == Some(RemoteAddr::V4(self.controller_ip)),
            remote is None ==> r == Err::<(), AuthError>(AuthError::NoRemoteAddress),
            remote == Some(RemoteAddr::V6) ==> r == Err::<(), AuthError>(AuthError::NotIpv4),
            (remote matches Some(RemoteAddr::V4(ip)) && ip != self.controller_ip) ==> r == Err::<
                (),
                AuthError,
            >(AuthError::NotController { ip: remote->Some_0->V4_0 }),
    {
        match remote {
            Some(RemoteAddr::V4(ip)) => {
                if ip == self.controller_ip {
                    Ok(())
                } else {
                    Err(AuthError::NotController { ip })
                }
            },
            Some(RemoteAddr::V6) => Err(AuthError::NotIpv4),
            None => Err(AuthError::NoRemoteAddress),
        }
    }
}

/// A session event from the controller; every field in host byte order.
#[derive(Clone, Copy, Debug, PartialEq, Eq, Structural)]
pub struct LoginEvent {
    pub activate: bool,
    pub src_ip: u32,
    pub dst_ip: u32,
    pub dst_port: u32,
}

/// The acknowledgement of a submit or of a batch of address changes.
#[derive(Clone, Copy, Debug, PartialEq, Eq, Structural)]
pub struct Ack {
    pub success: bool,
}

/// The pin-hole of an event whose port fits in 16 bits.
pub open spec fn event_key(e: LoginEvent) -> SessionKey {
    SessionKey { dest_ip: e.dst_ip, src_ip: e.src_ip, dest_port: e.dst_port as u16 }
}

/// The service's own state: the rule manager it drives.
#[derive(Clone, Copy, Debug, PartialEq, Eq, Structural)]
pub struct SessionManagerService {
    pub rules: Bpf,
}

impl SessionManagerService {
    pub fn new(rules: Bpf) -> (r: SessionManagerService)
        ensures
            r.rules == rules,
    {
        SessionManagerService { rules }
    }

    /// The write that a submit asks for at time `now`: an add when the event
    /// activates the session, a remove otherwise. A port above 65535 is an
    /// invalid argument, and then nothing is written.
    pub fn submit_session(&self, event: LoginEvent, now: u64) -> (r: Result<MapOp, StatusCode>)
        ensures
            event.dst_port > 65535 ==> r == Err::<MapOp, StatusCode>(StatusCode::InvalidArgument),
            event.dst_port <= 65535 ==> r is Ok,
            r matches Ok(op) ==> if event.activate {
                adds(op, event_key(event), now, self.rules.order)
            } else {
                removes(op, event_key(event))
            },
    {
        if event.dst_port > 65535 {
            return Err(StatusCode::InvalidArgument);
        }
        let port = event.dst_port as u16;
        if event.activate {
            Ok(self.rules.add_rule(event.dst_ip, event.src_ip, port, now))
        } else {
            Ok(self.rules.remove_rule(event.dst_ip, event.src_ip, port))
        }
    }
}

/// The running account of a batch of address changes.
#[derive(Clone, Copy, Debug, PartialEq, Eq, Structural)]
pub struct IpChangeTally {
    /// Entries rewritten so far (saturating).
    pub total_updated: u64,
    /// Some change of the batch has failed.
    pub has_errors: bool,
}

impl IpChangeTally {
    pub fn new() -> (r: IpChangeTally)
        ensures
            r.total_updated == 0,
            !r.has_errors,
    {
        IpChangeTally { total_updated: 0, has_errors: false }
    }

    /// Takes in the outcome of one change: `Some(n)` when `n` entries were
    /// rewritten, `None` when the change failed. A failure does not stop the batch.
    pub fn record(&mut self, outcome: Option<u64>)
        ensures
            final(self).has_errors == (old(self).has_errors || outcome is None),
            final(self).total_updated == match outcome {
                Some(n) => if old(self).total_updated + n > u64::MAX {
                    u64::MAX as int
                } else {
                    old(self).total_updated + n
                },
                None => old(self).total_updated as int,
            },
    {
        match outcome {
            Some(n) => {
                self.total_updated = self.total_updated.saturating_add(n);
            },
            None => {
                self.has_errors = true;
            },
        }
    }

    /// The reply to the batch: a success when no change failed.
    pub fn ack(&self) -> (r: Ack)
        ensures
            r.success == !self.has_errors,
    {
        Ack { success: !self.has_errors }
    }
}

/// The reply to a batch whose changes had the given outcomes: a success
/// exactly when none of them failed, an empty batch included.
pub fn ip_change_ack(outcomes: &Vec<Option<u64>>) -> (r: Ack)
    ensures
        r.success <==> forall|i: int| 0 <= i < outcomes@.len() ==> outcomes@[i] is Some,
{
    let mut tally = IpChangeTally::new();
    let mut i: usize = 0;
    while i < outcomes.len()
        invariant
            i <= outcomes@.len(),
            tally.has_errors <==> exists|j: int| 0 <= j < i && outcomes@[j] is None,
        decreases outcomes.len() - i,
    {
        tally.record(outcomes[i]);
        i = i + 1;
    }
    tally.ack()
}

/// What a monitor stream meets on its way.
#[derive(Clone, Copy, Debug, PartialEq, Eq, Structural)]
pub enum MonitorEvent {
    /// A snapshot arrived from the broadcaster.
    Received,
    /// The stream fell behind and this many snapshots were dropped.
    Lagged(u64),
    /// The broadcaster is gone.
    Closed,
    /// The client no longer takes snapshots.
    ClientGone,
}

/// What a monitor stream does next.
#[derive(Clone, Copy, Debug, PartialEq, Eq, Structural)]
pub enum MonitorAction {
    /// Send the snapshot to the client, then wait for the next one.
    Forward,
    /// Note the skipped snapshots and wait for the next one.
    Skip(u64),
    /// End the stream.
    Stop,
}

/// A monitor stream forwards every snapshot, lives through lag, and ends
/// when either side goes away.
pub fn monitor_step(event: MonitorEvent) -> (r: MonitorAction)
    ensures
        r == match event {
            MonitorEvent::Received => MonitorAction::Forward,
            MonitorEvent::Lagged(n) => MonitorAction::Skip(n),
            MonitorEvent::Closed => MonitorAction::Stop,
            MonitorEvent::ClientGone => MonitorAction::Stop,
        },
{
    match event {
        MonitorEvent::Received => MonitorAction::Forward,
        MonitorEvent::Lagged(n) => MonitorAction::Skip(n),
        MonitorEvent::Closed => MonitorAction::Stop,
        MonitorEvent::ClientGone => MonitorAction::Stop,
    }
}

/// One session as the monitor stream carries it.
#[derive(Clone, Copy, Debug, PartialEq, Eq, Structural)]
pub struct WireSession {
    pub src_ip: u32,
    pub dst_ip: u32,
    pub dst_port: u32,
    pub time_left: i32,
}

pub open spec fn wire_of(r: SessionRecord) -> WireSession {
    WireSession {
        src_ip: r.src_ip,
        dst_ip: r.dest_ip,
        dst_port: r.dest_port as u32,
        time_left: r.time_left_sec,
    }
}

/// A snapshot in the form the monitor stream sends, line for line.
pub fn session_list(records: &Vec<SessionRecord>) -> (r: Vec<WireSession>)
    ensures
        r@.len() == records@.len(),
        forall|i: int| 0 <= i < records@.len() ==> #[trigger] r@[i] == wire_of(records@[i]),
{
    let mut out: Vec<WireSession> = Vec::new();
    let mut i: usize = 0;
    while i < records.len()
        invariant
            i <= records@.len(),
            out@.len() == i,
            forall|j: int| 0 <= j < i ==> #[trigger] out@[j] == wire_of(records@[j]),
        decreases records.len() - i,
    {
        let rec = records[i];
        out.push(
            WireSession {
                src_ip: rec.src_ip,
                dst_ip: rec.dest_ip,
                dst_port: rec.dest_port as u32,
                time_left: rec.time_left_sec,
            },
        );
        i = i + 1;
    }
    out
}

} // verus!
