//! The kernel privileges that loading and attaching the packet classifier needs.
use vstd::prelude::*;

verus! {

/// The error type of `caps::has_cap`, carried through unread.
#[verifier::external_type_specification]
#[verifier::external_body]
pub struct ExCapsError(caps::errors::CapsError);

/// A capability the agent must hold in its effective set.
#[derive(Clone, Copy, Debug, PartialEq, Eq, Structural)]
pub enum RequiredCap {
    Bpf,
    NetAdmin,
}

impl RequiredCap {
    /// The capability's name as the kernel documents it.
    pub fn name(&self) -> (r: &'static str)
        ensures
            r@ == cap_name(*self),
    {
        match self {
            RequiredCap::Bpf => "CAP_BPF",
            RequiredCap::NetAdmin => "CAP_NET_ADMIN",
        }
    }
}

pub open spec fn cap_name(c: RequiredCap) -> Seq<char> {
    match c {
        RequiredCap::Bpf => "CAP_BPF"@,
        RequiredCap::NetAdmin => "CAP_NET_ADMIN"@,
    }
}

/// Why the agent may not run.
#[derive(Debug)]
pub enum CapabilityError {
    /// The capability could not be queried.
    QueryFailed { cap: RequiredCap, source: caps::errors::CapsError },
    /// These capabilities, in checking order, are not held.
    Missing { caps: Vec<RequiredCap> },
}

/// Relies on `caps::has_cap` for the calling thread's effective set: whether
/// the capability is in it, or the error of the query.
#[verifier::external_body]
fn has_effective_cap(cap: RequiredCap) -> (r: Result<bool, caps::errors::CapsError>) {
    let c = match cap {
        RequiredCap::Bpf => caps::Capability::CAP_BPF,
        RequiredCap::NetAdmin => caps::Capability::CAP_NET_ADMIN,
    };
    caps::has_cap(None, caps::CapSet::Effective, c)
}

/// The verdict on the answers for `CAP_BPF` and `CAP_NET_ADMIN`: the first
/// failed query is the error; else every capability not held is listed, in
/// that order; else the agent may run.
pub fn capability_verdict(
    bpf: Result<bool, caps::errors::CapsError>,
    net_admin: Result<bool, caps::errors::CapsError>,
) -> (r: Result<(), CapabilityError>)
    ensures
        bpf is Err ==> (r matches Err(CapabilityError::QueryFailed { cap, .. }) && cap
            == RequiredCap::Bpf),
        bpf is Ok && net_admin is Err ==> (r matches Err(
            CapabilityError::QueryFailed { cap, .. },
        ) && cap == RequiredCap::NetAdmin),
        bpf is Ok && net_admin is Ok ==> {
            let b = bpf->Ok_0;
            let n = net_admin->Ok_0;
            let missing = if b { seq![] } else { seq![RequiredCap::Bpf] } + if n {
                seq![]
            } else {
                seq![RequiredCap::NetAdmin]
            };
            if missing.len() == 0 {
                r is Ok
            } else {
                (r matches Err(CapabilityError::Missing { caps }) && caps@ == missing)
            }
        },
{
    let held_bpf = match bpf {
        Ok(b) => b,
        Err(e) => {
            return Err(CapabilityError::QueryFailed { cap: RequiredCap::Bpf, source: e });
        },
    };
    let held_net_admin = match net_admin {
        Ok(b) => b,
        Err(e) => {
            return Err(CapabilityError::QueryFailed { cap: RequiredCap::NetAdmin, source: e });
        },
    };
    let mut missing: Vec<RequiredCap> = Vec::new();
    if !held_bpf {
        missing.push(RequiredCap::Bpf);
    }
    if !held_net_admin {
        missing.push(RequiredCap::NetAdmin);
    }
    proof {
        let m = if held_bpf { seq![] } else { seq![RequiredCap::Bpf] } + if held_net_admin {
            seq![]
        } else {
            seq![RequiredCap::NetAdmin]
        };
        assert(missing@ =~= m);
    }
    if missing.len() == 0 {
        Ok(())
    } else {
        Err(CapabilityError::Missing { caps: missing })
    }
}

/// Whether this process holds `CAP_BPF` and `CAP_NET_ADMIN`; the second is
/// asked for only once the first query has succeeded.
pub fn check_capabilities() -> (r: Result<(), CapabilityError>)
    ensures
        r matches Err(CapabilityError::Missing { caps }) ==> (caps@ == seq![RequiredCap::Bpf]
            || caps@ == seq![RequiredCap::NetAdmin] || caps@ == seq![
            RequiredCap::Bpf,
            RequiredCap::NetAdmin,
        ]),
{
    let bpf = has_effective_cap(RequiredCap::Bpf);
    if let Err(e) = bpf {
        return Err(CapabilityError::QueryFailed { cap: RequiredCap::Bpf, source: e });
    }
    let net_admin = has_effective_cap(RequiredCap::NetAdmin);
    capability_verdict(bpf, net_admin)
}

} // verus!
