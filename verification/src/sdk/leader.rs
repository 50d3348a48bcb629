//! Lease-based leader election: configuration checks and the pure decision of
//! what a candidate does next given the observed Lease.
use vstd::prelude::*;
use crate::sdk::error::Error;
use crate::text::owned;

verus! {

/// Field manager used when patching the Lease.
pub const LEASE_FIELD_MANAGER: &'static str = "banlieue.io/leader-election";

/// How long a lease is valid after the last successful renewal.
pub const DEFAULT_LEASE_DURATION_SECS: u64 = 15;

/// How often the leader renews; strictly less than the lease duration.
pub const DEFAULT_RENEW_PERIOD_SECS: u64 = 5;

/// How often a follower polls for the lease.
pub const DEFAULT_RETRY_PERIOD_SECS: u64 = 2;

/// `leaseDurationSeconds` written into the Lease spec.
pub const LEASE_SPEC_DURATION_FIELD_SECS: i32 = 15;

/// A span of time: whole seconds plus a sub-second part in nanoseconds.
#[derive(Debug, Clone, Copy, PartialEq, Eq)]
pub struct Period {
    pub secs: u64,
    pub subsec_nanos: u32,
}

impl Period {
    /// Total length in nanoseconds.
    pub open spec fn nanos(self) -> int {
        self.secs as int * 1_000_000_000 + self.subsec_nanos as int
    }

    /// `Duration::from_secs`.
    pub fn from_secs(secs: u64) -> (p: Period)
        ensures
            p.secs == secs,
            p.subsec_nanos == 0,
    {
        Period { secs, subsec_nanos: 0 }
    }

    /// `Duration::ZERO`.
    pub fn zero() -> (p: Period)
        ensures
            p.nanos() == 0,
    {
        Period { secs: 0, subsec_nanos: 0 }
    }

    /// `Duration::is_zero`.
    pub fn is_zero(&self) -> (r: bool)
        ensures
            r == (self.nanos() == 0),
    {
        self.secs == 0 && self.subsec_nanos == 0
    }

    /// `self >= other` on lengths.
    pub fn at_least(&self, other: &Period) -> (r: bool)
        requires
            self.subsec_nanos < 1_000_000_000,
            other.subsec_nanos < 1_000_000_000,
        ensures
            r == (self.nanos() >= other.nanos()),
    {
        self.secs > other.secs || (self.secs == other.secs && self.subsec_nanos >= other.subsec_nanos)
    }
}

/// Configuration for one leader-election loop.
#[derive(Debug, Clone)]
pub struct LeaderConfig {
    /// Namespace the Lease object lives in.
    pub namespace: String,
    /// Lease object name; unique per controller binary.
    pub lease_name: String,
    /// Holder identity written into the Lease.
    pub identity: String,
    /// How long the lease is valid after the last successful renewal.
    pub lease_duration: Period,
    /// How often the leader renews while it holds the lease.
    pub renew_period: Period,
    /// How often followers re-poll for an opportunity.
    pub retry_period: Period,
}

/// The first problem [`LeaderConfig::validate`] reports, if any.
pub open spec fn first_config_problem(cfg: LeaderConfig) -> Option<Seq<char>> {
    if cfg.identity@.len() == 0 {
        Some("LeaderConfig.identity"@)
    } else if cfg.lease_duration.nanos() == 0 {
        Some("LeaderConfig.lease_duration"@)
    } else if cfg.renew_period.nanos() == 0 {
        Some("LeaderConfig.renew_period"@)
    } else if cfg.retry_period.nanos() == 0 {
        Some("LeaderConfig.retry_period"@)
    } else if cfg.renew_period.nanos() >= cfg.lease_duration.nanos() {
        Some("LeaderConfig.renew_period must be < lease_duration"@)
    } else {
        None
    }
}

/// The holder identity when neither the pod name nor the host name is known.
pub const UNKNOWN_IDENTITY: &'static str = "unknown";

pub open spec fn opt_str_view(o: Option<&str>) -> Option<Seq<char>> {
    match o {
        Some(s) => Some(s@),
        None => None,
    }
}

/// The first of the pod name and the host name that is set and not empty,
/// else `unknown`.
pub open spec fn default_identity_spec(pod_name: Option<Seq<char>>, hostname: Option<Seq<char>>) -> Seq<
    char,
> {
    match pod_name {
        Some(p) if p.len() > 0 => p,
        _ => match hostname {
            Some(h) if h.len() > 0 => h,
            _ => UNKNOWN_IDENTITY@,
        },
    }
}

pub open spec fn well_formed_periods(cfg: LeaderConfig) -> bool {
    &&& cfg.lease_duration.subsec_nanos < 1_000_000_000
    &&& cfg.renew_period.subsec_nanos < 1_000_000_000
    &&& cfg.retry_period.subsec_nanos < 1_000_000_000
}

impl LeaderConfig {
    /// Defaults matching kube-controller-manager, for the given holder
    /// `identity` (conventionally the pod name or hostname).
    pub fn new(namespace: &str, lease_name: &str, identity: String) -> (cfg: LeaderConfig)
        ensures
            cfg.namespace@ == namespace@,
            cfg.lease_name@ == lease_name@,
            cfg.identity == identity,
            cfg.lease_duration == Period::from_secs_spec(DEFAULT_LEASE_DURATION_SECS),
            cfg.renew_period == Period::from_secs_spec(DEFAULT_RENEW_PERIOD_SECS),
            cfg.retry_period == Period::from_secs_spec(DEFAULT_RETRY_PERIOD_SECS),
    {
        LeaderConfig {
            namespace: owned(namespace),
            lease_name: owned(lease_name),
            identity,
            lease_duration: Period::from_secs(DEFAULT_LEASE_DURATION_SECS),
            renew_period: Period::from_secs(DEFAULT_RENEW_PERIOD_SECS),
            retry_period: Period::from_secs(DEFAULT_RETRY_PERIOD_SECS),
        }
    }

    /// The holder identity when none is configured, from the values of the
    /// `POD_NAME` and `HOSTNAME` environment variables (`None` when unset):
    /// the pod name, else the host name, else `unknown`; an empty value
    /// counts as unset, so the identity is never empty.
    pub fn default_identity(pod_name: Option<&str>, hostname: Option<&str>) -> (r: String)
        ensures
            r@ == default_identity_spec(opt_str_view(pod_name), opt_str_view(hostname)),
            r@.len() > 0,
    {
        proof {
            reveal_strlit("unknown");
        }
        match pod_name {
            Some(p) if !p.is_empty() => owned(p),
            _ => match hostname {
                Some(h) if !h.is_empty() => owned(h),
                _ => owned(UNKNOWN_IDENTITY),
            },
        }
    }

    /// Validate the configuration before launching the loop: reports the
    /// first of an empty identity, a zero duration, or a renew period not
    /// strictly less than the lease duration.
    pub fn validate(&self) -> (r: Result<(), Error>)
        requires
            well_formed_periods(*self),
        ensures
            match first_config_problem(*self) {
                None => r is Ok,
                Some(what) => r matches Err(Error::Missing(m)) && m@ == what,
            },
    {
        if self.identity.as_str().is_empty() {
            return Err(Error::missing("LeaderConfig.identity"));
        }
        if self.lease_duration.is_zero() {
            return Err(Error::missing("LeaderConfig.lease_duration"));
        }
        if self.renew_period.is_zero() {
            return Err(Error::missing("LeaderConfig.renew_period"));
        }
        if self.retry_period.is_zero() {
            return Err(Error::missing("LeaderConfig.retry_period"));
        }
        if self.renew_period.at_least(&self.lease_duration) {
            return Err(Error::missing("LeaderConfig.renew_period must be < lease_duration"));
        }
        Ok(())
    }
}

impl Period {
    pub open spec fn from_secs_spec(secs: u64) -> Period {
        Period { secs, subsec_nanos: 0 }
    }
}

} // verus!

verus! {

/// What the decision reads of a Lease's spec.
#[derive(Debug, Clone, Default)]
pub struct LeaseSpecState {
    /// `spec.holderIdentity`.
    pub holder_identity: Option<String>,
    /// `spec.renewTime`, in whole seconds since the Unix epoch.
    pub renew_time_secs: Option<i64>,
    /// `spec.leaseTransitions`.
    pub lease_transitions: Option<i32>,
}

/// What the decision reads of a Lease object.
#[derive(Debug, Clone, Default)]
pub struct LeaseState {
    /// `spec`, when present.
    pub spec: Option<LeaseSpecState>,
}

/// The action a candidate should take given the current state of the Lease.
#[derive(Debug, Clone, Copy, PartialEq, Eq)]
pub enum LeaseAction {
    /// No live holder: create or patch the Lease so we hold it.
    AcquireNew,
    /// We are the holder: extend the lease.
    Renew,
    /// Someone else holds a still-valid lease: sleep and re-poll.
    Wait,
    /// The previous holder has not renewed within the lease duration.
    TakeOver,
}

/// The decision as a function of `(now, lease, config)`. A lease whose
/// `renewTime + lease_duration` equals `now` is still alive.
pub open spec fn action_for(now_secs: i64, lease: Option<LeaseState>, cfg: LeaderConfig) -> LeaseAction {
    match lease {
        None => LeaseAction::AcquireNew,
        Some(l) => match l.spec {
            None => LeaseAction::AcquireNew,
            Some(spec) => {
                let holder = match spec.holder_identity {
                    Some(h) => h@,
                    None => Seq::empty(),
                };
                if holder.len() == 0 {
                    LeaseAction::AcquireNew
                } else if holder == cfg.identity@ {
                    LeaseAction::Renew
                } else {
                    match spec.renew_time_secs {
                        None => LeaseAction::TakeOver,
                        Some(renew) => if now_secs <= renew + (cfg.lease_duration.secs as i64) {
                            LeaseAction::Wait
                        } else {
                            LeaseAction::TakeOver
                        },
                    }
                }
            },
        },
    }
}

/// Decide what to do next: acquire when nobody holds the lease, renew when we
/// do, wait while another holder's lease is alive, take over once it expired.
pub fn decide_action(now_secs: i64, lease: Option<&LeaseState>, cfg: &LeaderConfig) -> (a: LeaseAction)
    ensures
        a == action_for(
            now_secs,
            match lease {
                Some(l) => Some(*l),
                None => None,
            },
            *cfg,
        ),
{
    let lease = match lease {
        None => return LeaseAction::AcquireNew,
        Some(l) => l,
    };
    let spec = match &lease.spec {
        None => return LeaseAction::AcquireNew,
        Some(s) => s,
    };
    let holder = match &spec.holder_identity {
        Some(h) => h.as_str(),
        None => "",
    };
    proof {
        reveal_strlit("");
    }
    if holder.is_empty() {
        return LeaseAction::AcquireNew;
    }
    if crate::text::str_eq(holder, cfg.identity.as_str()) {
        return LeaseAction::Renew;
    }
    let renew = match spec.renew_time_secs {
        None => return LeaseAction::TakeOver,
        Some(r) => r,
    };
    let expiry: i128 = renew as i128 + (cfg.lease_duration.secs as i64) as i128;
    if now_secs as i128 <= expiry {
        LeaseAction::Wait
    } else {
        LeaseAction::TakeOver
    }
}

/// A lease that names us is always renewed, never taken over or waited on,
/// however stale its renew time.
pub proof fn lemma_own_lease_is_renewed(now_secs: i64, spec: LeaseSpecState, cfg: LeaderConfig)
    requires
        spec.holder_identity matches Some(h) && h@ == cfg.identity@,
        cfg.identity@.len() > 0,
    ensures
        action_for(now_secs, Some(LeaseState { spec: Some(spec) }), cfg) == LeaseAction::Renew,
{
}

/// A live lease held by someone else stays live at every earlier instant:
/// if a candidate must wait at `later`, it must also wait at `earlier`.
pub proof fn lemma_wait_is_monotone(earlier: i64, later: i64, lease: LeaseState, cfg: LeaderConfig)
    requires
        earlier <= later,
        action_for(later, Some(lease), cfg) == LeaseAction::Wait,
    ensures
        action_for(earlier, Some(lease), cfg) == LeaseAction::Wait,
{
}

/// The next step of the acquisition loop.
#[derive(Debug, Clone, Copy, PartialEq, Eq)]
pub enum AcquireStep {
    /// Create a new Lease naming us.
    CreateLease,
    /// Patch the existing Lease so it names us, bumping its transitions.
    TakeOverLease,
    /// Patch `renewTime` on the Lease we already hold.
    RenewLease,
    /// Sleep for the retry period and poll again.
    Sleep,
}

/// Map a decision to the next step of the acquisition loop: a new lease is
/// created only when no Lease object exists at all.
pub fn acquire_step(action: LeaseAction, lease_exists: bool) -> (s: AcquireStep)
    ensures
        s == match action {
            LeaseAction::AcquireNew => if lease_exists {
                AcquireStep::TakeOverLease
            } else {
                AcquireStep::CreateLease
            },
            LeaseAction::Renew => AcquireStep::RenewLease,
            LeaseAction::TakeOver => AcquireStep::TakeOverLease,
            LeaseAction::Wait => AcquireStep::Sleep,
        },
{
    match action {
        LeaseAction::AcquireNew => if lease_exists {
            AcquireStep::TakeOverLease
        } else {
            AcquireStep::CreateLease
        },
        LeaseAction::Renew => AcquireStep::RenewLease,
        LeaseAction::TakeOver => AcquireStep::TakeOverLease,
        LeaseAction::Wait => AcquireStep::Sleep,
    }
}

/// After a failed renewal the process keeps leading only when a fresh
/// decision still says `Renew`.
pub fn still_leading(action: LeaseAction) -> (r: bool)
    ensures
        r == (action == LeaseAction::Renew),
{
    match action {
        LeaseAction::Renew => true,
        _ => false,
    }
}

/// The `leaseTransitions` a Lease records (absent counts as zero).
pub open spec fn transitions_of(lease: Option<LeaseState>) -> int {
    match lease {
        Some(l) => match l.spec {
            Some(s) => match s.lease_transitions {
                Some(t) => t as int,
                None => 0,
            },
            None => 0,
        },
        None => 0,
    }
}

/// `leaseTransitions` written on a take-over: the previous count plus one.
pub fn take_over_transitions(lease: Option<&LeaseState>) -> (n: i32)
    requires
        transitions_of(
            match lease {
                Some(l) => Some(*l),
                None => None,
            },
        ) < i32::MAX,
    ensures
        n as int == 1 + transitions_of(
            match lease {
                Some(l) => Some(*l),
                None => None,
            },
        ),
{
    let prev: i32 = match lease {
        Some(l) => match &l.spec {
            Some(s) => match s.lease_transitions {
                Some(t) => t,
                None => 0,
            },
            None => 0,
        },
        None => 0,
    };
    prev + 1
}

} // verus!
