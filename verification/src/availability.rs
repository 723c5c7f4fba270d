//! Whether a name can be registered, judged from its registration's expiry.
use vstd::prelude::*;

verus! {

/// The reference time against which expiries are judged.
pub const REFERENCE_NOW: u64 = 1_700_000_000;

/// The grace window after expiry, thirty days in seconds.
pub const GRACE_SECONDS: u64 = 30 * 24 * 3600;

/// Where a name stands for registration.
#[derive(Copy, Clone, Debug, PartialEq, Eq)]
pub enum Availability {
    /// No registration exists.
    Available,
    /// Expired, and the grace window has ended.
    Claimable,
    /// Expired, within the grace window.
    GracePeriod,
    /// Registered and not expired.
    Active,
    /// Registered with no expiry.
    ActiveNoExpiry,
}

/// The standing of a name: `registration` is `None` where no registration
/// exists, else the registration's expiry, if it has one.  A name whose
/// expiry is at or before the reference time has expired; it stays in its
/// grace window for thirty days after expiry and is claimable from then on.
pub open spec fn availability_spec(registration: Option<Option<u64>>) -> Availability {
    match registration {
        None => Availability::Available,
        Some(None) => Availability::ActiveNoExpiry,
        Some(Some(expires_at)) => if expires_at + GRACE_SECONDS <= REFERENCE_NOW {
            Availability::Claimable
        } else if expires_at <= REFERENCE_NOW {
            Availability::GracePeriod
        } else {
            Availability::Active
        },
    }
}

/// The standing of a name, from its registration's expiry (see
/// `availability_spec`).
pub fn availability_of(registration: Option<Option<u64>>) -> (a: Availability)
    ensures
        a == availability_spec(registration),
{
    match registration {
        None => Availability::Available,
        Some(None) => Availability::ActiveNoExpiry,
        Some(Some(expires_at)) => {
            if expires_at <= REFERENCE_NOW - GRACE_SECONDS {
                Availability::Claimable
            } else if expires_at <= REFERENCE_NOW {
                Availability::GracePeriod
            } else {
                Availability::Active
            }
        },
    }
}

impl Availability {
    /// Whether the name can be registered now.
    pub fn is_available(&self) -> (r: bool)
        ensures
            r == (*self == Availability::Available || *self == Availability::Claimable),
    {
        match self {
            Availability::Available => true,
            Availability::Claimable => true,
            _ => false,
        }
    }

    /// The status as shown to users.
    pub open spec fn label_spec(self) -> Seq<char> {
        match self {
            Availability::Available => "available"@,
            Availability::Claimable => "claimable (expired, past grace period)"@,
            Availability::GracePeriod => "grace-period (expired, in grace window)"@,
            Availability::Active => "active"@,
            Availability::ActiveNoExpiry => "active (no expiry set)"@,
        }
    }

    /// The status as shown to users.
    pub fn label(&self) -> (r: &'static str)
        ensures
            r@ == self.label_spec(),
    {
        match self {
            Availability::Available => "available",
            Availability::Claimable => "claimable (expired, past grace period)",
            Availability::GracePeriod => "grace-period (expired, in grace window)",
            Availability::Active => "active",
            Availability::ActiveNoExpiry => "active (no expiry set)",
        }
    }
}

/// Whether a standing lets the name be registered now.
pub open spec fn can_register(a: Availability) -> bool {
    a == Availability::Available || a == Availability::Claimable
}

/// What each expiry means, with the reference time 1 700 000 000 and a
/// grace window of 2 592 000 seconds: an expiry after the reference time is
/// active; one at most thirty days before it is in its grace window; an
/// older one is claimable.  Without a registration the name is available;
/// without an expiry it is active.
pub proof fn lemma_availability_by_expiry(expires_at: u64)
    ensures
        expires_at > 1_700_000_000 ==> availability_spec(Some(Some(expires_at)))
            == Availability::Active,
        1_700_000_000 - 2_592_000 < expires_at <= 1_700_000_000 ==> availability_spec(
            Some(Some(expires_at)),
        ) == Availability::GracePeriod,
        expires_at <= 1_700_000_000 - 2_592_000 ==> availability_spec(Some(Some(expires_at)))
            == Availability::Claimable,
        availability_spec(None) == Availability::Available,
        availability_spec(Some(None)) == Availability::ActiveNoExpiry,
{
}

/// A later expiry never makes a name easier to register, and a name whose
/// registration has not expired cannot be registered.
pub proof fn lemma_availability_monotone(earlier: u64, later: u64)
    requires
        earlier <= later,
    ensures
        can_register(availability_spec(Some(Some(later)))) ==> can_register(
            availability_spec(Some(Some(earlier))),
        ),
        later > REFERENCE_NOW ==> !can_register(availability_spec(Some(Some(later)))),
        !can_register(availability_spec(Some(None))),
        can_register(availability_spec(None)),
{
}

} // verus!
