//! Ride statuses and the transition graph between them.
use vstd::prelude::*;

verus! {

/// The lifecycle stage of a ride.
#[derive(Clone, Copy, Debug, PartialEq, Eq, Structural)]
pub enum RideStatus {
    Matching,
    Enroute,
    Pickup,
    Carrying,
    Arrived,
    Completed,
    Canceled,
}

/// Position of a status in the lifecycle order
/// MATCHING < ENROUTE < PICKUP < CARRYING < ARRIVED < COMPLETED,
/// with CANCELED after all of them.
pub open spec fn rank(s: RideStatus) -> int {
    match s {
        RideStatus::Matching => 0,
        RideStatus::Enroute => 1,
        RideStatus::Pickup => 2,
        RideStatus::Carrying => 3,
        RideStatus::Arrived => 4,
        RideStatus::Completed => 5,
        RideStatus::Canceled => 6,
    }
}

/// The edges of the transition graph.
pub open spec fn can_follow(prev: RideStatus, next: RideStatus) -> bool {
    match (prev, next) {
        (RideStatus::Matching, RideStatus::Enroute) => true,
        (RideStatus::Enroute, RideStatus::Pickup) => true,
        (RideStatus::Pickup, RideStatus::Carrying) => true,
        (RideStatus::Carrying, RideStatus::Arrived) => true,
        (RideStatus::Arrived, RideStatus::Completed) => true,
        (RideStatus::Matching, RideStatus::Canceled) => true,
        (RideStatus::Enroute, RideStatus::Canceled) => true,
        _ => false,
    }
}

/// COMPLETED and CANCELED end a ride.
pub open spec fn is_terminal(s: RideStatus) -> bool {
    s == RideStatus::Completed || s == RideStatus::Canceled
}

/// Every edge of the graph moves strictly forward in the lifecycle order.
pub proof fn lemma_edges_move_forward(prev: RideStatus, next: RideStatus)
    requires
        can_follow(prev, next),
    ensures
        rank(prev) < rank(next),
{
}

/// The wire name of a status.
pub open spec fn status_name(s: RideStatus) -> Seq<char> {
    match s {
        RideStatus::Matching => "MATCHING"@,
        RideStatus::Enroute => "ENROUTE"@,
        RideStatus::Pickup => "PICKUP"@,
        RideStatus::Carrying => "CARRYING"@,
        RideStatus::Arrived => "ARRIVED"@,
        RideStatus::Completed => "COMPLETED"@,
        RideStatus::Canceled => "CANCELED"@,
    }
}

/// Different statuses have different names.
pub proof fn lemma_names_distinct(a: RideStatus, b: RideStatus)
    requires
        a != b,
    ensures
        status_name(a) != status_name(b),
{
    reveal_strlit("MATCHING");
    reveal_strlit("ENROUTE");
    reveal_strlit("PICKUP");
    reveal_strlit("CARRYING");
    reveal_strlit("ARRIVED");
    reveal_strlit("COMPLETED");
    reveal_strlit("CANCELED");
    if status_name(a) == status_name(b) {
        assert(status_name(a)[0] == status_name(b)[0]);
        assert(status_name(a)[1] == status_name(b)[1]);
        assert(status_name(a)[2] == status_name(b)[2]);
    }
}

impl RideStatus {
    /// The name used in storage and in notifications.
    pub fn as_str(&self) -> (r: &'static str)
        ensures
            r@ == status_name(*self),
    {
        match self {
            RideStatus::Matching => "MATCHING",
            RideStatus::Enroute => "ENROUTE",
            RideStatus::Pickup => "PICKUP",
            RideStatus::Carrying => "CARRYING",
            RideStatus::Arrived => "ARRIVED",
            RideStatus::Completed => "COMPLETED",
            RideStatus::Canceled => "CANCELED",
        }
    }

    /// Reads a status from its name; any other text gives `None`.
    pub fn parse(name: &String) -> (r: Option<RideStatus>)
        ensures
            r matches Some(st) ==> status_name(st) == name@,
            r is None ==> forall|st: RideStatus| status_name(st) != name@,
    {
        let all = [
            RideStatus::Matching,
            RideStatus::Enroute,
            RideStatus::Pickup,
            RideStatus::Carrying,
            RideStatus::Arrived,
            RideStatus::Completed,
            RideStatus::Canceled,
        ];
        let mut i: usize = 0;
        while i < 7
            invariant
                0 <= i <= 7,
                all@ == seq![
                    RideStatus::Matching,
                    RideStatus::Enroute,
                    RideStatus::Pickup,
                    RideStatus::Carrying,
                    RideStatus::Arrived,
                    RideStatus::Completed,
                    RideStatus::Canceled,
                ],
                forall|j: int| 0 <= j < i ==> status_name(#[trigger] all@[j]) != name@,
            decreases 7 - i,
        {
            let candidate = all[i].as_str().to_owned();
            if name.eq(&candidate) {
                return Some(all[i]);
            }
            i = i + 1;
        }
        proof {
            assert forall|st: RideStatus| status_name(st) != name@ by {
                let j: int = rank(st);
                assert(all@[j] == st);
            }
        }
        None
    }

    /// Whether `next` may follow `self` in a ride's log.
    pub fn can_be_followed_by(&self, next: RideStatus) -> (r: bool)
        ensures
            r == can_follow(*self, next),
    {
        match (self, next) {
            (RideStatus::Matching, RideStatus::Enroute) => true,
            (RideStatus::Enroute, RideStatus::Pickup) => true,
            (RideStatus::Pickup, RideStatus::Carrying) => true,
            (RideStatus::Carrying, RideStatus::Arrived) => true,
            (RideStatus::Arrived, RideStatus::Completed) => true,
            (RideStatus::Matching, RideStatus::Canceled) => true,
            (RideStatus::Enroute, RideStatus::Canceled) => true,
            _ => false,
        }
    }

    pub fn is_terminal(&self) -> (r: bool)
        ensures
            r == is_terminal(*self),
    {
        match self {
            RideStatus::Completed | RideStatus::Canceled => true,
            _ => false,
        }
    }
}

} // verus!
