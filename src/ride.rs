//! The ride status state machine over an append-only status log.
use vstd::prelude::*;
use crate::geo::Coordinate;
use crate::ids::new_ulid;
use crate::status::{RideStatus, can_follow, lemma_edges_move_forward, lemma_names_distinct, rank, status_name};

verus! {

/// Which side of a ride a notification is for.
#[derive(Clone, Copy, Debug, PartialEq, Eq, Structural)]
pub enum Party {
    Chair,
    Rider,
}

/// One entry of a ride's status log.
#[derive(Debug)]
pub struct StatusRow {
    pub id: String,
    pub status: RideStatus,
    /// Whether the row has been delivered to the driver.
    pub chair_sent: bool,
    /// Whether the row has been delivered to the rider.
    pub rider_sent: bool,
}

pub struct StatusRowView {
    pub id: Seq<char>,
    pub status: RideStatus,
    pub chair_sent: bool,
    pub rider_sent: bool,
}

impl View for StatusRow {
    type V = StatusRowView;

    open spec fn view(&self) -> StatusRowView {
        StatusRowView {
            id: self.id@,
            status: self.status,
            chair_sent: self.chair_sent,
            rider_sent: self.rider_sent,
        }
    }
}

/// A ride together with its status log, oldest row first.
#[derive(Debug)]
pub struct Ride {
    pub id: String,
    pub user_id: String,
    pub chair_id: Option<String>,
    pub pickup: Coordinate,
    pub destination: Coordinate,
    pub statuses: Vec<StatusRow>,
}

pub struct RideView {
    pub id: Seq<char>,
    pub user_id: Seq<char>,
    pub chair_id: Option<Seq<char>>,
    pub pickup: Coordinate,
    pub destination: Coordinate,
    pub rows: Seq<StatusRowView>,
}

pub open spec fn opt_view(o: Option<String>) -> Option<Seq<char>> {
    match o {
        Some(s) => Some(s@),
        None => None,
    }
}

impl View for Ride {
    type V = RideView;

    open spec fn view(&self) -> RideView {
        RideView {
            id: self.id@,
            user_id: self.user_id@,
            chair_id: opt_view(self.chair_id),
            pickup: self.pickup,
            destination: self.destination,
            rows: self.statuses@.map_values(|r: StatusRow| r@),
        }
    }
}

/// The statuses of a log, in order.
pub open spec fn status_seq(rows: Seq<StatusRowView>) -> Seq<RideStatus> {
    rows.map_values(|r: StatusRowView| r.status)
}

/// A log starts at MATCHING and each row follows its predecessor along an
/// edge of the transition graph.
pub open spec fn well_formed_log(s: Seq<RideStatus>) -> bool {
    &&& s.len() >= 1
    &&& s[0] == RideStatus::Matching
    &&& forall|i: int| 0 <= i < s.len() - 1 ==> #[trigger] can_follow(s[i], s[i + 1])
}

pub open spec fn delivered_to(row: StatusRowView, party: Party) -> bool {
    match party {
        Party::Chair => row.chair_sent,
        Party::Rider => row.rider_sent,
    }
}

impl RideView {
    pub open spec fn wf(self) -> bool {
        well_formed_log(status_seq(self.rows))
    }

    /// The current status is the latest row's.
    pub open spec fn current(self) -> RideStatus {
        self.rows.last().status
    }

    pub open spec fn assigned_to(self, chair_id: Seq<char>) -> bool {
        self.chair_id == Some(chair_id)
    }

    /// Everything but the status log is the same.
    pub open spec fn same_ride(self, other: RideView) -> bool {
        &&& self.id == other.id
        &&& self.user_id == other.user_id
        &&& self.chair_id == other.chair_id
        &&& self.pickup == other.pickup
        &&& self.destination == other.destination
    }

    /// The log gained exactly one undelivered row with status `s`.
    pub open spec fn appended(self, old: RideView, s: RideStatus) -> bool {
        &&& self.same_ride(old)
        &&& self.rows.len() == old.rows.len() + 1
        &&& self.rows.take(old.rows.len() as int) == old.rows
        &&& self.rows.last().status == s
        &&& !self.rows.last().chair_sent
        &&& !self.rows.last().rider_sent
    }
}

/// Why a driver's status change was refused.
#[derive(Clone, Copy, Debug, PartialEq, Eq, Structural)]
pub enum StatusChangeError {
    /// The caller is not the ride's assigned chair.
    NotAssigned,
    /// The requested status is neither ENROUTE nor CARRYING.
    InvalidStatus,
    /// ENROUTE was requested while the ride is no longer MATCHING.
    AlreadyAcknowledged,
    /// CARRYING was requested while the ride is not at PICKUP.
    NotArrived,
}

/// What a driver's request for status `requested` leads to.
pub open spec fn driver_decision(current: RideStatus, assigned: bool, requested: Seq<char>) -> Result<
    RideStatus,
    StatusChangeError,
> {
    if !assigned {
        Err(StatusChangeError::NotAssigned)
    } else if requested == status_name(RideStatus::Enroute) {
        if current == RideStatus::Matching {
            Ok(RideStatus::Enroute)
        } else {
            Err(StatusChangeError::AlreadyAcknowledged)
        }
    } else if requested == status_name(RideStatus::Carrying) {
        if current == RideStatus::Pickup {
            Ok(RideStatus::Carrying)
        } else {
            Err(StatusChangeError::NotArrived)
        }
    } else {
        Err(StatusChangeError::InvalidStatus)
    }
}

/// The status a location report triggers, if any: reaching the pickup point
/// while ENROUTE gives PICKUP, reaching the destination while CARRYING gives
/// ARRIVED.
pub open spec fn location_decision(
    current: RideStatus,
    at: Coordinate,
    pickup: Coordinate,
    destination: Coordinate,
) -> Option<RideStatus> {
    if current == RideStatus::Enroute && at == pickup {
        Some(RideStatus::Pickup)
    } else if current == RideStatus::Carrying && at == destination {
        Some(RideStatus::Arrived)
    } else {
        None
    }
}

/// Row `i` is the oldest one not yet delivered to `party`.
pub open spec fn is_oldest_undelivered(rows: Seq<StatusRowView>, party: Party, i: int) -> bool {
    &&& 0 <= i < rows.len()
    &&& !delivered_to(rows[i], party)
    &&& forall|j: int| 0 <= j < i ==> delivered_to(#[trigger] rows[j], party)
}

pub open spec fn all_delivered(rows: Seq<StatusRowView>, party: Party) -> bool {
    forall|j: int| 0 <= j < rows.len() ==> delivered_to(#[trigger] rows[j], party)
}

/// The row with its delivery mark for `party` set.
pub open spec fn stamp(row: StatusRowView, party: Party) -> StatusRowView {
    match party {
        Party::Chair => StatusRowView { chair_sent: true, ..row },
        Party::Rider => StatusRowView { rider_sent: true, ..row },
    }
}

/// What one turn of a notification stream emits.
#[derive(Clone, Copy, Debug, PartialEq, Eq, Structural)]
pub struct Notification {
    pub status: RideStatus,
    /// The row newly marked delivered, if any; the counterpart is then to be
    /// signalled. `None` means the status is a heartbeat of the latest row.
    pub delivered_row: Option<usize>,
}

impl Ride {
    /// A freshly requested ride: unassigned, with a single MATCHING row.
    pub fn new(id: String, user_id: String, pickup: Coordinate, destination: Coordinate) -> (r: Ride)
        ensures
            r@.id == id@,
            r@.user_id == user_id@,
            r@.chair_id is None,
            r@.pickup == pickup,
            r@.destination == destination,
            r@.rows.len() == 1,
            r@.rows[0].status == RideStatus::Matching,
            !r@.rows[0].chair_sent,
            !r@.rows[0].rider_sent,
            r@.wf(),
    {
        let row = StatusRow {
            id: new_ulid(),
            status: RideStatus::Matching,
            chair_sent: false,
            rider_sent: false,
        };
        let statuses = vec![row];
        let r = Ride { id, user_id, chair_id: None, pickup, destination, statuses };
        assert(status_seq(r@.rows) =~= seq![RideStatus::Matching]);
        r
    }

    /// Whether the log is well formed, for a ride read back from storage.
    pub fn is_well_formed(&self) -> (r: bool)
        ensures
            r == self@.wf(),
    {
        let ghost s = status_seq(self@.rows);
        let n = self.statuses.len();
        if n == 0 || self.statuses[0].status != RideStatus::Matching {
            return false;
        }
        let mut i: usize = 1;
        while i < n
            invariant
                1 <= i <= n,
                n == self.statuses.len(),
                s == status_seq(self@.rows),
                s.len() == n,
                forall|k: int| 0 <= k < i - 1 ==> #[trigger] can_follow(s[k], s[k + 1]),
            decreases n - i,
        {
            if !self.statuses[i - 1].status.can_be_followed_by(self.statuses[i].status) {
                assert(!can_follow(s[i - 1], s[(i - 1) + 1]));
                return false;
            }
            i = i + 1;
        }
        true
    }

    /// The status of the latest row.
    pub fn current_status(&self) -> (r: RideStatus)
        requires
            self@.wf(),
        ensures
            r == self@.current(),
    {
        assert(status_seq(self@.rows).len() == self@.rows.len());
        self.statuses[self.statuses.len() - 1].status
    }

    pub fn is_assigned_to(&self, chair_id: &String) -> (r: bool)
        ensures
            r == self@.assigned_to(chair_id@),
    {
        match &self.chair_id {
            Some(c) => c.eq(chair_id),
            None => false,
        }
    }

    /// Sets the chair only if none is set yet; an assigned ride keeps its chair.
    pub fn assign_chair(&mut self, chair_id: &String) -> (r: bool)
        ensures
            r == (old(self)@.chair_id is None),
            r ==> final(self)@ == (RideView { chair_id: Some(chair_id@), ..old(self)@ }),
            !r ==> final(self)@ == old(self)@,
    {
        if self.chair_id.is_none() {
            self.chair_id = Some(chair_id.clone());
            true
        } else {
            false
        }
    }

    fn push_status(&mut self, s: RideStatus)
        requires
            old(self)@.wf(),
            can_follow(old(self)@.current(), s),
        ensures
            final(self)@.appended(old(self)@, s),
            final(self)@.wf(),
    {
        let row = StatusRow { id: new_ulid(), status: s, chair_sent: false, rider_sent: false };
        let ghost before = self@;
        self.statuses.push(row);
        proof {
            let after = self@;
            assert(after.rows =~= before.rows.push(row@));
            assert(after.rows.take(before.rows.len() as int) =~= before.rows);
            assert(status_seq(after.rows) =~= status_seq(before.rows).push(s));
        }
    }

    /// A driver asks to move the ride to the status named `requested`.
    pub fn post_driver_status(&mut self, chair_id: &String, requested: &String) -> (r: Result<
        RideStatus,
        StatusChangeError,
    >)
        requires
            old(self)@.wf(),
        ensures
            r == driver_decision(old(self)@.current(), old(self)@.assigned_to(chair_id@), requested@),
            r matches Ok(s) ==> final(self)@.appended(old(self)@, s),
            r is Err ==> final(self)@ == old(self)@,
            final(self)@.wf(),
    {
        if !self.is_assigned_to(chair_id) {
            return Err(StatusChangeError::NotAssigned);
        }
        let current = self.current_status();
        match RideStatus::parse(requested) {
            Some(RideStatus::Enroute) => {
                if current == RideStatus::Matching {
                    self.push_status(RideStatus::Enroute);
                    Ok(RideStatus::Enroute)
                } else {
                    Err(StatusChangeError::AlreadyAcknowledged)
                }
            },
            Some(RideStatus::Carrying) => {
                proof {
                    lemma_names_distinct(RideStatus::Carrying, RideStatus::Enroute);
                }
                if current == RideStatus::Pickup {
                    self.push_status(RideStatus::Carrying);
                    Ok(RideStatus::Carrying)
                } else {
                    Err(StatusChangeError::NotArrived)
                }
            },
            other => {
                proof {
                    if let Some(st) = other {
                        lemma_names_distinct(st, RideStatus::Enroute);
                        lemma_names_distinct(st, RideStatus::Carrying);
                    } else {
                        assert(status_name(RideStatus::Enroute) != requested@);
                        assert(status_name(RideStatus::Carrying) != requested@);
                    }
                }
                Err(StatusChangeError::InvalidStatus)
            },
        }
    }

    /// A chair reports standing at `at`; an arrival at the pickup point or
    /// the destination advances the ride, any other report changes nothing.
    pub fn report_location(&mut self, at: Coordinate) -> (r: Option<RideStatus>)
        requires
            old(self)@.wf(),
        ensures
            r == location_decision(
                old(self)@.current(),
                at,
                old(self)@.pickup,
                old(self)@.destination,
            ),
            r matches Some(s) ==> final(self)@.appended(old(self)@, s),
            r is None ==> final(self)@ == old(self)@,
            final(self)@.wf(),
    {
        let current = self.current_status();
        if current == RideStatus::Enroute && at == self.pickup {
            self.push_status(RideStatus::Pickup);
            Some(RideStatus::Pickup)
        } else if current == RideStatus::Carrying && at == self.destination {
            self.push_status(RideStatus::Arrived);
            Some(RideStatus::Arrived)
        } else {
            None
        }
    }

    /// The oldest row not yet delivered to `party`.
    pub fn oldest_undelivered(&self, party: Party) -> (r: Option<usize>)
        ensures
            r matches Some(i) ==> is_oldest_undelivered(self@.rows, party, i as int),
            r is None ==> all_delivered(self@.rows, party),
    {
        let mut i: usize = 0;
        while i < self.statuses.len()
            invariant
                0 <= i <= self.statuses.len(),
                forall|j: int| 0 <= j < i ==> delivered_to(#[trigger] self@.rows[j], party),
            decreases self.statuses.len() - i,
        {
            let row = &self.statuses[i];
            let sent = match party {
                Party::Chair => row.chair_sent,
                Party::Rider => row.rider_sent,
            };
            if !sent {
                return Some(i);
            }
            i = i + 1;
        }
        None
    }

    /// One turn of a notification stream for `party`: the oldest undelivered
    /// row is marked delivered and its status emitted; when everything was
    /// delivered, the current status is emitted again and nothing changes.
    pub fn take_notification(&mut self, party: Party) -> (r: Notification)
        requires
            old(self)@.wf(),
        ensures
            final(self)@.wf(),
            final(self)@.same_ride(old(self)@),
            status_seq(final(self)@.rows) == status_seq(old(self)@.rows),
            match r.delivered_row {
                Some(i) => {
                    &&& is_oldest_undelivered(old(self)@.rows, party, i as int)
                    &&& r.status == old(self)@.rows[i as int].status
                    &&& final(self)@.rows == old(self)@.rows.update(
                        i as int,
                        stamp(old(self)@.rows[i as int], party),
                    )
                },
                None => {
                    &&& all_delivered(old(self)@.rows, party)
                    &&& r.status == old(self)@.current()
                    &&& final(self)@ == old(self)@
                },
            },
    {
        match self.oldest_undelivered(party) {
            Some(i) => {
                let ghost before = self@;
                let status = self.statuses[i].status;
                let row = StatusRow {
                    id: self.statuses[i].id.clone(),
                    status,
                    chair_sent: match party {
                        Party::Chair => true,
                        Party::Rider => self.statuses[i].chair_sent,
                    },
                    rider_sent: match party {
                        Party::Chair => self.statuses[i].rider_sent,
                        Party::Rider => true,
                    },
                };
                self.statuses.set(i, row);
                proof {
                    assert(self@.rows =~= before.rows.update(i as int, stamp(before.rows[i as int], party)));
                    assert(status_seq(self@.rows) =~= status_seq(before.rows));
                }
                Notification { status, delivered_row: Some(i) }
            },
            None => Notification { status: self.current_status(), delivered_row: None },
        }
    }
}

/// In a well-formed log the statuses strictly climb the lifecycle order
/// MATCHING < ENROUTE < PICKUP < CARRYING < ARRIVED < COMPLETED (CANCELED last).
pub proof fn lemma_log_order(s: Seq<RideStatus>)
    requires
        well_formed_log(s),
    ensures
        forall|i: int, j: int| 0 <= i < j < s.len() ==> rank(#[trigger] s[i]) < rank(#[trigger] s[j]),
{
    assert forall|i: int, j: int| 0 <= i < j < s.len() implies rank(#[trigger] s[i]) < rank(#[trigger] s[j]) by {
        lemma_log_order_from(s, i, j);
    }
}

proof fn lemma_log_order_from(s: Seq<RideStatus>, i: int, j: int)
    requires
        well_formed_log(s),
        0 <= i < j < s.len(),
    ensures
        rank(s[i]) < rank(s[j]),
    decreases j - i,
{
    let k = j - 1;
    assert(can_follow(s[k], s[k + 1]));
    lemma_edges_move_forward(s[k], s[k + 1]);
    if i < j - 1 {
        lemma_log_order_from(s, i, j - 1);
    }
}

/// Appending a row keeps every earlier row and its status: the status history
/// before is a prefix of the one after.
pub proof fn lemma_append_keeps_history(before: RideView, after: RideView, s: RideStatus)
    requires
        after.appended(before, s),
    ensures
        status_seq(after.rows) == status_seq(before.rows).push(s),
        status_seq(before.rows).is_prefix_of(status_seq(after.rows)),
{
    assert(after.rows =~= before.rows.push(after.rows.last()));
    assert(status_seq(after.rows) =~= status_seq(before.rows).push(s));
}

/// Of two CARRYING requests by the assigned chair on one ride, serialised by
/// the ride's lock, at most one succeeds: after a success the ride is
/// CARRYING and the second is refused as a precondition violation.
pub proof fn lemma_carrying_once(current: RideStatus)
    ensures
        driver_decision(current, true, status_name(RideStatus::Carrying)) matches Ok(next) ==> {
            &&& next == RideStatus::Carrying
            &&& driver_decision(next, true, status_name(RideStatus::Carrying)) == Err::<
                RideStatus,
                StatusChangeError,
            >(StatusChangeError::NotArrived)
        },
{
    lemma_names_distinct(RideStatus::Carrying, RideStatus::Enroute);
}

/// A report at the pickup point while the ride is already at PICKUP or
/// CARRYING adds no row, so replaying the report that produced PICKUP does
/// not produce it again.
pub proof fn lemma_pickup_replay(
    current: RideStatus,
    pickup: Coordinate,
    destination: Coordinate,
)
    ensures
        (current == RideStatus::Pickup || current == RideStatus::Carrying)
            ==> location_decision(current, pickup, pickup, destination) != Some(RideStatus::Pickup),
        location_decision(current, pickup, pickup, destination) == Some(RideStatus::Pickup)
            ==> location_decision(RideStatus::Pickup, pickup, pickup, destination) is None,
{
}

} // verus!
