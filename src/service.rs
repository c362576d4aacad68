//! The operations a request or a stream turn performs: a change to a ride,
//! then the signals that tell the waiting parties about it.
use vstd::prelude::*;
use crate::broker::{Broker, signaled};
use crate::geo::{Coordinate, LocationRecord, MAX_DISTANCE, next_total_distance, next_total_distance_spec};
use crate::ride::{
    Party, Ride, RideView, StatusChangeError, all_delivered, driver_decision, is_oldest_undelivered,
    location_decision, opt_view, stamp,
};
use crate::status::RideStatus;

verus! {

/// A driver's status request on a ride, and on success the signals to the
/// chair and the rider. On failure neither the ride nor any signal changes.
pub fn change_ride_status(
    ride: &mut Ride,
    chair_id: &String,
    requested: &String,
    chair_signals: &mut Broker,
    rider_signals: &mut Broker,
) -> (r: Result<RideStatus, StatusChangeError>)
    requires
        old(ride)@.wf(),
        old(chair_signals).wf(),
        old(rider_signals).wf(),
    ensures
        r == driver_decision(old(ride)@.current(), old(ride)@.assigned_to(chair_id@), requested@),
        final(ride)@.wf(),
        final(chair_signals).wf(),
        final(rider_signals).wf(),
        r matches Ok(s) ==> {
            &&& final(ride)@.appended(old(ride)@, s)
            &&& final(chair_signals)@ == signaled(old(chair_signals)@, chair_id@)
            &&& final(rider_signals)@ == signaled(old(rider_signals)@, old(ride)@.user_id)
        },
        r is Err ==> {
            &&& final(ride)@ == old(ride)@
            &&& final(chair_signals)@ == old(chair_signals)@
            &&& final(rider_signals)@ == old(rider_signals)@
        },
{
    let r = ride.post_driver_status(chair_id, requested);
    if r.is_ok() {
        chair_signals.signal(chair_id);
        rider_signals.signal(&ride.user_id);
    }
    r
}

/// What a location report came to.
#[derive(Debug)]
pub struct CoordinateReport {
    /// The odometer value to store with the report.
    pub total_distance: i64,
    /// The chair's current ride, with any status the report triggered.
    pub ride: Option<Ride>,
    pub new_status: Option<RideStatus>,
}

/// A chair reports standing at `at`: the odometer advances from its last
/// location, the chair's current ride takes any automatic transition, the
/// chair is signalled, and so is the ride's rider when there is a ride.
pub fn record_coordinate(
    chair_id: &String,
    at: Coordinate,
    last: Option<LocationRecord>,
    ride: Option<Ride>,
    chair_signals: &mut Broker,
    rider_signals: &mut Broker,
) -> (r: CoordinateReport)
    requires
        last is Some ==> last->Some_0.total_distance <= i64::MAX - MAX_DISTANCE,
        ride matches Some(rd) ==> rd@.wf(),
        old(chair_signals).wf(),
        old(rider_signals).wf(),
    ensures
        r.total_distance == next_total_distance_spec(last, at),
        final(chair_signals).wf(),
        final(rider_signals).wf(),
        final(chair_signals)@ == signaled(old(chair_signals)@, chair_id@),
        match ride {
            None => {
                &&& r.ride is None
                &&& r.new_status is None
                &&& final(rider_signals)@ == old(rider_signals)@
            },
            Some(rd) => {
                &&& r.ride matches Some(nr) && nr@.wf() && (match r.new_status {
                    Some(s) => nr@.appended(rd@, s),
                    None => nr@ == rd@,
                })
                &&& r.new_status == location_decision(rd@.current(), at, rd@.pickup, rd@.destination)
                &&& final(rider_signals)@ == signaled(old(rider_signals)@, rd@.user_id)
            },
        },
{
    let total_distance = next_total_distance(last, at);
    let (ride, new_status) = match ride {
        Some(mut rd) => {
            let s = rd.report_location(at);
            rider_signals.signal(&rd.user_id);
            (Some(rd), s)
        },
        None => (None, None),
    };
    chair_signals.signal(chair_id);
    CoordinateReport { total_distance, ride, new_status }
}

/// The frame a notification stream emits for a ride.
#[derive(Debug)]
pub struct NotificationPayload {
    pub ride_id: String,
    /// The other party: the rider for a chair's stream, the chair (if any)
    /// for a rider's stream.
    pub counterpart_id: Option<String>,
    pub pickup: Coordinate,
    pub destination: Coordinate,
    pub status: RideStatus,
}

pub open spec fn counterpart(rd: RideView, party: Party) -> Option<Seq<char>> {
    match party {
        Party::Chair => Some(rd.user_id),
        Party::Rider => rd.chair_id,
    }
}

/// One turn of a notification stream for `party` on its current ride. With
/// no ride the turn emits nothing (an idle marker). Otherwise the oldest row
/// not yet delivered to `party` is marked delivered and emitted, and the
/// counterpart is signalled; with everything delivered the latest status is
/// emitted as a heartbeat and nothing changes.
pub fn notification_step(ride: Option<Ride>, party: Party, counterpart_signals: &mut Broker) -> (r: (
    Option<Ride>,
    Option<NotificationPayload>,
))
    requires
        ride matches Some(rd) ==> rd@.wf(),
        old(counterpart_signals).wf(),
    ensures
        final(counterpart_signals).wf(),
        match ride {
            None => r.0 is None && r.1 is None && final(counterpart_signals)@ == old(counterpart_signals)@,
            Some(rd) => {
                &&& r.0 matches Some(nr) && nr@.wf() && nr@.same_ride(rd@)
                &&& r.1 matches Some(p) && {
                    &&& p.ride_id@ == rd@.id
                    &&& opt_view(p.counterpart_id) == counterpart(rd@, party)
                    &&& p.pickup == rd@.pickup
                    &&& p.destination == rd@.destination
                    &&& (r.0 matches Some(nr) && take_effect(rd@, nr@, party, p.status, final(counterpart_signals)@, old(counterpart_signals)@))
                }
            },
        },
{
    match ride {
        None => (None, None),
        Some(mut rd) => {
            let n = rd.take_notification(party);
            let counterpart_id: Option<String> = match party {
                Party::Chair => Some(rd.user_id.clone()),
                Party::Rider => match &rd.chair_id {
                    Some(c) => Some(c.clone()),
                    None => None,
                },
            };
            if n.delivered_row.is_some() {
                match &counterpart_id {
                    Some(c) => counterpart_signals.signal(c),
                    None => {},
                }
            }
            let payload = NotificationPayload {
                ride_id: rd.id.clone(),
                counterpart_id,
                pickup: rd.pickup,
                destination: rd.destination,
                status: n.status,
            };
            (Some(rd), Some(payload))
        },
    }
}

/// The effect of one stream turn: either the oldest undelivered row was
/// stamped, its status emitted and the counterpart (if any) signalled, or
/// all rows were delivered and the current status was emitted with no change.
pub open spec fn take_effect(
    before: RideView,
    after: RideView,
    party: Party,
    status: RideStatus,
    signals_after: Map<Seq<char>, u64>,
    signals_before: Map<Seq<char>, u64>,
) -> bool {
    ||| exists|i: int| {
        &&& is_oldest_undelivered(before.rows, party, i)
        &&& status == before.rows[i].status
        &&& after.rows == before.rows.update(i, stamp(before.rows[i], party))
        &&& signals_after == match counterpart(before, party) {
            Some(c) => signaled(signals_before, c),
            None => signals_before,
        }
    }
    ||| {
        &&& all_delivered(before.rows, party)
        &&& status == before.current()
        &&& after == before
        &&& signals_after == signals_before
    }
}

} // verus!
