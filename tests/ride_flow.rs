use isuride_core::broker::Broker;
use isuride_core::dispatch::{plan_dispatch, run_dispatch, ChairCandidate, DISPATCH_BATCH};
use isuride_core::geo::{calculate_distance, next_total_distance, Coordinate, LocationRecord};
use isuride_core::ride::{Party, Ride, StatusChangeError};
use isuride_core::service::{change_ride_status, notification_step, record_coordinate};
use isuride_core::status::RideStatus;

fn coord(latitude: i32, longitude: i32) -> Coordinate {
    Coordinate { latitude, longitude }
}

fn ride(id: &str, user: &str, pickup: Coordinate, destination: Coordinate) -> Ride {
    Ride::new(id.to_string(), user.to_string(), pickup, destination)
}

fn chair(id: &str, at: Coordinate, busy: bool) -> ChairCandidate {
    ChairCandidate { chair_id: id.to_string(), location: at, busy }
}

fn history(r: &Ride) -> Vec<RideStatus> {
    r.statuses.iter().map(|s| s.status).collect()
}

#[test]
fn full_ride_scenario() {
    let mut chair_signals = Broker::new();
    let mut rider_signals = Broker::new();
    let rides = vec![ride("R", "U", coord(10, 10), coord(20, 20))];
    let chairs = vec![chair("C", coord(10, 10), false)];
    let mut rides = run_dispatch(rides, &chairs, &mut chair_signals, &mut rider_signals);
    let mut r = rides.remove(0);
    assert_eq!(r.chair_id.as_deref(), Some("C"));
    assert_eq!(chair_signals.version(&"C".to_string()), 1);
    assert_eq!(rider_signals.version(&"U".to_string()), 1);

    let c = "C".to_string();
    let res = change_ride_status(&mut r, &c, &"ENROUTE".to_string(), &mut chair_signals, &mut rider_signals);
    assert_eq!(res, Ok(RideStatus::Enroute));

    let rep = record_coordinate(&c, coord(10, 10), None, Some(r), &mut chair_signals, &mut rider_signals);
    assert_eq!(rep.new_status, Some(RideStatus::Pickup));
    let mut r = rep.ride.unwrap();

    let res = change_ride_status(&mut r, &c, &"CARRYING".to_string(), &mut chair_signals, &mut rider_signals);
    assert_eq!(res, Ok(RideStatus::Carrying));

    let last = LocationRecord { coordinate: coord(10, 10), total_distance: rep.total_distance };
    let rep = record_coordinate(&c, coord(20, 20), Some(last), Some(r), &mut chair_signals, &mut rider_signals);
    assert_eq!(rep.new_status, Some(RideStatus::Arrived));
    assert_eq!(rep.total_distance, 20);
    let r = rep.ride.unwrap();
    assert_eq!(
        history(&r),
        vec![
            RideStatus::Matching,
            RideStatus::Enroute,
            RideStatus::Pickup,
            RideStatus::Carrying,
            RideStatus::Arrived
        ]
    );
    assert_eq!(chair_signals.version(&c), 5);
}

#[test]
fn status_history_is_strictly_increasing() {
    let mut r = ride("R", "U", coord(1, 1), coord(2, 2));
    let c = "C".to_string();
    r.assign_chair(&c);
    let _ = r.post_driver_status(&c, &"ENROUTE".to_string());
    let _ = r.post_driver_status(&c, &"ENROUTE".to_string());
    let _ = r.report_location(coord(1, 1));
    let _ = r.report_location(coord(2, 2));
    let _ = r.post_driver_status(&c, &"CARRYING".to_string());
    let _ = r.report_location(coord(2, 2));
    let order = |s: RideStatus| s as u8;
    let h = history(&r);
    assert_eq!(h.len(), 5);
    for w in h.windows(2) {
        assert!(order(w[0]) < order(w[1]));
    }
}

#[test]
fn second_carrying_is_rejected() {
    let mut r = ride("R", "U", coord(1, 1), coord(2, 2));
    let c = "C".to_string();
    r.assign_chair(&c);
    assert_eq!(r.post_driver_status(&c, &"ENROUTE".to_string()), Ok(RideStatus::Enroute));
    assert_eq!(r.report_location(coord(1, 1)), Some(RideStatus::Pickup));
    let first = r.post_driver_status(&c, &"CARRYING".to_string());
    let second = r.post_driver_status(&c, &"CARRYING".to_string());
    assert_eq!(first, Ok(RideStatus::Carrying));
    assert_eq!(second, Err(StatusChangeError::NotArrived));
    assert_eq!(r.statuses.len(), 4);
}

#[test]
fn replayed_pickup_report_adds_no_row() {
    let mut r = ride("R", "U", coord(5, 5), coord(9, 9));
    let c = "C".to_string();
    r.assign_chair(&c);
    r.post_driver_status(&c, &"ENROUTE".to_string()).unwrap();
    assert_eq!(r.report_location(coord(5, 5)), Some(RideStatus::Pickup));
    assert_eq!(r.report_location(coord(5, 5)), None);
    r.post_driver_status(&c, &"CARRYING".to_string()).unwrap();
    assert_eq!(r.report_location(coord(5, 5)), None);
    let pickups = r.statuses.iter().filter(|s| s.status == RideStatus::Pickup).count();
    assert_eq!(pickups, 1);
}

#[test]
fn driver_errors() {
    let mut r = ride("R", "U", coord(5, 5), coord(9, 9));
    let c = "C".to_string();
    assert_eq!(r.post_driver_status(&c, &"ENROUTE".to_string()), Err(StatusChangeError::NotAssigned));
    r.assign_chair(&c);
    let other = "D".to_string();
    assert_eq!(r.post_driver_status(&other, &"ENROUTE".to_string()), Err(StatusChangeError::NotAssigned));
    assert_eq!(r.post_driver_status(&c, &"PICKUP".to_string()), Err(StatusChangeError::InvalidStatus));
    assert_eq!(r.post_driver_status(&c, &"enroute".to_string()), Err(StatusChangeError::InvalidStatus));
    assert_eq!(r.post_driver_status(&c, &"CARRYING".to_string()), Err(StatusChangeError::NotArrived));
    assert_eq!(r.post_driver_status(&c, &"ENROUTE".to_string()), Ok(RideStatus::Enroute));
    assert_eq!(r.post_driver_status(&c, &"ENROUTE".to_string()), Err(StatusChangeError::AlreadyAcknowledged));
    assert_eq!(r.statuses.len(), 2);
}

#[test]
fn failed_status_change_signals_nobody() {
    let mut chair_signals = Broker::new();
    let mut rider_signals = Broker::new();
    let mut r = ride("R", "U", coord(5, 5), coord(9, 9));
    let c = "C".to_string();
    r.assign_chair(&c);
    let res = change_ride_status(&mut r, &c, &"CARRYING".to_string(), &mut chair_signals, &mut rider_signals);
    assert_eq!(res, Err(StatusChangeError::NotArrived));
    assert_eq!(chair_signals.version(&c), 0);
    assert_eq!(rider_signals.version(&"U".to_string()), 0);
}

#[test]
fn assigned_ride_keeps_its_chair() {
    let mut r = ride("R", "U", coord(5, 5), coord(9, 9));
    assert!(r.assign_chair(&"A".to_string()));
    assert!(!r.assign_chair(&"B".to_string()));
    assert_eq!(r.chair_id.as_deref(), Some("A"));
    assert!(r.is_assigned_to(&"A".to_string()));
    assert!(!r.is_assigned_to(&"B".to_string()));
}

#[test]
fn report_without_ride_only_signals_chair() {
    let mut chair_signals = Broker::new();
    let mut rider_signals = Broker::new();
    let c = "C".to_string();
    let rep = record_coordinate(&c, coord(3, -4), None, None, &mut chair_signals, &mut rider_signals);
    assert_eq!(rep.total_distance, 0);
    assert!(rep.ride.is_none());
    assert!(rep.new_status.is_none());
    assert_eq!(chair_signals.version(&c), 1);
}

#[test]
fn distance_is_manhattan() {
    assert_eq!(calculate_distance(coord(0, 0), coord(3, -4)), 7);
    assert_eq!(calculate_distance(coord(-5, 2), coord(-5, 2)), 0);
    assert_eq!(calculate_distance(coord(i32::MIN, i32::MIN), coord(i32::MAX, i32::MAX)), 8589934590);
}

#[test]
fn odometer_accumulates() {
    assert_eq!(next_total_distance(None, coord(7, 7)), 0);
    let last = LocationRecord { coordinate: coord(1, 1), total_distance: 10 };
    assert_eq!(next_total_distance(Some(last), coord(4, -1)), 15);
}

#[test]
fn nearest_chair_wins_and_ties_go_to_first() {
    let rides = vec![ride("R1", "U1", coord(0, 0), coord(1, 1))];
    let chairs = vec![
        chair("far", coord(10, 10), false),
        chair("a", coord(2, 1), false),
        chair("b", coord(1, 2), false),
    ];
    assert_eq!(plan_dispatch(&rides, &chairs), vec![Some(1)]);
}

#[test]
fn busy_and_held_chairs_are_skipped() {
    let mut held = ride("R0", "U0", coord(0, 0), coord(1, 1));
    held.assign_chair(&"near".to_string());
    let rides = vec![held, ride("R1", "U1", coord(0, 0), coord(1, 1))];
    let chairs = vec![
        chair("near", coord(0, 0), false),
        chair("busy", coord(0, 1), true),
        chair("free", coord(5, 5), false),
    ];
    assert_eq!(plan_dispatch(&rides, &chairs), vec![None, Some(2)]);
}

#[test]
fn no_chair_leaves_rides_unassigned() {
    let rides = vec![
        ride("R1", "U1", coord(0, 0), coord(1, 1)),
        ride("R2", "U2", coord(3, 3), coord(1, 1)),
    ];
    let chairs = vec![chair("only", coord(3, 3), false)];
    assert_eq!(plan_dispatch(&rides, &chairs), vec![Some(0), None]);
    assert_eq!(plan_dispatch(&rides, &vec![]), vec![None, None]);
    assert!(plan_dispatch(&vec![], &chairs).is_empty());
}

#[test]
fn dispatch_considers_one_batch() {
    let rides: Vec<Ride> = (0..12).map(|i| ride(&format!("R{i}"), "U", coord(i, i), coord(0, 0))).collect();
    let chairs: Vec<ChairCandidate> = (0..12).map(|i| chair(&format!("C{i}"), coord(i, i), false)).collect();
    let plan = plan_dispatch(&rides, &chairs);
    assert_eq!(plan.len(), DISPATCH_BATCH);
    assert_eq!(plan[9], Some(9));
}

#[test]
fn dispatch_twice_changes_nothing_more() {
    let mut cs = Broker::new();
    let mut us = Broker::new();
    let rides = vec![
        ride("R1", "U1", coord(0, 0), coord(1, 1)),
        ride("R2", "U2", coord(9, 9), coord(1, 1)),
        ride("R3", "U3", coord(4, 4), coord(1, 1)),
    ];
    let chairs = vec![chair("A", coord(8, 8), false), chair("B", coord(1, 0), false)];
    let once = run_dispatch(rides, &chairs, &mut cs, &mut us);
    let first: Vec<Option<String>> = once.iter().map(|r| r.chair_id.clone()).collect();
    assert_eq!(first, vec![Some("B".to_string()), Some("A".to_string()), None]);
    let twice = run_dispatch(once, &chairs, &mut cs, &mut us);
    let second: Vec<Option<String>> = twice.iter().map(|r| r.chair_id.clone()).collect();
    assert_eq!(first, second);
    assert_eq!(plan_dispatch(&twice, &chairs), vec![None, None, None]);
    assert_eq!(cs.version(&"A".to_string()), 1);
}

#[test]
fn notification_stream_delivers_each_row_once() {
    let mut rider_signals = Broker::new();
    let mut r = ride("R", "U", coord(1, 1), coord(2, 2));
    let c = "C".to_string();
    r.assign_chair(&c);
    r.post_driver_status(&c, &"ENROUTE".to_string()).unwrap();

    let (r1, frame_a) = notification_step(Some(r), Party::Chair, &mut rider_signals);
    let frame_a = frame_a.unwrap();
    assert_eq!(frame_a.status, RideStatus::Matching);
    assert_eq!(frame_a.counterpart_id.as_deref(), Some("U"));
    assert_eq!(frame_a.ride_id, "R");
    assert_eq!(rider_signals.version(&"U".to_string()), 1);

    let (r2, frame_b) = notification_step(r1, Party::Chair, &mut rider_signals);
    assert_eq!(frame_b.unwrap().status, RideStatus::Enroute);
    assert_eq!(rider_signals.version(&"U".to_string()), 2);

    let (r3, frame_c) = notification_step(r2, Party::Chair, &mut rider_signals);
    assert_eq!(frame_c.unwrap().status, RideStatus::Enroute);
    assert_eq!(rider_signals.version(&"U".to_string()), 2);

    let r3 = r3.unwrap();
    assert!(r3.statuses.iter().all(|s| s.chair_sent && !s.rider_sent));
    assert_eq!(r3.oldest_undelivered(Party::Rider), Some(0));
    assert_eq!(r3.oldest_undelivered(Party::Chair), None);
}

#[test]
fn idle_stream_emits_nothing() {
    let mut signals = Broker::new();
    let (r, p) = notification_step(None, Party::Rider, &mut signals);
    assert!(r.is_none());
    assert!(p.is_none());
}
