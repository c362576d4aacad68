//! Coordinates, Manhattan distance and odometry.
use vstd::prelude::*;

verus! {

/// A point on the city grid.
#[derive(Clone, Copy, Debug, PartialEq, Eq, Structural)]
pub struct Coordinate {
    pub latitude: i32,
    pub longitude: i32,
}

pub open spec fn abs_diff(a: int, b: int) -> int {
    if a >= b { a - b } else { b - a }
}

/// Sum of absolute coordinate deltas.
pub open spec fn distance_spec(a: Coordinate, b: Coordinate) -> int {
    abs_diff(a.latitude as int, b.latitude as int) + abs_diff(a.longitude as int, b.longitude as int)
}

/// The largest distance two coordinates can be apart.
pub const MAX_DISTANCE: i64 = 8589934590;

fn abs_delta(a: i32, b: i32) -> (r: i64)
    ensures
        r == abs_diff(a as int, b as int),
        0 <= r <= 4294967295,
{
    if a >= b {
        a as i64 - b as i64
    } else {
        b as i64 - a as i64
    }
}

/// Manhattan distance between two coordinates.
pub fn calculate_distance(a: Coordinate, b: Coordinate) -> (r: i64)
    ensures
        r == distance_spec(a, b),
        0 <= r <= MAX_DISTANCE,
{
    abs_delta(a.latitude, b.latitude) + abs_delta(a.longitude, b.longitude)
}

/// The latest stored position of a chair with its cumulative distance.
#[derive(Clone, Copy, Debug, PartialEq, Eq, Structural)]
pub struct LocationRecord {
    pub coordinate: Coordinate,
    pub total_distance: i64,
}

/// Cumulative distance after moving to `to`: zero for the first report,
/// otherwise the previous total plus the Manhattan step.
pub open spec fn next_total_distance_spec(last: Option<LocationRecord>, to: Coordinate) -> int {
    match last {
        None => 0,
        Some(l) => l.total_distance + distance_spec(l.coordinate, to),
    }
}

/// Computes the odometer value stored with a new location report.
pub fn next_total_distance(last: Option<LocationRecord>, to: Coordinate) -> (r: i64)
    requires
        last is Some ==> last->Some_0.total_distance <= i64::MAX - MAX_DISTANCE,
    ensures
        r == next_total_distance_spec(last, to),
{
    match last {
        None => 0,
        Some(l) => l.total_distance + calculate_distance(l.coordinate, to),
    }
}

} // verus!
