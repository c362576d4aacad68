//! Matching unassigned rides to idle chairs.
use vstd::prelude::*;
use crate::geo::{Coordinate, calculate_distance, distance_spec};
use crate::broker::{Broker, signal_all};
use crate::ride::{Ride, RideView};

verus! {

/// How many rides one dispatch run considers.
pub const DISPATCH_BATCH: usize = 10;

/// An active chair with its latest location.
#[derive(Debug)]
pub struct ChairCandidate {
    pub chair_id: String,
    pub location: Coordinate,
    /// The chair is on a ride that has not ended yet.
    pub busy: bool,
}

pub open spec fn locations(chairs: Seq<ChairCandidate>) -> Seq<Coordinate> {
    chairs.map_values(|c: ChairCandidate| c.location)
}

/// Among the first `n` chairs marked in `avail`, the one nearest to `p`;
/// the earliest wins a tie.
pub open spec fn nearest_among(p: Coordinate, locs: Seq<Coordinate>, avail: Seq<bool>, n: int) -> Option<
    int,
>
    decreases n,
{
    if n <= 0 {
        None
    } else {
        let best = nearest_among(p, locs, avail, n - 1);
        if !avail[n - 1] {
            best
        } else {
            match best {
                None => Some(n - 1),
                Some(b) => if distance_spec(p, locs[n - 1]) < distance_spec(p, locs[b]) {
                    Some(n - 1)
                } else {
                    Some(b)
                },
            }
        }
    }
}

/// The chair a ride gets given the chairs still available: none for a ride
/// that already has one.
pub open spec fn choice(r: RideView, locs: Seq<Coordinate>, avail: Seq<bool>) -> Option<int> {
    if r.chair_id is Some {
        None
    } else {
        nearest_among(r.pickup, locs, avail, locs.len() as int)
    }
}

pub open spec fn take_chair(avail: Seq<bool>, c: Option<int>) -> Seq<bool> {
    match c {
        Some(j) => avail.update(j, false),
        None => avail,
    }
}

/// The choices for the first `k` rides, each ride in order taking the
/// nearest chair left, and the availability after them.
pub open spec fn plan_upto(rides: Seq<RideView>, locs: Seq<Coordinate>, avail0: Seq<bool>, k: int) -> (
    Seq<Option<int>>,
    Seq<bool>,
)
    decreases k,
{
    if k <= 0 {
        (seq![], avail0)
    } else {
        let prev = plan_upto(rides, locs, avail0, k - 1);
        let c = choice(rides[k - 1], locs, prev.1);
        (prev.0.push(c), take_chair(prev.1, c))
    }
}

/// Some ride of the queue already holds the chair with this id.
pub open spec fn held_by_queue(rides: Seq<RideView>, id: Seq<char>) -> bool {
    exists|i: int| 0 <= i < rides.len() && #[trigger] rides[i].chair_id == Some(id)
}

/// A chair can be dispatched when it is not busy and no ride of the queue holds it.
pub open spec fn initial_avail(rides: Seq<RideView>, chairs: Seq<ChairCandidate>) -> Seq<bool> {
    Seq::new(
        chairs.len(),
        |j: int| !chairs[j].busy && !held_by_queue(rides, chairs[j].chair_id@),
    )
}

pub open spec fn batch_len(n: int) -> int {
    if n < DISPATCH_BATCH { n } else { DISPATCH_BATCH as int }
}

/// The chair index that one dispatch run picks for each of the first
/// `DISPATCH_BATCH` rides of the queue.
pub open spec fn dispatch_spec(rides: Seq<RideView>, chairs: Seq<ChairCandidate>) -> Seq<Option<int>> {
    plan_upto(rides, locations(chairs), initial_avail(rides, chairs), batch_len(rides.len() as int)).0
}

pub open spec fn opt_int(o: Option<usize>) -> Option<int> {
    match o {
        Some(j) => Some(j as int),
        None => None,
    }
}

/// The nearest available chair to `pickup`, the earliest on a tie.
pub fn nearest_chair(pickup: Coordinate, chairs: &Vec<ChairCandidate>, available: &Vec<bool>) -> (r:
    Option<usize>)
    requires
        available.len() == chairs.len(),
    ensures
        opt_int(r) == nearest_among(pickup, locations(chairs@), available@, chairs.len() as int),
        r matches Some(j) ==> j < chairs.len() && available@[j as int],
{
    let ghost locs = locations(chairs@);
    let mut best: Option<usize> = None;
    let mut best_distance: i64 = 0;
    let mut i: usize = 0;
    while i < chairs.len()
        invariant
            0 <= i <= chairs.len(),
            available.len() == chairs.len(),
            locs == locations(chairs@),
            opt_int(best) == nearest_among(pickup, locs, available@, i as int),
            best matches Some(b) ==> b < i && available@[b as int] && best_distance == distance_spec(pickup, locs[b as int]),
        decreases chairs.len() - i,
    {
        if available[i] {
            let d = calculate_distance(pickup, chairs[i].location);
            match best {
                None => {
                    best = Some(i);
                    best_distance = d;
                },
                Some(_) => {
                    if d < best_distance {
                        best = Some(i);
                        best_distance = d;
                    }
                },
            }
        }
        i = i + 1;
    }
    best
}

pub open spec fn rides_view(rides: Seq<Ride>) -> Seq<RideView> {
    rides.map_values(|r: Ride| r@)
}

/// Whether some ride of the queue holds chair `id`.
fn queue_holds(rides: &Vec<Ride>, id: &String) -> (r: bool)
    ensures
        r == held_by_queue(rides_view(rides@), id@),
{
    let ghost rv = rides_view(rides@);
    let mut i: usize = 0;
    while i < rides.len()
        invariant
            0 <= i <= rides.len(),
            rv == rides_view(rides@),
            forall|j: int| 0 <= j < i ==> #[trigger] rv[j].chair_id != Some(id@),
        decreases rides.len() - i,
    {
        if rides[i].is_assigned_to(id) {
            assert(rv[i as int].chair_id == Some(id@));
            return true;
        }
        i = i + 1;
    }
    false
}

/// Which chairs a dispatch run may hand out.
fn availability(rides: &Vec<Ride>, chairs: &Vec<ChairCandidate>) -> (r: Vec<bool>)
    ensures
        r@ == initial_avail(rides_view(rides@), chairs@),
{
    let mut r: Vec<bool> = Vec::new();
    let mut j: usize = 0;
    while j < chairs.len()
        invariant
            0 <= j <= chairs.len(),
            r@ == initial_avail(rides_view(rides@), chairs@).take(j as int),
        decreases chairs.len() - j,
    {
        let free = !chairs[j].busy && !queue_holds(rides, &chairs[j].chair_id);
        r.push(free);
        j = j + 1;
        assert(r@ =~= initial_avail(rides_view(rides@), chairs@).take(j as int));
    }
    assert(r@ =~= initial_avail(rides_view(rides@), chairs@));
    r
}

/// One dispatch run over a snapshot: for each of the first `DISPATCH_BATCH`
/// rides of the queue, oldest first, the index of the chair it is to get.
/// A ride that already has a chair, or finds none left, gets `None`; a chair
/// is handed out at most once and never when busy or held by a queued ride.
pub fn plan_dispatch(rides: &Vec<Ride>, chairs: &Vec<ChairCandidate>) -> (r: Vec<Option<usize>>)
    ensures
        r@.map_values(|o: Option<usize>| opt_int(o)) == dispatch_spec(rides_view(rides@), chairs@),
{
    let ghost rv = rides_view(rides@);
    let ghost locs = locations(chairs@);
    let ghost avail0 = initial_avail(rv, chairs@);
    let mut avail = availability(rides, chairs);
    let n: usize = if rides.len() < DISPATCH_BATCH { rides.len() } else { DISPATCH_BATCH };
    let mut r: Vec<Option<usize>> = Vec::new();
    let mut k: usize = 0;
    while k < n
        invariant
            0 <= k <= n,
            n == batch_len(rides.len() as int),
            n <= rides.len(),
            rv == rides_view(rides@),
            locs == locations(chairs@),
            avail.len() == chairs.len(),
            r@.map_values(|o: Option<usize>| opt_int(o)) == plan_upto(rv, locs, avail0, k as int).0,
            avail@ == plan_upto(rv, locs, avail0, k as int).1,
        decreases n - k,
    {
        let ghost prev = plan_upto(rv, locs, avail0, k as int);
        let c: Option<usize> = if rides[k].chair_id.is_some() {
            None
        } else {
            nearest_chair(rides[k].pickup, chairs, &avail)
        };
        assert(opt_int(c) == choice(rv[k as int], locs, prev.1));
        match c {
            Some(j) => {
                avail.set(j, false);
            },
            None => {},
        }
        let ghost before = r@;
        r.push(c);
        k = k + 1;
        proof {
            assert(r@.map_values(|o: Option<usize>| opt_int(o)) =~= before.map_values(
                |o: Option<usize>| opt_int(o),
            ).push(opt_int(c)));
        }
    }
    r
}

/// The (chair id, rider id) of each ride among the first `k` that the plan
/// newly assigns, in queue order.
pub open spec fn newly_assigned(
    rides: Seq<RideView>,
    plan: Seq<Option<int>>,
    chairs: Seq<ChairCandidate>,
    k: int,
) -> Seq<(Seq<char>, Seq<char>)>
    decreases k,
{
    if k <= 0 {
        seq![]
    } else {
        let prev = newly_assigned(rides, plan, chairs, k - 1);
        let i = k - 1;
        if i < plan.len() && plan[i] is Some && rides[i].chair_id is None {
            prev.push((chairs[plan[i]->Some_0].chair_id@, rides[i].user_id))
        } else {
            prev
        }
    }
}

pub open spec fn chair_ids_of(p: Seq<(Seq<char>, Seq<char>)>) -> Seq<Seq<char>> {
    p.map_values(|x: (Seq<char>, Seq<char>)| x.0)
}

pub open spec fn rider_ids_of(p: Seq<(Seq<char>, Seq<char>)>) -> Seq<Seq<char>> {
    p.map_values(|x: (Seq<char>, Seq<char>)| x.1)
}

/// One dispatch run on a queue of rides, oldest first: plans it, gives each
/// planned ride that is still unassigned its chair, and signals the chair and
/// the rider of each such ride.
pub fn run_dispatch(
    rides: Vec<Ride>,
    chairs: &Vec<ChairCandidate>,
    chair_signals: &mut Broker,
    rider_signals: &mut Broker,
) -> (r: Vec<Ride>)
    requires
        old(chair_signals).wf(),
        old(rider_signals).wf(),
    ensures
        rides_view(r@) == apply_dispatch(
            rides_view(rides@),
            dispatch_spec(rides_view(rides@), chairs@),
            chairs@,
        ),
        final(chair_signals).wf(),
        final(rider_signals).wf(),
        ({
            let rv = rides_view(rides@);
            let assigned = newly_assigned(rv, dispatch_spec(rv, chairs@), chairs@, rv.len() as int);
            &&& final(chair_signals)@ == signal_all(old(chair_signals)@, chair_ids_of(assigned))
            &&& final(rider_signals)@ == signal_all(old(rider_signals)@, rider_ids_of(assigned))
        }),
{
    let ghost chairs0 = chair_signals@;
    let ghost riders0 = rider_signals@;
    let plan = plan_dispatch(&rides, chairs);
    let ghost rv = rides_view(rides@);
    let ghost target = apply_dispatch(rv, dispatch_spec(rv, chairs@), chairs@);
    let ghost pv = plan@.map_values(|o: Option<usize>| opt_int(o));
    let total: usize = rides.len();
    let mut rest = rides;
    let mut out: Vec<Ride> = Vec::new();
    let mut i: usize = 0;
    while rest.len() > 0
        invariant
            rides_view(rest@) == rv.skip(i as int),
            rides_view(out@) == target.take(i as int),
            i + rest.len() == rv.len(),
            rv.len() == total,
            target.len() == rv.len(),
            pv == dispatch_spec(rv, chairs@),
            target == apply_dispatch(rv, pv, chairs@),
            pv == plan@.map_values(|o: Option<usize>| opt_int(o)),
            chair_signals.wf(),
            rider_signals.wf(),
            chair_signals@ == signal_all(chairs0, chair_ids_of(newly_assigned(rv, pv, chairs@, i as int))),
            rider_signals@ == signal_all(riders0, rider_ids_of(newly_assigned(rv, pv, chairs@, i as int))),
        decreases rest.len(),
    {
        let ghost before_rest = rest@;
        let mut ride = rest.remove(0);
        assert(rides_view(rest@) =~= rv.skip(i as int + 1)) by {
            assert forall|k: int| 0 <= k < rest@.len() implies rides_view(rest@)[k] == rv.skip(i as int + 1)[k] by {
                assert(rest@[k] == before_rest[k + 1]);
                assert(rides_view(before_rest)[k + 1] == rv.skip(i as int)[k + 1]);
            }
        }
        assert(ride@ == rv[i as int]) by {
            assert(rides_view(before_rest)[0] == ride@);
        }
        if i < plan.len() {
            match plan[i] {
                Some(j) => {
                    proof {
                        lemma_plan_shape(rv, locations(chairs@), initial_avail(rv, chairs@), batch_len(rv.len() as int));
                        assert(pv[i as int] == Some(j as int));
                    }
                    let ghost na = newly_assigned(rv, pv, chairs@, i as int);
                    if ride.assign_chair(&chairs[j].chair_id) {
                        chair_signals.signal(&chairs[j].chair_id);
                        rider_signals.signal(&ride.user_id);
                        proof {
                            let na2 = newly_assigned(rv, pv, chairs@, i + 1);
                            assert(na2 == na.push((chairs@[j as int].chair_id@, rv[i as int].user_id)));
                            assert(chair_ids_of(na2) =~= chair_ids_of(na).push(chairs@[j as int].chair_id@));
                            assert(rider_ids_of(na2) =~= rider_ids_of(na).push(rv[i as int].user_id));
                            assert(chair_ids_of(na2).drop_last() =~= chair_ids_of(na));
                            assert(rider_ids_of(na2).drop_last() =~= rider_ids_of(na));
                        }
                    } else {
                        proof {
                            assert(newly_assigned(rv, pv, chairs@, i + 1) == na);
                        }
                    }
                },
                None => {
                    assert(pv[i as int] is None);
                    assert(newly_assigned(rv, pv, chairs@, i + 1) == newly_assigned(rv, pv, chairs@, i as int));
                },
            }
        } else {
            assert(newly_assigned(rv, pv, chairs@, i + 1) == newly_assigned(rv, pv, chairs@, i as int));
        }
        assert(ride@ == target[i as int]);
        let ghost before_out = out@;
        let ghost pushed = ride;
        out.push(ride);
        proof {
            assert(out@ =~= before_out.push(pushed));
            assert(rides_view(out@) =~= rides_view(before_out).push(pushed@));
            assert(target.take(i + 1) =~= target.take(i as int).push(target[i as int]));
        }
        i = i + 1;
    }
    assert(rides_view(out@) =~= target);
    out
}

/// The pick is an available chair at minimum distance, and no earlier
/// available chair is as near; there is no pick exactly when no chair is available.
pub proof fn lemma_nearest_is_minimum(p: Coordinate, locs: Seq<Coordinate>, avail: Seq<bool>, n: int)
    requires
        0 <= n <= avail.len(),
        n <= locs.len(),
    ensures
        nearest_among(p, locs, avail, n) matches Some(b) ==> {
            &&& 0 <= b < n
            &&& avail[b]
            &&& forall|k: int| 0 <= k < n && avail[k] ==> distance_spec(p, locs[b]) <= distance_spec(p, #[trigger] locs[k])
            &&& forall|k: int| 0 <= k < b && avail[k] ==> distance_spec(p, locs[b]) < distance_spec(p, #[trigger] locs[k])
        },
        nearest_among(p, locs, avail, n) is None <==> forall|k: int| 0 <= k < n ==> !#[trigger] avail[k],
    decreases n,
{
    if n > 0 {
        lemma_nearest_is_minimum(p, locs, avail, n - 1);
    }
}

/// The rides after a dispatch run is committed: each ride of the plan that
/// is still unassigned gets its chair, every other ride stays as it was.
pub open spec fn apply_dispatch(rides: Seq<RideView>, plan: Seq<Option<int>>, chairs: Seq<ChairCandidate>) -> Seq<
    RideView,
> {
    Seq::new(
        rides.len(),
        |i: int|
            if i < plan.len() && plan[i] is Some && rides[i].chair_id is None {
                RideView { chair_id: Some(chairs[plan[i]->Some_0].chair_id@), ..rides[i] }
            } else {
                rides[i]
            },
    )
}

proof fn lemma_plan_shape(rides: Seq<RideView>, locs: Seq<Coordinate>, avail0: Seq<bool>, k: int)
    requires
        0 <= k <= rides.len(),
        locs.len() == avail0.len(),
    ensures
        plan_upto(rides, locs, avail0, k).0.len() == k,
        plan_upto(rides, locs, avail0, k).1.len() == avail0.len(),
        forall|i: int| 0 <= i < k ==> (#[trigger] plan_upto(rides, locs, avail0, k).0[i] matches Some(j) ==> {
            &&& 0 <= j < locs.len()
            &&& rides[i].chair_id is None
        }),
        forall|j: int| 0 <= j < avail0.len() && avail0[j]
            && (forall|i: int| 0 <= i < k ==> plan_upto(rides, locs, avail0, k).0[i] != Some(j))
            ==> #[trigger] plan_upto(rides, locs, avail0, k).1[j],
    decreases k,
{
    if k > 0 {
        lemma_plan_shape(rides, locs, avail0, k - 1);
        let prev = plan_upto(rides, locs, avail0, k - 1);
        let cur = plan_upto(rides, locs, avail0, k);
        lemma_nearest_is_minimum(rides[k - 1].pickup, locs, prev.1, locs.len() as int);
        assert forall|j: int| 0 <= j < avail0.len() && avail0[j]
            && (forall|i: int| 0 <= i < k ==> cur.0[i] != Some(j)) implies #[trigger] cur.1[j] by {
            assert forall|i: int| 0 <= i < k - 1 implies prev.0[i] != Some(j) by {
                assert(cur.0[i] == prev.0[i]);
            }
            assert(cur.0[k - 1] != Some(j));
        }
    }
}

proof fn lemma_plan_prefix(rides: Seq<RideView>, locs: Seq<Coordinate>, avail0: Seq<bool>, k: int, m: int)
    requires
        0 <= k <= m <= rides.len(),
        locs.len() == avail0.len(),
    ensures
        forall|i: int| 0 <= i < k ==> plan_upto(rides, locs, avail0, k).0[i] == #[trigger] plan_upto(rides, locs, avail0, m).0[i],
    decreases m - k,
{
    if k < m {
        lemma_plan_prefix(rides, locs, avail0, k, m - 1);
        lemma_plan_shape(rides, locs, avail0, m - 1);
    }
}

/// A chair free for the second run was free at every step of the first.
pub open spec fn second_run_free_was_free(rides: Seq<RideView>, chairs: Seq<ChairCandidate>) -> bool {
    let a0 = initial_avail(rides, chairs);
    let plan1 = dispatch_spec(rides, chairs);
    let b0 = initial_avail(apply_dispatch(rides, plan1, chairs), chairs);
    forall|j: int| 0 <= j < b0.len() && #[trigger] b0[j] ==> a0[j] && (forall|i: int|
        0 <= i < batch_len(rides.len() as int) ==> plan1[i] != Some(j))
}

proof fn lemma_second_run_idle(rides: Seq<RideView>, chairs: Seq<ChairCandidate>, k: int)
    requires
        0 <= k <= batch_len(rides.len() as int),
        second_run_free_was_free(rides, chairs),
    ensures
        ({
            let once = apply_dispatch(rides, dispatch_spec(rides, chairs), chairs);
            let b0 = initial_avail(once, chairs);
            let p = plan_upto(once, locations(chairs), b0, k);
            &&& forall|i: int| 0 <= i < k ==> #[trigger] p.0[i] is None
            &&& p.1 == b0
            &&& p.0.len() == k
        }),
    decreases k,
{
    if k > 0 {
        lemma_second_run_idle(rides, chairs, k - 1);
        let locs = locations(chairs);
        let a0 = initial_avail(rides, chairs);
        let m = batch_len(rides.len() as int);
        let plan1 = dispatch_spec(rides, chairs);
        let once = apply_dispatch(rides, plan1, chairs);
        let b0 = initial_avail(once, chairs);
        let s = k - 1;
        let a_s = plan_upto(rides, locs, a0, s).1;
        lemma_plan_shape(rides, locs, a0, s);
        lemma_plan_shape(rides, locs, a0, m);
        lemma_plan_prefix(rides, locs, a0, s + 1, m);
        lemma_plan_prefix(rides, locs, a0, s, m);
        lemma_nearest_is_minimum(rides[s].pickup, locs, a_s, locs.len() as int);
        lemma_nearest_is_minimum(once[s].pickup, locs, b0, locs.len() as int);
        if once[s].chair_id is None {
            assert(plan1[s] is None);
            assert forall|j: int| 0 <= j < locs.len() implies !#[trigger] b0[j] by {
                if b0[j] {
                    assert(a0[j]);
                    assert forall|i: int| 0 <= i < s implies plan_upto(rides, locs, a0, s).0[i] != Some(j) by {
                        assert(plan_upto(rides, locs, a0, s).0[i] == plan_upto(rides, locs, a0, m).0[i]);
                        assert(plan1[i] != Some(j));
                    }
                    assert(a_s[j]);
                }
            }
        }
        let p = plan_upto(once, locs, b0, k);
        let q = plan_upto(once, locs, b0, s);
        assert forall|i: int| 0 <= i < k implies #[trigger] p.0[i] is None by {
            if i < s {
                assert(p.0[i] == q.0[i]);
            }
        }
    }
}

/// Committing a dispatch run never changes a ride that already had a chair,
/// and a second run on the same queue and chair snapshot picks nothing new:
/// the assignments after two runs are those after one.
pub proof fn lemma_dispatch_replay(rides: Seq<RideView>, chairs: Seq<ChairCandidate>)
    ensures
        ({
            let once = apply_dispatch(rides, dispatch_spec(rides, chairs), chairs);
            &&& forall|i: int| 0 <= i < rides.len() && (#[trigger] rides[i]).chair_id is Some ==> once[i] == rides[i]
            &&& forall|i: int| 0 <= i < dispatch_spec(once, chairs).len() ==> #[trigger] dispatch_spec(once, chairs)[i] is None
            &&& apply_dispatch(once, dispatch_spec(once, chairs), chairs) == once
        }),
{
    let locs = locations(chairs);
    let a0 = initial_avail(rides, chairs);
    let m = batch_len(rides.len() as int);
    let plan1 = dispatch_spec(rides, chairs);
    let once = apply_dispatch(rides, plan1, chairs);
    let b0 = initial_avail(once, chairs);
    lemma_plan_shape(rides, locs, a0, m);
    assert forall|j: int| 0 <= j < b0.len() && #[trigger] b0[j] implies a0[j] && (forall|i: int|
        0 <= i < m ==> plan1[i] != Some(j)) by {
        if !a0[j] {
            if !chairs[j].busy {
                let w = choose|i: int| 0 <= i < rides.len() && #[trigger] rides[i].chair_id == Some(chairs[j].chair_id@);
                assert(once[w].chair_id == Some(chairs[j].chair_id@));
            }
        }
        assert forall|i: int| 0 <= i < m implies plan1[i] != Some(j) by {
            if plan1[i] == Some(j) {
                assert(once[i].chair_id == Some(chairs[j].chair_id@));
            }
        }
    }
    lemma_second_run_idle(rides, chairs, m);
    assert(dispatch_spec(once, chairs) == plan_upto(once, locs, b0, m).0);
    assert(apply_dispatch(once, dispatch_spec(once, chairs), chairs) =~= once);
}

} // verus!
