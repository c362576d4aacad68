//! Per-entity change signals: each entity has a version that every signal
//! bumps, and a waiter resolves when the version differs from the one it saw.
use vstd::prelude::*;

verus! {

/// The version after one more signal; it wraps around after `u64::MAX`.
pub open spec fn next_version(v: u64) -> u64 {
    if v == u64::MAX { 0 } else { (v + 1) as u64 }
}

/// The version after `n` more signals.
pub open spec fn version_after(v: u64, n: nat) -> u64
    decreases n,
{
    if n == 0 { v } else { next_version(version_after(v, (n - 1) as nat)) }
}

/// The version of `id` in a version map; an entity never signalled is at 0.
pub open spec fn map_version(m: Map<Seq<char>, u64>, id: Seq<char>) -> u64 {
    if m.dom().contains(id) { m[id] } else { 0 }
}

/// The version map after one signal of `id`.
pub open spec fn signaled(m: Map<Seq<char>, u64>, id: Seq<char>) -> Map<Seq<char>, u64> {
    m.insert(id, next_version(map_version(m, id)))
}

/// The version map after signalling each of `ids` in order.
pub open spec fn signal_all(m: Map<Seq<char>, u64>, ids: Seq<Seq<char>>) -> Map<Seq<char>, u64>
    decreases ids.len(),
{
    if ids.len() == 0 {
        m
    } else {
        signaled(signal_all(m, ids.drop_last()), ids.last())
    }
}

pub open spec fn entries_map(e: Seq<(Seq<char>, u64)>) -> Map<Seq<char>, u64>
    decreases e.len(),
{
    if e.len() == 0 {
        Map::empty()
    } else {
        entries_map(e.drop_last()).insert(e.last().0, e.last().1)
    }
}

pub open spec fn unique_keys(e: Seq<(Seq<char>, u64)>) -> bool {
    forall|i: int, j: int| 0 <= i < j < e.len() ==> (#[trigger] e[i]).0 != (#[trigger] e[j]).0
}

/// Signal slots keyed by entity id, created on first use and never removed.
pub struct Broker {
    entries: Vec<(String, u64)>,
}

/// A party waiting for changes of one entity.
#[derive(Debug)]
pub struct Waiter {
    pub entity: String,
    /// The version this waiter has seen last.
    pub seen: u64,
}

proof fn lemma_map_lookup(e: Seq<(Seq<char>, u64)>, k: Seq<char>)
    requires
        unique_keys(e),
    ensures
        entries_map(e).dom().contains(k) <==> exists|i: int| 0 <= i < e.len() && (#[trigger] e[i]).0 == k,
        forall|i: int| 0 <= i < e.len() && (#[trigger] e[i]).0 == k ==> entries_map(e)[k] == e[i].1,
    decreases e.len(),
{
    if e.len() > 0 {
        let d = e.drop_last();
        assert(unique_keys(d));
        lemma_map_lookup(d, k);
        if exists|i: int| 0 <= i < e.len() && (#[trigger] e[i]).0 == k {
            let i = choose|i: int| 0 <= i < e.len() && (#[trigger] e[i]).0 == k;
            if i < e.len() - 1 {
                assert(d[i] == e[i]);
            }
        }
        if entries_map(e).dom().contains(k) && e.last().0 != k {
            let i = choose|i: int| 0 <= i < d.len() && (#[trigger] d[i]).0 == k;
            assert(e[i] == d[i]);
        }
        assert forall|i: int| 0 <= i < e.len() && (#[trigger] e[i]).0 == k implies entries_map(e)[k] == e[i].1 by {
            if i < e.len() - 1 {
                assert(e[i] == d[i]);
            }
        }
    }
}

proof fn lemma_map_update(e: Seq<(Seq<char>, u64)>, i: int, v: u64)
    requires
        unique_keys(e),
        0 <= i < e.len(),
    ensures
        entries_map(e.update(i, (e[i].0, v))) == entries_map(e).insert(e[i].0, v),
        unique_keys(e.update(i, (e[i].0, v))),
    decreases e.len(),
{
    let u = e.update(i, (e[i].0, v));
    assert(u.drop_last() == if i == e.len() - 1 { e.drop_last() } else { e.drop_last().update(i, (e[i].0, v)) });
    if i < e.len() - 1 {
        let d = e.drop_last();
        assert(unique_keys(d));
        lemma_map_update(d, i, v);
        assert(e.last().0 != e[i].0);
        assert(entries_map(u) =~= entries_map(e).insert(e[i].0, v));
    } else {
        assert(entries_map(u) =~= entries_map(e).insert(e[i].0, v));
    }
}

impl View for Broker {
    type V = Map<Seq<char>, u64>;

    closed spec fn view(&self) -> Map<Seq<char>, u64> {
        entries_map(self.entries@.map_values(|p: (String, u64)| (p.0@, p.1)))
    }
}

impl Broker {
    pub closed spec fn wf(&self) -> bool {
        unique_keys(self.entries@.map_values(|p: (String, u64)| (p.0@, p.1)))
    }

    pub open spec fn version_spec(&self, id: Seq<char>) -> u64 {
        map_version(self@, id)
    }

    pub fn new() -> (r: Broker)
        ensures
            r.wf(),
            r@ == Map::<Seq<char>, u64>::empty(),
    {
        let r = Broker { entries: Vec::new() };
        assert(r.entries@.map_values(|p: (String, u64)| (p.0@, p.1)) =~= Seq::<(Seq<char>, u64)>::empty());
        r
    }

    /// Where the slot for `id` is, if it exists yet.
    fn find(&self, id: &String) -> (r: Option<usize>)
        requires
            self.wf(),
        ensures
            r matches Some(i) ==> i < self.entries@.len() && self.entries@[i as int].0@ == id@
                && self@.dom().contains(id@) && self@[id@] == self.entries@[i as int].1,
            r is None ==> !self@.dom().contains(id@),
    {
        let ghost e = self.entries@.map_values(|p: (String, u64)| (p.0@, p.1));
        let mut i: usize = 0;
        while i < self.entries.len()
            invariant
                0 <= i <= self.entries.len(),
                e == self.entries@.map_values(|p: (String, u64)| (p.0@, p.1)),
                unique_keys(e),
                forall|j: int| 0 <= j < i ==> (#[trigger] e[j]).0 != id@,
            decreases self.entries.len() - i,
        {
            if self.entries[i].0.eq(id) {
                proof {
                    lemma_map_lookup(e, id@);
                    assert(e[i as int].0 == id@);
                }
                return Some(i);
            }
            i = i + 1;
        }
        proof {
            lemma_map_lookup(e, id@);
        }
        None
    }

    /// The current version of `id`; an entity never signalled is at 0.
    pub fn version(&self, id: &String) -> (r: u64)
        requires
            self.wf(),
        ensures
            r == self.version_spec(id@),
    {
        match self.find(id) {
            Some(i) => self.entries[i].1,
            None => 0,
        }
    }

    /// Records a change of `id`, creating its slot on first use. Never fails
    /// and never waits.
    pub fn signal(&mut self, id: &String)
        requires
            old(self).wf(),
        ensures
            final(self).wf(),
            final(self)@ == signaled(old(self)@, id@),
    {
        let ghost e = self.entries@.map_values(|p: (String, u64)| (p.0@, p.1));
        match self.find(id) {
            Some(i) => {
                let v = self.entries[i].1;
                let nv: u64 = if v == u64::MAX { 0 } else { v + 1 };
                let key = self.entries[i].0.clone();
                self.entries.set(i, (key, nv));
                proof {
                    lemma_map_update(e, i as int, nv);
                    assert(self.entries@.map_values(|p: (String, u64)| (p.0@, p.1)) =~= e.update(
                        i as int,
                        (e[i as int].0, nv),
                    ));
                }
            },
            None => {
                self.entries.push((id.clone(), 1));
                proof {
                    let e2 = self.entries@.map_values(|p: (String, u64)| (p.0@, p.1));
                    assert(e2 =~= e.push((id@, 1u64)));
                    assert(e2.drop_last() =~= e);
                    lemma_map_lookup(e, id@);
                    assert forall|a: int, b: int| 0 <= a < b < e2.len() implies (#[trigger] e2[a]).0 != (#[trigger] e2[b]).0 by {
                        if b == e.len() {
                            assert(e2[a] == e[a]);
                        } else {
                            assert(e2[a] == e[a] && e2[b] == e[b]);
                        }
                    }
                }
            },
        }
    }

    /// Starts waiting on `id` from its current version.
    pub fn subscribe(&self, id: &String) -> (r: Waiter)
        requires
            self.wf(),
        ensures
            r.entity@ == id@,
            r.seen == self.version_spec(id@),
    {
        Waiter { entity: id.clone(), seen: self.version(id) }
    }

    /// Whether a signal came since the waiter last looked; if so, the waiter
    /// takes in the current version, so one burst of signals wakes it once.
    pub fn poll(&self, w: &mut Waiter) -> (r: bool)
        requires
            self.wf(),
        ensures
            final(w).entity == old(w).entity,
            r == (self.version_spec(old(w).entity@) != old(w).seen),
            final(w).seen == self.version_spec(old(w).entity@),
    {
        let v = self.version(&w.entity);
        let changed = v != w.seen;
        w.seen = v;
        changed
    }
}

/// A waiter that saw version `v` finds a change after a burst of `n`
/// signals exactly when the burst is not empty (for `n < 2^64`), so no
/// signal is lost; since `poll` then takes in the version, the burst wakes
/// it once, and a look with no signal in between finds no change.
pub proof fn lemma_wakes_once_per_burst(v: u64, n: nat)
    requires
        n < 0x1_0000_0000_0000_0000,
    ensures
        (version_after(v, n) != v) <==> n > 0,
        version_after(version_after(v, n), 0) == version_after(v, n),
{
    lemma_version_after(v, n);
}

/// A burst of `n` signals of `id` moves its version `n` steps and leaves
/// every other entity as it was.
pub proof fn lemma_burst(m: Map<Seq<char>, u64>, id: Seq<char>, n: nat)
    ensures
        map_version(signal_all(m, Seq::new(n, |k: int| id)), id) == version_after(map_version(m, id), n),
        forall|other: Seq<char>| other != id ==> map_version(signal_all(m, Seq::new(n, |k: int| id)), other)
            == #[trigger] map_version(m, other),
    decreases n,
{
    if n > 0 {
        let ids = Seq::new(n, |k: int| id);
        assert(ids.drop_last() =~= Seq::new((n - 1) as nat, |k: int| id));
        lemma_burst(m, id, (n - 1) as nat);
    }
}

proof fn lemma_version_after(v: u64, n: nat)
    requires
        n < 0x1_0000_0000_0000_0000,
    ensures
        version_after(v, n) as int == (v as int + n) % 0x1_0000_0000_0000_0000,
    decreases n,
{
    if n > 0 {
        lemma_version_after(v, (n - 1) as nat);
    }
}

} // verus!
