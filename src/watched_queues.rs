//! The registry of watched circuits: which circuits are polled, until when,
//! and how many at once.

use vstd::prelude::*;
use crate::tc_handle::TcHandle;
use crate::text::str_eq;

verus! {

/// Seconds that a watch lasts after it was added or last refreshed.
pub const WATCH_TTL_SECONDS: u64 = 10;

/// A circuit as the shaping configuration knows it: its id and its two classes.
#[derive(Clone, Debug)]
pub struct CircuitClasses {
    pub circuit_id: String,
    pub download_class: TcHandle,
    pub upload_class: TcHandle,
}

/// A circuit that is being polled, and when its watch lapses.
#[derive(Debug)]
pub struct WatchedQueue {
    pub circuit_id: String,
    pub expires_unix_time: u64,
    pub download_class: TcHandle,
    pub upload_class: TcHandle,
}

/// The mathematical value of a [`WatchedQueue`].
pub ghost struct WatchView {
    pub circuit_id: Seq<char>,
    pub expires: u64,
    pub download_class: TcHandle,
    pub upload_class: TcHandle,
}

impl View for WatchedQueue {
    type V = WatchView;

    open spec fn view(&self) -> WatchView {
        WatchView {
            circuit_id: self.circuit_id@,
            expires: self.expires_unix_time,
            download_class: self.download_class,
            upload_class: self.upload_class,
        }
    }
}

/// Why a circuit was not admitted to the registry.
#[derive(Clone, Copy, Debug, PartialEq, Eq, Structural)]
pub enum WatchError {
    /// The shaping configuration has no circuit of that id.
    CircuitUnknown,
    /// The circuit is being watched already.
    AlreadyWatched,
    /// The registry holds as many watches as it may.
    RegistryFull,
}

/// The time at which a watch made at `now` lapses.
pub open spec fn spec_expiration(now: u64) -> u64 {
    (now + WATCH_TTL_SECONDS) as u64
}

/// The first circuit of the configuration with the given id.
pub open spec fn first_circuit(c: Seq<CircuitClasses>, id: Seq<char>) -> Option<CircuitClasses>
    decreases c.len(),
{
    if c.len() == 0 {
        None
    } else if c[0].circuit_id@ == id {
        Some(c[0])
    } else {
        first_circuit(c.drop_first(), id)
    }
}

pub open spec fn watches(s: Seq<WatchView>, id: Seq<char>) -> bool {
    exists|i: int| 0 <= i < s.len() && (#[trigger] s[i]).circuit_id == id
}

pub open spec fn ids_unique(s: Seq<WatchView>) -> bool {
    forall|i: int, j: int| 0 <= i < j < s.len() ==> (#[trigger] s[i]).circuit_id != (#[trigger] s[j]).circuit_id
}

/// The outcome of admitting `id` at `now` to watches `s` of capacity `cap`.
pub open spec fn spec_admit(s: Seq<WatchView>, cap: nat, c: Seq<CircuitClasses>, id: Seq<char>, now: u64) -> (Seq<WatchView>, Result<(), WatchError>) {
    if watches(s, id) {
        (s, Err(WatchError::AlreadyWatched))
    } else if s.len() >= cap {
        (s, Err(WatchError::RegistryFull))
    } else {
        match first_circuit(c, id) {
            None => (s, Err(WatchError::CircuitUnknown)),
            Some(circuit) => (
                s.push(WatchView {
                    circuit_id: id,
                    expires: spec_expiration(now),
                    download_class: circuit.download_class,
                    upload_class: circuit.upload_class,
                }),
                Ok(()),
            ),
        }
    }
}

/// The watches after `id` was seen active at `now`: its watch, if any, is
/// extended in place; otherwise the circuit is admitted.
pub open spec fn spec_refresh_or_add(s: Seq<WatchView>, cap: nat, c: Seq<CircuitClasses>, id: Seq<char>, now: u64) -> (Seq<WatchView>, Result<(), WatchError>) {
    if watches(s, id) {
        (
            s.map_values(|w: WatchView| if w.circuit_id == id {
                WatchView { expires: spec_expiration(now), ..w }
            } else {
                w
            }),
            Ok(()),
        )
    } else {
        spec_admit(s, cap, c, id, now)
    }
}

/// The watches that have not lapsed at `now`, in their order.
pub open spec fn unexpired(s: Seq<WatchView>, now: u64) -> Seq<WatchView>
    decreases s.len(),
{
    if s.len() == 0 {
        s
    } else if s.last().expires > now {
        unexpired(s.drop_last(), now).push(s.last())
    } else {
        unexpired(s.drop_last(), now)
    }
}

proof fn lemma_unexpired(s: Seq<WatchView>, now: u64)
    requires
        ids_unique(s),
    ensures
        ids_unique(unexpired(s, now)),
        unexpired(s, now).len() <= s.len(),
        forall|i: int| 0 <= i < unexpired(s, now).len() ==> s.contains(#[trigger] unexpired(s, now)[i]),
        forall|i: int| 0 <= i < s.len() && (#[trigger] s[i]).expires > now ==> unexpired(s, now).contains(s[i]),
        forall|i: int| 0 <= i < unexpired(s, now).len() ==> (#[trigger] unexpired(s, now)[i]).expires > now,
    decreases s.len(),
{
    if s.len() > 0 {
        let d = s.drop_last();
        assert(ids_unique(d));
        lemma_unexpired(d, now);
        let u = unexpired(d, now);
        assert forall|i: int| 0 <= i < unexpired(s, now).len() implies s.contains(#[trigger] unexpired(s, now)[i]) by {
            if i < u.len() {
                let k = choose|k: int| 0 <= k < d.len() && d[k] == u[i];
                assert(s[k] == d[k]);
            } else {
                assert(s[s.len() - 1] == s.last());
            }
        }
        assert forall|i: int| 0 <= i < s.len() && (#[trigger] s[i]).expires > now implies unexpired(s, now).contains(s[i]) by {
            if i < d.len() {
                assert(d[i] == s[i]);
                let k = choose|k: int| 0 <= k < u.len() && u[k] == d[i];
                if s.last().expires > now {
                    assert(unexpired(s, now)[k] == u[k]);
                }
            } else {
                assert(unexpired(s, now).last() == s.last());
            }
        }
        if s.last().expires > now {
            let r = unexpired(s, now);
            assert forall|i: int, j: int| 0 <= i < j < r.len() implies (#[trigger] r[i]).circuit_id != (#[trigger] r[j]).circuit_id by {
                if j == r.len() - 1 {
                    let k = choose|k: int| 0 <= k < d.len() && d[k] == u[i];
                    assert(s[k] == d[k]);
                    assert(s[s.len() - 1] == s.last());
                } else {
                    assert(r[i] == u[i] && r[j] == u[j]);
                }
            }
        }
    }
}

impl WatchedQueue {
    /// The circuit id and its download and upload classes.
    pub fn get(&self) -> (r: (&str, TcHandle, TcHandle))
        ensures
            r.0@ == self.circuit_id@,
            r.1 == self.download_class,
            r.2 == self.upload_class,
    {
        (self.circuit_id.as_str(), self.download_class, self.upload_class)
    }

    /// Restarts the watch's timer at `now`.
    pub fn refresh_timer(&mut self, now: u64)
        requires
            now <= u64::MAX - WATCH_TTL_SECONDS,
        ensures
            final(self)@ == (WatchView { expires: spec_expiration(now), ..old(self)@ }),
    {
        self.expires_unix_time = expiration_in_the_future(now);
    }
}

/// The time at which a watch made at `now` lapses.
pub fn expiration_in_the_future(now: u64) -> (r: u64)
    requires
        now <= u64::MAX - WATCH_TTL_SECONDS,
    ensures
        r == spec_expiration(now),
        r == now + 10,
{
    now + WATCH_TTL_SECONDS
}

/// The watched circuits, at most `capacity` of them, one watch per circuit.
#[derive(Debug)]
pub struct WatchedQueues {
    queues: Vec<WatchedQueue>,
    capacity: usize,
}

impl View for WatchedQueues {
    type V = Seq<WatchView>;

    closed spec fn view(&self) -> Seq<WatchView> {
        self.queues@.map_values(|q: WatchedQueue| q@)
    }
}

impl WatchedQueues {
    /// The number of watches that the registry may hold.
    pub closed spec fn spec_capacity(&self) -> nat {
        self.capacity as nat
    }

    /// Each circuit is watched at most once, and the capacity is respected.
    pub open spec fn wf(&self) -> bool {
        &&& ids_unique(self@)
        &&& self@.len() <= self.spec_capacity()
    }

    /// An empty registry for a host with `parallel_units` parallel execution
    /// units: it holds at most twice that many watches.
    pub fn new(parallel_units: usize) -> (r: WatchedQueues)
        requires
            parallel_units <= usize::MAX / 2,
        ensures
            r.wf(),
            r@ == Seq::<WatchView>::empty(),
            r.spec_capacity() == 2 * parallel_units,
    {
        let r = WatchedQueues { queues: Vec::new(), capacity: parallel_units * 2 };
        assert(r@ =~= Seq::<WatchView>::empty());
        r
    }

    /// The number of watches held.
    pub fn len(&self) -> (r: usize)
        ensures
            r == self@.len(),
    {
        self.queues.len()
    }

    /// The number of watches that the registry may hold.
    pub fn capacity(&self) -> (r: usize)
        ensures
            r == self.spec_capacity(),
    {
        self.capacity
    }

    /// The position of the watch of `circuit_id`, if there is one.
    fn position(&self, circuit_id: &str) -> (r: Option<usize>)
        ensures
            r.is_none() == !watches(self@, circuit_id@),
            r.is_some() ==> r.unwrap() < self@.len() && self@[r.unwrap() as int].circuit_id == circuit_id@,
    {
        let mut i: usize = 0;
        while i < self.queues.len()
            invariant
                i <= self@.len(),
                self@.len() == self.queues@.len(),
                forall|j: int| 0 <= j < i ==> (#[trigger] self@[j]).circuit_id != circuit_id@,
            decreases self.queues@.len() - i,
        {
            if str_eq(self.queues[i].circuit_id.as_str(), circuit_id) {
                return Some(i);
            }
            i = i + 1;
        }
        None
    }

    /// Whether `circuit_id` is being watched.
    pub fn is_watching(&self, circuit_id: &str) -> (r: bool)
        ensures
            r == watches(self@, circuit_id@),
    {
        self.position(circuit_id).is_some()
    }

    /// Starts watching `circuit_id` at `now`, with the classes that the first
    /// circuit of that id in `circuits` has. A circuit already watched, a full
    /// registry and an unknown circuit are refused, in that order of
    /// precedence, and leave the registry unchanged.
    pub fn add_watched_queue(&mut self, circuit_id: &str, circuits: &Vec<CircuitClasses>, now: u64) -> (r: Result<(), WatchError>)
        requires
            old(self).wf(),
            now <= u64::MAX - WATCH_TTL_SECONDS,
        ensures
            final(self).wf(),
            final(self).spec_capacity() == old(self).spec_capacity(),
            (final(self)@, r) == spec_admit(old(self)@, old(self).spec_capacity(), circuits@, circuit_id@, now),
    {
        if self.position(circuit_id).is_some() {
            return Err(WatchError::AlreadyWatched);
        }
        if self.queues.len() >= self.capacity {
            return Err(WatchError::RegistryFull);
        }
        let mut i: usize = 0;
        assert(circuits@.skip(0) =~= circuits@);
        while i < circuits.len()
            invariant
                i <= circuits@.len(),
                self@ == old(self)@,
                self.spec_capacity() == old(self).spec_capacity(),
                self.wf(),
                !watches(self@, circuit_id@),
                self@.len() < self.spec_capacity(),
                now <= u64::MAX - WATCH_TTL_SECONDS,
                first_circuit(circuits@, circuit_id@) == first_circuit(circuits@.skip(i as int), circuit_id@),
            decreases circuits@.len() - i,
        {
            let ghost rest = circuits@.skip(i as int);
            assert(rest[0] == circuits@[i as int]);
            assert(rest.drop_first() =~= circuits@.skip(i + 1));
            if str_eq(circuits[i].circuit_id.as_str(), circuit_id) {
                let ghost old_view = self@;
                self.queues.push(WatchedQueue {
                    circuit_id: circuits[i].circuit_id.clone(),
                    expires_unix_time: expiration_in_the_future(now),
                    download_class: circuits[i].download_class,
                    upload_class: circuits[i].upload_class,
                });
                assert(self@ =~= spec_admit(old_view, self.spec_capacity(), circuits@, circuit_id@, now).0);
                assert(ids_unique(self@)) by {
                    assert forall|a: int, b: int| 0 <= a < b < self@.len() implies (#[trigger] self@[a]).circuit_id != (#[trigger] self@[b]).circuit_id by {
                        if b == old_view.len() {
                            assert(old_view[a] == self@[a]);
                        } else {
                            assert(old_view[a] == self@[a] && old_view[b] == self@[b]);
                        }
                    }
                }
                return Ok(());
            }
            i = i + 1;
        }
        assert(circuits@.skip(i as int).len() == 0);
        Err(WatchError::CircuitUnknown)
    }

    /// Records that `circuit_id` was seen active at `now`: a watched circuit
    /// has its watch extended, its classes unchanged and no entry added; any
    /// other circuit is admitted as by `add_watched_queue`.
    pub fn still_watching(&mut self, circuit_id: &str, circuits: &Vec<CircuitClasses>, now: u64) -> (r: Result<(), WatchError>)
        requires
            old(self).wf(),
            now <= u64::MAX - WATCH_TTL_SECONDS,
        ensures
            final(self).wf(),
            final(self).spec_capacity() == old(self).spec_capacity(),
            (final(self)@, r) == spec_refresh_or_add(old(self)@, old(self).spec_capacity(), circuits@, circuit_id@, now),
    {
        match self.position(circuit_id) {
            Some(i) => {
                let ghost old_view = self@;
                let mut q = self.queues.remove(i);
                q.refresh_timer(now);
                self.queues.insert(i, q);
                let ghost expected = spec_refresh_or_add(old_view, self.spec_capacity(), circuits@, circuit_id@, now).0;
                assert forall|j: int| 0 <= j < old_view.len() implies #[trigger] self@[j] == expected[j] by {
                    if j != i {
                        assert(old_view[j].circuit_id != circuit_id@ || j == i);
                    }
                }
                assert(self@ =~= expected);
                Ok(())
            },
            None => self.add_watched_queue(circuit_id, circuits, now),
        }
    }

    /// Drops every watch that has lapsed at `now` (its expiry is `now` or earlier).
    pub fn expire_watched_queues(&mut self, now: u64)
        requires
            old(self).wf(),
        ensures
            final(self).wf(),
            final(self).spec_capacity() == old(self).spec_capacity(),
            final(self)@ == unexpired(old(self)@, now),
    {
        let ghost old_view = self@;
        let mut kept: Vec<WatchedQueue> = Vec::new();
        let mut rest: Vec<WatchedQueue> = Vec::new();
        std::mem::swap(&mut rest, &mut self.queues);
        assert(rest@.map_values(|q: WatchedQueue| q@) =~= old_view);
        let mut i: usize = 0;
        let n = rest.len();
        while rest.len() > 0
            invariant
                rest@.len() + i == n,
                n == old_view.len(),
                forall|j: int| 0 <= j < rest@.len() ==> (#[trigger] rest@[j])@ == old_view[i + j],
                kept@.map_values(|q: WatchedQueue| q@) == unexpired(old_view.take(i as int), now),
            decreases rest@.len(),
        {
            let ghost prev_rest = rest@;
            let q = rest.remove(0);
            let ghost pre = old_view.take(i as int);
            let ghost next = old_view.take(i + 1);
            assert(next.drop_last() =~= pre);
            assert(next.last() == q@);
            if q.expires_unix_time > now {
                kept.push(q);
                assert(kept@.map_values(|q: WatchedQueue| q@) =~= unexpired(pre, now).push(next.last()));
            }
            i = i + 1;
            assert forall|j: int| 0 <= j < rest@.len() implies (#[trigger] rest@[j])@ == old_view[i + j] by {
                assert(rest@[j] == prev_rest[j + 1]);
            }
        }
        assert(old_view.take(i as int) =~= old_view);
        proof {
            lemma_unexpired(old_view, now);
        }
        self.queues = kept;
    }

    /// The watched circuits with their download and upload classes, in the
    /// order in which they were admitted.
    pub fn snapshot_for_polling(&self) -> (r: Vec<(String, TcHandle, TcHandle)>)
        ensures
            r@.len() == self@.len(),
            forall|i: int| 0 <= i < self@.len() ==> {
                &&& (#[trigger] r@[i]).0@ == self@[i].circuit_id
                &&& r@[i].1 == self@[i].download_class
                &&& r@[i].2 == self@[i].upload_class
            },
    {
        let mut r: Vec<(String, TcHandle, TcHandle)> = Vec::new();
        let mut i: usize = 0;
        while i < self.queues.len()
            invariant
                i <= self@.len(),
                self@.len() == self.queues@.len(),
                r@.len() == i,
                forall|j: int| 0 <= j < i ==> {
                    &&& (#[trigger] r@[j]).0@ == self@[j].circuit_id
                    &&& r@[j].1 == self@[j].download_class
                    &&& r@[j].2 == self@[j].upload_class
                },
            decreases self.queues@.len() - i,
        {
            let (id, down, up) = self.queues[i].get();
            r.push((String::from_str(id), down, up));
            i = i + 1;
        }
        r
    }
}

/// The watches after admitting each id of `ids` in turn at `now`.
pub open spec fn admit_all(s: Seq<WatchView>, cap: nat, c: Seq<CircuitClasses>, ids: Seq<Seq<char>>, now: u64) -> Seq<WatchView>
    decreases ids.len(),
{
    if ids.len() == 0 {
        s
    } else {
        spec_admit(admit_all(s, cap, c, ids.drop_last(), now), cap, c, ids.last(), now).0
    }
}

/// A watch made at `t0` is still held at `t0 + 9` and survives a sweep
/// then; a sweep at `t0 + 11` removes it.
pub proof fn lemma_watch_lapses(s: Seq<WatchView>, cap: nat, c: Seq<CircuitClasses>, id: Seq<char>, t0: u64)
    requires
        ids_unique(s),
        t0 <= u64::MAX - 11,
        spec_admit(s, cap, c, id, t0).1 is Ok,
    ensures
        watches(spec_admit(s, cap, c, id, t0).0, id),
        watches(unexpired(spec_admit(s, cap, c, id, t0).0, (t0 + 9) as u64), id),
        !watches(unexpired(spec_admit(s, cap, c, id, t0).0, (t0 + 11) as u64), id),
{
    let s1 = spec_admit(s, cap, c, id, t0).0;
    let last = s1.len() - 1;
    assert(s1[last].circuit_id == id);
    assert(s1[last].expires == t0 + 10);
    assert(ids_unique(s1)) by {
        assert forall|a: int, b: int| 0 <= a < b < s1.len() implies (#[trigger] s1[a]).circuit_id != (#[trigger] s1[b]).circuit_id by {
            if b == last {
                assert(s[a] == s1[a]);
            } else {
                assert(s[a] == s1[a] && s[b] == s1[b]);
            }
        }
    }
    lemma_unexpired(s1, (t0 + 9) as u64);
    lemma_unexpired(s1, (t0 + 11) as u64);
    let u9 = unexpired(s1, (t0 + 9) as u64);
    let k = choose|k: int| 0 <= k < u9.len() && u9[k] == s1[last];
    assert(u9[k].circuit_id == id);
    let u11 = unexpired(s1, (t0 + 11) as u64);
    if watches(u11, id) {
        let j = choose|j: int| 0 <= j < u11.len() && (#[trigger] u11[j]).circuit_id == id;
        assert(s1.contains(u11[j]));
        let m = choose|m: int| 0 <= m < s1.len() && s1[m] == u11[j];
        assert(m == last);
    }
}

proof fn lemma_admit_prefix(cap: nat, c: Seq<CircuitClasses>, ids: Seq<Seq<char>>, now: u64, n: int)
    requires
        0 <= n <= ids.len() <= cap,
        now <= u64::MAX - WATCH_TTL_SECONDS,
        ids.no_duplicates(),
        forall|i: int| 0 <= i < ids.len() ==> (#[trigger] first_circuit(c, ids[i])).is_some(),
    ensures
        admit_all(Seq::empty(), cap, c, ids.take(n), now).len() == n,
        forall|i: int| 0 <= i < n ==> (#[trigger] admit_all(Seq::empty(), cap, c, ids.take(n), now)[i]).circuit_id == ids[i],
    decreases n,
{
    if n > 0 {
        lemma_admit_prefix(cap, c, ids, now, n - 1);
        assert(ids.take(n).drop_last() =~= ids.take(n - 1));
        let prev = admit_all(Seq::empty(), cap, c, ids.take(n - 1), now);
        assert(ids.take(n).last() == ids[n - 1]);
        assert(!watches(prev, ids[n - 1])) by {
            if watches(prev, ids[n - 1]) {
                let j = choose|j: int| 0 <= j < prev.len() && (#[trigger] prev[j]).circuit_id == ids[n - 1];
                assert(ids[j] == ids[n - 1]);
            }
        }
        assert(first_circuit(c, ids[n - 1]).is_some());
    }
}

/// A registry of capacity `cap` admits `cap` distinct known circuits one
/// after another, each with success; the next distinct known circuit is
/// refused as `RegistryFull`, and the registry keeps its `cap` watches.
pub proof fn lemma_capacity_bound(cap: nat, c: Seq<CircuitClasses>, ids: Seq<Seq<char>>, extra: Seq<char>, now: u64)
    requires
        ids.len() == cap,
        now <= u64::MAX - WATCH_TTL_SECONDS,
        ids.no_duplicates(),
        forall|i: int| 0 <= i < ids.len() ==> (#[trigger] first_circuit(c, ids[i])).is_some(),
        !ids.contains(extra),
        first_circuit(c, extra).is_some(),
    ensures
        forall|k: int| 0 <= k < cap ==>
            (#[trigger] spec_admit(admit_all(Seq::empty(), cap, c, ids.take(k), now), cap, c, ids[k], now)).1 is Ok,
        admit_all(Seq::empty(), cap, c, ids, now).len() == cap,
        spec_admit(admit_all(Seq::empty(), cap, c, ids, now), cap, c, extra, now)
            == (admit_all(Seq::empty(), cap, c, ids, now), Err::<(), WatchError>(WatchError::RegistryFull)),
{
    assert forall|k: int| 0 <= k < cap implies
        (#[trigger] spec_admit(admit_all(Seq::empty(), cap, c, ids.take(k), now), cap, c, ids[k], now)).1 is Ok by {
        lemma_admit_prefix(cap, c, ids, now, k);
        let prev = admit_all(Seq::empty(), cap, c, ids.take(k), now);
        if watches(prev, ids[k]) {
            let j = choose|j: int| 0 <= j < prev.len() && (#[trigger] prev[j]).circuit_id == ids[k];
            assert(ids[j] == ids[k]);
        }
        assert(first_circuit(c, ids[k]).is_some());
    }
    lemma_admit_prefix(cap, c, ids, now, cap as int);
    assert(ids.take(cap as int) =~= ids);
    let s = admit_all(Seq::empty(), cap, c, ids, now);
    if watches(s, extra) {
        let j = choose|j: int| 0 <= j < s.len() && (#[trigger] s[j]).circuit_id == extra;
        assert(ids[j] == extra);
    }
}

/// Seeing a watched circuit active extends its watch to `now + 10`, keeps
/// its classes and position, adds no entry, and leaves the other watches as
/// they were.
pub proof fn lemma_refresh_extends(s: Seq<WatchView>, cap: nat, c: Seq<CircuitClasses>, id: Seq<char>, now: u64)
    requires
        ids_unique(s),
        watches(s, id),
        now <= u64::MAX - WATCH_TTL_SECONDS,
    ensures
        spec_refresh_or_add(s, cap, c, id, now).1 is Ok,
        spec_refresh_or_add(s, cap, c, id, now).0.len() == s.len(),
        ids_unique(spec_refresh_or_add(s, cap, c, id, now).0),
        forall|i: int| 0 <= i < s.len() ==> {
            let w = #[trigger] spec_refresh_or_add(s, cap, c, id, now).0[i];
            &&& w.circuit_id == s[i].circuit_id
            &&& w.download_class == s[i].download_class
            &&& w.upload_class == s[i].upload_class
            &&& w.expires == if s[i].circuit_id == id { now + 10 } else { s[i].expires as int }
        },
{
    let r = spec_refresh_or_add(s, cap, c, id, now).0;
    assert forall|a: int, b: int| 0 <= a < b < r.len() implies (#[trigger] r[a]).circuit_id != (#[trigger] r[b]).circuit_id by {
        assert(r[a].circuit_id == s[a].circuit_id && r[b].circuit_id == s[b].circuit_id);
    }
}

} // verus!
