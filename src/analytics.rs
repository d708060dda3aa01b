use vstd::prelude::*;

use crate::duration::Duration;
use crate::scenario::TripMode;

verus! {

/// How long one finished trip took.
#[derive(Clone, Copy, Debug, PartialEq, Eq, Structural)]
pub struct TripResult {
    pub mode: TripMode,
    pub duration: Duration,
}

/// How long riders waited for a bus of one route at one stop.
#[derive(Clone, Debug, PartialEq, Eq)]
pub struct BusWait {
    pub route: String,
    pub wait: Duration,
}

/// The outcome of one simulation run.
#[derive(Clone, Debug, PartialEq, Eq)]
pub struct Analytics {
    pub finished_trips: Vec<TripResult>,
    pub bus_waits: Vec<BusWait>,
}

/// Whether a trip counts toward a metric over one mode, or over all trips.
pub open spec fn counts(t: TripResult, mode: Option<TripMode>) -> bool {
    match mode {
        None => true,
        Some(m) => t.mode == m,
    }
}

/// Total duration in ticks of the trips that count.
pub open spec fn trip_sum(s: Seq<TripResult>, mode: Option<TripMode>) -> int
    decreases s.len(),
{
    if s.len() == 0 {
        0
    } else {
        trip_sum(s.drop_last(), mode) + if counts(s.last(), mode) {
            s.last().duration.ticks as int
        } else {
            0
        }
    }
}

/// Number of trips that count.
pub open spec fn trip_count(s: Seq<TripResult>, mode: Option<TripMode>) -> nat
    decreases s.len(),
{
    if s.len() == 0 {
        0
    } else {
        trip_count(s.drop_last(), mode) + if counts(s.last(), mode) {
            1nat
        } else {
            0nat
        }
    }
}

/// Total wait in ticks at the stops of one route.
pub open spec fn wait_sum(s: Seq<BusWait>, route: Seq<char>) -> int
    decreases s.len(),
{
    if s.len() == 0 {
        0
    } else {
        wait_sum(s.drop_last(), route) + if s.last().route@ == route {
            s.last().wait.ticks as int
        } else {
            0
        }
    }
}

/// Number of waits recorded for one route.
pub open spec fn wait_count(s: Seq<BusWait>, route: Seq<char>) -> nat
    decreases s.len(),
{
    if s.len() == 0 {
        0
    } else {
        wait_count(s.drop_last(), route) + if s.last().route@ == route {
            1nat
        } else {
            0nat
        }
    }
}

/// The mean of `count` values summing to `sum`, rounded toward zero; zero when empty.
pub open spec fn mean(sum: int, count: nat) -> int {
    if count == 0 {
        0
    } else if sum >= 0 {
        sum / (count as int)
    } else {
        -((-sum) / (count as int))
    }
}

pub open spec fn mean_trip(a: Analytics, mode: Option<TripMode>) -> int {
    mean(trip_sum(a.finished_trips@, mode), trip_count(a.finished_trips@, mode))
}

pub open spec fn mean_wait(a: Analytics, route: Seq<char>) -> int {
    mean(wait_sum(a.bus_waits@, route), wait_count(a.bus_waits@, route))
}

/// Number of trips of `mode` that took less than `x` ticks.
pub open spec fn count_below(s: Seq<TripResult>, mode: TripMode, x: int) -> nat
    decreases s.len(),
{
    if s.len() == 0 {
        0
    } else {
        count_below(s.drop_last(), mode, x) + if s.last().mode == mode && s.last().duration.ticks < x {
            1nat
        } else {
            0nat
        }
    }
}

/// Number of trips of `mode` that took at most `x` ticks.
pub open spec fn count_upto(s: Seq<TripResult>, mode: TripMode, x: int) -> nat
    decreases s.len(),
{
    if s.len() == 0 {
        0
    } else {
        count_upto(s.drop_last(), mode, x) + if s.last().mode == mode && s.last().duration.ticks <= x {
            1nat
        } else {
            0nat
        }
    }
}

/// Whether `x` is the `k`-th smallest duration (from zero) of the trips of `mode`.
pub open spec fn is_kth(s: Seq<TripResult>, mode: TripMode, x: int, k: nat) -> bool {
    count_below(s, mode, x) <= k < count_upto(s, mode, x)
}

/// Whether trip `i` has the `k`-th smallest duration of its mode.
pub open spec fn kth_at(s: Seq<TripResult>, mode: TripMode, i: int, k: nat) -> bool {
    0 <= i < s.len() && s[i].mode == mode && is_kth(s, mode, s[i].duration.ticks as int, k)
}

/// The median duration, in ticks, of the trips of `mode`: the `n / 2`-th smallest of `n`
/// (counting from zero); zero when there is none.
pub open spec fn median_trip(a: Analytics, mode: TripMode) -> int {
    let s = a.finished_trips@;
    let k = trip_count(s, Some(mode)) / 2;
    if exists|i: int| kth_at(s, mode, i, k) {
        s[choose|i: int| kth_at(s, mode, i, k)].duration.ticks as int
    } else {
        0
    }
}

proof fn lemma_counts_ordered(s: Seq<TripResult>, mode: TripMode, x: int, y: int)
    requires
        x < y,
    ensures
        count_upto(s, mode, x) <= count_below(s, mode, y),
    decreases s.len(),
{
    if s.len() > 0 {
        lemma_counts_ordered(s.drop_last(), mode, x, y);
    }
}

proof fn lemma_kth_unique(s: Seq<TripResult>, mode: TripMode, x: int, y: int, k: nat)
    requires
        is_kth(s, mode, x, k),
        is_kth(s, mode, y, k),
    ensures
        x == y,
{
    if x < y {
        lemma_counts_ordered(s, mode, x, y);
    } else if y < x {
        lemma_counts_ordered(s, mode, y, x);
    }
}

fn count_around(v: &Vec<TripResult>, mode: TripMode, x: i64) -> (r: (u64, u64))
    ensures
        r.0 == count_below(v@, mode, x as int),
        r.1 == count_upto(v@, mode, x as int),
{
    let mut below: u64 = 0;
    let mut upto: u64 = 0;
    let mut i: usize = 0;
    while i < v.len()
        invariant
            i <= v@.len(),
            below <= upto <= i,
            below == count_below(v@.subrange(0, i as int), mode, x as int),
            upto == count_upto(v@.subrange(0, i as int), mode, x as int),
        decreases v@.len() - i,
    {
        assert(v@.subrange(0, i + 1).drop_last() =~= v@.subrange(0, i as int));
        let t = v[i];
        if t.mode == mode && t.duration.ticks < x {
            below = below + 1;
        }
        if t.mode == mode && t.duration.ticks <= x {
            upto = upto + 1;
        }
        i = i + 1;
    }
    assert(v@.subrange(0, v@.len() as int) =~= v@);
    (below, upto)
}

fn count_mode(v: &Vec<TripResult>, mode: TripMode) -> (r: u64)
    ensures
        r == trip_count(v@, Some(mode)),
{
    let mut n: u64 = 0;
    let mut i: usize = 0;
    while i < v.len()
        invariant
            i <= v@.len(),
            n <= i,
            n == trip_count(v@.subrange(0, i as int), Some(mode)),
        decreases v@.len() - i,
    {
        assert(v@.subrange(0, i + 1).drop_last() =~= v@.subrange(0, i as int));
        if v[i].mode == mode {
            n = n + 1;
        }
        i = i + 1;
    }
    assert(v@.subrange(0, v@.len() as int) =~= v@);
    n
}

const TICK_BOUND: i128 = 0x8000_0000_0000_0000;

proof fn lemma_step_bound(sum: int, count: int, x: int)
    requires
        0 <= count < u64::MAX,
        -(count * TICK_BOUND) <= sum <= count * (TICK_BOUND - 1),
        i64::MIN <= x <= i64::MAX,
    ensures
        -((count + 1) * TICK_BOUND) <= sum + x <= (count + 1) * (TICK_BOUND - 1),
        i128::MIN <= sum + x <= i128::MAX,
{
    assert((count + 1) * TICK_BOUND == count * TICK_BOUND + TICK_BOUND) by (nonlinear_arith);
    assert((count + 1) * (TICK_BOUND - 1) == count * (TICK_BOUND - 1) + TICK_BOUND - 1) by (nonlinear_arith);
    assert((count + 1) * TICK_BOUND <= u64::MAX * TICK_BOUND) by (nonlinear_arith)
        requires
            count + 1 <= u64::MAX,
    ;
    assert(u64::MAX * TICK_BOUND == 0x7FFF_FFFF_FFFF_FFFF_8000_0000_0000_0000int);
    assert((count + 1) * (TICK_BOUND - 1) <= (count + 1) * TICK_BOUND) by (nonlinear_arith)
        requires
            count >= 0,
    ;
}

fn mean_of(sum: i128, count: u64) -> (r: i64)
    requires
        -(count * TICK_BOUND) <= sum <= count * (TICK_BOUND - 1),
    ensures
        r == mean(sum as int, count as nat),
{
    if count == 0 {
        return 0;
    }
    let c = count as i128;
    if sum >= 0 {
        assert(sum / c <= TICK_BOUND - 1) by (nonlinear_arith)
            requires
                0 <= sum <= c * (TICK_BOUND - 1),
                c > 0,
        {
            vstd::arithmetic::div_mod::lemma_div_is_ordered(sum as int, c * (TICK_BOUND - 1), c as int);
            vstd::arithmetic::div_mod::lemma_div_multiples_vanish((TICK_BOUND - 1) as int, c as int);
        }
        (sum / c) as i64
    } else {
        let neg = -sum;
        assert(neg / c <= TICK_BOUND) by (nonlinear_arith)
            requires
                0 <= neg <= c * TICK_BOUND,
                c > 0,
        {
            vstd::arithmetic::div_mod::lemma_div_is_ordered(neg as int, c * TICK_BOUND, c as int);
            vstd::arithmetic::div_mod::lemma_div_multiples_vanish(TICK_BOUND as int, c as int);
        }
        assert(neg / c >= 0) by (nonlinear_arith)
            requires
                0 <= neg,
                c > 0,
        ;
        (-(neg / c)) as i64
    }
}

impl Analytics {
    /// A record of a run in which nothing finished.
    pub fn new() -> (r: Analytics)
        ensures
            r.finished_trips@.len() == 0,
            r.bus_waits@.len() == 0,
    {
        Analytics { finished_trips: Vec::new(), bus_waits: Vec::new() }
    }

    /// Mean duration of the finished trips of one mode, or of all trips.
    pub fn mean_trip_duration(&self, mode: Option<TripMode>) -> (r: Duration)
        ensures
            r.ticks == mean_trip(*self, mode),
    {
        let mut sum: i128 = 0;
        let mut count: u64 = 0;
        let mut i: usize = 0;
        let ghost s = self.finished_trips@;
        while i < self.finished_trips.len()
            invariant
                s == self.finished_trips@,
                i <= s.len(),
                count <= i,
                sum == trip_sum(s.subrange(0, i as int), mode),
                count == trip_count(s.subrange(0, i as int), mode),
                -(count * TICK_BOUND) <= sum <= count * (TICK_BOUND - 1),
            decreases s.len() - i,
        {
            assert(s.subrange(0, i + 1).drop_last() =~= s.subrange(0, i as int));
            let t = self.finished_trips[i];
            let hit = match mode {
                None => true,
                Some(m) => t.mode == m,
            };
            if hit {
                proof {
                    lemma_step_bound(sum as int, count as int, t.duration.ticks as int);
                }
                sum = sum + (t.duration.ticks as i128);
                count = count + 1;
            }
            i = i + 1;
        }
        assert(s.subrange(0, s.len() as int) =~= s);
        Duration { ticks: mean_of(sum, count) }
    }

    /// Median duration of the finished trips of one mode.
    pub fn median_trip_duration(&self, mode: TripMode) -> (r: Duration)
        ensures
            r.ticks == median_trip(*self, mode),
    {
        let ghost s = self.finished_trips@;
        let k = count_mode(&self.finished_trips, mode) / 2;
        let mut i: usize = 0;
        while i < self.finished_trips.len()
            invariant
                s == self.finished_trips@,
                k == trip_count(s, Some(mode)) / 2,
                i <= s.len(),
                forall|j: int| 0 <= j < i ==> !kth_at(s, mode, j, k as nat),
            decreases s.len() - i,
        {
            let t = self.finished_trips[i];
            if t.mode == mode {
                let (below, upto) = count_around(&self.finished_trips, mode, t.duration.ticks);
                if below <= k && k < upto {
                    proof {
                        assert(kth_at(s, mode, i as int, k as nat));
                        let c = choose|c: int| kth_at(s, mode, c, k as nat);
                        lemma_kth_unique(s, mode, s[c].duration.ticks as int, t.duration.ticks as int, k as nat);
                    }
                    return t.duration;
                }
            }
            i = i + 1;
        }
        Duration { ticks: 0 }
    }

    /// Mean wait at the stops of one bus route.
    pub fn mean_bus_wait(&self, route: &String) -> (r: Duration)
        ensures
            r.ticks == mean_wait(*self, route@),
    {
        let mut sum: i128 = 0;
        let mut count: u64 = 0;
        let mut i: usize = 0;
        let ghost s = self.bus_waits@;
        while i < self.bus_waits.len()
            invariant
                s == self.bus_waits@,
                i <= s.len(),
                count <= i,
                sum == wait_sum(s.subrange(0, i as int), route@),
                count == wait_count(s.subrange(0, i as int), route@),
                -(count * TICK_BOUND) <= sum <= count * (TICK_BOUND - 1),
            decreases s.len() - i,
        {
            assert(s.subrange(0, i + 1).drop_last() =~= s.subrange(0, i as int));
            if self.bus_waits[i].route == *route {
                proof {
                    lemma_step_bound(sum as int, count as int, self.bus_waits@[i as int].wait.ticks as int);
                }
                sum = sum + (self.bus_waits[i].wait.ticks as i128);
                count = count + 1;
            }
            i = i + 1;
        }
        assert(s.subrange(0, s.len() as int) =~= s);
        Duration { ticks: mean_of(sum, count) }
    }
}

/// One stored result, under the map and scenario it was computed for.
#[derive(Clone, Debug)]
pub struct StoredResult {
    pub map_name: String,
    pub scenario_name: String,
    pub analytics: Analytics,
}

/// The key of a stored result.
pub open spec fn key_of(e: StoredResult) -> (Seq<char>, Seq<char>) {
    (e.map_name@, e.scenario_name@)
}

/// What a list of stored results holds: a later entry with the same key wins.
pub open spec fn entries_map(s: Seq<StoredResult>) -> Map<(Seq<char>, Seq<char>), Analytics>
    decreases s.len(),
{
    if s.len() == 0 {
        Map::empty()
    } else {
        entries_map(s.drop_last()).insert(key_of(s.last()), s.last().analytics)
    }
}

proof fn lemma_absent(s: Seq<StoredResult>, k: (Seq<char>, Seq<char>))
    requires
        forall|i: int| 0 <= i < s.len() ==> key_of(#[trigger] s[i]) != k,
    ensures
        !entries_map(s).contains_key(k),
    decreases s.len(),
{
    if s.len() > 0 {
        assert(key_of(s[s.len() - 1]) != k);
        lemma_absent(s.drop_last(), k);
    }
}

proof fn lemma_last_value(s: Seq<StoredResult>, j: int, k: (Seq<char>, Seq<char>))
    requires
        0 <= j < s.len(),
        key_of(s[j]) == k,
        forall|i: int| j < i < s.len() ==> key_of(#[trigger] s[i]) != k,
    ensures
        entries_map(s).contains_key(k),
        entries_map(s)[k] == s[j].analytics,
    decreases s.len(),
{
    if j < s.len() - 1 {
        assert(key_of(s[s.len() - 1]) != k);
        lemma_last_value(s.drop_last(), j, k);
    }
}

proof fn lemma_update_last(s: Seq<StoredResult>, j: int, e: StoredResult)
    requires
        0 <= j < s.len(),
        key_of(s[j]) == key_of(e),
        forall|i: int| j < i < s.len() ==> key_of(#[trigger] s[i]) != key_of(e),
    ensures
        entries_map(s.update(j, e)) == entries_map(s).insert(key_of(e), e.analytics),
    decreases s.len(),
{
    if j == s.len() - 1 {
        assert(s.update(j, e).drop_last() =~= s.drop_last());
        assert(entries_map(s.update(j, e)) =~= entries_map(s).insert(key_of(e), e.analytics));
    } else {
        assert(key_of(s[s.len() - 1]) != key_of(e));
        assert(s.update(j, e).drop_last() =~= s.drop_last().update(j, e));
        lemma_update_last(s.drop_last(), j, e);
        assert(entries_map(s.update(j, e)) =~= entries_map(s).insert(key_of(e), e.analytics));
    }
}

/// Simulation results kept under (map name, scenario name).
#[derive(Clone, Debug)]
pub struct AnalyticsStore {
    entries: Vec<StoredResult>,
}

impl AnalyticsStore {
    pub closed spec fn view(&self) -> Map<(Seq<char>, Seq<char>), Analytics> {
        entries_map(self.entries@)
    }

    /// A store with nothing in it.
    pub fn new() -> (r: AnalyticsStore)
        ensures
            r@ == Map::<(Seq<char>, Seq<char>), Analytics>::empty(),
    {
        let r = AnalyticsStore { entries: Vec::new() };
        assert(r@ =~= Map::<(Seq<char>, Seq<char>), Analytics>::empty());
        r
    }

    fn find_last(&self, map_name: &String, scenario_name: &String) -> (r: Option<usize>)
        ensures
            r is None ==> forall|i: int|
                0 <= i < self.entries@.len() ==> key_of(#[trigger] self.entries@[i]) != (
                map_name@,
                scenario_name@,
            ),
            r is Some ==> r->Some_0 < self.entries@.len() && key_of(self.entries@[r->Some_0 as int])
                == (map_name@, scenario_name@) && forall|i: int|
                r->Some_0 < i < self.entries@.len() ==> key_of(#[trigger] self.entries@[i]) != (
                map_name@,
                scenario_name@,
            ),
    {
        let mut i: usize = self.entries.len();
        while i > 0
            invariant
                i <= self.entries@.len(),
                forall|j: int|
                    i <= j < self.entries@.len() ==> key_of(#[trigger] self.entries@[j]) != (
                    map_name@,
                    scenario_name@,
                ),
            decreases i,
        {
            i = i - 1;
            if self.entries[i].map_name == *map_name && self.entries[i].scenario_name
                == *scenario_name {
                return Some(i);
            }
        }
        None
    }

    /// Stores a result; a result stored earlier under the same key is replaced.
    pub fn save(&mut self, map_name: &String, scenario_name: &String, analytics: Analytics)
        ensures
            final(self)@ == old(self)@.insert((map_name@, scenario_name@), analytics),
    {
        let e = StoredResult {
            map_name: map_name.clone(),
            scenario_name: scenario_name.clone(),
            analytics,
        };
        match self.find_last(map_name, scenario_name) {
            Some(j) => {
                proof {
                    lemma_update_last(self.entries@, j as int, e);
                }
                self.entries.set(j, e);
            },
            None => {
                let ghost before = self.entries@;
                self.entries.push(e);
                assert(self.entries@.drop_last() =~= before);
            },
        }
    }

    /// The result stored under the key, if any.
    pub fn load(&self, map_name: &String, scenario_name: &String) -> (r: Option<&Analytics>)
        ensures
            r is Some <==> self@.contains_key((map_name@, scenario_name@)),
            r is Some ==> *r->Some_0 == self@[(map_name@, scenario_name@)],
    {
        match self.find_last(map_name, scenario_name) {
            Some(j) => {
                proof {
                    lemma_last_value(self.entries@, j as int, (map_name@, scenario_name@));
                }
                Some(&self.entries[j].analytics)
            },
            None => {
                proof {
                    lemma_absent(self.entries@, (map_name@, scenario_name@));
                }
                None
            },
        }
    }
}

/// Saving twice under one key leaves only the second result: it is what a load returns,
/// and the store is as if the first save had not happened.
pub proof fn save_twice_keeps_second(
    store: Map<(Seq<char>, Seq<char>), Analytics>,
    key: (Seq<char>, Seq<char>),
    first: Analytics,
    second: Analytics,
)
    ensures
        store.insert(key, first).insert(key, second).contains_key(key),
        store.insert(key, first).insert(key, second)[key] == second,
        store.insert(key, first).insert(key, second) == store.insert(key, second),
{
    assert(store.insert(key, first).insert(key, second) =~= store.insert(key, second));
}

} // verus!
