use vstd::prelude::*;

use crate::duration::{Duration, TICKS_PER_DAY};

verus! {

/// How a trip is made.
#[derive(Clone, Copy, Debug, PartialEq, Eq, Structural, PartialOrd, Ord, Hash)]
pub enum TripMode {
    Walk,
    Bike,
    Transit,
    Drive,
}

/// A set of trip modes.
#[derive(Clone, Copy, Debug, PartialEq, Eq, Structural)]
pub struct ModeSet {
    pub walk: bool,
    pub bike: bool,
    pub transit: bool,
    pub drive: bool,
}

impl ModeSet {
    pub open spec fn has(self, m: TripMode) -> bool {
        match m {
            TripMode::Walk => self.walk,
            TripMode::Bike => self.bike,
            TripMode::Transit => self.transit,
            TripMode::Drive => self.drive,
        }
    }

    pub open spec fn empty_spec(self) -> bool {
        !self.walk && !self.bike && !self.transit && !self.drive
    }

    /// The set with no mode.
    pub fn none() -> (r: ModeSet)
        ensures
            forall|m: TripMode| !r.has(m),
    {
        ModeSet { walk: false, bike: false, transit: false, drive: false }
    }

    /// The set holding `m` alone.
    pub fn only(m: TripMode) -> (r: ModeSet)
        ensures
            forall|x: TripMode| r.has(x) == (x == m),
    {
        let mut r = ModeSet::none();
        r.insert(m);
        r
    }

    pub fn contains(&self, m: TripMode) -> (r: bool)
        ensures
            r == self.has(m),
    {
        match m {
            TripMode::Walk => self.walk,
            TripMode::Bike => self.bike,
            TripMode::Transit => self.transit,
            TripMode::Drive => self.drive,
        }
    }

    pub fn is_empty(&self) -> (r: bool)
        ensures
            r == self.empty_spec(),
            r == (forall|m: TripMode| !self.has(m)),
    {
        proof {
            assert(!self.has(TripMode::Walk) && !self.has(TripMode::Bike) && !self.has(
                TripMode::Transit,
            ) && !self.has(TripMode::Drive) ==> forall|m: TripMode| !self.has(m));
        }
        !self.walk && !self.bike && !self.transit && !self.drive
    }

    pub fn insert(&mut self, m: TripMode)
        ensures
            forall|x: TripMode| final(self).has(x) == (old(self).has(x) || x == m),
    {
        match m {
            TripMode::Walk => self.walk = true,
            TripMode::Bike => self.bike = true,
            TripMode::Transit => self.transit = true,
            TripMode::Drive => self.drive = true,
        }
    }

    pub fn remove(&mut self, m: TripMode)
        ensures
            forall|x: TripMode| final(self).has(x) == (old(self).has(x) && x != m),
    {
        match m {
            TripMode::Walk => self.walk = false,
            TripMode::Bike => self.bike = false,
            TripMode::Transit => self.transit = false,
            TripMode::Drive => self.drive = false,
        }
    }
}

/// One trip: how, when (from the start of the first day), and between which places.
#[derive(Clone, Copy, Debug, PartialEq, Eq, Structural)]
pub struct Trip {
    pub mode: TripMode,
    pub departure: Duration,
    pub origin: u64,
    pub destination: u64,
}

/// The travel demand of one map: a named, ordered list of trips.
#[derive(Clone, Debug)]
pub struct Scenario {
    pub map_name: String,
    pub scenario_name: String,
    pub trips: Vec<Trip>,
}

/// The half-open window `[start, end)` of departures.
#[derive(Clone, Copy, Debug, PartialEq, Eq, Structural)]
pub struct TimeRange {
    pub start: Duration,
    pub end: Duration,
}

/// A transform from one scenario to a derived one.
#[derive(Debug)]
pub enum ScenarioModifier {
    /// Reassigns a percentage of the trips of the given modes that depart in
    /// `departure_filter`; `to_mode` none cancels them.
    ChangeMode {
        to_mode: Option<TripMode>,
        pct_ppl: u64,
        departure_filter: TimeRange,
        from_modes: ModeSet,
    },
    /// Repeats every trip on this many consecutive days.
    RepeatDays(u64),
    /// Appends the trips of another scenario of the same map.
    AddExtraTrips(String),
}

impl Clone for ScenarioModifier {
    fn clone(&self) -> (r: Self)
        ensures
            r == *self,
    {
        match self {
            ScenarioModifier::ChangeMode { to_mode, pct_ppl, departure_filter, from_modes } => {
                ScenarioModifier::ChangeMode {
                    to_mode: *to_mode,
                    pct_ppl: *pct_ppl,
                    departure_filter: *departure_filter,
                    from_modes: *from_modes,
                }
            },
            ScenarioModifier::RepeatDays(n) => ScenarioModifier::RepeatDays(*n),
            ScenarioModifier::AddExtraTrips(name) => ScenarioModifier::AddExtraTrips(name.clone()),
        }
    }
}

/// Why a list of modifiers could not be applied.
#[derive(Clone, Copy, Debug, PartialEq, Eq, Structural)]
pub enum ModifierError {
    EmptyModeSet,
    BackwardsTimeRange,
    BadPercent,
    TooFewDays,
    TimeOverflow,
    TooManyTrips,
    MissingScenario,
}

/// One step of the xorshift generator that drives random choices.
pub open spec fn rng_next(x: u64) -> u64 {
    let a = x ^ (x << 13u64);
    let b = a ^ (a >> 7u64);
    b ^ (b << 17u64)
}

/// The generator state for a seed; zero would be a fixed point, so it is replaced.
pub open spec fn rng_start(seed: u64) -> u64 {
    if seed == 0 {
        0x9E37_79B9_7F4A_7C15u64
    } else {
        seed
    }
}

fn next_state(x: u64) -> (r: u64)
    ensures
        r == rng_next(x),
{
    let a = x ^ (x << 13u64);
    let b = a ^ (a >> 7u64);
    b ^ (b << 17u64)
}

fn start_state(seed: u64) -> (r: u64)
    ensures
        r == rng_start(seed),
{
    if seed == 0 {
        0x9E37_79B9_7F4A_7C15u64
    } else {
        seed
    }
}

/// Whether a trip is subject to a mode change.
pub open spec fn trip_matches(t: Trip, lo: i64, hi: i64, from: ModeSet) -> bool {
    from.has(t.mode) && lo <= t.departure.ticks < hi
}

/// The trips after a mode change, and the generator state after it. Each matching trip
/// draws one number; it is picked when that number modulo 100 is below `pct`.
pub open spec fn change_mode_spec(
    trips: Seq<Trip>,
    state: u64,
    to: Option<TripMode>,
    pct: u64,
    lo: i64,
    hi: i64,
    from: ModeSet,
) -> (Seq<Trip>, u64)
    decreases trips.len(),
{
    if trips.len() == 0 {
        (trips, state)
    } else {
        let prev = change_mode_spec(trips.drop_last(), state, to, pct, lo, hi, from);
        let t = trips.last();
        if trip_matches(t, lo, hi, from) {
            let st = rng_next(prev.1);
            if st % 100 < pct {
                match to {
                    None => (prev.0, st),
                    Some(m) => (
                        prev.0.push(
                            Trip {
                                mode: m,
                                departure: t.departure,
                                origin: t.origin,
                                destination: t.destination,
                            },
                        ),
                        st,
                    ),
                }
            } else {
                (prev.0.push(t), st)
            }
        } else {
            (prev.0.push(t), prev.1)
        }
    }
}

/// A trip moved `k` days later.
pub open spec fn shifted(t: Trip, k: int) -> Trip {
    Trip {
        mode: t.mode,
        departure: Duration { ticks: (t.departure.ticks + k * TICKS_PER_DAY) as i64 },
        origin: t.origin,
        destination: t.destination,
    }
}

/// The whole trip list once per day for `n` days, day after day.
pub open spec fn repeat_spec(trips: Seq<Trip>, n: nat) -> Seq<Trip> {
    Seq::new(n * trips.len(), |j: int| shifted(trips[j % trips.len() as int], j / trips.len() as int))
}

/// Whether every shifted departure still fits.
pub open spec fn repeat_fits(trips: Seq<Trip>, n: nat) -> bool {
    forall|i: int| 0 <= i < trips.len() ==> trips[i].departure.ticks + (n - 1) * TICKS_PER_DAY <= i64::MAX
}

/// Whether `s` is the scenario called `name` on map `map`.
pub open spec fn is_sibling(s: Scenario, map: Seq<char>, name: Seq<char>) -> bool {
    s.map_name@ == map && s.scenario_name@ == name
}

pub open spec fn has_sibling(sibs: Seq<Scenario>, map: Seq<char>, name: Seq<char>) -> bool {
    exists|j: int| 0 <= j < sibs.len() && is_sibling(sibs[j], map, name)
}

/// The first scenario called `name` on map `map`.
pub open spec fn first_sibling(sibs: Seq<Scenario>, map: Seq<char>, name: Seq<char>) -> int {
    choose|j: int|
        0 <= j < sibs.len() && is_sibling(sibs[j], map, name) && forall|k: int|
            0 <= k < j ==> !is_sibling(#[trigger] sibs[k], map, name)
}

/// One modifier applied to a trip list, with the generator state threaded through.
pub open spec fn apply_one(
    trips: Seq<Trip>,
    m: ScenarioModifier,
    state: u64,
    map: Seq<char>,
    sibs: Seq<Scenario>,
) -> Result<(Seq<Trip>, u64), ModifierError> {
    match m {
        ScenarioModifier::ChangeMode { to_mode, pct_ppl, departure_filter, from_modes } => {
            if from_modes.empty_spec() {
                Err(ModifierError::EmptyModeSet)
            } else if departure_filter.start.ticks >= departure_filter.end.ticks {
                Err(ModifierError::BackwardsTimeRange)
            } else if pct_ppl < 1 || pct_ppl > 100 {
                Err(ModifierError::BadPercent)
            } else {
                Ok(
                    change_mode_spec(
                        trips,
                        state,
                        to_mode,
                        pct_ppl,
                        departure_filter.start.ticks,
                        departure_filter.end.ticks,
                        from_modes,
                    ),
                )
            }
        },
        ScenarioModifier::RepeatDays(n) => {
            if n < 2 {
                Err(ModifierError::TooFewDays)
            } else if !repeat_fits(trips, n as nat) {
                Err(ModifierError::TimeOverflow)
            } else if n * trips.len() > usize::MAX {
                Err(ModifierError::TooManyTrips)
            } else {
                Ok((repeat_spec(trips, n as nat), state))
            }
        },
        ScenarioModifier::AddExtraTrips(name) => {
            if !has_sibling(sibs, map, name@) {
                Err(ModifierError::MissingScenario)
            } else {
                let extra = sibs[first_sibling(sibs, map, name@)].trips@;
                if trips.len() + extra.len() > usize::MAX {
                    Err(ModifierError::TooManyTrips)
                } else {
                    Ok((trips + extra, state))
                }
            }
        },
    }
}

/// The modifiers applied in list order, each to the output of the one before.
pub open spec fn apply_all(
    trips: Seq<Trip>,
    mods: Seq<ScenarioModifier>,
    state: u64,
    map: Seq<char>,
    sibs: Seq<Scenario>,
) -> Result<(Seq<Trip>, u64), ModifierError>
    decreases mods.len(),
{
    if mods.len() == 0 {
        Ok((trips, state))
    } else {
        match apply_all(trips, mods.drop_last(), state, map, sibs) {
            Err(e) => Err(e),
            Ok(p) => apply_one(p.0, mods.last(), p.1, map, sibs),
        }
    }
}

fn change_mode_trips(
    trips: &Vec<Trip>,
    state: u64,
    to: Option<TripMode>,
    pct: u64,
    range: TimeRange,
    from: ModeSet,
) -> (r: (Vec<Trip>, u64))
    ensures
        (r.0@, r.1) == change_mode_spec(trips@, state, to, pct, range.start.ticks, range.end.ticks, from),
{
    let mut out: Vec<Trip> = Vec::new();
    let mut st = state;
    let mut i: usize = 0;
    while i < trips.len()
        invariant
            i <= trips@.len(),
            (out@, st) == change_mode_spec(
                trips@.subrange(0, i as int),
                state,
                to,
                pct,
                range.start.ticks,
                range.end.ticks,
                from,
            ),
        decreases trips@.len() - i,
    {
        let t = trips[i];
        assert(trips@.subrange(0, i + 1).drop_last() =~= trips@.subrange(0, i as int));
        if from.contains(t.mode) && range.start.ticks <= t.departure.ticks && t.departure.ticks
            < range.end.ticks {
            st = next_state(st);
            if st % 100 < pct {
                match to {
                    None => {},
                    Some(m) => {
                        out.push(
                            Trip {
                                mode: m,
                                departure: t.departure,
                                origin: t.origin,
                                destination: t.destination,
                            },
                        );
                    },
                }
            } else {
                out.push(t);
            }
        } else {
            out.push(t);
        }
        i = i + 1;
    }
    assert(trips@.subrange(0, trips@.len() as int) =~= trips@);
    (out, st)
}

fn shift_trip(t: Trip, k: u64) -> (r: Trip)
    requires
        t.departure.ticks + k * TICKS_PER_DAY <= i64::MAX,
    ensures
        r == shifted(t, k as int),
{
    let ticks: i128 = (t.departure.ticks as i128) + (k as i128) * (TICKS_PER_DAY as i128);
    Trip {
        mode: t.mode,
        departure: Duration { ticks: ticks as i64 },
        origin: t.origin,
        destination: t.destination,
    }
}

fn repeat_trips(trips: &Vec<Trip>, n: u64) -> (r: Result<Vec<Trip>, ModifierError>)
    requires
        n >= 2,
    ensures
        !repeat_fits(trips@, n as nat) ==> r == Err::<Vec<Trip>, ModifierError>(
            ModifierError::TimeOverflow,
        ),
        repeat_fits(trips@, n as nat) && n * trips@.len() > usize::MAX ==> r == Err::<
            Vec<Trip>,
            ModifierError,
        >(ModifierError::TooManyTrips),
        repeat_fits(trips@, n as nat) && n * trips@.len() <= usize::MAX ==> r is Ok && r->Ok_0@
            == repeat_spec(trips@, n as nat),
{
    let len = trips.len();
    let span: i128 = ((n - 1) as i128) * (TICKS_PER_DAY as i128);
    let mut i: usize = 0;
    while i < len
        invariant
            len == trips@.len(),
            i <= len,
            span == (n - 1) * TICKS_PER_DAY,
            forall|j: int| 0 <= j < i ==> trips@[j].departure.ticks + (n - 1) * TICKS_PER_DAY <= i64::MAX,
        decreases len - i,
    {
        if (trips[i].departure.ticks as i128) + span > (i64::MAX as i128) {
            return Err(ModifierError::TimeOverflow);
        }
        i = i + 1;
    }
    assert((n as u128) * (len as u128) <= u128::MAX) by (nonlinear_arith)
        requires
            n <= u64::MAX,
            len <= usize::MAX,
            usize::MAX <= u64::MAX,
    ;
    if (n as u128) * (len as u128) > (usize::MAX as u128) {
        return Err(ModifierError::TooManyTrips);
    }
    let mut out: Vec<Trip> = Vec::new();
    if len == 0 {
        assert(out@ =~= repeat_spec(trips@, n as nat));
        return Ok(out);
    }
    let ghost f = |j: int| shifted(trips@[j % len as int], j / len as int);
    let mut k: u64 = 0;
    while k < n
        invariant
            len == trips@.len(),
            len > 0,
            k <= n,
            n * len <= usize::MAX,
            repeat_fits(trips@, n as nat),
            f == (|j: int| shifted(trips@[j % len as int], j / len as int)),
            out@ =~= Seq::new((k * len) as nat, f),
        decreases n - k,
    {
        let mut i: usize = 0;
        while i < len
            invariant
                len == trips@.len(),
                len > 0,
                k < n,
                i <= len,
                n * len <= usize::MAX,
                repeat_fits(trips@, n as nat),
                f == (|j: int| shifted(trips@[j % len as int], j / len as int)),
                out@ =~= Seq::new((k * len + i) as nat, f),
            decreases len - i,
        {
            proof {
                assert(k * TICKS_PER_DAY <= (n - 1) * TICKS_PER_DAY) by (nonlinear_arith)
                    requires
                        k < n,
                ;
                vstd::arithmetic::div_mod::lemma_fundamental_div_mod_converse(
                    k * len + i,
                    len as int,
                    k as int,
                    i as int,
                );
                assert(k * len + i < n * len) by (nonlinear_arith)
                    requires
                        k < n,
                        i < len,
                ;
            }
            out.push(shift_trip(trips[i], k));
            i = i + 1;
            assert(out@ =~= Seq::new((k * len + i) as nat, f));
        }
        k = k + 1;
        assert((k - 1) * len + len == k * len) by (nonlinear_arith);
    }
    assert(out@ =~= repeat_spec(trips@, n as nat));
    Ok(out)
}

fn find_sibling(sibs: &Vec<Scenario>, map: &String, name: &String) -> (r: Option<usize>)
    ensures
        r is None <==> !has_sibling(sibs@, map@, name@),
        r is Some ==> r->Some_0 == first_sibling(sibs@, map@, name@) && r->Some_0 < sibs@.len(),
{
    let mut i: usize = 0;
    while i < sibs.len()
        invariant
            i <= sibs@.len(),
            forall|k: int| 0 <= k < i ==> !is_sibling(#[trigger] sibs@[k], map@, name@),
        decreases sibs@.len() - i,
    {
        if sibs[i].map_name == *map && sibs[i].scenario_name == *name {
            let ghost j = first_sibling(sibs@, map@, name@);
            proof {
                assert(has_sibling(sibs@, map@, name@));
                assert(is_sibling(sibs@[i as int], map@, name@));
                if j < i {
                    assert(!is_sibling(sibs@[j], map@, name@));
                } else if j > i {
                    assert(!is_sibling(sibs@[i as int], map@, name@));
                }
            }
            return Some(i);
        }
        i = i + 1;
    }
    None
}

fn apply_modifier(
    trips: &Vec<Trip>,
    m: &ScenarioModifier,
    state: u64,
    map: &String,
    sibs: &Vec<Scenario>,
) -> (r: Result<(Vec<Trip>, u64), ModifierError>)
    ensures
        match (r, apply_one(trips@, *m, state, map@, sibs@)) {
            (Ok(a), Ok(b)) => a.0@ == b.0 && a.1 == b.1,
            (Err(a), Err(b)) => a == b,
            _ => false,
        },
{
    match m {
        ScenarioModifier::ChangeMode { to_mode, pct_ppl, departure_filter, from_modes } => {
            if from_modes.is_empty() {
                Err(ModifierError::EmptyModeSet)
            } else if departure_filter.start.ticks >= departure_filter.end.ticks {
                Err(ModifierError::BackwardsTimeRange)
            } else if *pct_ppl < 1 || *pct_ppl > 100 {
                Err(ModifierError::BadPercent)
            } else {
                Ok(
                    change_mode_trips(
                        trips,
                        state,
                        *to_mode,
                        *pct_ppl,
                        *departure_filter,
                        *from_modes,
                    ),
                )
            }
        },
        ScenarioModifier::RepeatDays(n) => {
            if *n < 2 {
                Err(ModifierError::TooFewDays)
            } else {
                match repeat_trips(trips, *n) {
                    Ok(v) => Ok((v, state)),
                    Err(e) => Err(e),
                }
            }
        },
        ScenarioModifier::AddExtraTrips(name) => {
            match find_sibling(sibs, map, name) {
                None => Err(ModifierError::MissingScenario),
                Some(j) => {
                    let extra = &sibs[j].trips;
                    if extra.len() > usize::MAX - trips.len() {
                        Err(ModifierError::TooManyTrips)
                    } else {
                        let mut out: Vec<Trip> = Vec::new();
                        let mut i: usize = 0;
                        while i < trips.len()
                            invariant
                                i <= trips@.len(),
                                out@ =~= trips@.subrange(0, i as int),
                            decreases trips@.len() - i,
                        {
                            out.push(trips[i]);
                            i = i + 1;
                        }
                        let mut i: usize = 0;
                        while i < extra.len()
                            invariant
                                i <= extra@.len(),
                                out@ =~= trips@ + extra@.subrange(0, i as int),
                            decreases extra@.len() - i,
                        {
                            out.push(extra[i]);
                            i = i + 1;
                        }
                        assert(out@ =~= trips@ + extra@);
                        Ok((out, state))
                    }
                }
            }
        },
    }
}

/// Applies the modifiers to the base scenario in list order, drawing random choices from
/// a generator seeded with `rng_seed`. `siblings` are the scenarios that `AddExtraTrips`
/// may take trips from; only those of the base scenario's map count. The base scenario is
/// left as it is; the result keeps its map and name.
pub fn apply(
    base: &Scenario,
    modifiers: &Vec<ScenarioModifier>,
    rng_seed: u64,
    siblings: &Vec<Scenario>,
) -> (r: Result<Scenario, ModifierError>)
    ensures
        match (r, apply_all(base.trips@, modifiers@, rng_start(rng_seed), base.map_name@, siblings@)) {
            (Ok(s), Ok(p)) => s.trips@ == p.0 && s.map_name@ == base.map_name@ && s.scenario_name@
                == base.scenario_name@,
            (Err(a), Err(b)) => a == b,
            _ => false,
        },
{
    let mut trips: Vec<Trip> = Vec::new();
    let mut i: usize = 0;
    while i < base.trips.len()
        invariant
            i <= base.trips@.len(),
            trips@ =~= base.trips@.subrange(0, i as int),
        decreases base.trips@.len() - i,
    {
        trips.push(base.trips[i]);
        i = i + 1;
    }
    assert(trips@ =~= base.trips@);
    let mut state = start_state(rng_seed);
    let ghost s0 = state;
    let mut k: usize = 0;
    while k < modifiers.len()
        invariant
            k <= modifiers@.len(),
            s0 == rng_start(rng_seed),
            apply_all(base.trips@, modifiers@.subrange(0, k as int), s0, base.map_name@, siblings@)
                == Ok::<(Seq<Trip>, u64), ModifierError>((trips@, state)),
        decreases modifiers@.len() - k,
    {
        assert(modifiers@.subrange(0, k + 1).drop_last() =~= modifiers@.subrange(0, k as int));
        match apply_modifier(&trips, &modifiers[k], state, &base.map_name, siblings) {
            Ok(p) => {
                trips = p.0;
                state = p.1;
            },
            Err(e) => {
                proof {
                    lemma_apply_all_err(base.trips@, modifiers@, k as int, s0, base.map_name@, siblings@);
                }
                return Err(e);
            },
        }
        k = k + 1;
    }
    assert(modifiers@.subrange(0, modifiers@.len() as int) =~= modifiers@);
    Ok(Scenario { map_name: base.map_name.clone(), scenario_name: base.scenario_name.clone(), trips })
}

/// Once a prefix of the modifiers fails, the whole list fails with the same error.
proof fn lemma_apply_all_err(
    trips: Seq<Trip>,
    mods: Seq<ScenarioModifier>,
    k: int,
    state: u64,
    map: Seq<char>,
    sibs: Seq<Scenario>,
)
    requires
        0 <= k < mods.len(),
        apply_all(trips, mods.subrange(0, k + 1), state, map, sibs) is Err,
    ensures
        apply_all(trips, mods, state, map, sibs) == apply_all(trips, mods.subrange(0, k + 1), state, map, sibs),
    decreases mods.len() - k,
{
    if k + 1 == mods.len() {
        assert(mods.subrange(0, k + 1) =~= mods);
    } else {
        assert(mods.subrange(0, k + 2).drop_last() =~= mods.subrange(0, k + 1));
        lemma_apply_all_err(trips, mods, k + 1, state, map, sibs);
    }
}

/// A mode change that picks every trip and has no target mode cancels exactly the trips
/// of the chosen modes that depart in the window, and keeps every other trip in order.
pub proof fn cancel_every_matching_trip(
    trips: Seq<Trip>,
    state: u64,
    range: TimeRange,
    from_modes: ModeSet,
    map: Seq<char>,
    sibs: Seq<Scenario>,
)
    requires
        !from_modes.empty_spec(),
        range.start.ticks < range.end.ticks,
    ensures
        apply_one(
            trips,
            ScenarioModifier::ChangeMode {
                to_mode: None,
                pct_ppl: 100,
                departure_filter: range,
                from_modes,
            },
            state,
            map,
            sibs,
        ) is Ok,
        apply_one(
            trips,
            ScenarioModifier::ChangeMode {
                to_mode: None,
                pct_ppl: 100,
                departure_filter: range,
                from_modes,
            },
            state,
            map,
            sibs,
        )->Ok_0.0 == trips.filter(
            |t: Trip| !trip_matches(t, range.start.ticks, range.end.ticks, from_modes),
        ),
{
    lemma_cancel_all(trips, state, range.start.ticks, range.end.ticks, from_modes);
}

proof fn lemma_cancel_all(trips: Seq<Trip>, state: u64, lo: i64, hi: i64, from: ModeSet)
    ensures
        change_mode_spec(trips, state, None, 100, lo, hi, from).0 == trips.filter(
            |t: Trip| !trip_matches(t, lo, hi, from),
        ),
    decreases trips.len(),
{
    reveal(Seq::filter);
    if trips.len() > 0 {
        lemma_cancel_all(trips.drop_last(), state, lo, hi, from);
        let st = rng_next(change_mode_spec(trips.drop_last(), state, None, 100, lo, hi, from).1);
        assert(st % 100 < 100);
    }
}

/// Repeating a scenario over `n` days gives `n` copies of every trip: the copy for day
/// `k` of trip `i` stands at `k * len + i`, departing `k` days after the trip it copies.
pub proof fn repeat_days_copies(
    trips: Seq<Trip>,
    n: u64,
    state: u64,
    map: Seq<char>,
    sibs: Seq<Scenario>,
    k: int,
    i: int,
)
    requires
        apply_one(trips, ScenarioModifier::RepeatDays(n), state, map, sibs) is Ok,
        0 <= k < n,
        0 <= i < trips.len(),
    ensures
        apply_one(trips, ScenarioModifier::RepeatDays(n), state, map, sibs)->Ok_0.0.len() == n
            * trips.len(),
        apply_one(trips, ScenarioModifier::RepeatDays(n), state, map, sibs)->Ok_0.0[k
            * trips.len() + i] == shifted(trips[i], k),
        shifted(trips[i], k).departure.ticks == trips[i].departure.ticks + k * TICKS_PER_DAY,
        shifted(trips[i], k).mode == trips[i].mode,
{
    let len = trips.len() as int;
    vstd::arithmetic::div_mod::lemma_fundamental_div_mod_converse(k * len + i, len, k, i);
    assert(k * len + i < n * len) by (nonlinear_arith)
        requires
            0 <= k < n,
            0 <= i < len,
    ;
    assert(k * TICKS_PER_DAY <= (n - 1) * TICKS_PER_DAY) by (nonlinear_arith)
        requires
            k < n,
    ;
    assert(trips[i].departure.ticks + (n - 1) * TICKS_PER_DAY <= i64::MAX);
}

} // verus!
