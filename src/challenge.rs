use vstd::prelude::*;

use crate::analytics::{mean_trip, mean_wait, median_trip, Analytics};
use crate::duration::{Duration, TICKS_PER_MINUTE, TICKS_PER_SECOND};
use crate::gameplay::GameplayMode;
use crate::scenario::TripMode;

verus! {

/// One entry of the challenge catalog.
#[derive(Debug)]
pub struct Challenge {
    pub title: String,
    pub description: Vec<String>,
    pub map_name: String,
    pub alias: String,
    pub gameplay: GameplayMode,
}

/// The outcome of an attempt, with the signed improvement over the baseline.
#[derive(Clone, Copy, Debug, PartialEq, Eq, Structural)]
pub enum Verdict {
    Pass(Duration),
    Fail(Duration),
}

/// Why an attempt could not be judged.
#[derive(Clone, Copy, Debug, PartialEq, Eq, Structural)]
pub enum EvalError {
    /// The mode has nothing to measure.
    NoObjective,
    /// No result of the unmodified scenario has been computed yet.
    MissingBaseline,
    /// The improvement does not fit in a duration.
    MarginOverflow,
}

/// How much better the attempt did than the baseline, in ticks, by the mode's own metric:
/// the mean trip time, the mean wait on a bus route, or the median trip time of one mode.
/// Gridlock counts worse as better. None for modes without an objective.
pub open spec fn improvement(mode: &GameplayMode, baseline: Analytics, attempt: Analytics) -> Option<
    int,
> {
    match mode {
        GameplayMode::FixTrafficSignalsTutorial(_) | GameplayMode::FixTrafficSignals => Some(
            mean_trip(baseline, None) - mean_trip(attempt, None),
        ),
        GameplayMode::OptimizeBus(route) => Some(
            mean_wait(baseline, route@) - mean_wait(attempt, route@),
        ),
        GameplayMode::CreateGridlock => Some(mean_trip(attempt, None) - mean_trip(baseline, None)),
        GameplayMode::FasterTrips(m) => Some(median_trip(baseline, *m) - median_trip(attempt, *m)),
        GameplayMode::PlayScenario(..) | GameplayMode::Freeform(_) => None,
    }
}

/// The improvement, in ticks, that an attempt must reach to pass.
pub open spec fn threshold(mode: &GameplayMode) -> int {
    match mode {
        GameplayMode::FixTrafficSignals => 30 * TICKS_PER_SECOND,
        GameplayMode::OptimizeBus(_) => 30 * TICKS_PER_SECOND,
        GameplayMode::FasterTrips(TripMode::Drive) => 5 * TICKS_PER_MINUTE,
        GameplayMode::FasterTrips(_) => TICKS_PER_MINUTE as int,
        _ => 0,
    }
}

/// What judging an attempt gives.
pub open spec fn evaluate_spec(
    mode: &GameplayMode,
    baseline: Option<Analytics>,
    attempt: Analytics,
) -> Result<Verdict, EvalError> {
    if mode is PlayScenario || mode is Freeform {
        Err(EvalError::NoObjective)
    } else if baseline is None {
        Err(EvalError::MissingBaseline)
    } else {
        let m = improvement(mode, baseline->Some_0, attempt)->Some_0;
        if m < i64::MIN || m > i64::MAX {
            Err(EvalError::MarginOverflow)
        } else if m >= threshold(mode) {
            Ok(Verdict::Pass(Duration { ticks: m as i64 }))
        } else {
            Ok(Verdict::Fail(Duration { ticks: m as i64 }))
        }
    }
}

fn threshold_of(mode: &GameplayMode) -> (r: i64)
    ensures
        r == threshold(mode),
{
    match mode {
        GameplayMode::FixTrafficSignals => 30 * TICKS_PER_SECOND,
        GameplayMode::OptimizeBus(_) => 30 * TICKS_PER_SECOND,
        GameplayMode::FasterTrips(TripMode::Drive) => 5 * TICKS_PER_MINUTE,
        GameplayMode::FasterTrips(_) => TICKS_PER_MINUTE,
        _ => 0,
    }
}

impl Challenge {
    pub fn new(
        title: String,
        description: Vec<String>,
        map_name: String,
        alias: String,
        gameplay: GameplayMode,
    ) -> (r: Challenge)
        ensures
            r.title == title,
            r.description == description,
            r.map_name == map_name,
            r.alias == alias,
            r.gameplay == gameplay,
    {
        Challenge { title, description, map_name, alias, gameplay }
    }

    /// Whether starting this challenge means loading another map than `current_map`.
    pub fn needs_map_switch(&self, current_map: &String) -> (r: bool)
        ensures
            r == (self.map_name@ != current_map@),
    {
        !(self.map_name == *current_map)
    }

    /// Judges an attempt against the baseline result of the same scenario.
    pub fn evaluate(&self, baseline: Option<&Analytics>, attempt: &Analytics) -> (r: Result<
        Verdict,
        EvalError,
    >)
        ensures
            r == evaluate_spec(
                &self.gameplay,
                match baseline {
                    Some(b) => Some(*b),
                    None => None,
                },
                *attempt,
            ),
    {
        let b = match &self.gameplay {
            GameplayMode::PlayScenario(..) | GameplayMode::Freeform(_) => {
                return Err(EvalError::NoObjective);
            },
            _ => match baseline {
                None => {
                    return Err(EvalError::MissingBaseline);
                },
                Some(b) => b,
            },
        };
        let m: i128 = match &self.gameplay {
            GameplayMode::OptimizeBus(route) => (b.mean_bus_wait(route).ticks as i128) - (
            attempt.mean_bus_wait(route).ticks as i128),
            GameplayMode::CreateGridlock => (attempt.mean_trip_duration(None).ticks as i128) - (
            b.mean_trip_duration(None).ticks as i128),
            GameplayMode::FasterTrips(mode) => (b.median_trip_duration(*mode).ticks as i128) - (
            attempt.median_trip_duration(*mode).ticks as i128),
            _ => (b.mean_trip_duration(None).ticks as i128) - (attempt.mean_trip_duration(
                None,
            ).ticks as i128),
        };
        if m < (i64::MIN as i128) || m > (i64::MAX as i128) {
            return Err(EvalError::MarginOverflow);
        }
        let margin = Duration { ticks: m as i64 };
        if margin.ticks >= threshold_of(&self.gameplay) {
            Ok(Verdict::Pass(margin))
        } else {
            Ok(Verdict::Fail(margin))
        }
    }
}

/// The names of the challenge groups, in order; the groups still in progress only for
/// developers.
pub open spec fn group_names(dev: bool) -> Seq<Seq<char>> {
    if dev {
        seq![
            "Cause gridlock (WIP)"@,
            "Fix traffic signals"@,
            "Playing favorites (WIP)"@,
            "Speed up a bus route (WIP)"@,
        ]
    } else {
        seq!["Fix traffic signals"@]
    }
}

/// Whether the lines of a description are `d`.
pub open spec fn described_as(c: Challenge, d: Seq<Seq<char>>) -> bool {
    c.description@.len() == d.len() && forall|k: int|
        0 <= k < d.len() ==> (#[trigger] c.description@[k])@ == d[k]
}

/// Whether `c` has this title, map and alias.
pub open spec fn named(c: Challenge, title: Seq<char>, map: Seq<char>, alias: Seq<char>) -> bool {
    c.title@ == title && c.map_name@ == map && c.alias@ == alias
}

/// The stages of the traffic signal group.
pub open spec fn signal_stage(j: int, c: Challenge) -> bool {
    if j == 0 {
        named(c, "Tutorial 1"@, "signal_single"@, "trafficsig/tut1"@) && c.gameplay
            == GameplayMode::FixTrafficSignalsTutorial(0) && described_as(
            c,
            seq!["Add or remove a dedicated left phase"@],
        )
    } else if j == 1 {
        named(c, "Tutorial 2"@, "signal_single"@, "trafficsig/tut2"@) && c.gameplay
            == GameplayMode::FixTrafficSignalsTutorial(1) && described_as(
            c,
            seq!["Deal with heavy foot traffic"@],
        )
    } else {
        j == 2 && named(c, "The real challenge!"@, "montlake"@, "trafficsig/main"@) && c.gameplay
            == GameplayMode::FixTrafficSignals && described_as(
            c,
            seq![
                "A city-wide power surge knocked out all of the traffic signals!"@,
                "Their timing has been reset to default settings, and drivers are stuck."@,
                "It's up to you to repair the signals, choosing appropriate turn phases and timing."@,
                ""@,
                "Objective: Reduce the average trip time by at least 30s"@,
            ],
        )
    }
}

/// The stage of the gridlock group.
pub open spec fn gridlock_stage(j: int, c: Challenge) -> bool {
    j == 0 && named(c, "Gridlock all of the everything"@, "montlake"@, "gridlock"@) && c.gameplay
        == GameplayMode::CreateGridlock && described_as(c, seq!["Make traffic as BAD as possible!"@])
}

/// The stages of the group that favours one mode.
pub open spec fn favorite_stage(j: int, c: Challenge) -> bool {
    if j == 0 {
        named(c, "Speed up all bike trips"@, "montlake"@, "fave/bike"@) && c.gameplay
            == GameplayMode::FasterTrips(TripMode::Bike) && described_as(
            c,
            seq!["Reduce the 50%ile trip times of bikes by at least 1 minute"@],
        )
    } else {
        j == 1 && named(c, "Speed up all car trips"@, "montlake"@, "fave/car"@) && c.gameplay
            == GameplayMode::FasterTrips(TripMode::Drive) && described_as(
            c,
            seq!["Reduce the 50%ile trip times of drivers by at least 5 minutes"@],
        )
    }
}

/// Whether a mode speeds up bus route 43.
pub open spec fn route_43(g: GameplayMode) -> bool {
    g is OptimizeBus && g->OptimizeBus_0@ == "43"@
}

/// The stages of the bus route group.
pub open spec fn bus_stage(j: int, c: Challenge) -> bool {
    if j == 0 {
        named(c, "Route 43 in the small Montlake area"@, "montlake"@, "bus/43_montlake"@)
            && route_43(c.gameplay) && described_as(
            c,
            seq!["Decrease the average waiting time between all of route 43's stops by at least 30s"@],
        )
    } else {
        j == 1 && named(c, "Route 43 in a larger area"@, "23rd"@, "bus/43_23rd"@) && route_43(
            c.gameplay,
        ) && described_as(
            c,
            seq!["Decrease the average waiting time between all of 43's stops by at least 30s"@],
        )
    }
}

/// Number of stages of each group, in order.
pub open spec fn group_sizes(dev: bool) -> Seq<int> {
    if dev {
        seq![1, 3, 2, 2]
    } else {
        seq![3]
    }
}

/// Whether `c` is stage `j` of group `i` of the catalog.
pub open spec fn catalog_stage(dev: bool, i: int, j: int, c: Challenge) -> bool {
    if !dev || i == 1 {
        signal_stage(j, c)
    } else if i == 0 {
        gridlock_stage(j, c)
    } else if i == 2 {
        favorite_stage(j, c)
    } else {
        bus_stage(j, c)
    }
}

fn stage(
    title: &str,
    description: &[&str],
    map_name: &str,
    alias: &str,
    gameplay: GameplayMode,
) -> (r: Challenge)
    ensures
        named(r, title@, map_name@, alias@),
        r.gameplay == gameplay,
        r.description@.len() == description@.len(),
        forall|k: int| 0 <= k < description@.len() ==> (#[trigger] r.description@[k])@ == description@[k]@,
{
    let mut lines: Vec<String> = Vec::new();
    let mut i: usize = 0;
    while i < description.len()
        invariant
            i <= description@.len(),
            lines@.len() == i,
            forall|k: int| 0 <= k < i ==> (#[trigger] lines@[k])@ == description@[k]@,
        decreases description@.len() - i,
    {
        lines.push(description[i].to_owned());
        i = i + 1;
    }
    Challenge {
        title: title.to_owned(),
        description: lines,
        map_name: map_name.to_owned(),
        alias: alias.to_owned(),
        gameplay,
    }
}

/// Every challenge, grouped under a name, groups in order of their names. The stages in
/// progress are shown to developers only.
pub fn all_challenges(dev: bool) -> (r: Vec<(String, Vec<Challenge>)>)
    ensures
        r@.len() == group_names(dev).len(),
        forall|i: int| 0 <= i < r@.len() ==> (#[trigger] r@[i]).0@ == group_names(dev)[i],
        forall|i: int| 0 <= i < r@.len() ==> (#[trigger] r@[i]).1@.len() == group_sizes(dev)[i],
        forall|i: int, j: int|
            0 <= i < r@.len() && 0 <= j < r@[i].1@.len() ==> catalog_stage(
                dev,
                i,
                j,
                #[trigger] r@[i].1@[j],
            ),
{
    let signals = vec![
        stage(
            "Tutorial 1",
            &["Add or remove a dedicated left phase"],
            "signal_single",
            "trafficsig/tut1",
            GameplayMode::FixTrafficSignalsTutorial(0),
        ),
        stage(
            "Tutorial 2",
            &["Deal with heavy foot traffic"],
            "signal_single",
            "trafficsig/tut2",
            GameplayMode::FixTrafficSignalsTutorial(1),
        ),
        stage(
            "The real challenge!",
            &[
                "A city-wide power surge knocked out all of the traffic signals!",
                "Their timing has been reset to default settings, and drivers are stuck.",
                "It's up to you to repair the signals, choosing appropriate turn phases and timing.",
                "",
                "Objective: Reduce the average trip time by at least 30s",
            ],
            "montlake",
            "trafficsig/main",
            GameplayMode::FixTrafficSignals,
        ),
    ];
    let signals_name = "Fix traffic signals".to_owned();
    if !dev {
        return vec![(signals_name, signals)];
    }
    let gridlock = vec![
        stage(
            "Gridlock all of the everything",
            &["Make traffic as BAD as possible!"],
            "montlake",
            "gridlock",
            GameplayMode::CreateGridlock,
        ),
    ];
    let favorites = vec![
        stage(
            "Speed up all bike trips",
            &["Reduce the 50%ile trip times of bikes by at least 1 minute"],
            "montlake",
            "fave/bike",
            GameplayMode::FasterTrips(TripMode::Bike),
        ),
        stage(
            "Speed up all car trips",
            &["Reduce the 50%ile trip times of drivers by at least 5 minutes"],
            "montlake",
            "fave/car",
            GameplayMode::FasterTrips(TripMode::Drive),
        ),
    ];
    let bus = vec![
        stage(
            "Route 43 in the small Montlake area",
            &["Decrease the average waiting time between all of route 43's stops by at least 30s"],
            "montlake",
            "bus/43_montlake",
            GameplayMode::OptimizeBus("43".to_owned()),
        ),
        stage(
            "Route 43 in a larger area",
            &["Decrease the average waiting time between all of 43's stops by at least 30s"],
            "23rd",
            "bus/43_23rd",
            GameplayMode::OptimizeBus("43".to_owned()),
        ),
    ];
    vec![
        ("Cause gridlock (WIP)".to_owned(), gridlock),
        (signals_name, signals),
        ("Playing favorites (WIP)".to_owned(), favorites),
        ("Speed up a bus route (WIP)".to_owned(), bus),
    ]
}

/// An attempt judged against itself improves by nothing: the margin is zero, and it fails
/// unless the threshold is at most zero.
pub proof fn self_evaluation_has_zero_margin(mode: &GameplayMode, a: Analytics)
    requires
        !(mode is PlayScenario || mode is Freeform),
    ensures
        threshold(mode) > 0 ==> evaluate_spec(mode, Some(a), a) == Ok::<Verdict, EvalError>(
            Verdict::Fail(Duration { ticks: 0 }),
        ),
        threshold(mode) <= 0 ==> evaluate_spec(mode, Some(a), a) == Ok::<Verdict, EvalError>(
            Verdict::Pass(Duration { ticks: 0 }),
        ),
{
}

/// Every stage of the catalog has an objective, so an attempt at it judged against itself
/// has margin zero: it fails, unless the threshold is at most zero.
pub proof fn catalog_self_evaluation(dev: bool, i: int, j: int, c: Challenge, a: Analytics)
    requires
        catalog_stage(dev, i, j, c),
    ensures
        !(c.gameplay is PlayScenario || c.gameplay is Freeform),
        evaluate_spec(&c.gameplay, Some(a), a) == Ok::<Verdict, EvalError>(
            if threshold(&c.gameplay) > 0 {
                Verdict::Fail(Duration { ticks: 0 })
            } else {
                Verdict::Pass(Duration { ticks: 0 })
            },
        ),
{
    self_evaluation_has_zero_margin(&c.gameplay, a);
}

} // verus!
