use challenges::analytics::{Analytics, AnalyticsStore, BusWait, TripResult};
use challenges::challenge::{all_challenges, Challenge, EvalError, Verdict};
use challenges::duration::Duration;
use challenges::edits::{allowed_edit_sets, EditCmd, MapEdits};
use challenges::gameplay::GameplayMode;
use challenges::prebake::prebake_jobs;
use challenges::runner::{advance, next_action, RunAction, RunPlan, RunState};
use challenges::scenario::TripMode;

fn run(trips: &[(TripMode, u64)]) -> Analytics {
    let mut a = Analytics::new();
    for (mode, mins) in trips {
        a.finished_trips.push(TripResult {
            mode: *mode,
            duration: Duration::minutes(*mins),
        });
    }
    a
}

fn challenge(gameplay: GameplayMode) -> Challenge {
    Challenge::new(
        "t".to_string(),
        Vec::new(),
        "montlake".to_string(),
        "a".to_string(),
        gameplay,
    )
}

fn edits(name: &str, commands: Vec<EditCmd>) -> MapEdits {
    MapEdits {
        edits_name: name.to_string(),
        commands,
    }
}

#[test]
fn no_candidates_no_edits() {
    for mode in [
        GameplayMode::FixTrafficSignals,
        GameplayMode::CreateGridlock,
        GameplayMode::Freeform("montlake".to_string()),
    ] {
        assert!(allowed_edit_sets(Vec::new(), &mode).is_empty());
    }
}

#[test]
fn signal_modes_reject_lane_edits() {
    let candidates = vec![
        edits("timing", vec![EditCmd::ChangeTrafficSignal(3)]),
        edits("bike lane", vec![EditCmd::ChangeTrafficSignal(3), EditCmd::ChangeLaneType(9)]),
        edits("stop", vec![EditCmd::ChangeStopSign(4)]),
        edits("nothing", Vec::new()),
    ];
    let kept = allowed_edit_sets(candidates.clone(), &GameplayMode::FixTrafficSignals);
    let names: Vec<&str> = kept.iter().map(|e| e.edits_name.as_str()).collect();
    assert_eq!(names, vec!["timing", "nothing"]);
    let all = allowed_edit_sets(candidates.clone(), &GameplayMode::CreateGridlock);
    assert_eq!(all.len(), 4);
    assert!(!GameplayMode::FixTrafficSignalsTutorial(0).allows(&candidates[1]));
    assert!(GameplayMode::OptimizeBus("43".to_string()).allows(&candidates[1]));
}

#[test]
fn self_evaluation_margin_zero() {
    let a = run(&[(TripMode::Drive, 10), (TripMode::Bike, 20)]);
    let c = challenge(GameplayMode::FixTrafficSignals);
    assert_eq!(c.evaluate(Some(&a), &a), Ok(Verdict::Fail(Duration::zero())));
    let gridlock = challenge(GameplayMode::CreateGridlock);
    assert_eq!(gridlock.evaluate(Some(&a), &a), Ok(Verdict::Pass(Duration::zero())));
}

#[test]
fn evaluation_thresholds() {
    let baseline = run(&[(TripMode::Drive, 10), (TripMode::Drive, 20)]);
    let better = run(&[(TripMode::Drive, 9), (TripMode::Drive, 20)]);
    let c = challenge(GameplayMode::FixTrafficSignals);
    assert_eq!(
        c.evaluate(Some(&baseline), &better),
        Ok(Verdict::Pass(Duration::seconds(30)))
    );
    let slightly = run(&[(TripMode::Drive, 10), (TripMode::Drive, 19)]);
    assert_eq!(
        challenge(GameplayMode::FasterTrips(TripMode::Drive)).evaluate(Some(&baseline), &slightly),
        Ok(Verdict::Fail(Duration::minutes(1)))
    );
    let much = run(&[(TripMode::Drive, 5), (TripMode::Drive, 15)]);
    assert_eq!(
        challenge(GameplayMode::FasterTrips(TripMode::Drive)).evaluate(Some(&baseline), &much),
        Ok(Verdict::Pass(Duration::minutes(5)))
    );
}

#[test]
fn bus_route_waits() {
    let mut baseline = Analytics::new();
    let mut attempt = Analytics::new();
    for (route, b, a) in [("43", 120, 60), ("43", 60, 60), ("48", 10, 900)] {
        baseline.bus_waits.push(BusWait {
            route: route.to_string(),
            wait: Duration::seconds(b),
        });
        attempt.bus_waits.push(BusWait {
            route: route.to_string(),
            wait: Duration::seconds(a),
        });
    }
    assert_eq!(
        baseline.mean_bus_wait(&"43".to_string()),
        Duration::seconds(90)
    );
    let c = challenge(GameplayMode::OptimizeBus("43".to_string()));
    assert_eq!(
        c.evaluate(Some(&baseline), &attempt),
        Ok(Verdict::Pass(Duration::seconds(30)))
    );
}

#[test]
fn evaluation_errors() {
    let a = run(&[(TripMode::Walk, 5)]);
    assert_eq!(
        challenge(GameplayMode::FixTrafficSignals).evaluate(None, &a),
        Err(EvalError::MissingBaseline)
    );
    assert_eq!(
        challenge(GameplayMode::Freeform("montlake".to_string())).evaluate(Some(&a), &a),
        Err(EvalError::NoObjective)
    );
    let mut huge = Analytics::new();
    huge.finished_trips.push(TripResult {
        mode: TripMode::Walk,
        duration: Duration::from_ticks(i64::MAX),
    });
    let mut tiny = Analytics::new();
    tiny.finished_trips.push(TripResult {
        mode: TripMode::Walk,
        duration: Duration::from_ticks(i64::MIN),
    });
    assert_eq!(
        challenge(GameplayMode::FixTrafficSignals).evaluate(Some(&huge), &tiny),
        Err(EvalError::MarginOverflow)
    );
}

#[test]
fn mean_durations() {
    let a = run(&[(TripMode::Drive, 10), (TripMode::Bike, 20), (TripMode::Drive, 30)]);
    assert_eq!(a.mean_trip_duration(None), Duration::minutes(20));
    assert_eq!(a.mean_trip_duration(Some(TripMode::Drive)), Duration::minutes(20));
    assert_eq!(a.mean_trip_duration(Some(TripMode::Bike)), Duration::minutes(20));
    assert_eq!(a.mean_trip_duration(Some(TripMode::Walk)), Duration::zero());
    let odd = run(&[(TripMode::Drive, 0), (TripMode::Drive, 0), (TripMode::Drive, 1)]);
    assert_eq!(odd.mean_trip_duration(None), Duration::seconds(20));
}

#[test]
fn median_by_mode() {
    let a = run(&[
        (TripMode::Bike, 30),
        (TripMode::Drive, 1),
        (TripMode::Bike, 10),
        (TripMode::Bike, 20),
        (TripMode::Bike, 20),
    ]);
    assert_eq!(a.median_trip_duration(TripMode::Bike), Duration::minutes(20));
    assert_eq!(a.median_trip_duration(TripMode::Drive), Duration::minutes(1));
    assert_eq!(a.median_trip_duration(TripMode::Walk), Duration::zero());
    let b = run(&[(TripMode::Bike, 40), (TripMode::Bike, 10), (TripMode::Bike, 20)]);
    assert_eq!(b.median_trip_duration(TripMode::Bike), Duration::minutes(20));
    assert_eq!(
        challenge(GameplayMode::FasterTrips(TripMode::Bike)).evaluate(Some(&b), &a),
        Ok(Verdict::Fail(Duration::zero()))
    );
}

#[test]
fn saving_twice_keeps_second() {
    let mut store = AnalyticsStore::new();
    let map = "montlake".to_string();
    let name = "weekday".to_string();
    let first = run(&[(TripMode::Drive, 10)]);
    let second = run(&[(TripMode::Bike, 20)]);
    assert!(store.load(&map, &name).is_none());
    store.save(&map, &name, first.clone());
    store.save(&map, &"saved_weekday".to_string(), first.clone());
    store.save(&map, &name, second.clone());
    assert_eq!(store.load(&map, &name), Some(&second));
    assert_eq!(store.load(&map, &"saved_weekday".to_string()), Some(&first));
    assert!(store.load(&"ballard".to_string(), &name).is_none());
}

#[test]
fn catalog_groups() {
    let all = all_challenges(true);
    let names: Vec<&str> = all.iter().map(|(n, _)| n.as_str()).collect();
    assert_eq!(
        names,
        vec![
            "Cause gridlock (WIP)",
            "Fix traffic signals",
            "Playing favorites (WIP)",
            "Speed up a bus route (WIP)"
        ]
    );
    let public = all_challenges(false);
    assert_eq!(public.len(), 1);
    assert_eq!(public[0].1.len(), 3);
    assert_eq!(public[0].1[2].alias, "trafficsig/main");
    assert_eq!(public[0].1[2].description.len(), 5);
    let stages: Vec<(&str, &str)> = public[0]
        .1
        .iter()
        .map(|c| (c.title.as_str(), c.map_name.as_str()))
        .collect();
    assert_eq!(
        stages,
        vec![
            ("Tutorial 1", "signal_single"),
            ("Tutorial 2", "signal_single"),
            ("The real challenge!", "montlake")
        ]
    );
    assert!(matches!(public[0].1[0].gameplay, GameplayMode::FixTrafficSignalsTutorial(0)));
    assert!(matches!(public[0].1[1].gameplay, GameplayMode::FixTrafficSignalsTutorial(1)));
    assert!(matches!(public[0].1[2].gameplay, GameplayMode::FixTrafficSignals));
    let dev_signals: Vec<&str> = all[1].1.iter().map(|c| c.alias.as_str()).collect();
    let public_signals: Vec<&str> = public[0].1.iter().map(|c| c.alias.as_str()).collect();
    assert_eq!(dev_signals, public_signals);
    assert!(matches!(all[3].1[1].gameplay, GameplayMode::OptimizeBus(ref r) if r == "43"));
    assert_eq!(all[3].1[1].map_name, "23rd");
}

#[test]
fn prebake_groups_by_map() {
    let flat: Vec<Challenge> = all_challenges(true)
        .into_iter()
        .flat_map(|(_, list)| list)
        .collect();
    let jobs = prebake_jobs(&flat);
    let got: Vec<(String, Vec<String>)> = jobs
        .into_iter()
        .map(|j| (j.map_name, j.scenario_names))
        .collect();
    assert_eq!(
        got,
        vec![
            ("23rd".to_string(), vec!["weekday".to_string()]),
            ("montlake".to_string(), vec!["weekday".to_string()]),
            ("signal_single".to_string(), vec!["weekday".to_string()]),
        ]
    );
    let mut with_scenarios = vec![
        challenge(GameplayMode::PlayScenario("montlake".to_string(), "a".to_string(), Vec::new())),
        challenge(GameplayMode::Freeform("montlake".to_string())),
        challenge(GameplayMode::PlayScenario("montlake".to_string(), "a".to_string(), Vec::new())),
    ];
    with_scenarios.push(challenge(GameplayMode::FixTrafficSignals));
    let jobs = prebake_jobs(&with_scenarios);
    assert_eq!(jobs.len(), 1);
    assert_eq!(jobs[0].scenario_names, vec!["a".to_string(), "weekday".to_string()]);
}

fn drive(plan: &RunPlan, mut s: RunState, limit: usize) -> (Vec<RunAction>, RunState) {
    let mut actions = Vec::new();
    for _ in 0..limit {
        let a = next_action(plan, &s);
        actions.push(a);
        if a == RunAction::Finish {
            break;
        }
        s = advance(plan, &s, a);
    }
    (actions, s)
}

#[test]
fn run_schedule_with_checkpoints() {
    let plan = RunPlan {
        horizon: Duration::hours(3),
        checkpoint_every: Some(Duration::hours(1)),
    };
    let (actions, _) = drive(&plan, RunState::start(), 100);
    assert_eq!(
        actions,
        vec![
            RunAction::StepUntil(Duration::hours(1)),
            RunAction::Checkpoint(Duration::hours(1)),
            RunAction::StepUntil(Duration::hours(2)),
            RunAction::Checkpoint(Duration::hours(2)),
            RunAction::StepUntil(Duration::hours(3)),
            RunAction::Finish,
        ]
    );
    let (resumed, _) = drive(&plan, RunState::resumed_from(Duration::hours(1)), 100);
    assert_eq!(resumed[..], actions[2..]);
    let again = drive(&plan, RunState::start(), 100).0;
    assert_eq!(again, actions);
}

#[test]
fn run_schedule_without_checkpoints() {
    let plan = RunPlan {
        horizon: Duration::minutes(90),
        checkpoint_every: None,
    };
    let (actions, end) = drive(&plan, RunState::start(), 100);
    assert_eq!(
        actions,
        vec![RunAction::StepUntil(Duration::minutes(90)), RunAction::Finish]
    );
    assert_eq!(end.now, Duration::minutes(90));
}

#[test]
fn map_switch_only_for_another_map() {
    let c = challenge(GameplayMode::FixTrafficSignals);
    assert!(!c.needs_map_switch(&"montlake".to_string()));
    assert!(c.needs_map_switch(&"ballard".to_string()));
}

#[test]
fn prebake_plan_is_a_day_with_hourly_checkpoints() {
    let plan = challenges::prebake::prebake_plan();
    assert_eq!(plan.horizon, Duration::hours(24));
    assert_eq!(plan.checkpoint_every, Some(Duration::hours(1)));
    let (actions, _) = drive(&plan, RunState::start(), 100);
    assert_eq!(actions.len(), 24 + 23 + 1);
}
