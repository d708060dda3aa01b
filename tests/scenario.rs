use challenges::duration::Duration;
use challenges::play::{
    change_mode_modifier, saved_scenario_name, ChangeModeError, EditScenarioModifiers,
    PlayScenario,
};
use challenges::gameplay::GameplayMode;
use challenges::scenario::{
    apply, ModeSet, ModifierError, Scenario, ScenarioModifier, TimeRange, Trip, TripMode,
};

fn trip(mode: TripMode, hour: u64, origin: u64) -> Trip {
    Trip {
        mode,
        departure: Duration::hours(hour),
        origin,
        destination: origin + 100,
    }
}

fn scenario(name: &str, trips: Vec<Trip>) -> Scenario {
    Scenario {
        map_name: "montlake".to_string(),
        scenario_name: name.to_string(),
        trips,
    }
}

fn whole_day() -> TimeRange {
    TimeRange {
        start: Duration::zero(),
        end: Duration::hours(24),
    }
}

#[test]
fn repeat_days_three_copies() {
    let base = scenario("weekday", vec![trip(TripMode::Drive, 8, 1)]);
    let out = apply(&base, &vec![ScenarioModifier::RepeatDays(3)], 42, &Vec::new()).unwrap();
    assert_eq!(out.trips.len(), 3);
    assert_eq!(out.trips[0].departure, Duration::hours(8));
    assert_eq!(out.trips[1].departure, Duration::hours(8 + 24));
    assert_eq!(out.trips[2].departure, Duration::hours(8 + 48));
    assert!(out.trips.iter().all(|t| t.mode == TripMode::Drive && t.origin == 1));
    assert_eq!(out.scenario_name, "weekday");
    assert_eq!(base.trips.len(), 1);
}

#[test]
fn repeat_days_goes_day_by_day() {
    let base = scenario("weekday", vec![trip(TripMode::Walk, 7, 1), trip(TripMode::Bike, 9, 2)]);
    let out = apply(&base, &vec![ScenarioModifier::RepeatDays(2)], 1, &Vec::new()).unwrap();
    let got: Vec<(u64, Duration)> = out.trips.iter().map(|t| (t.origin, t.departure)).collect();
    assert_eq!(
        got,
        vec![
            (1, Duration::hours(7)),
            (2, Duration::hours(9)),
            (1, Duration::hours(31)),
            (2, Duration::hours(33)),
        ]
    );
}

#[test]
fn repeat_days_errors() {
    let base = scenario("weekday", vec![trip(TripMode::Walk, 7, 1)]);
    assert_eq!(
        apply(&base, &vec![ScenarioModifier::RepeatDays(1)], 1, &Vec::new()).unwrap_err(),
        ModifierError::TooFewDays
    );
    let late = scenario(
        "late",
        vec![Trip {
            mode: TripMode::Walk,
            departure: Duration::from_ticks(i64::MAX - 10),
            origin: 1,
            destination: 2,
        }],
    );
    assert_eq!(
        apply(&late, &vec![ScenarioModifier::RepeatDays(2)], 1, &Vec::new()).unwrap_err(),
        ModifierError::TimeOverflow
    );
}

#[test]
fn cancel_all_drive_trips() {
    let base = scenario(
        "weekday",
        vec![
            trip(TripMode::Drive, 1, 1),
            trip(TripMode::Walk, 2, 2),
            trip(TripMode::Drive, 3, 3),
            trip(TripMode::Bike, 4, 4),
            trip(TripMode::Transit, 23, 5),
            trip(TripMode::Drive, 23, 6),
        ],
    );
    let m = ScenarioModifier::ChangeMode {
        to_mode: None,
        pct_ppl: 100,
        departure_filter: whole_day(),
        from_modes: ModeSet::only(TripMode::Drive),
    };
    let out = apply(&base, &vec![m], 7, &Vec::new()).unwrap();
    let origins: Vec<u64> = out.trips.iter().map(|t| t.origin).collect();
    assert_eq!(origins, vec![2, 4, 5]);
    assert!(out.trips.iter().all(|t| t.mode != TripMode::Drive));
}

#[test]
fn change_mode_outside_window_untouched() {
    let base = scenario("weekday", vec![trip(TripMode::Drive, 1, 1), trip(TripMode::Drive, 10, 2)]);
    let m = ScenarioModifier::ChangeMode {
        to_mode: Some(TripMode::Bike),
        pct_ppl: 100,
        departure_filter: TimeRange {
            start: Duration::hours(5),
            end: Duration::hours(12),
        },
        from_modes: ModeSet::only(TripMode::Drive),
    };
    let out = apply(&base, &vec![m], 3, &Vec::new()).unwrap();
    assert_eq!(out.trips[0].mode, TripMode::Drive);
    assert_eq!(out.trips[1].mode, TripMode::Bike);
    assert_eq!(out.trips[1].departure, Duration::hours(10));
}

#[test]
fn change_mode_same_seed_same_result() {
    let trips: Vec<Trip> = (0..50).map(|i| trip(TripMode::Drive, i % 24, i)).collect();
    let base = scenario("weekday", trips);
    let m = ScenarioModifier::ChangeMode {
        to_mode: Some(TripMode::Transit),
        pct_ppl: 50,
        departure_filter: whole_day(),
        from_modes: ModeSet::only(TripMode::Drive),
    };
    let a = apply(&base, &vec![m.clone()], 99, &Vec::new()).unwrap();
    let b = apply(&base, &vec![m.clone()], 99, &Vec::new()).unwrap();
    assert_eq!(a.trips, b.trips);
    let changed = a.trips.iter().filter(|t| t.mode == TripMode::Transit).count();
    assert!(changed > 0 && changed < 50);
}

#[test]
fn change_mode_errors() {
    let base = scenario("weekday", vec![trip(TripMode::Drive, 1, 1)]);
    let empty = ScenarioModifier::ChangeMode {
        to_mode: None,
        pct_ppl: 100,
        departure_filter: whole_day(),
        from_modes: ModeSet::none(),
    };
    assert_eq!(apply(&base, &vec![empty], 1, &Vec::new()).unwrap_err(), ModifierError::EmptyModeSet);
    let backwards = ScenarioModifier::ChangeMode {
        to_mode: None,
        pct_ppl: 100,
        departure_filter: TimeRange {
            start: Duration::hours(3),
            end: Duration::hours(3),
        },
        from_modes: ModeSet::only(TripMode::Drive),
    };
    assert_eq!(
        apply(&base, &vec![backwards], 1, &Vec::new()).unwrap_err(),
        ModifierError::BackwardsTimeRange
    );
    let pct = ScenarioModifier::ChangeMode {
        to_mode: None,
        pct_ppl: 0,
        departure_filter: whole_day(),
        from_modes: ModeSet::only(TripMode::Drive),
    };
    assert_eq!(apply(&base, &vec![pct], 1, &Vec::new()).unwrap_err(), ModifierError::BadPercent);
}

#[test]
fn add_extra_trips_from_sibling() {
    let base = scenario("weekday", vec![trip(TripMode::Drive, 1, 1)]);
    let extra = scenario("events", vec![trip(TripMode::Walk, 2, 7), trip(TripMode::Bike, 3, 8)]);
    let mut other_map = scenario("events", vec![trip(TripMode::Walk, 5, 9)]);
    other_map.map_name = "ballard".to_string();
    let sibs = vec![other_map, extra];
    let out = apply(
        &base,
        &vec![ScenarioModifier::AddExtraTrips("events".to_string())],
        1,
        &sibs,
    )
    .unwrap();
    let origins: Vec<u64> = out.trips.iter().map(|t| t.origin).collect();
    assert_eq!(origins, vec![1, 7, 8]);
    assert_eq!(
        apply(
            &base,
            &vec![ScenarioModifier::AddExtraTrips("missing".to_string())],
            1,
            &sibs,
        )
        .unwrap_err(),
        ModifierError::MissingScenario
    );
}

#[test]
fn modifiers_apply_in_order() {
    let base = scenario("weekday", vec![trip(TripMode::Drive, 1, 1)]);
    let cancel = ScenarioModifier::ChangeMode {
        to_mode: None,
        pct_ppl: 100,
        departure_filter: whole_day(),
        from_modes: ModeSet::only(TripMode::Drive),
    };
    let repeat_then_cancel = apply(
        &base,
        &vec![ScenarioModifier::RepeatDays(2), cancel.clone()],
        5,
        &Vec::new(),
    )
    .unwrap();
    assert_eq!(repeat_then_cancel.trips.len(), 1);
    assert_eq!(repeat_then_cancel.trips[0].departure, Duration::hours(25));
    let cancel_then_repeat =
        apply(&base, &vec![cancel, ScenarioModifier::RepeatDays(2)], 5, &Vec::new()).unwrap();
    assert_eq!(cancel_then_repeat.trips.len(), 0);
}

#[test]
fn change_mode_form() {
    let mut checked = ModeSet::only(TripMode::Drive);
    checked.insert(TripMode::Bike);
    let m = change_mode_modifier(Some(TripMode::Bike), 50, whole_day(), checked).unwrap();
    match m {
        ScenarioModifier::ChangeMode { from_modes, to_mode, pct_ppl, .. } => {
            assert!(from_modes.contains(TripMode::Drive));
            assert!(!from_modes.contains(TripMode::Bike));
            assert_eq!(to_mode, Some(TripMode::Bike));
            assert_eq!(pct_ppl, 50);
        }
        _ => panic!("not a mode change"),
    }
    assert_eq!(
        change_mode_modifier(Some(TripMode::Bike), 50, whole_day(), ModeSet::only(TripMode::Bike))
            .unwrap_err(),
        ChangeModeError::NoModeSelected
    );
    let backwards = TimeRange {
        start: Duration::hours(5),
        end: Duration::hours(2),
    };
    assert_eq!(
        change_mode_modifier(None, 50, backwards, checked).unwrap_err(),
        ChangeModeError::BackwardsTimeRange
    );
}

#[test]
fn editing_modifier_list() {
    let mut e = EditScenarioModifiers::new("weekday".to_string(), Vec::new());
    e.repeat_days(3);
    e.add_extra_trips("events".to_string());
    e.repeat_days(2);
    e.delete_modifier(1);
    assert_eq!(e.modifiers.len(), 2);
    assert!(matches!(e.modifiers[0], ScenarioModifier::AddExtraTrips(ref n) if n == "events"));
    assert!(matches!(e.modifiers[1], ScenarioModifier::RepeatDays(2)));
    match e.apply(&"montlake".to_string()) {
        GameplayMode::PlayScenario(map, name, mods) => {
            assert_eq!(map, "montlake");
            assert_eq!(name, "weekday");
            assert_eq!(mods.len(), 2);
        }
        _ => panic!("wrong mode"),
    }
}

#[test]
fn play_scenario_panel() {
    let p = PlayScenario::new(&"weekday".to_string(), vec![ScenarioModifier::RepeatDays(2)]);
    assert!(p.has_modified_trips());
    assert!(p.offers_modifier_edits());
    assert!(p.offers_save(false, true));
    assert!(!p.offers_save(true, true));
    let empty = PlayScenario::new(&"empty".to_string(), Vec::new());
    assert!(!empty.has_modified_trips());
    assert!(!empty.offers_modifier_edits());
    assert!(matches!(
        p.mode_after_map_change(&"ballard".to_string(), false),
        GameplayMode::Freeform(ref m) if m == "ballard"
    ));
    match p.mode_after_map_change(&"ballard".to_string(), true) {
        GameplayMode::PlayScenario(map, name, mods) => {
            assert_eq!((map.as_str(), name.as_str(), mods.len()), ("ballard", "weekday", 0));
        }
        _ => panic!("wrong mode"),
    }
    match p.edit_map_mode(&"montlake".to_string()) {
        GameplayMode::PlayScenario(_, _, mods) => assert_eq!(mods.len(), 1),
        _ => panic!("wrong mode"),
    }
    assert_eq!(saved_scenario_name(&"weekday".to_string()), "saved_weekday");
}
