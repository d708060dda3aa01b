use vstd::prelude::*;

use crate::gameplay::GameplayMode;
use crate::scenario::{ModeSet, ScenarioModifier, TimeRange, TripMode};
use crate::text::push_chars;

verus! {

/// Playing a scenario with a list of modifiers, as the sandbox shows it.
#[derive(Debug)]
pub struct PlayScenario {
    pub scenario_name: String,
    pub modifiers: Vec<ScenarioModifier>,
}

fn copy_modifiers(v: &Vec<ScenarioModifier>) -> (r: Vec<ScenarioModifier>)
    ensures
        r@ == v@,
{
    let mut out: Vec<ScenarioModifier> = Vec::new();
    let mut i: usize = 0;
    while i < v.len()
        invariant
            i <= v@.len(),
            out@ =~= v@.subrange(0, i as int),
        decreases v@.len() - i,
    {
        out.push(v[i].clone());
        i = i + 1;
    }
    assert(out@ =~= v@);
    out
}

/// Whether `m` is the mode that plays scenario `name` on map `map` with `mods`.
pub open spec fn plays(m: GameplayMode, map: Seq<char>, name: Seq<char>, mods: Seq<ScenarioModifier>) -> bool {
    match m {
        GameplayMode::PlayScenario(a, b, c) => a@ == map && b@ == name && c@ == mods,
        _ => false,
    }
}

impl PlayScenario {
    pub fn new(name: &String, modifiers: Vec<ScenarioModifier>) -> (r: PlayScenario)
        ensures
            r.scenario_name@ == name@,
            r.modifiers@ == modifiers@,
    {
        PlayScenario { scenario_name: name.clone(), modifiers }
    }

    /// Whether the trips differ from those of the named scenario.
    pub fn has_modified_trips(&self) -> (r: bool)
        ensures
            r == (self.modifiers@.len() > 0),
    {
        self.modifiers.len() > 0
    }

    /// Whether the panel offers to edit the traffic patterns: not for the empty scenario.
    pub fn offers_modifier_edits(&self) -> (r: bool)
        ensures
            r == (self.scenario_name@ != "empty"@),
    {
        let empty = "empty".to_owned();
        !(self.scenario_name == empty)
    }

    /// Whether the panel offers to save the scenario: only one that was generated rather
    /// than read from a file.
    pub fn offers_save(&self, scenario_file_exists: bool, has_scenario: bool) -> (r: bool)
        ensures
            r == (!scenario_file_exists && has_scenario),
    {
        !scenario_file_exists && has_scenario
    }

    /// The mode to edit the map in, keeping this scenario and its modifiers.
    pub fn edit_map_mode(&self, map_name: &String) -> (r: GameplayMode)
        ensures
            plays(r, map_name@, self.scenario_name@, self.modifiers@),
    {
        GameplayMode::PlayScenario(
            map_name.clone(),
            self.scenario_name.clone(),
            copy_modifiers(&self.modifiers),
        )
    }

    /// The mode after switching to another map: the scenario of the same name if that map
    /// has one, unmodified, else free play.
    pub fn mode_after_map_change(&self, new_map: &String, scenario_exists: bool) -> (r: GameplayMode)
        ensures
            scenario_exists ==> plays(r, new_map@, self.scenario_name@, Seq::empty()),
            !scenario_exists ==> r is Freeform && r->Freeform_0@ == new_map@,
    {
        if scenario_exists {
            let r = GameplayMode::PlayScenario(new_map.clone(), self.scenario_name.clone(), Vec::new());
            assert(plays(r, new_map@, self.scenario_name@, Seq::empty()));
            r
        } else {
            GameplayMode::Freeform(new_map.clone())
        }
    }
}

/// The name a generated scenario is saved under, so that it never replaces a scenario
/// whose stored results serve as a baseline.
pub fn saved_scenario_name(name: &String) -> (r: String)
    ensures
        r@ == "saved_"@ + name@,
{
    let mut r = String::new();
    push_chars(&mut r, &['s', 'a', 'v', 'e', 'd', '_']);
    let mut i: usize = 0;
    let chars = name.as_str();
    assert(r@ =~= "saved_"@) by {
        reveal_strlit("saved_");
    }
    let n = vstd::string::StrSliceExecFns::unicode_len(chars);
    while i < n
        invariant
            chars@ == name@,
            n == chars@.len(),
            i <= n,
            r@ == "saved_"@ + chars@.subrange(0, i as int),
        decreases n - i,
    {
        r.push(vstd::string::StrSliceExecFns::get_char(chars, i));
        i = i + 1;
        assert(r@ =~= "saved_"@ + chars@.subrange(0, i as int));
    }
    assert(chars@.subrange(0, n as int) =~= chars@);
    r
}

/// The list of modifiers being edited for a scenario.
#[derive(Debug)]
pub struct EditScenarioModifiers {
    pub scenario_name: String,
    pub modifiers: Vec<ScenarioModifier>,
}

impl EditScenarioModifiers {
    pub fn new(scenario_name: String, modifiers: Vec<ScenarioModifier>) -> (r: EditScenarioModifiers)
        ensures
            r.scenario_name == scenario_name,
            r.modifiers == modifiers,
    {
        EditScenarioModifiers { scenario_name, modifiers }
    }

    /// Removes the modifier at `position`, counted from one as the list shows them.
    pub fn delete_modifier(&mut self, position: usize)
        requires
            1 <= position <= old(self).modifiers@.len(),
        ensures
            final(self).modifiers@ == old(self).modifiers@.remove(position - 1),
            final(self).scenario_name == old(self).scenario_name,
    {
        self.modifiers.remove(position - 1);
    }

    /// Appends a modifier that repeats the schedule over `days` days.
    pub fn repeat_days(&mut self, days: u64)
        ensures
            final(self).modifiers@ == old(self).modifiers@.push(ScenarioModifier::RepeatDays(days)),
            final(self).scenario_name == old(self).scenario_name,
    {
        self.modifiers.push(ScenarioModifier::RepeatDays(days));
    }

    /// Appends a modifier that adds the trips of another scenario.
    pub fn add_extra_trips(&mut self, name: String)
        ensures
            final(self).modifiers@ == old(self).modifiers@.push(ScenarioModifier::AddExtraTrips(name)),
            final(self).scenario_name == old(self).scenario_name,
    {
        self.modifiers.push(ScenarioModifier::AddExtraTrips(name));
    }

    /// Appends a modifier built elsewhere, such as a mode change.
    pub fn push_modifier(&mut self, m: ScenarioModifier)
        ensures
            final(self).modifiers@ == old(self).modifiers@.push(m),
            final(self).scenario_name == old(self).scenario_name,
    {
        self.modifiers.push(m);
    }

    /// The mode that plays the scenario with the edited modifiers on `map_name`.
    pub fn apply(&self, map_name: &String) -> (r: GameplayMode)
        ensures
            plays(r, map_name@, self.scenario_name@, self.modifiers@),
    {
        GameplayMode::PlayScenario(
            map_name.clone(),
            self.scenario_name.clone(),
            copy_modifiers(&self.modifiers),
        )
    }
}

/// Why the mode change form was refused.
#[derive(Clone, Copy, Debug, PartialEq, Eq, Structural)]
pub enum ChangeModeError {
    /// No mode to convert from is left once the target mode is taken out.
    NoModeSelected,
    /// The departure window ends before it starts.
    BackwardsTimeRange,
}

/// Whether `m` converts from the checked modes, less the target mode, to `to_mode`.
pub open spec fn converts(
    m: ScenarioModifier,
    to_mode: Option<TripMode>,
    pct_ppl: u64,
    departure_filter: TimeRange,
    checked: ModeSet,
) -> bool {
    match m {
        ScenarioModifier::ChangeMode { to_mode: t, pct_ppl: p, departure_filter: d, from_modes } => t
            == to_mode && p == pct_ppl && d == departure_filter && forall|x: TripMode|
            from_modes.has(x) == (checked.has(x) && Some(x) != to_mode),
        _ => false,
    }
}

/// Builds a mode change from the form: the target mode is never converted from, and the
/// window must not be empty.
pub fn change_mode_modifier(
    to_mode: Option<TripMode>,
    pct_ppl: u64,
    departure_filter: TimeRange,
    checked: ModeSet,
) -> (r: Result<ScenarioModifier, ChangeModeError>)
    ensures
        r is Ok <==> (exists|m: TripMode| checked.has(m) && Some(m) != to_mode)
            && departure_filter.start.ticks < departure_filter.end.ticks,
        r is Ok ==> converts(r->Ok_0, to_mode, pct_ppl, departure_filter, checked),
        r == Err::<ScenarioModifier, ChangeModeError>(ChangeModeError::NoModeSelected) <==> forall|
            m: TripMode,
        | !(checked.has(m) && Some(m) != to_mode),
{
    let mut from_modes = checked;
    match to_mode {
        Some(m) => from_modes.remove(m),
        None => {},
    }
    if from_modes.is_empty() {
        return Err(ChangeModeError::NoModeSelected);
    }
    if departure_filter.start.ticks >= departure_filter.end.ticks {
        return Err(ChangeModeError::BackwardsTimeRange);
    }
    Ok(ScenarioModifier::ChangeMode { to_mode, pct_ppl, departure_filter, from_modes })
}

} // verus!
