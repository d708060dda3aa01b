use vstd::prelude::*;

use crate::scenario::{ScenarioModifier, TripMode};

verus! {

/// The objective of a challenge, with what is needed to build and judge an attempt.
#[derive(Debug)]
pub enum GameplayMode {
    FixTrafficSignalsTutorial(u64),
    FixTrafficSignals,
    OptimizeBus(String),
    CreateGridlock,
    FasterTrips(TripMode),
    /// A map, a scenario on it, and the modifiers applied to that scenario.
    PlayScenario(String, String, Vec<ScenarioModifier>),
    Freeform(String),
}

impl GameplayMode {
    /// Whether attempts under this mode may change lanes, speed limits, access or closures.
    pub open spec fn lanes_editable(&self) -> bool {
        !(self is FixTrafficSignals || self is FixTrafficSignalsTutorial)
    }

    /// Whether attempts under this mode may change stop signs.
    pub open spec fn stop_signs_editable(&self) -> bool {
        !(self is FixTrafficSignals || self is FixTrafficSignalsTutorial)
    }

    pub fn can_edit_lanes(&self) -> (r: bool)
        ensures
            r == self.lanes_editable(),
    {
        match self {
            GameplayMode::FixTrafficSignals | GameplayMode::FixTrafficSignalsTutorial(_) => false,
            _ => true,
        }
    }

    pub fn can_edit_stop_signs(&self) -> (r: bool)
        ensures
            r == self.stop_signs_editable(),
    {
        match self {
            GameplayMode::FixTrafficSignals | GameplayMode::FixTrafficSignalsTutorial(_) => false,
            _ => true,
        }
    }
}

} // verus!
