// Reproducible travel-demand scenarios and their evaluation: quantized durations, the
// scenario modifier pipeline, the run schedule with checkpoints, stored results, challenge
// verdicts and the filter on map edits.

// Durations as whole ticks of 0.0001 s, their text and notation.
pub mod duration;
pub mod notation;
pub mod text;

// Scenarios, the modes of play, and map edits.
pub mod scenario;
pub mod gameplay;
pub mod edits;

// Results of runs, judging attempts, and planning baseline runs.
pub mod analytics;
pub mod challenge;
pub mod prebake;
pub mod runner;

// Decisions behind the scenario panels and the title screen of the delivery game.
pub mod play;
pub mod levels;
