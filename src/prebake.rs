use vstd::prelude::*;

use crate::challenge::Challenge;
use crate::duration::{Duration, TICKS_PER_DAY, TICKS_PER_HOUR};
use crate::gameplay::GameplayMode;
use crate::runner::RunPlan;
use crate::text::{lemma_text_lt_irreflexive, lemma_text_lt_total, lemma_text_lt_transitive, text_less, text_lt};

verus! {

/// The seed of the random stream of every baseline run, so that baselines are reproducible.
pub const PREBAKE_RNG_SEED: u64 = 42;

/// How a baseline run goes: a whole day, saving resumable state every hour.
pub fn prebake_plan() -> (r: RunPlan)
    ensures
        r.wf(),
        r.horizon.ticks == TICKS_PER_DAY,
        r.checkpoint_every == Some(Duration { ticks: TICKS_PER_HOUR }),
{
    RunPlan {
        horizon: Duration { ticks: TICKS_PER_DAY },
        checkpoint_every: Some(Duration { ticks: TICKS_PER_HOUR }),
    }
}

/// The baseline runs to compute on one map: each named scenario once.
#[derive(Clone, Debug, PartialEq, Eq)]
pub struct MapJobs {
    pub map_name: String,
    pub scenario_names: Vec<String>,
}

/// The scenario that a mode plays, if any: the named one, or the standard weekday.
pub open spec fn scenario_of(mode: &GameplayMode) -> Option<Seq<char>> {
    match mode {
        GameplayMode::Freeform(_) => None,
        GameplayMode::PlayScenario(_, s, _) => Some(s@),
        _ => Some("weekday"@),
    }
}

impl GameplayMode {
    /// The name of the scenario that this mode plays, if any.
    pub fn scenario_name(&self) -> (r: Option<String>)
        ensures
            match (r, scenario_of(self)) {
                (Some(a), Some(b)) => a@ == b,
                (None, None) => true,
                _ => false,
            },
    {
        match self {
            GameplayMode::Freeform(_) => None,
            GameplayMode::PlayScenario(_, s, _) => Some(s.clone()),
            _ => Some("weekday".to_owned()),
        }
    }
}

/// Whether some challenge plays scenario `scenario` on map `map`.
pub open spec fn wanted(cs: Seq<Challenge>, map: Seq<char>, scenario: Seq<char>) -> bool {
    exists|j: int|
        0 <= j < cs.len() && (#[trigger] cs[j]).map_name@ == map && scenario_of(&cs[j].gameplay)
            == Some(scenario)
}

/// Whether some challenge with a scenario is on map `map`.
pub open spec fn map_wanted(cs: Seq<Challenge>, map: Seq<char>) -> bool {
    exists|j: int|
        0 <= j < cs.len() && (#[trigger] cs[j]).map_name@ == map && scenario_of(&cs[j].gameplay) is Some
}

/// Whether a list of strings holds `x`.
pub open spec fn has_text(v: Seq<String>, x: Seq<char>) -> bool {
    exists|i: int| 0 <= i < v.len() && (#[trigger] v[i])@ == x
}

/// Whether no string stands twice in a list.
pub open spec fn distinct_texts(v: Seq<String>) -> bool {
    forall|i: int, j: int| 0 <= i < j < v.len() ==> (#[trigger] v[i])@ != (#[trigger] v[j])@
}

fn find_text(v: &Vec<String>, x: &String) -> (r: bool)
    ensures
        r == has_text(v@, x@),
{
    let mut i: usize = 0;
    while i < v.len()
        invariant
            i <= v@.len(),
            forall|k: int| 0 <= k < i ==> (#[trigger] v@[k])@ != x@,
        decreases v@.len() - i,
    {
        if v[i] == *x {
            return true;
        }
        i = i + 1;
    }
    false
}

proof fn lemma_push_text(v: Seq<String>, x: String)
    requires
        distinct_texts(v),
        !has_text(v, x@),
    ensures
        distinct_texts(v.push(x)),
        forall|y: Seq<char>| has_text(v.push(x), y) <==> (has_text(v, y) || y == x@),
{
    assert forall|y: Seq<char>| has_text(v.push(x), y) <==> (has_text(v, y) || y == x@) by {
        if has_text(v.push(x), y) {
            let k = choose|k: int| 0 <= k < v.len() + 1 && (#[trigger] v.push(x)[k])@ == y;
            if k < v.len() {
                assert(v[k] == v.push(x)[k]);
            }
        }
        if has_text(v, y) {
            let k = choose|k: int| 0 <= k < v.len() && (#[trigger] v[k])@ == y;
            assert(v.push(x)[k] == v[k]);
        }
        if y == x@ {
            assert(v.push(x)[v.len() as int] == x);
        }
    }
    assert forall|i: int, j: int| 0 <= i < j < v.len() + 1 implies (#[trigger] v.push(x)[i])@ != (
    #[trigger] v.push(x)[j])@ by {
        if j == v.len() {
            assert(v.push(x)[i] == v[i]);
        } else {
            assert(v.push(x)[i] == v[i] && v.push(x)[j] == v[j]);
        }
    }
}

/// The maps that some challenge with a scenario is on, each once, in order of first use.
fn distinct_maps(cs: &Vec<Challenge>) -> (r: Vec<String>)
    ensures
        distinct_texts(r@),
        forall|m: Seq<char>| has_text(r@, m) <==> map_wanted(cs@, m),
{
    let mut out: Vec<String> = Vec::new();
    let mut j: usize = 0;
    while j < cs.len()
        invariant
            j <= cs@.len(),
            distinct_texts(out@),
            forall|m: Seq<char>| has_text(out@, m) <==> map_wanted(cs@.subrange(0, j as int), m),
        decreases cs@.len() - j,
    {
        let ghost prev = cs@.subrange(0, j as int);
        let ghost next = cs@.subrange(0, j + 1);
        assert forall|m: Seq<char>| map_wanted(next, m) <==> (map_wanted(prev, m) || (
        cs@[j as int].map_name@ == m && scenario_of(&cs@[j as int].gameplay) is Some)) by {
            if map_wanted(next, m) {
                let k = choose|k: int| 0 <= k < next.len() && (#[trigger] next[k]).map_name@ == m && scenario_of(&next[k].gameplay) is Some;
                if k < j {
                    assert(prev[k] == next[k]);
                }
            }
            if map_wanted(prev, m) {
                let k = choose|k: int| 0 <= k < prev.len() && (#[trigger] prev[k]).map_name@ == m && scenario_of(&prev[k].gameplay) is Some;
                assert(next[k] == prev[k]);
            }
            if cs@[j as int].map_name@ == m && scenario_of(&cs@[j as int].gameplay) is Some {
                assert(next[j as int] == cs@[j as int]);
            }
        }
        let has_scenario = match cs[j].gameplay.scenario_name() {
            Some(_) => true,
            None => false,
        };
        assert(has_scenario == scenario_of(&cs@[j as int].gameplay) is Some);
        let ghost before = out@;
        if has_scenario && !find_text(&out, &cs[j].map_name) {
            let m = cs[j].map_name.clone();
            proof {
                lemma_push_text(out@, m);
            }
            out.push(m);
        }
        assert forall|m: Seq<char>| #[trigger] has_text(out@, m) <==> map_wanted(next, m) by {
            assert(has_text(before, m) <==> map_wanted(prev, m));
        }
        j = j + 1;
    }
    assert(cs@.subrange(0, cs@.len() as int) =~= cs@);
    out
}

/// The scenarios that the challenges on map `map` play, each once, in order of first use.
fn scenarios_for(cs: &Vec<Challenge>, map: &String) -> (r: Vec<String>)
    ensures
        distinct_texts(r@),
        forall|s: Seq<char>| has_text(r@, s) <==> wanted(cs@, map@, s),
{
    let mut out: Vec<String> = Vec::new();
    let mut j: usize = 0;
    while j < cs.len()
        invariant
            j <= cs@.len(),
            distinct_texts(out@),
            forall|s: Seq<char>| has_text(out@, s) <==> wanted(cs@.subrange(0, j as int), map@, s),
        decreases cs@.len() - j,
    {
        let ghost prev = cs@.subrange(0, j as int);
        let ghost next = cs@.subrange(0, j + 1);
        assert forall|s: Seq<char>| wanted(next, map@, s) <==> (wanted(prev, map@, s) || (
        cs@[j as int].map_name@ == map@ && scenario_of(&cs@[j as int].gameplay) == Some(s))) by {
            if wanted(next, map@, s) {
                let k = choose|k: int| 0 <= k < next.len() && (#[trigger] next[k]).map_name@ == map@ && scenario_of(&next[k].gameplay) == Some(s);
                if k < j {
                    assert(prev[k] == next[k]);
                }
            }
            if wanted(prev, map@, s) {
                let k = choose|k: int| 0 <= k < prev.len() && (#[trigger] prev[k]).map_name@ == map@ && scenario_of(&prev[k].gameplay) == Some(s);
                assert(next[k] == prev[k]);
            }
            if cs@[j as int].map_name@ == map@ && scenario_of(&cs@[j as int].gameplay) == Some(s) {
                assert(next[j as int] == cs@[j as int]);
            }
        }
        let ghost before = out@;
        if cs[j].map_name == *map {
            match cs[j].gameplay.scenario_name() {
                Some(name) => {
                    if !find_text(&out, &name) {
                        proof {
                            lemma_push_text(out@, name);
                        }
                        out.push(name);
                    }
                },
                None => {},
            }
        }
        assert forall|s: Seq<char>| #[trigger] has_text(out@, s) <==> wanted(next, map@, s) by {
            assert(has_text(before, s) <==> wanted(prev, map@, s));
        }
        j = j + 1;
    }
    assert(cs@.subrange(0, cs@.len() as int) =~= cs@);
    out
}

/// The same strings, sorted.
fn sort_texts(v: Vec<String>) -> (r: Vec<String>)
    requires
        distinct_texts(v@),
    ensures
        forall|x: Seq<char>| has_text(r@, x) <==> has_text(v@, x),
        forall|a: int, b: int| 0 <= a < b < r@.len() ==> text_lt(r@[a]@, r@[b]@),
{
    let ghost orig = v@;
    let mut rest = v;
    let mut out: Vec<String> = Vec::new();
    while rest.len() > 0
        invariant
            distinct_texts(rest@),
            forall|x: Seq<char>| has_text(orig, x) <==> (has_text(out@, x) || has_text(rest@, x)),
            forall|a: int, b: int| 0 <= a < b < out@.len() ==> text_lt(out@[a]@, out@[b]@),
            forall|a: int, y: int|
                0 <= a < out@.len() && 0 <= y < rest@.len() ==> text_lt(out@[a]@, rest@[y]@),
        decreases rest@.len(),
    {
        let mut best: usize = 0;
        let mut k: usize = 1;
        while k < rest.len()
            invariant
                best < k <= rest@.len(),
                distinct_texts(rest@),
                forall|y: int| 0 <= y < k && y != best ==> text_lt(rest@[best as int]@, rest@[y]@),
            decreases rest@.len() - k,
        {
            if text_less(&rest[k], &rest[best]) {
                proof {
                    assert forall|y: int| 0 <= y < k + 1 && y != k implies text_lt(
                        rest@[k as int]@,
                        rest@[y]@,
                    ) by {
                        if y != best {
                            lemma_text_lt_transitive(rest@[k as int]@, rest@[best as int]@, rest@[y]@);
                        }
                    }
                }
                best = k;
            } else {
                proof {
                    assert(rest@[best as int]@ != rest@[k as int]@);
                    lemma_text_lt_total(rest@[best as int]@, rest@[k as int]@);
                }
            }
            k = k + 1;
        }
        let ghost before = rest@;
        let ghost old_out = out@;
        let m = rest.remove(best);
        proof {
            assert forall|y: int| 0 <= y < rest@.len() implies #[trigger] rest@[y] == before[if y
                < best {
                y
            } else {
                y + 1
            }] by {}
            assert forall|i: int, j: int| 0 <= i < j < rest@.len() implies (#[trigger] rest@[i])@ != (
            #[trigger] rest@[j])@ by {
                let bi = if i < best { i } else { i + 1 };
                let bj = if j < best { j } else { j + 1 };
                assert(rest@[i] == before[bi] && rest@[j] == before[bj]);
            }
            assert forall|y: int| 0 <= y < rest@.len() implies text_lt(m@, (#[trigger] rest@[y])@) by {
                let by = if y < best { y } else { y + 1 };
                assert(rest@[y] == before[by]);
            }
        }
        out.push(m);
        proof {
            assert forall|x: Seq<char>| has_text(orig, x) <==> (has_text(out@, x) || has_text(rest@, x)) by {
                if has_text(old_out, x) {
                    let i = choose|i: int| 0 <= i < old_out.len() && (#[trigger] old_out[i])@ == x;
                    assert(out@[i] == old_out[i]);
                }
                if has_text(before, x) {
                    let i = choose|i: int| 0 <= i < before.len() && (#[trigger] before[i])@ == x;
                    if i == best {
                        assert(out@[old_out.len() as int] == m);
                    } else if i < best {
                        assert(rest@[i] == before[i]);
                    } else {
                        assert(rest@[i - 1] == before[i]);
                    }
                }
                if has_text(out@, x) {
                    let i = choose|i: int| 0 <= i < out@.len() && (#[trigger] out@[i])@ == x;
                    if i < old_out.len() {
                        assert(out@[i] == old_out[i]);
                    } else {
                        assert(before[best as int] == m);
                    }
                }
                if has_text(rest@, x) {
                    let i = choose|i: int| 0 <= i < rest@.len() && (#[trigger] rest@[i])@ == x;
                    let bi = if i < best { i } else { i + 1 };
                    assert(rest@[i] == before[bi]);
                }
            }
            assert forall|a: int, b: int| 0 <= a < b < out@.len() implies text_lt(out@[a]@, out@[b]@) by {
                assert(out@[a] == old_out[a]);
                if b < old_out.len() {
                    assert(out@[b] == old_out[b]);
                } else {
                    assert(out@[b] == before[best as int]);
                }
            }
            assert forall|a: int, y: int|
                0 <= a < out@.len() && 0 <= y < rest@.len() implies text_lt(out@[a]@, rest@[y]@) by {
                let by = if y < best { y } else { y + 1 };
                assert(rest@[y] == before[by]);
                if a < old_out.len() {
                    assert(out@[a] == old_out[a]);
                } else {
                    assert(out@[a] == m);
                }
            }
        }
    }
    out
}

/// The baseline runs that the challenges need, grouped by map so that each map is loaded
/// once: every map that a challenge plays a scenario on, once, maps sorted by name, and on
/// each map every scenario that a challenge plays there, once.
pub fn prebake_jobs(challenges: &Vec<Challenge>) -> (r: Vec<MapJobs>)
    ensures
        forall|i: int, j: int| 0 <= i < j < r@.len() ==> (#[trigger] r@[i]).map_name@ != (#[trigger] r@[j]).map_name@,
        forall|i: int| 0 <= i < r@.len() ==> distinct_texts((#[trigger] r@[i]).scenario_names@),
        forall|a: int, b: int| 0 <= a < b < r@.len() ==> text_lt(r@[a].map_name@, r@[b].map_name@),
        forall|i: int|
            0 <= i < r@.len() ==> map_wanted(challenges@, (#[trigger] r@[i]).map_name@)
                && r@[i].scenario_names@.len() > 0,
        forall|m: Seq<char>, s: Seq<char>|
            wanted(challenges@, m, s) <==> exists|i: int|
                0 <= i < r@.len() && (#[trigger] r@[i]).map_name@ == m && has_text(r@[i].scenario_names@, s),
{
    let maps = sort_texts(distinct_maps(challenges));
    let mut out: Vec<MapJobs> = Vec::new();
    let mut i: usize = 0;
    while i < maps.len()
        invariant
            i <= maps@.len(),
            forall|m: Seq<char>| has_text(maps@, m) <==> map_wanted(challenges@, m),
            out@.len() == i,
            forall|a: int, b: int| 0 <= a < b < maps@.len() ==> text_lt(maps@[a]@, maps@[b]@),
            forall|k: int| 0 <= k < i ==> (#[trigger] out@[k]).map_name@ == maps@[k]@,
            forall|k: int| 0 <= k < i ==> distinct_texts((#[trigger] out@[k]).scenario_names@),
            forall|k: int, s: Seq<char>|
                0 <= k < i ==> (#[trigger] has_text(out@[k].scenario_names@, s) <==> wanted(
                    challenges@,
                    maps@[k]@,
                    s,
                )),
        decreases maps@.len() - i,
    {
        let names = scenarios_for(challenges, &maps[i]);
        out.push(MapJobs { map_name: maps[i].clone(), scenario_names: names });
        i = i + 1;
    }
    proof {
        assert forall|i: int, j: int| 0 <= i < j < out@.len() implies (#[trigger] out@[i]).map_name@ != (#[trigger] out@[j]).map_name@ by {
            lemma_text_lt_irreflexive(maps@[i]@);
        }
        assert forall|i: int| 0 <= i < out@.len() implies map_wanted(
            challenges@,
            (#[trigger] out@[i]).map_name@,
        ) && out@[i].scenario_names@.len() > 0 by {
            let m = maps@[i]@;
            assert(has_text(maps@, m));
            let j = choose|j: int|
                0 <= j < challenges@.len() && (#[trigger] challenges@[j]).map_name@ == m && scenario_of(
                    &challenges@[j].gameplay,
                ) is Some;
            let sc = scenario_of(&challenges@[j].gameplay)->Some_0;
            assert(wanted(challenges@, m, sc));
            assert(has_text(out@[i].scenario_names@, sc));
        }
        assert forall|m: Seq<char>, s: Seq<char>|
            wanted(challenges@, m, s) <==> exists|i: int|
                0 <= i < out@.len() && (#[trigger] out@[i]).map_name@ == m && has_text(out@[i].scenario_names@, s) by {
            if wanted(challenges@, m, s) {
                let j = choose|j: int| 0 <= j < challenges@.len() && (#[trigger] challenges@[j]).map_name@ == m && scenario_of(&challenges@[j].gameplay) == Some(s);
                assert(map_wanted(challenges@, m));
                let k = choose|k: int| 0 <= k < maps@.len() && (#[trigger] maps@[k])@ == m;
                assert(out@[k].map_name@ == m);
                assert(has_text(out@[k].scenario_names@, s));
            }
        }
    }
    out
}

} // verus!
