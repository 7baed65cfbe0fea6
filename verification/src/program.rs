//! Product-level evaluation programs: phases of gates, the scenario whose
//! checkpoints they cover, and the structural rules a program must meet.

use crate::codec::append_text;
use crate::comparison::decimal_chars;
use crate::config::{is_blank, trims_to_empty};
use crate::key_set::{insert_key, key_texts, keys_sorted};
use crate::provider_incarnation::text_equal;
use vstd::prelude::*;

verus! {

/// The proof status of a program or one of its gates.
#[derive(Clone, Copy, Debug, PartialEq, Eq, Structural)]
pub enum ProgramGateStatus {
    CodeComplete,
    Verified,
    Evaluating,
    Proposed,
    Future,
}

/// What a gate claims.
#[derive(Clone, Copy, Debug, PartialEq, Eq, Structural)]
pub enum ProgramGateKind {
    Correctness,
    Performance,
    Compatibility,
    Operational,
    Economics,
}

/// One named question a scenario asks.
#[derive(Clone, Debug, PartialEq, Eq)]
pub struct ScenarioSurface {
    pub id: String,
    pub name: String,
    pub question: String,
}

/// One step of a scenario: what it depends on, consumes and produces.
#[derive(Clone, Debug, PartialEq, Eq)]
pub struct ScenarioCheckpoint {
    pub id: String,
    pub name: String,
    pub surface: String,
    pub objective: String,
    pub depends_on: Vec<String>,
    pub inputs: Vec<String>,
    pub outputs: Vec<String>,
}

/// A generated scenario a program walks through.
#[derive(Clone, Debug, PartialEq, Eq)]
pub struct EvalScenario {
    pub schema_version: u32,
    pub id: String,
    pub description: String,
    pub generator: String,
    pub seeds: Vec<u64>,
    pub initial_artifacts: Vec<String>,
    pub surfaces: Vec<ScenarioSurface>,
    pub checkpoints: Vec<ScenarioCheckpoint>,
}

/// The texts of a list of strings.
pub open spec fn texts(values: Seq<String>) -> Seq<Seq<char>> {
    values.map_values(|v: String| v@)
}

/// One message when `condition` holds.
pub open spec fn error_if(condition: bool, message: Seq<char>) -> Seq<Seq<char>> {
    if condition {
        seq![message]
    } else {
        Seq::empty()
    }
}

/// The error for a required text field that is blank.
pub open spec fn required_errors(label: Seq<char>, value: Seq<char>) -> Seq<Seq<char>> {
    error_if(trims_to_empty(value), label + " must not be empty"@)
}

/// Append `message` to `errors`.
pub(crate) fn report(errors: &mut Vec<String>, message: String)
    ensures
        texts(final(errors)@) == texts(old(errors)@).push(message@),
{
    let ghost before = errors@;
    errors.push(message);
    assert(texts(errors@) =~= texts(before).push(message@));
}

/// Report a blank required text field.
pub fn require_text(label: &str, value: &str, errors: &mut Vec<String>)
    ensures
        texts(final(errors)@) == texts(old(errors)@) + required_errors(label@, value@),
{
    if is_blank(value) {
        let mut message = label.to_owned();
        append_text(&mut message, " must not be empty");
        report(errors, message);
    } else {
        assert(texts(errors@) =~= texts(errors@) + required_errors(label@, value@));
    }
}

/// `<prefix><value><suffix>` as text.
pub(crate) fn message3(prefix: &str, value: &str, suffix: &str) -> (message: String)
    ensures
        message@ == prefix@ + value@ + suffix@,
{
    let mut message = prefix.to_owned();
    append_text(&mut message, value);
    append_text(&mut message, suffix);
    message
}

/// `<prefix><value>` as text.
pub(crate) fn message2(prefix: &str, value: &str) -> (message: String)
    ensures
        message@ == prefix@ + value@,
{
    let mut message = prefix.to_owned();
    append_text(&mut message, value);
    message
}

/// Append `message` to `errors` when `condition` holds.
pub(crate) fn report_when(errors: &mut Vec<String>, condition: bool, message: String)
    ensures
        texts(final(errors)@) == texts(old(errors)@) + error_if(condition, message@),
{
    if condition {
        report(errors, message);
    } else {
        assert(texts(errors@) =~= texts(errors@) + error_if(condition, message@));
    }
}

/// Whether `value` is among the first `upto` texts.
pub(crate) fn appears_before(values: &Vec<String>, upto: usize, value: &str) -> (found: bool)
    requires
        upto <= values@.len(),
    ensures
        found == texts(values@).take(upto as int).contains(value@),
{
    let mut index: usize = 0;
    while index < upto
        invariant
            upto <= values@.len(),
            index <= upto,
            forall|j: int| 0 <= j < index ==> values@[j]@ != value@,
        decreases upto - index,
    {
        if text_equal(values[index].as_str(), value) {
            assert(texts(values@).take(upto as int)[index as int] == value@);
            return true;
        }
        index = index + 1;
    }
    assert forall|j: int| 0 <= j < upto implies texts(values@).take(upto as int)[j] != value@ by {}
    false
}

/// The header errors of a scenario: its schema version, required texts, and
/// the seeds, surfaces and checkpoints it must define.
pub open spec fn scenario_header_errors(s: EvalScenario) -> Seq<Seq<char>> {
    error_if(s.schema_version != 1, "unsupported scenario schema version "@ + decimal_chars(s.schema_version as u64))
        + required_errors("scenario id"@, s.id@) + required_errors("scenario description"@, s.description@)
        + required_errors("scenario generator"@, s.generator@) + error_if(
        s.seeds@.len() == 0,
        "scenario "@ + s.id@ + " must define at least one seed"@,
    ) + error_if(s.surfaces@.len() == 0, "scenario "@ + s.id@ + " must define at least one surface"@) + error_if(
        s.checkpoints@.len() == 0,
        "scenario "@ + s.id@ + " must define at least one checkpoint"@,
    )
}

/// The repeated-seed errors among the first `n` seeds.
pub open spec fn seed_errors(id: Seq<char>, seeds: Seq<u64>, n: nat) -> Seq<Seq<char>>
    decreases n,
{
    if n == 0 || n > seeds.len() {
        Seq::empty()
    } else {
        seed_errors(id, seeds, (n - 1) as nat) + error_if(
            seeds.take(n - 1).contains(seeds[n - 1]),
            "scenario "@ + id + " repeats seed "@ + decimal_chars(seeds[n - 1]),
        )
    }
}

/// The errors of one surface, given the ids of the surfaces before it.
pub open spec fn surface_errors(surface: ScenarioSurface, earlier: Seq<Seq<char>>) -> Seq<Seq<char>> {
    required_errors("scenario surface id"@, surface.id@) + required_errors(
        "surface "@ + surface.id@ + " name"@,
        surface.name@,
    ) + required_errors("surface "@ + surface.id@ + " question"@, surface.question@) + error_if(
        earlier.contains(surface.id@),
        "duplicate scenario surface "@ + surface.id@,
    )
}

pub open spec fn surface_ids(surfaces: Seq<ScenarioSurface>) -> Seq<Seq<char>> {
    surfaces.map_values(|s: ScenarioSurface| s.id@)
}

/// The errors of the first `n` surfaces.
pub open spec fn surfaces_errors(surfaces: Seq<ScenarioSurface>, n: nat) -> Seq<Seq<char>>
    decreases n,
{
    if n == 0 || n > surfaces.len() {
        Seq::empty()
    } else {
        surfaces_errors(surfaces, (n - 1) as nat) + surface_errors(
            surfaces[n - 1],
            surface_ids(surfaces).take(n - 1),
        )
    }
}

#[verifier::rlimit(50)]
fn header_errors(scenario: &EvalScenario, errors: &mut Vec<String>)
    ensures
        texts(final(errors)@) == texts(old(errors)@) + scenario_header_errors(*scenario),
{
    let ghost start = texts(errors@);
    let digits = crate::codec::decimal_text(scenario.schema_version as u64);
    report_when(
        errors,
        scenario.schema_version != 1,
        message2("unsupported scenario schema version ", digits.as_str()),
    );
    let ghost a = texts(errors@);
    require_text("scenario id", scenario.id.as_str(), errors);
    let ghost b = texts(errors@);
    require_text("scenario description", scenario.description.as_str(), errors);
    let ghost c = texts(errors@);
    require_text("scenario generator", scenario.generator.as_str(), errors);
    let ghost d = texts(errors@);
    report_when(
        errors,
        scenario.seeds.len() == 0,
        message3("scenario ", scenario.id.as_str(), " must define at least one seed"),
    );
    let ghost e = texts(errors@);
    report_when(
        errors,
        scenario.surfaces.len() == 0,
        message3("scenario ", scenario.id.as_str(), " must define at least one surface"),
    );
    let ghost f = texts(errors@);
    report_when(
        errors,
        scenario.checkpoints.len() == 0,
        message3("scenario ", scenario.id.as_str(), " must define at least one checkpoint"),
    );
    proof {
        let s = *scenario;
        let w1 = error_if(s.schema_version != 1, "unsupported scenario schema version "@ + decimal_chars(s.schema_version as u64));
        let r1 = required_errors("scenario id"@, s.id@);
        let r2 = required_errors("scenario description"@, s.description@);
        let r3 = required_errors("scenario generator"@, s.generator@);
        let w2 = error_if(s.seeds@.len() == 0, "scenario "@ + s.id@ + " must define at least one seed"@);
        let w3 = error_if(s.surfaces@.len() == 0, "scenario "@ + s.id@ + " must define at least one surface"@);
        let w4 = error_if(s.checkpoints@.len() == 0, "scenario "@ + s.id@ + " must define at least one checkpoint"@);
        assert(b =~= start + (w1 + r1));
        assert(c =~= start + (w1 + r1 + r2));
        assert(d =~= start + (w1 + r1 + r2 + r3));
        assert(e =~= start + (w1 + r1 + r2 + r3 + w2));
        assert(f =~= start + (w1 + r1 + r2 + r3 + w2 + w3));
        assert(texts(errors@) =~= start + (w1 + r1 + r2 + r3 + w2 + w3 + w4));
    }
}

fn seed_appears_before(seeds: &Vec<u64>, upto: usize, seed: u64) -> (found: bool)
    requires
        upto <= seeds@.len(),
    ensures
        found == seeds@.take(upto as int).contains(seed),
{
    let mut index: usize = 0;
    while index < upto
        invariant
            upto <= seeds@.len(),
            index <= upto,
            forall|j: int| 0 <= j < index ==> seeds@[j] != seed,
        decreases upto - index,
    {
        if seeds[index] == seed {
            assert(seeds@.take(upto as int)[index as int] == seed);
            return true;
        }
        index = index + 1;
    }
    assert forall|j: int| 0 <= j < upto implies seeds@.take(upto as int)[j] != seed by {}
    false
}

fn repeated_seed_errors(scenario: &EvalScenario, errors: &mut Vec<String>)
    ensures
        texts(final(errors)@) == texts(old(errors)@) + seed_errors(
            scenario.id@,
            scenario.seeds@,
            scenario.seeds@.len(),
        ),
{
    let ghost start = texts(errors@);
    let mut index: usize = 0;
    while index < scenario.seeds.len()
        invariant
            index <= scenario.seeds@.len(),
            texts(errors@) == start + seed_errors(scenario.id@, scenario.seeds@, index as nat),
        decreases scenario.seeds@.len() - index,
    {
        let seed = scenario.seeds[index];
        let ghost before = texts(errors@);
        if seed_appears_before(&scenario.seeds, index, seed) {
            let digits = crate::codec::decimal_text(seed);
            let mut message = message3("scenario ", scenario.id.as_str(), " repeats seed ");
            append_text(&mut message, digits.as_str());
            report(errors, message);
        }
        assert(texts(errors@) =~= start + seed_errors(scenario.id@, scenario.seeds@, (index + 1) as nat));
        index = index + 1;
    }
}

fn surface_appears_before(surfaces: &Vec<ScenarioSurface>, upto: usize, id: &str) -> (found: bool)
    requires
        upto <= surfaces@.len(),
    ensures
        found == surface_ids(surfaces@).take(upto as int).contains(id@),
{
    let mut index: usize = 0;
    while index < upto
        invariant
            upto <= surfaces@.len(),
            index <= upto,
            forall|j: int| 0 <= j < index ==> surfaces@[j].id@ != id@,
        decreases upto - index,
    {
        if text_equal(surfaces[index].id.as_str(), id) {
            assert(surface_ids(surfaces@).take(upto as int)[index as int] == id@);
            return true;
        }
        index = index + 1;
    }
    assert forall|j: int| 0 <= j < upto implies surface_ids(surfaces@).take(upto as int)[j] != id@ by {}
    false
}

fn all_surface_errors(scenario: &EvalScenario, errors: &mut Vec<String>)
    ensures
        texts(final(errors)@) == texts(old(errors)@) + surfaces_errors(
            scenario.surfaces@,
            scenario.surfaces@.len(),
        ),
{
    let ghost start = texts(errors@);
    let mut index: usize = 0;
    while index < scenario.surfaces.len()
        invariant
            index <= scenario.surfaces@.len(),
            texts(errors@) == start + surfaces_errors(scenario.surfaces@, index as nat),
        decreases scenario.surfaces@.len() - index,
    {
        let surface = &scenario.surfaces[index];
        let ghost before = texts(errors@);
        require_text("scenario surface id", surface.id.as_str(), errors);
        let name_label = message3("surface ", surface.id.as_str(), " name");
        require_text(name_label.as_str(), surface.name.as_str(), errors);
        let question_label = message3("surface ", surface.id.as_str(), " question");
        require_text(question_label.as_str(), surface.question.as_str(), errors);
        let ghost after_text = texts(errors@);
        if surface_appears_before(&scenario.surfaces, index, surface.id.as_str()) {
            report(errors, message2("duplicate scenario surface ", surface.id.as_str()));
        }
        proof {
            let earlier = surface_ids(scenario.surfaces@).take(index as int);
            assert(texts(errors@) =~= after_text + error_if(
                earlier.contains(surface.id@),
                "duplicate scenario surface "@ + surface.id@,
            ));
            assert(texts(errors@) =~= before + surface_errors(*surface, earlier));
            assert(texts(errors@) =~= start + surfaces_errors(scenario.surfaces@, (index + 1) as nat));
        }
        index = index + 1;
    }
}

} // verus!

verus! {

pub open spec fn checkpoint_ids(checkpoints: Seq<ScenarioCheckpoint>) -> Seq<Seq<char>> {
    checkpoints.map_values(|c: ScenarioCheckpoint| c.id@)
}

/// Checkpoint `j` is the first whose id is `id`.
pub open spec fn first_with_id(checkpoints: Seq<ScenarioCheckpoint>, id: Seq<char>, j: int) -> bool {
    &&& 0 <= j < checkpoints.len()
    &&& checkpoints[j].id@ == id
    &&& forall|k: int| 0 <= k < j ==> checkpoints[k].id@ != id
}

/// A dependency of checkpoint `from` names checkpoint `j`.
pub open spec fn names_dependency(checkpoints: Seq<ScenarioCheckpoint>, from: int, j: int) -> bool {
    exists|d: int|
        0 <= d < checkpoints[from].depends_on@.len() && #[trigger] first_with_id(
            checkpoints,
            checkpoints[from].depends_on@[d]@,
            j,
        )
}

/// A chain of checkpoints, each named by a dependency of the one before it,
/// the first named by a dependency of `start`.
pub open spec fn dependency_path(checkpoints: Seq<ScenarioCheckpoint>, start: int, path: Seq<int>) -> bool {
    &&& path.len() > 0
    &&& names_dependency(checkpoints, start, path[0])
    &&& forall|k: int| 0 <= k < path.len() - 1 ==> names_dependency(checkpoints, #[trigger] path[k], path[k + 1])
}

/// Checkpoint `start` depends, directly or through other checkpoints, on `j`.
pub open spec fn depends_transitively(checkpoints: Seq<ScenarioCheckpoint>, start: int, j: int) -> bool {
    exists|path: Seq<int>| #[trigger] dependency_path(checkpoints, start, path) && path.last() == j
}

/// The number of `true` entries.
pub open spec fn count_true(flags: Seq<bool>) -> nat
    decreases flags.len(),
{
    if flags.len() == 0 {
        0
    } else {
        count_true(flags.drop_last()) + if flags.last() { 1nat } else { 0nat }
    }
}

proof fn lemma_count_true_bound(flags: Seq<bool>)
    ensures
        count_true(flags) <= flags.len(),
    decreases flags.len(),
{
    if flags.len() > 0 {
        lemma_count_true_bound(flags.drop_last());
    }
}

proof fn lemma_count_true_set(flags: Seq<bool>, i: int)
    requires
        0 <= i < flags.len(),
        !flags[i],
    ensures
        count_true(flags.update(i, true)) == count_true(flags) + 1,
    decreases flags.len(),
{
    let updated = flags.update(i, true);
    if i == flags.len() - 1 {
        assert(updated.drop_last() =~= flags.drop_last());
    } else {
        lemma_count_true_set(flags.drop_last(), i);
        assert(updated.drop_last() =~= flags.drop_last().update(i, true));
    }
}

proof fn lemma_count_true_none(flags: Seq<bool>)
    requires
        forall|j: int| 0 <= j < flags.len() ==> !flags[j],
    ensures
        count_true(flags) == 0,
    decreases flags.len(),
{
    if flags.len() > 0 {
        lemma_count_true_none(flags.drop_last());
    }
}

/// The first checkpoint whose id is `id`, if any.
fn first_index_with_id(checkpoints: &Vec<ScenarioCheckpoint>, id: &str) -> (found: Option<usize>)
    ensures
        match found {
            Some(j) => first_with_id(checkpoints@, id@, j as int),
            None => forall|j: int| 0 <= j < checkpoints@.len() ==> checkpoints@[j].id@ != id@,
        },
{
    let mut index: usize = 0;
    while index < checkpoints.len()
        invariant
            index <= checkpoints@.len(),
            forall|k: int| 0 <= k < index ==> checkpoints@[k].id@ != id@,
        decreases checkpoints@.len() - index,
    {
        if text_equal(checkpoints[index].id.as_str(), id) {
            return Some(index);
        }
        index = index + 1;
    }
    None
}

proof fn lemma_first_unique(checkpoints: Seq<ScenarioCheckpoint>, id: Seq<char>, a: int, b: int)
    requires
        first_with_id(checkpoints, id, a),
        first_with_id(checkpoints, id, b),
    ensures
        a == b,
{
    if a < b {
        assert(checkpoints[a].id@ != id);
    }
    if b < a {
        assert(checkpoints[b].id@ != id);
    }
}

/// Mark, and push onto `stack`, each checkpoint that a dependency of `from`
/// names and that is not marked yet.
fn mark_dependencies(
    checkpoints: &Vec<ScenarioCheckpoint>,
    from: usize,
    reached: &mut Vec<bool>,
    stack: &mut Vec<usize>,
    marked: &mut usize,
)
    requires
        from < checkpoints@.len(),
        old(reached)@.len() == checkpoints@.len(),
        *old(marked) == count_true(old(reached)@),
    ensures
        final(reached)@.len() == checkpoints@.len(),
        *final(marked) == count_true(final(reached)@),
        *final(marked) == *old(marked) + (final(stack)@.len() - old(stack)@.len()),
        final(stack)@.len() >= old(stack)@.len(),
        final(stack)@.subrange(0, old(stack)@.len() as int) == old(stack)@,
        forall|k: int|
            old(stack)@.len() <= k < final(stack)@.len() ==> {
                let j = #[trigger] final(stack)@[k] as int;
                &&& j < checkpoints@.len()
                &&& !old(reached)@[j]
                &&& final(reached)@[j]
                &&& names_dependency(checkpoints@, from as int, j)
            },
        forall|k1: int, k2: int|
            old(stack)@.len() <= k1 < k2 < final(stack)@.len() ==> #[trigger] final(stack)@[k1]
                != #[trigger] final(stack)@[k2],
        forall|j: int|
            0 <= j < checkpoints@.len() ==> (#[trigger] final(reached)@[j] <==> (old(reached)@[j]
                || exists|k: int| old(stack)@.len() <= k < final(stack)@.len() && final(stack)@[k] == j)),
        forall|j: int| #[trigger] names_dependency(checkpoints@, from as int, j) ==> final(reached)@[j],
{
    let ghost start_reached = reached@;
    let ghost start_stack = stack@;
    let ghost start_marked = *marked;
    let deps = &checkpoints[from].depends_on;
    let mut d: usize = 0;
    while d < deps.len()
        invariant
            from < checkpoints@.len(),
            deps == checkpoints@[from as int].depends_on,
            d <= deps@.len(),
            reached@.len() == checkpoints@.len(),
            *marked == count_true(reached@),
            *marked == start_marked + (stack@.len() - start_stack.len()),
            stack@.len() >= start_stack.len(),
            stack@.subrange(0, start_stack.len() as int) == start_stack,
            forall|k: int|
                start_stack.len() <= k < stack@.len() ==> {
                    let j = #[trigger] stack@[k] as int;
                    &&& j < checkpoints@.len()
                    &&& !start_reached[j]
                    &&& reached@[j]
                    &&& names_dependency(checkpoints@, from as int, j)
                },
            forall|k1: int, k2: int|
                start_stack.len() <= k1 < k2 < stack@.len() ==> #[trigger] stack@[k1] != #[trigger] stack@[k2],
            forall|j: int|
                0 <= j < checkpoints@.len() ==> (#[trigger] reached@[j] <==> (start_reached[j] || exists|k: int|
                    start_stack.len() <= k < stack@.len() && stack@[k] == j)),
            forall|e: int, j: int|
                0 <= e < d && #[trigger] first_with_id(checkpoints@, deps@[e]@, j) ==> reached@[j],
        decreases deps@.len() - d,
    {
        match first_index_with_id(checkpoints, deps[d].as_str()) {
            Some(j) => {
                if !reached[j] {
                    let ghost before = reached@;
                    let ghost before_stack = stack@;
                    proof {
                        lemma_count_true_set(before, j as int);
                        lemma_count_true_bound(reached@.update(j as int, true));
                        assert(names_dependency(checkpoints@, from as int, j as int)) by {
                            assert(first_with_id(checkpoints@, checkpoints@[from as int].depends_on@[d as int]@, j as int));
                        }
                        assert(!start_reached[j as int]);
                    }
                    let total = checkpoints.len();
                    reached.set(j, true);
                    stack.push(j);
                    assert(*marked + 1 <= total);
                    *marked = *marked + 1;
                    proof {
                        assert(stack@.subrange(0, start_stack.len() as int) =~= start_stack);
                        assert(stack@[stack@.len() - 1] == j);
                        assert forall|jj: int| 0 <= jj < checkpoints@.len() implies (#[trigger] reached@[jj] <==> (
                            start_reached[jj] || exists|k: int| start_stack.len() <= k < stack@.len() && stack@[k] == jj)) by {
                            if jj == j {
                                assert(stack@[stack@.len() - 1] == jj);
                            } else if before[jj] && !start_reached[jj] {
                                let k = choose|k: int| start_stack.len() <= k < before_stack.len() && before_stack[k] == jj;
                                assert(stack@[k] == jj);
                            } else if exists|k: int| start_stack.len() <= k < stack@.len() && stack@[k] == jj {
                                let k = choose|k: int| start_stack.len() <= k < stack@.len() && stack@[k] == jj;
                                if k < before_stack.len() {
                                    assert(before_stack[k] == jj);
                                }
                            }
                        }
                        assert forall|e: int, jj: int|
                            0 <= e < d + 1 && #[trigger] first_with_id(checkpoints@, deps@[e]@, jj) implies reached@[jj] by {
                            if e == d {
                                lemma_first_unique(checkpoints@, deps@[e]@, jj, j as int);
                            }
                        }
                    }
                } else {
                    proof {
                        assert forall|e: int, jj: int|
                            0 <= e < d + 1 && #[trigger] first_with_id(checkpoints@, deps@[e]@, jj) implies reached@[jj] by {
                            if e == d {
                                lemma_first_unique(checkpoints@, deps@[e]@, jj, j as int);
                            }
                        }
                    }
                }
            },
            None => {},
        }
        d = d + 1;
    }
    proof {
        assert forall|j: int| #[trigger] names_dependency(checkpoints@, from as int, j) implies reached@[j] by {
            let e = choose|e: int|
                0 <= e < checkpoints@[from as int].depends_on@.len() && #[trigger] first_with_id(
                    checkpoints@,
                    checkpoints@[from as int].depends_on@[e]@,
                    j,
                );
            assert(first_with_id(checkpoints@, deps@[e]@, j));
        }
    }
}

} // verus!

verus! {

proof fn lemma_reached_complete(checkpoints: Seq<ScenarioCheckpoint>, start: int, reached: Seq<bool>, path: Seq<int>)
    requires
        reached.len() == checkpoints.len(),
        forall|t: int| #[trigger] names_dependency(checkpoints, start, t) ==> reached[t],
        forall|m: int, t: int|
            0 <= m < checkpoints.len() && reached[m] && #[trigger] names_dependency(checkpoints, m, t) ==> reached[t],
        dependency_path(checkpoints, start, path),
    ensures
        reached[path.last()],
    decreases path.len(),
{
    if path.len() > 1 {
        let shorter = path.drop_last();
        assert forall|k: int| 0 <= k < shorter.len() - 1 implies names_dependency(checkpoints, #[trigger] shorter[k], shorter[k + 1]) by {
            assert(names_dependency(checkpoints, path[k], path[k + 1]));
        }
        lemma_reached_complete(checkpoints, start, reached, shorter);
        let m = path[path.len() - 2];
        assert(shorter.last() == m);
        assert(names_dependency(checkpoints, m, path.last()));
        assert(0 <= m < checkpoints.len()) by {
            if path.len() > 2 {
                assert(names_dependency(checkpoints, path[path.len() - 3], m));
            }
        }
    }
}

/// Which checkpoints `start` depends on, directly or transitively, through
/// dependencies that each name the first checkpoint with that id.
fn dependency_closure(checkpoints: &Vec<ScenarioCheckpoint>, start: usize) -> (reached: Vec<bool>)
    requires
        start < checkpoints@.len(),
    ensures
        reached@.len() == checkpoints@.len(),
        forall|j: int|
            0 <= j < checkpoints@.len() ==> (#[trigger] reached@[j] <==> depends_transitively(
                checkpoints@,
                start as int,
                j,
            )),
{
    let n = checkpoints.len();
    let mut reached: Vec<bool> = Vec::new();
    while reached.len() < n
        invariant
            n == checkpoints@.len(),
            reached@.len() <= n,
            forall|j: int| 0 <= j < reached@.len() ==> !reached@[j],
        decreases n - reached@.len(),
    {
        reached.push(false);
    }
    proof {
        lemma_count_true_none(reached@);
    }
    let mut stack: Vec<usize> = Vec::new();
    let mut marked: usize = 0;
    mark_dependencies(checkpoints, start, &mut reached, &mut stack, &mut marked);
    proof {
        lemma_count_true_bound(reached@);
        assert forall|j: int| 0 <= j < n && reached@[j] implies depends_transitively(checkpoints@, start as int, j) by {
            let k = choose|k: int| 0 <= k < stack@.len() && stack@[k] == j;
            assert(stack@[k] == j);
            assert(dependency_path(checkpoints@, start as int, seq![j]));
        }
    }
    while stack.len() > 0
        invariant
            n == checkpoints@.len(),
            start < n,
            reached@.len() == n,
            marked == count_true(reached@),
            marked <= n,
            forall|k: int| 0 <= k < stack@.len() ==> (#[trigger] stack@[k] as int) < n && reached@[stack@[k] as int],
            forall|k1: int, k2: int| 0 <= k1 < k2 < stack@.len() ==> #[trigger] stack@[k1] != #[trigger] stack@[k2],
            forall|j: int| 0 <= j < n && #[trigger] reached@[j] ==> depends_transitively(checkpoints@, start as int, j),
            forall|t: int| #[trigger] names_dependency(checkpoints@, start as int, t) ==> reached@[t],
            forall|m: int, t: int|
                0 <= m < n && reached@[m] && !stack@.contains(m as usize) && #[trigger] names_dependency(
                    checkpoints@,
                    m,
                    t,
                ) ==> reached@[t],
        decreases n - marked, stack@.len(),
    {
        let ghost before_stack = stack@;
        let ghost before_reached = reached@;
        let ghost before_marked = marked;
        let j = stack.pop().unwrap();
        let ghost rest = stack@;
        proof {
            lemma_count_true_bound(reached@);
            assert(rest =~= before_stack.subrange(0, before_stack.len() - 1));
            assert(!rest.contains(j)) by {
                if rest.contains(j) {
                    let k = choose|k: int| 0 <= k < rest.len() && rest[k] == j;
                    assert(before_stack[k] == before_stack[before_stack.len() - 1]);
                }
            }
        }
        mark_dependencies(checkpoints, j, &mut reached, &mut stack, &mut marked);
        proof {
            lemma_count_true_bound(reached@);
            let pushed_from = rest.len();
            assert forall|k: int| 0 <= k < rest.len() implies stack@[k] == before_stack[k] by {
                assert(stack@.subrange(0, rest.len() as int)[k] == rest[k]);
            }
            assert forall|k: int| 0 <= k < stack@.len() implies (#[trigger] stack@[k] as int) < n && reached@[stack@[k] as int] by {
                if k < rest.len() {
                    assert(stack@[k] == rest[k]);
                    assert(rest[k] == before_stack[k]);
                }
            }
            assert forall|k1: int, k2: int| 0 <= k1 < k2 < stack@.len() implies #[trigger] stack@[k1] != #[trigger] stack@[k2] by {
                if k2 < rest.len() {
                    assert(stack@[k1] == before_stack[k1]);
                    assert(stack@[k2] == before_stack[k2]);
                } else if k1 < rest.len() {
                    assert(stack@[k1] == before_stack[k1]);
                    assert(before_reached[stack@[k1] as int]);
                    assert(!before_reached[stack@[k2] as int]);
                }
            }
            assert forall|t: int| 0 <= t < n && #[trigger] reached@[t] implies depends_transitively(checkpoints@, start as int, t) by {
                if !before_reached[t] {
                    let k = choose|k: int| pushed_from <= k < stack@.len() && stack@[k] == t;
                    assert(names_dependency(checkpoints@, j as int, t));
                    assert(depends_transitively(checkpoints@, start as int, j as int));
                    let path = choose|path: Seq<int>| #[trigger] dependency_path(checkpoints@, start as int, path) && path.last() == j as int;
                    let longer = path.push(t);
                    assert forall|k: int| 0 <= k < longer.len() - 1 implies names_dependency(checkpoints@, #[trigger] longer[k], longer[k + 1]) by {
                        if k < path.len() - 1 {
                            assert(longer[k] == path[k] && longer[k + 1] == path[k + 1]);
                        }
                    }
                    assert(dependency_path(checkpoints@, start as int, longer));
                }
            }
            assert forall|m: int, t: int|
                0 <= m < n && reached@[m] && !stack@.contains(m as usize) && #[trigger] names_dependency(
                    checkpoints@,
                    m,
                    t,
                ) implies reached@[t] by {
                if m != j {
                    if !before_reached[m] {
                        let k = choose|k: int| pushed_from <= k < stack@.len() && stack@[k] == m;
                        assert(stack@.contains(m as usize));
                    }
                    if before_stack.contains(m as usize) {
                        let k = choose|k: int| 0 <= k < before_stack.len() && before_stack[k] == m as usize;
                        if k < rest.len() {
                            assert(stack@[k] == m as usize);
                        }
                    }
                    assert(before_reached[t]);
                }
            }
        }
    }
    proof {
        assert forall|j: int| 0 <= j < n && depends_transitively(checkpoints@, start as int, j) implies #[trigger] reached@[j] by {
            let path = choose|path: Seq<int>| #[trigger] dependency_path(checkpoints@, start as int, path) && path.last() == j;
            lemma_reached_complete(checkpoints@, start as int, reached@, path);
        }
    }
    reached
}

} // verus!

verus! {

/// The `(artifact, producer)` events of one checkpoint's outputs.
pub open spec fn own_events(checkpoint: ScenarioCheckpoint) -> Seq<(Seq<char>, Seq<char>)> {
    checkpoint.outputs@.map_values(|o: String| (o@, checkpoint.id@))
}

/// The output events of the checkpoints, in order.
pub open spec fn output_events(checkpoints: Seq<ScenarioCheckpoint>) -> Seq<(Seq<char>, Seq<char>)>
    decreases checkpoints.len(),
{
    if checkpoints.len() == 0 {
        Seq::empty()
    } else {
        output_events(checkpoints.drop_last()) + own_events(checkpoints.last())
    }
}

/// Each artifact mapped to the last checkpoint that produced it.
pub open spec fn producer_map(events: Seq<(Seq<char>, Seq<char>)>) -> Map<Seq<char>, Seq<char>>
    decreases events.len(),
{
    if events.len() == 0 {
        Map::empty()
    } else {
        producer_map(events.drop_last()).insert(events.last().0, events.last().1)
    }
}

pub open spec fn event_views(events: Seq<(String, String)>) -> Seq<(Seq<char>, Seq<char>)> {
    events.map_values(|e: (String, String)| (e.0@, e.1@))
}

proof fn lemma_producer_dom(events: Seq<(Seq<char>, Seq<char>)>, artifact: Seq<char>)
    ensures
        producer_map(events).dom().contains(artifact) <==> exists|i: int| 0 <= i < events.len() && events[i].0 == artifact,
    decreases events.len(),
{
    if events.len() > 0 {
        lemma_producer_dom(events.drop_last(), artifact);
        if exists|i: int| 0 <= i < events.drop_last().len() && events.drop_last()[i].0 == artifact {
            let i = choose|i: int| 0 <= i < events.drop_last().len() && events.drop_last()[i].0 == artifact;
            assert(events[i].0 == artifact);
        }
        if exists|i: int| 0 <= i < events.len() && events[i].0 == artifact {
            let i = choose|i: int| 0 <= i < events.len() && events[i].0 == artifact;
            if i < events.len() - 1 {
                assert(events.drop_last()[i].0 == artifact);
            }
        }
    }
}

proof fn lemma_producer_last(events: Seq<(Seq<char>, Seq<char>)>, artifact: Seq<char>, i: int)
    requires
        0 <= i < events.len(),
        events[i].0 == artifact,
        forall|k: int| i < k < events.len() ==> events[k].0 != artifact,
    ensures
        producer_map(events).dom().contains(artifact),
        producer_map(events)[artifact] == events[i].1,
    decreases events.len(),
{
    if i < events.len() - 1 {
        lemma_producer_last(events.drop_last(), artifact, i);
    }
}

/// The last event that produced `artifact`, if any.
fn last_producer(events: &Vec<(String, String)>, artifact: &str) -> (found: Option<usize>)
    ensures
        match found {
            Some(i) => i < events@.len() && events@[i as int].0@ == artifact@ && forall|k: int|
                i < k < events@.len() ==> events@[k].0@ != artifact@,
            None => forall|k: int| 0 <= k < events@.len() ==> events@[k].0@ != artifact@,
        },
{
    let mut index: usize = events.len();
    while index > 0
        invariant
            index <= events@.len(),
            forall|k: int| index <= k < events@.len() ==> events@[k].0@ != artifact@,
        decreases index,
    {
        if text_equal(events[index - 1].0.as_str(), artifact) {
            return Some(index - 1);
        }
        index = index - 1;
    }
    None
}

/// `artifact` is an output, already produced, of a checkpoint that checkpoint
/// `index` depends on.
pub open spec fn dependency_artifact(
    checkpoints: Seq<ScenarioCheckpoint>,
    index: int,
    produced: Map<Seq<char>, Seq<char>>,
    artifact: Seq<char>,
) -> bool {
    &&& produced.dom().contains(artifact)
    &&& exists|j: int|
        0 <= j < checkpoints.len() && #[trigger] depends_transitively(checkpoints, index, j) && texts(
            checkpoints[j].outputs@,
        ).contains(artifact)
}

/// The artifacts that checkpoint `index` receives from the checkpoints it
/// depends on: their outputs that some earlier checkpoint has produced.
pub fn collect_dependency_artifacts(
    scenario: &EvalScenario,
    index: usize,
    produced: &Vec<(String, String)>,
) -> (available: Vec<String>)
    requires
        index < scenario.checkpoints@.len(),
    ensures
        forall|artifact: Seq<char>|
            #[trigger] texts(available@).contains(artifact) <==> dependency_artifact(
                scenario.checkpoints@,
                index as int,
                producer_map(event_views(produced@)),
                artifact,
            ),
{
    let checkpoints = &scenario.checkpoints;
    let reached = dependency_closure(checkpoints, index);
    let ghost produced_map = producer_map(event_views(produced@));
    let mut available: Vec<String> = Vec::new();
    let mut j: usize = 0;
    while j < checkpoints.len()
        invariant
            reached@.len() == checkpoints@.len(),
            checkpoints == scenario.checkpoints,
            index < checkpoints@.len(),
            j <= checkpoints@.len(),
            produced_map == producer_map(event_views(produced@)),
            forall|jj: int|
                0 <= jj < checkpoints@.len() ==> (#[trigger] reached@[jj] <==> depends_transitively(
                    checkpoints@,
                    index as int,
                    jj,
                )),
            forall|artifact: Seq<char>|
                #[trigger] texts(available@).contains(artifact) <==> (produced_map.dom().contains(artifact)
                    && exists|jj: int|
                    0 <= jj < j && reached@[jj] && texts(checkpoints@[jj].outputs@).contains(artifact)),
        decreases checkpoints@.len() - j,
    {
        if reached[j] {
            let outputs = &checkpoints[j].outputs;
            let ghost before = available@;
            let mut k: usize = 0;
            while k < outputs.len()
                invariant
                    outputs == checkpoints@[j as int].outputs,
                    j < checkpoints@.len(),
                    reached@.len() == checkpoints@.len(),
                    reached@[j as int],
                    k <= outputs@.len(),
                    produced_map == producer_map(event_views(produced@)),
                    forall|artifact: Seq<char>|
                        #[trigger] texts(available@).contains(artifact) <==> (texts(before).contains(artifact) || (
                        produced_map.dom().contains(artifact) && texts(outputs@).take(k as int).contains(artifact))),
                decreases outputs@.len() - k,
            {
                let output = outputs[k].as_str();
                let found = last_producer(produced, output);
                proof {
                    lemma_producer_dom(event_views(produced@), output@);
                    match found {
                        Some(i) => {
                            assert(event_views(produced@)[i as int].0 == output@);
                        },
                        None => {
                            assert forall|i: int| 0 <= i < event_views(produced@).len() implies event_views(
                                produced@,
                            )[i].0 != output@ by {
                                assert(produced@[i].0@ != output@);
                            }
                        },
                    }
                }
                let ghost mid = available@;
                if found.is_some() {
                    available.push(outputs[k].clone());
                }
                proof {
                    assert(texts(outputs@).take(k + 1) =~= texts(outputs@).take(k as int).push(output@));
                    if found.is_some() {
                        assert(texts(available@) =~= texts(mid).push(output@));
                    } else {
                        assert(texts(available@) =~= texts(mid));
                    }
                    assert forall|artifact: Seq<char>|
                        #[trigger] texts(available@).contains(artifact) <==> (texts(before).contains(artifact) || (
                        produced_map.dom().contains(artifact) && texts(outputs@).take(k + 1).contains(artifact))) by {
                        let grown = texts(outputs@).take(k + 1);
                        let prior = texts(outputs@).take(k as int);
                        assert(grown =~= prior.push(output@));
                        if texts(mid).contains(artifact) {
                            let p = choose|p: int| 0 <= p < texts(mid).len() && #[trigger] texts(mid)[p] == artifact;
                            assert(texts(available@)[p] == artifact);
                        }
                        if prior.contains(artifact) {
                            let p = choose|p: int| 0 <= p < prior.len() && #[trigger] prior[p] == artifact;
                            assert(grown[p] == artifact);
                        }
                        if grown.contains(artifact) {
                            let p = choose|p: int| 0 <= p < grown.len() && #[trigger] grown[p] == artifact;
                            if p < k {
                                assert(prior[p] == artifact);
                            }
                        }
                        assert(grown[k as int] == output@);
                        if found.is_some() {
                            assert(texts(available@)[texts(available@).len() - 1] == output@);
                        }
                        if texts(available@).contains(artifact) && !texts(mid).contains(artifact) {
                            let p = choose|p: int| 0 <= p < texts(available@).len() && #[trigger] texts(available@)[p] == artifact;
                            if p < texts(mid).len() {
                                assert(texts(mid)[p] == artifact);
                            }
                        }
                    }
                }
                k = k + 1;
            }
            proof {
                assert(texts(outputs@).take(outputs@.len() as int) =~= texts(outputs@));
                assert forall|artifact: Seq<char>|
                    #[trigger] texts(available@).contains(artifact) <==> (produced_map.dom().contains(artifact)
                        && exists|jj: int|
                        0 <= jj < j + 1 && reached@[jj] && texts(checkpoints@[jj].outputs@).contains(artifact)) by {
                    if produced_map.dom().contains(artifact) && texts(checkpoints@[j as int].outputs@).contains(artifact) {
                        assert(texts(available@).contains(artifact));
                    }
                }
            }
        }
        j = j + 1;
    }
    proof {
        assert forall|artifact: Seq<char>|
            #[trigger] texts(available@).contains(artifact) <==> dependency_artifact(
                scenario.checkpoints@,
                index as int,
                produced_map,
                artifact,
            ) by {
            if dependency_artifact(scenario.checkpoints@, index as int, produced_map, artifact) {
                let jj = choose|jj: int|
                    0 <= jj < checkpoints@.len() && #[trigger] depends_transitively(checkpoints@, index as int, jj)
                        && texts(checkpoints@[jj].outputs@).contains(artifact);
                assert(reached@[jj]);
            }
        }
    }
    available
}

} // verus!

verus! {

/// The dependency errors of a checkpoint: each dependency must name a
/// checkpoint at or before it.
pub open spec fn dependency_errors(id: Seq<char>, deps: Seq<Seq<char>>, known: Seq<Seq<char>>, n: nat) -> Seq<
    Seq<char>,
>
    decreases n,
{
    if n == 0 || n > deps.len() {
        Seq::empty()
    } else {
        dependency_errors(id, deps, known, (n - 1) as nat) + error_if(
            !known.contains(deps[n - 1]),
            "checkpoint "@ + id + " dependency "@ + deps[n - 1] + " must name an earlier checkpoint"@,
        )
    }
}

/// An artifact is available to checkpoint `index` when it is an initial
/// artifact or comes from a checkpoint it depends on.
pub open spec fn artifact_available(s: EvalScenario, index: int, artifact: Seq<char>) -> bool {
    texts(s.initial_artifacts@).contains(artifact) || dependency_artifact(
        s.checkpoints@,
        index,
        producer_map(output_events(s.checkpoints@.take(index))),
        artifact,
    )
}

/// The errors for the first `n` inputs of checkpoint `index`.
pub open spec fn input_errors(s: EvalScenario, index: int, n: nat) -> Seq<Seq<char>>
    decreases n,
{
    let c = s.checkpoints@[index];
    if n == 0 || n > c.inputs@.len() {
        Seq::empty()
    } else {
        input_errors(s, index, (n - 1) as nat) + error_if(
            !artifact_available(s, index, c.inputs@[n - 1]@),
            "checkpoint "@ + c.id@ + " input "@ + c.inputs@[n - 1]@ + " is not produced by its dependencies"@,
        )
    }
}

/// The errors for the first `n` outputs of checkpoint `index`.
pub open spec fn output_errors(s: EvalScenario, index: int, n: nat) -> Seq<Seq<char>>
    decreases n,
{
    let c = s.checkpoints@[index];
    if n == 0 || n > c.outputs@.len() {
        Seq::empty()
    } else {
        let output = c.outputs@[n - 1]@;
        let producers = producer_map(output_events(s.checkpoints@.take(index)) + own_events(c).take(n - 1));
        output_errors(s, index, (n - 1) as nat) + error_if(
            texts(s.initial_artifacts@).contains(output),
            "checkpoint "@ + c.id@ + " output "@ + output + " duplicates an initial artifact"@,
        ) + error_if(
            producers.dom().contains(output),
            "artifact "@ + output + " is produced by both "@ + producers[output] + " and "@ + c.id@,
        )
    }
}

/// The errors of checkpoint `index` of a scenario.
pub open spec fn checkpoint_errors(s: EvalScenario, index: int) -> Seq<Seq<char>> {
    let c = s.checkpoints@[index];
    let ids = checkpoint_ids(s.checkpoints@);
    required_errors("scenario checkpoint id"@, c.id@) + required_errors(
        "checkpoint "@ + c.id@ + " name"@,
        c.name@,
    ) + required_errors("checkpoint "@ + c.id@ + " objective"@, c.objective@) + error_if(
        ids.take(index).contains(c.id@),
        "duplicate scenario checkpoint "@ + c.id@,
    ) + error_if(
        !surface_ids(s.surfaces@).contains(c.surface@),
        "checkpoint "@ + c.id@ + " references unknown surface "@ + c.surface@,
    ) + dependency_errors(c.id@, texts(c.depends_on@), ids.take(index + 1), c.depends_on@.len()) + input_errors(
        s,
        index,
        c.inputs@.len(),
    ) + error_if(c.outputs@.len() == 0, "checkpoint "@ + c.id@ + " must produce at least one artifact"@)
        + output_errors(s, index, c.outputs@.len())
}

fn checkpoint_appears_before(checkpoints: &Vec<ScenarioCheckpoint>, upto: usize, id: &str) -> (found: bool)
    requires
        upto <= checkpoints@.len(),
    ensures
        found == checkpoint_ids(checkpoints@).take(upto as int).contains(id@),
{
    let mut index: usize = 0;
    while index < upto
        invariant
            upto <= checkpoints@.len(),
            index <= upto,
            forall|j: int| 0 <= j < index ==> checkpoints@[j].id@ != id@,
        decreases upto - index,
    {
        if text_equal(checkpoints[index].id.as_str(), id) {
            assert(checkpoint_ids(checkpoints@).take(upto as int)[index as int] == id@);
            return true;
        }
        index = index + 1;
    }
    assert forall|j: int| 0 <= j < upto implies checkpoint_ids(checkpoints@).take(upto as int)[j] != id@ by {}
    false
}

fn report_dependency_errors(scenario: &EvalScenario, index: usize, errors: &mut Vec<String>)
    requires
        index < scenario.checkpoints@.len(),
    ensures
        texts(final(errors)@) == texts(old(errors)@) + dependency_errors(
            scenario.checkpoints@[index as int].id@,
            texts(scenario.checkpoints@[index as int].depends_on@),
            checkpoint_ids(scenario.checkpoints@).take(index + 1),
            scenario.checkpoints@[index as int].depends_on@.len(),
        ),
{
    let checkpoint = &scenario.checkpoints[index];
    let ghost start = texts(errors@);
    let ghost deps = texts(checkpoint.depends_on@);
    let ghost known = checkpoint_ids(scenario.checkpoints@).take(index + 1);
    let total = scenario.checkpoints.len();
    let upto = index + 1;
    let mut d: usize = 0;
    while d < checkpoint.depends_on.len()
        invariant
            index < scenario.checkpoints@.len(),
            checkpoint == scenario.checkpoints@[index as int],
            deps == texts(checkpoint.depends_on@),
            known == checkpoint_ids(scenario.checkpoints@).take(index + 1),
            upto == index + 1,
            d <= checkpoint.depends_on@.len(),
            texts(errors@) == start + dependency_errors(checkpoint.id@, deps, known, d as nat),
        decreases checkpoint.depends_on@.len() - d,
    {
        let dependency = checkpoint.depends_on[d].as_str();
        let known_now = checkpoint_appears_before(&scenario.checkpoints, upto, dependency);
        let mut message = message3("checkpoint ", checkpoint.id.as_str(), " dependency ");
        append_text(&mut message, dependency);
        append_text(&mut message, " must name an earlier checkpoint");
        report_when(errors, !known_now, message);
        proof {
            assert(deps[d as int] == dependency@);
            assert(texts(errors@) =~= start + dependency_errors(checkpoint.id@, deps, known, (d + 1) as nat));
        }
        d = d + 1;
    }
}

fn report_input_errors(
    scenario: &EvalScenario,
    index: usize,
    produced: &Vec<(String, String)>,
    errors: &mut Vec<String>,
)
    requires
        index < scenario.checkpoints@.len(),
        event_views(produced@) == output_events(scenario.checkpoints@.take(index as int)),
    ensures
        texts(final(errors)@) == texts(old(errors)@) + input_errors(
            *scenario,
            index as int,
            scenario.checkpoints@[index as int].inputs@.len(),
        ),
{
    let checkpoint = &scenario.checkpoints[index];
    let ghost start = texts(errors@);
    let available = collect_dependency_artifacts(scenario, index, produced);
    let mut k: usize = 0;
    while k < checkpoint.inputs.len()
        invariant
            index < scenario.checkpoints@.len(),
            checkpoint == scenario.checkpoints@[index as int],
            event_views(produced@) == output_events(scenario.checkpoints@.take(index as int)),
            forall|artifact: Seq<char>|
                #[trigger] texts(available@).contains(artifact) <==> dependency_artifact(
                    scenario.checkpoints@,
                    index as int,
                    producer_map(event_views(produced@)),
                    artifact,
                ),
            k <= checkpoint.inputs@.len(),
            texts(errors@) == start + input_errors(*scenario, index as int, k as nat),
        decreases checkpoint.inputs@.len() - k,
    {
        let input = checkpoint.inputs[k].as_str();
        let present = appears_before(&scenario.initial_artifacts, scenario.initial_artifacts.len(), input)
            || appears_before(&available, available.len(), input);
        proof {
            assert(texts(scenario.initial_artifacts@).take(scenario.initial_artifacts@.len() as int) =~= texts(
                scenario.initial_artifacts@,
            ));
            assert(texts(available@).take(available@.len() as int) =~= texts(available@));
            assert(present == artifact_available(*scenario, index as int, input@));
        }
        let mut message = message3("checkpoint ", checkpoint.id.as_str(), " input ");
        append_text(&mut message, input);
        append_text(&mut message, " is not produced by its dependencies");
        report_when(errors, !present, message);
        proof {
            assert(texts(errors@) =~= start + input_errors(*scenario, index as int, (k + 1) as nat));
        }
        k = k + 1;
    }
}

} // verus!

verus! {

fn report_output_errors(
    scenario: &EvalScenario,
    index: usize,
    produced: &mut Vec<(String, String)>,
    errors: &mut Vec<String>,
)
    requires
        index < scenario.checkpoints@.len(),
        event_views(old(produced)@) == output_events(scenario.checkpoints@.take(index as int)),
    ensures
        event_views(final(produced)@) == output_events(scenario.checkpoints@.take(index + 1)),
        texts(final(errors)@) == texts(old(errors)@) + output_errors(
            *scenario,
            index as int,
            scenario.checkpoints@[index as int].outputs@.len(),
        ),
{
    let checkpoint = &scenario.checkpoints[index];
    let ghost start = texts(errors@);
    let ghost prior = output_events(scenario.checkpoints@.take(index as int));
    let mut k: usize = 0;
    while k < checkpoint.outputs.len()
        invariant
            index < scenario.checkpoints@.len(),
            checkpoint == scenario.checkpoints@[index as int],
            prior == output_events(scenario.checkpoints@.take(index as int)),
            k <= checkpoint.outputs@.len(),
            event_views(produced@) == prior + own_events(*checkpoint).take(k as int),
            texts(errors@) == start + output_errors(*scenario, index as int, k as nat),
        decreases checkpoint.outputs@.len() - k,
    {
        let output = checkpoint.outputs[k].as_str();
        let ghost events = event_views(produced@);
        let initial = appears_before(&scenario.initial_artifacts, scenario.initial_artifacts.len(), output);
        proof {
            assert(texts(scenario.initial_artifacts@).take(scenario.initial_artifacts@.len() as int) =~= texts(
                scenario.initial_artifacts@,
            ));
        }
        let mut message = message3("checkpoint ", checkpoint.id.as_str(), " output ");
        append_text(&mut message, output);
        append_text(&mut message, " duplicates an initial artifact");
        report_when(errors, initial, message);
        let ghost after_initial = texts(errors@);
        let found = last_producer(produced, output);
        match found {
            Some(i) => {
                proof {
                    assert(events[i as int].0 == output@);
                    assert forall|q: int| i < q < events.len() implies events[q].0 != output@ by {
                        assert(produced@[q].0@ != output@);
                    }
                    lemma_producer_last(events, output@, i as int);
                }
                let mut message = message3("artifact ", output, " is produced by both ");
                append_text(&mut message, produced[i].1.as_str());
                append_text(&mut message, " and ");
                append_text(&mut message, checkpoint.id.as_str());
                report(errors, message);
            },
            None => {
                proof {
                    lemma_producer_dom(events, output@);
                    assert forall|q: int| 0 <= q < events.len() implies events[q].0 != output@ by {
                        assert(produced@[q].0@ != output@);
                    }
                }
            },
        }
        proof {
            let producers = producer_map(prior + own_events(*checkpoint).take(k as int));
            assert(events == prior + own_events(*checkpoint).take(k as int));
            assert(texts(errors@) =~= after_initial + error_if(
                producers.dom().contains(output@),
                "artifact "@ + output@ + " is produced by both "@ + producers[output@] + " and "@ + checkpoint.id@,
            ));
            assert(texts(errors@) =~= start + output_errors(*scenario, index as int, (k + 1) as nat));
        }
        let ghost before_push = produced@;
        produced.push((checkpoint.outputs[k].clone(), checkpoint.id.clone()));
        proof {
            assert(own_events(*checkpoint).take(k + 1) =~= own_events(*checkpoint).take(k as int).push(
                (output@, checkpoint.id@),
            ));
            assert(event_views(produced@) =~= event_views(before_push).push((output@, checkpoint.id@)));
            assert(event_views(produced@) =~= prior + own_events(*checkpoint).take(k + 1));
        }
        k = k + 1;
    }
    proof {
        let taken = scenario.checkpoints@.take(index + 1);
        assert(taken.drop_last() =~= scenario.checkpoints@.take(index as int));
        assert(taken.last() == *checkpoint);
        assert(own_events(*checkpoint).take(checkpoint.outputs@.len() as int) =~= own_events(*checkpoint));
        assert(output_events(taken) == output_events(taken.drop_last()) + own_events(taken.last()));
    }
}

} // verus!

verus! {

#[verifier::rlimit(80)]
#[verifier::spinoff_prover]
fn report_checkpoint_errors(
    scenario: &EvalScenario,
    index: usize,
    produced: &mut Vec<(String, String)>,
    errors: &mut Vec<String>,
)
    requires
        index < scenario.checkpoints@.len(),
        event_views(old(produced)@) == output_events(scenario.checkpoints@.take(index as int)),
    ensures
        event_views(final(produced)@) == output_events(scenario.checkpoints@.take(index + 1)),
        texts(final(errors)@) == texts(old(errors)@) + checkpoint_errors(*scenario, index as int),
{
    let checkpoint = &scenario.checkpoints[index];
    let ghost start = texts(errors@);
    require_text("scenario checkpoint id", checkpoint.id.as_str(), errors);
    let ghost a = texts(errors@);
    let name_label = message3("checkpoint ", checkpoint.id.as_str(), " name");
    require_text(name_label.as_str(), checkpoint.name.as_str(), errors);
    let ghost b = texts(errors@);
    let objective_label = message3("checkpoint ", checkpoint.id.as_str(), " objective");
    require_text(objective_label.as_str(), checkpoint.objective.as_str(), errors);
    let ghost c = texts(errors@);
    let repeated = checkpoint_appears_before(&scenario.checkpoints, index, checkpoint.id.as_str());
    report_when(errors, repeated, message2("duplicate scenario checkpoint ", checkpoint.id.as_str()));
    let ghost d = texts(errors@);
    let known_surface = surface_appears_before(&scenario.surfaces, scenario.surfaces.len(), checkpoint.surface.as_str());
    proof {
        assert(surface_ids(scenario.surfaces@).take(scenario.surfaces@.len() as int) =~= surface_ids(scenario.surfaces@));
    }
    let mut message = message3("checkpoint ", checkpoint.id.as_str(), " references unknown surface ");
    append_text(&mut message, checkpoint.surface.as_str());
    report_when(errors, !known_surface, message);
    let ghost e = texts(errors@);
    report_dependency_errors(scenario, index, errors);
    let ghost f = texts(errors@);
    report_input_errors(scenario, index, produced, errors);
    let ghost g = texts(errors@);
    report_when(
        errors,
        checkpoint.outputs.len() == 0,
        message3("checkpoint ", checkpoint.id.as_str(), " must produce at least one artifact"),
    );
    let ghost h = texts(errors@);
    report_output_errors(scenario, index, produced, errors);
    proof {
        let cp = *checkpoint;
        let ids = checkpoint_ids(scenario.checkpoints@);
        let p1 = required_errors("scenario checkpoint id"@, cp.id@);
        let p2 = required_errors("checkpoint "@ + cp.id@ + " name"@, cp.name@);
        let p3 = required_errors("checkpoint "@ + cp.id@ + " objective"@, cp.objective@);
        let p4 = error_if(ids.take(index as int).contains(cp.id@), "duplicate scenario checkpoint "@ + cp.id@);
        let p5 = error_if(
            !surface_ids(scenario.surfaces@).contains(cp.surface@),
            "checkpoint "@ + cp.id@ + " references unknown surface "@ + cp.surface@,
        );
        let p6 = dependency_errors(cp.id@, texts(cp.depends_on@), ids.take(index + 1), cp.depends_on@.len());
        let p7 = input_errors(*scenario, index as int, cp.inputs@.len());
        let p8 = error_if(cp.outputs@.len() == 0, "checkpoint "@ + cp.id@ + " must produce at least one artifact"@);
        let p9 = output_errors(*scenario, index as int, cp.outputs@.len());
        assert(b =~= start + (p1 + p2));
        assert(c =~= start + (p1 + p2 + p3));
        assert(d =~= start + (p1 + p2 + p3 + p4));
        assert(e =~= start + (p1 + p2 + p3 + p4 + p5));
        assert(f =~= start + (p1 + p2 + p3 + p4 + p5 + p6));
        assert(g =~= start + (p1 + p2 + p3 + p4 + p5 + p6 + p7));
        assert(h =~= start + (p1 + p2 + p3 + p4 + p5 + p6 + p7 + p8));
        assert(texts(errors@) =~= start + (p1 + p2 + p3 + p4 + p5 + p6 + p7 + p8 + p9));
        assert(checkpoint_errors(*scenario, index as int) == p1 + p2 + p3 + p4 + p5 + p6 + p7 + p8 + p9);
    }
}

/// The errors of the first `n` checkpoints.
pub open spec fn checkpoints_errors(s: EvalScenario, n: nat) -> Seq<Seq<char>>
    decreases n,
{
    if n == 0 || n > s.checkpoints@.len() {
        Seq::empty()
    } else {
        checkpoints_errors(s, (n - 1) as nat) + checkpoint_errors(s, n - 1)
    }
}

/// Texts that strictly increase in byte order.
pub open spec fn sorted_texts(ordered: Seq<Seq<char>>) -> bool {
    forall|i: int, j: int|
        0 <= i < j < ordered.len() ==> crate::codec::lex_lt(
            crate::key_set::utf8(#[trigger] ordered[i]),
            crate::key_set::utf8(#[trigger] ordered[j]),
        )
}

/// The errors for surfaces, listed in `ordered`, that no checkpoint exercises.
pub open spec fn uncovered_surface_errors(s: EvalScenario, ordered: Seq<Seq<char>>, n: nat) -> Seq<Seq<char>>
    decreases n,
{
    if n == 0 || n > ordered.len() {
        Seq::empty()
    } else {
        uncovered_surface_errors(s, ordered, (n - 1) as nat) + error_if(
            !exists|j: int| 0 <= j < s.checkpoints@.len() && #[trigger] s.checkpoints@[j].surface@ == ordered[n - 1],
            "scenario surface "@ + ordered[n - 1] + " has no checkpoint"@,
        )
    }
}

/// Every error of a scenario, with its distinct surface ids in byte order.
pub open spec fn scenario_errors(s: EvalScenario, ordered_surfaces: Seq<Seq<char>>) -> Seq<Seq<char>> {
    scenario_header_errors(s) + seed_errors(s.id@, s.seeds@, s.seeds@.len()) + surfaces_errors(
        s.surfaces@,
        s.surfaces@.len(),
    ) + checkpoints_errors(s, s.checkpoints@.len()) + uncovered_surface_errors(
        s,
        ordered_surfaces,
        ordered_surfaces.len(),
    )
}

fn surface_exercised(checkpoints: &Vec<ScenarioCheckpoint>, surface: &str) -> (found: bool)
    ensures
        found == exists|j: int| 0 <= j < checkpoints@.len() && #[trigger] checkpoints@[j].surface@ == surface@,
{
    let mut index: usize = 0;
    while index < checkpoints.len()
        invariant
            index <= checkpoints@.len(),
            forall|j: int| 0 <= j < index ==> checkpoints@[j].surface@ != surface@,
        decreases checkpoints@.len() - index,
    {
        if text_equal(checkpoints[index].surface.as_str(), surface) {
            return true;
        }
        index = index + 1;
    }
    false
}

/// Check a scenario's structure, appending each error in order: its header,
/// repeated seeds, surfaces, checkpoints (their dependencies, the inputs their
/// dependencies make available, and the artifacts they produce), and the
/// surfaces, in byte order, that no checkpoint exercises.
pub fn validate_scenario(scenario: &EvalScenario, errors: &mut Vec<String>)
    ensures
        exists|ordered: Seq<Seq<char>>|
            sorted_texts(ordered) && ordered.to_set() == surface_ids(scenario.surfaces@).to_set() && texts(
                final(errors)@,
            ) == texts(old(errors)@) + scenario_errors(*scenario, ordered),
{
    let ghost start = texts(errors@);
    header_errors(scenario, errors);
    let ghost a = texts(errors@);
    repeated_seed_errors(scenario, errors);
    let ghost b = texts(errors@);
    all_surface_errors(scenario, errors);
    let ghost c = texts(errors@);
    let mut produced: Vec<(String, String)> = Vec::new();
    let mut index: usize = 0;
    proof {
        assert(event_views(produced@) =~= output_events(scenario.checkpoints@.take(0)));
    }
    while index < scenario.checkpoints.len()
        invariant
            index <= scenario.checkpoints@.len(),
            event_views(produced@) == output_events(scenario.checkpoints@.take(index as int)),
            texts(errors@) == c + checkpoints_errors(*scenario, index as nat),
        decreases scenario.checkpoints@.len() - index,
    {
        report_checkpoint_errors(scenario, index, &mut produced, errors);
        assert(texts(errors@) =~= c + checkpoints_errors(*scenario, (index + 1) as nat));
        index = index + 1;
    }
    let ghost d = texts(errors@);
    let mut ordered: Vec<String> = Vec::new();
    let mut k: usize = 0;
    while k < scenario.surfaces.len()
        invariant
            k <= scenario.surfaces@.len(),
            keys_sorted(ordered@),
            key_texts(ordered@) == surface_ids(scenario.surfaces@).take(k as int).to_set(),
        decreases scenario.surfaces@.len() - k,
    {
        insert_key(&mut ordered, scenario.surfaces[k].id.clone());
        proof {
            let grown = surface_ids(scenario.surfaces@).take(k + 1);
            let prior = surface_ids(scenario.surfaces@).take(k as int);
            let id = scenario.surfaces@[k as int].id@;
            assert forall|t: Seq<char>| grown.to_set().contains(t) <==> prior.to_set().insert(id).contains(t) by {
                if grown.contains(t) {
                    let j = choose|j: int| 0 <= j < grown.len() && grown[j] == t;
                    if j < k {
                        assert(prior[j] == t);
                    }
                }
                if prior.contains(t) {
                    let j = choose|j: int| 0 <= j < prior.len() && prior[j] == t;
                    assert(grown[j] == t);
                }
                if t == id {
                    assert(grown[k as int] == t);
                }
            }
            assert(grown.to_set() =~= prior.to_set().insert(id));
        }
        k = k + 1;
    }
    let ghost ordered_texts = texts(ordered@);
    proof {
        assert(surface_ids(scenario.surfaces@).take(scenario.surfaces@.len() as int) =~= surface_ids(scenario.surfaces@));
        assert forall|t: Seq<char>| ordered_texts.to_set().contains(t) <==> key_texts(ordered@).contains(t) by {
            if ordered_texts.contains(t) {
                let j = choose|j: int| 0 <= j < ordered_texts.len() && ordered_texts[j] == t;
                assert(ordered@[j]@ == t);
            }
            if key_texts(ordered@).contains(t) {
                let j = choose|j: int| 0 <= j < ordered@.len() && ordered@[j]@ == t;
                assert(ordered_texts[j] == t);
            }
        }
        assert(ordered_texts.to_set() =~= surface_ids(scenario.surfaces@).to_set());
        assert(sorted_texts(ordered_texts));
    }
    let mut m: usize = 0;
    while m < ordered.len()
        invariant
            m <= ordered@.len(),
            ordered_texts == texts(ordered@),
            texts(errors@) == d + uncovered_surface_errors(*scenario, ordered_texts, m as nat),
        decreases ordered@.len() - m,
    {
        let surface = ordered[m].as_str();
        let exercised = surface_exercised(&scenario.checkpoints, surface);
        let mut message = message2("scenario surface ", surface);
        append_text(&mut message, " has no checkpoint");
        report_when(errors, !exercised, message);
        assert(texts(errors@) =~= d + uncovered_surface_errors(*scenario, ordered_texts, (m + 1) as nat));
        m = m + 1;
    }
    proof {
        let h = scenario_header_errors(*scenario);
        let se = seed_errors(scenario.id@, scenario.seeds@, scenario.seeds@.len());
        let su = surfaces_errors(scenario.surfaces@, scenario.surfaces@.len());
        let ce = checkpoints_errors(*scenario, scenario.checkpoints@.len());
        let ue = uncovered_surface_errors(*scenario, ordered_texts, ordered_texts.len());
        assert(b =~= start + (h + se));
        assert(c =~= start + (h + se + su));
        assert(d =~= start + (h + se + su + ce));
        assert(texts(errors@) =~= start + (h + se + su + ce + ue));
        assert(texts(errors@) =~= start + scenario_errors(*scenario, ordered_texts));
    }
}

} // verus!

verus! {

/// The position of the first text equal to `id`, or the length when none is.
pub open spec fn first_index(ids: Seq<Seq<char>>, id: Seq<char>) -> int
    decreases ids.len(),
{
    if ids.len() == 0 {
        0
    } else {
        let earlier = first_index(ids.drop_last(), id);
        if earlier < ids.len() - 1 {
            earlier
        } else if ids.last() == id {
            ids.len() - 1
        } else {
            ids.len() as int
        }
    }
}

proof fn lemma_first_index(ids: Seq<Seq<char>>, id: Seq<char>, k: int)
    requires
        0 <= k <= ids.len(),
        forall|j: int| 0 <= j < k ==> ids[j] != id,
        k == ids.len() || ids[k] == id,
    ensures
        first_index(ids, id) == k,
    decreases ids.len(),
{
    if ids.len() > 0 {
        if k == ids.len() {
            lemma_first_index(ids.drop_last(), id, k - 1);
        } else if k == ids.len() - 1 {
            lemma_first_index(ids.drop_last(), id, k);
        } else {
            lemma_first_index(ids.drop_last(), id, k);
        }
    }
}

/// One workload of a suite, as program validation reads it.
#[derive(Clone, Debug, PartialEq, Eq)]
pub struct WorkloadOutline {
    pub id: String,
    pub lane: String,
    /// The workload names a `negative_control` parameter with a string value.
    pub negative_control: bool,
}

/// One lane of a suite, as program validation reads it.
#[derive(Clone, Debug, PartialEq, Eq)]
pub struct LaneOutline {
    pub id: String,
    pub primary_metric: String,
    pub statistic: String,
    pub direction: crate::config::Direction,
}

/// What program validation and planning read of a loaded suite.
#[derive(Clone, Debug, PartialEq, Eq)]
pub struct SuiteOutline {
    pub id: String,
    /// Each profile id with its repeat count.
    pub profiles: Vec<(String, u32)>,
    pub workloads: Vec<WorkloadOutline>,
    pub lanes: Vec<LaneOutline>,
    /// Each metric id with its OpenTelemetry name.
    pub metrics: Vec<(String, String)>,
}

/// The outcome of loading the suite at one path.
#[derive(Clone, Debug, PartialEq, Eq)]
pub enum SuiteLoad {
    Loaded(SuiteOutline),
    Failed { path: String, error: String },
}

pub open spec fn profile_ids(suite: SuiteOutline) -> Seq<Seq<char>> {
    suite.profiles@.map_values(|p: (String, u32)| p.0@)
}

pub open spec fn workload_ids(suite: SuiteOutline) -> Seq<Seq<char>> {
    suite.workloads@.map_values(|w: WorkloadOutline| w.id@)
}

pub open spec fn lane_ids(suite: SuiteOutline) -> Seq<Seq<char>> {
    suite.lanes@.map_values(|l: LaneOutline| l.id@)
}

pub open spec fn metric_ids(suite: SuiteOutline) -> Seq<Seq<char>> {
    suite.metrics@.map_values(|m: (String, String)| m.0@)
}

/// The first profile with this id, if any.
pub fn find_profile(suite: &SuiteOutline, id: &str) -> (found: Option<usize>)
    ensures
        match found {
            Some(k) => k < suite.profiles@.len() && k == first_index(profile_ids(*suite), id@),
            None => first_index(profile_ids(*suite), id@) == suite.profiles@.len(),
        },
        found.is_none() <==> !profile_ids(*suite).contains(id@),
{
    let ghost ids = profile_ids(*suite);
    let mut k: usize = 0;
    while k < suite.profiles.len()
        invariant
            k <= suite.profiles@.len(),
            ids == profile_ids(*suite),
            forall|j: int| 0 <= j < k ==> ids[j] != id@,
        decreases suite.profiles@.len() - k,
    {
        if text_equal(suite.profiles[k].0.as_str(), id) {
            proof {
                lemma_first_index(ids, id@, k as int);
                assert(ids[k as int] == id@);
            }
            return Some(k);
        }
        k = k + 1;
    }
    proof {
        lemma_first_index(ids, id@, k as int);
    }
    None
}

/// The first workload with this id, if any.
pub fn find_workload(suite: &SuiteOutline, id: &str) -> (found: Option<usize>)
    ensures
        match found {
            Some(k) => k < suite.workloads@.len() && k == first_index(workload_ids(*suite), id@),
            None => first_index(workload_ids(*suite), id@) == suite.workloads@.len(),
        },
        found.is_none() <==> !workload_ids(*suite).contains(id@),
{
    let ghost ids = workload_ids(*suite);
    let mut k: usize = 0;
    while k < suite.workloads.len()
        invariant
            k <= suite.workloads@.len(),
            ids == workload_ids(*suite),
            forall|j: int| 0 <= j < k ==> ids[j] != id@,
        decreases suite.workloads@.len() - k,
    {
        if text_equal(suite.workloads[k].id.as_str(), id) {
            proof {
                lemma_first_index(ids, id@, k as int);
                assert(ids[k as int] == id@);
            }
            return Some(k);
        }
        k = k + 1;
    }
    proof {
        lemma_first_index(ids, id@, k as int);
    }
    None
}

/// The first lane with this id, if any.
pub fn resolve_lane(suite: &SuiteOutline, id: &str) -> (found: Option<usize>)
    ensures
        match found {
            Some(k) => k < suite.lanes@.len() && k == first_index(lane_ids(*suite), id@),
            None => first_index(lane_ids(*suite), id@) == suite.lanes@.len(),
        },
        found.is_none() <==> !lane_ids(*suite).contains(id@),
{
    let ghost ids = lane_ids(*suite);
    let mut k: usize = 0;
    while k < suite.lanes.len()
        invariant
            k <= suite.lanes@.len(),
            ids == lane_ids(*suite),
            forall|j: int| 0 <= j < k ==> ids[j] != id@,
        decreases suite.lanes@.len() - k,
    {
        if text_equal(suite.lanes[k].id.as_str(), id) {
            proof {
                lemma_first_index(ids, id@, k as int);
                assert(ids[k as int] == id@);
            }
            return Some(k);
        }
        k = k + 1;
    }
    proof {
        lemma_first_index(ids, id@, k as int);
    }
    None
}

/// The first metric with this id, if any.
pub fn find_metric(suite: &SuiteOutline, id: &str) -> (found: Option<usize>)
    ensures
        match found {
            Some(k) => k < suite.metrics@.len() && k == first_index(metric_ids(*suite), id@),
            None => first_index(metric_ids(*suite), id@) == suite.metrics@.len(),
        },
        found.is_none() <==> !metric_ids(*suite).contains(id@),
{
    let ghost ids = metric_ids(*suite);
    let mut k: usize = 0;
    while k < suite.metrics.len()
        invariant
            k <= suite.metrics@.len(),
            ids == metric_ids(*suite),
            forall|j: int| 0 <= j < k ==> ids[j] != id@,
        decreases suite.metrics@.len() - k,
    {
        if text_equal(suite.metrics[k].0.as_str(), id) {
            proof {
                lemma_first_index(ids, id@, k as int);
                assert(ids[k as int] == id@);
            }
            return Some(k);
        }
        k = k + 1;
    }
    proof {
        lemma_first_index(ids, id@, k as int);
    }
    None
}

} // verus!

verus! {

/// The control a comparison gate is measured against.
#[derive(Clone, Debug, PartialEq, Eq)]
pub struct ProgramControl {
    pub id: String,
    pub suite: String,
    pub profile: String,
    pub workload: String,
    pub backend: String,
    pub lane: String,
}

/// One gate of a program phase.
#[derive(Clone, Debug, PartialEq, Eq)]
pub struct ProgramGate {
    pub id: String,
    pub status: ProgramGateStatus,
    pub kind: ProgramGateKind,
    pub claim: String,
    pub falsifier: String,
    pub requirement_ids: Vec<String>,
    pub suite: String,
    pub profile: String,
    pub workload: String,
    pub backend: String,
    pub lane: String,
    pub checkpoint: Option<String>,
    pub negative_controls: Vec<String>,
    pub evidence: Vec<String>,
    pub control: Option<ProgramControl>,
}

/// One phase of a program.
#[derive(Clone, Debug, PartialEq, Eq)]
pub struct ProgramPhase {
    pub id: String,
    pub name: String,
    pub objective: String,
    pub depends_on: Vec<String>,
    pub gates: Vec<ProgramGate>,
}

/// A product-level evaluation program.
#[derive(Clone, Debug, PartialEq, Eq)]
pub struct EvalProgram {
    pub schema_version: u32,
    pub id: String,
    pub status: ProgramGateStatus,
    pub spec: String,
    pub decision_log: String,
    pub comparison_schema: String,
    pub scenario: Option<String>,
    pub phases: Vec<ProgramPhase>,
}

/// A program with the paths it names resolved against its directory.
#[derive(Clone, Debug, PartialEq, Eq)]
pub struct LoadedProgram {
    pub program_path: String,
    pub program: EvalProgram,
    pub spec_path: String,
    pub decision_log_path: String,
    pub comparison_schema_path: String,
    pub scenario_path: Option<String>,
    pub scenario: Option<EvalScenario>,
}

/// Why a program could not be loaded or planned.
#[derive(Clone, Debug, PartialEq, Eq)]
pub enum ProgramError {
    Io { path: String, message: String },
    Parse { path: String, message: String },
    Invalid(Vec<String>),
}

/// A performance or economics gate compares a candidate with a control.
pub open spec fn is_comparison(kind: ProgramGateKind) -> bool {
    kind == ProgramGateKind::Performance || kind == ProgramGateKind::Economics
}

/// The `Debug` text of a gate kind.
pub open spec fn kind_text(kind: ProgramGateKind) -> Seq<char> {
    match kind {
        ProgramGateKind::Correctness => "Correctness"@,
        ProgramGateKind::Performance => "Performance"@,
        ProgramGateKind::Compatibility => "Compatibility"@,
        ProgramGateKind::Operational => "Operational"@,
        ProgramGateKind::Economics => "Economics"@,
    }
}

fn kind_debug(kind: ProgramGateKind) -> (text: &'static str)
    ensures
        text@ == kind_text(kind),
{
    match kind {
        ProgramGateKind::Correctness => "Correctness",
        ProgramGateKind::Performance => "Performance",
        ProgramGateKind::Compatibility => "Compatibility",
        ProgramGateKind::Operational => "Operational",
        ProgramGateKind::Economics => "Economics",
    }
}

/// The spec row marker a requirement id must appear in: `| <id> |`.
pub open spec fn requirement_marker(requirement: Seq<char>) -> Seq<char> {
    "| "@ + requirement + " |"@
}

/// The errors for the first `n` requirement ids of a gate.
pub open spec fn requirement_errors(gate_id: Seq<char>, requirements: Seq<Seq<char>>, spec: Seq<char>, n: nat) -> Seq<
    Seq<char>,
>
    decreases n,
{
    if n == 0 || n > requirements.len() {
        Seq::empty()
    } else {
        let requirement = requirements[n - 1];
        requirement_errors(gate_id, requirements, spec, (n - 1) as nat) + error_if(
            requirements.take(n - 1).contains(requirement),
            "gate "@ + gate_id + " repeats requirement "@ + requirement,
        ) + error_if(
            !crate::codec::contains_bytes(
                crate::key_set::utf8(spec),
                crate::key_set::utf8(requirement_marker(requirement)),
            ),
            "gate "@ + gate_id + " references requirement "@ + requirement + " absent from the spec"@,
        )
    }
}

/// The errors for a gate's required texts and its requirement list.
pub open spec fn gate_text_errors(gate: ProgramGate, phase_id: Seq<char>) -> Seq<Seq<char>> {
    let id = gate.id@;
    required_errors("gate id"@, id) + required_errors("gate "@ + id + " claim"@, gate.claim@) + required_errors(
        "gate "@ + id + " falsifier"@,
        gate.falsifier@,
    ) + required_errors("gate "@ + id + " backend"@, gate.backend@) + error_if(
        gate.requirement_ids@.len() == 0,
        "gate "@ + id + " in phase "@ + phase_id + " must cite at least one requirement"@,
    )
}

/// The errors for what a gate of its status and kind must name.
pub open spec fn gate_rule_errors(gate: ProgramGate) -> Seq<Seq<char>> {
    let id = gate.id@;
    error_if(
        gate.status == ProgramGateStatus::Verified && gate.evidence@.len() == 0,
        "verified gate "@ + id + " must cite at least one evidence receipt"@,
    ) + error_if(
        gate.kind == ProgramGateKind::Correctness && gate.negative_controls@.len() == 0,
        "correctness gate "@ + id + " must name at least one negative control"@,
    ) + error_if(
        is_comparison(gate.kind) && gate.control.is_none(),
        kind_text(gate.kind) + " gate "@ + id + " must name a paired control"@,
    )
}

/// The errors of a gate's own fields, given the ids of gates already seen.
pub open spec fn gate_field_errors(gate: ProgramGate, phase_id: Seq<char>, spec: Seq<char>, seen: Set<Seq<char>>) -> Seq<
    Seq<char>,
> {
    error_if(seen.contains(gate.id@), "duplicate gate id "@ + gate.id@) + gate_text_errors(gate, phase_id)
        + requirement_errors(gate.id@, texts(gate.requirement_ids@), spec, gate.requirement_ids@.len())
        + gate_rule_errors(gate)
}

fn report_requirement_errors(gate: &ProgramGate, spec: &str, errors: &mut Vec<String>)
    ensures
        texts(final(errors)@) == texts(old(errors)@) + requirement_errors(
            gate.id@,
            texts(gate.requirement_ids@),
            spec@,
            gate.requirement_ids@.len(),
        ),
{
    let ghost start = texts(errors@);
    let ghost requirements = texts(gate.requirement_ids@);
    let mut k: usize = 0;
    while k < gate.requirement_ids.len()
        invariant
            k <= gate.requirement_ids@.len(),
            requirements == texts(gate.requirement_ids@),
            texts(errors@) == start + requirement_errors(gate.id@, requirements, spec@, k as nat),
        decreases gate.requirement_ids@.len() - k,
    {
        let requirement = gate.requirement_ids[k].as_str();
        let repeated = appears_before(&gate.requirement_ids, k, requirement);
        let mut message = message3("gate ", gate.id.as_str(), " repeats requirement ");
        append_text(&mut message, requirement);
        report_when(errors, repeated, message);
        let ghost mid = texts(errors@);
        let marker = message3("| ", requirement, " |");
        let cited = crate::codec::find_bytes(spec.as_bytes(), marker.as_str().as_bytes());
        let mut message = message3("gate ", gate.id.as_str(), " references requirement ");
        append_text(&mut message, requirement);
        append_text(&mut message, " absent from the spec");
        report_when(errors, !cited, message);
        proof {
            assert(requirements[k as int] == requirement@);
            assert(texts(errors@) =~= start + requirement_errors(gate.id@, requirements, spec@, (k + 1) as nat));
        }
        k = k + 1;
    }
}

fn report_gate_text_errors(gate: &ProgramGate, phase_id: &str, errors: &mut Vec<String>)
    ensures
        texts(final(errors)@) == texts(old(errors)@) + gate_text_errors(*gate, phase_id@),
{
    let ghost start = texts(errors@);
    require_text("gate id", gate.id.as_str(), errors);
    let ghost b = texts(errors@);
    let label = message3("gate ", gate.id.as_str(), " claim");
    require_text(label.as_str(), gate.claim.as_str(), errors);
    let ghost c = texts(errors@);
    let label = message3("gate ", gate.id.as_str(), " falsifier");
    require_text(label.as_str(), gate.falsifier.as_str(), errors);
    let ghost d = texts(errors@);
    let label = message3("gate ", gate.id.as_str(), " backend");
    require_text(label.as_str(), gate.backend.as_str(), errors);
    let ghost e = texts(errors@);
    let mut message = message3("gate ", gate.id.as_str(), " in phase ");
    append_text(&mut message, phase_id);
    append_text(&mut message, " must cite at least one requirement");
    report_when(errors, gate.requirement_ids.len() == 0, message);
    proof {
        let id = gate.id@;
        let q2 = required_errors("gate id"@, id);
        let q3 = required_errors("gate "@ + id + " claim"@, gate.claim@);
        let q4 = required_errors("gate "@ + id + " falsifier"@, gate.falsifier@);
        let q5 = required_errors("gate "@ + id + " backend"@, gate.backend@);
        let q6 = error_if(
            gate.requirement_ids@.len() == 0,
            "gate "@ + id + " in phase "@ + phase_id@ + " must cite at least one requirement"@,
        );
        assert(c =~= start + (q2 + q3));
        assert(d =~= start + (q2 + q3 + q4));
        assert(e =~= start + (q2 + q3 + q4 + q5));
        assert(texts(errors@) =~= start + (q2 + q3 + q4 + q5 + q6));
    }
}

fn report_gate_rule_errors(gate: &ProgramGate, errors: &mut Vec<String>)
    ensures
        texts(final(errors)@) == texts(old(errors)@) + gate_rule_errors(*gate),
{
    let ghost start = texts(errors@);
    let verified = match gate.status {
        ProgramGateStatus::Verified => true,
        _ => false,
    };
    report_when(
        errors,
        verified && gate.evidence.len() == 0,
        message3("verified gate ", gate.id.as_str(), " must cite at least one evidence receipt"),
    );
    let ghost h = texts(errors@);
    let correctness = match gate.kind {
        ProgramGateKind::Correctness => true,
        _ => false,
    };
    report_when(
        errors,
        correctness && gate.negative_controls.len() == 0,
        message3("correctness gate ", gate.id.as_str(), " must name at least one negative control"),
    );
    let ghost i = texts(errors@);
    let comparison = match gate.kind {
        ProgramGateKind::Performance | ProgramGateKind::Economics => true,
        _ => false,
    };
    let mut message = message3(kind_debug(gate.kind), " gate ", gate.id.as_str());
    append_text(&mut message, " must name a paired control");
    report_when(errors, comparison && gate.control.is_none(), message);
    proof {
        let id = gate.id@;
        let q8 = error_if(
            gate.status == ProgramGateStatus::Verified && gate.evidence@.len() == 0,
            "verified gate "@ + id + " must cite at least one evidence receipt"@,
        );
        let q9 = error_if(
            gate.kind == ProgramGateKind::Correctness && gate.negative_controls@.len() == 0,
            "correctness gate "@ + id + " must name at least one negative control"@,
        );
        let q10 = error_if(
            is_comparison(gate.kind) && gate.control.is_none(),
            kind_text(gate.kind) + " gate "@ + id + " must name a paired control"@,
        );
        assert(i =~= start + (q8 + q9));
        assert(texts(errors@) =~= start + (q8 + q9 + q10));
    }
}

/// Check a gate's own fields, recording its id among those seen.
pub fn validate_gate_fields(
    gate: &ProgramGate,
    phase_id: &str,
    spec: &str,
    gate_ids: &mut Vec<String>,
    errors: &mut Vec<String>,
)
    requires
        keys_sorted(old(gate_ids)@),
    ensures
        keys_sorted(final(gate_ids)@),
        key_texts(final(gate_ids)@) == key_texts(old(gate_ids)@).insert(gate.id@),
        texts(final(errors)@) == texts(old(errors)@) + gate_field_errors(
            *gate,
            phase_id@,
            spec@,
            key_texts(old(gate_ids)@),
        ),
{
    let ghost start = texts(errors@);
    let ghost seen = key_texts(gate_ids@);
    let mut seen_before = false;
    let mut k: usize = 0;
    while k < gate_ids.len()
        invariant
            k <= gate_ids@.len(),
            seen_before == exists|j: int| 0 <= j < k && gate_ids@[j]@ == gate.id@,
        decreases gate_ids@.len() - k,
    {
        if text_equal(gate_ids[k].as_str(), gate.id.as_str()) {
            seen_before = true;
        }
        k = k + 1;
    }
    assert(seen_before == seen.contains(gate.id@));
    report_when(errors, seen_before, message2("duplicate gate id ", gate.id.as_str()));
    insert_key(gate_ids, gate.id.clone());
    let ghost a = texts(errors@);
    report_gate_text_errors(gate, phase_id, errors);
    let ghost b = texts(errors@);
    report_requirement_errors(gate, spec, errors);
    let ghost c = texts(errors@);
    report_gate_rule_errors(gate, errors);
    proof {
        let q1 = error_if(seen.contains(gate.id@), "duplicate gate id "@ + gate.id@);
        let q2 = gate_text_errors(*gate, phase_id@);
        let q3 = requirement_errors(gate.id@, texts(gate.requirement_ids@), spec@, gate.requirement_ids@.len());
        let q4 = gate_rule_errors(*gate);
        assert(b =~= start + (q1 + q2));
        assert(c =~= start + (q1 + q2 + q3));
        assert(texts(errors@) =~= start + (q1 + q2 + q3 + q4));
    }
}

} // verus!

verus! {

/// The workload a gate or control names must exist and belong to its lane.
pub open spec fn workload_errors(owner: Seq<char>, workload: Seq<char>, lane: Seq<char>, suite: SuiteOutline) -> Seq<
    Seq<char>,
> {
    let k = first_index(workload_ids(suite), workload);
    if k < suite.workloads@.len() {
        error_if(
            suite.workloads@[k].lane@ != lane,
            owner + " expects lane "@ + lane + " but workload "@ + workload + " belongs to "@ + suite.workloads@[k].lane@,
        )
    } else {
        seq![owner + " references workload "@ + workload + " absent from suite "@ + suite.id@]
    }
}

fn report_workload_errors(owner: &str, workload: &str, lane: &str, suite: &SuiteOutline, errors: &mut Vec<String>)
    ensures
        texts(final(errors)@) == texts(old(errors)@) + workload_errors(owner@, workload@, lane@, *suite),
{
    match find_workload(suite, workload) {
        Some(k) => {
            let found = &suite.workloads[k];
            let mut message = message3(owner, " expects lane ", lane);
            append_text(&mut message, " but workload ");
            append_text(&mut message, workload);
            append_text(&mut message, " belongs to ");
            append_text(&mut message, found.lane.as_str());
            report_when(errors, !text_equal(found.lane.as_str(), lane), message);
        },
        None => {
            let mut message = message3(owner, " references workload ", workload);
            append_text(&mut message, " absent from suite ");
            append_text(&mut message, suite.id.as_str());
            report(errors, message);
        },
    }
}

/// The errors for the first `n` negative controls of a gate.
pub open spec fn negative_control_errors(gate_id: Seq<char>, controls: Seq<Seq<char>>, suite: SuiteOutline, n: nat) -> Seq<
    Seq<char>,
>
    decreases n,
{
    if n == 0 || n > controls.len() {
        Seq::empty()
    } else {
        let control = controls[n - 1];
        let k = first_index(workload_ids(suite), control);
        negative_control_errors(gate_id, controls, suite, (n - 1) as nat) + if k < suite.workloads@.len() {
            error_if(
                !suite.workloads@[k].negative_control,
                "gate "@ + gate_id + " negative control "@ + control + " is not marked negative_control"@,
            )
        } else {
            seq!["gate "@ + gate_id + " references negative control "@ + control + " absent from suite "@ + suite.id@]
        }
    }
}

/// What a gate names of its suite must exist there.
pub open spec fn gate_suite_reference_errors(gate: ProgramGate, suite: SuiteOutline) -> Seq<Seq<char>> {
    let id = gate.id@;
    error_if(
        !profile_ids(suite).contains(gate.profile@),
        "gate "@ + id + " references profile "@ + gate.profile@ + " absent from suite "@ + suite.id@,
    ) + workload_errors("gate "@ + id, gate.workload@, gate.lane@, suite) + error_if(
        !lane_ids(suite).contains(gate.lane@),
        "gate "@ + id + " references lane "@ + gate.lane@ + " absent from suite "@ + suite.id@,
    ) + negative_control_errors(id, texts(gate.negative_controls@), suite, gate.negative_controls@.len())
}

fn report_negative_control_errors(gate: &ProgramGate, suite: &SuiteOutline, errors: &mut Vec<String>)
    ensures
        texts(final(errors)@) == texts(old(errors)@) + negative_control_errors(
            gate.id@,
            texts(gate.negative_controls@),
            *suite,
            gate.negative_controls@.len(),
        ),
{
    let ghost start = texts(errors@);
    let ghost controls = texts(gate.negative_controls@);
    let mut k: usize = 0;
    while k < gate.negative_controls.len()
        invariant
            k <= gate.negative_controls@.len(),
            controls == texts(gate.negative_controls@),
            texts(errors@) == start + negative_control_errors(gate.id@, controls, *suite, k as nat),
        decreases gate.negative_controls@.len() - k,
    {
        let control = gate.negative_controls[k].as_str();
        match find_workload(suite, control) {
            Some(w) => {
                let mut message = message3("gate ", gate.id.as_str(), " negative control ");
                append_text(&mut message, control);
                append_text(&mut message, " is not marked negative_control");
                report_when(errors, !suite.workloads[w].negative_control, message);
            },
            None => {
                let mut message = message3("gate ", gate.id.as_str(), " references negative control ");
                append_text(&mut message, control);
                append_text(&mut message, " absent from suite ");
                append_text(&mut message, suite.id.as_str());
                report(errors, message);
            },
        }
        proof {
            assert(controls[k as int] == control@);
            assert(texts(errors@) =~= start + negative_control_errors(gate.id@, controls, *suite, (k + 1) as nat));
        }
        k = k + 1;
    }
}

/// Check what a gate names of its suite.
pub fn validate_gate_suite_references(gate: &ProgramGate, suite: &SuiteOutline, errors: &mut Vec<String>)
    ensures
        texts(final(errors)@) == texts(old(errors)@) + gate_suite_reference_errors(*gate, *suite),
{
    let ghost start = texts(errors@);
    let mut message = message3("gate ", gate.id.as_str(), " references profile ");
    append_text(&mut message, gate.profile.as_str());
    append_text(&mut message, " absent from suite ");
    append_text(&mut message, suite.id.as_str());
    report_when(errors, find_profile(suite, gate.profile.as_str()).is_none(), message);
    let ghost a = texts(errors@);
    let owner = message2("gate ", gate.id.as_str());
    report_workload_errors(owner.as_str(), gate.workload.as_str(), gate.lane.as_str(), suite, errors);
    let ghost b = texts(errors@);
    let mut message = message3("gate ", gate.id.as_str(), " references lane ");
    append_text(&mut message, gate.lane.as_str());
    append_text(&mut message, " absent from suite ");
    append_text(&mut message, suite.id.as_str());
    report_when(errors, resolve_lane(suite, gate.lane.as_str()).is_none(), message);
    let ghost c = texts(errors@);
    report_negative_control_errors(gate, suite, errors);
    proof {
        let id = gate.id@;
        let p1 = error_if(
            !profile_ids(*suite).contains(gate.profile@),
            "gate "@ + id + " references profile "@ + gate.profile@ + " absent from suite "@ + suite.id@,
        );
        let p2 = workload_errors("gate "@ + id, gate.workload@, gate.lane@, *suite);
        let p3 = error_if(
            !lane_ids(*suite).contains(gate.lane@),
            "gate "@ + id + " references lane "@ + gate.lane@ + " absent from suite "@ + suite.id@,
        );
        let p4 = negative_control_errors(id, texts(gate.negative_controls@), *suite, gate.negative_controls@.len());
        assert(b =~= start + (p1 + p2));
        assert(c =~= start + (p1 + p2 + p3));
        assert(texts(errors@) =~= start + (p1 + p2 + p3 + p4));
    }
}

/// What a control names of its suite must exist there.
pub open spec fn control_suite_errors(control: ProgramControl, suite: SuiteOutline) -> Seq<Seq<char>> {
    let id = control.id@;
    error_if(
        !profile_ids(suite).contains(control.profile@),
        "control "@ + id + " references profile "@ + control.profile@ + " absent from suite "@ + suite.id@,
    ) + workload_errors("control "@ + id, control.workload@, control.lane@, suite) + error_if(
        !lane_ids(suite).contains(control.lane@),
        "control "@ + id + " references lane "@ + control.lane@ + " absent from suite "@ + suite.id@,
    )
}

/// The errors of a paired control, given how loading its suite went.
pub open spec fn control_errors(control: ProgramControl, load: SuiteLoad) -> Seq<Seq<char>> {
    let id = control.id@;
    required_errors("control id"@, id) + required_errors("control "@ + id + " backend"@, control.backend@) + match load {
        SuiteLoad::Loaded(suite) => control_suite_errors(control, suite),
        SuiteLoad::Failed { path, error } => seq!["control "@ + id + " suite "@ + path@ + " is invalid: "@ + error@],
    }
}

/// Check a paired control against the suite it names.
pub fn validate_control(control: &ProgramControl, load: &SuiteLoad, errors: &mut Vec<String>)
    ensures
        texts(final(errors)@) == texts(old(errors)@) + control_errors(*control, *load),
{
    let ghost start = texts(errors@);
    require_text("control id", control.id.as_str(), errors);
    let label = message3("control ", control.id.as_str(), " backend");
    require_text(label.as_str(), control.backend.as_str(), errors);
    let ghost b = texts(errors@);
    match load {
        SuiteLoad::Loaded(suite) => {
            let mut message = message3("control ", control.id.as_str(), " references profile ");
            append_text(&mut message, control.profile.as_str());
            append_text(&mut message, " absent from suite ");
            append_text(&mut message, suite.id.as_str());
            report_when(errors, find_profile(suite, control.profile.as_str()).is_none(), message);
            let ghost c = texts(errors@);
            let owner = message2("control ", control.id.as_str());
            report_workload_errors(owner.as_str(), control.workload.as_str(), control.lane.as_str(), suite, errors);
            let ghost d = texts(errors@);
            let mut message = message3("control ", control.id.as_str(), " references lane ");
            append_text(&mut message, control.lane.as_str());
            append_text(&mut message, " absent from suite ");
            append_text(&mut message, suite.id.as_str());
            report_when(errors, resolve_lane(suite, control.lane.as_str()).is_none(), message);
            proof {
                let id = control.id@;
                let p1 = error_if(
                    !profile_ids(*suite).contains(control.profile@),
                    "control "@ + id + " references profile "@ + control.profile@ + " absent from suite "@ + suite.id@,
                );
                let p2 = workload_errors("control "@ + id, control.workload@, control.lane@, *suite);
                let p3 = error_if(
                    !lane_ids(*suite).contains(control.lane@),
                    "control "@ + id + " references lane "@ + control.lane@ + " absent from suite "@ + suite.id@,
                );
                assert(d =~= b + (p1 + p2));
                assert(texts(errors@) =~= b + control_suite_errors(*control, *suite));
            }
        },
        SuiteLoad::Failed { path, error } => {
            let mut message = message3("control ", control.id.as_str(), " suite ");
            append_text(&mut message, path.as_str());
            append_text(&mut message, " is invalid: ");
            append_text(&mut message, error.as_str());
            report(errors, message);
        },
    }
    proof {
        let id = control.id@;
        assert(texts(errors@) =~= start + control_errors(*control, *load));
    }
}

} // verus!

verus! {

/// A performance gate being evaluated or verified needs at least five repeats
/// in the profile it names, when the suite has that profile.
pub open spec fn repeats_errors(gate_id: Seq<char>, label: Seq<char>, suite: SuiteOutline, profile: Seq<char>) -> Seq<
    Seq<char>,
> {
    let k = first_index(profile_ids(suite), profile);
    if k < suite.profiles@.len() && suite.profiles@[k].1 < 5 {
        seq![
            "evaluating performance gate "@ + gate_id + " "@ + label + " profile "@ + profile + " has "@
                + decimal_chars(suite.profiles@[k].1 as u64) + " repeats; at least 5 are required"@,
        ]
    } else {
        Seq::empty()
    }
}

/// A gate under evaluation or verified.
pub open spec fn under_evaluation(status: ProgramGateStatus) -> bool {
    status == ProgramGateStatus::Evaluating || status == ProgramGateStatus::Verified
}

/// A gate and its control must compare one metric, statistic and direction;
/// a performance gate under evaluation needs enough repeats on both sides.
/// Nothing is checked unless both suites load and both lanes exist.
pub open spec fn compatibility_errors(
    gate: ProgramGate,
    control: ProgramControl,
    gate_load: SuiteLoad,
    control_load: SuiteLoad,
) -> Seq<Seq<char>> {
    match (gate_load, control_load) {
        (SuiteLoad::Loaded(a), SuiteLoad::Loaded(b)) => {
            let la = first_index(lane_ids(a), gate.lane@);
            let lb = first_index(lane_ids(b), control.lane@);
            if la < a.lanes@.len() && lb < b.lanes@.len() {
                let x = a.lanes@[la];
                let y = b.lanes@[lb];
                let pair = "gate "@ + gate.id@ + " and control "@ + control.id@;
                error_if(
                    x.primary_metric@ != y.primary_metric@,
                    pair + " use different primary metrics: "@ + x.primary_metric@ + " versus "@ + y.primary_metric@,
                ) + error_if(
                    x.statistic@ != y.statistic@,
                    pair + " use different statistics: "@ + x.statistic@ + " versus "@ + y.statistic@,
                ) + error_if(x.direction != y.direction, pair + " use different metric directions"@) + if gate.kind
                    == ProgramGateKind::Performance && under_evaluation(gate.status) {
                    repeats_errors(gate.id@, "candidate"@, a, gate.profile@) + repeats_errors(
                        gate.id@,
                        "control"@,
                        b,
                        control.profile@,
                    )
                } else {
                    Seq::empty()
                }
            } else {
                Seq::empty()
            }
        },
        _ => Seq::empty(),
    }
}

fn report_repeats_errors(gate_id: &str, label: &str, suite: &SuiteOutline, profile: &str, errors: &mut Vec<String>)
    ensures
        texts(final(errors)@) == texts(old(errors)@) + repeats_errors(gate_id@, label@, *suite, profile@),
{
    match find_profile(suite, profile) {
        Some(k) => {
            let repeats = suite.profiles[k].1;
            let digits = crate::codec::decimal_text(repeats as u64);
            let mut message = message3("evaluating performance gate ", gate_id, " ");
            append_text(&mut message, label);
            append_text(&mut message, " profile ");
            append_text(&mut message, profile);
            append_text(&mut message, " has ");
            append_text(&mut message, digits.as_str());
            append_text(&mut message, " repeats; at least 5 are required");
            report_when(errors, repeats < 5, message);
        },
        None => {
            assert(texts(errors@) =~= texts(errors@) + repeats_errors(gate_id@, label@, *suite, profile@));
        },
    }
}

/// Check that a gate and its control are comparable.
#[verifier::rlimit(40)]
pub fn validate_control_compatibility(
    gate: &ProgramGate,
    control: &ProgramControl,
    gate_load: &SuiteLoad,
    control_load: &SuiteLoad,
    errors: &mut Vec<String>,
)
    ensures
        texts(final(errors)@) == texts(old(errors)@) + compatibility_errors(*gate, *control, *gate_load, *control_load),
{
    let ghost start = texts(errors@);
    let (candidate_suite, control_suite) = match (gate_load, control_load) {
        (SuiteLoad::Loaded(a), SuiteLoad::Loaded(b)) => (a, b),
        _ => {
            assert(texts(errors@) =~= start + compatibility_errors(*gate, *control, *gate_load, *control_load));
            return ;
        },
    };
    let (la, lb) = match (resolve_lane(candidate_suite, gate.lane.as_str()), resolve_lane(control_suite, control.lane.as_str())) {
        (Some(la), Some(lb)) => (la, lb),
        _ => {
            assert(texts(errors@) =~= start + compatibility_errors(*gate, *control, *gate_load, *control_load));
            return ;
        },
    };
    let x = &candidate_suite.lanes[la];
    let y = &control_suite.lanes[lb];
    let mut pair = message2("gate ", gate.id.as_str());
    append_text(&mut pair, " and control ");
    append_text(&mut pair, control.id.as_str());
    let mut message = message3(pair.as_str(), " use different primary metrics: ", x.primary_metric.as_str());
    append_text(&mut message, " versus ");
    append_text(&mut message, y.primary_metric.as_str());
    report_when(errors, !text_equal(x.primary_metric.as_str(), y.primary_metric.as_str()), message);
    let ghost a1 = texts(errors@);
    let mut message = message3(pair.as_str(), " use different statistics: ", x.statistic.as_str());
    append_text(&mut message, " versus ");
    append_text(&mut message, y.statistic.as_str());
    report_when(errors, !text_equal(x.statistic.as_str(), y.statistic.as_str()), message);
    let ghost a2 = texts(errors@);
    report_when(
        errors,
        !crate::comparison::same_direction(x.direction, y.direction),
        message2(pair.as_str(), " use different metric directions"),
    );
    let ghost a3 = texts(errors@);
    let performance = match gate.kind {
        ProgramGateKind::Performance => true,
        _ => false,
    };
    let evaluating = match gate.status {
        ProgramGateStatus::Evaluating | ProgramGateStatus::Verified => true,
        _ => false,
    };
    if performance && evaluating {
        report_repeats_errors(gate.id.as_str(), "candidate", candidate_suite, gate.profile.as_str(), errors);
        let ghost a4 = texts(errors@);
        report_repeats_errors(gate.id.as_str(), "control", control_suite, control.profile.as_str(), errors);
        proof {
            assert(texts(errors@) =~= a3 + (repeats_errors(gate.id@, "candidate"@, *candidate_suite, gate.profile@)
                + repeats_errors(gate.id@, "control"@, *control_suite, control.profile@)));
        }
    } else {
        assert(texts(errors@) =~= a3 + Seq::empty());
    }
    proof {
        let pairs = "gate "@ + gate.id@ + " and control "@ + control.id@;
        assert(pair@ =~= pairs);
        let w1 = error_if(
            x.primary_metric@ != y.primary_metric@,
            pairs + " use different primary metrics: "@ + x.primary_metric@ + " versus "@ + y.primary_metric@,
        );
        let w2 = error_if(x.statistic@ != y.statistic@, pairs + " use different statistics: "@ + x.statistic@ + " versus "@ + y.statistic@);
        let w3 = error_if(x.direction != y.direction, pairs + " use different metric directions"@);
        assert(a2 =~= start + (w1 + w2));
        assert(a3 =~= start + (w1 + w2 + w3));
        assert(texts(errors@) =~= start + compatibility_errors(*gate, *control, *gate_load, *control_load));
    }
}

} // verus!

verus! {

/// The suites a gate and its control name, as loading them went.
#[derive(Clone, Debug, PartialEq, Eq)]
pub struct GateSuites {
    pub gate: SuiteLoad,
    pub control: Option<SuiteLoad>,
}

/// Every error of one gate: its fields, its suite, and its paired control.
pub open spec fn gate_errors(
    gate: ProgramGate,
    phase_id: Seq<char>,
    spec: Seq<char>,
    seen: Set<Seq<char>>,
    suites: GateSuites,
) -> Seq<Seq<char>> {
    gate_field_errors(gate, phase_id, spec, seen) + match suites.gate {
        SuiteLoad::Loaded(suite) => gate_suite_reference_errors(gate, suite),
        SuiteLoad::Failed { path, error } => seq!["gate "@ + gate.id@ + " suite "@ + path@ + " is invalid: "@ + error@],
    } + match gate.control {
        Some(control) => control_errors(control, suites.control.unwrap()) + compatibility_errors(
            gate,
            control,
            suites.gate,
            suites.control.unwrap(),
        ),
        None => Seq::empty(),
    }
}

/// Check one gate of phase `phase_id` against the program spec and the suites
/// it names, recording its id among those seen.
#[verifier::rlimit(60)]
#[verifier::spinoff_prover]
pub fn validate_gate(
    gate: &ProgramGate,
    phase_id: &str,
    spec: &str,
    gate_ids: &mut Vec<String>,
    suites: &GateSuites,
    errors: &mut Vec<String>,
)
    requires
        keys_sorted(old(gate_ids)@),
        gate.control.is_some() ==> suites.control.is_some(),
    ensures
        keys_sorted(final(gate_ids)@),
        key_texts(final(gate_ids)@) == key_texts(old(gate_ids)@).insert(gate.id@),
        texts(final(errors)@) == texts(old(errors)@) + gate_errors(
            *gate,
            phase_id@,
            spec@,
            key_texts(old(gate_ids)@),
            *suites,
        ),
        gate.status == ProgramGateStatus::Verified && gate.evidence@.len() == 0 ==> texts(final(errors)@).contains(
            "verified gate "@ + gate.id@ + " must cite at least one evidence receipt"@,
        ),
{
    let ghost start = texts(errors@);
    let ghost seen = key_texts(gate_ids@);
    validate_gate_fields(gate, phase_id, spec, gate_ids, errors);
    let ghost a = texts(errors@);
    match &suites.gate {
        SuiteLoad::Loaded(suite) => validate_gate_suite_references(gate, suite, errors),
        SuiteLoad::Failed { path, error } => {
            let mut message = message3("gate ", gate.id.as_str(), " suite ");
            append_text(&mut message, path.as_str());
            append_text(&mut message, " is invalid: ");
            append_text(&mut message, error.as_str());
            report(errors, message);
        },
    }
    let ghost b = texts(errors@);
    match &gate.control {
        Some(control) => {
            let control_load = match &suites.control {
                Some(load) => load,
                None => {
                    assert(false);
                    return ;
                },
            };
            validate_control(control, control_load, errors);
            let ghost c = texts(errors@);
            validate_control_compatibility(gate, control, &suites.gate, control_load, errors);
            proof {
                assert(texts(errors@) =~= b + (control_errors(*control, *control_load) + compatibility_errors(
                    *gate,
                    *control,
                    suites.gate,
                    *control_load,
                )));
            }
        },
        None => {
            assert(texts(errors@) =~= b + Seq::empty());
        },
    }
    proof {
        let gs = *suites;
        let gt = *gate;
        let g1 = gate_field_errors(*gate, phase_id@, spec@, seen);
        let g2 = match gs.gate {
            SuiteLoad::Loaded(suite) => gate_suite_reference_errors(*gate, suite),
            SuiteLoad::Failed { path, error } => seq!["gate "@ + gate.id@ + " suite "@ + path@ + " is invalid: "@ + error@],
        };
        let g3 = match gt.control {
            Some(control) => control_errors(control, suites.control.unwrap()) + compatibility_errors(
                *gate,
                control,
                suites.gate,
                suites.control.unwrap(),
            ),
            None => Seq::empty(),
        };
        assert(b =~= start + (g1 + g2));
        assert(texts(errors@) =~= start + (g1 + g2 + g3));
        if gate.status == ProgramGateStatus::Verified && gate.evidence@.len() == 0 {
            lemma_verified_gate_needs_evidence(*gate, phase_id@, spec@, seen, *suites);
            let message = "verified gate "@ + gate.id@ + " must cite at least one evidence receipt"@;
            let k = choose|k: int| 0 <= k < (g1 + g2 + g3).len() && (g1 + g2 + g3)[k] == message;
            assert(texts(errors@)[start.len() + k] == message);
        }
    }
}

/// Evidence law: whatever its kind, a gate whose status is `Verified` and
/// which cites no evidence receipt is refused with the message
/// `verified gate <id> must cite at least one evidence receipt`.
pub proof fn lemma_verified_gate_needs_evidence(
    gate: ProgramGate,
    phase_id: Seq<char>,
    spec: Seq<char>,
    seen: Set<Seq<char>>,
    suites: GateSuites,
)
    requires
        gate.status == ProgramGateStatus::Verified,
        gate.evidence@.len() == 0,
    ensures
        gate_errors(gate, phase_id, spec, seen, suites).contains(
            "verified gate "@ + gate.id@ + " must cite at least one evidence receipt"@,
        ),
{
    let message = "verified gate "@ + gate.id@ + " must cite at least one evidence receipt"@;
    let all = gate_errors(gate, phase_id, spec, seen, suites);
    let before = error_if(seen.contains(gate.id@), "duplicate gate id "@ + gate.id@) + gate_text_errors(gate, phase_id)
        + requirement_errors(gate.id@, texts(gate.requirement_ids@), spec, gate.requirement_ids@.len());
    let rules = gate_rule_errors(gate);
    assert(rules[0] == message);
    assert(gate_field_errors(gate, phase_id, spec, seen) == before + rules);
    assert(all[before.len() as int] == message);
}

/// The `(checkpoint, phase)` pairs a program's phases record: each gate that
/// names a checkpoint of the scenario records it with its phase's index.
pub open spec fn gate_events(gates: Seq<ProgramGate>, phase: nat, known: Seq<Seq<char>>, n: nat) -> Seq<
    (Seq<char>, nat),
>
    decreases n,
{
    if n == 0 || n > gates.len() {
        Seq::empty()
    } else {
        gate_events(gates, phase, known, (n - 1) as nat) + match gates[n - 1].checkpoint {
            Some(checkpoint) => if known.contains(checkpoint@) {
                seq![(checkpoint@, phase)]
            } else {
                Seq::empty()
            },
            None => Seq::empty(),
        }
    }
}

pub open spec fn phase_events(phases: Seq<ProgramPhase>, known: Seq<Seq<char>>, n: nat) -> Seq<(Seq<char>, nat)>
    decreases n,
{
    if n == 0 || n > phases.len() {
        Seq::empty()
    } else {
        phase_events(phases, known, (n - 1) as nat) + gate_events(
            phases[n - 1].gates@,
            (n - 1) as nat,
            known,
            phases[n - 1].gates@.len(),
        )
    }
}

pub open spec fn event_keys(events: Seq<(Seq<char>, nat)>) -> Seq<Seq<char>> {
    events.map_values(|e: (Seq<char>, nat)| e.0)
}

pub open spec fn phase_event_views(events: Seq<(String, usize)>) -> Seq<(Seq<char>, nat)> {
    events.map_values(|e: (String, usize)| (e.0@, e.1 as nat))
}

/// The ordering errors of a checkpoint gated in phase `phase`: a dependency
/// must not be gated in a later phase.
pub open spec fn gating_order_errors(
    checkpoint: ScenarioCheckpoint,
    events: Seq<(Seq<char>, nat)>,
    phase: nat,
    n: nat,
) -> Seq<Seq<char>>
    decreases n,
{
    if n == 0 || n > checkpoint.depends_on@.len() {
        Seq::empty()
    } else {
        let dependency = checkpoint.depends_on@[n - 1]@;
        let k = first_index(event_keys(events), dependency);
        gating_order_errors(checkpoint, events, phase, (n - 1) as nat) + error_if(
            k < events.len() && events[k].1 > phase,
            "checkpoint "@ + checkpoint.id@ + " is gated before dependency "@ + dependency,
        )
    }
}

/// The coverage errors of the first `n` checkpoints: each must be gated, no
/// later than the checkpoints it depends on.
pub open spec fn coverage_errors(s: EvalScenario, events: Seq<(Seq<char>, nat)>, n: nat) -> Seq<Seq<char>>
    decreases n,
{
    if n == 0 || n > s.checkpoints@.len() {
        Seq::empty()
    } else {
        let checkpoint = s.checkpoints@[n - 1];
        let k = first_index(event_keys(events), checkpoint.id@);
        coverage_errors(s, events, (n - 1) as nat) + if k < events.len() {
            gating_order_errors(checkpoint, events, events[k].1, checkpoint.depends_on@.len())
        } else {
            seq!["scenario checkpoint "@ + checkpoint.id@ + " is not covered by a program gate"@]
        }
    }
}

/// The phase first recorded for a checkpoint, if any.
fn recorded_phase(events: &Vec<(String, usize)>, id: &str) -> (found: Option<usize>)
    ensures
        match found {
            Some(k) => k < events@.len() && k == first_index(event_keys(phase_event_views(events@)), id@),
            None => first_index(event_keys(phase_event_views(events@)), id@) == events@.len(),
        },
{
    let ghost keys = event_keys(phase_event_views(events@));
    let mut k: usize = 0;
    while k < events.len()
        invariant
            k <= events@.len(),
            keys == event_keys(phase_event_views(events@)),
            forall|j: int| 0 <= j < k ==> keys[j] != id@,
        decreases events@.len() - k,
    {
        if text_equal(events[k].0.as_str(), id) {
            proof {
                lemma_first_index(keys, id@, k as int);
            }
            return Some(k);
        }
        k = k + 1;
    }
    proof {
        lemma_first_index(keys, id@, k as int);
    }
    None
}

/// Check that the program's gates cover every checkpoint of its scenario, and
/// gate none before a checkpoint it depends on.
pub fn validate_scenario_coverage(
    scenario: &EvalScenario,
    checkpoint_phases: &Vec<(String, usize)>,
    errors: &mut Vec<String>,
)
    ensures
        texts(final(errors)@) == texts(old(errors)@) + coverage_errors(
            *scenario,
            phase_event_views(checkpoint_phases@),
            scenario.checkpoints@.len(),
        ),
{
    let ghost start = texts(errors@);
    let ghost events = phase_event_views(checkpoint_phases@);
    let mut i: usize = 0;
    while i < scenario.checkpoints.len()
        invariant
            i <= scenario.checkpoints@.len(),
            events == phase_event_views(checkpoint_phases@),
            texts(errors@) == start + coverage_errors(*scenario, events, i as nat),
        decreases scenario.checkpoints@.len() - i,
    {
        let checkpoint = &scenario.checkpoints[i];
        let ghost before = texts(errors@);
        match recorded_phase(checkpoint_phases, checkpoint.id.as_str()) {
            None => {
                report(
                    errors,
                    message3("scenario checkpoint ", checkpoint.id.as_str(), " is not covered by a program gate"),
                );
            },
            Some(k) => {
                let phase = checkpoint_phases[k].1;
                let mut d: usize = 0;
                while d < checkpoint.depends_on.len()
                    invariant
                        d <= checkpoint.depends_on@.len(),
                        events == phase_event_views(checkpoint_phases@),
                        texts(errors@) == before + gating_order_errors(*checkpoint, events, phase as nat, d as nat),
                    decreases checkpoint.depends_on@.len() - d,
                {
                    let dependency = checkpoint.depends_on[d].as_str();
                    let later = match recorded_phase(checkpoint_phases, dependency) {
                        Some(kd) => checkpoint_phases[kd].1 > phase,
                        None => false,
                    };
                    let mut message = message3("checkpoint ", checkpoint.id.as_str(), " is gated before dependency ");
                    append_text(&mut message, dependency);
                    report_when(errors, later, message);
                    assert(texts(errors@) =~= before + gating_order_errors(*checkpoint, events, phase as nat, (d + 1) as nat));
                    d = d + 1;
                }
            },
        }
        assert(texts(errors@) =~= start + coverage_errors(*scenario, events, (i + 1) as nat));
        i = i + 1;
    }
}

} // verus!

verus! {

/// What program validation learns from the file system: which named files
/// exist, and the text of the program spec (empty when it cannot be read).
#[derive(Clone, Debug, PartialEq, Eq)]
pub struct ProgramFiles {
    pub spec_exists: bool,
    pub decision_log_exists: bool,
    pub comparison_schema_exists: bool,
    pub spec_text: String,
}

pub open spec fn phase_ids(phases: Seq<ProgramPhase>) -> Seq<Seq<char>> {
    phases.map_values(|p: ProgramPhase| p.id@)
}

pub open spec fn gate_ids_of(gates: Seq<ProgramGate>) -> Seq<Seq<char>> {
    gates.map_values(|g: ProgramGate| g.id@)
}

/// The ids of every gate of the first `n` phases, in order.
pub open spec fn all_gate_ids(phases: Seq<ProgramPhase>, n: nat) -> Seq<Seq<char>>
    decreases n,
{
    if n == 0 || n > phases.len() {
        Seq::empty()
    } else {
        all_gate_ids(phases, (n - 1) as nat) + gate_ids_of(phases[n - 1].gates@)
    }
}

/// The ids of gates seen before gate `j` of phase `i`.
pub open spec fn seen_gates(phases: Seq<ProgramPhase>, i: nat, j: int) -> Set<Seq<char>> {
    (all_gate_ids(phases, i) + gate_ids_of(phases[i as int].gates@).take(j)).to_set()
}

/// The header errors of a program.
pub open spec fn program_header_errors(loaded: LoadedProgram, files: ProgramFiles) -> Seq<Seq<char>> {
    let p = loaded.program;
    error_if(p.schema_version != 1, "unsupported program schema version "@ + decimal_chars(p.schema_version as u64))
        + required_errors("program id"@, p.id@) + error_if(
        !files.spec_exists,
        "program spec does not exist: "@ + loaded.spec_path@,
    ) + error_if(!files.decision_log_exists, "program decision log does not exist: "@ + loaded.decision_log_path@)
        + error_if(
        !files.comparison_schema_exists,
        "program comparison schema does not exist: "@ + loaded.comparison_schema_path@,
    ) + error_if(p.phases@.len() == 0, "program must define at least one phase"@)
}

/// The errors for a gate's checkpoint when the program has a scenario.
pub open spec fn checkpoint_reference_errors(gate: ProgramGate, scenario: Option<EvalScenario>, program_id: Seq<char>) -> Seq<
    Seq<char>,
> {
    match scenario {
        None => Seq::empty(),
        Some(s) => match gate.checkpoint {
            Some(checkpoint) => error_if(
                !checkpoint_ids(s.checkpoints@).contains(checkpoint@),
                "gate "@ + gate.id@ + " references checkpoint "@ + checkpoint@ + " absent from scenario "@ + s.id@,
            ),
            None => seq!["gate "@ + gate.id@ + " must name a checkpoint when program "@ + program_id + " has a scenario"@],
        },
    }
}

/// The errors of the first `n` gates of phase `i`.
pub open spec fn phase_gate_errors(
    loaded: LoadedProgram,
    files: ProgramFiles,
    suites: Seq<Vec<GateSuites>>,
    i: nat,
    n: nat,
) -> Seq<Seq<char>>
    decreases n,
{
    let phase = loaded.program.phases@[i as int];
    if n == 0 || n > phase.gates@.len() {
        Seq::empty()
    } else {
        let gate = phase.gates@[n - 1];
        phase_gate_errors(loaded, files, suites, i, (n - 1) as nat) + gate_errors(
            gate,
            phase.id@,
            files.spec_text@,
            seen_gates(loaded.program.phases@, i, n - 1),
            suites[i as int]@[n - 1],
        ) + checkpoint_reference_errors(gate, loaded.scenario, loaded.program.id@)
    }
}

/// Each dependency of a phase must name an earlier phase.
pub open spec fn phase_dependency_errors(id: Seq<char>, deps: Seq<Seq<char>>, earlier: Seq<Seq<char>>, n: nat) -> Seq<
    Seq<char>,
>
    decreases n,
{
    if n == 0 || n > deps.len() {
        Seq::empty()
    } else {
        phase_dependency_errors(id, deps, earlier, (n - 1) as nat) + error_if(
            !earlier.contains(deps[n - 1]),
            "phase "@ + id + " dependency "@ + deps[n - 1] + " must name an earlier phase"@,
        )
    }
}

/// The errors of phase `i`.
pub open spec fn phase_errors(loaded: LoadedProgram, files: ProgramFiles, suites: Seq<Vec<GateSuites>>, i: nat) -> Seq<
    Seq<char>,
> {
    let phases = loaded.program.phases@;
    let phase = phases[i as int];
    let id = phase.id@;
    let earlier = phase_ids(phases).take(i as int);
    error_if(earlier.contains(id), "duplicate phase id "@ + id) + required_errors("phase id"@, id) + required_errors(
        "phase "@ + id + " name"@,
        phase.name@,
    ) + required_errors("phase "@ + id + " objective"@, phase.objective@) + phase_dependency_errors(
        id,
        texts(phase.depends_on@),
        earlier,
        phase.depends_on@.len(),
    ) + error_if(phase.gates@.len() == 0, "phase "@ + id + " must define at least one gate"@) + phase_gate_errors(
        loaded,
        files,
        suites,
        i,
        phase.gates@.len(),
    )
}

/// The errors of the first `n` phases.
pub open spec fn phases_errors(loaded: LoadedProgram, files: ProgramFiles, suites: Seq<Vec<GateSuites>>, n: nat) -> Seq<
    Seq<char>,
>
    decreases n,
{
    if n == 0 || n > loaded.program.phases@.len() {
        Seq::empty()
    } else {
        phases_errors(loaded, files, suites, (n - 1) as nat) + phase_errors(loaded, files, suites, (n - 1) as nat)
    }
}

/// The checkpoint ids of the program's scenario, if it has one.
pub open spec fn scenario_checkpoint_ids(loaded: LoadedProgram) -> Seq<Seq<char>> {
    match loaded.scenario {
        Some(s) => checkpoint_ids(s.checkpoints@),
        None => Seq::empty(),
    }
}

/// Every error of a program, with its scenario's distinct surface ids in byte
/// order.
pub open spec fn program_errors(
    loaded: LoadedProgram,
    files: ProgramFiles,
    suites: Seq<Vec<GateSuites>>,
    ordered_surfaces: Seq<Seq<char>>,
) -> Seq<Seq<char>> {
    let phases = loaded.program.phases@;
    program_header_errors(loaded, files) + match loaded.scenario {
        Some(s) => scenario_errors(s, ordered_surfaces),
        None => Seq::empty(),
    } + phases_errors(loaded, files, suites, phases.len()) + match loaded.scenario {
        Some(s) => coverage_errors(
            s,
            phase_events(phases, checkpoint_ids(s.checkpoints@), phases.len()),
            s.checkpoints@.len(),
        ),
        None => Seq::empty(),
    }
}

/// The suites handed to program validation line up with its phases and gates,
/// with a control suite for every gate that has a control.
pub open spec fn suites_match(phases: Seq<ProgramPhase>, suites: Seq<Vec<GateSuites>>) -> bool {
    &&& suites.len() == phases.len()
    &&& forall|i: int| 0 <= i < phases.len() ==> (#[trigger] suites[i])@.len() == phases[i].gates@.len()
    &&& forall|i: int, j: int|
        0 <= i < phases.len() && 0 <= j < phases[i].gates@.len() && (#[trigger] phases[i].gates@[j]).control.is_some()
            ==> suites[i]@[j].control.is_some()
}

} // verus!

verus! {

#[verifier::rlimit(60)]
#[verifier::spinoff_prover]
fn report_program_header(loaded: &LoadedProgram, files: &ProgramFiles, errors: &mut Vec<String>)
    ensures
        texts(final(errors)@) == texts(old(errors)@) + program_header_errors(*loaded, *files),
{
    let ghost start = texts(errors@);
    let program = &loaded.program;
    let digits = crate::codec::decimal_text(program.schema_version as u64);
    report_when(errors, program.schema_version != 1, message2("unsupported program schema version ", digits.as_str()));
    let ghost a = texts(errors@);
    require_text("program id", program.id.as_str(), errors);
    let ghost b = texts(errors@);
    report_when(errors, !files.spec_exists, message2("program spec does not exist: ", loaded.spec_path.as_str()));
    let ghost c = texts(errors@);
    report_when(
        errors,
        !files.decision_log_exists,
        message2("program decision log does not exist: ", loaded.decision_log_path.as_str()),
    );
    let ghost d = texts(errors@);
    report_when(
        errors,
        !files.comparison_schema_exists,
        message2("program comparison schema does not exist: ", loaded.comparison_schema_path.as_str()),
    );
    let ghost e = texts(errors@);
    report_when(errors, program.phases.len() == 0, "program must define at least one phase".to_owned());
    proof {
        let p = loaded.program;
        let h1 = error_if(p.schema_version != 1, "unsupported program schema version "@ + decimal_chars(p.schema_version as u64));
        let h2 = required_errors("program id"@, p.id@);
        let h3 = error_if(!files.spec_exists, "program spec does not exist: "@ + loaded.spec_path@);
        let h4 = error_if(!files.decision_log_exists, "program decision log does not exist: "@ + loaded.decision_log_path@);
        let h5 = error_if(
            !files.comparison_schema_exists,
            "program comparison schema does not exist: "@ + loaded.comparison_schema_path@,
        );
        let h6 = error_if(p.phases@.len() == 0, "program must define at least one phase"@);
        assert(b =~= start + (h1 + h2));
        assert(c =~= start + (h1 + h2 + h3));
        assert(d =~= start + (h1 + h2 + h3 + h4));
        assert(e =~= start + (h1 + h2 + h3 + h4 + h5));
        assert(texts(errors@) =~= start + (h1 + h2 + h3 + h4 + h5 + h6));
    }
}

fn phase_appears_before(phases: &Vec<ProgramPhase>, upto: usize, id: &str) -> (found: bool)
    requires
        upto <= phases@.len(),
    ensures
        found == phase_ids(phases@).take(upto as int).contains(id@),
{
    let mut index: usize = 0;
    while index < upto
        invariant
            upto <= phases@.len(),
            index <= upto,
            forall|j: int| 0 <= j < index ==> phases@[j].id@ != id@,
        decreases upto - index,
    {
        if text_equal(phases[index].id.as_str(), id) {
            assert(phase_ids(phases@).take(upto as int)[index as int] == id@);
            return true;
        }
        index = index + 1;
    }
    assert forall|j: int| 0 <= j < upto implies phase_ids(phases@).take(upto as int)[j] != id@ by {}
    false
}

fn report_phase_dependency_errors(phases: &Vec<ProgramPhase>, i: usize, errors: &mut Vec<String>)
    requires
        i < phases@.len(),
    ensures
        texts(final(errors)@) == texts(old(errors)@) + phase_dependency_errors(
            phases@[i as int].id@,
            texts(phases@[i as int].depends_on@),
            phase_ids(phases@).take(i as int),
            phases@[i as int].depends_on@.len(),
        ),
{
    let phase = &phases[i];
    let ghost d = texts(errors@);
    let ghost deps = texts(phase.depends_on@);
    let ghost earlier = phase_ids(phases@).take(i as int);
    let mut k: usize = 0;
    while k < phase.depends_on.len()
        invariant
            i < phases@.len(),
            phase == phases@[i as int],
            deps == texts(phase.depends_on@),
            earlier == phase_ids(phases@).take(i as int),
            k <= phase.depends_on@.len(),
            texts(errors@) == d + phase_dependency_errors(phase.id@, deps, earlier, k as nat),
        decreases phase.depends_on@.len() - k,
    {
        let dependency = phase.depends_on[k].as_str();
        let known = phase_appears_before(phases, i, dependency);
        let mut message = message3("phase ", phase.id.as_str(), " dependency ");
        append_text(&mut message, dependency);
        append_text(&mut message, " must name an earlier phase");
        report_when(errors, !known, message);
        proof {
            assert(deps[k as int] == dependency@);
            assert(texts(errors@) =~= d + phase_dependency_errors(phase.id@, deps, earlier, (k + 1) as nat));
        }
        k = k + 1;
    }
}

#[verifier::rlimit(60)]
#[verifier::spinoff_prover]
fn report_phase_header(loaded: &LoadedProgram, i: usize, errors: &mut Vec<String>)
    requires
        i < loaded.program.phases@.len(),
    ensures
        ({
            let phases = loaded.program.phases@;
            let phase = phases[i as int];
            let id = phase.id@;
            let earlier = phase_ids(phases).take(i as int);
            texts(final(errors)@) == texts(old(errors)@) + (error_if(earlier.contains(id), "duplicate phase id "@ + id)
                + required_errors("phase id"@, id) + required_errors("phase "@ + id + " name"@, phase.name@)
                + required_errors("phase "@ + id + " objective"@, phase.objective@) + phase_dependency_errors(
                id,
                texts(phase.depends_on@),
                earlier,
                phase.depends_on@.len(),
            ) + error_if(phase.gates@.len() == 0, "phase "@ + id + " must define at least one gate"@))
        }),
{
    let ghost start = texts(errors@);
    let phases = &loaded.program.phases;
    let phase = &phases[i];
    let repeated = phase_appears_before(phases, i, phase.id.as_str());
    report_when(errors, repeated, message2("duplicate phase id ", phase.id.as_str()));
    let ghost a = texts(errors@);
    require_text("phase id", phase.id.as_str(), errors);
    let ghost b = texts(errors@);
    let label = message3("phase ", phase.id.as_str(), " name");
    require_text(label.as_str(), phase.name.as_str(), errors);
    let ghost c = texts(errors@);
    let label = message3("phase ", phase.id.as_str(), " objective");
    require_text(label.as_str(), phase.objective.as_str(), errors);
    let ghost d = texts(errors@);
    let ghost deps = texts(phase.depends_on@);
    let ghost earlier = phase_ids(phases@).take(i as int);
    report_phase_dependency_errors(phases, i, errors);
    let ghost e = texts(errors@);
    report_when(errors, phase.gates.len() == 0, message3("phase ", phase.id.as_str(), " must define at least one gate"));
    proof {
        let id = phase.id@;
        let f1 = error_if(earlier.contains(id), "duplicate phase id "@ + id);
        let f2 = required_errors("phase id"@, id);
        let f3 = required_errors("phase "@ + id + " name"@, phase.name@);
        let f4 = required_errors("phase "@ + id + " objective"@, phase.objective@);
        let f5 = phase_dependency_errors(id, deps, earlier, phase.depends_on@.len());
        let f6 = error_if(phase.gates@.len() == 0, "phase "@ + id + " must define at least one gate"@);
        assert(b =~= start + (f1 + f2));
        assert(c =~= start + (f1 + f2 + f3));
        assert(d =~= start + (f1 + f2 + f3 + f4));
        assert(e =~= start + (f1 + f2 + f3 + f4 + f5));
        assert(texts(errors@) =~= start + (f1 + f2 + f3 + f4 + f5 + f6));
    }
}

fn report_checkpoint_reference(
    loaded: &LoadedProgram,
    gate: &ProgramGate,
    phase: usize,
    events: &mut Vec<(String, usize)>,
    errors: &mut Vec<String>,
)
    ensures
        texts(final(errors)@) == texts(old(errors)@) + checkpoint_reference_errors(
            *gate,
            loaded.scenario,
            loaded.program.id@,
        ),
        phase_event_views(final(events)@) == phase_event_views(old(events)@) + match gate.checkpoint {
            Some(checkpoint) => if scenario_checkpoint_ids(*loaded).contains(checkpoint@) {
                seq![(checkpoint@, phase as nat)]
            } else {
                Seq::empty()
            },
            None => Seq::empty(),
        },
{
    let ghost start_events = phase_event_views(events@);
    match &loaded.scenario {
        None => {
            assert(texts(errors@) =~= texts(errors@) + Seq::empty());
            assert(phase_event_views(events@) =~= start_events + Seq::empty());
        },
        Some(scenario) => {
            match &gate.checkpoint {
                Some(checkpoint) => {
                    let known = checkpoint_appears_before(
                        &scenario.checkpoints,
                        scenario.checkpoints.len(),
                        checkpoint.as_str(),
                    );
                    proof {
                        assert(checkpoint_ids(scenario.checkpoints@).take(scenario.checkpoints@.len() as int)
                            =~= checkpoint_ids(scenario.checkpoints@));
                    }
                    if known {
                        events.push((checkpoint.clone(), phase));
                        assert(phase_event_views(events@) =~= start_events.push((checkpoint@, phase as nat)));
                    } else {
                        assert(phase_event_views(events@) =~= start_events + Seq::empty());
                    }
                    let mut message = message3("gate ", gate.id.as_str(), " references checkpoint ");
                    append_text(&mut message, checkpoint.as_str());
                    append_text(&mut message, " absent from scenario ");
                    append_text(&mut message, scenario.id.as_str());
                    report_when(errors, !known, message);
                },
                None => {
                    let mut message = message3("gate ", gate.id.as_str(), " must name a checkpoint when program ");
                    append_text(&mut message, loaded.program.id.as_str());
                    append_text(&mut message, " has a scenario");
                    report(errors, message);
                    assert(phase_event_views(events@) =~= start_events + Seq::empty());
                },
            }
        },
    }
}

} // verus!

verus! {

#[verifier::rlimit(60)]
fn report_phase_gates(
    loaded: &LoadedProgram,
    files: &ProgramFiles,
    suites: &Vec<Vec<GateSuites>>,
    i: usize,
    gate_ids: &mut Vec<String>,
    events: &mut Vec<(String, usize)>,
    errors: &mut Vec<String>,
)
    requires
        i < loaded.program.phases@.len(),
        suites_match(loaded.program.phases@, suites@),
        keys_sorted(old(gate_ids)@),
        key_texts(old(gate_ids)@) == all_gate_ids(loaded.program.phases@, i as nat).to_set(),
        phase_event_views(old(events)@) == phase_events(
            loaded.program.phases@,
            scenario_checkpoint_ids(*loaded),
            i as nat,
        ),
    ensures
        keys_sorted(final(gate_ids)@),
        key_texts(final(gate_ids)@) == all_gate_ids(loaded.program.phases@, (i + 1) as nat).to_set(),
        phase_event_views(final(events)@) == phase_events(
            loaded.program.phases@,
            scenario_checkpoint_ids(*loaded),
            (i + 1) as nat,
        ),
        texts(final(errors)@) == texts(old(errors)@) + phase_gate_errors(
            *loaded,
            *files,
            suites@,
            i as nat,
            loaded.program.phases@[i as int].gates@.len(),
        ),
{
    let phases = &loaded.program.phases;
    let phase = &phases[i];
    let ghost known = scenario_checkpoint_ids(*loaded);
    let ghost start = texts(errors@);
    let ghost start_events = phase_event_views(events@);
    let ghost prior_ids = all_gate_ids(phases@, i as nat);
    let mut j: usize = 0;
    while j < phase.gates.len()
        invariant
            i < phases@.len(),
            phases == loaded.program.phases,
            phase == phases@[i as int],
            suites_match(phases@, suites@),
            known == scenario_checkpoint_ids(*loaded),
            prior_ids == all_gate_ids(phases@, i as nat),
            start_events == phase_events(phases@, known, i as nat),
            j <= phase.gates@.len(),
            keys_sorted(gate_ids@),
            key_texts(gate_ids@) == seen_gates(phases@, i as nat, j as int),
            phase_event_views(events@) == start_events + gate_events(phase.gates@, i as nat, known, j as nat),
            texts(errors@) == start + phase_gate_errors(*loaded, *files, suites@, i as nat, j as nat),
        decreases phase.gates@.len() - j,
    {
        let gate = &phase.gates[j];
        let ghost before = texts(errors@);
        let ghost before_events = phase_event_views(events@);
        let ghost seen = key_texts(gate_ids@);
        proof {
            assert(suites@[i as int]@.len() == phases@[i as int].gates@.len());
            assert(phases@[i as int].gates@[j as int].control.is_some() ==> suites@[i as int]@[j as int].control.is_some());
        }
        validate_gate(gate, phase.id.as_str(), files.spec_text.as_str(), gate_ids, &suites[i][j], errors);
        let ghost mid = texts(errors@);
        report_checkpoint_reference(loaded, gate, i, events, errors);
        proof {
            let ids = gate_ids_of(phase.gates@);
            assert(ids.take(j + 1) =~= ids.take(j as int).push(gate.id@));
            assert((prior_ids + ids.take(j + 1)) =~= (prior_ids + ids.take(j as int)).push(gate.id@));
            assert forall|t: Seq<char>| (prior_ids + ids.take(j + 1)).to_set().contains(t) <==> seen.insert(gate.id@).contains(t) by {
                let longer = prior_ids + ids.take(j + 1);
                let shorter = prior_ids + ids.take(j as int);
                if longer.contains(t) {
                    let q = choose|q: int| 0 <= q < longer.len() && longer[q] == t;
                    if q < shorter.len() {
                        assert(shorter[q] == t);
                    }
                }
                if shorter.contains(t) {
                    let q = choose|q: int| 0 <= q < shorter.len() && shorter[q] == t;
                    assert(longer[q] == t);
                }
                if t == gate.id@ {
                    assert(longer[longer.len() - 1] == t);
                }
            }
            assert(key_texts(gate_ids@) =~= seen_gates(phases@, i as nat, (j + 1) as int));
            assert(phase_event_views(events@) =~= start_events + gate_events(phase.gates@, i as nat, known, (j + 1) as nat));
            assert(texts(errors@) =~= start + phase_gate_errors(*loaded, *files, suites@, i as nat, (j + 1) as nat));
        }
        j = j + 1;
    }
    proof {
        let ids = gate_ids_of(phase.gates@);
        assert(ids.take(phase.gates@.len() as int) =~= ids);
        assert(all_gate_ids(phases@, (i + 1) as nat) == prior_ids + ids);
        assert(key_texts(gate_ids@) =~= all_gate_ids(phases@, (i + 1) as nat).to_set());
        assert(phase_events(phases@, known, (i + 1) as nat) == start_events + gate_events(
            phase.gates@,
            i as nat,
            known,
            phase.gates@.len(),
        ));
    }
}

/// Check a program's structure, appending every error in order: its header,
/// its scenario, each phase with its gates, and the scenario's coverage by
/// the gates.
pub fn validate_program(loaded: &LoadedProgram, files: &ProgramFiles, suites: &Vec<Vec<GateSuites>>) -> (errors: Vec<
    String,
>)
    requires
        suites_match(loaded.program.phases@, suites@),
    ensures
        exists|ordered: Seq<Seq<char>>|
            (loaded.scenario.is_some() ==> sorted_texts(ordered) && ordered.to_set() == surface_ids(
                loaded.scenario.unwrap().surfaces@,
            ).to_set()) && texts(errors@) == #[trigger] program_errors(*loaded, *files, suites@, ordered),
{
    let mut errors: Vec<String> = Vec::new();
    report_program_header(loaded, files, &mut errors);
    let ghost a = texts(errors@);
    let ghost mut ordered: Seq<Seq<char>> = Seq::empty();
    match &loaded.scenario {
        Some(scenario) => {
            validate_scenario(scenario, &mut errors);
            proof {
                ordered = choose|o: Seq<Seq<char>>|
                    sorted_texts(o) && o.to_set() == surface_ids(scenario.surfaces@).to_set() && texts(errors@) == a
                        + scenario_errors(*scenario, o);
                assert(sorted_texts(ordered) && ordered.to_set() == surface_ids(scenario.surfaces@).to_set());
                assert(texts(errors@) == a + scenario_errors(*scenario, ordered));
            }
        },
        None => {
            assert(texts(errors@) =~= a + Seq::empty());
        },
    }
    let ghost b = texts(errors@);
    let phases = &loaded.program.phases;
    let ghost known = scenario_checkpoint_ids(*loaded);
    let mut gate_ids: Vec<String> = Vec::new();
    let mut events: Vec<(String, usize)> = Vec::new();
    let mut i: usize = 0;
    proof {
        assert(key_texts(gate_ids@) =~= all_gate_ids(phases@, 0).to_set());
        assert(phase_event_views(events@) =~= phase_events(phases@, known, 0));
    }
    while i < phases.len()
        invariant
            phases == loaded.program.phases,
            known == scenario_checkpoint_ids(*loaded),
            suites_match(phases@, suites@),
            i <= phases@.len(),
            keys_sorted(gate_ids@),
            key_texts(gate_ids@) == all_gate_ids(phases@, i as nat).to_set(),
            phase_event_views(events@) == phase_events(phases@, known, i as nat),
            texts(errors@) == b + phases_errors(*loaded, *files, suites@, i as nat),
        decreases phases@.len() - i,
    {
        let ghost before = texts(errors@);
        report_phase_header(loaded, i, &mut errors);
        let ghost mid = texts(errors@);
        report_phase_gates(loaded, files, suites, i, &mut gate_ids, &mut events, &mut errors);
        proof {
            let phase = phases@[i as int];
            let id = phase.id@;
            let earlier = phase_ids(phases@).take(i as int);
            let head = error_if(earlier.contains(id), "duplicate phase id "@ + id) + required_errors("phase id"@, id)
                + required_errors("phase "@ + id + " name"@, phase.name@) + required_errors(
                "phase "@ + id + " objective"@,
                phase.objective@,
            ) + phase_dependency_errors(id, texts(phase.depends_on@), earlier, phase.depends_on@.len()) + error_if(
                phase.gates@.len() == 0,
                "phase "@ + id + " must define at least one gate"@,
            );
            let body = phase_gate_errors(*loaded, *files, suites@, i as nat, phase.gates@.len());
            assert(phase_errors(*loaded, *files, suites@, i as nat) == head + body);
            assert(texts(errors@) =~= b + phases_errors(*loaded, *files, suites@, (i + 1) as nat));
        }
        i = i + 1;
    }
    let ghost c = texts(errors@);
    match &loaded.scenario {
        Some(scenario) => {
            validate_scenario_coverage(scenario, &events, &mut errors);
        },
        None => {
            assert(texts(errors@) =~= c + Seq::empty());
        },
    }
    proof {
        let lp = *loaded;
        let ph = program_header_errors(*loaded, *files);
        let sc = match lp.scenario {
            Some(s) => scenario_errors(s, ordered),
            None => Seq::empty(),
        };
        let pe = phases_errors(*loaded, *files, suites@, phases@.len());
        let co = match lp.scenario {
            Some(s) => coverage_errors(s, phase_events(phases@, checkpoint_ids(s.checkpoints@), phases@.len()), s.checkpoints@.len()),
            None => Seq::empty(),
        };
        assert(b =~= ph + sc);
        assert(c =~= ph + sc + pe);
        assert(texts(errors@) =~= ph + sc + pe + co);
        assert(texts(errors@) =~= program_errors(*loaded, *files, suites@, ordered));
        assert(loaded.scenario.is_some() ==> sorted_texts(ordered) && ordered.to_set() == surface_ids(
            loaded.scenario.unwrap().surfaces@,
        ).to_set());
    }
    errors
}

} // verus!

verus! {

/// Where a gate's, or a control's, lane, profile and primary metric stand in
/// its suite, with the suite's contract hash.
#[derive(Clone, Debug, PartialEq, Eq)]
pub struct TargetResolution {
    pub lane: usize,
    pub profile: usize,
    pub metric: usize,
    pub suite_hash: String,
}

/// How planning resolves what a gate or control (`owner`, such as `gate g1`)
/// names in its suite: the lane, then the profile, then the lane's primary
/// metric, then the suite's contract hash; the first that fails is the error.
pub open spec fn resolution_for(
    owner: Seq<char>,
    lane: Seq<char>,
    profile: Seq<char>,
    suite: SuiteOutline,
    hash: Result<String, String>,
) -> Result<(int, int, int, Seq<char>), Seq<char>> {
    let l = first_index(lane_ids(suite), lane);
    let p = first_index(profile_ids(suite), profile);
    if l >= suite.lanes@.len() {
        Err(owner + " references missing lane "@ + lane)
    } else if p >= suite.profiles@.len() {
        Err(owner + " references missing profile "@ + profile)
    } else {
        let primary = suite.lanes@[l].primary_metric@;
        let m = first_index(metric_ids(suite), primary);
        if m >= suite.metrics@.len() {
            Err(owner + " lane "@ + lane + " references missing metric "@ + primary)
        } else {
            match hash {
                Ok(h) => Ok((l, p, m, h@)),
                Err(e) => Err(owner + " cannot hash suite contract: "@ + e@),
            }
        }
    }
}

/// Resolve what a gate or control names in its suite, as planning does.
pub fn resolve_target(
    owner: &str,
    lane: &str,
    profile: &str,
    suite: &SuiteOutline,
    hash: &Result<String, String>,
) -> (resolved: Result<TargetResolution, ProgramError>)
    ensures
        match (resolved, resolution_for(owner@, lane@, profile@, *suite, *hash)) {
            (Ok(r), Ok((l, p, m, h))) => r.lane == l && r.profile == p && r.metric == m && r.suite_hash@ == h,
            (Err(ProgramError::Invalid(messages)), Err(message)) => texts(messages@) == seq![message],
            _ => false,
        },
{
    let l = match resolve_lane(suite, lane) {
        Some(l) => l,
        None => {
            let message = message3(owner, " references missing lane ", lane);
            let messages = vec![message];
            assert(texts(messages@) =~= seq![owner@ + " references missing lane "@ + lane@]);
            return Err(ProgramError::Invalid(messages));
        },
    };
    let p = match find_profile(suite, profile) {
        Some(p) => p,
        None => {
            let message = message3(owner, " references missing profile ", profile);
            let messages = vec![message];
            assert(texts(messages@) =~= seq![owner@ + " references missing profile "@ + profile@]);
            return Err(ProgramError::Invalid(messages));
        },
    };
    let primary = suite.lanes[l].primary_metric.as_str();
    let m = match find_metric(suite, primary) {
        Some(m) => m,
        None => {
            let mut message = message3(owner, " lane ", lane);
            append_text(&mut message, " references missing metric ");
            append_text(&mut message, primary);
            let messages = vec![message];
            assert(texts(messages@) =~= seq![owner@ + " lane "@ + lane@ + " references missing metric "@ + primary@]);
            return Err(ProgramError::Invalid(messages));
        },
    };
    match hash {
        Ok(h) => Ok(TargetResolution { lane: l, profile: p, metric: m, suite_hash: h.clone() }),
        Err(e) => {
            let message = message3(owner, " cannot hash suite contract: ", e.as_str());
            let messages = vec![message];
            assert(texts(messages@) =~= seq![owner@ + " cannot hash suite contract: "@ + e@]);
            Err(ProgramError::Invalid(messages))
        },
    }
}

/// The surface of the first scenario checkpoint a gate names, if any.
pub open spec fn checkpoint_surface_for(scenario: Option<EvalScenario>, checkpoint: Option<String>) -> Option<Seq<char>> {
    match (scenario, checkpoint) {
        (Some(s), Some(c)) => {
            let k = first_index(checkpoint_ids(s.checkpoints@), c@);
            if k < s.checkpoints@.len() {
                Some(s.checkpoints@[k].surface@)
            } else {
                None
            }
        },
        _ => None,
    }
}

/// The surface a gate's checkpoint exercises, when the program has a scenario
/// with that checkpoint.
pub fn checkpoint_surface(scenario: &Option<EvalScenario>, checkpoint: &Option<String>) -> (surface: Option<String>)
    ensures
        match surface {
            Some(text) => checkpoint_surface_for(*scenario, *checkpoint) == Some(text@),
            None => checkpoint_surface_for(*scenario, *checkpoint).is_none(),
        },
{
    let s = match scenario {
        Some(s) => s,
        None => return None,
    };
    let c = match checkpoint {
        Some(c) => c,
        None => return None,
    };
    let ghost ids = checkpoint_ids(s.checkpoints@);
    let mut k: usize = 0;
    while k < s.checkpoints.len()
        invariant
            k <= s.checkpoints@.len(),
            ids == checkpoint_ids(s.checkpoints@),
            *scenario == Some(*s),
            *checkpoint == Some(*c),
            forall|j: int| 0 <= j < k ==> ids[j] != c@,
        decreases s.checkpoints@.len() - k,
    {
        if text_equal(s.checkpoints[k].id.as_str(), c.as_str()) {
            proof {
                lemma_first_index(ids, c@, k as int);
            }
            let surface = s.checkpoints[k].surface.clone();
            return Some(surface);
        }
        k = k + 1;
    }
    proof {
        lemma_first_index(ids, c@, k as int);
    }
    None
}

/// Find a gate that a comparison names: it must exist, be a performance or
/// economics gate, and have a paired control. Returns its phase and position.
pub open spec fn comparison_gate_for(phases: Seq<ProgramPhase>, gate_id: Seq<char>) -> Result<(int, int), Seq<char>> {
    if exists|i: int, j: int|
        0 <= i < phases.len() && 0 <= j < phases[i].gates@.len() && #[trigger] phases[i].gates@[j].id@ == gate_id {
        let (i, j) = choose|i: int, j: int|
            0 <= i < phases.len() && 0 <= j < phases[i].gates@.len() && #[trigger] phases[i].gates@[j].id@ == gate_id
                && forall|a: int, b: int|
                0 <= a < phases.len() && 0 <= b < phases[a].gates@.len() && phases[a].gates@[b].id@ == gate_id ==> (
                i < a || (i == a && j <= b));
        let gate = phases[i].gates@[j];
        if !is_comparison(gate.kind) {
            Err("gate "@ + gate_id + " is not a performance or economics comparison"@)
        } else if gate.control.is_none() {
            Err("gate "@ + gate_id + " has no paired control"@)
        } else {
            Ok((i, j))
        }
    } else {
        Err("program has no gate "@ + gate_id)
    }
}

} // verus!

verus! {

/// Locate a gate that a comparison names, as the comparison requires it.
pub fn find_comparison_gate(phases: &Vec<ProgramPhase>, gate_id: &str) -> (found: Result<(usize, usize), String>)
    ensures
        match (found, comparison_gate_for(phases@, gate_id@)) {
            (Ok((i, j)), Ok((a, b))) => i == a && j == b,
            (Err(message), Err(expected)) => message@ == expected,
            _ => false,
        },
{
    let mut i: usize = 0;
    while i < phases.len()
        invariant
            i <= phases@.len(),
            forall|a: int, b: int|
                0 <= a < i && 0 <= b < phases@[a].gates@.len() ==> #[trigger] phases@[a].gates@[b].id@ != gate_id@,
        decreases phases@.len() - i,
    {
        let gates = &phases[i].gates;
        let mut j: usize = 0;
        while j < gates.len()
            invariant
                i < phases@.len(),
                gates == phases@[i as int].gates,
                j <= gates@.len(),
                forall|a: int, b: int|
                    0 <= a < i && 0 <= b < phases@[a].gates@.len() ==> #[trigger] phases@[a].gates@[b].id@ != gate_id@,
                forall|b: int| 0 <= b < j ==> #[trigger] gates@[b].id@ != gate_id@,
            decreases gates@.len() - j,
        {
            if text_equal(gates[j].id.as_str(), gate_id) {
                let gate = &gates[j];
                proof {
                    let phs = phases@;
                    assert(0 <= i < phs.len() && 0 <= j < phs[i as int].gates@.len() && phs[i as int].gates@[j as int].id@
                        == gate_id@);
                    assert forall|a: int, b: int|
                        0 <= a < phs.len() && 0 <= b < phs[a].gates@.len() && phs[a].gates@[b].id@ == gate_id@ implies (i
                            < a || (i == a && j <= b)) by {
                        if a < i {
                            assert(phs[a].gates@[b].id@ != gate_id@);
                        } else if a == i && b < j {
                            assert(gates@[b].id@ != gate_id@);
                        }
                    }
                    let (p, q) = choose|p: int, q: int|
                        0 <= p < phs.len() && 0 <= q < phs[p].gates@.len() && #[trigger] phs[p].gates@[q].id@ == gate_id@
                            && forall|a: int, b: int|
                            0 <= a < phs.len() && 0 <= b < phs[a].gates@.len() && phs[a].gates@[b].id@ == gate_id@ ==> (p
                                < a || (p == a && q <= b));
                    assert(p == i && q == j);
                }
                let comparison = match gate.kind {
                    ProgramGateKind::Performance | ProgramGateKind::Economics => true,
                    _ => false,
                };
                if !comparison {
                    return Err(message3("gate ", gate_id, " is not a performance or economics comparison"));
                }
                if gate.control.is_none() {
                    return Err(message3("gate ", gate_id, " has no paired control"));
                }
                return Ok((i, j));
            }
            j = j + 1;
        }
        i = i + 1;
    }
    Err(message2("program has no gate ", gate_id))
}

} // verus!
