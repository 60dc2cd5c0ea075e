//! The evaluation of the compiler checks. Whether a snippet compiles only
//! the compiler can tell, and running it is the caller's part: so the
//! evaluation goes in steps. It decides every condition that it can decide
//! alone, stops at one that needs a probe, names the snippet, and goes on
//! when it is told how the probe went.

use crate::manifest::compiler::{named, Condition, ConditionModel};
use crate::rustc::VersionData;
use crate::text::texts;
use crate::version::VersionModel;
use vstd::prelude::*;

verus! {

/// The mathematical value of an [`Evaluation`]: what is evaluated, against
/// what, and the outcomes of the conditions decided so far, in their order.
pub struct EvaluationModel {
    pub checks: Seq<(Seq<char>, ConditionModel)>,
    pub version: VersionModel,
    pub nightly: bool,
    pub active: Seq<Seq<char>>,
    pub outcomes: Seq<bool>,
}

/// The names of those among the first `n` conditions that were satisfied,
/// one for each such condition, in the order of the conditions. A name that
/// two satisfied conditions bear stands twice.
pub open spec fn emitted(
    checks: Seq<(Seq<char>, ConditionModel)>,
    outcomes: Seq<bool>,
    n: int,
) -> Seq<Seq<char>>
    decreases n,
{
    if n <= 0 {
        Seq::empty()
    } else {
        let before = emitted(checks, outcomes, n - 1);
        if outcomes[n - 1] {
            before.push(checks[n - 1].0)
        } else {
            before
        }
    }
}

impl EvaluationModel {
    /// The state before anything is decided.
    pub open spec fn start(
        checks: Seq<(Seq<char>, ConditionModel)>,
        version: VersionModel,
        nightly: bool,
        active: Seq<Seq<char>>,
    ) -> EvaluationModel {
        EvaluationModel { checks, version, nightly, active, outcomes: Seq::empty() }
    }

    /// No more outcomes than conditions.
    pub open spec fn well_formed(self) -> bool {
        self.outcomes.len() <= self.checks.len()
    }

    /// Every condition is decided.
    pub open spec fn finished(self) -> bool {
        self.outcomes.len() >= self.checks.len()
    }

    /// Whether condition `i` holds, given the answer of its probe.
    pub open spec fn outcome(self, i: int, compiled: bool) -> bool {
        self.checks[i].1.check(self.version, self.nightly, self.active, compiled)
    }

    /// The first condition at or behind `from` that needs a probe; the
    /// number of conditions where there is none.
    pub open spec fn next_probe(self, from: int) -> int
        decreases self.checks.len() - from,
    {
        if from >= self.checks.len() {
            self.checks.len() as int
        } else if self.checks[from].1.probe_needed(self.active) is Some {
            from
        } else {
            self.next_probe(from + 1)
        }
    }

    /// The snippet that the next undecided condition needs a probe on.
    pub open spec fn pending(self) -> Option<Seq<char>> {
        if self.finished() {
            None
        } else {
            self.checks[self.outcomes.len() as int].1.probe_needed(self.active)
        }
    }

    /// The state after every condition up to the next one that needs a probe
    /// is decided. None of them reads a probe's answer.
    pub open spec fn advanced(self) -> EvaluationModel {
        let stop = self.next_probe(self.outcomes.len() as int);
        EvaluationModel {
            outcomes: Seq::new(
                stop as nat,
                |i: int|
                    if i < self.outcomes.len() {
                        self.outcomes[i]
                    } else {
                        self.outcome(i, false)
                    },
            ),
            ..self
        }
    }

    /// The state after the next undecided condition is decided with the
    /// given answer of its probe. Where all are decided nothing changes.
    pub open spec fn resolved(self, compiled: bool) -> EvaluationModel {
        if self.finished() {
            self
        } else {
            EvaluationModel {
                outcomes: self.outcomes.push(self.outcome(self.outcomes.len() as int, compiled)),
                ..self
            }
        }
    }

    /// The number of conditions before condition `i` that need a probe: the
    /// place, among the answers of a run, of the answer for condition `i`.
    pub open spec fn probes_before(self, i: int) -> nat
        decreases i,
    {
        if i <= 0 {
            0
        } else {
            self.probes_before(i - 1) + if self.checks[i - 1].1.probe_needed(self.active)
                is Some {
                1nat
            } else {
                0nat
            }
        }
    }

    /// Whether condition `i` holds in a run in which the probes, in the
    /// order of the conditions that need them, give the answers of
    /// `answers`: the condition's own check, with the answer of its own
    /// probe where it needs one.
    pub open spec fn holds(self, i: int, answers: Seq<bool>) -> bool {
        self.outcome(
            i,
            self.checks[i].1.probe_needed(self.active) is Some && answers[self.probes_before(
                i,
            ) as int],
        )
    }

    /// The names to emit for what is decided so far.
    pub open spec fn satisfied(self) -> Seq<Seq<char>> {
        emitted(self.checks, self.outcomes, self.outcomes.len() as int)
    }

    /// The state at the end of a run in which the probes, in the order in
    /// which they are asked for, give the answers of `answers`. The run ends
    /// where every condition is decided, or where a probe is asked for and
    /// the answers have run out.
    pub open spec fn run(self, answers: Seq<bool>) -> EvaluationModel
        decreases answers.len(),
    {
        let stopped = self.advanced();
        if stopped.finished() || answers.len() == 0 {
            stopped
        } else {
            stopped.resolved(answers[0]).run(answers.drop_first())
        }
    }
}

/// What an [`Evaluation`] asks of its caller next.
#[derive(Clone, Debug, PartialEq, Eq)]
pub enum Step {
    /// Run a compile probe on this snippet, and hand the answer to
    /// [`Evaluation::resolve`].
    Probe(String),
    /// Every condition is decided.
    Finished,
}

/// An evaluation of named conditions against one toolchain and one set of
/// active features.
#[derive(Debug)]
pub struct Evaluation {
    checks: Vec<(String, Condition)>,
    rustc: VersionData,
    features: Vec<String>,
    outcomes: Vec<bool>,
}

impl View for Evaluation {
    type V = EvaluationModel;

    closed spec fn view(&self) -> EvaluationModel {
        EvaluationModel {
            checks: named(self.checks@),
            version: self.rustc.version@,
            nightly: self.rustc.nightly,
            active: texts(self.features@),
            outcomes: self.outcomes@,
        }
    }
}

impl Evaluation {
    #[verifier::type_invariant]
    spec fn bounded(self) -> bool {
        self.outcomes@.len() <= self.checks@.len()
    }

    /// Starts an evaluation of `checks` against the toolchain `rustc`, with
    /// the features of `features` active.
    pub fn new(checks: Vec<(String, Condition)>, rustc: VersionData, features: Vec<String>) -> (e:
        Evaluation)
        ensures
            e@ == EvaluationModel::start(
                named(checks@),
                rustc.version@,
                rustc.nightly,
                texts(features@),
            ),
            e@.well_formed(),
    {
        Evaluation { checks, rustc, features, outcomes: Vec::new() }
    }

    /// Decides every condition up to the next one that needs a compile
    /// probe. Returns the state after that, and what to do next.
    pub fn advance(self) -> (next: (Evaluation, Step))
        ensures
            next.0@ == self@.advanced(),
            next.0@.well_formed(),
            match next.1 {
                Step::Probe(snippet) => next.0@.pending() == Some(snippet@),
                Step::Finished => next.0@.finished() && next.0@.pending() is None,
            },
    {
        proof {
            use_type_invariant(&self);
        }
        let ghost before = self@;
        let Evaluation { checks, rustc, features, mut outcomes } = self;
        proof {
            lemma_next_probe(before, before.outcomes.len() as int);
        }
        while outcomes.len() < checks.len()
            invariant
                before == self@,
                before.checks == named(checks@),
                before.version == rustc.version@,
                before.nightly == rustc.nightly,
                before.active == texts(features@),
                before.outcomes.len() <= outcomes@.len() <= checks@.len(),
                before.next_probe(outcomes@.len() as int) == before.next_probe(
                    before.outcomes.len() as int,
                ),
                forall|i: int|
                    0 <= i < outcomes@.len() ==> outcomes@[i] == if i < before.outcomes.len() {
                        before.outcomes[i]
                    } else {
                        before.outcome(i, false)
                    },
            decreases checks.len() - outcomes.len(),
        {
            let position = outcomes.len();
            match checks[position].1.probe_needed(&features) {
                Some(snippet) => {
                    let step = Step::Probe(snippet.to_owned());
                    assert(outcomes@ =~= before.advanced().outcomes);
                    return (Evaluation { checks, rustc, features, outcomes }, step);
                },
                None => {
                    let outcome = checks[position].1.check(&rustc, &features, false);
                    outcomes.push(outcome);
                },
            }
        }
        assert(outcomes@ =~= before.advanced().outcomes);
        (Evaluation { checks, rustc, features, outcomes }, Step::Finished)
    }

    /// Decides the next undecided condition, with `compiled` as the answer
    /// of its compile probe. Returns the state after that.
    pub fn resolve(self, compiled: bool) -> (next: Evaluation)
        ensures
            next@ == self@.resolved(compiled),
            next@.well_formed(),
    {
        proof {
            use_type_invariant(&self);
        }
        let Evaluation { checks, rustc, features, mut outcomes } = self;
        let position = outcomes.len();
        if position < checks.len() {
            let outcome = checks[position].1.check(&rustc, &features, compiled);
            outcomes.push(outcome);
        }
        Evaluation { checks, rustc, features, outcomes }
    }

    /// Runs the evaluation with answers that are known beforehand: the
    /// probes, in the order in which they are asked for, are taken to give
    /// the answers of `answers`. The run stops where every condition is
    /// decided, or where a probe is asked for and the answers have run out.
    pub fn run(self, answers: &Vec<bool>) -> (last: Evaluation)
        ensures
            last@ == self@.run(answers@),
    {
        let mut state = self;
        let mut used: usize = 0;
        assert(answers@.skip(0) =~= answers@);
        loop
            invariant
                used <= answers.len(),
                self@.run(answers@) == state@.run(answers@.skip(used as int)),
            decreases answers.len() - used,
        {
            let ghost before = state@;
            let (stopped, step) = state.advance();
            state = stopped;
            match step {
                Step::Finished => {
                    return state;
                },
                Step::Probe(_) => {
                    if used >= answers.len() {
                        return state;
                    }
                    assert(!before.advanced().finished());
                    state = state.resolve(answers[used]);
                    assert(answers@.skip(used as int).drop_first() =~= answers@.skip(
                        used as int + 1,
                    ));
                    used += 1;
                },
            }
        }
    }

    /// The names to emit for what is decided so far: one for each satisfied
    /// condition, in the order of the checks. Nothing is left out for being
    /// there already.
    pub fn satisfied(&self) -> (names: Vec<String>)
        ensures
            texts(names@) == self@.satisfied(),
    {
        proof {
            use_type_invariant(self);
        }
        let mut names: Vec<String> = Vec::new();
        let mut i: usize = 0;
        assert(texts(names@) =~= Seq::<Seq<char>>::empty());
        while i < self.outcomes.len()
            invariant
                i <= self.outcomes@.len() <= self.checks@.len(),
                texts(names@) == emitted(named(self.checks@), self.outcomes@, i as int),
            decreases self.outcomes.len() - i,
        {
            if self.outcomes[i] {
                let ghost before = texts(names@);
                names.push(self.checks[i].0.clone());
                assert(texts(names@) =~= before.push(self.checks@[i as int].0@));
            }
            i += 1;
        }
        names
    }
}

/// The next condition that needs a probe is not before `from` and not
/// behind the last condition, and no condition between `from` and it needs
/// one.
pub proof fn lemma_next_probe(state: EvaluationModel, from: int)
    requires
        0 <= from <= state.checks.len(),
    ensures
        from <= state.next_probe(from) <= state.checks.len(),
        forall|i: int|
            from <= i < state.next_probe(from) ==> (#[trigger] state.checks[i]).1.probe_needed(
                state.active,
            ) is None,
        state.next_probe(from) < state.checks.len() ==> state.checks[state.next_probe(
            from,
        )].1.probe_needed(state.active) is Some,
    decreases state.checks.len() - from,
{
    if from < state.checks.len() && state.checks[from].1.probe_needed(state.active) is None {
        lemma_next_probe(state, from + 1);
    }
}

/// The number of satisfied conditions among the first `n`.
pub open spec fn satisfied_count(outcomes: Seq<bool>, n: int) -> nat
    decreases n,
{
    if n <= 0 {
        0
    } else {
        satisfied_count(outcomes, n - 1) + if outcomes[n - 1] {
            1nat
        } else {
            0nat
        }
    }
}

/// What is emitted for the first `n` conditions has one name for each
/// satisfied condition among them, and holds exactly the names of those
/// conditions. With every condition satisfied it is the list of all names.
pub proof fn lemma_emitted(checks: Seq<(Seq<char>, ConditionModel)>, outcomes: Seq<bool>, n: int)
    requires
        0 <= n <= outcomes.len() <= checks.len(),
    ensures
        emitted(checks, outcomes, n).len() == satisfied_count(outcomes, n),
        forall|name: Seq<char>|
            emitted(checks, outcomes, n).contains(name) <==> exists|i: int|
                0 <= i < n && outcomes[i] && #[trigger] checks[i].0 == name,
        (forall|i: int| 0 <= i < n ==> outcomes[i]) ==> emitted(checks, outcomes, n)
            == checks.take(n).map_values(|entry: (Seq<char>, ConditionModel)| entry.0),
    decreases n,
{
    if n > 0 {
        lemma_emitted(checks, outcomes, n - 1);
        let before = emitted(checks, outcomes, n - 1);
        let now = emitted(checks, outcomes, n);
        assert forall|name: Seq<char>| now.contains(name) <==> exists|i: int|
            0 <= i < n && outcomes[i] && #[trigger] checks[i].0 == name by {
            if now.contains(name) {
                if before.contains(name) {
                    let i = choose|i: int|
                        0 <= i < n - 1 && outcomes[i] && #[trigger] checks[i].0 == name;
                    assert(0 <= i < n && outcomes[i] && checks[i].0 == name);
                } else {
                    let k = choose|k: int| 0 <= k < now.len() && now[k] == name;
                    assert(k == before.len());
                    assert(outcomes[n - 1] && checks[n - 1].0 == name);
                }
            }
            if exists|i: int| 0 <= i < n && outcomes[i] && #[trigger] checks[i].0 == name {
                let i = choose|i: int| 0 <= i < n && outcomes[i] && #[trigger] checks[i].0 == name;
                if i < n - 1 {
                    assert(before.contains(name));
                    let k = choose|k: int| 0 <= k < before.len() && before[k] == name;
                    assert(now[k] == name);
                } else {
                    assert(now[before.len() as int] == name);
                }
            }
        }
        if forall|i: int| 0 <= i < n ==> outcomes[i] {
            assert(now =~= checks.take(n).map_values(
                |entry: (Seq<char>, ConditionModel)| entry.0,
            ));
        }
    } else {
        assert(emitted(checks, outcomes, n) =~= checks.take(n).map_values(
            |entry: (Seq<char>, ConditionModel)| entry.0,
        ));
    }
}

/// A step keeps what was decided before it, and never decides more
/// conditions than there are. An answer decides exactly one condition, the
/// one it was asked for: so no condition is probed twice.
pub proof fn lemma_steps_keep_outcomes(state: EvaluationModel, compiled: bool)
    requires
        state.well_formed(),
    ensures
        state.advanced().well_formed(),
        state.resolved(compiled).well_formed(),
        state.outcomes.len() <= state.advanced().outcomes.len(),
        !state.finished() ==> state.resolved(compiled).outcomes.len() == state.outcomes.len() + 1,
        forall|i: int|
            0 <= i < state.outcomes.len() ==> #[trigger] state.advanced().outcomes[i]
                == state.outcomes[i],
        forall|i: int|
            0 <= i < state.outcomes.len() ==> #[trigger] state.resolved(compiled).outcomes[i]
                == state.outcomes[i],
        state.advanced().pending() is None ==> state.advanced().finished(),
{
    lemma_next_probe(state, state.outcomes.len() as int);
}

/// A condition that needs no probe is decided without one: its outcome is
/// the same whatever is given as the probe's answer.
pub proof fn lemma_outcome_without_probe(state: EvaluationModel, i: int, a: bool, b: bool)
    requires
        0 <= i < state.checks.len(),
        state.checks[i].1.probe_needed(state.active) is None,
    ensures
        state.outcome(i, a) == state.outcome(i, b),
{
}

/// A run with as many answers as there are conditions decides them all.
pub proof fn lemma_run_finishes(state: EvaluationModel, answers: Seq<bool>)
    requires
        state.well_formed(),
        answers.len() >= state.checks.len() - state.outcomes.len(),
    ensures
        state.run(answers).finished(),
        state.run(answers).well_formed(),
    decreases answers.len(),
{
    lemma_steps_keep_outcomes(state, false);
    let stopped = state.advanced();
    if !stopped.finished() && answers.len() > 0 {
        lemma_steps_keep_outcomes(stopped, answers[0]);
        lemma_run_finishes(stopped.resolved(answers[0]), answers.drop_first());
    }
}

/// The number of probes asked for before a condition does not fall from one
/// condition to the next.
pub proof fn lemma_probes_before_grows(state: EvaluationModel, i: int, j: int)
    requires
        i <= j,
    ensures
        state.probes_before(i) <= state.probes_before(j),
    decreases j - i,
{
    if i < j {
        lemma_probes_before_grows(state, i, j - 1);
    }
}

/// No probe is asked for between a condition and the next one that needs a
/// probe.
proof fn lemma_no_probe_between(state: EvaluationModel, from: int, to: int)
    requires
        0 <= from <= to <= state.next_probe(from),
        from <= state.checks.len(),
    ensures
        state.probes_before(to) == state.probes_before(from),
    decreases to - from,
{
    lemma_next_probe(state, from);
    if from < to {
        lemma_no_probe_between(state, from, to - 1);
        assert(state.checks[to - 1].1.probe_needed(state.active) is None);
    }
}

/// The rest of a run keeps to the conditions' own checks: where what is
/// decided so far is what the checks give with the answers used so far, and
/// the answers left are enough, the run decides every condition, and each as
/// its own check gives with the answer of its own probe.
proof fn lemma_rest_of_run(state: EvaluationModel, answers: Seq<bool>, used: int)
    requires
        state.well_formed(),
        used == state.probes_before(state.outcomes.len() as int),
        answers.len() >= state.probes_before(state.checks.len() as int),
        forall|i: int| 0 <= i < state.outcomes.len() ==> state.outcomes[i] == state.holds(i, answers),
    ensures
        used <= answers.len(),
        state.run(answers.skip(used)).outcomes.len() == state.checks.len(),
        forall|i: int|
            0 <= i < state.checks.len() ==> #[trigger] state.run(answers.skip(used)).outcomes[i]
                == state.holds(i, answers),
        state.run(answers.skip(used)).checks == state.checks,
    decreases state.checks.len() - state.outcomes.len(),
{
    let position = state.outcomes.len() as int;
    let len = state.checks.len() as int;
    lemma_probes_before_grows(state, position, len);
    lemma_next_probe(state, position);
    lemma_steps_keep_outcomes(state, false);
    let stopped = state.advanced();
    let stop = state.next_probe(position);
    lemma_no_probe_between(state, position, stop);
    assert forall|i: int| 0 <= i < stopped.outcomes.len() implies stopped.outcomes[i]
        == state.holds(i, answers) by {
        if i >= position {
            assert(state.checks[i].1.probe_needed(state.active) is None);
        }
    }
    let rest = answers.skip(used);
    if stopped.finished() {
    } else {
        assert(state.checks[stop].1.probe_needed(state.active) is Some);
        assert(state.probes_before(stop + 1) == used + 1);
        lemma_probes_before_grows(state, stop + 1, len);
        assert(rest.len() > 0);
        let next = stopped.resolved(rest[0]);
        assert(rest[0] == answers[used]);
        assert(rest.drop_first() =~= answers.skip(used + 1));
        assert(next.outcomes.len() == stop + 1);
        assert forall|i: int| 0 <= i < next.outcomes.len() implies next.outcomes[i] == next.holds(
            i,
            answers,
        ) by {
            assert(next.probes_before(i) == state.probes_before(i)) by {
                lemma_same_checks_same_places(state, next, i);
            }
        }
        assert(next.probes_before(stop + 1) == state.probes_before(stop + 1)) by {
            lemma_same_checks_same_places(state, next, stop + 1);
        }
        assert(next.probes_before(len) == state.probes_before(len)) by {
            lemma_same_checks_same_places(state, next, len);
        }
        lemma_rest_of_run(next, answers, used + 1);
        assert forall|i: int| 0 <= i < state.checks.len() implies #[trigger] state.run(
            rest,
        ).outcomes[i] == state.holds(i, answers) by {
            lemma_same_checks_same_places(state, next, i);
        }
    }
}

/// The place of a condition's answer depends on the checks and the active
/// features alone.
proof fn lemma_same_checks_same_places(a: EvaluationModel, b: EvaluationModel, i: int)
    requires
        a.checks == b.checks,
        a.active == b.active,
    ensures
        a.probes_before(i) == b.probes_before(i),
    decreases i,
{
    if i > 0 {
        lemma_same_checks_same_places(a, b, i - 1);
    }
}

/// A run from the start, with an answer for every probe, decides every
/// condition as its own check gives, with the answer of its own probe: so
/// it emits one name for exactly the conditions whose check holds, in the
/// order of the checks.
pub proof fn lemma_run_decides_each_by_its_check(
    checks: Seq<(Seq<char>, ConditionModel)>,
    version: VersionModel,
    nightly: bool,
    active: Seq<Seq<char>>,
    answers: Seq<bool>,
)
    requires
        answers.len() >= EvaluationModel::start(checks, version, nightly, active).probes_before(
            checks.len() as int,
        ),
    ensures
        ({
            let start = EvaluationModel::start(checks, version, nightly, active);
            let end = start.run(answers);
            &&& end.outcomes.len() == checks.len()
            &&& forall|i: int|
                0 <= i < checks.len() ==> #[trigger] end.outcomes[i] == start.holds(i, answers)
            &&& end.satisfied() == emitted(
                checks,
                Seq::new(checks.len(), |i: int| start.holds(i, answers)),
                checks.len() as int,
            )
        }),
{
    let start = EvaluationModel::start(checks, version, nightly, active);
    lemma_rest_of_run(start, answers, 0);
    assert(answers.skip(0) =~= answers);
    let end = start.run(answers);
    assert(end.outcomes =~= Seq::new(checks.len(), |i: int| start.holds(i, answers)));
}

/// Two runs on the same checks, against the same toolchain and the same
/// active features, in which the probes give the same answers, end in the
/// same state and emit the same lines.
pub proof fn lemma_same_inputs_same_lines(
    first: EvaluationModel,
    second: EvaluationModel,
    first_answers: Seq<bool>,
    second_answers: Seq<bool>,
)
    requires
        first.checks == second.checks,
        first.version == second.version,
        first.nightly == second.nightly,
        first.active == second.active,
        first.outcomes == second.outcomes,
        first_answers == second_answers,
    ensures
        first.run(first_answers) == second.run(second_answers),
        directives(first.run(first_answers).satisfied()) == directives(
            second.run(second_answers).satisfied(),
        ),
{
}

/// The line that switches on the flag of one name.
pub open spec fn directive(name: Seq<char>) -> Seq<char> {
    "cargo:rustc-cfg="@ + name
}

/// The lines that switch on the flags of the names, in their order.
pub open spec fn directives(names: Seq<Seq<char>>) -> Seq<Seq<char>> {
    names.map_values(|name: Seq<char>| directive(name))
}

/// The lines to emit for what an evaluation has decided so far: one for each
/// satisfied condition, with its name, in the order of the checks; none for
/// a condition that is not satisfied. Each line goes out with a line end
/// behind it.
pub fn check(evaluation: &Evaluation) -> (lines: Vec<String>)
    ensures
        texts(lines@) == directives(evaluation@.satisfied()),
{
    let names = evaluation.satisfied();
    let mut lines: Vec<String> = Vec::new();
    let mut i: usize = 0;
    while i < names.len()
        invariant
            i <= names.len(),
            lines@.len() == i,
            forall|j: int| 0 <= j < i ==> (#[trigger] lines@[j])@ == directive(names@[j]@),
        decreases names.len() - i,
    {
        let mut line = "cargo:rustc-cfg=".to_owned();
        line.append(names[i].as_str());
        lines.push(line);
        i += 1;
    }
    assert(texts(lines@) =~= directives(texts(names@)));
    lines
}

} // verus!
