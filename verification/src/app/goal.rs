//! Goal-mode logic.
//!
//! Goal mode runs a two-agent loop (a worker and an evaluator) until the
//! evaluator reports success. [`GoalState::apply_verdict`] is the loop's
//! decision core; [`parse_goal_verdict`] reads the evaluator's verdict out of
//! its free-text reply.

use vstd::prelude::*;
use crate::app::events::{GoalStage, GoalVerdict};
use crate::session::create_session_id;
use crate::text::{
    trim, occurs_at, first_occ, lemma_first_occ_props, find_first, chars_of, string_of, trim_bounds,
    copy_range, lines, next_line,
};

verus! {

/// Stop the worker/evaluator loop after this many attempts so a goal that can
/// never be satisfied (or a flaky evaluator) doesn't retry forever.
pub const MAX_GOAL_ITERATIONS: u32 = 10;

/// The worker is given a fresh session when it has already failed this often.
pub const WORKER_SWAP_AFTER: u32 = 3;

/// The evaluator is given a fresh session once it has failed this often.
pub const EVALUATOR_SWAP_AT: u32 = 5;

/// All state for goal mode.
///
/// Goal mode drives a two-agent loop: `agent1` (the worker) attempts the goal,
/// then an evaluator judges it; on failure the worker retries with feedback.
/// Each agent gets swapped to a fresh session after repeated failures, which is
/// why the per-agent failure counters and session ids live here.
#[derive(Debug, Clone)]
pub struct GoalState {
    pub mode: bool,
    pub stage: GoalStage,
    pub prompt: String,
    pub text: String,
    pub iteration: u32,
    pub agent1_failures: u32,
    pub agent2_failures: u32,
    pub agent1_session_id: String,
    pub agent2_session_id: String,
    pub summary: String,
}

/// What the imperative shell must surface after a verdict is applied.
///
/// `apply_verdict` performs all the goal *state* changes (counters, stage,
/// session swaps); the caller is left to do the I/O — pushing chat messages,
/// saving sessions, kicking off the retry.
#[derive(Debug)]
pub enum GoalOutcome {
    /// Goal met. Display this summary.
    Succeeded { summary: String },
    /// Hit the attempt cap without success — stop and tell the user.
    GaveUp { iteration: u32 },
    /// Goal not met. Retry agent 1 with this feedback.
    Retry {
        /// Attempt number to display (the pre-increment iteration).
        iteration: u32,
        issues: String,
        feedback: String,
        /// A fresh agent-1 (worker) session was started this round.
        swapped_agent1: bool,
        /// A fresh agent-2 (evaluator) session was started this round.
        swapped_agent2: bool,
    },
}

/// The summary shown on success: the evaluator's, or a stock line.
pub open spec fn success_summary(summary: Seq<char>) -> Seq<char> {
    if summary.len() == 0 {
        "Goal achieved!"@
    } else {
        summary
    }
}

/// The feedback handed to the worker: the evaluator's, or a stock request to
/// look again.
pub open spec fn retry_feedback(feedback: Seq<char>) -> Seq<char> {
    if feedback.len() == 0 {
        "No specific feedback provided. Please re-examine the goal and fix remaining issues."@
    } else {
        feedback
    }
}

impl GoalState {
    /// Nothing of a run is left: stage `Inactive`, counters at zero, prompt,
    /// text and summary empty.
    pub open spec fn run_cleared(&self) -> bool {
        &&& self.stage == GoalStage::Inactive
        &&& self.prompt@.len() == 0
        &&& self.text@.len() == 0
        &&& self.summary@.len() == 0
        &&& self.iteration == 0
        &&& self.agent1_failures == 0
        &&& self.agent2_failures == 0
    }

    /// Goal mode off, nothing of a run left, no sessions.
    pub open spec fn is_reset(&self) -> bool {
        &&& !self.mode
        &&& self.run_cleared()
        &&& self.agent1_session_id@.len() == 0
        &&& self.agent2_session_id@.len() == 0
    }

    /// A worker or evaluator turn is supposed to be in flight.
    pub open spec fn running(&self) -> bool {
        self.stage == GoalStage::RunAgent1 || self.stage == GoalStage::RunEvaluator
    }

    /// Whether the evaluator's session is replaced after a failed verdict.
    pub open spec fn evaluator_swaps(&self) -> bool {
        self.agent2_failures + 1 >= EVALUATOR_SWAP_AT
    }

    /// Whether the worker's session is replaced before a retry.
    pub open spec fn worker_swaps(&self) -> bool {
        self.agent1_failures >= WORKER_SWAP_AFTER
    }
}

/// The effect of one judgement of the evaluator: `new` and `out` are what
/// [`GoalState::apply_verdict`] leaves and returns from `old`. A swapped
/// session gets a fresh 36-character id; which id is chance.
pub open spec fn verdict_applied(
    old: GoalState,
    verdict: GoalVerdict,
    new: GoalState,
    out: GoalOutcome,
) -> bool {
    &&& new.mode == old.mode
    &&& new.prompt == old.prompt
    &&& new.text == old.text
    &&& verdict.success ==> {
        &&& out matches GoalOutcome::Succeeded { summary } && summary@ == success_summary(
            verdict.summary@,
        )
        &&& new.summary@ == success_summary(verdict.summary@)
        &&& new.stage == GoalStage::Done
        &&& new.iteration == old.iteration
        &&& new.agent1_failures == old.agent1_failures
        &&& new.agent2_failures == old.agent2_failures
        &&& new.agent1_session_id == old.agent1_session_id
        &&& new.agent2_session_id == old.agent2_session_id
    }
    &&& !verdict.success ==> {
        &&& new.summary == old.summary
        &&& new.agent2_failures == if old.evaluator_swaps() {
            0
        } else {
            old.agent2_failures + 1
        }
        &&& old.evaluator_swaps() ==> new.agent2_session_id@.len() == 36
        &&& !old.evaluator_swaps() ==> new.agent2_session_id == old.agent2_session_id
    }
    &&& !verdict.success && old.iteration >= MAX_GOAL_ITERATIONS ==> {
        &&& out == (GoalOutcome::GaveUp { iteration: old.iteration })
        &&& new.stage == GoalStage::Done
        &&& new.iteration == old.iteration
        &&& new.agent1_failures == old.agent1_failures
        &&& new.agent1_session_id == old.agent1_session_id
    }
    &&& !verdict.success && old.iteration < MAX_GOAL_ITERATIONS ==> {
        &&& out matches GoalOutcome::Retry {
            iteration,
            issues,
            feedback,
            swapped_agent1,
            swapped_agent2,
        } && iteration == old.iteration && issues@ == verdict.issues@ && feedback@
            == retry_feedback(verdict.feedback@) && swapped_agent1 == old.worker_swaps()
            && swapped_agent2 == old.evaluator_swaps()
        &&& new.stage == GoalStage::RunAgent1
        &&& new.iteration == old.iteration + 1
        &&& new.agent1_failures == if old.worker_swaps() {
            1
        } else {
            old.agent1_failures + 1
        }
        &&& old.worker_swaps() ==> new.agent1_session_id@.len() == 36
        &&& !old.worker_swaps() ==> new.agent1_session_id == old.agent1_session_id
    }
}

/// [`verdict_applied`] with the swapped sessions' new ids given: a worker
/// swapped in gets `worker_id`, an evaluator swapped in `evaluator_id`.
pub open spec fn verdict_applied_with(
    old: GoalState,
    verdict: GoalVerdict,
    new: GoalState,
    out: GoalOutcome,
    worker_id: Seq<char>,
    evaluator_id: Seq<char>,
) -> bool {
    &&& new.mode == old.mode
    &&& new.prompt == old.prompt
    &&& new.text == old.text
    &&& verdict.success ==> {
        &&& out matches GoalOutcome::Succeeded { summary } && summary@ == success_summary(
            verdict.summary@,
        )
        &&& new.summary@ == success_summary(verdict.summary@)
        &&& new.stage == GoalStage::Done
        &&& new.iteration == old.iteration
        &&& new.agent1_failures == old.agent1_failures
        &&& new.agent2_failures == old.agent2_failures
        &&& new.agent1_session_id == old.agent1_session_id
        &&& new.agent2_session_id == old.agent2_session_id
    }
    &&& !verdict.success ==> {
        &&& new.summary == old.summary
        &&& new.agent2_failures == if old.evaluator_swaps() {
            0
        } else {
            old.agent2_failures + 1
        }
        &&& old.evaluator_swaps() ==> new.agent2_session_id@ == evaluator_id
        &&& !old.evaluator_swaps() ==> new.agent2_session_id == old.agent2_session_id
    }
    &&& !verdict.success && old.iteration >= MAX_GOAL_ITERATIONS ==> {
        &&& out == (GoalOutcome::GaveUp { iteration: old.iteration })
        &&& new.stage == GoalStage::Done
        &&& new.iteration == old.iteration
        &&& new.agent1_failures == old.agent1_failures
        &&& new.agent1_session_id == old.agent1_session_id
    }
    &&& !verdict.success && old.iteration < MAX_GOAL_ITERATIONS ==> {
        &&& out matches GoalOutcome::Retry {
            iteration,
            issues,
            feedback,
            swapped_agent1,
            swapped_agent2,
        } && iteration == old.iteration && issues@ == verdict.issues@ && feedback@
            == retry_feedback(verdict.feedback@) && swapped_agent1 == old.worker_swaps()
            && swapped_agent2 == old.evaluator_swaps()
        &&& new.stage == GoalStage::RunAgent1
        &&& new.iteration == old.iteration + 1
        &&& new.agent1_failures == if old.worker_swaps() {
            1
        } else {
            old.agent1_failures + 1
        }
        &&& old.worker_swaps() ==> new.agent1_session_id@ == worker_id
        &&& !old.worker_swaps() ==> new.agent1_session_id == old.agent1_session_id
    }
}

impl Default for GoalState {
    fn default() -> (g: GoalState)
        ensures
            g.is_reset(),
    {
        GoalState {
            mode: false,
            stage: GoalStage::Inactive,
            prompt: String::new(),
            text: String::new(),
            iteration: 0,
            agent1_failures: 0,
            agent2_failures: 0,
            agent1_session_id: String::new(),
            agent2_session_id: String::new(),
            summary: String::new(),
        }
    }
}

impl GoalState {
    /// Apply the evaluator's judgement: advance failure counters, swap a stale
    /// agent's session (worker after 3 failures, evaluator after 5), bump the
    /// iteration, and set the next stage. Returns what the shell should do.
    ///
    /// A swapped session gets a fresh random id; which id is chance, so the
    /// contract says only that it is a new 36-character id.
    pub fn apply_verdict_with(
        &mut self,
        verdict: GoalVerdict,
        worker_id: String,
        evaluator_id: String,
    ) -> (out: GoalOutcome)
        requires
            !verdict.success ==> old(self).agent2_failures < u32::MAX,
        ensures
            verdict_applied_with(*old(self), verdict, *final(self), out, worker_id@, evaluator_id@),
    {
        if verdict.success {
            let summary = if verdict.summary.as_str().unicode_len() == 0 {
                "Goal achieved!".to_owned()
            } else {
                verdict.summary
            };
            self.summary = summary.clone();
            self.stage = GoalStage::Done;
            return GoalOutcome::Succeeded { summary };
        }
        // Evaluator (agent 2): increment first, then swap if it keeps failing.

        self.agent2_failures += 1;
        let iteration = self.iteration;
        let swapped_agent2 = self.agent2_failures >= EVALUATOR_SWAP_AT;
        if swapped_agent2 {
            self.agent2_session_id = evaluator_id;
            self.agent2_failures = 0;
        }
        // Stop retrying once we've made enough attempts.

        if iteration >= MAX_GOAL_ITERATIONS {
            self.stage = GoalStage::Done;
            return GoalOutcome::GaveUp { iteration };
        }
        let feedback = if verdict.feedback.as_str().unicode_len() == 0 {
            "No specific feedback provided. Please re-examine the goal and fix remaining issues.".to_owned()
        } else {
            verdict.feedback
        };
        self.iteration += 1;
        // Worker (agent 1): swap before counting this round's failure.
        let swapped_agent1 = self.agent1_failures >= WORKER_SWAP_AFTER;
        if swapped_agent1 {
            self.agent1_session_id = worker_id;
            self.agent1_failures = 0;
        }
        self.agent1_failures += 1;
        self.stage = GoalStage::RunAgent1;
        GoalOutcome::Retry { iteration, issues: verdict.issues, feedback, swapped_agent1, swapped_agent2 }
    }

    /// Apply the evaluator's judgement (see [`GoalState::apply_verdict_with`])
    /// with fresh random session ids for whichever agent is swapped.
    ///
    /// Which id is chance, so the contract says only that a swapped session
    /// gets a new 36-character id.
    pub fn apply_verdict(&mut self, verdict: GoalVerdict) -> (out: GoalOutcome)
        requires
            !verdict.success ==> old(self).agent2_failures < u32::MAX,
        ensures
            verdict_applied(*old(self), verdict, *final(self), out),
    {
        let worker_id = create_session_id();
        let evaluator_id = create_session_id();
        self.apply_verdict_with(verdict, worker_id, evaluator_id)
    }

    /// Is a worker/evaluator turn supposed to be in flight right now? When this
    /// is true but no agent is actually running (e.g. after an abort or a
    /// missing provider), the pipeline is wedged — callers use this to detect
    /// and recover from that.
    pub fn is_running(&self) -> (b: bool)
        ensures
            b == self.running(),
    {
        match self.stage {
            GoalStage::RunAgent1 | GoalStage::RunEvaluator => true,
            _ => false,
        }
    }

    /// Enter goal mode fresh: clear all per-run state and start two new agent
    /// sessions. Stage stays `Inactive` until the user supplies a prompt.
    pub fn activate(&mut self)
        ensures
            final(self).mode,
            final(self).run_cleared(),
            final(self).agent1_session_id@.len() == 36,
            final(self).agent2_session_id@.len() == 36,
    {
        let agent1_session_id = create_session_id();
        let agent2_session_id = create_session_id();
        *self = GoalState { mode: true, agent1_session_id, agent2_session_id, ..GoalState::default() };
    }

    /// Leave goal mode and clear all per-run state. Safe to call at any time —
    /// it always lands in a non-wedged, fully-reset state.
    pub fn deactivate(&mut self)
        ensures
            final(self).is_reset(),
    {
        *self = GoalState::default();
    }
}

/// A verdict never leaves the loop wedged: success and giving up end in
/// `Done`, a retry hands the turn back to the worker, and only a retry
/// continues the loop.
pub proof fn lemma_verdict_never_wedges(
    old: GoalState,
    verdict: GoalVerdict,
    new: GoalState,
    out: GoalOutcome,
)
    requires
        verdict_applied(old, verdict, new, out),
    ensures
        out is Retry <==> new.stage == GoalStage::RunAgent1,
        !(out is Retry) ==> new.stage == GoalStage::Done && !new.running(),
        out is Succeeded <==> verdict.success,
{
}

/// The loop is bounded: starting within the attempt cap, the iteration count
/// stays within it, and each retry uses up one attempt.
pub proof fn lemma_attempts_bounded(
    old: GoalState,
    verdict: GoalVerdict,
    new: GoalState,
    out: GoalOutcome,
)
    requires
        verdict_applied(old, verdict, new, out),
        old.iteration <= MAX_GOAL_ITERATIONS,
    ensures
        new.iteration <= MAX_GOAL_ITERATIONS,
        out is Retry ==> new.iteration == old.iteration + 1,
        !(out is Retry) ==> new.iteration == old.iteration,
{
}

/// Failure counters never grow past their swap thresholds: the evaluator's
/// stays below five, and after a retry the worker's is between one and three.
pub proof fn lemma_failure_counters_bounded(
    old: GoalState,
    verdict: GoalVerdict,
    new: GoalState,
    out: GoalOutcome,
)
    requires
        verdict_applied(old, verdict, new, out),
        old.agent2_failures < EVALUATOR_SWAP_AT,
        old.agent1_failures <= WORKER_SWAP_AFTER,
    ensures
        new.agent2_failures < EVALUATOR_SWAP_AT,
        new.agent1_failures <= WORKER_SWAP_AFTER,
        out is Retry ==> 1 <= new.agent1_failures,
{
}

/// Leaving goal mode always lands in a state that is not running.
pub proof fn lemma_reset_is_idle(g: GoalState)
    requires
        g.is_reset(),
    ensures
        !g.running(),
        !g.mode,
{
}

/// The fields of a [`GoalVerdict`] as mathematical values.
pub struct VerdictModel {
    pub success: bool,
    pub summary: Seq<char>,
    pub issues: Seq<char>,
    pub feedback: Seq<char>,
}

pub open spec fn verdict_model(v: GoalVerdict) -> VerdictModel {
    VerdictModel { success: v.success, summary: v.summary@, issues: v.issues@, feedback: v.feedback@ }
}

pub open spec fn has(t: Seq<char>, m: Seq<char>) -> bool {
    first_occ(t, m, 0) is Some
}

/// What follows the first `m` in `t`, trimmed (`splitn(2, m).nth(1)`).
pub open spec fn after_marker(t: Seq<char>, m: Seq<char>) -> Seq<char> {
    match first_occ(t, m, 0) {
        Some(i) => trim(t.skip(i + m.len())),
        None => Seq::empty(),
    }
}

/// One reply line read into the verdict so far: a `**Status:**` line sets
/// success (whether it says `SUCCESS`), a `**Summary:**`, `**Issues:**` or
/// `**Feedback:**` line sets that field to the text after the marker. The
/// first marker of that order found on the line wins.
pub open spec fn read_verdict_line(v: VerdictModel, line: Seq<char>) -> VerdictModel {
    let t = trim(line);
    if has(t, "**Status:**"@) {
        VerdictModel { success: has(t, "SUCCESS"@), ..v }
    } else if has(t, "**Summary:**"@) {
        VerdictModel { summary: after_marker(t, "**Summary:**"@), ..v }
    } else if has(t, "**Issues:**"@) {
        VerdictModel { issues: after_marker(t, "**Issues:**"@), ..v }
    } else if has(t, "**Feedback:**"@) {
        VerdictModel { feedback: after_marker(t, "**Feedback:**"@), ..v }
    } else {
        v
    }
}

pub open spec fn read_verdict_lines(v: VerdictModel, ls: Seq<Seq<char>>) -> VerdictModel
    decreases ls.len(),
{
    if ls.len() == 0 {
        v
    } else {
        read_verdict_lines(read_verdict_line(v, ls[0]), ls.drop_first())
    }
}

/// The verdict read from an evaluator reply: its lines in order, then the
/// fallback that a reply with no summary that mentions `SUCCESS` anywhere
/// counts as success.
pub open spec fn parse_goal_verdict_spec(text: Seq<char>) -> VerdictModel {
    let v = read_verdict_lines(
        VerdictModel {
            success: false,
            summary: Seq::empty(),
            issues: Seq::empty(),
            feedback: Seq::empty(),
        },
        lines(text),
    );
    if v.summary.len() == 0 && has(text, "SUCCESS"@) {
        VerdictModel { success: true, ..v }
    } else {
        v
    }
}

/// Whether `t` contains `m`.
fn has_exec(t: &Vec<char>, m: &Vec<char>) -> (b: bool)
    ensures
        b == has(t@, m@),
{
    find_first(t, m, 0).is_some()
}

/// The text after the first `m` in `t`, trimmed; `m` must occur.
fn after_marker_exec(t: &Vec<char>, m: &Vec<char>) -> (r: String)
    requires
        has(t@, m@),
    ensures
        r@ == after_marker(t@, m@),
{
    let found = find_first(t, m, 0);
    proof {
        lemma_first_occ_props(t@, m@, 0);
    }
    let i = match found {
        Some(i) => i,
        None => {
            return String::new();
        },
    };
    assert(occurs_at(t@, m@, i as int));
    let n = t.len();
    let k = i + m.len();
    let (a, b) = trim_bounds(t, k, n);
    assert(t@.subrange(k as int, n as int) == t@.skip(k as int));
    string_of(t, a, b)
}

/// The markers of a structured verdict.
struct Markers {
    status: Vec<char>,
    summary: Vec<char>,
    issues: Vec<char>,
    feedback: Vec<char>,
    success: Vec<char>,
}

impl Markers {
    spec fn wf(&self) -> bool {
        &&& self.status@ == "**Status:**"@
        &&& self.summary@ == "**Summary:**"@
        &&& self.issues@ == "**Issues:**"@
        &&& self.feedback@ == "**Feedback:**"@
        &&& self.success@ == "SUCCESS"@
    }

    fn new() -> (m: Markers)
        ensures
            m.wf(),
    {
        Markers {
            status: chars_of("**Status:**"),
            summary: chars_of("**Summary:**"),
            issues: chars_of("**Issues:**"),
            feedback: chars_of("**Feedback:**"),
            success: chars_of("SUCCESS"),
        }
    }
}

/// Read the line `v[a..b]` into `verdict`.
fn read_line(v: &Vec<char>, a: usize, b: usize, m: &Markers, verdict: &mut GoalVerdict)
    requires
        a <= b <= v.len(),
        m.wf(),
    ensures
        verdict_model(*final(verdict)) == read_verdict_line(
            verdict_model(*old(verdict)),
            v@.subrange(a as int, b as int),
        ),
{
    let (ta, tb) = trim_bounds(v, a, b);
    let t = copy_range(v, ta, tb);
    if has_exec(&t, &m.status) {
        verdict.success = has_exec(&t, &m.success);
    } else if has_exec(&t, &m.summary) {
        verdict.summary = after_marker_exec(&t, &m.summary);
    } else if has_exec(&t, &m.issues) {
        verdict.issues = after_marker_exec(&t, &m.issues);
    } else if has_exec(&t, &m.feedback) {
        verdict.feedback = after_marker_exec(&t, &m.feedback);
    }
}

/// Parse an evaluator reply into a structured [`GoalVerdict`].
///
/// The evaluator is asked to emit `**Status:**`, `**Summary:**`, `**Issues:**`
/// and `**Feedback:**` markers. As a fallback, any reply containing the word
/// `SUCCESS` with no structured summary is treated as success.
pub fn parse_goal_verdict(text: &str) -> (v: GoalVerdict)
    ensures
        verdict_model(v) == parse_goal_verdict_spec(text@),
{
    let m = Markers::new();
    let chars = chars_of(text);
    let mut verdict = GoalVerdict {
        success: false,
        summary: String::new(),
        issues: String::new(),
        feedback: String::new(),
    };
    let ghost init = verdict_model(verdict);
    let mut start: usize = 0;
    assert(chars@.skip(0) == chars@);
    while start < chars.len()
        invariant
            start <= chars.len(),
            m.wf(),
            read_verdict_lines(init, lines(chars@)) == read_verdict_lines(
                verdict_model(verdict),
                lines(chars@.skip(start as int)),
            ),
        decreases chars.len() - start,
    {
        let (end, next) = next_line(&chars, start);
        let ghost before = verdict_model(verdict);
        read_line(&chars, start, end, &m, &mut verdict);
        proof {
            let line = chars@.subrange(start as int, end as int);
            let rest = lines(chars@.skip(next as int));
            let all = seq![line] + rest;
            assert(all[0] == line);
            assert(all.drop_first() == rest);
        }
        start = next;
    }
    proof {
        assert(chars@.skip(start as int).len() == 0);
        assert(lines(chars@.skip(start as int)) == Seq::<Seq<char>>::empty());
    }
    if verdict.summary.as_str().unicode_len() == 0 && has_exec(&chars, &m.success) {
        verdict.success = true;
    }
    verdict
}

} // verus!
