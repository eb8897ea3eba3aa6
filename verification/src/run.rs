//! A transition in progress, as a state machine. The engine decides every
//! step; the program around it fires the hooks the engine asks for, records
//! the journal entries it hands out, and brings back what the hooks answered.

use vstd::prelude::*;
use crate::config::{HookDef, SignalMapping};
use crate::registry::{ActionContext, HookSignal};

verus! {

/// The texts of a sequence of strings.
pub open spec fn texts_of(s: Seq<String>) -> Seq<Seq<char>> {
    s.map_values(|x: String| x@)
}

/// The text of an optional string.
pub open spec fn opt_text(o: Option<String>) -> Option<Seq<char>> {
    match o {
        Some(s) => Some(s@),
        None => None,
    }
}

/// A transition in progress on one object. Before `committed`, `next` is the
/// position of the next hook of `before`; after it, of `after`. A runtime
/// payload, when the transition carries one, is merged into the payload of
/// every hook fired.
pub struct TransitionRun {
    pub object_id: String,
    pub transition_id: String,
    pub from_state: String,
    pub to: String,
    pub before: Vec<HookDef>,
    pub after: Vec<HookDef>,
    pub committed: bool,
    pub next: usize,
    pub hooks_fired: Vec<String>,
    pub alert: Option<String>,
    pub runtime_payload: Option<String>,
}

/// The abstract content of a `TransitionRun`.
#[verifier::ext_equal]
pub struct RunModel {
    pub object_id: Seq<char>,
    pub transition_id: Seq<char>,
    pub from_state: Seq<char>,
    pub to: Seq<char>,
    pub before: Seq<HookDef>,
    pub after: Seq<HookDef>,
    pub committed: bool,
    pub next: nat,
    pub hooks_fired: Seq<Seq<char>>,
    pub alert: Option<Seq<char>>,
    pub runtime: Option<Seq<char>>,
}

impl View for TransitionRun {
    type V = RunModel;

    open spec fn view(&self) -> RunModel {
        RunModel {
            object_id: self.object_id@,
            transition_id: self.transition_id@,
            from_state: self.from_state@,
            to: self.to@,
            before: self.before@,
            after: self.after@,
            committed: self.committed,
            next: self.next as nat,
            hooks_fired: texts_of(self.hooks_fired@),
            alert: opt_text(self.alert),
            runtime: opt_text(self.runtime_payload),
        }
    }
}

/// The payload a hook with the payload `hook` fires with in a run with the
/// runtime payload `runtime`, if any.
pub open spec fn fired_payload(hook: Seq<char>, runtime: Option<Seq<char>>) -> Seq<char> {
    match runtime {
        Some(p) => crate::payload::merged_payload(hook, p),
        None => hook,
    }
}

/// The outcome of a transition that went through (possibly redirected).
pub struct TransitionResult {
    pub object_id: String,
    pub from_state: String,
    pub to_state: String,
    pub transition_id: String,
    pub hooks_fired: Vec<String>,
    pub forced_transition: Option<String>,
    pub alert_message: Option<String>,
}

pub struct ResultModel {
    pub object_id: Seq<char>,
    pub from_state: Seq<char>,
    pub to_state: Seq<char>,
    pub transition_id: Seq<char>,
    pub hooks_fired: Seq<Seq<char>>,
    pub forced_transition: Option<Seq<char>>,
    pub alert_message: Option<Seq<char>>,
}

impl View for TransitionResult {
    type V = ResultModel;

    open spec fn view(&self) -> ResultModel {
        ResultModel {
            object_id: self.object_id@,
            from_state: self.from_state@,
            to_state: self.to_state@,
            transition_id: self.transition_id@,
            hooks_fired: texts_of(self.hooks_fired@),
            forced_transition: opt_text(self.forced_transition),
            alert_message: opt_text(self.alert_message),
        }
    }
}

/// A line of the transition journal.
pub struct JournalEntry {
    pub workflow_id: String,
    pub object_id: String,
    pub from_state: String,
    pub to_state: String,
    pub transition_id: String,
}

pub struct JournalModel {
    pub workflow_id: Seq<char>,
    pub object_id: Seq<char>,
    pub from_state: Seq<char>,
    pub to_state: Seq<char>,
    pub transition_id: Seq<char>,
}

impl View for JournalEntry {
    type V = JournalModel;

    open spec fn view(&self) -> JournalModel {
        JournalModel {
            workflow_id: self.workflow_id@,
            object_id: self.object_id@,
            from_state: self.from_state@,
            to_state: self.to_state@,
            transition_id: self.transition_id@,
        }
    }
}

pub struct ContextModel {
    pub object_id: Seq<char>,
    pub workflow_id: Seq<char>,
    pub current_state: Seq<char>,
    pub target_state: Seq<char>,
    pub transition_id: Seq<char>,
    pub payload: Seq<char>,
}

impl View for ActionContext {
    type V = ContextModel;

    open spec fn view(&self) -> ContextModel {
        ContextModel {
            object_id: self.object_id@,
            workflow_id: self.workflow_id@,
            current_state: self.current_state@,
            target_state: self.target_state@,
            transition_id: self.transition_id@,
            payload: self.payload@,
        }
    }
}

/// What the engine asks for next.
pub enum Step {
    /// Fire `hook` with `context`, then hand its answer to `deliver`.
    Fire { run: TransitionRun, hook: HookDef, context: ActionContext },
    /// Record `entry` in the journal, then call `advance`.
    Journal { run: TransitionRun, entry: JournalEntry },
    /// The transition is over: what it did, or why it failed.
    Done(Result<TransitionResult, String>),
}

pub enum StepModel {
    Fire { run: RunModel, hook: HookDef, context: ContextModel },
    Journal { run: RunModel, entry: JournalModel },
    Done(Result<ResultModel, Seq<char>>),
}

impl View for Step {
    type V = StepModel;

    open spec fn view(&self) -> StepModel {
        match self {
            Step::Fire { run, hook, context } => StepModel::Fire { run: run@, hook: *hook, context: context@ },
            Step::Journal { run, entry } => StepModel::Journal { run: run@, entry: entry@ },
            Step::Done(Ok(r)) => StepModel::Done(Ok(r@)),
            Step::Done(Err(e)) => StepModel::Done(Err(e@)),
        }
    }
}

/// The part of the engine that transitions change: the state of each object,
/// and the objects marked frozen.
#[verifier::ext_equal]
pub struct EngineModel {
    pub objects: Map<Seq<char>, Seq<char>>,
    pub frozen: Map<Seq<char>, bool>,
}

/// Whether the object `o` is frozen.
pub open spec fn frozen_in(e: EngineModel, o: Seq<char>) -> bool {
    e.frozen.contains_key(o) && e.frozen[o]
}

/// Whether an action is one of those the library carries out in memory (loop
/// detection, rate limiting), with no effect outside the program.
pub open spec fn internal_action(a: Seq<char>) -> bool {
    a == "detect_loopback"@ || a == "rate_limit"@
}

/// Whether a hook is skipped (answered `Continue` without firing it): a dry
/// run runs no external action, so it fires only the library's in-memory
/// actions.
pub open spec fn skipped(dry_run: bool, h: HookDef) -> bool {
    dry_run && !internal_action(h.action@)
}

/// The context a hook of the run fires with.
pub open spec fn hook_context(workflow: Seq<char>, r: RunModel, h: HookDef) -> ContextModel {
    ContextModel {
        object_id: r.object_id,
        workflow_id: workflow,
        current_state: r.from_state,
        target_state: r.to,
        transition_id: r.transition_id,
        payload: fired_payload(h.payload@, r.runtime),
    }
}

/// The journal line of the run.
pub open spec fn journal_line(workflow: Seq<char>, r: RunModel) -> JournalModel {
    JournalModel {
        workflow_id: workflow,
        object_id: r.object_id,
        from_state: r.from_state,
        to_state: r.to,
        transition_id: r.transition_id,
    }
}

/// The outcome of a run that went through all its hooks.
pub open spec fn completed(r: RunModel) -> ResultModel {
    ResultModel {
        object_id: r.object_id,
        from_state: r.from_state,
        to_state: r.to,
        transition_id: r.transition_id,
        hooks_fired: r.hooks_fired,
        forced_transition: None,
        alert_message: r.alert,
    }
}

/// Whether the run waits for the answer of a hook.
pub open spec fn awaits_hook(r: RunModel) -> bool {
    if r.committed {
        r.next < r.after.len()
    } else {
        r.next < r.before.len()
    }
}

/// The hook the run is at.
pub open spec fn current_hook(r: RunModel) -> HookDef {
    if r.committed {
        r.after[r.next as int]
    } else {
        r.before[r.next as int]
    }
}

/// The run moved past its current hook, which fired.
pub open spec fn past_hook(r: RunModel, alert: Option<Seq<char>>) -> RunModel {
    RunModel {
        next: r.next + 1,
        hooks_fired: r.hooks_fired.push(current_hook(r).hook_id@),
        alert,
        ..r
    }
}

pub enum Progress {
    /// The engine needs something done (or is finished).
    Emit(EngineModel, StepModel),
    /// The engine went one step further on its own.
    Move(EngineModel, RunModel),
}

/// One step of a run that waits for nothing: skip a hook that a dry run does
/// not fire, fire a hook, commit the new state (journaling it outside a dry
/// run), or finish.
pub open spec fn step_once(workflow: Seq<char>, dry_run: bool, e: EngineModel, r: RunModel) -> Progress {
    if awaits_hook(r) {
        let h = current_hook(r);
        if skipped(dry_run, h) {
            Progress::Move(e, past_hook(r, r.alert))
        } else {
            Progress::Emit(e, StepModel::Fire { run: r, hook: h, context: hook_context(workflow, r, h) })
        }
    } else if !r.committed {
        let e2 = EngineModel { objects: e.objects.insert(r.object_id, r.to), ..e };
        let r2 = RunModel { committed: true, next: 0, ..r };
        if dry_run {
            Progress::Move(e2, r2)
        } else {
            Progress::Emit(e2, StepModel::Journal { run: r2, entry: journal_line(workflow, r) })
        }
    } else {
        Progress::Emit(e, StepModel::Done(Ok(completed(r))))
    }
}

/// How far a run is from its end.
pub open spec fn remaining(r: RunModel) -> nat {
    let left_after: nat = if r.committed {
        if r.next < r.after.len() { (r.after.len() - r.next) as nat } else { 0 }
    } else {
        r.after.len()
    };
    let left_before: nat = if r.committed {
        0
    } else if r.next < r.before.len() {
        (r.before.len() - r.next + 1) as nat
    } else {
        1
    };
    left_after + left_before
}

/// What `advance` does: steps on until something is needed from outside.
pub open spec fn advance_model(workflow: Seq<char>, dry_run: bool, e: EngineModel, r: RunModel) -> (EngineModel, StepModel)
    decreases remaining(r),
{
    match step_once(workflow, dry_run, e, r) {
        Progress::Emit(e2, s) => (e2, s),
        Progress::Move(e2, r2) => advance_model(workflow, dry_run, e2, r2),
    }
}

/// The signal table entry of the hook for the signal `freeze` (`Freeze`
/// when true, `Abort` when false): each signal goes through its own entry.
pub open spec fn signal_entry(h: HookDef, freeze: bool) -> Option<SignalMapping> {
    if freeze {
        h.on_freeze
    } else {
        h.on_abort
    }
}

/// The alert after a hook answered `Freeze` or `Abort` with `reason`: the
/// entry's message (else the reason) when the entry asks for an alert.
pub open spec fn alert_after(alert: Option<Seq<char>>, m: Option<SignalMapping>, reason: Seq<char>) -> Option<Seq<char>> {
    match m {
        Some(m) => if m.alert_anarea {
            match m.message {
                Some(msg) => Some(msg@),
                None => Some(reason),
            }
        } else {
            alert
        },
        None => alert,
    }
}

/// The error of a hook that aborts a transition.
pub open spec fn abort_message(hook_id: Seq<char>, reason: Seq<char>) -> Seq<char> {
    "Hook "@ + hook_id + " aborted: "@ + reason
}

/// What `deliver` does with the answer of the current hook.
///  - An error ends the transition with that error.
///  - `Continue` moves on.
///  - Before the new state is committed, a `Freeze` or `Abort` whose own
///    entry in the hook's signal table names a transition redirects: the object keeps its state, a
///    `Freeze` marks it frozen, and the transition ends with that forced
///    transition. Otherwise an `Abort` of a hook whose error policy is
///    `abort` ends it with an error, and anything else moves on.
///  - After the commit, `Freeze` and `Abort` only update the alert.
pub open spec fn deliver_model(
    workflow: Seq<char>,
    dry_run: bool,
    e: EngineModel,
    r: RunModel,
    outcome: Result<HookSignal, String>,
) -> (EngineModel, StepModel) {
    let h = current_hook(r);
    match outcome {
        Err(msg) => (e, StepModel::Done(Err(msg@))),
        Ok(HookSignal::Continue) => advance_model(workflow, dry_run, e, past_hook(r, r.alert)),
        Ok(sig) => {
            let reason = match sig {
                HookSignal::Freeze { reason } => reason@,
                HookSignal::Abort { reason } => reason@,
                HookSignal::Continue => Seq::empty(),
            };
            let m = signal_entry(h, sig is Freeze);
            let alert = alert_after(r.alert, m, reason);
            if !r.committed && m is Some && m->0.transition is Some {
                let e2 = if sig is Freeze {
                    EngineModel { frozen: e.frozen.insert(r.object_id, true), ..e }
                } else {
                    e
                };
                (e2, StepModel::Done(Ok(ResultModel {
                    object_id: r.object_id,
                    from_state: r.from_state,
                    to_state: r.from_state,
                    transition_id: r.transition_id,
                    hooks_fired: r.hooks_fired.push(h.hook_id@),
                    forced_transition: Some(m->0.transition->0@),
                    alert_message: alert,
                })))
            } else if !r.committed && h.on_error@ == "abort"@ && sig is Abort {
                (e, StepModel::Done(Err(abort_message(h.hook_id@, reason))))
            } else {
                advance_model(workflow, dry_run, e, past_hook(r, alert))
            }
        },
    }
}

impl TransitionRun {
    /// Whether the run waits for the answer of a hook (the condition to hand
    /// it to `deliver`).
    pub fn waits_for_hook(&self) -> (b: bool)
        ensures
            b == awaits_hook(self@),
    {
        if self.committed {
            self.next < self.after.len()
        } else {
            self.next < self.before.len()
        }
    }
}

} // verus!
