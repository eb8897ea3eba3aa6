//! What holds of the engine and of the actions over all inputs and across
//! calls.

use vstd::prelude::*;
use crate::registry::HookSignal;
use crate::run::{
    EngineModel, RunModel, StepModel, Progress, advance_model, deliver_model, step_once, remaining,
    frozen_in,
};
use crate::engine::{current_state_of, frozen_message};
use crate::actions::loopback::{kept_history, repeated};
use crate::actions::rate_limiter::{rate_step, window_after, window_nanos};

verus! {

/// A run after its commit finds its object in the run's target state.
pub open spec fn consistent(e: EngineModel, r: RunModel) -> bool {
    r.committed ==> e.objects.contains_key(r.object_id) && e.objects[r.object_id] == r.to
}

/// In a dry run, the engine never asks for an external action to be fired (a
/// Telegram notice, a script, any action but the library's in-memory loop
/// detection and rate limiting) and never hands out a journal entry.
pub proof fn dry_run_runs_no_external_action(w: Seq<char>, e: EngineModel, r: RunModel)
    ensures
        match advance_model(w, true, e, r).1 {
            StepModel::Fire { hook, .. } => crate::run::internal_action(hook.action@),
            StepModel::Journal { .. } => false,
            StepModel::Done(_) => true,
        },
    decreases remaining(r),
{
    match step_once(w, true, e, r) {
        Progress::Move(e2, r2) => dry_run_runs_no_external_action(w, e2, r2),
        Progress::Emit(_, _) => {},
    }
}

/// The same holds after an answer is handed to a dry run.
pub proof fn dry_run_answer_runs_no_external_action(w: Seq<char>, e: EngineModel, r: RunModel, outcome: Result<HookSignal, String>)
    ensures
        match deliver_model(w, true, e, r, outcome).1 {
            StepModel::Fire { hook, .. } => crate::run::internal_action(hook.action@),
            StepModel::Journal { .. } => false,
            StepModel::Done(_) => true,
        },
{
    let h = crate::run::current_hook(r);
    match outcome {
        Err(_) => {},
        Ok(HookSignal::Continue) => dry_run_runs_no_external_action(w, e, crate::run::past_hook(r, r.alert)),
        Ok(sig) => {
            let reason = match sig {
                HookSignal::Freeze { reason } => reason@,
                HookSignal::Abort { reason } => reason@,
                HookSignal::Continue => Seq::empty(),
            };
            let alert = crate::run::alert_after(r.alert, crate::run::signal_entry(h, sig is Freeze), reason);
            dry_run_runs_no_external_action(w, e, crate::run::past_hook(r, alert));
        },
    }
}

/// Moving a run on changes no frozen mark, and changes the objects' states
/// at most by putting the run's object into the run's target state (which
/// happens only when the run was not yet committed). A committed run
/// stays consistent with the states.
pub proof fn advance_moves_only_to_target(w: Seq<char>, dry: bool, e: EngineModel, r: RunModel)
    ensures
        ({
            let (e2, s) = advance_model(w, dry, e, r);
            &&& e2.frozen == e.frozen
            &&& e2.objects == e.objects || (!r.committed && e2.objects == e.objects.insert(r.object_id, r.to))
            &&& consistent(e, r) ==> match s {
                StepModel::Fire { run, .. } => consistent(e2, run) && run.object_id == r.object_id && run.to == r.to,
                StepModel::Journal { run, .. } => consistent(e2, run) && run.object_id == r.object_id && run.to == r.to,
                StepModel::Done(Ok(res)) => res.forced_transition is None && res.to_state == r.to
                    && res.object_id == r.object_id && e2.objects.contains_key(r.object_id)
                    && e2.objects[r.object_id] == r.to,
                StepModel::Done(Err(_)) => true,
            }
        }),
    decreases remaining(r),
{
    match step_once(w, dry, e, r) {
        Progress::Move(e2, r2) => {
            advance_moves_only_to_target(w, dry, e2, r2);
            if !r.committed && !crate::run::awaits_hook(r) {
                assert(e2.objects == e.objects.insert(r.object_id, r.to));
                let e3 = advance_model(w, dry, e2, r2).0;
                assert(e3.objects == e2.objects || e3.objects == e2.objects.insert(r.object_id, r.to));
                assert(e2.objects.insert(r.object_id, r.to) =~= e2.objects);
            }
        },
        Progress::Emit(_, _) => {},
    }
}

/// Handing a hook's answer to a run: the states change at most by the
/// commit to the run's target, and an object is frozen only by a `Freeze`
/// that redirects the transition. A redirected transition leaves its object
/// where it was; a transition that completes leaves it in its target state.
pub proof fn deliver_keeps_states(w: Seq<char>, dry: bool, e: EngineModel, r: RunModel, outcome: Result<HookSignal, String>)
    requires
        consistent(e, r),
    ensures
        ({
            let (e2, s) = deliver_model(w, dry, e, r, outcome);
            &&& e2.objects == e.objects || (!r.committed && e2.objects == e.objects.insert(r.object_id, r.to))
            &&& e2.frozen == e.frozen || (outcome matches Ok(HookSignal::Freeze { .. }) && !r.committed
                && e2.frozen == e.frozen.insert(r.object_id, true)
                && (s matches StepModel::Done(Ok(res)) && res.forced_transition is Some))
            &&& match s {
                StepModel::Fire { run, .. } => consistent(e2, run) && run.object_id == r.object_id,
                StepModel::Journal { run, .. } => consistent(e2, run) && run.object_id == r.object_id,
                StepModel::Done(Ok(res)) => res.object_id == r.object_id && if res.forced_transition is Some {
                    res.to_state == res.from_state && e2.objects == e.objects
                } else {
                    res.to_state == r.to && e2.objects.contains_key(r.object_id) && e2.objects[r.object_id] == r.to
                },
                StepModel::Done(Err(_)) => true,
            }
        }),
{
    let h = crate::run::current_hook(r);
    match outcome {
        Err(_) => {},
        Ok(HookSignal::Continue) => advance_moves_only_to_target(w, dry, e, crate::run::past_hook(r, r.alert)),
        Ok(sig) => {
            let reason = match sig {
                HookSignal::Freeze { reason } => reason@,
                HookSignal::Abort { reason } => reason@,
                HookSignal::Continue => Seq::empty(),
            };
            let alert = crate::run::alert_after(r.alert, crate::run::signal_entry(h, sig is Freeze), reason);
            advance_moves_only_to_target(w, dry, e, crate::run::past_hook(r, alert));
        },
    }
}

/// A frozen object cannot start a transition: asking for its state fails.
pub proof fn frozen_object_stays(e: EngineModel, o: Seq<char>)
    requires
        frozen_in(e, o),
    ensures
        current_state_of(e, o) == Err::<Seq<char>, Seq<char>>(frozen_message(o)),
{
}

/// Unfreezing an object lifts its freeze and touches nothing else.
pub proof fn unfreeze_lifts_freeze(e: EngineModel, o: Seq<char>, other: Seq<char>)
    ensures
        !frozen_in(EngineModel { frozen: e.frozen.insert(o, false), ..e }, o),
        other != o ==> frozen_in(EngineModel { frozen: e.frozen.insert(o, false), ..e }, other) == frozen_in(e, other),
{
}

/// An object registered in a state (and not frozen) is found in that state.
pub proof fn registered_object_is_found(e: EngineModel, o: Seq<char>, s: Seq<char>)
    requires
        !frozen_in(e, o),
    ensures
        current_state_of(EngineModel { objects: e.objects.insert(o, s), ..e }, o) == Ok::<Seq<char>, Seq<char>>(s),
{
}

/// With a threshold of at least one, a move is taken for a loop exactly when
/// the moves recorded just before it are, `threshold - 1` of them at least,
/// all the same move.
pub proof fn loop_found_exactly_on_repeats(h: Seq<Seq<char>>, p: Seq<char>, t: nat)
    requires
        t >= 1,
    ensures
        repeated(kept_history(h, p, t), p, t) <==> (h.len() >= t - 1
            && forall|i: int| h.len() - (t - 1) <= i < h.len() ==> #[trigger] h[i] == p),
{
    let h1 = h.push(p);
    let k = kept_history(h, p, t);
    if h1.len() > 3 * t {
        let d = h1.len() - 3 * t;
        assert(k =~= h1.skip(d));
        assert(k.len() == 3 * t);
        if repeated(k, p, t) {
            assert forall|i: int| h.len() - (t - 1) <= i < h.len() implies #[trigger] h[i] == p by {
                assert(h[i] == h1[i]);
                assert(k[i - d] == h1[i]);
            }
        }
        if h.len() >= t - 1 && forall|i: int| h.len() - (t - 1) <= i < h.len() ==> #[trigger] h[i] == p {
            assert forall|i: int| k.len() - t <= i < k.len() implies k[i] == p by {
                assert(k[i] == h1[i + d]);
                if i + d < h.len() {
                    assert(h1[i + d] == h[i + d]);
                }
            }
        }
    } else {
        assert(k == h1);
        if repeated(k, p, t) {
            assert forall|i: int| h.len() - (t - 1) <= i < h.len() implies #[trigger] h[i] == p by {
                assert(h[i] == h1[i]);
            }
        }
        if h.len() >= t - 1 && forall|i: int| h.len() - (t - 1) <= i < h.len() ==> #[trigger] h[i] == p {
            assert forall|i: int| k.len() - t <= i < k.len() implies k[i] == p by {
                if i < h.len() {
                    assert(h1[i] == h[i]);
                }
            }
        }
    }
}

/// Within a window, a move passes exactly when the object is under its limit,
/// and a refused move leaves the count unchanged; a window older than a
/// minute starts again with this move.
pub proof fn rate_limit_counts_moves(key: Seq<char>, count: u32, elapsed: u128, limit: u32)
    ensures
        elapsed > window_nanos() ==> rate_step(key, count, elapsed, limit) == (1u32, None::<Seq<char>>),
        elapsed <= window_nanos() ==> (rate_step(key, count, elapsed, limit).1 is None <==> count < limit),
        elapsed <= window_nanos() && count < limit ==> rate_step(key, count, elapsed, limit).0 == count + 1,
        elapsed <= window_nanos() && count >= limit ==> rate_step(key, count, elapsed, limit).0 == count,
{
}

/// From a count within the limit (or of at most one), the count stays
/// within the limit (or at most one): no window lets more moves through than
/// the limit allows.
pub proof fn rate_limit_bounds_count(key: Seq<char>, count: u32, elapsed: u128, limit: u32)
    requires
        count <= limit || count <= 1,
    ensures
        rate_step(key, count, elapsed, limit).0 <= limit || rate_step(key, count, elapsed, limit).0 <= 1,
{
}

} // verus!

verus! {

/// The ids of a sequence of hooks.
pub open spec fn hook_ids(s: Seq<crate::config::HookDef>) -> Seq<Seq<char>> {
    s.map_values(|h: crate::config::HookDef| h.hook_id@)
}

/// The ids of the hooks a run has still to go through, in order.
pub open spec fn ids_left(r: RunModel) -> Seq<Seq<char>> {
    if r.committed {
        if r.next <= r.after.len() { hook_ids(r.after.skip(r.next as int)) } else { Seq::empty() }
    } else {
        (if r.next <= r.before.len() { hook_ids(r.before.skip(r.next as int)) } else { Seq::empty() }) + hook_ids(r.after)
    }
}

/// `r` is `r0` further on, every hook so far having answered `Continue`: the
/// same transition, the hooks gone through recorded in order, and the state
/// committed exactly when the run is past its commit.
pub open spec fn on_track(e0: EngineModel, r0: RunModel, e: EngineModel, r: RunModel) -> bool {
    &&& r.object_id == r0.object_id
    &&& r.transition_id == r0.transition_id
    &&& r.from_state == r0.from_state
    &&& r.to == r0.to
    &&& r.before == r0.before
    &&& r.after == r0.after
    &&& r.alert == r0.alert
    &&& r.hooks_fired + ids_left(r) == r0.hooks_fired + ids_left(r0)
    &&& e.frozen == e0.frozen
    &&& e.objects == if r.committed { e0.objects.insert(r0.object_id, r0.to) } else { e0.objects }
}

pub proof fn lemma_past_hook_ids(r: RunModel)
    requires
        crate::run::awaits_hook(r),
    ensures
        crate::run::past_hook(r, r.alert).hooks_fired + ids_left(crate::run::past_hook(r, r.alert))
            == r.hooks_fired + ids_left(r),
        remaining(crate::run::past_hook(r, r.alert)) < remaining(r),
{
    let p = crate::run::past_hook(r, r.alert);
    let h = crate::run::current_hook(r);
    if r.committed {
        let s = r.after.skip(r.next as int);
        assert(r.after.skip((r.next + 1) as int) =~= s.drop_first());
        assert(hook_ids(s) =~= seq![h.hook_id@] + hook_ids(s.drop_first()));
        assert(p.hooks_fired + ids_left(p) =~= r.hooks_fired + ids_left(r));
    } else {
        let s = r.before.skip(r.next as int);
        assert(r.before.skip((r.next + 1) as int) =~= s.drop_first());
        assert(hook_ids(s) =~= seq![h.hook_id@] + hook_ids(s.drop_first()));
        assert(p.hooks_fired + ids_left(p) =~= r.hooks_fired + ids_left(r));
    }
}

pub proof fn lemma_advance_progress(w: Seq<char>, dry: bool, e: EngineModel, r: RunModel)
    ensures
        match advance_model(w, dry, e, r).1 {
            StepModel::Fire { run, .. } => crate::run::awaits_hook(run) && remaining(run) <= remaining(r),
            StepModel::Journal { run, .. } => remaining(run) < remaining(r),
            StepModel::Done(_) => true,
        },
    decreases remaining(r),
{
    match step_once(w, dry, e, r) {
        Progress::Move(e2, r2) => lemma_advance_progress(w, dry, e2, r2),
        Progress::Emit(_, _) => {},
    }
}

proof fn lemma_advance_on_track(w: Seq<char>, dry: bool, e0: EngineModel, r0: RunModel, e: EngineModel, r: RunModel)
    requires
        !r0.committed,
        on_track(e0, r0, e, r),
    ensures
        match advance_model(w, dry, e, r) {
            (e2, StepModel::Fire { run, .. }) => on_track(e0, r0, e2, run),
            (e2, StepModel::Journal { run, .. }) => on_track(e0, r0, e2, run),
            (e2, StepModel::Done(Ok(res))) => res == crate::run::ResultModel {
                object_id: r0.object_id,
                from_state: r0.from_state,
                to_state: r0.to,
                transition_id: r0.transition_id,
                hooks_fired: r0.hooks_fired + ids_left(r0),
                forced_transition: None,
                alert_message: r0.alert,
            } && e2.frozen == e0.frozen && e2.objects == e0.objects.insert(r0.object_id, r0.to),
            (_, StepModel::Done(Err(_))) => false,
        },
    decreases remaining(r),
{
    match step_once(w, dry, e, r) {
        Progress::Move(e2, r2) => {
            if crate::run::awaits_hook(r) {
                lemma_past_hook_ids(r);
            } else {
                if r.next <= r.before.len() {
                    assert(r.next == r.before.len());
                    assert(r.before.skip(r.next as int) =~= Seq::<crate::config::HookDef>::empty());
                    assert(hook_ids(r.before.skip(r.next as int)) =~= Seq::<Seq<char>>::empty());
                }
                assert(r.after.skip(0) =~= r.after);
                assert(r2.hooks_fired + ids_left(r2) =~= r.hooks_fired + ids_left(r));
            }
            lemma_advance_on_track(w, dry, e0, r0, e2, r2);
        },
        Progress::Emit(e2, s) => {
            if !crate::run::awaits_hook(r) && !r.committed {
                let r2 = RunModel { committed: true, next: 0, ..r };
                if r.next <= r.before.len() {
                    assert(r.next == r.before.len());
                    assert(r.before.skip(r.next as int) =~= Seq::<crate::config::HookDef>::empty());
                    assert(hook_ids(r.before.skip(r.next as int)) =~= Seq::<Seq<char>>::empty());
                }
                assert(r.after.skip(0) =~= r.after);
                assert(r2.hooks_fired + ids_left(r2) =~= r.hooks_fired + ids_left(r));
            } else if !crate::run::awaits_hook(r) {
                assert(ids_left(r) =~= Seq::<Seq<char>>::empty()) by {
                    if r.next <= r.after.len() {
                        assert(r.after.skip(r.next as int) =~= Seq::<crate::config::HookDef>::empty());
                    }
                };
                assert(r.hooks_fired + ids_left(r) =~= r.hooks_fired);
            }
        },
    }
}

/// Where a run ends when every hook it fires answers `Continue`: the final
/// states and frozen marks, and the outcome.
pub open spec fn run_through(w: Seq<char>, dry: bool, e: EngineModel, r: RunModel) -> (EngineModel, Result<crate::run::ResultModel, Seq<char>>)
    decreases remaining(r),
{
    proof {
        lemma_advance_progress(w, dry, e, r);
    }
    match advance_model(w, dry, e, r) {
        (e2, StepModel::Fire { run, .. }) => {
            proof {
                lemma_past_hook_ids(run);
            }
            run_through(w, dry, e2, crate::run::past_hook(run, run.alert))
        },
        (e2, StepModel::Journal { run, .. }) => run_through(w, dry, e2, run),
        (e2, StepModel::Done(d)) => (e2, d),
    }
}

proof fn lemma_run_through(w: Seq<char>, dry: bool, e0: EngineModel, r0: RunModel, e: EngineModel, r: RunModel)
    requires
        !r0.committed,
        on_track(e0, r0, e, r),
    ensures
        run_through(w, dry, e, r) == (
            EngineModel { objects: e0.objects.insert(r0.object_id, r0.to), frozen: e0.frozen },
            Ok::<crate::run::ResultModel, Seq<char>>(crate::run::ResultModel {
                object_id: r0.object_id,
                from_state: r0.from_state,
                to_state: r0.to,
                transition_id: r0.transition_id,
                hooks_fired: r0.hooks_fired + ids_left(r0),
                forced_transition: None,
                alert_message: r0.alert,
            }),
        ),
    decreases remaining(r),
{
    lemma_advance_progress(w, dry, e, r);
    lemma_advance_on_track(w, dry, e0, r0, e, r);
    match advance_model(w, dry, e, r) {
        (e2, StepModel::Fire { run, .. }) => {
            lemma_past_hook_ids(run);
            lemma_run_through(w, dry, e0, r0, e2, crate::run::past_hook(run, run.alert));
        },
        (e2, StepModel::Journal { run, .. }) => {
            lemma_run_through(w, dry, e0, r0, e2, run);
        },
        (e2, StepModel::Done(d)) => {
            assert(e2 =~= EngineModel { objects: e0.objects.insert(r0.object_id, r0.to), frozen: e0.frozen });
        },
    }
}

/// A transition whose hooks all answer `Continue` goes through: the object
/// ends in the transition's target state, no freeze mark changes, and the
/// outcome records every hook (those before the transition, then those after
/// it, each group in its order) with no redirect and no alert.
pub proof fn transition_goes_through(w: Seq<char>, dry: bool, e: EngineModel, r: RunModel)
    requires
        !r.committed,
        r.next == 0,
        r.hooks_fired == Seq::<Seq<char>>::empty(),
        r.alert is None,
    ensures
        run_through(w, dry, e, r) == (
            EngineModel { objects: e.objects.insert(r.object_id, r.to), frozen: e.frozen },
            Ok::<crate::run::ResultModel, Seq<char>>(crate::run::ResultModel {
                object_id: r.object_id,
                from_state: r.from_state,
                to_state: r.to,
                transition_id: r.transition_id,
                hooks_fired: hook_ids(r.before) + hook_ids(r.after),
                forced_transition: None,
                alert_message: None,
            }),
        ),
{
    assert(r.before.skip(0) =~= r.before);
    assert(r.hooks_fired + ids_left(r) =~= hook_ids(r.before) + hook_ids(r.after));
    lemma_run_through(w, dry, e, r, e, r);
}

} // verus!

verus! {

/// How far a step is from the end of its transition, for the engine's own
/// moves: a journal entry still has its `advance` to come.
pub open spec fn step_measure(s: StepModel) -> nat {
    match s {
        StepModel::Fire { run, .. } => remaining(run),
        StepModel::Journal { run, .. } => remaining(run) + 1,
        StepModel::Done(_) => 0,
    }
}

/// Where a transition ends from the step `s`, the hooks it fires answering
/// `answers` in turn: the final states and frozen marks, and the outcome
/// (`None` when the answers run out before the transition ends).
pub open spec fn settle(
    w: Seq<char>,
    dry: bool,
    e: EngineModel,
    s: StepModel,
    answers: Seq<Result<HookSignal, String>>,
) -> (EngineModel, Option<Result<crate::run::ResultModel, Seq<char>>>)
    decreases answers.len(), step_measure(s),
{
    match s {
        StepModel::Done(d) => (e, Some(d)),
        StepModel::Journal { run, .. } => {
            proof {
                lemma_advance_progress(w, dry, e, run);
            }
            match advance_model(w, dry, e, run) {
                (e2, s2) => settle(w, dry, e2, s2, answers),
            }
        },
        StepModel::Fire { run, .. } => {
            if answers.len() == 0 {
                (e, None)
            } else {
                match deliver_model(w, dry, e, run, answers[0]) {
                    (e2, s2) => settle(w, dry, e2, s2, answers.drop_first()),
                }
            }
        },
    }
}

/// A whole transition from the run `r` on the engine state `e`: `advance`,
/// then each hook fired answered in turn from `answers`.
pub open spec fn drive(
    w: Seq<char>,
    dry: bool,
    e: EngineModel,
    r: RunModel,
    answers: Seq<Result<HookSignal, String>>,
) -> (EngineModel, Option<Result<crate::run::ResultModel, Seq<char>>>) {
    match advance_model(w, dry, e, r) {
        (e1, s1) => settle(w, dry, e1, s1, answers),
    }
}

/// `r` is still the transition `r0` started on the engine state `e0`: the
/// same object, transition and states, no frozen mark changed, and the
/// object in its target state exactly when the run is past its commit.
pub open spec fn same_run(e0: EngineModel, r0: RunModel, e: EngineModel, r: RunModel) -> bool {
    &&& r.object_id == r0.object_id
    &&& r.transition_id == r0.transition_id
    &&& r.from_state == r0.from_state
    &&& r.to == r0.to
    &&& e.frozen == e0.frozen
    &&& e.objects == if r.committed { e0.objects.insert(r0.object_id, r0.to) } else { e0.objects }
}

/// What a transition started from the uncommitted run `r0` on the engine
/// state `e0` may end in, with the engine state `e`:
///  - a redirect: the object stays in its state, the outcome names it in
///    its from-state, and at most the object gets frozen;
///  - a completed transition: the object is in the target state, and no
///    frozen mark changed;
///  - an error, or no end yet: no frozen mark changed, and the object is in
///    its state or in the target state.
pub open spec fn outcome_fits(
    e0: EngineModel,
    r0: RunModel,
    e: EngineModel,
    out: Option<Result<crate::run::ResultModel, Seq<char>>>,
) -> bool {
    match out {
        Some(Ok(res)) => {
            &&& res.object_id == r0.object_id
            &&& res.transition_id == r0.transition_id
            &&& res.from_state == r0.from_state
            &&& if res.forced_transition is Some {
                &&& res.to_state == r0.from_state
                &&& e.objects == e0.objects
                &&& (e.frozen == e0.frozen || e.frozen == e0.frozen.insert(r0.object_id, true))
            } else {
                &&& res.to_state == r0.to
                &&& e.objects == e0.objects.insert(r0.object_id, r0.to)
                &&& e.frozen == e0.frozen
            }
        },
        _ => {
            &&& (e.objects == e0.objects || e.objects == e0.objects.insert(r0.object_id, r0.to))
            &&& e.frozen == e0.frozen
        },
    }
}

/// Where the step `s` stands in the transition `r0` started on `e0`.
pub open spec fn step_fits(e0: EngineModel, r0: RunModel, e: EngineModel, s: StepModel) -> bool {
    match s {
        StepModel::Fire { run, .. } => same_run(e0, r0, e, run),
        StepModel::Journal { run, .. } => same_run(e0, r0, e, run),
        StepModel::Done(d) => outcome_fits(e0, r0, e, Some(d)),
    }
}

proof fn lemma_advance_fits(w: Seq<char>, dry: bool, e0: EngineModel, r0: RunModel, e: EngineModel, r: RunModel)
    requires
        !r0.committed,
        same_run(e0, r0, e, r),
    ensures
        step_fits(e0, r0, advance_model(w, dry, e, r).0, advance_model(w, dry, e, r).1),
    decreases remaining(r),
{
    match step_once(w, dry, e, r) {
        Progress::Move(e2, r2) => lemma_advance_fits(w, dry, e0, r0, e2, r2),
        Progress::Emit(_, _) => {},
    }
}

proof fn lemma_deliver_fits(
    w: Seq<char>,
    dry: bool,
    e0: EngineModel,
    r0: RunModel,
    e: EngineModel,
    r: RunModel,
    outcome: Result<HookSignal, String>,
)
    requires
        !r0.committed,
        same_run(e0, r0, e, r),
    ensures
        step_fits(e0, r0, deliver_model(w, dry, e, r, outcome).0, deliver_model(w, dry, e, r, outcome).1),
{
    let h = crate::run::current_hook(r);
    match outcome {
        Err(_) => {},
        Ok(HookSignal::Continue) => lemma_advance_fits(w, dry, e0, r0, e, crate::run::past_hook(r, r.alert)),
        Ok(sig) => {
            let reason = match sig {
                HookSignal::Freeze { reason } => reason@,
                HookSignal::Abort { reason } => reason@,
                HookSignal::Continue => Seq::empty(),
            };
            let alert = crate::run::alert_after(r.alert, crate::run::signal_entry(h, sig is Freeze), reason);
            lemma_advance_fits(w, dry, e0, r0, e, crate::run::past_hook(r, alert));
        },
    }
}

proof fn lemma_settle_fits(
    w: Seq<char>,
    dry: bool,
    e0: EngineModel,
    r0: RunModel,
    e: EngineModel,
    s: StepModel,
    answers: Seq<Result<HookSignal, String>>,
)
    requires
        !r0.committed,
        step_fits(e0, r0, e, s),
    ensures
        outcome_fits(e0, r0, settle(w, dry, e, s, answers).0, settle(w, dry, e, s, answers).1),
    decreases answers.len(), step_measure(s),
{
    match s {
        StepModel::Done(d) => {},
        StepModel::Journal { run, .. } => {
            lemma_advance_progress(w, dry, e, run);
            lemma_advance_fits(w, dry, e0, r0, e, run);
            let (e2, s2) = advance_model(w, dry, e, run);
            lemma_settle_fits(w, dry, e0, r0, e2, s2, answers);
        },
        StepModel::Fire { run, .. } => {
            if answers.len() > 0 {
                lemma_deliver_fits(w, dry, e0, r0, e, run, answers[0]);
                let (e2, s2) = deliver_model(w, dry, e, run, answers[0]);
                lemma_settle_fits(w, dry, e0, r0, e2, s2, answers.drop_first());
            }
        },
    }
}

/// Whatever its hooks answer, a transition started from an uncommitted run
/// ends in one of three ways. Redirected, it leaves its object in the state
/// it was in, the outcome giving that state as both from- and to-state, and
/// at most freezes the object. Completed, it leaves the object in the target
/// state and changes no frozen mark. Failed (or not over when the answers run
/// out), it changes no frozen mark and leaves the object in its state or, if
/// the failure came after the commit, in the target state. The outcome always
/// names the run's object, transition and from-state.
pub proof fn transition_outcome(
    w: Seq<char>,
    dry: bool,
    e: EngineModel,
    r: RunModel,
    answers: Seq<Result<HookSignal, String>>,
)
    requires
        !r.committed,
    ensures
        outcome_fits(e, r, drive(w, dry, e, r, answers).0, drive(w, dry, e, r, answers).1),
{
    lemma_advance_fits(w, dry, e, r, e, r);
    let (e1, s1) = advance_model(w, dry, e, r);
    lemma_settle_fits(w, dry, e, r, e1, s1, answers);
}

} // verus!

verus! {

/// The history a detector keeps for one object after the moves `ps`, taken
/// in order from an empty history with the threshold `t` on every call.
pub open spec fn history_after(ps: Seq<Seq<char>>, t: nat) -> Seq<Seq<char>>
    decreases ps.len(),
{
    if ps.len() == 0 {
        Seq::empty()
    } else {
        kept_history(history_after(ps.drop_last(), t), ps.last(), t)
    }
}

/// The last `n` elements of `ps` (all of them when there are fewer).
pub open spec fn last_moves(ps: Seq<Seq<char>>, n: nat) -> Seq<Seq<char>> {
    if ps.len() > n {
        ps.skip(ps.len() - n)
    } else {
        ps
    }
}

proof fn lemma_last_moves_push(ps: Seq<Seq<char>>, p: Seq<char>, t: nat)
    ensures
        kept_history(last_moves(ps, 3 * t), p, t) == last_moves(ps.push(p), 3 * t),
{
    let n = 3 * t;
    let h1 = last_moves(ps, n).push(p);
    if ps.len() > n {
        assert(h1.skip(h1.len() - n) =~= ps.push(p).skip(ps.push(p).len() - n));
    } else {
        assert(h1 =~= ps.push(p));
    }
}

proof fn lemma_history_after(ps: Seq<Seq<char>>, t: nat)
    ensures
        history_after(ps, t) == last_moves(ps, 3 * t),
    decreases ps.len(),
{
    if ps.len() == 0 {
    } else {
        let q = ps.drop_last();
        lemma_history_after(q, t);
        lemma_last_moves_push(q, ps.last(), t);
        assert(q.push(ps.last()) =~= ps);
    }
}

/// Over all the calls for one object, with the same threshold `t` each time:
/// the detector keeps exactly the last `3 * t` moves of the object (all of
/// them while there are fewer), and a call finds a loop exactly when the
/// object has taken at least `t` moves and its last `t` moves, this one
/// included, are all this move. Calls for other objects play no part (see
/// `LoopbackDetector::handle`).
pub proof fn loop_verdict_over_all_calls(ps: Seq<Seq<char>>, t: nat)
    requires
        ps.len() >= 1,
    ensures
        history_after(ps, t) == last_moves(ps, 3 * t),
        repeated(history_after(ps, t), ps.last(), t) <==> (ps.len() >= t
            && forall|i: int| ps.len() - t <= i < ps.len() ==> #[trigger] ps[i] == ps.last()),
{
    lemma_history_after(ps, t);
    let k = last_moves(ps, 3 * t);
    let p = ps.last();
    if ps.len() > 3 * t {
        let d = ps.len() - 3 * t;
        assert(k.len() == 3 * t);
        if repeated(k, p, t) {
            assert forall|i: int| ps.len() - t <= i < ps.len() implies #[trigger] ps[i] == p by {
                assert(k[i - d] == ps[i]);
            }
        }
        if ps.len() >= t && forall|i: int| ps.len() - t <= i < ps.len() ==> #[trigger] ps[i] == p {
            assert forall|i: int| k.len() - t <= i < k.len() implies k[i] == p by {
                assert(k[i] == ps[i + d]);
            }
        }
    }
}

} // verus!

verus! {

/// The window of an object after moves at the clock readings `nows`, in
/// order, from the window `w0` (none for an object not seen yet), with the
/// limit `limit` on every move.
pub open spec fn windows_after(w0: Option<(u32, u128)>, nows: Seq<u128>, key: Seq<char>, limit: u32) -> Option<(u32, u128)>
    decreases nows.len(),
{
    if nows.len() == 0 {
        w0
    } else {
        Some(window_after(windows_after(w0, nows.drop_last(), key, limit), nows.last(), key, limit).0)
    }
}

/// Whether the `k`-th of those moves is let through.
pub open spec fn passes_at(w0: Option<(u32, u128)>, nows: Seq<u128>, key: Seq<char>, limit: u32, k: int) -> bool {
    window_after(windows_after(w0, nows.take(k), key, limit), nows[k], key, limit).1 is None
}

/// How many of those moves are let through.
pub open spec fn passed(w0: Option<(u32, u128)>, nows: Seq<u128>, key: Seq<char>, limit: u32) -> nat
    decreases nows.len(),
{
    if nows.len() == 0 {
        0
    } else {
        passed(w0, nows.drop_last(), key, limit) + if window_after(
            windows_after(w0, nows.drop_last(), key, limit),
            nows.last(),
            key,
            limit,
        ).1 is None {
            1nat
        } else {
            0nat
        }
    }
}

/// The count a window reaches from `c0` after `n` moves within it.
pub open spec fn count_within(c0: u32, n: nat, limit: u32) -> int {
    if c0 >= limit {
        c0 as int
    } else if c0 + n <= limit {
        c0 + n
    } else {
        limit as int
    }
}

/// How many of `n` moves within a window from the count `c0` are let through.
pub open spec fn passed_within(c0: u32, n: nat, limit: u32) -> int {
    if c0 >= limit {
        0
    } else if c0 + n <= limit {
        n as int
    } else {
        limit - c0
    }
}

/// The start of the window the moves fall in: that of `w0`, or the first
/// reading for an object not seen yet.
pub open spec fn start_of(w0: Option<(u32, u128)>, nows: Seq<u128>) -> u128 {
    match w0 {
        Some(w) => w.1,
        None => nows[0],
    }
}

/// The count the moves start from.
pub open spec fn count_of_window(w0: Option<(u32, u128)>) -> u32 {
    match w0 {
        Some(w) => w.0,
        None => 0,
    }
}

/// Every reading lies within a minute from the window's start.
pub open spec fn within_window(start: u128, nows: Seq<u128>) -> bool {
    forall|i: int| 0 <= i < nows.len() ==> start <= #[trigger] nows[i] && nows[i] - start <= window_nanos()
}

proof fn lemma_windows(w0: Option<(u32, u128)>, nows: Seq<u128>, key: Seq<char>, limit: u32, start: u128)
    requires
        nows.len() > 0 || w0 is Some ==> start == start_of(w0, nows),
        within_window(start, nows),
    ensures
        nows.len() > 0 || w0 is Some ==> windows_after(w0, nows, key, limit) == Some((
            count_within(count_of_window(w0), nows.len(), limit) as u32,
            start,
        )),
        passed(w0, nows, key, limit) == passed_within(count_of_window(w0), nows.len(), limit),
    decreases nows.len(),
{
    if nows.len() > 0 {
        let q = nows.drop_last();
        assert forall|i: int| 0 <= i < q.len() implies start <= #[trigger] q[i] && q[i] - start <= window_nanos() by {
            assert(q[i] == nows[i]);
        }
        if q.len() > 0 {
            assert(q[0] == nows[0]);
        }
        assert(nows.last() == nows[nows.len() - 1]);
        lemma_windows(w0, q, key, limit, start);
    }
}

/// The moves of one object within one window (every reading at most a
/// minute after the window's start, the first reading starting the window
/// of an object not seen yet): the window keeps its start; from the count
/// `c0`, the `k`-th move is let through exactly when `c0 + k` is under the
/// limit, so that `min(n, limit - c0)` of `n` moves pass (none when `c0` is
/// at the limit already) and the count ends at `min(c0 + n, limit)` (or
/// stays at `c0`). A move more than a minute after the start opens a new
/// window at its own reading, with a count of one, and is let through.
pub proof fn rate_window_over_calls(w0: Option<(u32, u128)>, nows: Seq<u128>, key: Seq<char>, limit: u32)
    requires
        nows.len() > 0 || w0 is Some,
        within_window(start_of(w0, nows), nows),
    ensures
        windows_after(w0, nows, key, limit) == Some((
            count_within(count_of_window(w0), nows.len(), limit) as u32,
            start_of(w0, nows),
        )),
        passed(w0, nows, key, limit) == passed_within(count_of_window(w0), nows.len(), limit),
        forall|k: int| 0 <= k < nows.len() ==> (#[trigger] passes_at(w0, nows, key, limit, k)
            <==> count_of_window(w0) + k < limit),
        forall|now: u128, c: u32, s: u128| now >= s && now - s > window_nanos() ==>
            #[trigger] window_after(Some((c, s)), now, key, limit) == ((1u32, now), None::<Seq<char>>),
{
    let start = start_of(w0, nows);
    lemma_windows(w0, nows, key, limit, start);
    assert forall|k: int| 0 <= k < nows.len() implies (#[trigger] passes_at(w0, nows, key, limit, k)
        <==> count_of_window(w0) + k < limit) by {
        let q = nows.take(k);
        assert forall|i: int| 0 <= i < q.len() implies start <= #[trigger] q[i] && q[i] - start <= window_nanos() by {
            assert(q[i] == nows[i]);
        }
        if q.len() > 0 {
            assert(q[0] == nows[0]);
        }
        assert(start <= nows[k] && nows[k] - start <= window_nanos());
        lemma_windows(w0, q, key, limit, start);
    }
}

} // verus!

verus! {

/// Outside a dry run no hook is passed over: a run that is at a hook hands
/// that very hook out to be fired, with the run as it is and its context,
/// whatever the hook's action, and changes nothing of the engine.
pub proof fn live_run_fires_every_hook(w: Seq<char>, e: EngineModel, r: RunModel)
    requires
        crate::run::awaits_hook(r),
    ensures
        advance_model(w, false, e, r) == (e, StepModel::Fire {
            run: r,
            hook: crate::run::current_hook(r),
            context: crate::run::hook_context(w, r, crate::run::current_hook(r)),
        }),
{
}

/// Outside a dry run, once a hook has answered `Continue`, the next hook of
/// the same group is handed out next: the hooks fire one after the other, in
/// their order.
pub proof fn live_run_fires_the_next_hook(w: Seq<char>, e: EngineModel, r: RunModel)
    requires
        crate::run::awaits_hook(r),
        crate::run::awaits_hook(crate::run::past_hook(r, r.alert)),
    ensures
        deliver_model(w, false, e, r, Ok(HookSignal::Continue)).1 matches StepModel::Fire { hook, run, .. }
            && hook == (if r.committed { r.after[r.next + 1int] } else { r.before[r.next + 1int] })
            && run.next == r.next + 1
            && run.hooks_fired == r.hooks_fired.push(crate::run::current_hook(r).hook_id@),
{
}

/// The transition started automatically from `state` is the first one, in
/// definition order, that leaves `state` with the trigger `automatic`; one
/// with any other trigger is never started automatically.
pub proof fn auto_transition_is_first_automatic(ts: Seq<crate::config::TransitionDef>, state: Seq<char>)
    ensures
        match crate::seqs::first_match_from(ts, crate::engine::automatic_from(state), 0) {
            Some(k) => 0 <= k < ts.len() && ts[k].from@ == state && ts[k].trigger@ == "automatic"@
                && forall|j: int| 0 <= j < k ==> !(#[trigger] ts[j].from@ == state && ts[j].trigger@ == "automatic"@),
            None => forall|j: int| 0 <= j < ts.len() ==> !(#[trigger] ts[j].from@ == state && ts[j].trigger@ == "automatic"@),
        },
{
    crate::seqs::lemma_first_match_from(ts, crate::engine::automatic_from(state), 0);
}

/// The loop threshold of a move is the payload's `threshold` when the payload
/// holds a non-negative integer there, whatever the detector's own, and the
/// detector's own otherwise.
pub proof fn payload_threshold_wins(default: usize, payload: Seq<char>)
    ensures
        crate::json::json_u64_field(payload, "threshold"@) matches Some(v)
            ==> crate::actions::loopback::loop_threshold(default, payload) == (v as usize) as nat,
        crate::json::json_u64_field(payload, "threshold"@) is None
            ==> crate::actions::loopback::loop_threshold(default, payload) == default as nat,
{
}

/// Before the commit, a `Freeze` from a hook with no `Freeze` entry in its
/// signal table never ends the transition: the run moves past the hook as
/// after a `Continue`, its alert unchanged.
pub proof fn unmapped_freeze_moves_on(w: Seq<char>, dry: bool, e: EngineModel, r: RunModel, reason: String)
    requires
        crate::run::awaits_hook(r),
        !r.committed,
        crate::run::current_hook(r).on_freeze is None,
    ensures
        deliver_model(w, dry, e, r, Ok(HookSignal::Freeze { reason })) == deliver_model(w, dry, e, r, Ok(HookSignal::Continue)),
{
}

/// Only an `Abort` can end a transition with an error of the hook: one
/// from a hook under the `abort` policy, before the commit, whose `Abort`
/// entry names no transition; the error names the hook and the reason.
pub proof fn only_abort_fails(w: Seq<char>, dry: bool, e: EngineModel, r: RunModel, sig: HookSignal)
    requires
        crate::run::awaits_hook(r),
    ensures
        deliver_model(w, dry, e, r, Ok(sig)).1 matches StepModel::Done(Err(msg)) ==> {
            let h = crate::run::current_hook(r);
            &&& sig matches HookSignal::Abort { reason } && msg == crate::run::abort_message(h.hook_id@, reason@)
            &&& !r.committed
            &&& h.on_error@ == "abort"@
            &&& !(h.on_abort matches Some(m) && m.transition is Some)
        },
{
    let h = crate::run::current_hook(r);
    match sig {
        HookSignal::Continue => {
            lemma_advance_never_fails(w, dry, e, crate::run::past_hook(r, r.alert));
        },
        HookSignal::Freeze { reason } => {
            let alert = crate::run::alert_after(r.alert, crate::run::signal_entry(h, true), reason@);
            lemma_advance_never_fails(w, dry, e, crate::run::past_hook(r, alert));
        },
        HookSignal::Abort { reason } => {
            let alert = crate::run::alert_after(r.alert, crate::run::signal_entry(h, false), reason@);
            lemma_advance_never_fails(w, dry, e, crate::run::past_hook(r, alert));
        },
    }
}

proof fn lemma_advance_never_fails(w: Seq<char>, dry: bool, e: EngineModel, r: RunModel)
    ensures
        !(advance_model(w, dry, e, r).1 is Done && advance_model(w, dry, e, r).1->Done_0 is Err),
    decreases remaining(r),
{
    match step_once(w, dry, e, r) {
        Progress::Move(e2, r2) => lemma_advance_never_fails(w, dry, e2, r2),
        Progress::Emit(_, _) => {},
    }
}

} // verus!
