//! The workflow engine: the state of each tracked object, the objects that are
//! frozen, and the decisions of a transition (see `run`).

use vstd::prelude::*;
use vstd::hash_map::StringHashMap;
use crate::config::{
    WorkflowConfig, TransitionDef, HookDef, SignalMapping, has_state, hooks_in_order,
    transition_named, transition_from,
};
use crate::registry::{ActionContext, HookSignal};
use crate::run::{
    TransitionRun, TransitionResult, JournalEntry, Step, EngineModel, RunModel, texts_of,
    opt_text, frozen_in, current_hook, awaits_hook, past_hook, advance_model, deliver_model,
    step_once, Progress, signal_entry, alert_after,
};
use crate::seqs::{first_match_from, lemma_first_match_from, lemma_filter_take_step};
use crate::text::same_text;

verus! {

/// The texts held by a map from texts to strings.
pub open spec fn text_values(m: Map<Seq<char>, String>) -> Map<Seq<char>, Seq<char>> {
    Map::new(|k: Seq<char>| m.contains_key(k), |k: Seq<char>| m[k]@)
}

proof fn lemma_text_values_dom(m: Map<Seq<char>, String>)
    ensures
        text_values(m).dom() == m.dom(),
{
    assert(text_values(m).dom() =~= m.dom());
}

pub open spec fn frozen_message(o: Seq<char>) -> Seq<char> {
    "Objet '"@ + o + "' est gel\u{e9} (frozen). /unfreeze requis."@
}

pub open spec fn unknown_object_message(o: Seq<char>) -> Seq<char> {
    "Objet '"@ + o + "' inconnu"@
}

pub open spec fn unknown_transition_message(t: Seq<char>) -> Seq<char> {
    "Transition '"@ + t + "' inconnue"@
}

pub open spec fn wrong_state_message(t: Seq<char>, expected: Seq<char>, o: Seq<char>, current: Seq<char>) -> Seq<char> {
    "Transition '"@ + t + "' attend l'\u{e9}tat '"@ + expected + "', mais '"@ + o + "' est en '"@ + current + "'"@
}

pub open spec fn unknown_initial_message(s: Seq<char>) -> Seq<char> {
    "\u{c9}tat initial '"@ + s + "' inconnu"@
}

/// The state of the object `o`, unless it is frozen or unknown.
pub open spec fn current_state_of(e: EngineModel, o: Seq<char>) -> Result<Seq<char>, Seq<char>> {
    if frozen_in(e, o) {
        Err(frozen_message(o))
    } else if e.objects.contains_key(o) {
        Ok(e.objects[o])
    } else {
        Err(unknown_object_message(o))
    }
}

/// A run of the transition `t` on the object `o`, in state `current`, with
/// the runtime payload `runtime`, that has done nothing yet: its hooks are
/// those of `t`, in the order of `find_hooks`.
pub open spec fn fresh_run(
    r: RunModel,
    hooks: Seq<HookDef>,
    o: Seq<char>,
    t: TransitionDef,
    current: Seq<char>,
    runtime: Option<Seq<char>>,
) -> bool {
    &&& r.object_id == o
    &&& r.transition_id == t.id@
    &&& r.from_state == current
    &&& r.to == t.to@
    &&& hooks_in_order(r.before, hooks, t.id@, "before"@)
    &&& hooks_in_order(r.after, hooks, t.id@, "after"@)
    &&& !r.committed
    &&& r.next == 0
    &&& r.hooks_fired == Seq::<Seq<char>>::empty()
    &&& r.alert is None
    &&& r.runtime == runtime
}

/// What starting the transition `tid` on the object `o` with the runtime
/// payload `runtime` gives, from the engine state `e` of the workflow `cfg`:
/// the errors of an object frozen or unknown, of an unknown transition (the
/// first of its id counts), or of an object in another state than the one the
/// transition leaves; else a fresh run.
pub open spec fn starts(
    cfg: WorkflowConfig,
    e: EngineModel,
    o: Seq<char>,
    tid: Seq<char>,
    runtime: Option<Seq<char>>,
    r: Result<TransitionRun, String>,
) -> bool {
    match current_state_of(e, o) {
        Err(m) => r matches Err(x) && x@ == m,
        Ok(cur) => match first_match_from(cfg.transitions@, transition_named(tid), 0) {
            None => r matches Err(x) && x@ == unknown_transition_message(tid),
            Some(k) => {
                let t = cfg.transitions@[k];
                if t.from@ != cur {
                    r matches Err(x) && x@ == wrong_state_message(tid, t.from@, o, cur)
                } else {
                    r matches Ok(run) && fresh_run(run@, cfg.hooks@, o, t, cur, runtime)
                }
            },
        },
    }
}

/// Whether a transition leaves `state` on its own.
pub open spec fn automatic_from(state: Seq<char>) -> spec_fn(TransitionDef) -> bool {
    |t: TransitionDef| t.from@ == state && t.trigger@ == "automatic"@
}

/// Tracks the objects of one workflow and decides their transitions.
pub struct WorkflowEngine {
    config: WorkflowConfig,
    objects: StringHashMap<String>,
    frozen: StringHashMap<bool>,
    dry_run: bool,
}

impl WorkflowEngine {
    /// The maps of states and of frozen marks hold finitely many objects.
    #[verifier::type_invariant]
    spec fn finitely_many(self) -> bool {
        self.objects@.dom().finite() && self.frozen@.dom().finite()
    }

    /// Puts `object_id` into `state`.
    fn put_state(&mut self, object_id: String, state: String)
        ensures
            final(self).config == old(self).config,
            final(self).dry_run == old(self).dry_run,
            final(self).frozen@ == old(self).frozen@,
            final(self).objects@ == old(self).objects@.insert(object_id@, state),
    {
        proof {
            use_type_invariant(&*self);
        }
        let mut m: StringHashMap<String> = StringHashMap::new();
        std::mem::swap(&mut m, &mut self.objects);
        m.insert(object_id, state);
        self.objects = m;
    }

    /// Sets the frozen mark of `object_id`.
    fn put_frozen(&mut self, object_id: String, mark: bool)
        ensures
            final(self).config == old(self).config,
            final(self).dry_run == old(self).dry_run,
            final(self).objects@ == old(self).objects@,
            final(self).frozen@ == old(self).frozen@.insert(object_id@, mark),
    {
        proof {
            use_type_invariant(&*self);
        }
        let mut m: StringHashMap<bool> = StringHashMap::new();
        std::mem::swap(&mut m, &mut self.frozen);
        m.insert(object_id, mark);
        self.frozen = m;
    }

    /// The workflow definition the engine runs.
    pub closed spec fn cfg(&self) -> WorkflowConfig {
        self.config
    }

    /// Whether the engine runs dry: no journal, and no external action.
    pub closed spec fn is_dry_run(&self) -> bool {
        self.dry_run
    }

    /// The states of the objects and the frozen marks.
    pub closed spec fn model(&self) -> EngineModel {
        EngineModel { objects: text_values(self.objects@), frozen: self.frozen@ }
    }

    /// An engine for `config` that tracks no object yet; it runs dry when the
    /// application settings say so.
    pub fn new(config: WorkflowConfig) -> (r: Self)
        ensures
            r.cfg() == config,
            r.is_dry_run() == config.app_config.dry_run,
            r.model().objects == Map::<Seq<char>, Seq<char>>::empty(),
            r.model().frozen == Map::<Seq<char>, bool>::empty(),
            r.model().objects.dom().finite(),
    {
        let dry_run = config.app_config.dry_run;
        let r = WorkflowEngine { config, objects: StringHashMap::new(), frozen: StringHashMap::new(), dry_run };
        assert(r.model().objects =~= Map::<Seq<char>, Seq<char>>::empty());
        r
    }

    /// Starts tracking `object_id` in the state `initial_state`, which must be
    /// a state of the workflow.
    pub fn register_object(&mut self, object_id: &str, initial_state: &str) -> (r: Result<(), String>)
        ensures
            final(self).cfg() == old(self).cfg(),
            final(self).is_dry_run() == old(self).is_dry_run(),
            final(self).model().frozen == old(self).model().frozen,
            old(self).model().objects.dom().finite(),
            final(self).model().objects.dom().finite(),
            has_state(old(self).cfg().states@, initial_state@) ==> r is Ok
                && final(self).model().objects == old(self).model().objects.insert(object_id@, initial_state@),
            !has_state(old(self).cfg().states@, initial_state@) ==> final(self).model() == old(self).model()
                && (r matches Err(m) && m@ == unknown_initial_message(initial_state@)),
    {
        proof {
            use_type_invariant(&*self);
            lemma_text_values_dom(self.objects@);
        }
        if self.config.find_state(initial_state).is_none() {
            let mut m = String::from_str("\u{c9}tat initial '");
            m.append(initial_state);
            m.append("' inconnu");
            return Err(m);
        }
        let ghost before = self.objects@;
        self.put_state(object_id.to_owned(), initial_state.to_owned());
        assert(text_values(self.objects@) =~= text_values(before).insert(object_id@, initial_state@));
        proof {
            use_type_invariant(&*self);
            lemma_text_values_dom(self.objects@);
        }
        Ok(())
    }

    /// The state of `object_id`, if the engine tracks it.
    pub fn state_of(&self, object_id: &str) -> (r: Option<&str>)
        ensures
            match r {
                Some(s) => self.model().objects.contains_key(object_id@) && s@ == self.model().objects[object_id@],
                None => !self.model().objects.contains_key(object_id@),
            },
    {
        match self.objects.get(object_id) {
            Some(s) => Some(s.as_str()),
            None => None,
        }
    }

    /// Whether `object_id` is frozen.
    pub fn is_frozen(&self, object_id: &str) -> (r: bool)
        ensures
            r == frozen_in(self.model(), object_id@),
    {
        match self.frozen.get(object_id) {
            Some(b) => *b,
            None => false,
        }
    }

    /// Lifts the freeze of `object_id`.
    pub fn unfreeze(&mut self, object_id: &str)
        ensures
            final(self).cfg() == old(self).cfg(),
            final(self).is_dry_run() == old(self).is_dry_run(),
            final(self).model().objects == old(self).model().objects,
            final(self).model().frozen == old(self).model().frozen.insert(object_id@, false),
    {
        self.put_frozen(object_id.to_owned(), false);
    }

    /// The workflow definition.
    pub fn config(&self) -> (r: &WorkflowConfig)
        ensures
            *r == self.cfg(),
    {
        &self.config
    }

    /// The number of tracked objects.
    pub fn state_count(&self) -> (r: usize)
        ensures
            r == self.model().objects.len(),
            self.model().objects.dom().finite(),
    {
        proof {
            use_type_invariant(&*self);
            lemma_text_values_dom(self.objects@);
        }
        assert(text_values(self.objects@).dom() =~= self.objects@.dom());
        self.objects.len()
    }

    /// Whether the engine runs dry.
    pub fn dry_run(&self) -> (r: bool)
        ensures
            r == self.is_dry_run(),
    {
        self.dry_run
    }

    fn current_state(&self, object_id: &str) -> (r: Result<String, String>)
        ensures
            match current_state_of(self.model(), object_id@) {
                Ok(s) => r matches Ok(x) && x@ == s,
                Err(m) => r matches Err(x) && x@ == m,
            },
    {
        if self.is_frozen(object_id) {
            let mut m = String::from_str("Objet '");
            m.append(object_id);
            m.append("' est gel\u{e9} (frozen). /unfreeze requis.");
            return Err(m);
        }
        match self.objects.get(object_id) {
            Some(s) => Ok(s.clone()),
            None => {
                let mut m = String::from_str("Objet '");
                m.append(object_id);
                m.append("' inconnu");
                Err(m)
            },
        }
    }

    /// The ids of the transitions that leave the state of `object_id`.
    pub fn available_transitions(&self, object_id: &str) -> (r: Result<Vec<String>, String>)
        ensures
            match current_state_of(self.model(), object_id@) {
                Ok(s) => r matches Ok(ids) && texts_of(ids@) == self.cfg().transitions@.filter(transition_from(s)).map_values(|t: TransitionDef| t.id@),
                Err(m) => r matches Err(x) && x@ == m,
            },
    {
        let current = match self.current_state(object_id) {
            Ok(s) => s,
            Err(m) => return Err(m),
        };
        let ghost p = transition_from(current@);
        let ghost ts = self.config.transitions@;
        let mut ids: Vec<String> = Vec::new();
        let mut i: usize = 0;
        while i < self.config.transitions.len()
            invariant
                i <= ts.len(),
                ts == self.config.transitions@,
                p == transition_from(current@),
                texts_of(ids@) == ts.take(i as int).filter(p).map_values(|t: TransitionDef| t.id@),
            decreases ts.len() - i,
        {
            proof {
                lemma_filter_take_step(ts, p, i as int);
            }
            let t = &self.config.transitions[i];
            if same_text(t.from.as_str(), current.as_str()) {
                let ghost prev = ids@;
                ids.push(t.id.clone());
                assert(texts_of(ids@) =~= texts_of(prev).push(t.id@));
                assert(ts.take(i + 1).filter(p).map_values(|t: TransitionDef| t.id@)
                    =~= ts.take(i as int).filter(p).map_values(|t: TransitionDef| t.id@).push(t.id@));
            }
            i = i + 1;
        }
        assert(ts.take(ts.len() as int) =~= ts);
        Ok(ids)
    }

    fn start_run(&self, object_id: &str, t: &TransitionDef, current: String, runtime: Option<String>) -> (r: TransitionRun)
        ensures
            fresh_run(r@, self.cfg().hooks@, object_id@, *t, current@, opt_text(runtime)),
    {
        let before = self.config.find_hooks(t.id.as_str(), "before");
        let after = self.config.find_hooks(t.id.as_str(), "after");
        let r = TransitionRun {
            object_id: object_id.to_owned(),
            transition_id: t.id.clone(),
            from_state: current,
            to: t.to.clone(),
            before,
            after,
            committed: false,
            next: 0,
            hooks_fired: Vec::new(),
            alert: None,
            runtime_payload: runtime,
        };
        assert(r@.hooks_fired =~= Seq::<Seq<char>>::empty());
        r
    }

    /// Starts the transition `transition_id` on `object_id`: the object must
    /// be tracked, not frozen, and in the state the transition leaves. The
    /// run is then driven with `advance` and `deliver`; its hooks fire with
    /// their own payloads.
    pub fn apply_transition(&self, object_id: &str, transition_id: &str) -> (r: Result<TransitionRun, String>)
        ensures
            starts(self.cfg(), self.model(), object_id@, transition_id@, None, r),
    {
        self.start_transition(object_id, transition_id, None)
    }

    /// Starts the transition as `apply_transition` does, with the runtime
    /// payload `payload` merged into the payload of every hook it fires (see
    /// `merged_payload`).
    pub fn apply_transition_with_payload(&self, object_id: &str, transition_id: &str, payload: &str) -> (r: Result<TransitionRun, String>)
        ensures
            starts(self.cfg(), self.model(), object_id@, transition_id@, Some(payload@), r),
    {
        self.start_transition(object_id, transition_id, Some(payload.to_owned()))
    }

    fn start_transition(&self, object_id: &str, transition_id: &str, runtime: Option<String>) -> (r: Result<TransitionRun, String>)
        ensures
            starts(self.cfg(), self.model(), object_id@, transition_id@, opt_text(runtime), r),
    {
        let current = match self.current_state(object_id) {
            Ok(s) => s,
            Err(m) => return Err(m),
        };
        let t = match self.config.find_transition(transition_id) {
            Some(t) => t,
            None => {
                let mut m = String::from_str("Transition '");
                m.append(transition_id);
                m.append("' inconnue");
                return Err(m);
            },
        };
        proof {
            lemma_first_match_from(self.config.transitions@, transition_named(transition_id@), 0);
        }
        if !(t.from == current) {
            let mut m = String::from_str("Transition '");
            m.append(transition_id);
            m.append("' attend l'\u{e9}tat '");
            m.append(t.from.as_str());
            m.append("', mais '");
            m.append(object_id);
            m.append("' est en '");
            m.append(current.as_str());
            m.append("'");
            return Err(m);
        }
        Ok(self.start_run(object_id, t, current, runtime))
    }

    /// Starts the first automatic transition that leaves the state of
    /// `object_id`, if there is one.
    pub fn run_auto(&self, object_id: &str) -> (r: Result<Option<TransitionRun>, String>)
        ensures
            match current_state_of(self.model(), object_id@) {
                Err(m) => r matches Err(x) && x@ == m,
                Ok(cur) => match first_match_from(self.cfg().transitions@, automatic_from(cur), 0) {
                    None => r matches Ok(None),
                    Some(k) => r matches Ok(Some(run)) && fresh_run(run@, self.cfg().hooks@, object_id@, self.cfg().transitions@[k], cur, None),
                },
            },
    {
        let current = match self.current_state(object_id) {
            Ok(s) => s,
            Err(m) => return Err(m),
        };
        let ghost p = automatic_from(current@);
        let mut i: usize = 0;
        while i < self.config.transitions.len()
            invariant
                i <= self.config.transitions@.len(),
                p == automatic_from(current@),
                current_state_of(self.model(), object_id@) == Ok::<Seq<char>, Seq<char>>(current@),
                first_match_from(self.config.transitions@, p, 0) == first_match_from(self.config.transitions@, p, i as int),
            decreases self.config.transitions@.len() - i,
        {
            let t = &self.config.transitions[i];
            if same_text(t.from.as_str(), current.as_str()) && same_text(t.trigger.as_str(), "automatic") {
                assert(p(self.config.transitions@[i as int]));
                assert(first_match_from(self.config.transitions@, p, i as int) == Some(i as int));
                let ghost cur = current@;
                let run = self.start_run(object_id, t, current, None);
                return Ok(Some(run));
            }
            i = i + 1;
        }
        Ok(None)
    }
}


impl WorkflowEngine {
    fn context_for(&self, run: &TransitionRun, hook: &HookDef) -> (c: ActionContext)
        ensures
            c@ == crate::run::hook_context(self.cfg().name@, run@, *hook),
    {
        ActionContext {
            object_id: run.object_id.clone(),
            workflow_id: self.config.name.clone(),
            current_state: run.from_state.clone(),
            target_state: run.to.clone(),
            transition_id: run.transition_id.clone(),
            payload: match &run.runtime_payload {
                Some(p) => crate::payload::merge_payload(hook.payload.as_str(), p.as_str()),
                None => hook.payload.clone(),
            },
        }
    }

    /// Moves the run on until the program around the engine must do
    /// something: fire a hook, record the journal entry of the commit, or
    /// take the result. Hooks that a dry run skips count as answered
    /// `Continue`; when the hooks before the transition are through, the
    /// object takes its new state.
    #[verifier::loop_isolation(false)]
    pub fn advance(&mut self, run: TransitionRun) -> (s: Step)
        ensures
            final(self).cfg() == old(self).cfg(),
            final(self).is_dry_run() == old(self).is_dry_run(),
            (final(self).model(), s@) == advance_model(old(self).cfg().name@, old(self).is_dry_run(), old(self).model(), run@),
    {
        let ghost name = self.config.name@;
        let ghost dry = self.dry_run;
        let ghost cfg0 = self.config;
        let ghost target = advance_model(name, dry, self.model(), run@);
        let mut run = run;
        loop
            invariant
                self.config == cfg0,
                self.dry_run == dry,
                name == cfg0.name@,
                advance_model(name, dry, self.model(), run@) == target,
            decreases crate::run::remaining(run@),
        {
            let ghost r0 = run@;
            let ghost e0 = self.model();
            let hooks_len = if run.committed { run.after.len() } else { run.before.len() };
            if run.next < hooks_len {
                let hook = if run.committed { run.after[run.next].clone() } else { run.before[run.next].clone() };
                assert(hook == current_hook(r0));
                if self.dry_run && !(same_text(hook.action.as_str(), "detect_loopback") || same_text(hook.action.as_str(), "rate_limit")) {
                    run.hooks_fired.push(hook.hook_id.clone());
                    run.next = run.next + 1;
                    assert(run@ =~= past_hook(r0, r0.alert));
                    assert(step_once(name, dry, e0, r0) == Progress::Move(e0, run@));
                } else {
                    let context = self.context_for(&run, &hook);
                    return Step::Fire { run, hook, context };
                }
            } else if !run.committed {
                let entry = JournalEntry {
                    workflow_id: self.config.name.clone(),
                    object_id: run.object_id.clone(),
                    from_state: run.from_state.clone(),
                    to_state: run.to.clone(),
                    transition_id: run.transition_id.clone(),
                };
                let ghost before = self.objects@;
                self.put_state(run.object_id.clone(), run.to.clone());
                assert(text_values(self.objects@) =~= text_values(before).insert(r0.object_id, r0.to));
                run.committed = true;
                run.next = 0;
                if !self.dry_run {
                    return Step::Journal { run, entry };
                }
                assert(step_once(name, dry, e0, r0) == Progress::Move(self.model(), run@));
            } else {
                let result = TransitionResult {
                    object_id: run.object_id,
                    from_state: run.from_state,
                    to_state: run.to,
                    transition_id: run.transition_id,
                    hooks_fired: run.hooks_fired,
                    forced_transition: None,
                    alert_message: run.alert,
                };
                return Step::Done(Ok(result));
            }
        }
    }

    /// Takes the answer of the hook the run waits for (see `deliver_model`),
    /// then moves the run on as `advance` does.
    pub fn deliver(&mut self, run: TransitionRun, outcome: Result<HookSignal, String>) -> (s: Step)
        requires
            awaits_hook(run@),
        ensures
            final(self).cfg() == old(self).cfg(),
            final(self).is_dry_run() == old(self).is_dry_run(),
            (final(self).model(), s@) == deliver_model(old(self).cfg().name@, old(self).is_dry_run(), old(self).model(), run@, outcome),
    {
        let mut run = run;
        let n = if run.committed { run.after.len() } else { run.before.len() };
        assert(run.next < n);
        let hook = if run.committed { run.after[run.next].clone() } else { run.before[run.next].clone() };
        assert(hook == current_hook(run@));
        let ghost r0 = run@;
        match outcome {
            Err(msg) => Step::Done(Err(msg)),
            Ok(HookSignal::Continue) => {
                run.hooks_fired.push(hook.hook_id.clone());
                run.next = run.next + 1;
                assert(run@ =~= past_hook(r0, r0.alert));
                self.advance(run)
            },
            Ok(HookSignal::Freeze { reason }) => self.stop_signal(run, hook, true, reason),
            Ok(HookSignal::Abort { reason }) => self.stop_signal(run, hook, false, reason),
        }
    }

    fn stop_signal(&mut self, run: TransitionRun, hook: HookDef, freeze: bool, reason: String) -> (s: Step)
        requires
            awaits_hook(run@),
            hook == current_hook(run@),
        ensures
            final(self).cfg() == old(self).cfg(),
            final(self).is_dry_run() == old(self).is_dry_run(),
            (final(self).model(), s@) == deliver_model(
                old(self).cfg().name@,
                old(self).is_dry_run(),
                old(self).model(),
                run@,
                if freeze {
                    Ok::<HookSignal, String>(HookSignal::Freeze { reason })
                } else {
                    Ok::<HookSignal, String>(HookSignal::Abort { reason })
                },
            ),
    {
        let mut run = run;
        let ghost r0 = run@;
        let n = if run.committed { run.after.len() } else { run.before.len() };
        assert(run.next < n);
        let entry = if freeze { &hook.on_freeze } else { &hook.on_abort };
        let mapping: Option<SignalMapping> = match entry {
            Some(m) => Some(m.clone()),
            None => None,
        };
        assert(mapping == signal_entry(hook, freeze));
        let alert: Option<String> = match &mapping {
            Some(m) => if m.alert_anarea {
                match &m.message {
                    Some(msg) => Some(msg.clone()),
                    None => Some(reason.clone()),
                }
            } else {
                run.alert.clone()
            },
            None => run.alert.clone(),
        };
        assert(opt_text(alert) == alert_after(r0.alert, signal_entry(hook, freeze), reason@));
        if !run.committed {
            match &mapping {
                Some(m) => match &m.transition {
                    Some(alt) => {
                        if freeze {
                            self.put_frozen(run.object_id.clone(), true);
                        }
                        run.hooks_fired.push(hook.hook_id.clone());
                        let result = TransitionResult {
                            object_id: run.object_id,
                            from_state: run.from_state.clone(),
                            to_state: run.from_state,
                            transition_id: run.transition_id,
                            hooks_fired: run.hooks_fired,
                            forced_transition: Some(alt.clone()),
                            alert_message: alert,
                        };
                        proof {
                            assert(texts_of(result.hooks_fired@) =~= r0.hooks_fired.push(hook.hook_id@));
                        }
                        return Step::Done(Ok(result));
                    },
                    None => {},
                },
                None => {},
            }
            if same_text(hook.on_error.as_str(), "abort") && !freeze {
                let mut m = String::from_str("Hook ");
                m.append(hook.hook_id.as_str());
                m.append(" aborted: ");
                m.append(reason.as_str());
                return Step::Done(Err(m));
            }
        }
        run.hooks_fired.push(hook.hook_id.clone());
        run.next = run.next + 1;
        run.alert = alert;
        assert(run@ =~= past_hook(r0, alert_after(r0.alert, signal_entry(hook, freeze), reason@)));
        self.advance(run)
    }
}

} // verus!
