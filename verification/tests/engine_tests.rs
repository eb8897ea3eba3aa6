use agent_manager::config::{AppConfig, HookDef, SignalMapping, StateDef, TransitionDef, WorkflowConfig};
use agent_manager::engine::WorkflowEngine;
use agent_manager::registry::{ActionContext, HookSignal};
use agent_manager::run::{JournalEntry, Step, TransitionResult, TransitionRun};

fn state(id: &str) -> StateDef {
    StateDef {
        id: id.to_string(),
        description: String::new(),
        state_type: "stable".to_string(),
        auto_exit: false,
        max_duration: None,
        on_timeout: None,
        requires_manual_unlock: false,
    }
}

fn transition(id: &str, from: &str, to: &str, trigger: &str) -> TransitionDef {
    TransitionDef {
        id: id.to_string(),
        from: from.to_string(),
        to: to.to_string(),
        description: String::new(),
        trigger: trigger.to_string(),
        permissions: None,
        condition: None,
    }
}

fn hook(id: &str, tid: &str, timing: &str, priority: u32, action: &str) -> HookDef {
    HookDef {
        hook_id: id.to_string(),
        transition_id: tid.to_string(),
        timing: timing.to_string(),
        priority,
        action: action.to_string(),
        payload: "{\"k\": 1}".to_string(),
        on_error: "abort".to_string(),
        on_freeze: None,
        on_abort: None,
    }
}

fn engine(hooks: Vec<HookDef>, dry_run: bool) -> WorkflowEngine {
    let app = AppConfig {
        dry_run,
        moteur: None,
        rate_limiter: None,
        chatroom_bot: None,
        anarea: None,
        presences: Vec::new(),
        registry: None,
    };
    let c = WorkflowConfig::load(
        "registry/chat".to_string(),
        vec![state("new"), state("open"), state("done")],
        vec![
            transition("open", "new", "open", "external"),
            transition("close", "open", "done", "automatic"),
            transition("skip", "new", "done", "automatic"),
        ],
        hooks,
        app,
    )
    .ok()
    .unwrap();
    WorkflowEngine::new(c)
}

/// Drives a run to its end, answering each hook with `answer`.
fn drive(
    e: &mut WorkflowEngine,
    run: TransitionRun,
    answer: &dyn Fn(&HookDef, &ActionContext) -> Result<HookSignal, String>,
    fired: &mut Vec<String>,
    journal: &mut Vec<JournalEntry>,
) -> Result<TransitionResult, String> {
    let mut step = e.advance(run);
    loop {
        step = match step {
            Step::Fire { run, hook, context } => {
                fired.push(hook.hook_id.clone());
                let outcome = answer(&hook, &context);
                e.deliver(run, outcome)
            }
            Step::Journal { run, entry } => {
                journal.push(entry);
                e.advance(run)
            }
            Step::Done(r) => return r,
        }
    }
}

fn always_continue(_: &HookDef, _: &ActionContext) -> Result<HookSignal, String> {
    Ok(HookSignal::Continue)
}

#[test]
fn a_runtime_payload_is_merged_into_each_hook_payload() {
    let mut e = engine(vec![hook("early", "open", "before", 1, "a")], false);
    e.register_object("o1", "new").unwrap();
    let run = e.apply_transition_with_payload("o1", "open", "{\"k\": 2, \"who\": \"me\"}").ok().unwrap();
    let (mut fired, mut journal) = (vec![], vec![]);
    let expect_payload = |_: &HookDef, c: &ActionContext| {
        assert_eq!(c.payload, "{\"k\":2,\"who\":\"me\"}");
        Ok(HookSignal::Continue)
    };
    let r = drive(&mut e, run, &expect_payload, &mut fired, &mut journal).unwrap();
    assert_eq!(fired, vec!["early"]);
    assert_eq!(r.to_state, "open");
    // An empty runtime payload leaves the hook's payload as it is.
    let run = e.apply_transition_with_payload("o1", "close", "{}").ok().unwrap();
    assert!(drive(&mut e, run, &always_continue, &mut fired, &mut journal).is_ok());
    assert_eq!(
        e.apply_transition_with_payload("o1", "open", "{}").err().unwrap(),
        "Transition 'open' attend l'\u{e9}tat 'new', mais 'o1' est en 'done'"
    );
}

#[test]
fn register_object_needs_a_known_state() {
    let mut e = engine(vec![], false);
    assert_eq!(e.register_object("o1", "nowhere"), Err("\u{c9}tat initial 'nowhere' inconnu".to_string()));
    assert_eq!(e.state_count(), 0);
    assert!(e.register_object("o1", "new").is_ok());
    assert_eq!(e.state_of("o1"), Some("new"));
    assert_eq!(e.state_of("o2"), None);
    assert_eq!(e.state_count(), 1);
    assert!(!e.dry_run());
    assert_eq!(e.config().name, "chat");
}

#[test]
fn registering_again_resets_the_state_and_keeps_the_count() {
    let mut e = engine(vec![], false);
    assert!(e.register_object("o1", "new").is_ok());
    assert!(e.register_object("o2", "new").is_ok());
    assert_eq!(e.state_count(), 2);
    assert!(e.register_object("o1", "done").is_ok());
    assert_eq!(e.state_of("o1"), Some("done"));
    assert_eq!(e.state_of("o2"), Some("new"));
    assert_eq!(e.state_count(), 2);
}

#[test]
fn apply_transition_needs_object_and_transition() {
    let mut e = engine(vec![], false);
    assert_eq!(e.apply_transition("ghost", "open").err().unwrap(), "Objet 'ghost' inconnu");
    e.register_object("o1", "new").unwrap();
    assert_eq!(e.apply_transition("o1", "fly").err().unwrap(), "Transition 'fly' inconnue");
    assert_eq!(
        e.apply_transition("o1", "close").err().unwrap(),
        "Transition 'close' attend l'\u{e9}tat 'open', mais 'o1' est en 'new'"
    );
    assert!(e.apply_transition("o1", "open").is_ok());
}

#[test]
fn a_transition_without_hooks_moves_the_object_and_is_journaled() {
    let mut e = engine(vec![], false);
    e.register_object("o1", "new").unwrap();
    let run = e.apply_transition("o1", "open").ok().unwrap();
    let (mut fired, mut journal) = (vec![], vec![]);
    let r = drive(&mut e, run, &always_continue, &mut fired, &mut journal).unwrap();
    assert_eq!(r.object_id, "o1");
    assert_eq!(r.from_state, "new");
    assert_eq!(r.to_state, "open");
    assert_eq!(r.transition_id, "open");
    assert!(r.hooks_fired.is_empty());
    assert!(r.forced_transition.is_none());
    assert!(r.alert_message.is_none());
    assert_eq!(e.state_of("o1"), Some("open"));
    assert_eq!(journal.len(), 1);
    assert_eq!(journal[0].workflow_id, "chat");
    assert_eq!(journal[0].from_state, "new");
    assert_eq!(journal[0].to_state, "open");
    assert_eq!(journal[0].transition_id, "open");
}

#[test]
fn hooks_fire_in_priority_order_with_their_context() {
    let mut e = engine(
        vec![
            hook("late", "open", "before", 5, "a"),
            hook("early", "open", "before", 1, "a"),
            hook("post", "open", "after", 1, "a"),
        ],
        false,
    );
    e.register_object("o1", "new").unwrap();
    let run = e.apply_transition("o1", "open").ok().unwrap();
    let (mut fired, mut journal) = (vec![], vec![]);
    let expect_context = |_: &HookDef, c: &ActionContext| {
        assert_eq!(c.object_id, "o1");
        assert_eq!(c.workflow_id, "chat");
        assert_eq!(c.current_state, "new");
        assert_eq!(c.target_state, "open");
        assert_eq!(c.transition_id, "open");
        assert_eq!(c.payload, "{\"k\": 1}");
        Ok(HookSignal::Continue)
    };
    let r = drive(&mut e, run, &expect_context, &mut fired, &mut journal).unwrap();
    assert_eq!(fired, vec!["early", "late", "post"]);
    assert_eq!(r.hooks_fired, vec!["early", "late", "post"]);
    assert_eq!(r.to_state, "open");
}

#[test]
fn a_freeze_with_a_redirect_keeps_the_state_and_freezes() {
    let mut h = hook("guard", "open", "before", 1, "rate_limit");
    h.on_freeze = Some(SignalMapping { transition: Some("pause".to_string()), alert_anarea: true, message: None });
    let mut e = engine(vec![h, hook("never", "open", "before", 2, "a")], false);
    e.register_object("o1", "new").unwrap();
    let run = e.apply_transition("o1", "open").ok().unwrap();
    let (mut fired, mut journal) = (vec![], vec![]);
    let freeze = |_: &HookDef, _: &ActionContext| Ok(HookSignal::Freeze { reason: "too fast".to_string() });
    let r = drive(&mut e, run, &freeze, &mut fired, &mut journal).unwrap();
    assert_eq!(r.from_state, "new");
    assert_eq!(r.to_state, "new");
    assert_eq!(r.forced_transition, Some("pause".to_string()));
    assert_eq!(r.alert_message, Some("too fast".to_string()));
    assert_eq!(r.hooks_fired, vec!["guard"]);
    assert!(journal.is_empty());
    assert_eq!(e.state_of("o1"), Some("new"));
    assert!(e.is_frozen("o1"));
    assert_eq!(
        e.apply_transition("o1", "open").err().unwrap(),
        "Objet 'o1' est gel\u{e9} (frozen). /unfreeze requis."
    );
    e.unfreeze("o1");
    assert!(!e.is_frozen("o1"));
    assert!(e.apply_transition("o1", "open").is_ok());
}

#[test]
fn an_abort_with_a_redirect_does_not_freeze_and_uses_the_entry_message() {
    let mut h = hook("guard", "open", "before", 1, "a");
    h.on_abort = Some(SignalMapping {
        transition: Some("inspect".to_string()),
        alert_anarea: true,
        message: Some("look at it".to_string()),
    });
    let mut e = engine(vec![h], false);
    e.register_object("o1", "new").unwrap();
    let run = e.apply_transition("o1", "open").ok().unwrap();
    let (mut fired, mut journal) = (vec![], vec![]);
    let abort = |_: &HookDef, _: &ActionContext| Ok(HookSignal::Abort { reason: "loop".to_string() });
    let r = drive(&mut e, run, &abort, &mut fired, &mut journal).unwrap();
    assert_eq!(r.forced_transition, Some("inspect".to_string()));
    assert_eq!(r.alert_message, Some("look at it".to_string()));
    assert!(!e.is_frozen("o1"));
    assert_eq!(e.state_of("o1"), Some("new"));
}

#[test]
fn each_signal_goes_through_its_own_entry() {
    let mut h = hook("guard", "open", "before", 1, "a");
    h.on_freeze = Some(SignalMapping { transition: Some("pause".to_string()), alert_anarea: true, message: None });
    let mut e = engine(vec![h.clone()], false);
    e.register_object("o1", "new").unwrap();
    let run = e.apply_transition("o1", "open").ok().unwrap();
    let (mut fired, mut journal) = (vec![], vec![]);
    let abort = |_: &HookDef, _: &ActionContext| Ok(HookSignal::Abort { reason: "stop".to_string() });
    let r = drive(&mut e, run, &abort, &mut fired, &mut journal);
    assert_eq!(r.err().unwrap(), "Hook guard aborted: stop");
    assert_eq!(e.state_of("o1"), Some("new"));
    assert!(!e.is_frozen("o1"));

    h.on_abort = Some(SignalMapping { transition: Some("inspect".to_string()), alert_anarea: false, message: None });
    let mut e = engine(vec![h], false);
    e.register_object("o1", "new").unwrap();
    let run = e.apply_transition("o1", "open").ok().unwrap();
    let r = drive(&mut e, run, &abort, &mut fired, &mut journal).unwrap();
    assert_eq!(r.forced_transition, Some("inspect".to_string()));
    assert_eq!(r.alert_message, None);
    assert!(!e.is_frozen("o1"));
}

#[test]
fn an_abort_without_entry_fails_the_transition() {
    let mut e = engine(vec![hook("guard", "open", "before", 1, "a")], false);
    e.register_object("o1", "new").unwrap();
    let run = e.apply_transition("o1", "open").ok().unwrap();
    let (mut fired, mut journal) = (vec![], vec![]);
    let abort = |_: &HookDef, _: &ActionContext| Ok(HookSignal::Abort { reason: "no".to_string() });
    let r = drive(&mut e, run, &abort, &mut fired, &mut journal);
    assert_eq!(r.err().unwrap(), "Hook guard aborted: no");
    assert_eq!(e.state_of("o1"), Some("new"));
    assert!(journal.is_empty());
}

#[test]
fn signals_of_a_hook_with_continue_policy_are_ignored() {
    let mut h = hook("guard", "open", "before", 1, "a");
    h.on_error = "continue".to_string();
    let mut e = engine(vec![h], false);
    e.register_object("o1", "new").unwrap();
    let run = e.apply_transition("o1", "open").ok().unwrap();
    let (mut fired, mut journal) = (vec![], vec![]);
    let abort = |_: &HookDef, _: &ActionContext| Ok(HookSignal::Abort { reason: "no".to_string() });
    let r = drive(&mut e, run, &abort, &mut fired, &mut journal).unwrap();
    assert_eq!(r.to_state, "open");
    assert_eq!(e.state_of("o1"), Some("open"));
}

#[test]
fn a_freeze_without_redirect_lets_the_transition_through_with_an_alert() {
    let mut h = hook("guard", "open", "before", 1, "a");
    h.on_freeze = Some(SignalMapping { transition: None, alert_anarea: true, message: Some("watch".to_string()) });
    let mut e = engine(vec![h], false);
    e.register_object("o1", "new").unwrap();
    let run = e.apply_transition("o1", "open").ok().unwrap();
    let (mut fired, mut journal) = (vec![], vec![]);
    let freeze = |_: &HookDef, _: &ActionContext| Ok(HookSignal::Freeze { reason: "r".to_string() });
    let r = drive(&mut e, run, &freeze, &mut fired, &mut journal).unwrap();
    assert_eq!(r.to_state, "open");
    assert_eq!(r.alert_message, Some("watch".to_string()));
    assert!(!e.is_frozen("o1"));
}

#[test]
fn a_hook_error_ends_the_transition() {
    let mut e = engine(vec![hook("guard", "open", "before", 1, "a"), hook("post", "open", "after", 1, "a")], false);
    e.register_object("o1", "new").unwrap();
    let run = e.apply_transition("o1", "open").ok().unwrap();
    let (mut fired, mut journal) = (vec![], vec![]);
    let fail = |_: &HookDef, _: &ActionContext| Err("boom".to_string());
    assert_eq!(drive(&mut e, run, &fail, &mut fired, &mut journal).err().unwrap(), "boom");
    assert_eq!(e.state_of("o1"), Some("new"));
    // An error after the commit leaves the new state in place.
    let mut e = engine(vec![hook("post", "open", "after", 1, "a")], false);
    e.register_object("o1", "new").unwrap();
    let run = e.apply_transition("o1", "open").ok().unwrap();
    assert_eq!(drive(&mut e, run, &fail, &mut fired, &mut journal).err().unwrap(), "boom");
    assert_eq!(e.state_of("o1"), Some("open"));
}

#[test]
fn after_hooks_only_raise_alerts() {
    let mut h = hook("post", "open", "after", 1, "a");
    h.on_abort = Some(SignalMapping { transition: Some("x".to_string()), alert_anarea: true, message: None });
    let mut e = engine(vec![h], false);
    e.register_object("o1", "new").unwrap();
    let run = e.apply_transition("o1", "open").ok().unwrap();
    let (mut fired, mut journal) = (vec![], vec![]);
    let abort = |_: &HookDef, _: &ActionContext| Ok(HookSignal::Abort { reason: "late".to_string() });
    let r = drive(&mut e, run, &abort, &mut fired, &mut journal).unwrap();
    assert_eq!(r.to_state, "open");
    assert!(r.forced_transition.is_none());
    assert_eq!(r.alert_message, Some("late".to_string()));
}

#[test]
fn a_dry_run_skips_external_actions_and_the_journal() {
    let mut e = engine(
        vec![
            hook("notify", "open", "before", 1, "send_telegram"),
            hook("script", "open", "before", 2, "call_hermes"),
            hook("loops", "open", "before", 3, "detect_loopback"),
            hook("limit", "open", "after", 1, "rate_limit"),
            hook("other", "open", "after", 2, "a"),
        ],
        true,
    );
    assert!(e.dry_run());
    e.register_object("o1", "new").unwrap();
    let run = e.apply_transition("o1", "open").ok().unwrap();
    let (mut fired, mut journal) = (vec![], vec![]);
    let r = drive(&mut e, run, &always_continue, &mut fired, &mut journal).unwrap();
    assert_eq!(fired, vec!["loops", "limit"]);
    assert_eq!(r.hooks_fired, vec!["notify", "script", "loops", "limit", "other"]);
    assert!(journal.is_empty());
    assert_eq!(e.state_of("o1"), Some("open"));
}

#[test]
fn run_auto_takes_the_first_automatic_transition() {
    let mut e = engine(vec![], false);
    e.register_object("o1", "new").unwrap();
    e.register_object("o2", "done").unwrap();
    assert!(e.run_auto("o2").ok().unwrap().is_none());
    let run = e.run_auto("o1").ok().unwrap().unwrap();
    assert_eq!(run.transition_id, "skip");
    assert_eq!(run.to, "done");
    assert_eq!(e.run_auto("zz").err().unwrap(), "Objet 'zz' inconnu");
}

#[test]
fn available_transitions_lists_the_moves_from_the_current_state() {
    let mut e = engine(vec![], false);
    e.register_object("o1", "new").unwrap();
    assert_eq!(e.available_transitions("o1").ok().unwrap(), vec!["open", "skip"]);
    assert_eq!(e.available_transitions("nobody").err().unwrap(), "Objet 'nobody' inconnu");
}
