use agent_manager::config::{
    ChatroomBotConfig, RateLimiterConfig, UserConfig,
    default_on_error, default_priority, default_state_type, default_trigger, default_true, AppConfig,
    ConfigError, HookDef, SignalMapping, StateDef, TransitionDef, WorkflowConfig,
};

fn state(id: &str, kind: &str) -> StateDef {
    StateDef {
        id: id.to_string(),
        description: String::new(),
        state_type: kind.to_string(),
        auto_exit: false,
        max_duration: None,
        on_timeout: None,
        requires_manual_unlock: false,
    }
}

fn transition(id: &str, from: &str, to: &str, trigger: &str) -> TransitionDef {
    TransitionDef {
        id: id.to_string(),
        from: from.to_string(),
        to: to.to_string(),
        description: String::new(),
        trigger: trigger.to_string(),
        permissions: None,
        condition: None,
    }
}

fn hook(id: &str, tid: &str, timing: &str, priority: u32) -> HookDef {
    HookDef {
        hook_id: id.to_string(),
        transition_id: tid.to_string(),
        timing: timing.to_string(),
        priority,
        action: "noop".to_string(),
        payload: "null".to_string(),
        on_error: "abort".to_string(),
        on_freeze: None,
        on_abort: None,
    }
}

fn app() -> AppConfig {
    AppConfig {
        dry_run: false,
        moteur: None,
        rate_limiter: None,
        chatroom_bot: None,
        anarea: None,
        presences: Vec::new(),
        registry: None,
    }
}

fn load(states: Vec<StateDef>, ts: Vec<TransitionDef>, hooks: Vec<HookDef>) -> Result<WorkflowConfig, ConfigError> {
    WorkflowConfig::load("registry/wf".to_string(), states, ts, hooks, app())
}

#[test]
fn load_accepts_a_consistent_workflow() {
    let c = load(
        vec![state("a", "stable"), state("b", "terminal")],
        vec![transition("go", "a", "b", "external")],
        vec![hook("h", "go", "before", 1)],
    )
    .ok()
    .unwrap();
    assert_eq!(c.name, "wf");
    assert_eq!(c.dir, "registry/wf");
    assert_eq!(c.states.len(), 2);
    assert_eq!(c.transitions.len(), 1);
    assert_eq!(c.hooks.len(), 1);
}

#[test]
fn load_names_the_workflow_after_its_directory() {
    let named = |dir: &str| {
        WorkflowConfig::load(dir.to_string(), vec![state("a", "stable")], vec![], vec![], app())
            .ok()
            .unwrap()
            .name
    };
    assert_eq!(named("registry/chat"), "chat");
    assert_eq!(named("/srv/registry/chat/"), "chat");
    assert_eq!(named("chat"), "chat");
    assert_eq!(named("/"), "unknown");
    assert_eq!(named("registry/.."), "unknown");
    assert_eq!(named(""), "unknown");
}

#[test]
fn assemble_keeps_the_given_name() {
    let c = WorkflowConfig::assemble(
        "wf".to_string(),
        "elsewhere".to_string(),
        vec![state("a", "stable")],
        vec![],
        vec![],
        app(),
    )
    .ok()
    .unwrap();
    assert_eq!(c.name, "wf");
    assert_eq!(c.dir, "elsewhere");
}

#[test]
fn load_rejects_unknown_from_state() {
    let e = load(vec![state("a", "stable")], vec![transition("go", "x", "a", "external")], vec![]).err().unwrap();
    assert_eq!(e.message(), "Transition 'go': from 'x' inconnu dans states.json");
}

#[test]
fn load_rejects_unknown_to_state() {
    let e = load(vec![state("a", "stable")], vec![transition("go", "a", "y", "external")], vec![]).err().unwrap();
    assert_eq!(e.message(), "Transition 'go': to 'y' inconnu dans states.json");
}

#[test]
fn load_rejects_hook_of_unknown_transition() {
    let e = load(
        vec![state("a", "stable"), state("b", "stable")],
        vec![transition("go", "a", "b", "external")],
        vec![hook("h1", "go", "before", 1), hook("h2", "nope", "after", 1)],
    )
    .err()
    .unwrap();
    assert_eq!(e.message(), "Hook 'h2': transition_id 'nope' inconnu dans transitions.json");
}

#[test]
fn load_rejects_transition_from_terminal_state() {
    let e = load(
        vec![state("a", "stable"), state("end", "terminal")],
        vec![transition("go", "a", "end", "external"), transition("back", "end", "a", "external")],
        vec![],
    )
    .err()
    .unwrap();
    assert_eq!(e.message(), "Transition 'back' part d'un \u{e9}tat terminal 'end'");
}

#[test]
fn load_reports_endpoint_errors_before_hook_and_terminal_errors() {
    let e = load(
        vec![state("end", "terminal")],
        vec![transition("back", "end", "end", "external"), transition("go", "end", "zz", "external")],
        vec![hook("h", "nope", "before", 1)],
    )
    .err()
    .unwrap();
    assert_eq!(e.message(), "Transition 'go': to 'zz' inconnu dans states.json");
}

#[test]
fn load_uses_the_first_state_of_a_repeated_id() {
    // The first definition of "a" is stable, so the transition may leave it.
    let c = load(
        vec![state("a", "stable"), state("a", "terminal")],
        vec![transition("go", "a", "a", "external")],
        vec![],
    );
    assert!(c.is_ok());
    let e = load(
        vec![state("a", "terminal"), state("a", "stable")],
        vec![transition("go", "a", "a", "external")],
        vec![],
    );
    assert!(e.is_err());
}

#[test]
fn lookups_find_the_first_match() {
    let c = load(
        vec![state("a", "stable"), state("b", "paused"), state("c", "stable")],
        vec![
            transition("t1", "a", "b", "external"),
            transition("t2", "b", "c", "automatic"),
            transition("t3", "a", "c", "manual"),
        ],
        vec![],
    )
    .ok()
    .unwrap();
    assert_eq!(c.find_state("b").unwrap().state_type, "paused");
    assert!(c.find_state("z").is_none());
    assert_eq!(c.find_transition("t3").unwrap().to, "c");
    assert!(c.find_transition("t9").is_none());
    let from_a: Vec<String> = c.find_transitions_from("a").iter().map(|t| t.id.clone()).collect();
    assert_eq!(from_a, vec!["t1".to_string(), "t3".to_string()]);
    assert!(c.find_transitions_from("c").is_empty());
}

#[test]
fn find_hooks_sorts_by_priority_keeping_definition_order() {
    let c = load(
        vec![state("a", "stable"), state("b", "stable")],
        vec![transition("go", "a", "b", "external")],
        vec![
            hook("p2-first", "go", "before", 2),
            hook("p1-first", "go", "before", 1),
            hook("after", "go", "after", 0),
            hook("p2-second", "go", "before", 2),
            hook("p1-second", "go", "before", 1),
        ],
    )
    .ok()
    .unwrap();
    let ids: Vec<String> = c.find_hooks("go", "before").iter().map(|h| h.hook_id.clone()).collect();
    assert_eq!(ids, vec!["p1-first", "p1-second", "p2-first", "p2-second"]);
    let after: Vec<String> = c.find_hooks("go", "after").iter().map(|h| h.hook_id.clone()).collect();
    assert_eq!(after, vec!["after"]);
    assert!(c.find_hooks("other", "before").is_empty());
}

#[test]
fn defaults_of_the_definitions() {
    assert_eq!(default_state_type(), "stable");
    assert_eq!(default_trigger(), "external");
    assert_eq!(default_priority(), 1);
    assert_eq!(default_on_error(), "abort");
    assert!(default_true());
    let m = SignalMapping::default();
    assert!(m.transition.is_none() && !m.alert_anarea && m.message.is_none());
}

#[test]
fn hook_copies_are_equal_field_by_field() {
    let mut h = hook("h", "go", "before", 3);
    h.on_freeze = Some(SignalMapping { transition: Some("pause".to_string()), alert_anarea: true, message: None });
    let c = h.clone();
    assert_eq!(c.hook_id, "h");
    assert_eq!(c.priority, 3);
    assert_eq!(c.on_freeze.unwrap().transition.unwrap(), "pause");
    let t = transition("go", "a", "b", "manual").clone();
    assert_eq!(t.trigger, "manual");
}

#[test]
fn settings_defaults_and_overrides() {
    let mut a = app();
    assert_eq!(a.max_per_minute(), 5);
    assert_eq!(a.loopback_threshold(), 3);
    assert_eq!(a.alert_chat_id(), "1047918071");
    a.rate_limiter = Some(RateLimiterConfig {
        max_public_per_minute: Some(9),
        cooldown_minutes: None,
        loopback_window_minutes: None,
        loopback_threshold: None,
        rapid_chain_threshold: None,
        rapid_chain_window_seconds: None,
    });
    a.anarea = Some(UserConfig { name: "A".to_string(), icon: "*".to_string(), telegram_user_id: Some(-1234) });
    a.chatroom_bot = Some(ChatroomBotConfig { token_env: None, username: None, bot_user_id: None });
    assert_eq!(a.max_per_minute(), 9);
    assert_eq!(a.loopback_threshold(), 3);
    assert_eq!(a.alert_chat_id(), "-1234");
}
