use agent_manager::actions::{LoopbackDetector, RateLimitAction, SendTelegramAction};
use agent_manager::registry::{ActionContext, HookSignal, ScriptWrapper};
use agent_manager::text::{to_decimal, to_signed_decimal};
use agent_manager::actions::rate_limiter::count_move;
use agent_manager::payload::merge_payload;

fn ctx(from: &str, to: &str, payload: &str) -> ActionContext {
    ActionContext {
        object_id: "o1".to_string(),
        workflow_id: "chat".to_string(),
        current_state: from.to_string(),
        target_state: to.to_string(),
        transition_id: "t".to_string(),
        payload: payload.to_string(),
    }
}

#[test]
fn loopback_aborts_on_the_threshold_th_repeat() {
    let mut d = LoopbackDetector::new(3);
    assert_eq!(d.threshold, 3);
    assert_eq!(d.window_minutes, 60);
    assert_eq!(d.name(), "detect_loopback");
    let c = ctx("a", "b", "null");
    assert_eq!(d.handle(&c), HookSignal::Continue);
    assert_eq!(d.handle(&c), HookSignal::Continue);
    assert_eq!(
        d.handle(&c),
        HookSignal::Abort { reason: "Loopback d\u{e9}tect\u{e9} : a\u{2192}b \u{2192} r\u{e9}p\u{e9}t\u{e9} 3 fois".to_string() }
    );
    // A different move breaks the streak.
    assert_eq!(d.handle(&ctx("b", "a", "null")), HookSignal::Continue);
    assert_eq!(d.handle(&c), HookSignal::Continue);
}

#[test]
fn loopback_reads_the_threshold_from_the_payload() {
    let mut d = LoopbackDetector::new(5);
    let c = ctx("x", "y", "{\"threshold\": 2}");
    assert_eq!(d.handle(&c), HookSignal::Continue);
    assert!(matches!(d.handle(&c), HookSignal::Abort { .. }));
}

#[test]
fn loopback_keeps_objects_apart() {
    let mut d = LoopbackDetector::new(2);
    let mut other = ctx("a", "b", "null");
    other.object_id = "o2".to_string();
    assert_eq!(d.handle(&ctx("a", "b", "null")), HookSignal::Continue);
    assert_eq!(d.handle(&other), HookSignal::Continue);
    assert!(matches!(d.handle(&other), HookSignal::Abort { .. }));
}

#[test]
fn loopback_with_threshold_zero_always_aborts() {
    let mut d = LoopbackDetector::new(0);
    assert_eq!(
        d.handle(&ctx("a", "b", "null")),
        HookSignal::Abort { reason: "Loopback d\u{e9}tect\u{e9} : a\u{2192}b \u{2192} r\u{e9}p\u{e9}t\u{e9} 0 fois".to_string() }
    );
}

#[test]
fn rate_limit_freezes_past_the_limit() {
    let mut r = RateLimitAction::new(2);
    assert_eq!(r.max_per_minute, 2);
    assert_eq!(r.name(), "rate_limit");
    let c = ctx("a", "b", "null");
    assert_eq!(r.handle(&c), HookSignal::Continue);
    assert_eq!(r.handle(&c), HookSignal::Continue);
    assert_eq!(
        r.handle(&c),
        HookSignal::Freeze { reason: "chat:o1 triggered 2 times in < 1 min (limit: 2)".to_string() }
    );
}

#[test]
fn rate_limit_reads_the_limit_from_the_payload() {
    let mut r = RateLimitAction::new(10);
    let c = ctx("a", "b", "{\"max_per_minute\": 1}");
    assert_eq!(r.handle(&c), HookSignal::Continue);
    assert_eq!(
        r.handle(&c),
        HookSignal::Freeze { reason: "chat:o1 triggered 1 times in < 1 min (limit: 1)".to_string() }
    );
}

#[test]
fn rate_limit_of_zero_freezes_at_once() {
    let mut r = RateLimitAction::new(0);
    assert_eq!(
        r.handle(&ctx("a", "b", "null")),
        HookSignal::Freeze { reason: "chat:o1 triggered 0 times in < 1 min (limit: 0)".to_string() }
    );
}

#[test]
fn count_move_follows_the_window() {
    assert_eq!(count_move("k", 7, 60_000_000_001, 3), (1, HookSignal::Continue));
    assert_eq!(count_move("k", 2, 60_000_000_000, 3), (3, HookSignal::Continue));
    assert_eq!(
        count_move("k", 3, 5, 3),
        (3, HookSignal::Freeze { reason: "k triggered 3 times in < 1 min (limit: 3)".to_string() })
    );
}

#[test]
fn telegram_request_uses_payload_or_defaults() {
    let a = SendTelegramAction::new("SECRET".to_string(), "42".to_string());
    assert_eq!(a.name(), "send_telegram");
    let r = a.prepare(&ctx("a", "b", "null"));
    assert_eq!(r.url, "https://api.telegram.org/botSECRET/sendMessage");
    assert_eq!(r.chat_id, "42");
    assert_eq!(r.parse_mode, "Markdown");
    assert_eq!(r.text, "\u{1f504} Workflow **chat**\nObjet `o1` : `a` \u{2192} `b`\n\n(message vide)");
    let r = a.prepare(&ctx("a", "b", "{\"chat_id\": \"7\", \"text\": \"bonjour\"}"));
    assert_eq!(r.chat_id, "7");
    assert!(r.text.ends_with("\n\nbonjour"));
}

#[test]
fn telegram_outcome_follows_the_status() {
    let a = SendTelegramAction::new("t".to_string(), "1".to_string());
    assert_eq!(a.outcome(true, "200 OK", ""), Ok(HookSignal::Continue));
    assert_eq!(
        a.outcome(false, "403 Forbidden", "nope"),
        Err("Telegram HTTP 403 Forbidden: nope".to_string())
    );
}

#[test]
fn script_candidates_try_python_then_shell() {
    let c = ScriptWrapper::candidates("wrappers", "call_hermes");
    assert_eq!(c.len(), 2);
    assert_eq!(c[0].script_path, "wrappers/call_hermes.py");
    assert_eq!(c[0].interpreter, "python3");
    assert_eq!(c[1].script_path, "wrappers/call_hermes.sh");
    assert_eq!(c[1].interpreter, "bash");
    assert_eq!(c[1].timeout_seconds, 60);
    let c = ScriptWrapper::candidates("wrappers/", "notify");
    assert_eq!(c[0].script_path, "wrappers/notify.py");
    let c = ScriptWrapper::candidates("wrappers", "/opt/hooks/notify");
    assert_eq!(c[0].script_path, "/opt/hooks/notify.py");
    assert_eq!(c[1].script_path, "/opt/hooks/notify.sh");
    assert_eq!(
        ScriptWrapper::missing_action("x"),
        "Action 'x' introuvable dans le registre et les wrappers"
    );
}

#[test]
fn decimal_rendering() {
    assert_eq!(to_decimal(0), "0");
    assert_eq!(to_decimal(7), "7");
    assert_eq!(to_decimal(1047918071), "1047918071");
    assert_eq!(to_decimal(u64::MAX), "18446744073709551615");
}

#[test]
fn signed_decimal_rendering() {
    assert_eq!(to_signed_decimal(0), "0");
    assert_eq!(to_signed_decimal(-5), "-5");
    assert_eq!(to_signed_decimal(i64::MIN), "-9223372036854775808");
    assert_eq!(to_signed_decimal(i64::MAX), "9223372036854775807");
}

#[test]
fn rate_limit_lets_at_most_the_limit_through_in_a_window() {
    let mut r = RateLimitAction::new(3);
    let c = ctx("a", "b", "null");
    let passed = (0..10).filter(|_| r.handle(&c) == HookSignal::Continue).count();
    assert_eq!(passed, 3);
}

#[test]
fn loopback_judges_the_last_moves_of_a_long_history() {
    let mut d = LoopbackDetector::new(2);
    let ab = ctx("a", "b", "null");
    let ba = ctx("b", "a", "null");
    for _ in 0..10 {
        assert_eq!(d.handle(&ab), HookSignal::Continue);
        assert_eq!(d.handle(&ba), HookSignal::Continue);
    }
    assert_eq!(d.handle(&ab), HookSignal::Continue);
    assert!(matches!(d.handle(&ab), HookSignal::Abort { .. }));
    assert!(matches!(d.handle(&ab), HookSignal::Abort { .. }));
    assert_eq!(d.handle(&ba), HookSignal::Continue);
}

#[test]
fn rate_limit_windows_follow_the_clock_readings() {
    let mut r = RateLimitAction::new(2);
    let c = ctx("a", "b", "null");
    let frozen = HookSignal::Freeze { reason: "chat:o1 triggered 2 times in < 1 min (limit: 2)".to_string() };
    assert_eq!(r.handle_at(&c, 1_000), HookSignal::Continue);
    assert_eq!(r.handle_at(&c, 2_000), HookSignal::Continue);
    // Exactly a minute after the start, the window still holds.
    assert_eq!(r.handle_at(&c, 60_000_001_000), frozen);
    // Past a minute, a new window starts with this move.
    assert_eq!(r.handle_at(&c, 60_000_001_001), HookSignal::Continue);
    assert_eq!(r.handle_at(&c, 60_000_001_002), HookSignal::Continue);
    assert_eq!(r.handle_at(&c, 120_000_001_001), frozen);
    // A reading before the start counts as no time at all.
    assert_eq!(r.handle_at(&c, 0), frozen);
    // Other objects have windows of their own.
    let mut other = ctx("a", "b", "null");
    other.object_id = "o2".to_string();
    assert_eq!(r.handle_at(&other, 120_000_001_001), HookSignal::Continue);
}

#[test]
fn the_first_script_present_carries_out_the_action() {
    let pick = |present: Vec<bool>| {
        ScriptWrapper::first_present(ScriptWrapper::candidates("w", "act"), &present).map(|s| s.interpreter)
    };
    assert_eq!(pick(vec![true, true]), Some("python3".to_string()));
    assert_eq!(pick(vec![false, true]), Some("bash".to_string()));
    assert_eq!(pick(vec![false, false]), None);
}

#[test]
fn runtime_members_win_over_the_hook_members() {
    assert_eq!(
        merge_payload("{\"a\": 1, \"b\": 2}", "{\"c\": \"x\", \"b\": [3]}"),
        "{\"a\":1,\"b\":[3],\"c\":\"x\"}"
    );
    assert_eq!(merge_payload("null", "{\"k\": true}"), "{\"k\":true}");
    assert_eq!(merge_payload("{\"a\": 1}", "{\"q\\\"k\": null}"), "{\"a\":1,\"q\\\"k\":null}");
}

#[test]
fn an_empty_or_invalid_runtime_payload_changes_nothing() {
    assert_eq!(merge_payload(" {\"a\": 1} ", "{}"), " {\"a\": 1} ");
    assert_eq!(merge_payload(" {\"a\": 1} ", "not json"), " {\"a\": 1} ");
    assert_eq!(merge_payload(" {\"a\": 1} ", "[1, 2]"), " {\"a\": 1} ");
}
