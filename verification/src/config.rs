//! The four parts of a workflow definition (states, transitions, hooks and the
//! application settings), the rules that a loaded definition must follow, and
//! the lookups that the engine makes in it.

use vstd::prelude::*;
use crate::seqs::{first_match_from, lemma_first_match_from, lemma_filter_take_step, lemma_filter_none};
use crate::text::{same_text, signed_decimal, to_signed_decimal};

verus! {

// ─── States ──────────────────────────────────────────────────────────────────

/// A state of the workflow. `state_type` is one of `stable`, `transient`,
/// `paused` or `terminal`; no transition may leave a terminal state.
pub struct StateDef {
    pub id: String,
    pub description: String,
    pub state_type: String,
    pub auto_exit: bool,
    pub max_duration: Option<String>,
    pub on_timeout: Option<String>,
    pub requires_manual_unlock: bool,
}

/// The type a state has when its definition names none.
pub fn default_state_type() -> (s: String)
    ensures
        s@ == "stable"@,
{
    String::from_str("stable")
}

// ─── Transitions ─────────────────────────────────────────────────────────────

/// A named move of an object from the state `from` to the state `to`.
/// `trigger` is one of `external`, `automatic`, `hook_decision` or `manual`.
pub struct TransitionDef {
    pub id: String,
    pub from: String,
    pub to: String,
    pub description: String,
    pub trigger: String,
    pub permissions: Option<Vec<String>>,
    pub condition: Option<String>,
}

/// The trigger a transition has when its definition names none.
pub fn default_trigger() -> (s: String)
    ensures
        s@ == "external"@,
{
    String::from_str("external")
}

// ─── Hooks ───────────────────────────────────────────────────────────────────

/// An action fired before or after a transition. `payload` is the JSON text
/// handed to the action; `on_freeze` and `on_abort` are the entries `Freeze`
/// and `Abort` of the hook's signal table: what the engine does when the
/// action returns such a signal.
pub struct HookDef {
    pub hook_id: String,
    pub transition_id: String,
    pub timing: String,
    pub priority: u32,
    pub action: String,
    pub payload: String,
    pub on_error: String,
    pub on_freeze: Option<SignalMapping>,
    pub on_abort: Option<SignalMapping>,
}

/// What the engine does with a `Freeze` or `Abort` signal of a hook.
pub struct SignalMapping {
    pub transition: Option<String>,
    pub alert_anarea: bool,
    pub message: Option<String>,
}

/// The priority a hook has when its definition names none.
pub fn default_priority() -> (p: u32)
    ensures
        p == 1,
{
    1
}

/// The error policy a hook has when its definition names none.
pub fn default_on_error() -> (s: String)
    ensures
        s@ == "abort"@,
{
    String::from_str("abort")
}

/// The value of the flags that default to true.
pub fn default_true() -> (b: bool)
    ensures
        b,
{
    true
}

// ─── Application settings ────────────────────────────────────────────────────

pub struct AppConfig {
    pub dry_run: bool,
    pub moteur: Option<EngineConfig>,
    pub rate_limiter: Option<RateLimiterConfig>,
    pub chatroom_bot: Option<ChatroomBotConfig>,
    pub anarea: Option<UserConfig>,
    pub presences: Vec<(String, PresenceConfig)>,
    pub registry: Option<ActionRegistryConfig>,
}

pub struct EngineConfig {
    pub journal_db: Option<String>,
    pub flush_interval_seconds: Option<u64>,
    pub max_history_per_object: Option<usize>,
    pub thread_pool_size: Option<usize>,
}

pub struct RateLimiterConfig {
    pub max_public_per_minute: Option<u32>,
    pub cooldown_minutes: Option<u32>,
    pub loopback_window_minutes: Option<u64>,
    pub loopback_threshold: Option<usize>,
    pub rapid_chain_threshold: Option<u32>,
    pub rapid_chain_window_seconds: Option<u32>,
}

pub struct ChatroomBotConfig {
    pub token_env: Option<String>,
    pub username: Option<String>,
    pub bot_user_id: Option<i64>,
}

pub struct UserConfig {
    pub name: String,
    pub icon: String,
    pub telegram_user_id: Option<i64>,
}

pub struct PresenceConfig {
    pub name: String,
    pub icon: String,
    pub bot_user_id: Option<i64>,
    pub username: Option<String>,
    pub model: Option<String>,
    pub dm_enabled: bool,
    pub note: Option<String>,
}

pub struct ActionRegistryConfig {
    pub native_actions: Vec<NativeActionConfig>,
    pub wrapper_actions: Vec<WrapperActionConfig>,
}

/// A native action to register; `config` is its JSON settings, if any.
pub struct NativeActionConfig {
    pub name: String,
    pub action_type: String,
    pub config: Option<String>,
}

pub struct WrapperActionConfig {
    pub name: String,
    pub interpreter: String,
    pub script: String,
    pub timeout_seconds: u64,
}

// ─── Copies ──────────────────────────────────────────────────────────────────

/// A copy of an optional string.
pub fn copy_opt_string(o: &Option<String>) -> (r: Option<String>)
    ensures
        r == *o,
{
    match o {
        Some(s) => Some(s.clone()),
        None => None,
    }
}

/// A copy of a list of strings.
pub fn copy_strings(v: &Vec<String>) -> (r: Vec<String>)
    ensures
        r@ == v@,
{
    let mut r: Vec<String> = Vec::new();
    let mut i: usize = 0;
    while i < v.len()
        invariant
            i <= v.len(),
            r@ == v@.take(i as int),
        decreases v.len() - i,
    {
        r.push(v[i].clone());
        assert(v@.take(i as int).push(v@[i as int]) =~= v@.take(i + 1));
        i = i + 1;
    }
    assert(v@.take(v.len() as int) =~= v@);
    r
}

impl Clone for SignalMapping {
    fn clone(&self) -> (r: Self)
        ensures
            r == *self,
    {
        SignalMapping {
            transition: copy_opt_string(&self.transition),
            alert_anarea: self.alert_anarea,
            message: copy_opt_string(&self.message),
        }
    }
}

fn copy_mapping(m: &Option<SignalMapping>) -> (r: Option<SignalMapping>)
    ensures
        r == *m,
{
    match m {
        Some(x) => Some(x.clone()),
        None => None,
    }
}

impl Default for SignalMapping {
    fn default() -> (r: Self)
        ensures
            r.transition is None,
            !r.alert_anarea,
            r.message is None,
    {
        SignalMapping { transition: None, alert_anarea: false, message: None }
    }
}

impl Clone for StateDef {
    fn clone(&self) -> (r: Self)
        ensures
            r == *self,
    {
        StateDef {
            id: self.id.clone(),
            description: self.description.clone(),
            state_type: self.state_type.clone(),
            auto_exit: self.auto_exit,
            max_duration: copy_opt_string(&self.max_duration),
            on_timeout: copy_opt_string(&self.on_timeout),
            requires_manual_unlock: self.requires_manual_unlock,
        }
    }
}

impl Clone for TransitionDef {
    fn clone(&self) -> (r: Self)
        ensures
            r.id == self.id,
            r.from == self.from,
            r.to == self.to,
            r.description == self.description,
            r.trigger == self.trigger,
            r.condition == self.condition,
            r.permissions is Some <==> self.permissions is Some,
            r.permissions is Some ==> r.permissions->0@ == self.permissions->0@,
    {
        TransitionDef {
            id: self.id.clone(),
            from: self.from.clone(),
            to: self.to.clone(),
            description: self.description.clone(),
            trigger: self.trigger.clone(),
            permissions: match &self.permissions {
                Some(p) => Some(copy_strings(p)),
                None => None,
            },
            condition: copy_opt_string(&self.condition),
        }
    }
}

impl Clone for HookDef {
    fn clone(&self) -> (r: Self)
        ensures
            r == *self,
    {
        HookDef {
            hook_id: self.hook_id.clone(),
            transition_id: self.transition_id.clone(),
            timing: self.timing.clone(),
            priority: self.priority,
            action: self.action.clone(),
            payload: self.payload.clone(),
            on_error: self.on_error.clone(),
            on_freeze: copy_mapping(&self.on_freeze),
            on_abort: copy_mapping(&self.on_abort),
        }
    }
}

} // verus!

verus! {

// ─── The whole workflow ──────────────────────────────────────────────────────

/// A loaded workflow definition. `name` is the name of the directory it was
/// read from, `dir` that directory.
pub struct WorkflowConfig {
    pub name: String,
    pub dir: String,
    pub states: Vec<StateDef>,
    pub transitions: Vec<TransitionDef>,
    pub hooks: Vec<HookDef>,
    pub app_config: AppConfig,
}

/// Why a workflow definition was refused.
pub enum ConfigError {
    /// A transition leaves a state that no state definition names.
    UnknownFrom { transition: String, state: String },
    /// A transition enters a state that no state definition names.
    UnknownTo { transition: String, state: String },
    /// A hook is attached to a transition that does not exist.
    UnknownHookTransition { hook: String, transition: String },
    /// A transition leaves a terminal state.
    FromTerminal { transition: String, state: String },
}

pub open spec fn state_named(id: Seq<char>) -> spec_fn(StateDef) -> bool {
    |s: StateDef| s.id@ == id
}

pub open spec fn transition_named(id: Seq<char>) -> spec_fn(TransitionDef) -> bool {
    |t: TransitionDef| t.id@ == id
}

pub open spec fn transition_from(state: Seq<char>) -> spec_fn(TransitionDef) -> bool {
    |t: TransitionDef| t.from@ == state
}

/// Whether some state definition has the id `id`.
pub open spec fn has_state(states: Seq<StateDef>, id: Seq<char>) -> bool {
    exists|k: int| 0 <= k < states.len() && (#[trigger] states[k]).id@ == id
}

/// Whether some transition definition has the id `id`.
pub open spec fn has_transition(ts: Seq<TransitionDef>, id: Seq<char>) -> bool {
    exists|k: int| 0 <= k < ts.len() && (#[trigger] ts[k]).id@ == id
}

/// The first transition, from position `i` on, one of whose ends names no state.
pub open spec fn endpoint_error(states: Seq<StateDef>, ts: Seq<TransitionDef>, i: int) -> Option<ConfigError>
    decreases ts.len() - i,
{
    if i < 0 || i >= ts.len() {
        None
    } else if !has_state(states, ts[i].from@) {
        Some(ConfigError::UnknownFrom { transition: ts[i].id, state: ts[i].from })
    } else if !has_state(states, ts[i].to@) {
        Some(ConfigError::UnknownTo { transition: ts[i].id, state: ts[i].to })
    } else {
        endpoint_error(states, ts, i + 1)
    }
}

/// The first hook, from position `j` on, attached to no known transition.
pub open spec fn hook_error(ts: Seq<TransitionDef>, hooks: Seq<HookDef>, j: int) -> Option<ConfigError>
    decreases hooks.len() - j,
{
    if j < 0 || j >= hooks.len() {
        None
    } else if !has_transition(ts, hooks[j].transition_id@) {
        Some(ConfigError::UnknownHookTransition { hook: hooks[j].hook_id, transition: hooks[j].transition_id })
    } else {
        hook_error(ts, hooks, j + 1)
    }
}

/// Whether the first state definition named `id` is of type `terminal`.
pub open spec fn is_terminal_state(states: Seq<StateDef>, id: Seq<char>) -> bool {
    match first_match_from(states, state_named(id), 0) {
        Some(k) => states[k].state_type@ == "terminal"@,
        None => false,
    }
}

/// The first transition, from position `i` on, that leaves a terminal state.
pub open spec fn terminal_error(states: Seq<StateDef>, ts: Seq<TransitionDef>, i: int) -> Option<ConfigError>
    decreases ts.len() - i,
{
    if i < 0 || i >= ts.len() {
        None
    } else if is_terminal_state(states, ts[i].from@) {
        Some(ConfigError::FromTerminal { transition: ts[i].id, state: ts[i].from })
    } else {
        terminal_error(states, ts, i + 1)
    }
}

/// The error a workflow definition is refused with: the rules are tried in this
/// order (ends of transitions, then transitions of hooks, then terminal states),
/// each over its list from the front.
pub open spec fn config_error(states: Seq<StateDef>, ts: Seq<TransitionDef>, hooks: Seq<HookDef>) -> Option<ConfigError> {
    match endpoint_error(states, ts, 0) {
        Some(e) => Some(e),
        None => match hook_error(ts, hooks, 0) {
            Some(e) => Some(e),
            None => terminal_error(states, ts, 0),
        },
    }
}

/// A definition that follows every rule: every transition joins two known
/// states and leaves no terminal state, and every hook is attached to a
/// known transition.
pub open spec fn config_valid(states: Seq<StateDef>, ts: Seq<TransitionDef>, hooks: Seq<HookDef>) -> bool {
    &&& forall|i: int| 0 <= i < ts.len() ==> has_state(states, (#[trigger] ts[i]).from@) && has_state(states, ts[i].to@)
    &&& forall|j: int| 0 <= j < hooks.len() ==> has_transition(ts, (#[trigger] hooks[j]).transition_id@)
    &&& forall|i: int| 0 <= i < ts.len() ==> !is_terminal_state(states, (#[trigger] ts[i]).from@)
}

fn position_of_state(states: &Vec<StateDef>, id: &str) -> (r: Option<usize>)
    ensures
        match r {
            Some(k) => first_match_from(states@, state_named(id@), 0) == Some(k as int),
            None => first_match_from(states@, state_named(id@), 0) is None,
        },
{
    let mut i: usize = 0;
    while i < states.len()
        invariant
            i <= states.len(),
            first_match_from(states@, state_named(id@), 0) == first_match_from(states@, state_named(id@), i as int),
        decreases states.len() - i,
    {
        if same_text(states[i].id.as_str(), id) {
            return Some(i);
        }
        i = i + 1;
    }
    None
}

fn position_of_transition(ts: &Vec<TransitionDef>, id: &str) -> (r: Option<usize>)
    ensures
        match r {
            Some(k) => first_match_from(ts@, transition_named(id@), 0) == Some(k as int),
            None => first_match_from(ts@, transition_named(id@), 0) is None,
        },
{
    let mut i: usize = 0;
    while i < ts.len()
        invariant
            i <= ts.len(),
            first_match_from(ts@, transition_named(id@), 0) == first_match_from(ts@, transition_named(id@), i as int),
        decreases ts.len() - i,
    {
        if same_text(ts[i].id.as_str(), id) {
            return Some(i);
        }
        i = i + 1;
    }
    None
}

proof fn lemma_has_state(states: Seq<StateDef>, id: Seq<char>)
    ensures
        has_state(states, id) <==> first_match_from(states, state_named(id), 0) is Some,
{
    lemma_first_match_from(states, state_named(id), 0);
    if has_state(states, id) {
        let k = choose|k: int| 0 <= k < states.len() && (#[trigger] states[k]).id@ == id;
        assert(state_named(id)(states[k]));
    }
}

proof fn lemma_has_transition(ts: Seq<TransitionDef>, id: Seq<char>)
    ensures
        has_transition(ts, id) <==> first_match_from(ts, transition_named(id), 0) is Some,
{
    lemma_first_match_from(ts, transition_named(id), 0);
    if has_transition(ts, id) {
        let k = choose|k: int| 0 <= k < ts.len() && (#[trigger] ts[k]).id@ == id;
        assert(transition_named(id)(ts[k]));
    }
}

impl ConfigError {
    /// The text the error is reported with.
    pub fn message(&self) -> (m: String)
        ensures
            m@ == self.spec_message(),
    {
        match self {
            ConfigError::UnknownFrom { transition, state } => {
                let mut m = String::from_str("Transition '");
                m.append(transition.as_str());
                m.append("': from '");
                m.append(state.as_str());
                m.append("' inconnu dans states.json");
                m
            },
            ConfigError::UnknownTo { transition, state } => {
                let mut m = String::from_str("Transition '");
                m.append(transition.as_str());
                m.append("': to '");
                m.append(state.as_str());
                m.append("' inconnu dans states.json");
                m
            },
            ConfigError::UnknownHookTransition { hook, transition } => {
                let mut m = String::from_str("Hook '");
                m.append(hook.as_str());
                m.append("': transition_id '");
                m.append(transition.as_str());
                m.append("' inconnu dans transitions.json");
                m
            },
            ConfigError::FromTerminal { transition, state } => {
                let mut m = String::from_str("Transition '");
                m.append(transition.as_str());
                m.append("' part d'un \u{e9}tat terminal '");
                m.append(state.as_str());
                m.append("'");
                m
            },
        }
    }

    pub open spec fn spec_message(&self) -> Seq<char> {
        match self {
            ConfigError::UnknownFrom { transition, state } =>
                "Transition '"@ + transition@ + "': from '"@ + state@ + "' inconnu dans states.json"@,
            ConfigError::UnknownTo { transition, state } =>
                "Transition '"@ + transition@ + "': to '"@ + state@ + "' inconnu dans states.json"@,
            ConfigError::UnknownHookTransition { hook, transition } =>
                "Hook '"@ + hook@ + "': transition_id '"@ + transition@ + "' inconnu dans transitions.json"@,
            ConfigError::FromTerminal { transition, state } =>
                "Transition '"@ + transition@ + "' part d'un \u{e9}tat terminal '"@ + state@ + "'"@,
        }
    }
}

/// The name of the workflow kept in the directory `dir`: the last component
/// of the path, or `unknown` when it has none.
pub open spec fn workflow_name(dir: Seq<char>) -> Seq<char> {
    match crate::paths::path_file_name(dir) {
        Some(n) => n,
        None => "unknown"@,
    }
}

impl WorkflowConfig {
    /// Builds the workflow kept in the directory `dir` from its four loaded
    /// parts (see `assemble`). The workflow is named after the last component
    /// of `dir`, or `unknown` when the path has none.
    pub fn load(
        dir: String,
        states: Vec<StateDef>,
        transitions: Vec<TransitionDef>,
        hooks: Vec<HookDef>,
        app_config: AppConfig,
    ) -> (r: Result<WorkflowConfig, ConfigError>)
        ensures
            r is Ok <==> config_valid(states@, transitions@, hooks@),
            r matches Ok(c) ==> c.name@ == workflow_name(dir@) && c.dir == dir && c.states == states
                && c.transitions == transitions && c.hooks == hooks && c.app_config == app_config,
            r matches Err(e) ==> config_error(states@, transitions@, hooks@) == Some(e),
    {
        let name = match crate::paths::file_name(dir.as_str()) {
            Some(n) => n,
            None => String::from_str("unknown"),
        };
        Self::assemble(name, dir, states, transitions, hooks, app_config)
    }

    /// Builds a workflow named `name` from its four loaded parts, after making
    /// sure that every transition joins two known states, that every hook is
    /// attached to a known transition, and that no transition leaves a
    /// terminal state.
    pub fn assemble(
        name: String,
        dir: String,
        states: Vec<StateDef>,
        transitions: Vec<TransitionDef>,
        hooks: Vec<HookDef>,
        app_config: AppConfig,
    ) -> (r: Result<WorkflowConfig, ConfigError>)
        ensures
            r is Ok <==> config_error(states@, transitions@, hooks@) is None,
            r is Ok <==> config_valid(states@, transitions@, hooks@),
            r matches Ok(c) ==> c.name == name && c.dir == dir && c.states == states
                && c.transitions == transitions && c.hooks == hooks && c.app_config == app_config,
            r matches Err(e) ==> config_error(states@, transitions@, hooks@) == Some(e),
    {
        proof {
            lemma_config_error_iff_invalid(states@, transitions@, hooks@);
        }
        // Every transition joins two known states.
        let mut i: usize = 0;
        while i < transitions.len()
            invariant
                i <= transitions.len(),
                endpoint_error(states@, transitions@, 0) == endpoint_error(states@, transitions@, i as int),
            decreases transitions.len() - i,
        {
            let t = &transitions[i];
            proof {
                lemma_has_state(states@, t.from@);
                lemma_has_state(states@, t.to@);
            }
            if position_of_state(&states, t.from.as_str()).is_none() {
                return Err(ConfigError::UnknownFrom { transition: t.id.clone(), state: t.from.clone() });
            }
            if position_of_state(&states, t.to.as_str()).is_none() {
                return Err(ConfigError::UnknownTo { transition: t.id.clone(), state: t.to.clone() });
            }
            i = i + 1;
        }
        // Every hook is attached to a known transition.
        let mut j: usize = 0;
        while j < hooks.len()
            invariant
                j <= hooks.len(),
                endpoint_error(states@, transitions@, 0) is None,
                hook_error(transitions@, hooks@, 0) == hook_error(transitions@, hooks@, j as int),
            decreases hooks.len() - j,
        {
            let h = &hooks[j];
            proof {
                lemma_has_transition(transitions@, h.transition_id@);
            }
            if position_of_transition(&transitions, h.transition_id.as_str()).is_none() {
                return Err(ConfigError::UnknownHookTransition { hook: h.hook_id.clone(), transition: h.transition_id.clone() });
            }
            j = j + 1;
        }
        // No transition leaves a terminal state.
        let mut i: usize = 0;
        while i < transitions.len()
            invariant
                i <= transitions.len(),
                endpoint_error(states@, transitions@, 0) is None,
                hook_error(transitions@, hooks@, 0) is None,
                terminal_error(states@, transitions@, 0) == terminal_error(states@, transitions@, i as int),
            decreases transitions.len() - i,
        {
            let t = &transitions[i];
            match position_of_state(&states, t.from.as_str()) {
                Some(k) => {
                    proof {
                        lemma_first_match_from(states@, state_named(t.from@), 0);
                    }
                    if same_text(states[k].state_type.as_str(), "terminal") {
                        return Err(ConfigError::FromTerminal { transition: t.id.clone(), state: t.from.clone() });
                    }
                },
                None => {},
            }
            i = i + 1;
        }
        Ok(WorkflowConfig { name, dir, states, transitions, hooks, app_config })
    }
}

proof fn lemma_endpoint_error(states: Seq<StateDef>, ts: Seq<TransitionDef>, i: int)
    requires
        0 <= i,
    ensures
        endpoint_error(states, ts, i) is None <==> forall|k: int| i <= k < ts.len() ==>
            has_state(states, (#[trigger] ts[k]).from@) && has_state(states, ts[k].to@),
    decreases ts.len() - i,
{
    if i < ts.len() {
        lemma_endpoint_error(states, ts, i + 1);
    }
}

proof fn lemma_hook_error(ts: Seq<TransitionDef>, hooks: Seq<HookDef>, j: int)
    requires
        0 <= j,
    ensures
        hook_error(ts, hooks, j) is None <==> forall|k: int| j <= k < hooks.len() ==>
            has_transition(ts, (#[trigger] hooks[k]).transition_id@),
    decreases hooks.len() - j,
{
    if j < hooks.len() {
        lemma_hook_error(ts, hooks, j + 1);
    }
}

proof fn lemma_terminal_error(states: Seq<StateDef>, ts: Seq<TransitionDef>, i: int)
    requires
        0 <= i,
    ensures
        terminal_error(states, ts, i) is None <==> forall|k: int| i <= k < ts.len() ==>
            !is_terminal_state(states, (#[trigger] ts[k]).from@),
    decreases ts.len() - i,
{
    if i < ts.len() {
        lemma_terminal_error(states, ts, i + 1);
    }
}

proof fn lemma_config_error_iff_invalid(states: Seq<StateDef>, ts: Seq<TransitionDef>, hooks: Seq<HookDef>)
    ensures
        config_error(states, ts, hooks) is None <==> config_valid(states, ts, hooks),
{
    lemma_endpoint_error(states, ts, 0);
    lemma_hook_error(ts, hooks, 0);
    lemma_terminal_error(states, ts, 0);
}

} // verus!

verus! {

/// Whether a hook belongs to the transition `tid` and fires at `timing`.
pub open spec fn hook_for(tid: Seq<char>, timing: Seq<char>) -> spec_fn(HookDef) -> bool {
    |h: HookDef| h.transition_id@ == tid && h.timing@ == timing
}

/// Whether a hook has priority `p`.
pub open spec fn priority_is(p: u32) -> spec_fn(HookDef) -> bool {
    |h: HookDef| h.priority == p
}

/// Whether the hooks come in order of priority, lowest first.
pub open spec fn sorted_by_priority(s: Seq<HookDef>) -> bool {
    forall|a: int, b: int| 0 <= a < b < s.len() ==> (#[trigger] s[a]).priority <= (#[trigger] s[b]).priority
}

/// `s` is `m` sorted by priority, hooks of equal priority keeping the order
/// they have in `m` (a stable sort).
pub open spec fn stable_priority_order(s: Seq<HookDef>, m: Seq<HookDef>) -> bool {
    &&& sorted_by_priority(s)
    &&& forall|p: u32| #[trigger] s.filter(priority_is(p)) == m.filter(priority_is(p))
}

/// The hooks that `find_hooks` returns: those of `tid` at `timing`, sorted by
/// priority, hooks of equal priority in the order of `hooks`.
pub open spec fn hooks_in_order(s: Seq<HookDef>, hooks: Seq<HookDef>, tid: Seq<char>, timing: Seq<char>) -> bool {
    stable_priority_order(s, hooks.filter(hook_for(tid, timing)))
}

proof fn lemma_insert_in_order(r: Seq<HookDef>, k: int, e: HookDef)
    requires
        sorted_by_priority(r),
        0 <= k <= r.len(),
        forall|j: int| 0 <= j < k ==> (#[trigger] r[j]).priority <= e.priority,
        forall|j: int| k <= j < r.len() ==> (#[trigger] r[j]).priority > e.priority,
    ensures
        sorted_by_priority(r.insert(k, e)),
        forall|p: u32| #[trigger] r.insert(k, e).filter(priority_is(p)) == (if p == e.priority {
            r.filter(priority_is(p)).push(e)
        } else {
            r.filter(priority_is(p))
        }),
{
    broadcast use vstd::seq_lib::group_seq_properties;
    let a = r.take(k);
    let b = r.skip(k);
    let ri = r.insert(k, e);
    assert(ri =~= a + seq![e] + b);
    assert(r =~= a + b);
    assert forall|x: int, y: int| 0 <= x < y < ri.len() implies (#[trigger] ri[x]).priority <= (#[trigger] ri[y]).priority by {
        if y < k {
        } else if y == k {
        } else if x < k {
            assert(ri[y] == r[y - 1]);
        } else if x == k {
            assert(ri[y] == r[y - 1]);
        } else {
            assert(ri[x] == r[x - 1]);
            assert(ri[y] == r[y - 1]);
        }
    }
    assert forall|p: u32| #[trigger] ri.filter(priority_is(p)) == (if p == e.priority {
        r.filter(priority_is(p)).push(e)
    } else {
        r.filter(priority_is(p))
    }) by {
        let pr = priority_is(p);
        Seq::filter_distributes_over_add(a + seq![e], b, pr);
        Seq::filter_distributes_over_add(a, seq![e], pr);
        Seq::filter_distributes_over_add(a, b, pr);
        reveal(Seq::filter);
        assert(seq![e].drop_last() =~= Seq::<HookDef>::empty());
        if p == e.priority {
            assert forall|j: int| 0 <= j < b.len() implies !pr(#[trigger] b[j]) by {
                assert(b[j] == r[k + j]);
            }
            lemma_filter_none(b, pr);
            assert(seq![e].filter(pr) =~= seq![e]);
            assert(a.filter(pr) + seq![e] + b.filter(pr) =~= (a.filter(pr) + b.filter(pr)).push(e));
        } else {
            assert(seq![e].filter(pr) =~= Seq::<HookDef>::empty());
            assert(a.filter(pr) + seq![e].filter(pr) =~= a.filter(pr));
        }
    }
}

impl WorkflowConfig {
    /// The first state definition with the id `id`.
    pub fn find_state(&self, id: &str) -> (r: Option<&StateDef>)
        ensures
            match first_match_from(self.states@, state_named(id@), 0) {
                Some(k) => r == Some(&self.states@[k]),
                None => r is None,
            },
            r is Some <==> has_state(self.states@, id@),
    {
        proof {
            lemma_has_state(self.states@, id@);
            lemma_first_match_from(self.states@, state_named(id@), 0);
        }
        match position_of_state(&self.states, id) {
            Some(k) => Some(&self.states[k]),
            None => None,
        }
    }

    /// The first transition definition with the id `id`.
    pub fn find_transition(&self, id: &str) -> (r: Option<&TransitionDef>)
        ensures
            match first_match_from(self.transitions@, transition_named(id@), 0) {
                Some(k) => r == Some(&self.transitions@[k]),
                None => r is None,
            },
            r is Some <==> has_transition(self.transitions@, id@),
    {
        proof {
            lemma_has_transition(self.transitions@, id@);
            lemma_first_match_from(self.transitions@, transition_named(id@), 0);
        }
        match position_of_transition(&self.transitions, id) {
            Some(k) => Some(&self.transitions[k]),
            None => None,
        }
    }

    /// The transitions that leave the state `state_id`, in definition order.
    pub fn find_transitions_from(&self, state_id: &str) -> (r: Vec<&TransitionDef>)
        ensures
            r@.len() == self.transitions@.filter(transition_from(state_id@)).len(),
            forall|i: int| 0 <= i < r@.len() ==> *(#[trigger] r@[i]) == self.transitions@.filter(transition_from(state_id@))[i],
    {
        let ghost p = transition_from(state_id@);
        let ghost ts = self.transitions@;
        let mut r: Vec<&TransitionDef> = Vec::new();
        let mut i: usize = 0;
        while i < self.transitions.len()
            invariant
                i <= ts.len(),
                ts == self.transitions@,
                p == transition_from(state_id@),
                r@.len() == ts.take(i as int).filter(p).len(),
                forall|j: int| 0 <= j < r@.len() ==> *(#[trigger] r@[j]) == ts.take(i as int).filter(p)[j],
            decreases ts.len() - i,
        {
            proof {
                lemma_filter_take_step(ts, p, i as int);
            }
            let t = &self.transitions[i];
            if same_text(t.from.as_str(), state_id) {
                r.push(t);
            }
            i = i + 1;
        }
        assert(ts.take(ts.len() as int) =~= ts);
        r
    }

    /// The hooks of the transition `transition_id` that fire at `timing`,
    /// sorted by priority (lowest first); hooks of equal priority keep their
    /// order of definition.
    pub fn find_hooks(&self, transition_id: &str, timing: &str) -> (r: Vec<HookDef>)
        ensures
            hooks_in_order(r@, self.hooks@, transition_id@, timing@),
    {
        let ghost p = hook_for(transition_id@, timing@);
        let ghost hs = self.hooks@;
        // The hooks of this transition and timing, in definition order.
        let mut m: Vec<HookDef> = Vec::new();
        let mut i: usize = 0;
        while i < self.hooks.len()
            invariant
                i <= hs.len(),
                hs == self.hooks@,
                p == hook_for(transition_id@, timing@),
                m@ == hs.take(i as int).filter(p),
            decreases hs.len() - i,
        {
            proof {
                lemma_filter_take_step(hs, p, i as int);
            }
            let h = &self.hooks[i];
            if same_text(h.transition_id.as_str(), transition_id) && same_text(h.timing.as_str(), timing) {
                m.push(h.clone());
            }
            i = i + 1;
        }
        assert(hs.take(hs.len() as int) =~= hs);
        // Stable insertion sort by priority.
        let mut r: Vec<HookDef> = Vec::new();
        let mut i: usize = 0;
        while i < m.len()
            invariant
                i <= m@.len(),
                sorted_by_priority(r@),
                forall|q: u32| #[trigger] r@.filter(priority_is(q)) == m@.take(i as int).filter(priority_is(q)),
            decreases m@.len() - i,
        {
            let e = m[i].clone();
            let mut k: usize = 0;
            while k < r.len() && r[k].priority <= e.priority
                invariant
                    k <= r@.len(),
                    forall|j: int| 0 <= j < k ==> (#[trigger] r@[j]).priority <= e.priority,
                decreases r@.len() - k,
            {
                k = k + 1;
            }
            proof {
                assert forall|j: int| k <= j < r@.len() implies (#[trigger] r@[j]).priority > e.priority by {
                    assert(r@[k as int].priority > e.priority);
                    if j > k {
                        assert(r@[k as int].priority <= r@[j].priority);
                    }
                }
                lemma_insert_in_order(r@, k as int, e);
                assert forall|q: u32| #[trigger] m@.take(i + 1).filter(priority_is(q)) == (if q == e.priority {
                    m@.take(i as int).filter(priority_is(q)).push(e)
                } else {
                    m@.take(i as int).filter(priority_is(q))
                }) by {
                    lemma_filter_take_step(m@, priority_is(q), i as int);
                }
            }
            r.insert(k, e);
            proof {
                assert forall|q: u32| #[trigger] r@.filter(priority_is(q)) == m@.take(i + 1).filter(priority_is(q)) by {
                    assert(m@.take(i + 1).filter(priority_is(q)) == (if q == e.priority {
                        m@.take(i as int).filter(priority_is(q)).push(e)
                    } else {
                        m@.take(i as int).filter(priority_is(q))
                    }));
                }
            }
            i = i + 1;
        }
        assert(m@.take(m@.len() as int) =~= m@);
        r
    }
}

/// The per-minute limit of the rate limiter when the settings give none.
pub open spec fn default_max_per_minute() -> u32 {
    5
}

/// The loop threshold when the settings give none.
pub open spec fn default_loopback_threshold() -> usize {
    3
}

/// The chat that Telegram notices go to when the settings name no user.
pub open spec fn default_alert_chat() -> Seq<char> {
    "1047918071"@
}

impl AppConfig {
    /// The per-minute limit of the rate limiter: the settings' public limit,
    /// else five.
    pub fn max_per_minute(&self) -> (n: u32)
        ensures
            n == match self.rate_limiter {
                Some(r) => match r.max_public_per_minute {
                    Some(m) => m,
                    None => default_max_per_minute(),
                },
                None => default_max_per_minute(),
            },
    {
        match &self.rate_limiter {
            Some(r) => match r.max_public_per_minute {
                Some(m) => m,
                None => 5,
            },
            None => 5,
        }
    }

    /// The number of repeats that counts as a loop: the settings' threshold,
    /// else three.
    pub fn loopback_threshold(&self) -> (n: usize)
        ensures
            n == match self.rate_limiter {
                Some(r) => match r.loopback_threshold {
                    Some(t) => t,
                    None => default_loopback_threshold(),
                },
                None => default_loopback_threshold(),
            },
    {
        match &self.rate_limiter {
            Some(r) => match r.loopback_threshold {
                Some(t) => t,
                None => 3,
            },
            None => 3,
        }
    }

    /// The chat that Telegram notices go to: the Telegram id of the user
    /// named in the settings, else a fixed chat.
    pub fn alert_chat_id(&self) -> (s: String)
        ensures
            s@ == match self.anarea {
                Some(u) => match u.telegram_user_id {
                    Some(id) => signed_decimal(id as int),
                    None => default_alert_chat(),
                },
                None => default_alert_chat(),
            },
    {
        match &self.anarea {
            Some(u) => match u.telegram_user_id {
                Some(id) => to_signed_decimal(id),
                None => String::from_str("1047918071"),
            },
            None => String::from_str("1047918071"),
        }
    }
}

} // verus!
