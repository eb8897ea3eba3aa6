//! What an action receives when a hook fires, and what it answers.

use vstd::prelude::*;
use crate::seqs::first_match_from;

verus! {

/// The answer of an action to a hook. The engine maps `Freeze` and `Abort`
/// through the hook's signal table, each signal through the entry of its own
/// name.
#[derive(Debug, PartialEq, Eq)]
pub enum HookSignal {
    Continue,
    Freeze { reason: String },
    Abort { reason: String },
}

impl Clone for HookSignal {
    fn clone(&self) -> (r: Self)
        ensures
            r == *self,
    {
        match self {
            HookSignal::Continue => HookSignal::Continue,
            HookSignal::Freeze { reason } => HookSignal::Freeze { reason: reason.clone() },
            HookSignal::Abort { reason } => HookSignal::Abort { reason: reason.clone() },
        }
    }
}

/// What an action is handed when a hook fires: the object, its workflow,
/// the states of the transition, and the hook's JSON payload (as text).
pub struct ActionContext {
    pub object_id: String,
    pub workflow_id: String,
    pub current_state: String,
    pub target_state: String,
    pub transition_id: String,
    pub payload: String,
}

/// An action carried out by an external script, run by `interpreter`.
pub struct ScriptWrapper {
    pub name: String,
    pub script_path: String,
    pub interpreter: String,
    pub timeout_seconds: u64,
}

/// The script that would carry out the action `name`, with the file
/// extension `ext` (dot included), in the directory `dir`: the file name
/// joined onto the directory as `Path::join` does.
pub open spec fn script_path_for(dir: Seq<char>, name: Seq<char>, ext: Seq<char>) -> Seq<char> {
    crate::paths::path_joined(dir, name + ext)
}

/// Whether a flag is set.
pub open spec fn is_set() -> spec_fn(bool) -> bool {
    |b: bool| b
}

/// The error for an action that is neither registered nor a script.
pub open spec fn missing_action_message(name: Seq<char>) -> Seq<char> {
    "Action '"@ + name + "' introuvable dans le registre et les wrappers"@
}

impl ScriptWrapper {
    /// The scripts that may carry out the action `action_name`, in the order
    /// they are tried: a Python script run by `python3`, then a shell script
    /// run by `bash`, each with a timeout of 60 seconds.
    pub fn candidates(wrappers_dir: &str, action_name: &str) -> (r: Vec<ScriptWrapper>)
        ensures
            r@.len() == 2,
            r@[0].name@ == action_name@,
            r@[0].script_path@ == script_path_for(wrappers_dir@, action_name@, ".py"@),
            r@[0].interpreter@ == "python3"@,
            r@[0].timeout_seconds == 60,
            r@[1].name@ == action_name@,
            r@[1].script_path@ == script_path_for(wrappers_dir@, action_name@, ".sh"@),
            r@[1].interpreter@ == "bash"@,
            r@[1].timeout_seconds == 60,
    {
        let mut py_file = String::from_str(action_name);
        py_file.append(".py");
        let py = crate::paths::join(wrappers_dir, py_file.as_str());
        let mut sh_file = String::from_str(action_name);
        sh_file.append(".sh");
        let sh = crate::paths::join(wrappers_dir, sh_file.as_str());
        let mut r: Vec<ScriptWrapper> = Vec::new();
        r.push(ScriptWrapper {
            name: String::from_str(action_name),
            script_path: py,
            interpreter: String::from_str("python3"),
            timeout_seconds: 60,
        });
        r.push(ScriptWrapper {
            name: String::from_str(action_name),
            script_path: sh,
            interpreter: String::from_str("bash"),
            timeout_seconds: 60,
        });
        r
    }

    /// The script that carries out an action: the first of `candidates`
    /// whose file is there (`present` tells, candidate by candidate), if any.
    pub fn first_present(candidates: Vec<ScriptWrapper>, present: &Vec<bool>) -> (r: Option<ScriptWrapper>)
        requires
            candidates.len() == present.len(),
        ensures
            match first_match_from(present@, is_set(), 0) {
                Some(k) => r == Some(candidates@[k]),
                None => r is None,
            },
    {
        let ghost p = is_set();
        let ghost c0 = candidates@;
        let mut pool = candidates;
        let mut i: usize = 0;
        while i < present.len()
            invariant
                i <= present.len(),
                pool.len() == present.len(),
                pool@ == c0,
                c0 == candidates@,
                p == is_set(),
                first_match_from(present@, p, 0) == first_match_from(present@, p, i as int),
            decreases present.len() - i,
        {
            if present[i] {
                assert(first_match_from(present@, p, i as int) == Some(i as int));
                return Some(pool.remove(i));
            }
            i = i + 1;
        }
        None
    }

    /// The error for an action that is neither registered nor a script.
    pub fn missing_action(action_name: &str) -> (m: String)
        ensures
            m@ == missing_action_message(action_name@),
    {
        let mut m = String::from_str("Action '");
        m.append(action_name);
        m.append("' introuvable dans le registre et les wrappers");
        m
    }
}

} // verus!
