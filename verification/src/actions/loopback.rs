//! Detection of loops: an object that keeps taking the same move between two
//! states is stopped.

use vstd::prelude::*;
use vstd::hash_map::StringHashMap;
use crate::config::copy_strings;
use crate::json::{json_u64_field, payload_u64};
use crate::registry::{ActionContext, HookSignal};
use crate::text::{decimal, to_decimal};

verus! {

/// The texts of a sequence of strings.
pub open spec fn texts(s: Seq<String>) -> Seq<Seq<char>> {
    s.map_values(|x: String| x@)
}

/// The key under which an object's history is kept: `workflow:object`.
pub open spec fn object_key(ctx: ActionContext) -> Seq<char> {
    ctx.workflow_id@ + ":"@ + ctx.object_id@
}

/// The move an action is fired for: `from→to`.
pub open spec fn transition_pattern(ctx: ActionContext) -> Seq<char> {
    ctx.current_state@ + "\u{2192}"@ + ctx.target_state@
}

/// The number of repeats that counts as a loop: the payload's `threshold`
/// when it has one, else the detector's own.
pub open spec fn loop_threshold(default: usize, payload: Seq<char>) -> nat {
    match json_u64_field(payload, "threshold"@) {
        Some(v) => (v as usize) as nat,
        None => default as nat,
    }
}

/// The history after recording `p`: only the last `3 * t` moves are kept.
pub open spec fn kept_history(h: Seq<Seq<char>>, p: Seq<char>, t: nat) -> Seq<Seq<char>> {
    let h1 = h.push(p);
    if h1.len() > 3 * t {
        h1.skip(h1.len() - 3 * t)
    } else {
        h1
    }
}

/// Whether the last `t` moves of `h` (and there are at least `t`) are all `p`.
pub open spec fn repeated(h: Seq<Seq<char>>, p: Seq<char>, t: nat) -> bool {
    &&& h.len() >= t
    &&& forall|i: int| h.len() - t <= i < h.len() ==> h[i] == p
}

/// The reason given when a loop is found.
pub open spec fn loop_reason(p: Seq<char>, t: nat) -> Seq<char> {
    "Loopback d\u{e9}tect\u{e9} : "@ + p + " \u{2192} r\u{e9}p\u{e9}t\u{e9} "@ + decimal(t) + " fois"@
}

/// Counts, per object, the recent moves it took, and stops an object whose
/// last `threshold` moves are all the same.
pub struct LoopbackDetector {
    pub state: StringHashMap<Vec<String>>,
    pub threshold: usize,
    pub window_minutes: u64,
}

impl LoopbackDetector {
    /// The recent moves recorded for the object with key `key`, oldest first.
    pub closed spec fn history(&self, key: Seq<char>) -> Seq<Seq<char>> {
        if self.state@.contains_key(key) {
            texts(self.state@[key]@)
        } else {
            Seq::empty()
        }
    }

    /// A detector with no history.
    pub fn new(threshold: usize) -> (r: Self)
        ensures
            r.threshold == threshold,
            r.window_minutes == 60,
            forall|k: Seq<char>| #[trigger] r.history(k) == Seq::<Seq<char>>::empty(),
    {
        LoopbackDetector { state: StringHashMap::new(), threshold, window_minutes: 60 }
    }

    /// The name the action is registered under.
    pub fn name(&self) -> (s: &'static str)
        ensures
            s@ == "detect_loopback"@,
    {
        "detect_loopback"
    }

    /// Records the move of `ctx` in the object's history (keeping the last
    /// `3 * threshold` moves) and aborts when the last `threshold` moves are
    /// all this one.
    pub fn handle(&mut self, ctx: &ActionContext) -> (r: HookSignal)
        ensures
            ({
                let key = object_key(*ctx);
                let p = transition_pattern(*ctx);
                let t = loop_threshold(old(self).threshold, ctx.payload@);
                let h = kept_history(old(self).history(key), p, t);
                &&& final(self).history(key) == h
                &&& match r {
                    HookSignal::Abort { reason } => repeated(h, p, t) && reason@ == loop_reason(p, t),
                    HookSignal::Continue => !repeated(h, p, t),
                    HookSignal::Freeze { .. } => false,
                }
            }),
            forall|k: Seq<char>| k != object_key(*ctx) ==> #[trigger] final(self).history(k) == old(self).history(k),
            final(self).threshold == old(self).threshold,
            final(self).window_minutes == old(self).window_minutes,
    {
        let t: usize = match payload_u64(ctx.payload.as_str(), "threshold") {
            Some(v) => #[verifier::truncate] (v as usize),
            None => self.threshold,
        };
        let mut key = ctx.workflow_id.clone();
        key.append(":");
        key.append(ctx.object_id.as_str());
        let mut pattern = ctx.current_state.clone();
        pattern.append("\u{2192}");
        pattern.append(ctx.target_state.as_str());
        let ghost h0 = self.history(key@);
        let mut entry: Vec<String> = match self.state.get(key.as_str()) {
            Some(v) => copy_strings(v),
            None => Vec::new(),
        };
        assert(texts(entry@) == h0);
        entry.push(pattern.clone());
        assert(texts(entry@) =~= h0.push(pattern@));
        let ghost h1 = h0.push(pattern@);
        let ghost h = kept_history(h0, pattern@, t as nat);
        // Keep only the last 3 * t moves.
        let n0: usize = entry.len();
        if t <= usize::MAX / 3 && n0 > t * 3 {
            let start: usize = entry.len() - t * 3;
            let mut kept: Vec<String> = Vec::new();
            let mut i: usize = start;
            while i < entry.len()
                invariant
                    start <= i <= entry.len(),
                    kept@ =~= entry@.subrange(start as int, i as int),
                decreases entry.len() - i,
            {
                kept.push(entry[i].clone());
                i = i + 1;
            }
            assert(texts(kept@) =~= texts(entry@).skip(start as int));
            assert(h1.len() == entry@.len());
            entry = kept;
            assert(texts(entry@) =~= h);
        } else {
            assert(h1.len() == entry@.len());
            assert(texts(entry@) =~= h);
        }
        // Are the last t moves all this one?
        let len = entry.len();
        let mut all_same = len >= t;
        if all_same {
            let mut i: usize = len - t;
            while i < len
                invariant
                    len == entry.len(),
                    len - t <= i <= len,
                    texts(entry@) == h,
                    h.len() == len,
                    all_same ==> forall|j: int| len - t <= j < i ==> h[j] == pattern@,
                    !all_same ==> !repeated(h, pattern@, t as nat),
                decreases len - i,
            {
                if !(entry[i] == pattern) {
                    assert(h[i as int] == entry@[i as int]@);
                    all_same = false;
                }
                i = i + 1;
            }
        }
        self.state.insert(key, entry);
        if all_same {
            let mut reason = String::from_str("Loopback d\u{e9}tect\u{e9} : ");
            reason.append(pattern.as_str());
            reason.append(" \u{2192} r\u{e9}p\u{e9}t\u{e9} ");
            let n = to_decimal(t as u64);
            reason.append(n.as_str());
            reason.append(" fois");
            HookSignal::Abort { reason }
        } else {
            HookSignal::Continue
        }
    }
}

} // verus!
