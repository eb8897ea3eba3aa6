//! Rate limiting per object: an object may take at most so many moves per
//! minute; past that, its moves are frozen.

use vstd::prelude::*;
use vstd::hash_map::StringHashMap;
use std::time::{Duration, Instant};
use crate::json::{json_u64_field, payload_u64};
use crate::registry::{ActionContext, HookSignal};
use crate::text::{decimal, to_decimal};
use crate::actions::loopback::object_key;

verus! {

#[verifier::external_type_specification]
#[verifier::external_body]
pub struct ExInstant(Instant);

/// `Instant::now` reads the monotonic clock. The reading rests on the
/// machine's clock: nothing is stated of it.
pub assume_specification[ Instant::now ]() -> Instant;

/// `Instant::duration_since` gives the time from `earlier` to `this` (zero
/// when `earlier` is the later one); it does not panic. The library sees
/// instants only as opaque values: nothing is stated of the result, a clock
/// reading.
pub assume_specification[ Instant::duration_since ](this: &Instant, earlier: Instant) -> Duration;

/// `Duration::as_nanos` gives the whole length of the duration in
/// nanoseconds. The library sees durations only as opaque values: nothing is
/// stated of the result.
pub assume_specification[ Duration::as_nanos ](d: &Duration) -> u128;

/// The length of a counting window: one minute, in nanoseconds.
pub open spec fn window_nanos() -> u128 {
    60_000_000_000u128
}

/// The limit that applies to a move: the payload's `max_per_minute` (cut to
/// its low 32 bits) when it has one, else the action's own.
pub open spec fn per_minute_limit(default: u32, payload: Seq<char>) -> u32 {
    match json_u64_field(payload, "max_per_minute"@) {
        Some(v) => v as u32,
        None => default,
    }
}

/// The reason given when an object exceeds its limit.
pub open spec fn limit_reason(key: Seq<char>, count: u32, limit: u32) -> Seq<char> {
    key + " triggered "@ + decimal(count as nat) + " times in < 1 min (limit: "@ + decimal(limit as nat) + ")"@
}

/// The count after a move and the answer to it: a window older than a minute
/// starts again with this move; otherwise a count at the limit freezes the
/// move, and a count under it counts the move.
pub open spec fn rate_step(key: Seq<char>, count: u32, elapsed_nanos: u128, limit: u32) -> (u32, Option<Seq<char>>) {
    if elapsed_nanos > window_nanos() {
        (1, None)
    } else if count >= limit {
        (count, Some(limit_reason(key, count, limit)))
    } else {
        ((count + 1) as u32, None)
    }
}

/// The count after a move and the answer to it, for an object that has
/// counted `count` moves in a window that started `elapsed_nanos` ago: see
/// `rate_step`. A `Freeze` carries the reason.
pub fn count_move(key: &str, count: u32, elapsed_nanos: u128, limit: u32) -> (r: (u32, HookSignal))
    ensures
        r.0 == rate_step(key@, count, elapsed_nanos, limit).0,
        match rate_step(key@, count, elapsed_nanos, limit).1 {
            Some(reason) => r.1 matches HookSignal::Freeze { reason: x } && x@ == reason,
            None => r.1 == HookSignal::Continue,
        },
{
    if elapsed_nanos > 60_000_000_000u128 {
        (1, HookSignal::Continue)
    } else if count >= limit {
        let mut reason = String::from_str(key);
        reason.append(" triggered ");
        let c = to_decimal(count as u64);
        reason.append(c.as_str());
        reason.append(" times in < 1 min (limit: ");
        let l = to_decimal(limit as u64);
        reason.append(l.as_str());
        reason.append(")");
        (count, HookSignal::Freeze { reason })
    } else {
        (count + 1, HookSignal::Continue)
    }
}

/// The window of an object after a move at the clock reading `now`, and the
/// answer to the move (a `Freeze` reason, or none for `Continue`). An object
/// seen for the first time has counted nothing in a window that starts now.
/// The window's age is `now` less its start (zero if the reading is earlier);
/// a window older than a minute starts again at `now`, otherwise it keeps its
/// start, and the count follows `rate_step`.
pub open spec fn window_after(
    before: Option<(u32, u128)>,
    now: u128,
    key: Seq<char>,
    limit: u32,
) -> ((u32, u128), Option<Seq<char>>) {
    let (counted, start) = match before {
        Some(w) => w,
        None => (0u32, now),
    };
    let elapsed: u128 = if now >= start { (now - start) as u128 } else { 0 };
    let step = rate_step(key, counted, elapsed, limit);
    let new_start = if elapsed > window_nanos() { now } else { start };
    ((step.0, new_start), step.1)
}

/// The move of `ctx` at the clock reading `now` took the object's window
/// from `before` to `after`, with the answer `r`, as `window_after` says.
pub open spec fn moved_at(
    before: Option<(u32, u128)>,
    after: Option<(u32, u128)>,
    r: HookSignal,
    key: Seq<char>,
    limit: u32,
    now: u128,
) -> bool {
    let (w, reason) = window_after(before, now, key, limit);
    &&& after == Some(w)
    &&& match reason {
        Some(text) => r matches HookSignal::Freeze { reason: x } && x@ == text,
        None => r == HookSignal::Continue,
    }
}

/// Counts the moves of each object in one-minute windows. Clock readings are
/// nanoseconds since the action was made.
pub struct RateLimitAction {
    state: StringHashMap<(u32, u128)>,
    pub max_per_minute: u32,
    origin: Instant,
}

impl RateLimitAction {
    /// The limit per minute for moves whose payload sets none.
    pub closed spec fn per_minute(&self) -> u32 {
        self.max_per_minute
    }

    /// The number of moves counted in the current window of the object with
    /// key `key`, if it has a window.
    pub closed spec fn count_of(&self, key: Seq<char>) -> Option<u32> {
        if self.state@.contains_key(key) {
            Some(self.state@[key].0)
        } else {
            None
        }
    }

    /// The current window of the object with key `key`, if it has one: the
    /// moves counted in it and the clock reading it started at.
    pub closed spec fn window(&self, key: Seq<char>) -> Option<(u32, u128)> {
        if self.state@.contains_key(key) {
            Some(self.state@[key])
        } else {
            None
        }
    }

    /// An action that has counted nothing yet; its clock starts now.
    pub fn new(max_per_minute: u32) -> (r: Self)
        ensures
            r.per_minute() == max_per_minute,
            forall|k: Seq<char>| #[trigger] r.count_of(k) is None,
            forall|k: Seq<char>| #[trigger] r.window(k) is None,
    {
        RateLimitAction { state: StringHashMap::new(), max_per_minute, origin: Instant::now() }
    }

    /// The name the action is registered under.
    pub fn name(&self) -> (s: &'static str)
        ensures
            s@ == "rate_limit"@,
    {
        "rate_limit"
    }

    /// Counts the move of `ctx` at the current clock reading (see
    /// `handle_at`): whatever the reading, the move is counted as
    /// `window_after` says for it.
    pub fn handle(&mut self, ctx: &ActionContext) -> (r: HookSignal)
        ensures
            exists|now: u128| #[trigger] moved_at(
                old(self).window(object_key(*ctx)),
                final(self).window(object_key(*ctx)),
                r,
                object_key(*ctx),
                per_minute_limit(old(self).per_minute(), ctx.payload@),
                now,
            ),
            forall|k: Seq<char>| k != object_key(*ctx) ==> #[trigger] final(self).window(k) == old(self).window(k),
            forall|k: Seq<char>| #[trigger] final(self).count_of(k) == match final(self).window(k) {
                Some(w) => Some(w.0),
                None => None,
            },
            final(self).per_minute() == old(self).per_minute(),
    {
        let now = Instant::now().duration_since(self.origin).as_nanos();
        self.handle_at(ctx, now)
    }

    /// Counts the move of `ctx` for its object at the clock reading
    /// `now_nanos`: an object seen for the first time starts a window at
    /// `now_nanos`; a window older than a minute starts again there with
    /// this move; otherwise the window keeps its start, and the move is let
    /// through while the object is under its limit and frozen once it is at
    /// it (see `window_after`).
    pub fn handle_at(&mut self, ctx: &ActionContext, now_nanos: u128) -> (r: HookSignal)
        ensures
            moved_at(
                old(self).window(object_key(*ctx)),
                final(self).window(object_key(*ctx)),
                r,
                object_key(*ctx),
                per_minute_limit(old(self).per_minute(), ctx.payload@),
                now_nanos,
            ),
            forall|k: Seq<char>| k != object_key(*ctx) ==> #[trigger] final(self).window(k) == old(self).window(k),
            forall|k: Seq<char>| #[trigger] final(self).count_of(k) == match final(self).window(k) {
                Some(w) => Some(w.0),
                None => None,
            },
            final(self).per_minute() == old(self).per_minute(),
    {
        let limit: u32 = match payload_u64(ctx.payload.as_str(), "max_per_minute") {
            Some(v) => #[verifier::truncate] (v as u32),
            None => self.max_per_minute,
        };
        let mut key = ctx.workflow_id.clone();
        key.append(":");
        key.append(ctx.object_id.as_str());
        assert(key@ == object_key(*ctx));
        let (count, start) = match self.state.get(key.as_str()) {
            Some(e) => *e,
            None => (0u32, now_nanos),
        };
        let elapsed: u128 = if now_nanos >= start { now_nanos - start } else { 0 };
        let (next, signal) = count_move(key.as_str(), count, elapsed, limit);
        let window_start = if elapsed > 60_000_000_000u128 { now_nanos } else { start };
        self.state.insert(key, (next, window_start));
        signal
    }
}

} // verus!
