//! The payload a hook fires with when the transition carries a runtime
//! payload: the members of the runtime JSON object merged into those of the
//! hook's own payload.

use vstd::prelude::*;
use crate::json::{json_object_members, json_string_text, pair_texts, payload_members, string_text};
use crate::seqs::first_match_from;
use crate::text::same_text;

verus! {

/// A member of a JSON object: its key and the JSON text of its value.
pub type Member = (Seq<char>, Seq<char>);

/// Whether a member has the key `k`.
pub open spec fn has_key(k: Seq<char>) -> spec_fn(Member) -> bool {
    |m: Member| m.0 == k
}

/// The members `s` with `m` set: it replaces the first member with its key,
/// or comes last when there is none.
pub open spec fn put_member(s: Seq<Member>, m: Member) -> Seq<Member> {
    match first_match_from(s, has_key(m.0), 0) {
        Some(i) => s.update(i, m),
        None => s.push(m),
    }
}

/// The members `h` with each of `r` set in turn: the members of `r` win
/// over those of `h` with the same key.
pub open spec fn merge_members(h: Seq<Member>, r: Seq<Member>) -> Seq<Member>
    decreases r.len(),
{
    if r.len() == 0 {
        h
    } else {
        put_member(merge_members(h, r.drop_last()), r.last())
    }
}

/// The JSON text of a member: its quoted key, a colon, its value.
pub open spec fn member_text(m: Member) -> Seq<char> {
    json_string_text(m.0) + ":"@ + m.1
}

/// The JSON texts of the members, separated by commas.
pub open spec fn members_text(s: Seq<Member>) -> Seq<char>
    decreases s.len(),
{
    if s.len() == 0 {
        Seq::empty()
    } else if s.len() == 1 {
        member_text(s[0])
    } else {
        members_text(s.drop_last()) + ","@ + member_text(s.last())
    }
}

/// The JSON text of an object with the members `s`, in order.
pub open spec fn object_text(s: Seq<Member>) -> Seq<char> {
    "{"@ + members_text(s) + "}"@
}

/// The payload a hook with the payload `hook` fires with under the runtime
/// payload `runtime`: when the runtime payload is a JSON object with members,
/// the object of the hook's members (none if its payload is not an object)
/// with the runtime members merged in; otherwise the hook's payload as is.
pub open spec fn merged_payload(hook: Seq<char>, runtime: Seq<char>) -> Seq<char> {
    match json_object_members(runtime) {
        Some(r) => if r.len() == 0 {
            hook
        } else {
            let h = match json_object_members(hook) {
                Some(h) => h,
                None => Seq::empty(),
            };
            object_text(merge_members(h, r))
        },
        None => hook,
    }
}

fn set_member(s: &mut Vec<(String, String)>, k: String, v: String)
    ensures
        pair_texts(final(s)@) == put_member(pair_texts(old(s)@), (k@, v@)),
{
    let ghost p = has_key(k@);
    let ghost s0 = pair_texts(s@);
    let mut i: usize = 0;
    while i < s.len()
        invariant
            i <= s.len(),
            s0 == pair_texts(s@),
            s@ == old(s)@,
            p == has_key(k@),
            first_match_from(s0, p, 0) == first_match_from(s0, p, i as int),
        decreases s.len() - i,
    {
        if same_text(s[i].0.as_str(), k.as_str()) {
            assert(first_match_from(s0, p, i as int) == Some(i as int));
            s.set(i, (k, v));
            assert(pair_texts(s@) =~= s0.update(i as int, (k@, v@)));
            return;
        }
        i = i + 1;
    }
    s.push((k, v));
    assert(pair_texts(s@) =~= s0.push((k@, v@)));
}

fn merged_members(h: Vec<(String, String)>, r: &Vec<(String, String)>) -> (m: Vec<(String, String)>)
    ensures
        pair_texts(m@) == merge_members(pair_texts(h@), pair_texts(r@)),
{
    let ghost ph = pair_texts(h@);
    let ghost pr = pair_texts(r@);
    let mut acc = h;
    let mut j: usize = 0;
    while j < r.len()
        invariant
            j <= r.len(),
            pr == pair_texts(r@),
            pair_texts(acc@) == merge_members(ph, pr.take(j as int)),
        decreases r.len() - j,
    {
        assert(pr.take(j + 1).drop_last() =~= pr.take(j as int));
        let k = r[j].0.clone();
        let v = r[j].1.clone();
        set_member(&mut acc, k, v);
        j = j + 1;
    }
    assert(pr.take(r.len() as int) =~= pr);
    acc
}

fn render(s: &Vec<(String, String)>) -> (t: String)
    ensures
        t@ == object_text(pair_texts(s@)),
{
    let ghost ps = pair_texts(s@);
    let mut t = String::from_str("{");
    let mut j: usize = 0;
    while j < s.len()
        invariant
            j <= s.len(),
            ps == pair_texts(s@),
            t@ == "{"@ + members_text(ps.take(j as int)),
        decreases s.len() - j,
    {
        let ghost before = t@;
        assert(ps.take(j + 1).drop_last() =~= ps.take(j as int));
        if j > 0 {
            t.append(",");
        }
        let key = string_text(s[j].0.as_str());
        t.append(key.as_str());
        t.append(":");
        t.append(s[j].1.as_str());
        proof {
            let m = ps[j as int];
            if j == 0 {
                assert(ps.take(1)[0] == m);
                assert(t@ =~= "{"@ + member_text(m));
            } else {
                assert(t@ =~= before + ","@ + member_text(m));
            }
        }
        j = j + 1;
    }
    assert(ps.take(s.len() as int) =~= ps);
    t.append("}");
    t
}

/// The payload a hook with the payload `hook` fires with under the runtime
/// payload `runtime` (see `merged_payload`).
pub fn merge_payload(hook: &str, runtime: &str) -> (p: String)
    ensures
        p@ == merged_payload(hook@, runtime@),
{
    match payload_members(runtime) {
        Some(r) => {
            if r.len() == 0 {
                return String::from_str(hook);
            }
            let h = match payload_members(hook) {
                Some(h) => h,
                None => Vec::new(),
            };
            assert(pair_texts(h@) == match json_object_members(hook@) {
                Some(x) => x,
                None => Seq::<Member>::empty(),
            }) by {
                if json_object_members(hook@) is None {
                    assert(pair_texts(h@) =~= Seq::<Member>::empty());
                }
            };
            let m = merged_members(h, &r);
            render(&m)
        },
        None => String::from_str(hook),
    }
}

} // verus!

verus! {

/// Whether no two members of `s` have the same key (as in a JSON object
/// parsed by `serde_json`).
pub open spec fn distinct_keys(s: Seq<Member>) -> bool {
    forall|i: int, j: int| 0 <= i < j < s.len() ==> s[i].0 != s[j].0
}

proof fn lemma_put_member(s: Seq<Member>, m: Member)
    ensures
        exists|f: int| 0 <= f < put_member(s, m).len() && #[trigger] put_member(s, m)[f] == m,
        forall|i: int| 0 <= i < s.len() && s[i].0 != m.0 ==> #[trigger] put_member(s, m)[i] == s[i],
        forall|i: int| 0 <= i < s.len() ==> #[trigger] put_member(s, m)[i].0 == s[i].0,
        put_member(s, m).len() >= s.len(),
{
    crate::seqs::lemma_first_match_from(s, has_key(m.0), 0);
    match first_match_from(s, has_key(m.0), 0) {
        Some(f) => {
            assert(put_member(s, m)[f] == m);
        },
        None => {
            assert(put_member(s, m)[s.len() as int] == m);
        },
    }
}

/// Merging a runtime object into a hook's: every member of the runtime
/// object is in the result as it is, and every key of the hook's object is
/// still there (with the runtime's value when both have it).
pub proof fn runtime_members_win(h: Seq<Member>, r: Seq<Member>)
    requires
        distinct_keys(r),
    ensures
        forall|i: int| #![trigger r[i]] 0 <= i < r.len() ==> exists|f: int| 0 <= f < merge_members(h, r).len()
            && #[trigger] merge_members(h, r)[f] == r[i],
        forall|i: int| 0 <= i < h.len() ==> #[trigger] merge_members(h, r)[i].0 == h[i].0,
        merge_members(h, r).len() >= h.len(),
    decreases r.len(),
{
    if r.len() > 0 {
        let q = r.drop_last();
        let m = r.last();
        assert forall|i: int, j: int| 0 <= i < j < q.len() implies q[i].0 != q[j].0 by {
            assert(q[i] == r[i] && q[j] == r[j]);
        }
        runtime_members_win(h, q);
        let s = merge_members(h, q);
        lemma_put_member(s, m);
        assert(merge_members(h, r) == put_member(s, m));
        assert forall|i: int| #![trigger r[i]] 0 <= i < r.len() implies exists|f: int| 0 <= f < merge_members(h, r).len()
            && #[trigger] merge_members(h, r)[f] == r[i] by {
            if i < r.len() - 1 {
                assert(q[i] == r[i]);
                let f = choose|f: int| 0 <= f < s.len() && #[trigger] s[f] == q[i];
                assert(r[i].0 != m.0);
                assert(merge_members(h, r)[f] == r[i]);
            } else {
                let f = choose|f: int| 0 <= f < put_member(s, m).len() && #[trigger] put_member(s, m)[f] == m;
                assert(merge_members(h, r)[f] == r[i]);
            }
        }
    }
}

} // verus!
