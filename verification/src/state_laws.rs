//! Laws of the state aggregator, stated over the abstract state that
//! [`crate::state::PetState::apply_at`] and
//! [`crate::state::PetState::build_snapshot`] are specified with.

use vstd::prelude::*;

use crate::json::{str_member, Json};
use crate::keyed::{
    find_key, has_key, keys_unique, lemma_find_key, lemma_find_key_unique, lemma_remove_key,
    lemma_upsert_key,
    lookup_key, remove_key, upsert_key,
};
use crate::state::{
    ak, dk, done_refs, frame_running, join_lines, numbered_lines, frame_type, host_step, is_running, item_ids, mux_step, poll_item,
    poll_items, poll_step, qk, or_empty, first_question, running_refs, sk, snapshot_of, state_wf, tick_step, fresh,
    PetStateV, DONE_WINDOW_MS, PENDING_TTL_MS,
};
use crate::strings::dec;
use crate::types::{ApprovalV, DoneEntryV, DoneRefV, Mode, QuestionV, SessionItem, SessionV};

verus! {

broadcast use vstd::seq_lib::group_filter_ensures;

/// Some session of `s` is running.
pub open spec fn any_running(s: PetStateV) -> bool {
    exists|i: int| 0 <= i < s.sessions.len() && #[trigger] s.sessions[i].running
}

/// The number of pending approvals and questions.
pub open spec fn pending_count(s: PetStateV) -> nat {
    s.approvals.len() + s.questions.len()
}

proof fn lemma_running_refs_nonempty(s: PetStateV)
    ensures
        (running_refs(s).len() > 0) == any_running(s),
{
    let f = s.sessions.filter(is_running());
    if any_running(s) {
        let i = choose|i: int| 0 <= i < s.sessions.len() && #[trigger] s.sessions[i].running;
        assert(is_running()(s.sessions[i]));
        assert(f.contains(s.sessions[i]));
    }
    if f.len() > 0 {
        assert(is_running()(f[0]));
        assert(f.contains(f[0]));
        s.sessions.lemma_filter_contains_rev(is_running(), f[0]);
        let i = choose|i: int| 0 <= i < s.sessions.len() && s.sessions[i] == f[0];
        assert(s.sessions[i].running);
    }
}

/// The snapshot's mode follows the priority offline > attention > working >
/// done > idle: offline exactly when DSH is not reachable; attention when it
/// is and an approval or question is pending; working when nothing is pending
/// and a session runs; done when nothing runs and a finished session waits to
/// be seen; idle otherwise. The attention list holds one entry per pending
/// approval and question.
pub proof fn law_mode_priority(s: PetStateV)
    ensures
        (snapshot_of(s).mode == Mode::Offline) == !s.connected,
        (snapshot_of(s).mode == Mode::Attention) == (s.connected && pending_count(s) > 0),
        (snapshot_of(s).mode == Mode::Working) == (s.connected && pending_count(s) == 0
            && any_running(s)),
        (snapshot_of(s).mode == Mode::Done) == (s.connected && pending_count(s) == 0
            && !any_running(s) && s.done.len() > 0),
        (snapshot_of(s).mode == Mode::Idle) == (s.connected && pending_count(s) == 0
            && !any_running(s) && s.done.len() == 0),
        snapshot_of(s).attention.len() == pending_count(s),
        snapshot_of(s).done.len() == s.done.len(),
{
    lemma_running_refs_nonempty(s);
}

/// The snapshot does not depend on the mode last recorded: building it again
/// after [`crate::state::PetState::build_snapshot`] recorded its mode gives
/// the same snapshot.
pub proof fn law_snapshot_ignores_mode(s: PetStateV, m: Mode)
    ensures
        snapshot_of(PetStateV { mode: m, ..s }) == snapshot_of(s),
{
    let t = PetStateV { mode: m, ..s };
    assert(snapshot_of(t).attention =~= snapshot_of(s).attention);
    assert(snapshot_of(t).bubble == snapshot_of(s).bubble);
}

/// A failed poll marks DSH unreachable with the poll's error and keeps
/// everything else; the snapshot is then offline.
pub proof fn law_failed_poll_goes_offline(
    s: PetStateV,
    items: Seq<SessionItem>,
    error: Option<String>,
    now: u64,
)
    ensures
        poll_step(s, items, false, error, now) == (PetStateV {
            connected: false,
            last_error: match error {
                Some(e) => Some(e@),
                None => None,
            },
            ..s
        }),
        snapshot_of(poll_step(s, items, false, error, now)).mode == Mode::Offline,
{
}

/// Storing an entry keeps every key that was there and adds the entry's own.
proof fn lemma_upsert_has_key<V>(s: Seq<V>, kf: spec_fn(V) -> Seq<char>, x: V, k: Seq<char>)
    requires
        has_key(s, kf, k) || k == kf(x),
    ensures
        has_key(upsert_key(s, kf, x), kf, k),
{
    lemma_find_key(s, kf, kf(x));
    let t = upsert_key(s, kf, x);
    let i = find_key(s, kf, kf(x));
    if k == kf(x) {
        if i >= 0 {
            assert(t[i] == x);
        } else {
            assert(t[s.len() as int] == x);
        }
    } else {
        let m = choose|m: int| 0 <= m < s.len() && kf(s[m]) == k;
        assert(t[m] == if m == i { x } else { s[m] });
        if m == i {
            assert(kf(s[i]) == kf(x));
        }
    }
}

/// After folding polled items, each of their ids is a key of the sessions.
proof fn lemma_poll_items_keys(
    acc: (Seq<SessionV>, Seq<DoneEntryV>),
    items: Seq<SessionItem>,
    now: u64,
    j: int,
)
    requires
        0 <= j < items.len(),
    ensures
        has_key(poll_items(acc, items, now).0, sk(), items[j].session_id@),
    decreases items.len(),
{
    let prev = poll_items(acc, items.drop_last(), now);
    let last = items.last();
    let cur = SessionV {
        id: last.session_id@,
        title: crate::state::polled_title(last),
        running: last.running,
        todos: crate::types::item_todos(last),
    };
    assert(poll_items(acc, items, now) == poll_item(prev, last, now));
    assert(poll_item(prev, last, now).0 == upsert_key(prev.0, sk(), cur));
    if j < items.len() - 1 {
        lemma_poll_items_keys(acc, items.drop_last(), now, j);
        assert(items.drop_last()[j] == items[j]);
        lemma_upsert_has_key(prev.0, sk(), cur, items[j].session_id@);
    } else {
        lemma_upsert_has_key(prev.0, sk(), cur, items[j].session_id@);
    }
}

/// After a successful poll DSH is reachable, the last error is cleared, and
/// the sessions are exactly the polled ones: each stored session was in the
/// poll, and each polled session is stored.
pub proof fn law_poll_sessions_are_polled(
    s: PetStateV,
    items: Seq<SessionItem>,
    error: Option<String>,
    now: u64,
)
    ensures
        poll_step(s, items, true, error, now).connected,
        poll_step(s, items, true, error, now).last_error is None,
        forall|i: int|
            0 <= i < poll_step(s, items, true, error, now).sessions.len() ==> item_ids(
                items,
            ).contains(#[trigger] poll_step(s, items, true, error, now).sessions[i].id),
        forall|j: int|
            0 <= j < items.len() ==> has_key(
                poll_step(s, items, true, error, now).sessions,
                sk(),
                #[trigger] items[j].session_id@,
            ),
{
    let r = poll_step(s, items, true, error, now);
    let folded = poll_items((s.sessions, s.done), items, now);
    let seen = item_ids(items);
    let p = crate::state::id_among(seen);
    assert forall|i: int| 0 <= i < r.sessions.len() implies seen.contains(
        #[trigger] r.sessions[i].id,
    ) by {
        assert(p(folded.0.filter(p)[i]));
    }
    assert forall|j: int| 0 <= j < items.len() implies has_key(
        r.sessions,
        sk(),
        #[trigger] items[j].session_id@,
    ) by {
        lemma_poll_items_keys((s.sessions, s.done), items, now, j);
        let id = items[j].session_id@;
        let m = choose|m: int| 0 <= m < folded.0.len() && sk()(folded.0[m]) == id;
        assert(seen[j] == id);
        assert(p(folded.0[m]));
        assert(folded.0.filter(p).contains(folded.0[m]));
        let n = choose|n: int| 0 <= n < r.sessions.len() && r.sessions[n] == folded.0[m];
        assert(sk()(r.sessions[n]) == id);
    }
}

/// After the periodic expiry every remaining done entry is within the done
/// window and every remaining approval or question within its TTL, and every
/// entry within its window is kept; nothing else changes.
pub proof fn law_tick_keeps_exactly_fresh(s: PetStateV, now: u64)
    ensures
        forall|i: int|
            0 <= i < tick_step(s, now).done.len() ==> fresh(
                now,
                #[trigger] tick_step(s, now).done[i].at,
                DONE_WINDOW_MS,
            ),
        forall|i: int|
            0 <= i < s.done.len() && fresh(now, s.done[i].at, DONE_WINDOW_MS) ==> tick_step(
                s,
                now,
            ).done.contains(#[trigger] s.done[i]),
        forall|i: int|
            0 <= i < tick_step(s, now).approvals.len() ==> fresh(
                now,
                #[trigger] tick_step(s, now).approvals[i].requested_at,
                PENDING_TTL_MS,
            ),
        forall|i: int|
            0 <= i < s.approvals.len() && fresh(now, s.approvals[i].requested_at, PENDING_TTL_MS)
                ==> tick_step(s, now).approvals.contains(#[trigger] s.approvals[i]),
        forall|i: int|
            0 <= i < tick_step(s, now).questions.len() ==> fresh(
                now,
                #[trigger] tick_step(s, now).questions[i].requested_at,
                PENDING_TTL_MS,
            ),
        forall|i: int|
            0 <= i < s.questions.len() && fresh(now, s.questions[i].requested_at, PENDING_TTL_MS)
                ==> tick_step(s, now).questions.contains(#[trigger] s.questions[i]),
        tick_step(s, now).sessions == s.sessions,
        tick_step(s, now).connected == s.connected,
        tick_step(s, now).queued == s.queued,
{
    let r = tick_step(s, now);
    assert forall|i: int| 0 <= i < r.done.len() implies fresh(
        now,
        #[trigger] r.done[i].at,
        DONE_WINDOW_MS,
    ) by {
        assert(crate::state::done_fresh(now)(r.done[i]));
    }
    assert forall|i: int|
        0 <= i < s.done.len() && fresh(now, s.done[i].at, DONE_WINDOW_MS) implies r.done.contains(
        #[trigger] s.done[i],
    ) by {
        assert(crate::state::done_fresh(now)(s.done[i]));
    }
    assert forall|i: int| 0 <= i < r.approvals.len() implies fresh(
        now,
        #[trigger] r.approvals[i].requested_at,
        PENDING_TTL_MS,
    ) by {
        assert(crate::state::approval_fresh(now)(r.approvals[i]));
    }
    assert forall|i: int|
        0 <= i < s.approvals.len() && fresh(
            now,
            s.approvals[i].requested_at,
            PENDING_TTL_MS,
        ) implies r.approvals.contains(#[trigger] s.approvals[i]) by {
        assert(crate::state::approval_fresh(now)(s.approvals[i]));
    }
    assert forall|i: int| 0 <= i < r.questions.len() implies fresh(
        now,
        #[trigger] r.questions[i].requested_at,
        PENDING_TTL_MS,
    ) by {
        assert(crate::state::question_fresh(now)(r.questions[i]));
    }
    assert forall|i: int|
        0 <= i < s.questions.len() && fresh(
            now,
            s.questions[i].requested_at,
            PENDING_TTL_MS,
        ) implies r.questions.contains(#[trigger] s.questions[i]) by {
        assert(crate::state::question_fresh(now)(s.questions[i]));
    }
}

/// An approval requested under an id that was not pending is then pending;
/// resolving it again leaves the state exactly as it was before the request.
pub proof fn law_approval_request_then_resolve(s: PetStateV, req: Json, res: Json, t1: u64, t2: u64)
    requires
        state_wf(s),
        frame_type(req) == "approval/requested"@,
        str_member(req, "approvalId"@) is Some,
        str_member(req, "sessionId"@) is Some,
        str_member(req, "toolName"@) is Some,
        !has_key(s.approvals, ak(), str_member(req, "approvalId"@).unwrap()),
        frame_type(res) == "approval/resolved"@,
        str_member(res, "approvalId"@) == str_member(req, "approvalId"@),
    ensures
        has_key(mux_step(s, req, t1).approvals, ak(), str_member(req, "approvalId"@).unwrap()),
        mux_step(mux_step(s, req, t1), res, t2) == s,
{
    reveal_strlit("approval/requested");
    reveal_strlit("approval/resolved");
    let id = str_member(req, "approvalId"@).unwrap();
    let x = ApprovalV {
        approval_id: id,
        session_id: str_member(req, "sessionId"@).unwrap(),
        tool_name: str_member(req, "toolName"@).unwrap(),
        reason: or_empty(str_member(req, "reason"@)),
        requested_at: t1,
    };
    lemma_find_key(s.approvals, ak(), id);
    let t = s.approvals.push(x);
    assert(upsert_key(s.approvals, ak(), x) == t);
    let s1 = mux_step(s, req, t1);
    assert(s1 == PetStateV { approvals: t, ..s });
    lemma_upsert_key(s.approvals, ak(), x);
    lemma_find_key_unique(t, ak(), s.approvals.len() as int);
    assert(t[s.approvals.len() as int] == x);
    assert(remove_key(t, ak(), id) =~= s.approvals);
    assert("approval/resolved"@.len() != "approval/requested"@.len());
    assert(mux_step(s1, res, t2) == PetStateV { approvals: remove_key(t, ak(), id), ..s1 });
}

/// A question requested under an id that was not pending is then pending;
/// resolving it again leaves the state exactly as it was before the request.
pub proof fn law_question_request_then_resolve(s: PetStateV, req: Json, res: Json, t1: u64, t2: u64)
    requires
        state_wf(s),
        frame_type(req) == "question/requested"@,
        str_member(req, "questionRpcId"@) is Some,
        !has_key(s.questions, qk(), str_member(req, "questionRpcId"@).unwrap()),
        frame_type(res) == "question/resolved"@,
        str_member(res, "questionRpcId"@) == str_member(req, "questionRpcId"@),
    ensures
        has_key(mux_step(s, req, t1).questions, qk(), str_member(req, "questionRpcId"@).unwrap()),
        mux_step(mux_step(s, req, t1), res, t2) == s,
{
    reveal_strlit("approval/requested");
    reveal_strlit("approval/resolved");
    reveal_strlit("question/requested");
    reveal_strlit("question/resolved");
    assert("question/requested"@[0] == 'q' && "approval/requested"@[0] == 'a');
    assert("question/resolved"@[0] == 'q' && "approval/resolved"@[0] == 'a');
    assert("question/resolved"@.len() != "approval/requested"@.len());
    assert("question/resolved"@.len() != "question/requested"@.len());
    let id = str_member(req, "questionRpcId"@).unwrap();
    let x = QuestionV {
        question_rpc_id: id,
        session_id: or_empty(str_member(req, "sessionId"@)),
        text: first_question(req),
        requested_at: t1,
    };
    lemma_find_key(s.questions, qk(), id);
    let t = s.questions.push(x);
    assert(upsert_key(s.questions, qk(), x) == t);
    let s1 = mux_step(s, req, t1);
    assert(s1 == PetStateV { questions: t, ..s });
    lemma_upsert_key(s.questions, qk(), x);
    lemma_find_key_unique(t, qk(), s.questions.len() as int);
    assert(t[s.questions.len() as int] == x);
    assert(remove_key(t, qk(), id) =~= s.questions);
    assert(mux_step(s1, res, t2) == PetStateV { questions: remove_key(t, qk(), id), ..s1 });
}

/// After an `approval/resolved` frame no approval with its id is pending, and
/// after a `question/resolved` frame no question with its id is pending.
pub proof fn law_resolved_is_not_pending(s: PetStateV, p: Json, now: u64)
    requires
        state_wf(s),
    ensures
        frame_type(p) == "approval/resolved"@ && str_member(p, "approvalId"@) is Some ==> !has_key(
            mux_step(s, p, now).approvals,
            ak(),
            str_member(p, "approvalId"@).unwrap(),
        ),
        frame_type(p) == "question/resolved"@ && str_member(p, "questionRpcId"@) is Some ==> !has_key(
            mux_step(s, p, now).questions,
            qk(),
            str_member(p, "questionRpcId"@).unwrap(),
        ),
{
    reveal_strlit("approval/requested");
    reveal_strlit("approval/resolved");
    reveal_strlit("question/requested");
    reveal_strlit("question/resolved");
    assert("question/resolved"@[0] == 'q' && "approval/resolved"@[0] == 'a');
    assert("question/resolved"@.len() != "approval/requested"@.len());
    assert("question/resolved"@.len() != "question/requested"@.len());
    assert("approval/resolved"@.len() != "approval/requested"@.len());
    if frame_type(p) == "approval/resolved"@ && str_member(p, "approvalId"@) is Some {
        lemma_remove_key(s.approvals, ak(), str_member(p, "approvalId"@).unwrap());
    }
    if frame_type(p) == "question/resolved"@ && str_member(p, "questionRpcId"@) is Some {
        lemma_remove_key(s.questions, qk(), str_member(p, "questionRpcId"@).unwrap());
    }
}

/// A session reported as stopped leaves no pending approval or question of
/// that session. A known session is then stored as not running, and if it was
/// running it is listed as done at that time; an unknown one changes neither
/// the sessions nor the done list.
pub proof fn law_host_stop(s: PetStateV, p: Json, now: u64)
    requires
        state_wf(s),
        frame_type(p) == "host/session-status"@,
        str_member(p, "sessionId"@) is Some,
        !frame_running(p),
    ensures
        forall|i: int|
            0 <= i < host_step(s, p, now).approvals.len() ==> (#[trigger] host_step(
                s,
                p,
                now,
            ).approvals[i]).session_id != str_member(p, "sessionId"@).unwrap(),
        forall|i: int|
            0 <= i < host_step(s, p, now).questions.len() ==> (#[trigger] host_step(
                s,
                p,
                now,
            ).questions[i]).session_id != str_member(p, "sessionId"@).unwrap(),
        match lookup_key(s.sessions, sk(), str_member(p, "sessionId"@).unwrap()) {
            Some(cur) => {
                &&& lookup_key(host_step(s, p, now).sessions, sk(), str_member(p, "sessionId"@).unwrap())
                    == Some(SessionV { running: false, ..cur })
                &&& cur.running ==> lookup_key(
                    host_step(s, p, now).done,
                    dk(),
                    str_member(p, "sessionId"@).unwrap(),
                ) == Some(
                    DoneEntryV {
                        session_id: str_member(p, "sessionId"@).unwrap(),
                        title: cur.title,
                        at: now,
                    },
                )
            },
            None => host_step(s, p, now).sessions == s.sessions && host_step(s, p, now).done
                == s.done,
        },
{
    let sid = str_member(p, "sessionId"@).unwrap();
    let r = host_step(s, p, now);
    assert forall|i: int| 0 <= i < r.approvals.len() implies (#[trigger] r.approvals[i]).session_id
        != sid by {
        assert(crate::state::approval_not_of(sid)(r.approvals[i]));
    }
    assert forall|i: int| 0 <= i < r.questions.len() implies (#[trigger] r.questions[i]).session_id
        != sid by {
        assert(crate::state::question_not_of(sid)(r.questions[i]));
    }
    lemma_find_key(s.sessions, sk(), sid);
    match lookup_key(s.sessions, sk(), sid) {
        Some(cur) => {
            let x = SessionV { running: false, ..cur };
            assert(sk()(x) == sid);
            lemma_upsert_key(s.sessions, sk(), x);
            let d = DoneEntryV { session_id: sid, title: cur.title, at: now };
            lemma_upsert_key(s.done, dk(), d);
        },
        None => {},
    }
}

/// The ids of the items are pairwise distinct.
pub open spec fn ids_distinct(items: Seq<SessionItem>) -> bool {
    forall|a: int, b: int|
        0 <= a < items.len() && 0 <= b < items.len() && a != b ==> #[trigger] items[a].session_id@
            != #[trigger] items[b].session_id@
}

proof fn lemma_poll_item_unique(acc: (Seq<SessionV>, Seq<DoneEntryV>), item: SessionItem, now: u64)
    requires
        keys_unique(acc.0, sk()),
        keys_unique(acc.1, dk()),
    ensures
        keys_unique(poll_item(acc, item, now).0, sk()),
        keys_unique(poll_item(acc, item, now).1, dk()),
        forall|k: Seq<char>|
            k != item.session_id@ ==> lookup_key(#[trigger] poll_item(acc, item, now).0, sk(), k)
                == lookup_key(acc.0, sk(), k),
        forall|k: Seq<char>|
            k != item.session_id@ ==> lookup_key(#[trigger] poll_item(acc, item, now).1, dk(), k)
                == lookup_key(acc.1, dk(), k),
{
    let id = item.session_id@;
    let title = crate::state::polled_title(item);
    let cur = SessionV { id, title, running: item.running, todos: crate::types::item_todos(item) };
    lemma_upsert_key(acc.0, sk(), cur);
    let d = DoneEntryV { session_id: id, title, at: now };
    lemma_upsert_key(acc.1, dk(), d);
}

proof fn lemma_fold_unique(acc: (Seq<SessionV>, Seq<DoneEntryV>), items: Seq<SessionItem>, now: u64)
    requires
        keys_unique(acc.0, sk()),
        keys_unique(acc.1, dk()),
    ensures
        keys_unique(poll_items(acc, items, now).0, sk()),
        keys_unique(poll_items(acc, items, now).1, dk()),
    decreases items.len(),
{
    if items.len() > 0 {
        lemma_fold_unique(acc, items.drop_last(), now);
        lemma_poll_item_unique(poll_items(acc, items.drop_last(), now), items.last(), now);
    }
}

/// Folding items whose ids differ from `id` changes neither the session nor
/// the done entry stored under `id`.
proof fn lemma_fold_other_ids(
    acc: (Seq<SessionV>, Seq<DoneEntryV>),
    items: Seq<SessionItem>,
    now: u64,
    id: Seq<char>,
)
    requires
        keys_unique(acc.0, sk()),
        keys_unique(acc.1, dk()),
        forall|i: int| 0 <= i < items.len() ==> (#[trigger] items[i]).session_id@ != id,
    ensures
        lookup_key(poll_items(acc, items, now).0, sk(), id) == lookup_key(acc.0, sk(), id),
        lookup_key(poll_items(acc, items, now).1, dk(), id) == lookup_key(acc.1, dk(), id),
    decreases items.len(),
{
    if items.len() > 0 {
        let d = items.drop_last();
        assert forall|i: int| 0 <= i < d.len() implies (#[trigger] d[i]).session_id@ != id by {
            assert(d[i] == items[i]);
        }
        lemma_fold_other_ids(acc, d, now, id);
        lemma_fold_unique(acc, d, now);
        assert(items.last() == items[items.len() - 1]);
        lemma_poll_item_unique(poll_items(acc, d, now), items.last(), now);
    }
}

/// A filter that keeps the entry stored under a key keeps it findable.
proof fn lemma_lookup_filter<V>(
    s: Seq<V>,
    kf: spec_fn(V) -> Seq<char>,
    k: Seq<char>,
    x: V,
    p: spec_fn(V) -> bool,
)
    requires
        keys_unique(s, kf),
        lookup_key(s, kf, k) == Some(x),
        p(x),
    ensures
        lookup_key(s.filter(p), kf, k) == Some(x),
{
    lemma_find_key(s, kf, k);
    let i = find_key(s, kf, k);
    assert(s[i] == x);
    assert(s.filter(p).contains(x));
    crate::keyed::lemma_filter_unique(s, kf, p);
    let f = s.filter(p);
    let m = choose|m: int| 0 <= m < f.len() && f[m] == x;
    assert(kf(f[m]) == k);
    lemma_find_key_unique(f, kf, m);
}

/// In a successful poll that names each session once, a session that was
/// running before and is reported as not running any more is listed as done,
/// at the poll's time and under its polled title.
pub proof fn law_poll_marks_finished_done(
    s: PetStateV,
    items: Seq<SessionItem>,
    error: Option<String>,
    now: u64,
    j: int,
)
    requires
        state_wf(s),
        ids_distinct(items),
        0 <= j < items.len(),
        !items[j].running,
        match lookup_key(s.sessions, sk(), items[j].session_id@) {
            Some(p) => p.running,
            None => false,
        },
    ensures
        lookup_key(poll_step(s, items, true, error, now).done, dk(), items[j].session_id@) == Some(
            DoneEntryV {
                session_id: items[j].session_id@,
                title: crate::state::polled_title(items[j]),
                at: now,
            },
        ),
{
    let id = items[j].session_id@;
    let acc = (s.sessions, s.done);
    let before = items.take(j);
    assert forall|i: int| 0 <= i < before.len() implies (#[trigger] before[i]).session_id@ != id by {
        assert(before[i] == items[i]);
    }
    lemma_fold_other_ids(acc, before, now, id);
    lemma_fold_unique(acc, before, now);
    let aj = poll_items(acc, before, now);
    assert(items.take(j + 1).drop_last() =~= before);
    assert(items.take(j + 1).last() == items[j]);
    let aj1 = poll_items(acc, items.take(j + 1), now);
    assert(aj1 == poll_item(aj, items[j], now));
    let d = DoneEntryV { session_id: id, title: crate::state::polled_title(items[j]), at: now };
    lemma_upsert_key(aj.1, dk(), d);
    lemma_fold_unique(acc, items.take(j + 1), now);
    // the rest of the items leave the entry alone
    let rest = items.skip(j + 1);
    assert forall|i: int| 0 <= i < rest.len() implies (#[trigger] rest[i]).session_id@ != id by {
        assert(rest[i] == items[j + 1 + i]);
    }
    lemma_fold_other_ids(aj1, rest, now, id);
    lemma_fold_split(acc, items, now, j + 1);
    let all = poll_items(acc, items, now);
    lemma_fold_unique(acc, items, now);
    assert(crate::state::done_fresh(now)(d));
    lemma_lookup_filter(all.1, dk(), id, d, crate::state::done_fresh(now));
}

/// Folding a sequence is folding its first `k` items, then the rest.
proof fn lemma_fold_split(
    acc: (Seq<SessionV>, Seq<DoneEntryV>),
    items: Seq<SessionItem>,
    now: u64,
    k: int,
)
    requires
        0 <= k <= items.len(),
    ensures
        poll_items(acc, items, now) == poll_items(poll_items(acc, items.take(k), now), items.skip(k), now),
    decreases items.len() - k,
{
    if k < items.len() {
        lemma_fold_split_last(acc, items, now, k);
    } else {
        assert(items.take(k) =~= items);
        assert(items.skip(k) =~= Seq::<SessionItem>::empty());
    }
}

proof fn lemma_fold_split_last(
    acc: (Seq<SessionV>, Seq<DoneEntryV>),
    items: Seq<SessionItem>,
    now: u64,
    k: int,
)
    requires
        0 <= k < items.len(),
    ensures
        poll_items(acc, items, now) == poll_items(poll_items(acc, items.take(k), now), items.skip(k), now),
    decreases items.len(),
{
    let d = items.drop_last();
    let p = poll_items(acc, items.take(k), now);
    let t = items.skip(k);
    assert(t.len() > 0);
    assert(t.last() == items.last());
    assert(poll_items(p, t, now) == poll_item(poll_items(p, t.drop_last(), now), t.last(), now));
    assert(poll_items(acc, items, now) == poll_item(poll_items(acc, d, now), items.last(), now));
    if k < d.len() {
        lemma_fold_split_last(acc, d, now, k);
        assert(d.take(k) =~= items.take(k));
        assert(t.drop_last() =~= d.skip(k));
    } else {
        assert(d =~= items.take(k));
        assert(t.drop_last() =~= Seq::<SessionItem>::empty());
        assert(poll_items(p, t.drop_last(), now) == p);
    }
}

/// Two filters whose tests agree on every element of `s` keep the same
/// elements.
proof fn lemma_filter_agree<A>(s: Seq<A>, p: spec_fn(A) -> bool, q: spec_fn(A) -> bool)
    requires
        forall|i: int| 0 <= i < s.len() ==> p(#[trigger] s[i]) == q(s[i]),
    ensures
        s.filter(p) == s.filter(q),
    decreases s.len(),
{
    reveal(Seq::filter);
    if s.len() > 0 {
        let d = s.drop_last();
        assert forall|i: int| 0 <= i < d.len() implies p(#[trigger] d[i]) == q(d[i]) by {
            assert(d[i] == s[i]);
        }
        lemma_filter_agree(d, p, q);
        assert(p(s[s.len() - 1]) == q(s[s.len() - 1]));
    }
}

/// With no entry stamped later than `now`, the periodic expiry keeps, in
/// order, exactly the done entries younger than the done window and the
/// approvals and questions younger than their TTL; nothing else changes.
pub proof fn law_tick_drops_expired(s: PetStateV, now: u64)
    requires
        forall|i: int| 0 <= i < s.done.len() ==> (#[trigger] s.done[i]).at <= now,
        forall|i: int| 0 <= i < s.approvals.len() ==> (#[trigger] s.approvals[i]).requested_at <= now,
        forall|i: int| 0 <= i < s.questions.len() ==> (#[trigger] s.questions[i]).requested_at <= now,
    ensures
        tick_step(s, now).done == s.done.filter(|d: DoneEntryV| now - d.at < DONE_WINDOW_MS),
        tick_step(s, now).approvals == s.approvals.filter(
            |a: ApprovalV| now - a.requested_at < PENDING_TTL_MS,
        ),
        tick_step(s, now).questions == s.questions.filter(
            |q: QuestionV| now - q.requested_at < PENDING_TTL_MS,
        ),
        tick_step(s, now).sessions == s.sessions,
        tick_step(s, now).connected == s.connected,
        tick_step(s, now).last_error == s.last_error,
        tick_step(s, now).queued == s.queued,
        tick_step(s, now).mode == s.mode,
        tick_step(s, now).done_sound_pending == s.done_sound_pending,
{
    lemma_filter_agree(
        s.done,
        crate::state::done_fresh(now),
        |d: DoneEntryV| now - d.at < DONE_WINDOW_MS,
    );
    lemma_filter_agree(
        s.approvals,
        crate::state::approval_fresh(now),
        |a: ApprovalV| now - a.requested_at < PENDING_TTL_MS,
    );
    lemma_filter_agree(
        s.questions,
        crate::state::question_fresh(now),
        |q: QuestionV| now - q.requested_at < PENDING_TTL_MS,
    );
}

/// A session reported as stopped: the sessions keep exactly their keys, the
/// pending approvals and questions of the other sessions are all kept in
/// their order, and the connection, the last error, the queue count, the
/// mode and the done sound are left alone.
pub proof fn law_host_stop_keeps_the_rest(s: PetStateV, p: Json, now: u64)
    requires
        state_wf(s),
        frame_type(p) == "host/session-status"@,
        str_member(p, "sessionId"@) is Some,
        !frame_running(p),
    ensures
        forall|k: Seq<char>|
            #[trigger] has_key(host_step(s, p, now).sessions, sk(), k) == has_key(s.sessions, sk(), k),
        host_step(s, p, now).approvals == s.approvals.filter(
            |a: ApprovalV| a.session_id != str_member(p, "sessionId"@).unwrap(),
        ),
        host_step(s, p, now).questions == s.questions.filter(
            |q: QuestionV| q.session_id != str_member(p, "sessionId"@).unwrap(),
        ),
        host_step(s, p, now).connected == s.connected,
        host_step(s, p, now).last_error == s.last_error,
        host_step(s, p, now).queued == s.queued,
        host_step(s, p, now).mode == s.mode,
        host_step(s, p, now).done_sound_pending == s.done_sound_pending,
{
    let sid = str_member(p, "sessionId"@).unwrap();
    let r = host_step(s, p, now);
    lemma_filter_agree(
        s.approvals,
        crate::state::approval_not_of(sid),
        |a: ApprovalV| a.session_id != sid,
    );
    lemma_filter_agree(
        s.questions,
        crate::state::question_not_of(sid),
        |q: QuestionV| q.session_id != sid,
    );
    lemma_find_key(s.sessions, sk(), sid);
    match lookup_key(s.sessions, sk(), sid) {
        Some(cur) => {
            let x = SessionV { running: false, ..cur };
            assert(sk()(x) == sid);
            lemma_upsert_key(s.sessions, sk(), x);
            assert forall|k: Seq<char>| #[trigger] has_key(r.sessions, sk(), k) == has_key(
                s.sessions,
                sk(),
                k,
            ) by {
                lemma_find_key(s.sessions, sk(), k);
                lemma_find_key(r.sessions, sk(), k);
            }
        },
        None => {},
    }
}

/// In a successful poll that names each session once, every polled session
/// is stored under its id with the polled running flag, title and todos; the
/// pending approvals and questions and the queue count stay as they were.
pub proof fn law_poll_stores_polled_items(
    s: PetStateV,
    items: Seq<SessionItem>,
    error: Option<String>,
    now: u64,
    j: int,
)
    requires
        state_wf(s),
        ids_distinct(items),
        0 <= j < items.len(),
    ensures
        lookup_key(poll_step(s, items, true, error, now).sessions, sk(), items[j].session_id@)
            == Some(
            SessionV {
                id: items[j].session_id@,
                title: crate::state::polled_title(items[j]),
                running: items[j].running,
                todos: crate::types::item_todos(items[j]),
            },
        ),
        poll_step(s, items, true, error, now).approvals == s.approvals,
        poll_step(s, items, true, error, now).questions == s.questions,
        poll_step(s, items, true, error, now).queued == s.queued,
{
    let id = items[j].session_id@;
    let acc = (s.sessions, s.done);
    let before = items.take(j);
    assert forall|i: int| 0 <= i < before.len() implies (#[trigger] before[i]).session_id@ != id by {
        assert(before[i] == items[i]);
    }
    lemma_fold_unique(acc, before, now);
    let aj = poll_items(acc, before, now);
    assert(items.take(j + 1).drop_last() =~= before);
    assert(items.take(j + 1).last() == items[j]);
    let aj1 = poll_items(acc, items.take(j + 1), now);
    assert(aj1 == poll_item(aj, items[j], now));
    let cur = SessionV {
        id,
        title: crate::state::polled_title(items[j]),
        running: items[j].running,
        todos: crate::types::item_todos(items[j]),
    };
    assert(sk()(cur) == id);
    lemma_upsert_key(aj.0, sk(), cur);
    lemma_fold_unique(acc, items.take(j + 1), now);
    let rest = items.skip(j + 1);
    assert forall|i: int| 0 <= i < rest.len() implies (#[trigger] rest[i]).session_id@ != id by {
        assert(rest[i] == items[j + 1 + i]);
    }
    lemma_fold_other_ids(aj1, rest, now, id);
    lemma_fold_split(acc, items, now, j + 1);
    let all = poll_items(acc, items, now);
    lemma_fold_unique(acc, items, now);
    let seen = item_ids(items);
    assert(seen[j] == id);
    assert(crate::state::id_among(seen)(cur));
    lemma_lookup_filter(all.0, sk(), id, cur, crate::state::id_among(seen));
}

/// In Done mode the bubble says the tasks are finished and its body has one
/// numbered line per finished session of the snapshot, in the snapshot's
/// order: line `i` reads `<i+1>. 「<title>」`, the lines joined by `\n`.
pub proof fn law_done_bubble_lists_every_finished_session(s: PetStateV)
    requires
        snapshot_of(s).mode == Mode::Done,
    ensures
        snapshot_of(s).bubble.title == "任务完成啦 🎉"@,
        snapshot_of(s).bubble.body == join_lines(
            Seq::new(
                snapshot_of(s).done.len(),
                |i: int| dec((i + 1) as nat) + ". 「"@ + snapshot_of(s).done[i].title + "」"@,
            ),
        ),
{
    let d = done_refs(s);
    let titles = d.map_values(|x: DoneRefV| x.title);
    let lines = Seq::new(
        d.len(),
        |i: int| dec((i + 1) as nat) + ". 「"@ + d[i].title + "」"@,
    );
    assert forall|i: int| 0 <= i < d.len() implies #[trigger] numbered_lines(titles, "「"@, "」"@)[i]
        == lines[i] by {
        assert(dec((i + 1) as nat) + ". "@ + "「"@ + titles[i] + "」"@ =~= dec((i + 1) as nat)
            + ". 「"@ + d[i].title + "」"@) by {
            reveal_strlit(". ");
            reveal_strlit("「");
            reveal_strlit(". 「");
        }
    }
    assert(numbered_lines(titles, "「"@, "」"@) =~= lines);
}

/// A `session/event` frame raises the done sound only for a turn that ended
/// completed: when `event.reason.kind` is the string `k`, the frame raises
/// the flag if `event.type` is `turn/end` and `k` is `completed`, and
/// otherwise leaves the whole state as it was.
pub proof fn law_done_sound_only_for_completed_turns(
    s: PetStateV,
    p: Json,
    now: u64,
    e: Json,
    r: Json,
    k: Seq<char>,
)
    requires
        str_member(p, "type"@) == Some("session/event"@),
        p.spec_get("event"@) == Some(e),
        e.spec_get("reason"@) == Some(r),
        str_member(r, "kind"@) == Some(k),
    ensures
        mux_step(s, p, now) == if k == "completed"@ && str_member(e, "type"@) == Some("turn/end"@) {
            PetStateV { done_sound_pending: true, ..s }
        } else {
            s
        },
{
    reveal_strlit("session/event");
    reveal_strlit("session/queue");
    reveal_strlit("approval/requested");
    reveal_strlit("approval/resolved");
    reveal_strlit("question/requested");
    reveal_strlit("question/resolved");
    assert(frame_type(p) == "session/event"@);
    assert("session/event"@.len() != "approval/requested"@.len());
    assert("session/event"@.len() != "approval/resolved"@.len());
    assert("session/event"@.len() != "question/requested"@.len());
    assert("session/event"@.len() != "question/resolved"@.len());
    assert("session/event"@[8] != "session/queue"@[8]);
}

/// A `session/event` frame without a `reason.kind` string under its event
/// leaves the whole state as it was.
pub proof fn law_turn_without_reason_kind_is_silent(s: PetStateV, p: Json, now: u64, e: Json)
    requires
        str_member(p, "type"@) == Some("session/event"@),
        p.spec_get("event"@) == Some(e),
        match e.spec_get("reason"@) {
            Some(r) => str_member(r, "kind"@) is None,
            None => true,
        },
    ensures
        mux_step(s, p, now) == s,
{
    reveal_strlit("session/event");
    reveal_strlit("session/queue");
    reveal_strlit("approval/requested");
    reveal_strlit("approval/resolved");
    reveal_strlit("question/requested");
    reveal_strlit("question/resolved");
    assert(frame_type(p) == "session/event"@);
    assert("session/event"@.len() != "approval/requested"@.len());
    assert("session/event"@.len() != "approval/resolved"@.len());
    assert("session/event"@.len() != "question/requested"@.len());
    assert("session/event"@.len() != "question/resolved"@.len());
    assert("session/event"@[8] != "session/queue"@[8]);
}

} // verus!
