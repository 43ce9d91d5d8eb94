//! The state aggregator: consumes [`StateEvent`]s, keeps the sessions and the
//! pending items, and builds the render [`Snapshot`].

use vstd::prelude::*;

use crate::json::{get_str, str_member, Json};
use crate::keyed::{
    filter_vec, find_index, get_by_key, key_fn, keys_unique, lookup_key, remove_by_key, remove_key, upsert,
    upsert_key, views,
};
use crate::strings::{string_views, dec, dec_string, owned, push_char, push_str, str_eq};
use crate::types::{
    ApprovalV, AttentionItemV, AttentionKind, BubbleV, DoneEntryV, DoneRefV, Mode, QuestionV,
    SessionItem, SessionRefV, SessionV, SnapshotV, StateEvent, item_title, item_todos, Approval,
    AttentionItem, Bubble, DoneEntry, DoneRef, Question, Session, SessionRef, Snapshot,
};

verus! {

/// How long a finished session stays in the "done" list (2 minutes).
pub const DONE_WINDOW_MS: u64 = 120_000;

/// How long a pending approval or question is kept (30 minutes).
pub const PENDING_TTL_MS: u64 = 1_800_000;

// ------------------------------------------------------------------------------------------
// The model
// ------------------------------------------------------------------------------------------

/// The abstract state: every field but the private bookkeeping, lists as sequences of views.
pub ghost struct PetStateV {
    pub mode: Mode,
    pub connected: bool,
    pub last_error: Option<Seq<char>>,
    pub sessions: Seq<SessionV>,
    pub approvals: Seq<ApprovalV>,
    pub questions: Seq<QuestionV>,
    pub done: Seq<DoneEntryV>,
    pub queued: usize,
    pub done_sound_pending: bool,
}

pub open spec fn sk() -> spec_fn(SessionV) -> Seq<char> {
    key_fn::<Session>()
}

pub open spec fn ak() -> spec_fn(ApprovalV) -> Seq<char> {
    key_fn::<Approval>()
}

pub open spec fn qk() -> spec_fn(QuestionV) -> Seq<char> {
    key_fn::<Question>()
}

pub open spec fn dk() -> spec_fn(DoneEntryV) -> Seq<char> {
    key_fn::<DoneEntry>()
}

/// Every keyed list holds each key at most once.
pub open spec fn state_wf(s: PetStateV) -> bool {
    &&& keys_unique(s.sessions, sk())
    &&& keys_unique(s.approvals, ak())
    &&& keys_unique(s.questions, qk())
    &&& keys_unique(s.done, dk())
}

/// `now - at` in wrapping `u64` arithmetic.
pub open spec fn age(now: u64, at: u64) -> int {
    if at <= now {
        now - at
    } else {
        now + 0x1_0000_0000_0000_0000int - at
    }
}

/// An entry made at `at` is still kept at `now` for a window of `window` ms.
pub open spec fn fresh(now: u64, at: u64, window: u64) -> bool {
    age(now, at) < window
}

pub open spec fn or_empty(o: Option<Seq<char>>) -> Seq<char> {
    match o {
        Some(s) => s,
        None => Seq::empty(),
    }
}

// ---- polling ------------------------------------------------------------------------------

/// The title a polled session gets.
pub open spec fn polled_title(item: SessionItem) -> Seq<char> {
    match item_title(item) {
        Some(t) => t,
        None => "未命名会话"@,
    }
}

/// Folds one polled item into (sessions, done): the session is stored under
/// its id; a session that was running and is not any more becomes "done".
pub open spec fn poll_item(
    acc: (Seq<SessionV>, Seq<DoneEntryV>),
    item: SessionItem,
    now: u64,
) -> (Seq<SessionV>, Seq<DoneEntryV>) {
    let id = item.session_id@;
    let title = polled_title(item);
    let was_running = match lookup_key(acc.0, sk(), id) {
        Some(p) => p.running,
        None => false,
    };
    let cur = SessionV { id, title, running: item.running, todos: item_todos(item) };
    (
        upsert_key(acc.0, sk(), cur),
        if was_running && !item.running {
            upsert_key(acc.1, dk(), DoneEntryV { session_id: id, title, at: now })
        } else {
            acc.1
        },
    )
}

/// Folds the polled items, first to last.
pub open spec fn poll_items(
    acc: (Seq<SessionV>, Seq<DoneEntryV>),
    items: Seq<SessionItem>,
    now: u64,
) -> (Seq<SessionV>, Seq<DoneEntryV>)
    decreases items.len(),
{
    if items.len() == 0 {
        acc
    } else {
        poll_item(poll_items(acc, items.drop_last(), now), items.last(), now)
    }
}

/// The ids of the polled items.
pub open spec fn item_ids(items: Seq<SessionItem>) -> Seq<Seq<char>> {
    items.map_values(|i: SessionItem| i.session_id@)
}

/// Keeps the sessions whose id is among `ids`.
pub open spec fn id_among(ids: Seq<Seq<char>>) -> spec_fn(SessionV) -> bool {
    |x: SessionV| ids.contains(x.id)
}

/// Keeps the done entries still inside the done window.
pub open spec fn done_fresh(now: u64) -> spec_fn(DoneEntryV) -> bool {
    |d: DoneEntryV| fresh(now, d.at, DONE_WINDOW_MS)
}

/// Keeps the approvals still inside their TTL.
pub open spec fn approval_fresh(now: u64) -> spec_fn(ApprovalV) -> bool {
    |a: ApprovalV| fresh(now, a.requested_at, PENDING_TTL_MS)
}

/// Keeps the questions still inside their TTL.
pub open spec fn question_fresh(now: u64) -> spec_fn(QuestionV) -> bool {
    |q: QuestionV| fresh(now, q.requested_at, PENDING_TTL_MS)
}

/// Keeps the approvals of other sessions than `sid`.
pub open spec fn approval_not_of(sid: Seq<char>) -> spec_fn(ApprovalV) -> bool {
    |a: ApprovalV| a.session_id != sid
}

/// Keeps the questions of other sessions than `sid`.
pub open spec fn question_not_of(sid: Seq<char>) -> spec_fn(QuestionV) -> bool {
    |q: QuestionV| q.session_id != sid
}

/// Keeps the running sessions.
pub open spec fn is_running() -> spec_fn(SessionV) -> bool {
    |x: SessionV| x.running
}

/// A poll result applied to the state.
pub open spec fn poll_step(
    s: PetStateV,
    items: Seq<SessionItem>,
    ok: bool,
    error: Option<String>,
    now: u64,
) -> PetStateV {
    if !ok {
        PetStateV {
            connected: false,
            last_error: match error {
                Some(e) => Some(e@),
                None => None,
            },
            ..s
        }
    } else {
        let folded = poll_items((s.sessions, s.done), items, now);
        let seen = item_ids(items);
        PetStateV {
            connected: true,
            last_error: None,
            sessions: folded.0.filter(id_among(seen)),
            done: folded.1.filter(done_fresh(now)),
            ..s
        }
    }
}

// ---- mux frames ---------------------------------------------------------------------------

/// The `type` of a frame, or the empty string.
pub open spec fn frame_type(p: Json) -> Seq<char> {
    or_empty(str_member(p, "type"@))
}

/// `questions[0].question` of a frame, or the empty string.
pub open spec fn first_question(p: Json) -> Seq<char> {
    match p.spec_get("questions"@) {
        Some(qs) => match qs.spec_as_array() {
            Some(arr) => if arr.len() > 0 {
                or_empty(str_member(arr[0], "question"@))
            } else {
                Seq::empty()
            },
            None => Seq::empty(),
        },
        None => Seq::empty(),
    }
}

/// The number of elements of `items`, or 0 when it is missing or not an array.
pub open spec fn queue_len(p: Json) -> nat {
    match p.spec_get("items"@) {
        Some(a) => match a.spec_as_array() {
            Some(arr) => arr.len(),
            None => 0,
        },
        None => 0,
    }
}

/// `event.type == "turn/end"` and `event.reason.kind == "completed"`.
pub open spec fn turn_end_completed(p: Json) -> bool {
    match p.spec_get("event"@) {
        Some(e) => {
            &&& str_member(e, "type"@) == Some("turn/end"@)
            &&& match e.spec_get("reason"@) {
                Some(r) => str_member(r, "kind"@) == Some("completed"@),
                None => false,
            }
        },
        None => false,
    }
}

/// A frame of `/api/events.mux` applied to the state.
pub open spec fn mux_step(s: PetStateV, p: Json, now: u64) -> PetStateV {
    let t = frame_type(p);
    if t == "approval/requested"@ {
        match (str_member(p, "approvalId"@), str_member(p, "sessionId"@), str_member(p, "toolName"@)) {
            (Some(id), Some(sid), Some(tool)) => PetStateV {
                approvals: upsert_key(
                    s.approvals,
                    ak(),
                    ApprovalV {
                        approval_id: id,
                        session_id: sid,
                        tool_name: tool,
                        reason: or_empty(str_member(p, "reason"@)),
                        requested_at: now,
                    },
                ),
                ..s
            },
            _ => s,
        }
    } else if t == "approval/resolved"@ {
        match str_member(p, "approvalId"@) {
            Some(id) => PetStateV { approvals: remove_key(s.approvals, ak(), id), ..s },
            None => s,
        }
    } else if t == "question/requested"@ {
        match str_member(p, "questionRpcId"@) {
            Some(id) => PetStateV {
                questions: upsert_key(
                    s.questions,
                    qk(),
                    QuestionV {
                        question_rpc_id: id,
                        session_id: or_empty(str_member(p, "sessionId"@)),
                        text: first_question(p),
                        requested_at: now,
                    },
                ),
                ..s
            },
            None => s,
        }
    } else if t == "question/resolved"@ {
        match str_member(p, "questionRpcId"@) {
            Some(id) => PetStateV { questions: remove_key(s.questions, qk(), id), ..s },
            None => s,
        }
    } else if t == "session/queue"@ {
        PetStateV { queued: queue_len(p) as usize, ..s }
    } else if t == "session/event"@ && turn_end_completed(p) {
        PetStateV { done_sound_pending: true, ..s }
    } else {
        s
    }
}

// ---- host frames --------------------------------------------------------------------------

/// `running` of a frame, false when missing or not a boolean.
pub open spec fn frame_running(p: Json) -> bool {
    match p.spec_get("running"@) {
        Some(v) => match v.spec_as_bool() {
            Some(b) => b,
            None => false,
        },
        None => false,
    }
}

/// A frame of `/api/events.host` applied to the state.
pub open spec fn host_step(s: PetStateV, p: Json, now: u64) -> PetStateV {
    if frame_type(p) != "host/session-status"@ {
        s
    } else {
        match str_member(p, "sessionId"@) {
            None => s,
            Some(sid) => {
                let running = frame_running(p);
                let s2 = match lookup_key(s.sessions, sk(), sid) {
                    Some(cur) => PetStateV {
                        sessions: upsert_key(s.sessions, sk(), SessionV { running, ..cur }),
                        done: if cur.running && !running {
                            upsert_key(
                                s.done,
                                dk(),
                                DoneEntryV { session_id: sid, title: cur.title, at: now },
                            )
                        } else {
                            s.done
                        },
                        ..s
                    },
                    None => s,
                };
                if !running {
                    PetStateV {
                        approvals: s2.approvals.filter(approval_not_of(sid)),
                        questions: s2.questions.filter(question_not_of(sid)),
                        ..s2
                    }
                } else {
                    s2
                }
            },
        }
    }
}

// ---- tick ---------------------------------------------------------------------------------

/// The periodic expiry: drops done entries older than the done window and
/// pending items older than their TTL.
pub open spec fn tick_step(s: PetStateV, now: u64) -> PetStateV {
    PetStateV {
        done: s.done.filter(done_fresh(now)),
        approvals: s.approvals.filter(approval_fresh(now)),
        questions: s.questions.filter(question_fresh(now)),
        ..s
    }
}

/// An event applied to the state at time `now`.
pub open spec fn step(s: PetStateV, e: StateEvent, now: u64) -> PetStateV {
    match e {
        StateEvent::Poll { sessions, ok, error } => poll_step(s, sessions@, ok, error, now),
        StateEvent::MuxFrame(p) => mux_step(s, p, now),
        StateEvent::HostFrame(p) => host_step(s, p, now),
        StateEvent::Tick => tick_step(s, now),
    }
}

// ---- snapshot -----------------------------------------------------------------------------

/// `lines` joined with `\n`.
pub open spec fn join_lines(lines: Seq<Seq<char>>) -> Seq<char>
    decreases lines.len(),
{
    if lines.len() == 0 {
        Seq::empty()
    } else if lines.len() == 1 {
        lines[0]
    } else {
        join_lines(lines.drop_last()) + "\n"@ + lines.last()
    }
}

/// The lines `<n>. <pre><text><suf>` of a numbered list, counting from 1.
pub open spec fn numbered_lines(texts: Seq<Seq<char>>, pre: Seq<char>, suf: Seq<char>) -> Seq<
    Seq<char>,
> {
    Seq::new(texts.len(), |i: int| dec((i + 1) as nat) + ". "@ + pre + texts[i] + suf)
}

/// The numbered list `1. <pre><t0><suf>\n2. <pre><t1><suf>...`.
pub open spec fn numbered(texts: Seq<Seq<char>>, pre: Seq<char>, suf: Seq<char>) -> Seq<char> {
    join_lines(numbered_lines(texts, pre, suf))
}

/// The title of session `id`, or a stand-in name when it is unknown.
pub open spec fn title_of(s: PetStateV, id: Seq<char>) -> Seq<char> {
    match lookup_key(s.sessions, sk(), id) {
        Some(x) => x.title,
        None => "某会话"@,
    }
}

pub open spec fn session_ref(x: SessionV) -> SessionRefV {
    SessionRefV { session_id: x.id, title: x.title }
}

pub open spec fn done_ref(d: DoneEntryV) -> DoneRefV {
    DoneRefV { session_id: d.session_id, title: d.title }
}

pub open spec fn session_refs(ss: Seq<SessionV>) -> Seq<SessionRefV> {
    ss.map_values(|x: SessionV| session_ref(x))
}

pub open spec fn done_refs_of(ds: Seq<DoneEntryV>) -> Seq<DoneRefV> {
    ds.map_values(|d: DoneEntryV| done_ref(d))
}

/// The running sessions, in list order.
pub open spec fn running_refs(s: PetStateV) -> Seq<SessionRefV> {
    session_refs(s.sessions.filter(is_running()))
}

pub open spec fn approval_item(s: PetStateV, a: ApprovalV) -> AttentionItemV {
    AttentionItemV {
        kind: AttentionKind::Approval,
        session_id: a.session_id,
        text: "「"@ + title_of(s, a.session_id) + "」请求使用 "@ + a.tool_name,
    }
}

pub open spec fn question_item(s: PetStateV, q: QuestionV) -> AttentionItemV {
    AttentionItemV {
        kind: AttentionKind::Question,
        session_id: q.session_id,
        text: "「"@ + title_of(s, q.session_id) + "」："@ + q.text,
    }
}

pub open spec fn approval_items(s: PetStateV, a: Seq<ApprovalV>) -> Seq<AttentionItemV> {
    a.map_values(|x: ApprovalV| approval_item(s, x))
}

pub open spec fn question_items(s: PetStateV, q: Seq<QuestionV>) -> Seq<AttentionItemV> {
    q.map_values(|x: QuestionV| question_item(s, x))
}

/// Approvals first, then questions, each in list order.
pub open spec fn attention_items(s: PetStateV) -> Seq<AttentionItemV> {
    approval_items(s, s.approvals) + question_items(s, s.questions)
}

pub open spec fn done_refs(s: PetStateV) -> Seq<DoneRefV> {
    done_refs_of(s.done)
}

/// The mode by priority: offline > attention > working > done > idle.
pub open spec fn snapshot_mode(s: PetStateV) -> Mode {
    if !s.connected {
        Mode::Offline
    } else if attention_items(s).len() > 0 {
        Mode::Attention
    } else if running_refs(s).len() > 0 {
        Mode::Working
    } else if done_refs(s).len() > 0 {
        Mode::Done
    } else {
        Mode::Idle
    }
}

pub open spec fn snapshot_bubble(s: PetStateV) -> BubbleV {
    let attention = attention_items(s);
    let running = running_refs(s);
    let done = done_refs(s);
    if !s.connected {
        BubbleV {
            title: "连不上 DSH 😢"@,
            body: match s.last_error {
                Some(e) => "GUI 无响应（"@ + e + "）"@,
                None => "GUI 未启动，我会自动重试"@,
            },
        }
    } else if attention.len() > 0 {
        BubbleV {
            title: "需要你确认 · "@ + dec(attention.len()) + " 项"@,
            body: numbered(attention.map_values(|a: AttentionItemV| a.text), ""@, ""@),
        }
    } else if running.len() > 0 {
        let lines = numbered(running.map_values(|r: SessionRefV| r.title), "「"@, "」"@);
        BubbleV {
            title: "正在干活…（"@ + dec(running.len()) + " 个会话）"@,
            body: if done.len() > 0 {
                lines + "\n—\n另有 "@ + dec(done.len()) + " 个已完成待查看"@
            } else {
                lines
            },
        }
    } else if done.len() > 0 {
        BubbleV {
            title: "任务完成啦 🎉"@,
            body: numbered(done.map_values(|d: DoneRefV| d.title), "「"@, "」"@),
        }
    } else {
        BubbleV { title: "休息中 💤"@, body: "没有运行中的任务"@ }
    }
}

/// The snapshot of a state.
pub open spec fn snapshot_of(s: PetStateV) -> SnapshotV {
    SnapshotV {
        mode: snapshot_mode(s),
        bubble: snapshot_bubble(s),
        running: running_refs(s),
        attention: attention_items(s),
        done: done_refs(s),
        queued: s.queued,
    }
}

} // verus!

verus! {

/// The state before any event.
pub open spec fn initial_state() -> PetStateV {
    PetStateV {
        mode: Mode::Starting,
        connected: false,
        last_error: None,
        sessions: Seq::empty(),
        approvals: Seq::empty(),
        questions: Seq::empty(),
        done: Seq::empty(),
        queued: 0,
        done_sound_pending: false,
    }
}

/// The aggregated state of DSH as the pet sees it.
pub struct PetState {
    pub mode: Mode,
    pub connected: bool,
    pub last_error: Option<String>,
    pub sessions: Vec<Session>,
    pub pending_approvals: Vec<Approval>,
    pub pending_questions: Vec<Question>,
    pub done: Vec<DoneEntry>,
    pub queued_count: usize,
    /// Set when a turn completed; the caller plays the "done" sound and clears it.
    pub done_sound_pending: bool,
}

impl View for PetState {
    type V = PetStateV;

    open spec fn view(&self) -> PetStateV {
        PetStateV {
            mode: self.mode,
            connected: self.connected,
            last_error: match self.last_error {
                Some(e) => Some(e@),
                None => None,
            },
            sessions: views(self.sessions@),
            approvals: views(self.pending_approvals@),
            questions: views(self.pending_questions@),
            done: views(self.done@),
            queued: self.queued_count,
            done_sound_pending: self.done_sound_pending,
        }
    }
}

impl Default for PetState {
    /// The state before any event (see [`PetState::new`]).
    fn default() -> (r: Self)
        ensures
            r.wf(),
            r@ == initial_state(),
    {
        PetState::new()
    }
}

/// Moves the contents out of a vector, leaving it empty.
fn take_vec<T>(v: &mut Vec<T>) -> (r: Vec<T>)
    ensures
        r@ == old(v)@,
        final(v)@ == Seq::<T>::empty(),
{
    let mut r: Vec<T> = Vec::new();
    core::mem::swap(&mut r, v);
    r
}

/// Whether an entry made at `at` is kept at `now` for a window of `window` ms.
pub fn is_fresh(now: u64, at: u64, window: u64) -> (r: bool)
    ensures
        r == fresh(now, at, window),
{
    if at <= now {
        now - at < window
    } else {
        (u64::MAX - at) + now + 1 < window
    }
}

/// Whether `k` is one of the strings of `v`.
fn contains_str(v: &Vec<String>, k: &str) -> (r: bool)
    ensures
        r == string_views(v@).contains(k@),
{
    let ghost vs = string_views(v@);
    let mut i: usize = 0;
    while i < v.len()
        invariant
            i <= v.len(),
            vs == string_views(v@),
            forall|j: int| 0 <= j < i ==> vs[j] != k@,
        decreases v.len() - i,
    {
        if str_eq(v[i].as_str(), k) {
            assert(vs[i as int] == k@);
            return true;
        }
        i = i + 1;
    }
    false
}

impl PetState {
    /// The keyed lists hold each key at most once.
    pub open spec fn wf(&self) -> bool {
        state_wf(self@)
    }

    /// The state before any event: starting, not connected, nothing known.
    pub fn new() -> (r: Self)
        ensures
            r.wf(),
            r@ == initial_state(),
    {
        let r = PetState {
            mode: Mode::Starting,
            connected: false,
            last_error: None,
            sessions: Vec::new(),
            pending_approvals: Vec::new(),
            pending_questions: Vec::new(),
            done: Vec::new(),
            queued_count: 0,
            done_sound_pending: false,
        };
        assert(r@.sessions =~= Seq::<SessionV>::empty());
        assert(r@.approvals =~= Seq::<ApprovalV>::empty());
        assert(r@.questions =~= Seq::<QuestionV>::empty());
        assert(r@.done =~= Seq::<DoneEntryV>::empty());
        r
    }

    /// Consumes one event at the current time.
    pub fn apply(&mut self, event: StateEvent)
        requires
            old(self).wf(),
        ensures
            final(self).wf(),
            exists|now: u64| final(self)@ == step(old(self)@, event, now),
    {
        let now = crate::types::now_ms();
        self.apply_at(event, now);
    }

    /// Consumes one event at time `now` (epoch milliseconds).
    pub fn apply_at(&mut self, event: StateEvent, now: u64)
        requires
            old(self).wf(),
        ensures
            final(self).wf(),
            final(self)@ == step(old(self)@, event, now),
    {
        match event {
            StateEvent::Tick => self.expire_ttl(now),
            StateEvent::MuxFrame(frame) => self.apply_mux_frame(frame, now),
            StateEvent::HostFrame(frame) => self.apply_host_frame(frame, now),
            StateEvent::Poll { sessions, ok, error } => self.apply_poll(sessions, ok, error, now),
        }
    }
}

} // verus!

verus! {

/// The done entries of `v` still inside the done window at `now`.
fn retain_done_fresh(v: Vec<DoneEntry>, now: u64) -> (r: Vec<DoneEntry>)
    ensures
        views(r@) == views(v@).filter(done_fresh(now)),
{
    let mut keep: Vec<bool> = Vec::new();
    let mut i: usize = 0;
    while i < v.len()
        invariant
            i <= v.len(),
            keep.len() == i,
            forall|j: int| 0 <= j < i ==> keep@[j] == done_fresh(now)(#[trigger] v@[j]@),
        decreases v.len() - i,
    {
        keep.push(is_fresh(now, v[i].at, DONE_WINDOW_MS));
        i = i + 1;
    }
    filter_vec(v, &keep, Ghost(done_fresh(now)))
}

/// The approvals of `v` still inside their TTL at `now`.
fn retain_approvals_fresh(v: Vec<Approval>, now: u64) -> (r: Vec<Approval>)
    ensures
        views(r@) == views(v@).filter(approval_fresh(now)),
{
    let mut keep: Vec<bool> = Vec::new();
    let mut i: usize = 0;
    while i < v.len()
        invariant
            i <= v.len(),
            keep.len() == i,
            forall|j: int| 0 <= j < i ==> keep@[j] == approval_fresh(now)(#[trigger] v@[j]@),
        decreases v.len() - i,
    {
        keep.push(is_fresh(now, v[i].requested_at, PENDING_TTL_MS));
        i = i + 1;
    }
    filter_vec(v, &keep, Ghost(approval_fresh(now)))
}

/// The questions of `v` still inside their TTL at `now`.
fn retain_questions_fresh(v: Vec<Question>, now: u64) -> (r: Vec<Question>)
    ensures
        views(r@) == views(v@).filter(question_fresh(now)),
{
    let mut keep: Vec<bool> = Vec::new();
    let mut i: usize = 0;
    while i < v.len()
        invariant
            i <= v.len(),
            keep.len() == i,
            forall|j: int| 0 <= j < i ==> keep@[j] == question_fresh(now)(#[trigger] v@[j]@),
        decreases v.len() - i,
    {
        keep.push(is_fresh(now, v[i].requested_at, PENDING_TTL_MS));
        i = i + 1;
    }
    filter_vec(v, &keep, Ghost(question_fresh(now)))
}

/// The approvals of `v` that belong to another session than `sid`.
fn retain_approvals_not_of(v: Vec<Approval>, sid: &str) -> (r: Vec<Approval>)
    ensures
        views(r@) == views(v@).filter(approval_not_of(sid@)),
{
    let mut keep: Vec<bool> = Vec::new();
    let mut i: usize = 0;
    while i < v.len()
        invariant
            i <= v.len(),
            keep.len() == i,
            forall|j: int| 0 <= j < i ==> keep@[j] == approval_not_of(sid@)(#[trigger] v@[j]@),
        decreases v.len() - i,
    {
        keep.push(!str_eq(v[i].session_id.as_str(), sid));
        i = i + 1;
    }
    filter_vec(v, &keep, Ghost(approval_not_of(sid@)))
}

/// The questions of `v` that belong to another session than `sid`.
fn retain_questions_not_of(v: Vec<Question>, sid: &str) -> (r: Vec<Question>)
    ensures
        views(r@) == views(v@).filter(question_not_of(sid@)),
{
    let mut keep: Vec<bool> = Vec::new();
    let mut i: usize = 0;
    while i < v.len()
        invariant
            i <= v.len(),
            keep.len() == i,
            forall|j: int| 0 <= j < i ==> keep@[j] == question_not_of(sid@)(#[trigger] v@[j]@),
        decreases v.len() - i,
    {
        keep.push(!str_eq(v[i].session_id.as_str(), sid));
        i = i + 1;
    }
    filter_vec(v, &keep, Ghost(question_not_of(sid@)))
}

/// The sessions of `v` whose id is one of `ids`.
fn retain_sessions_among(v: Vec<Session>, ids: &Vec<String>) -> (r: Vec<Session>)
    ensures
        views(r@) == views(v@).filter(id_among(string_views(ids@))),
{
    let ghost p = id_among(string_views(ids@));
    let mut keep: Vec<bool> = Vec::new();
    let mut i: usize = 0;
    while i < v.len()
        invariant
            i <= v.len(),
            keep.len() == i,
            p == id_among(string_views(ids@)),
            forall|j: int| 0 <= j < i ==> keep@[j] == p(#[trigger] v@[j]@),
        decreases v.len() - i,
    {
        keep.push(contains_str(ids, v[i].id.as_str()));
        i = i + 1;
    }
    filter_vec(v, &keep, Ghost(p))
}

impl PetState {
    fn expire_ttl(&mut self, now: u64)
        requires
            old(self).wf(),
        ensures
            final(self).wf(),
            final(self)@ == tick_step(old(self)@, now),
    {
        let done = take_vec(&mut self.done);
        self.done = retain_done_fresh(done, now);
        let approvals = take_vec(&mut self.pending_approvals);
        self.pending_approvals = retain_approvals_fresh(approvals, now);
        let questions = take_vec(&mut self.pending_questions);
        self.pending_questions = retain_questions_fresh(questions, now);
        proof {
            crate::keyed::lemma_filter_unique(old(self)@.done, dk(), done_fresh(now));
            crate::keyed::lemma_filter_unique(old(self)@.approvals, ak(), approval_fresh(now));
            crate::keyed::lemma_filter_unique(old(self)@.questions, qk(), question_fresh(now));
        }
    }
}

} // verus!

verus! {

/// The string member `key` of `p`, or the empty string.
fn str_or_empty<'a>(p: &'a Json, key: &str) -> (r: &'a str)
    ensures
        r@ == or_empty(str_member(*p, key@)),
{
    match get_str(p, key) {
        Some(s) => s,
        None => {
            proof {
                reveal_strlit("");
            }
            ""
        },
    }
}

/// `questions[0].question` of a frame, or the empty string.
fn first_question_text(p: &Json) -> (r: String)
    ensures
        r@ == first_question(*p),
{
    match p.get("questions") {
        Some(qs) => match qs.as_array() {
            Some(arr) => if arr.len() > 0 {
                owned(str_or_empty(&arr[0], "question"))
            } else {
                String::new()
            },
            None => String::new(),
        },
        None => String::new(),
    }
}

/// Whether a frame says a turn ended as completed.
fn is_turn_end_completed(p: &Json) -> (r: bool)
    ensures
        r == turn_end_completed(*p),
{
    match p.get("event") {
        Some(e) => {
            let ty = match get_str(e, "type") {
                Some(t) => str_eq(t, "turn/end"),
                None => false,
            };
            let kind = match e.get("reason") {
                Some(r) => match get_str(r, "kind") {
                    Some(k) => str_eq(k, "completed"),
                    None => false,
                },
                None => false,
            };
            ty && kind
        },
        None => false,
    }
}

impl PetState {
    fn apply_mux_frame(&mut self, p: Json, now: u64)
        requires
            old(self).wf(),
        ensures
            final(self).wf(),
            final(self)@ == mux_step(old(self)@, p, now),
    {
        let t = str_or_empty(&p, "type");
        if str_eq(t, "approval/requested") {
            let id = get_str(&p, "approvalId");
            let sid = get_str(&p, "sessionId");
            let tool = get_str(&p, "toolName");
            if let (Some(id), Some(sid), Some(tool)) = (id, sid, tool) {
                let a = Approval {
                    approval_id: owned(id),
                    session_id: owned(sid),
                    tool_name: owned(tool),
                    reason: owned(str_or_empty(&p, "reason")),
                    requested_at: now,
                };
                proof {
                    crate::keyed::lemma_upsert_key(self@.approvals, ak(), a@);
                }
                upsert(&mut self.pending_approvals, a);
            }
        } else if str_eq(t, "approval/resolved") {
            if let Some(id) = get_str(&p, "approvalId") {
                proof {
                    crate::keyed::lemma_remove_key(self@.approvals, ak(), id@);
                }
                remove_by_key(&mut self.pending_approvals, id);
            }
        } else if str_eq(t, "question/requested") {
            if let Some(id) = get_str(&p, "questionRpcId") {
                let q = Question {
                    question_rpc_id: owned(id),
                    session_id: owned(str_or_empty(&p, "sessionId")),
                    text: first_question_text(&p),
                    requested_at: now,
                };
                proof {
                    crate::keyed::lemma_upsert_key(self@.questions, qk(), q@);
                }
                upsert(&mut self.pending_questions, q);
            }
        } else if str_eq(t, "question/resolved") {
            if let Some(id) = get_str(&p, "questionRpcId") {
                proof {
                    crate::keyed::lemma_remove_key(self@.questions, qk(), id@);
                }
                remove_by_key(&mut self.pending_questions, id);
            }
        } else if str_eq(t, "session/queue") {
            self.queued_count = match p.get("items") {
                Some(a) => match a.as_array() {
                    Some(arr) => arr.len(),
                    None => 0,
                },
                None => 0,
            };
        } else if str_eq(t, "session/event") && is_turn_end_completed(&p) {
            self.done_sound_pending = true;
        }
    }
}

} // verus!

verus! {

/// `running` of a frame, false when missing or not a boolean.
fn running_of(p: &Json) -> (r: bool)
    ensures
        r == frame_running(*p),
{
    match p.get("running") {
        Some(v) => match v.as_bool() {
            Some(b) => b,
            None => false,
        },
        None => false,
    }
}

impl PetState {
    fn apply_host_frame(&mut self, p: Json, now: u64)
        requires
            old(self).wf(),
        ensures
            final(self).wf(),
            final(self)@ == host_step(old(self)@, p, now),
    {
        let t = str_or_empty(&p, "type");
        if !str_eq(t, "host/session-status") {
            return ;
        }
        let sid = match get_str(&p, "sessionId") {
            Some(s) => owned(s),
            None => {
                return ;
            },
        };
        let running = running_of(&p);
        let ghost s0 = self@;
        match find_index(&self.sessions, sid.as_str()) {
            Some(i) => {
                proof {
                    crate::keyed::lemma_find_key(s0.sessions, sk(), sid@);
                }
                let mut cur = self.sessions.remove(i);
                let was_running = cur.running;
                let title = cur.title.clone();
                cur.running = running;
                let ghost curv = cur@;
                self.sessions.insert(i, cur);
                assert(views(self.sessions@) =~= s0.sessions.update(i as int, curv));
                proof {
                    crate::keyed::lemma_upsert_key(s0.sessions, sk(), curv);
                }
                if was_running && !running {
                    let d = DoneEntry { session_id: sid.clone(), title, at: now };
                    proof {
                        crate::keyed::lemma_upsert_key(s0.done, dk(), d@);
                    }
                    upsert(&mut self.done, d);
                }
            },
            None => {},
        }
        if !running {
            let ghost s2 = self@;
            let approvals = take_vec(&mut self.pending_approvals);
            self.pending_approvals = retain_approvals_not_of(approvals, sid.as_str());
            let questions = take_vec(&mut self.pending_questions);
            self.pending_questions = retain_questions_not_of(questions, sid.as_str());
            proof {
                crate::keyed::lemma_filter_unique(s2.approvals, ak(), approval_not_of(sid@));
                crate::keyed::lemma_filter_unique(s2.questions, qk(), question_not_of(sid@));
            }
        }
    }
}

} // verus!

verus! {

impl PetState {
    /// Folds one polled item into the sessions and the done list.
    fn poll_one(&mut self, item: SessionItem, now: u64)
        requires
            keys_unique(old(self)@.sessions, sk()),
            keys_unique(old(self)@.done, dk()),
        ensures
            keys_unique(final(self)@.sessions, sk()),
            keys_unique(final(self)@.done, dk()),
            final(self)@ == (PetStateV {
                sessions: poll_item((old(self)@.sessions, old(self)@.done), item, now).0,
                done: poll_item((old(self)@.sessions, old(self)@.done), item, now).1,
                ..old(self)@
            }),
    {
        let ghost item0 = item;
        let SessionItem { session_id, running, projections } = item;
        let (title_opt, todos) = match projections {
            Some(p) => match p.values {
                Some(v) => (v.title, v.todos),
                None => (None, None),
            },
            None => (None, None),
        };
        let title = match title_opt {
            Some(t) => t,
            None => owned("未命名会话"),
        };
        assert(title@ == polled_title(item0));
        let was_running = match get_by_key(&self.sessions, session_id.as_str()) {
            Some(p) => p.running,
            None => false,
        };
        let cur = Session {
            id: session_id.clone(),
            title: title.clone(),
            running,
            todos,
        };
        proof {
            crate::keyed::lemma_upsert_key(self@.sessions, sk(), cur@);
        }
        upsert(&mut self.sessions, cur);
        if was_running && !running {
            let d = DoneEntry { session_id, title, at: now };
            proof {
                crate::keyed::lemma_upsert_key(self@.done, dk(), d@);
            }
            upsert(&mut self.done, d);
        }
    }

    fn apply_poll(&mut self, items: Vec<SessionItem>, ok: bool, error: Option<String>, now: u64)
        requires
            old(self).wf(),
        ensures
            final(self).wf(),
            final(self)@ == poll_step(old(self)@, items@, ok, error, now),
    {
        if !ok {
            self.connected = false;
            self.last_error = error;
            return ;
        }
        self.connected = true;
        self.last_error = None;
        let ghost items_seq = items@;
        let mut seen: Vec<String> = Vec::new();
        let mut i: usize = 0;
        while i < items.len()
            invariant
                i <= items.len(),
                items@ == items_seq,
                seen.len() == i,
                string_views(seen@) == item_ids(items_seq.take(i as int)),
            decreases items.len() - i,
        {
            let id = items[i].session_id.clone();
            let ghost before = seen@;
            seen.push(id);
            assert forall|j: int| 0 <= j < i + 1 implies #[trigger] string_views(seen@)[j]
                == item_ids(items_seq.take(i + 1))[j] by {
                assert(seen@[j] == before.push(id)[j]);
                if j < i {
                    assert(string_views(before)[j] == item_ids(items_seq.take(i as int))[j]);
                    assert(items_seq.take(i as int)[j] == items_seq.take(i + 1)[j]);
                } else {
                    assert(seen@[j] == id);
                    assert(items_seq.take(i + 1)[j] == items_seq[i as int]);
                }
            }
            assert(string_views(seen@) =~= item_ids(items_seq.take(i + 1)));
            i = i + 1;
        }
        assert(items_seq.take(items_seq.len() as int) =~= items_seq);
        let ghost s1 = self@;
        let ghost start = (s1.sessions, s1.done);
        let mut k: usize = 0;
        assert(items_seq.take(0) =~= Seq::<SessionItem>::empty());
        for item in it: items
            invariant
                it.seq() == items_seq,
                k == it.index(),
                k <= items_seq.len(),
                items_seq.len() <= usize::MAX,
                (self@.sessions, self@.done) == poll_items(start, items_seq.take(k as int), now),
                keys_unique(self@.sessions, sk()),
                keys_unique(self@.done, dk()),
                self@ == (PetStateV { sessions: self@.sessions, done: self@.done, ..s1 }),
        {
            assert(items_seq.take(k + 1).drop_last() =~= items_seq.take(k as int));
            assert(items_seq.take(k + 1).last() == items_seq[k as int]);
            self.poll_one(item, now);
            k = k + 1;
        }
        assert(items_seq.take(items_seq.len() as int) =~= items_seq);
        let ghost s2 = self@;
        let sessions = take_vec(&mut self.sessions);
        self.sessions = retain_sessions_among(sessions, &seen);
        let done = take_vec(&mut self.done);
        self.done = retain_done_fresh(done, now);
        proof {
            crate::keyed::lemma_filter_unique(s2.sessions, sk(), id_among(item_ids(items_seq)));
            crate::keyed::lemma_filter_unique(s2.done, dk(), done_fresh(now));
        }
    }
}

} // verus!

verus! {

proof fn lemma_join_push(s: Seq<Seq<char>>, x: Seq<char>)
    ensures
        join_lines(s.push(x)) == if s.len() == 0 {
            x
        } else {
            join_lines(s) + "\n"@ + x
        },
{
    assert(s.push(x).drop_last() =~= s);
    if s.len() == 0 {
        assert(s.push(x)[0] == x);
    }
}

/// The numbered list of `texts`, each line `<n>. <pre><text><suf>`.
pub(crate) fn numbered_body(texts: &Vec<String>, pre: &str, suf: &str) -> (r: String)
    ensures
        r@ == numbered(string_views(texts@), pre@, suf@),
{
    let ghost tv = string_views(texts@);
    let mut body = String::new();
    let mut i: usize = 0;
    assert(numbered_lines(tv.take(0), pre@, suf@) =~= Seq::<Seq<char>>::empty());
    while i < texts.len()
        invariant
            i <= texts.len(),
            tv == string_views(texts@),
            body@ == join_lines(numbered_lines(tv.take(i as int), pre@, suf@)),
        decreases texts.len() - i,
    {
        let ghost line = dec((i + 1) as nat) + ". "@ + pre@ + tv[i as int] + suf@;
        let ghost before = numbered_lines(tv.take(i as int), pre@, suf@);
        assert(numbered_lines(tv.take(i + 1), pre@, suf@) =~= before.push(line));
        proof {
            lemma_join_push(before, line);
        }
        if i > 0 {
            push_str(&mut body, "\n");
        } else {
            assert(body@ =~= Seq::<char>::empty());
        }
        let n = dec_string(i + 1);
        push_str(&mut body, n.as_str());
        push_str(&mut body, ". ");
        push_str(&mut body, pre);
        push_str(&mut body, texts[i].as_str());
        push_str(&mut body, suf);
        assert(body@ =~= join_lines(numbered_lines(tv.take(i + 1), pre@, suf@)));
        i = i + 1;
    }
    assert(tv.take(texts.len() as int) =~= tv);
    body
}

impl PetState {
    /// The title of session `id`, or a stand-in name when it is unknown.
    fn session_title(&self, id: &str) -> (r: String)
        ensures
            r@ == title_of(self@, id@),
    {
        match get_by_key(&self.sessions, id) {
            Some(s) => s.title.clone(),
            None => owned("某会话"),
        }
    }

    /// The running sessions, in list order.
    fn running_list(&self) -> (r: Vec<SessionRef>)
        ensures
            views(r@) == running_refs(self@),
    {
        let ghost ss = self@.sessions;
        let mut r: Vec<SessionRef> = Vec::new();
        let mut i: usize = 0;
        proof {
            reveal(Seq::filter);
        }
        assert(ss.take(0).filter(is_running()) =~= Seq::<SessionV>::empty());
        while i < self.sessions.len()
            invariant
                i <= self.sessions.len(),
                ss == self@.sessions,
                views(r@) == session_refs(ss.take(i as int).filter(is_running())),
            decreases self.sessions.len() - i,
        {
            proof {
                reveal(Seq::filter);
            }
            assert(ss.take(i + 1).drop_last() =~= ss.take(i as int));
            assert(ss.take(i + 1).last() == ss[i as int]);
            let ghost before = r@;
            if self.sessions[i].running {
                let x = SessionRef {
                    session_id: self.sessions[i].id.clone(),
                    title: self.sessions[i].title.clone(),
                };
                r.push(x);
                assert(views(r@) =~= views(before).push(session_ref(ss[i as int])));
                assert(ss.take(i + 1).filter(is_running()) == ss.take(i as int).filter(
                    is_running(),
                ).push(ss[i as int]));
                assert(session_refs(ss.take(i + 1).filter(is_running())) =~= session_refs(
                    ss.take(i as int).filter(is_running()),
                ).push(session_ref(ss[i as int])));
            } else {
                assert(ss.take(i + 1).filter(is_running()) == ss.take(i as int).filter(
                    is_running(),
                ));
            }
            i = i + 1;
        }
        assert(ss.take(ss.len() as int) =~= ss);
        r
    }

    /// Approvals, then questions, as attention items.
    fn attention_list(&self) -> (r: Vec<AttentionItem>)
        ensures
            views(r@) == attention_items(self@),
    {
        let ghost s = self@;
        let mut r: Vec<AttentionItem> = Vec::new();
        let mut i: usize = 0;
        while i < self.pending_approvals.len()
            invariant
                i <= self.pending_approvals.len(),
                s == self@,
                views(r@) == approval_items(s, s.approvals.take(i as int)),
            decreases self.pending_approvals.len() - i,
        {
            let a = &self.pending_approvals[i];
            let mut text = owned("「");
            let title = self.session_title(a.session_id.as_str());
            push_str(&mut text, title.as_str());
            push_str(&mut text, "」请求使用 ");
            push_str(&mut text, a.tool_name.as_str());
            let item = AttentionItem {
                kind: AttentionKind::Approval,
                session_id: a.session_id.clone(),
                text,
            };
            let ghost before = r@;
            r.push(item);
            assert(views(r@) =~= views(before).push(approval_item(s, s.approvals[i as int])));
            assert(approval_items(s, s.approvals.take(i + 1)) =~= approval_items(
                s,
                s.approvals.take(i as int),
            ).push(approval_item(s, s.approvals[i as int])));
            i = i + 1;
        }
        assert(s.approvals.take(s.approvals.len() as int) =~= s.approvals);
        assert(question_items(s, s.questions.take(0)) =~= Seq::<AttentionItemV>::empty());
        assert(approval_items(s, s.approvals) + question_items(s, s.questions.take(0))
            =~= approval_items(s, s.approvals));
        let mut j: usize = 0;
        while j < self.pending_questions.len()
            invariant
                j <= self.pending_questions.len(),
                s == self@,
                views(r@) == approval_items(s, s.approvals) + question_items(
                    s,
                    s.questions.take(j as int),
                ),
            decreases self.pending_questions.len() - j,
        {
            let q = &self.pending_questions[j];
            let mut text = owned("「");
            let title = self.session_title(q.session_id.as_str());
            push_str(&mut text, title.as_str());
            push_str(&mut text, "」：");
            push_str(&mut text, q.text.as_str());
            let item = AttentionItem {
                kind: AttentionKind::Question,
                session_id: q.session_id.clone(),
                text,
            };
            let ghost before = r@;
            r.push(item);
            assert(views(r@) =~= views(before).push(question_item(s, s.questions[j as int])));
            assert(question_items(s, s.questions.take(j + 1)) =~= question_items(
                s,
                s.questions.take(j as int),
            ).push(question_item(s, s.questions[j as int])));
            assert(views(r@) =~= approval_items(s, s.approvals) + question_items(
                s,
                s.questions.take(j + 1),
            ));
            j = j + 1;
        }
        assert(s.questions.take(s.questions.len() as int) =~= s.questions);
        r
    }

    /// The done entries, in list order.
    fn done_list(&self) -> (r: Vec<DoneRef>)
        ensures
            views(r@) == done_refs(self@),
    {
        let ghost s = self@;
        let mut r: Vec<DoneRef> = Vec::new();
        let mut i: usize = 0;
        while i < self.done.len()
            invariant
                i <= self.done.len(),
                s == self@,
                views(r@) == done_refs_of(s.done.take(i as int)),
            decreases self.done.len() - i,
        {
            let x = DoneRef {
                session_id: self.done[i].session_id.clone(),
                title: self.done[i].title.clone(),
            };
            let ghost before = r@;
            r.push(x);
            assert(views(r@) =~= views(before).push(done_ref(s.done[i as int])));
            assert(done_refs_of(s.done.take(i + 1)) =~= done_refs_of(s.done.take(i as int)).push(
                done_ref(s.done[i as int]),
            ));
            i = i + 1;
        }
        assert(s.done.take(s.done.len() as int) =~= s.done);
        r
    }
}

} // verus!

verus! {

/// The text of each attention item.
fn attention_texts(items: &Vec<AttentionItem>) -> (r: Vec<String>)
    ensures
        string_views(r@) == views(items@).map_values(|a: AttentionItemV| a.text),
{
    let mut r: Vec<String> = Vec::new();
    let mut i: usize = 0;
    while i < items.len()
        invariant
            i <= items.len(),
            r.len() == i,
            forall|j: int| 0 <= j < i ==> (#[trigger] r@[j])@ == items@[j].text@,
        decreases items.len() - i,
    {
        r.push(items[i].text.clone());
        i = i + 1;
    }
    assert(string_views(r@) =~= views(items@).map_values(|a: AttentionItemV| a.text));
    r
}

/// The title of each running session.
fn running_titles(items: &Vec<SessionRef>) -> (r: Vec<String>)
    ensures
        string_views(r@) == views(items@).map_values(|x: SessionRefV| x.title),
{
    let mut r: Vec<String> = Vec::new();
    let mut i: usize = 0;
    while i < items.len()
        invariant
            i <= items.len(),
            r.len() == i,
            forall|j: int| 0 <= j < i ==> (#[trigger] r@[j])@ == items@[j].title@,
        decreases items.len() - i,
    {
        r.push(items[i].title.clone());
        i = i + 1;
    }
    assert(string_views(r@) =~= views(items@).map_values(|x: SessionRefV| x.title));
    r
}

/// The title of each done entry.
fn done_titles(items: &Vec<DoneRef>) -> (r: Vec<String>)
    ensures
        string_views(r@) == views(items@).map_values(|x: DoneRefV| x.title),
{
    let mut r: Vec<String> = Vec::new();
    let mut i: usize = 0;
    while i < items.len()
        invariant
            i <= items.len(),
            r.len() == i,
            forall|j: int| 0 <= j < i ==> (#[trigger] r@[j])@ == items@[j].title@,
        decreases items.len() - i,
    {
        r.push(items[i].title.clone());
        i = i + 1;
    }
    assert(string_views(r@) =~= views(items@).map_values(|x: DoneRefV| x.title));
    r
}

impl PetState {
    /// Builds the render snapshot and records its mode as the current mode.
    pub fn build_snapshot(&mut self) -> (r: Snapshot)
        ensures
            r@ == snapshot_of(old(self)@),
            final(self)@ == (PetStateV { mode: r.mode, ..old(self)@ }),
    {
        let running = self.running_list();
        let attention = self.attention_list();
        let done_list = self.done_list();
        let ghost s = self@;
        proof {
            reveal_strlit("");
        }
        let (mode, title, body) = if !self.connected {
            let body = match &self.last_error {
                Some(e) => {
                    let mut b = owned("GUI 无响应（");
                    push_str(&mut b, e.as_str());
                    push_str(&mut b, "）");
                    b
                },
                None => owned("GUI 未启动，我会自动重试"),
            };
            (Mode::Offline, owned("连不上 DSH 😢"), body)
        } else if attention.len() > 0 {
            let mut title = owned("需要你确认 · ");
            let n = dec_string(attention.len());
            push_str(&mut title, n.as_str());
            push_str(&mut title, " 项");
            let texts = attention_texts(&attention);
            assert(string_views(texts@) =~= attention_items(s).map_values(
                |a: AttentionItemV| a.text,
            ));
            let body = numbered_body(&texts, "", "");
            (Mode::Attention, title, body)
        } else if running.len() > 0 {
            let titles = running_titles(&running);
            assert(string_views(titles@) =~= running_refs(s).map_values(|r: SessionRefV| r.title));
            let mut body = numbered_body(&titles, "「", "」");
            if done_list.len() > 0 {
                push_str(&mut body, "\n—\n另有 ");
                let n = dec_string(done_list.len());
                push_str(&mut body, n.as_str());
                push_str(&mut body, " 个已完成待查看");
            }
            let mut title = owned("正在干活…（");
            let n = dec_string(running.len());
            push_str(&mut title, n.as_str());
            push_str(&mut title, " 个会话）");
            (Mode::Working, title, body)
        } else if done_list.len() > 0 {
            let titles = done_titles(&done_list);
            assert(string_views(titles@) =~= done_refs(s).map_values(|d: DoneRefV| d.title));
            (Mode::Done, owned("任务完成啦 🎉"), numbered_body(&titles, "「", "」"))
        } else {
            (Mode::Idle, owned("休息中 💤"), owned("没有运行中的任务"))
        };
        self.mode = mode;
        let r = Snapshot {
            mode,
            bubble: Bubble { title, body },
            running,
            attention,
            done: done_list,
            queued: self.queued_count,
        };
        assert(r@.bubble == snapshot_bubble(s));
        r
    }
}

} // verus!
