//! Core types: the whale's mode, sessions, pending items, the render snapshot
//! and the events the state aggregator consumes.

use vstd::prelude::*;

use crate::json::Json;
use crate::keyed::{views, Keyed};
use crate::strings::owned;

verus! {

/// The whale's mode. Priority from high to low:
/// starting > offline > attention > working > done > idle.
#[derive(Debug, Clone, Copy, PartialEq, Eq, Hash, Structural)]
pub enum Mode {
    Starting,
    Offline,
    Attention,
    Working,
    Done,
    Idle,
}

/// The lower-case name of a mode.
pub open spec fn mode_name(m: Mode) -> Seq<char> {
    match m {
        Mode::Starting => "starting"@,
        Mode::Offline => "offline"@,
        Mode::Attention => "attention"@,
        Mode::Working => "working"@,
        Mode::Done => "done"@,
        Mode::Idle => "idle"@,
    }
}

/// Whether a mode is animated (every mode except `Offline`).
pub open spec fn mode_animating(m: Mode) -> bool {
    m != Mode::Offline
}

impl Mode {
    /// The lower-case name of the mode.
    pub fn as_str(&self) -> (r: &'static str)
        ensures
            r@ == mode_name(*self),
    {
        match self {
            Mode::Starting => "starting",
            Mode::Offline => "offline",
            Mode::Attention => "attention",
            Mode::Working => "working",
            Mode::Done => "done",
            Mode::Idle => "idle",
        }
    }

    /// Whether the mode is animated (decides whether to keep redrawing).
    pub fn is_animating(self) -> (r: bool)
        ensures
            r == mode_animating(self),
    {
        match self {
            Mode::Working | Mode::Done | Mode::Idle | Mode::Attention | Mode::Starting => true,
            Mode::Offline => false,
        }
    }
}

/// A DSH session as the state keeps it.
#[derive(Debug)]
pub struct Session {
    pub id: String,
    pub title: String,
    pub running: bool,
    pub todos: Option<Json>,
}

pub ghost struct SessionV {
    pub id: Seq<char>,
    pub title: Seq<char>,
    pub running: bool,
    pub todos: Option<Json>,
}

impl View for Session {
    type V = SessionV;

    open spec fn view(&self) -> SessionV {
        SessionV { id: self.id@, title: self.title@, running: self.running, todos: self.todos }
    }
}

impl Keyed for Session {
    open spec fn key_of(v: SessionV) -> Seq<char> {
        v.id
    }

    fn key(&self) -> (r: &str) {
        self.id.as_str()
    }
}

/// A pending approval.
#[derive(Debug, Clone)]
pub struct Approval {
    pub approval_id: String,
    pub session_id: String,
    pub tool_name: String,
    pub reason: String,
    /// epoch milliseconds
    pub requested_at: u64,
}

pub ghost struct ApprovalV {
    pub approval_id: Seq<char>,
    pub session_id: Seq<char>,
    pub tool_name: Seq<char>,
    pub reason: Seq<char>,
    pub requested_at: u64,
}

impl View for Approval {
    type V = ApprovalV;

    open spec fn view(&self) -> ApprovalV {
        ApprovalV {
            approval_id: self.approval_id@,
            session_id: self.session_id@,
            tool_name: self.tool_name@,
            reason: self.reason@,
            requested_at: self.requested_at,
        }
    }
}

impl Keyed for Approval {
    open spec fn key_of(v: ApprovalV) -> Seq<char> {
        v.approval_id
    }

    fn key(&self) -> (r: &str) {
        self.approval_id.as_str()
    }
}

/// A pending question.
#[derive(Debug, Clone)]
pub struct Question {
    pub question_rpc_id: String,
    pub session_id: String,
    pub text: String,
    pub requested_at: u64,
}

pub ghost struct QuestionV {
    pub question_rpc_id: Seq<char>,
    pub session_id: Seq<char>,
    pub text: Seq<char>,
    pub requested_at: u64,
}

impl View for Question {
    type V = QuestionV;

    open spec fn view(&self) -> QuestionV {
        QuestionV {
            question_rpc_id: self.question_rpc_id@,
            session_id: self.session_id@,
            text: self.text@,
            requested_at: self.requested_at,
        }
    }
}

impl Keyed for Question {
    open spec fn key_of(v: QuestionV) -> Seq<char> {
        v.question_rpc_id
    }

    fn key(&self) -> (r: &str) {
        self.question_rpc_id.as_str()
    }
}

/// A session that finished and is waiting to be looked at.
#[derive(Debug, Clone)]
pub struct DoneEntry {
    pub session_id: String,
    pub title: String,
    /// epoch milliseconds
    pub at: u64,
}

pub ghost struct DoneEntryV {
    pub session_id: Seq<char>,
    pub title: Seq<char>,
    pub at: u64,
}

impl View for DoneEntry {
    type V = DoneEntryV;

    open spec fn view(&self) -> DoneEntryV {
        DoneEntryV { session_id: self.session_id@, title: self.title@, at: self.at }
    }
}

impl Keyed for DoneEntry {
    open spec fn key_of(v: DoneEntryV) -> Seq<char> {
        v.session_id
    }

    fn key(&self) -> (r: &str) {
        self.session_id.as_str()
    }
}

/// The bubble text: a title and a body whose lines are separated by `\n`.
#[derive(Debug, Clone, PartialEq)]
pub struct Bubble {
    pub title: String,
    pub body: String,
}

pub ghost struct BubbleV {
    pub title: Seq<char>,
    pub body: Seq<char>,
}

impl View for Bubble {
    type V = BubbleV;

    open spec fn view(&self) -> BubbleV {
        BubbleV { title: self.title@, body: self.body@ }
    }
}

/// A running session, as the snapshot lists it.
#[derive(Debug, Clone, PartialEq)]
pub struct SessionRef {
    pub session_id: String,
    pub title: String,
}

pub ghost struct SessionRefV {
    pub session_id: Seq<char>,
    pub title: Seq<char>,
}

impl View for SessionRef {
    type V = SessionRefV;

    open spec fn view(&self) -> SessionRefV {
        SessionRefV { session_id: self.session_id@, title: self.title@ }
    }
}

/// What an attention item waits for.
#[derive(Debug, Clone, Copy, PartialEq, Eq, Structural)]
pub enum AttentionKind {
    Approval,
    Question,
}

/// An item that needs the user: an approval or a question.
#[derive(Debug, Clone, PartialEq)]
pub struct AttentionItem {
    pub kind: AttentionKind,
    pub session_id: String,
    pub text: String,
}

pub ghost struct AttentionItemV {
    pub kind: AttentionKind,
    pub session_id: Seq<char>,
    pub text: Seq<char>,
}

impl View for AttentionItem {
    type V = AttentionItemV;

    open spec fn view(&self) -> AttentionItemV {
        AttentionItemV { kind: self.kind, session_id: self.session_id@, text: self.text@ }
    }
}

/// A finished session, as the snapshot lists it.
#[derive(Debug, Clone, PartialEq)]
pub struct DoneRef {
    pub session_id: String,
    pub title: String,
}

pub ghost struct DoneRefV {
    pub session_id: Seq<char>,
    pub title: Seq<char>,
}

impl View for DoneRef {
    type V = DoneRefV;

    open spec fn view(&self) -> DoneRefV {
        DoneRefV { session_id: self.session_id@, title: self.title@ }
    }
}

/// What the UI renders: the mode, the bubble and the lists behind it.
#[derive(Debug, Clone, PartialEq)]
pub struct Snapshot {
    pub mode: Mode,
    pub bubble: Bubble,
    pub running: Vec<SessionRef>,
    pub attention: Vec<AttentionItem>,
    pub done: Vec<DoneRef>,
    pub queued: usize,
}

pub ghost struct SnapshotV {
    pub mode: Mode,
    pub bubble: BubbleV,
    pub running: Seq<SessionRefV>,
    pub attention: Seq<AttentionItemV>,
    pub done: Seq<DoneRefV>,
    pub queued: usize,
}

impl View for Snapshot {
    type V = SnapshotV;

    open spec fn view(&self) -> SnapshotV {
        SnapshotV {
            mode: self.mode,
            bubble: self.bubble@,
            running: views(self.running@),
            attention: views(self.attention@),
            done: views(self.done@),
            queued: self.queued,
        }
    }
}

/// The snapshot shown while the pet starts.
pub open spec fn starting_snapshot() -> SnapshotV {
    SnapshotV {
        mode: Mode::Starting,
        bubble: BubbleV { title: "启动中…"@, body: "正在连接 DSH"@ },
        running: Seq::empty(),
        attention: Seq::empty(),
        done: Seq::empty(),
        queued: 0,
    }
}

impl Snapshot {
    /// The initial snapshot, shown while the pet connects.
    pub fn starting() -> (r: Self)
        ensures
            r@ == starting_snapshot(),
    {
        let r = Snapshot {
            mode: Mode::Starting,
            bubble: Bubble { title: owned("启动中…"), body: owned("正在连接 DSH") },
            running: Vec::new(),
            attention: Vec::new(),
            done: Vec::new(),
            queued: 0,
        };
        assert(r@.running =~= Seq::<SessionRefV>::empty());
        assert(r@.attention =~= Seq::<AttentionItemV>::empty());
        assert(r@.done =~= Seq::<DoneRefV>::empty());
        r
    }
}

/// The values a session's projections carry.
#[derive(Debug)]
pub struct ProjectionValues {
    pub title: Option<String>,
    pub todos: Option<Json>,
}

/// A session's projections.
#[derive(Debug)]
pub struct Projections {
    pub values: Option<ProjectionValues>,
}

/// One item of the `session.list` answer.
#[derive(Debug)]
pub struct SessionItem {
    pub session_id: String,
    pub running: bool,
    pub projections: Option<Projections>,
}

/// The title a session item carries, if any.
pub open spec fn item_title(s: SessionItem) -> Option<Seq<char>> {
    match s.projections {
        Some(p) => match p.values {
            Some(v) => match v.title {
                Some(t) => Some(t@),
                None => None,
            },
            None => None,
        },
        None => None,
    }
}

/// The todos a session item carries, if any.
pub open spec fn item_todos(s: SessionItem) -> Option<Json> {
    match s.projections {
        Some(p) => match p.values {
            Some(v) => v.todos,
            None => None,
        },
        None => None,
    }
}

/// An event for the state aggregator.
#[derive(Debug)]
pub enum StateEvent {
    /// The result of polling `session.list`.
    Poll { sessions: Vec<SessionItem>, ok: bool, error: Option<String> },
    /// A frame pushed on `/api/events.mux`.
    MuxFrame(Json),
    /// A frame pushed on `/api/events.host`.
    HostFrame(Json),
    /// The periodic tick that expires stale entries.
    Tick,
}

/// An RPC answer.
#[derive(Debug)]
pub struct RpcResponse {
    pub result: RpcResult,
}

/// The result part of an RPC answer.
#[derive(Debug)]
pub struct RpcResult {
    pub ok: bool,
    pub value: Option<Json>,
    pub error: Option<RpcError>,
}

/// The error part of an RPC answer.
#[derive(Debug, Clone)]
pub struct RpcError {
    pub message: String,
}

#[verifier::external_type_specification]
#[verifier::external_body]
pub struct ExSystemTimeError(std::time::SystemTimeError);

/// Time elapsed since the Unix epoch.
///
/// Trusted: calls `SystemTime::elapsed` on `UNIX_EPOCH`. The result depends
/// on the clock, so nothing is stated of it.
#[verifier::external_body]
fn epoch_elapsed() -> (r: Result<std::time::Duration, std::time::SystemTimeError>) {
    std::time::UNIX_EPOCH.elapsed()
}

/// Whole milliseconds of a duration.
///
/// Trusted: calls `Duration::as_millis`; nothing is stated of the result
/// (the duration is opaque here).
#[verifier::external_body]
fn duration_millis(d: &std::time::Duration) -> (r: u128) {
    d.as_millis()
}

/// Epoch milliseconds from the elapsed time since the epoch: the whole
/// milliseconds cut to 64 bits, or 0 when the clock stands before the epoch
/// (`None`).
pub open spec fn epoch_ms(elapsed_ms: Option<u128>) -> u64 {
    match elapsed_ms {
        Some(m) => m as u64,
        None => 0,
    }
}

/// Epoch milliseconds from the milliseconds elapsed since the epoch, `None`
/// when the clock reads before it.
pub fn now_ms_of(elapsed_ms: Option<u128>) -> (r: u64)
    ensures
        r == epoch_ms(elapsed_ms),
{
    match elapsed_ms {
        Some(m) => m as u64,
        None => 0,
    }
}

/// The current time in epoch milliseconds (0 when the clock is before the epoch).
pub fn now_ms() -> u64 {
    let elapsed_ms = match epoch_elapsed() {
        Ok(d) => Some(duration_millis(&d)),
        Err(_) => None,
    };
    now_ms_of(elapsed_ms)
}

} // verus!
