//! Synthetic snapshots for the screenshot self-check (`--shot`): one per
//! mode, with example sessions.

use vstd::prelude::*;

use crate::keyed::views;
use crate::state::numbered;
use crate::strings::{dec, dec_string, owned, push_str, string_views};
use crate::types::{
    AttentionItem, AttentionItemV, AttentionKind, Bubble, BubbleV, DoneRef, DoneRefV, Mode,
    SessionRef, SessionRefV, Snapshot, SnapshotV,
};

verus! {

/// The session id `s<n>`.
pub open spec fn shot_id(n: nat) -> Seq<char> {
    "s"@ + dec(n)
}

/// The title of example session `n`.
pub open spec fn shot_session_title(n: nat) -> Seq<char> {
    "示例会话 "@ + dec(n) + "：市场调研与竞品分析报告"@
}

/// The tool of example approval `k` (from 0).
pub open spec fn shot_tool(k: int) -> Seq<char> {
    seq!["bash"@, "write"@, "edit"@, "glob"@][k]
}

/// The text of example approval `k` (from 0).
pub open spec fn shot_attention_text(k: int) -> Seq<char> {
    "「会话 "@ + dec((k + 1) as nat) + "」请求使用 "@ + shot_tool(k)
}

/// The title of example finished task `n`.
pub open spec fn shot_done_title(n: nat) -> Seq<char> {
    "示例：任务 "@ + dec(n) + " 完成"@
}

pub open spec fn shot_running() -> Seq<SessionRefV> {
    Seq::new(
        6,
        |k: int| SessionRefV { session_id: shot_id((k + 1) as nat), title: shot_session_title((k + 1) as nat) },
    )
}

pub open spec fn shot_attention() -> Seq<AttentionItemV> {
    Seq::new(
        4,
        |k: int|
            AttentionItemV {
                kind: AttentionKind::Approval,
                session_id: shot_id((k + 1) as nat),
                text: shot_attention_text(k),
            },
    )
}

pub open spec fn shot_done() -> Seq<DoneRefV> {
    Seq::new(
        3,
        |k: int| DoneRefV { session_id: shot_id((k + 1) as nat), title: shot_done_title((k + 1) as nat) },
    )
}

/// The synthetic snapshot of a mode: six running sessions, four approvals or
/// three finished tasks for working / attention / done, the fixed texts of
/// the other modes, and nothing queued.
pub open spec fn fake_snapshot_spec(mode: Mode) -> SnapshotV {
    let (title, body, running, attention, done) = match mode {
        Mode::Working => (
            "正在干活…（6 个会话）"@,
            numbered(Seq::new(6, |k: int| shot_session_title((k + 1) as nat)), "「"@, "」"@),
            shot_running(),
            Seq::empty(),
            Seq::empty(),
        ),
        Mode::Attention => (
            "需要你确认 · 4 项"@,
            numbered(Seq::new(4, |k: int| shot_attention_text(k)), ""@, ""@),
            Seq::empty(),
            shot_attention(),
            Seq::empty(),
        ),
        Mode::Done => (
            "任务完成啦 🎉"@,
            numbered(Seq::new(3, |k: int| shot_done_title((k + 1) as nat)), "「"@, "」"@),
            Seq::empty(),
            Seq::empty(),
            shot_done(),
        ),
        Mode::Idle => ("休息中 💤"@, "没有运行中的任务"@, Seq::empty(), Seq::empty(), Seq::empty()),
        Mode::Offline => (
            "连不上 DSH 😢"@,
            "GUI 无响应，我会自动重试"@,
            Seq::empty(),
            Seq::empty(),
            Seq::empty(),
        ),
        Mode::Starting => ("启动中…"@, "正在连接 DSH"@, Seq::empty(), Seq::empty(), Seq::empty()),
    };
    SnapshotV {
        mode,
        bubble: BubbleV { title, body },
        running,
        attention,
        done,
        queued: 0,
    }
}

fn id_string(n: usize) -> (r: String)
    ensures
        r@ == shot_id(n as nat),
{
    let mut r = owned("s");
    let d = dec_string(n);
    push_str(&mut r, d.as_str());
    r
}

fn tool_name(k: usize) -> (r: &'static str)
    requires
        k < 4,
    ensures
        r@ == shot_tool(k as int),
{
    if k == 0 {
        "bash"
    } else if k == 1 {
        "write"
    } else if k == 2 {
        "edit"
    } else {
        "glob"
    }
}

/// The example sessions, all running.
fn shot_running_list() -> (r: (Vec<SessionRef>, Vec<String>))
    ensures
        views(r.0@) == shot_running(),
        string_views(r.1@) == Seq::new(6, |k: int| shot_session_title((k + 1) as nat)),
{
    let mut refs: Vec<SessionRef> = Vec::new();
    let mut titles: Vec<String> = Vec::new();
    let mut i: usize = 1;
    while i <= 6
        invariant
            1 <= i <= 7,
            refs.len() == i - 1,
            titles.len() == i - 1,
            forall|k: int| 0 <= k < i - 1 ==> (#[trigger] refs@[k])@ == shot_running()[k],
            forall|k: int| 0 <= k < i - 1 ==> (#[trigger] titles@[k])@ == shot_session_title((k + 1) as nat),
        decreases 7 - i,
    {
        let mut title = owned("示例会话 ");
        let d = dec_string(i);
        push_str(&mut title, d.as_str());
        push_str(&mut title, "：市场调研与竞品分析报告");
        titles.push(title.clone());
        refs.push(SessionRef { session_id: id_string(i), title });
        i = i + 1;
    }
    assert(views(refs@) =~= shot_running());
    assert(string_views(titles@) =~= Seq::new(6, |k: int| shot_session_title((k + 1) as nat)));
    (refs, titles)
}

/// The example approvals.
fn shot_attention_list() -> (r: (Vec<AttentionItem>, Vec<String>))
    ensures
        views(r.0@) == shot_attention(),
        string_views(r.1@) == Seq::new(4, |k: int| shot_attention_text(k)),
{
    let mut items: Vec<AttentionItem> = Vec::new();
    let mut texts: Vec<String> = Vec::new();
    let mut k: usize = 0;
    while k < 4
        invariant
            k <= 4,
            items.len() == k,
            texts.len() == k,
            forall|j: int| 0 <= j < k ==> (#[trigger] items@[j])@ == shot_attention()[j],
            forall|j: int| 0 <= j < k ==> (#[trigger] texts@[j])@ == shot_attention_text(j),
        decreases 4 - k,
    {
        let mut text = owned("「会话 ");
        let d = dec_string(k + 1);
        push_str(&mut text, d.as_str());
        push_str(&mut text, "」请求使用 ");
        push_str(&mut text, tool_name(k));
        texts.push(text.clone());
        items.push(AttentionItem { kind: AttentionKind::Approval, session_id: id_string(k + 1), text });
        k = k + 1;
    }
    assert(views(items@) =~= shot_attention());
    assert(string_views(texts@) =~= Seq::new(4, |j: int| shot_attention_text(j)));
    (items, texts)
}

/// The example finished tasks.
fn shot_done_list() -> (r: (Vec<DoneRef>, Vec<String>))
    ensures
        views(r.0@) == shot_done(),
        string_views(r.1@) == Seq::new(3, |k: int| shot_done_title((k + 1) as nat)),
{
    let mut refs: Vec<DoneRef> = Vec::new();
    let mut titles: Vec<String> = Vec::new();
    let mut i: usize = 1;
    while i <= 3
        invariant
            1 <= i <= 4,
            refs.len() == i - 1,
            titles.len() == i - 1,
            forall|k: int| 0 <= k < i - 1 ==> (#[trigger] refs@[k])@ == shot_done()[k],
            forall|k: int| 0 <= k < i - 1 ==> (#[trigger] titles@[k])@ == shot_done_title((k + 1) as nat),
        decreases 4 - i,
    {
        let mut title = owned("示例：任务 ");
        let d = dec_string(i);
        push_str(&mut title, d.as_str());
        push_str(&mut title, " 完成");
        titles.push(title.clone());
        refs.push(DoneRef { session_id: id_string(i), title });
        i = i + 1;
    }
    assert(views(refs@) =~= shot_done());
    assert(string_views(titles@) =~= Seq::new(3, |k: int| shot_done_title((k + 1) as nat)));
    (refs, titles)
}

/// The synthetic snapshot of `mode` used for screenshots.
pub fn fake_snapshot(mode: Mode) -> (r: Snapshot)
    ensures
        r@ == fake_snapshot_spec(mode),
{
    proof {
        reveal_strlit("");
    }
    let (title, body, running, attention, done) = match mode {
        Mode::Working => {
            let (running, titles) = shot_running_list();
            let body = crate::state::numbered_body(&titles, "「", "」");
            (owned("正在干活…（6 个会话）"), body, running, Vec::new(), Vec::new())
        },
        Mode::Attention => {
            let (attention, texts) = shot_attention_list();
            let body = crate::state::numbered_body(&texts, "", "");
            (owned("需要你确认 · 4 项"), body, Vec::new(), attention, Vec::new())
        },
        Mode::Done => {
            let (done, titles) = shot_done_list();
            let body = crate::state::numbered_body(&titles, "「", "」");
            (owned("任务完成啦 🎉"), body, Vec::new(), Vec::new(), done)
        },
        Mode::Idle => (owned("休息中 💤"), owned("没有运行中的任务"), Vec::new(), Vec::new(), Vec::new()),
        Mode::Offline => (
            owned("连不上 DSH 😢"),
            owned("GUI 无响应，我会自动重试"),
            Vec::new(),
            Vec::new(),
            Vec::new(),
        ),
        Mode::Starting => (owned("启动中…"), owned("正在连接 DSH"), Vec::new(), Vec::new(), Vec::new()),
    };
    let r = Snapshot { mode, bubble: Bubble { title, body }, running, attention, done, queued: 0 };
    assert(r@.running =~= fake_snapshot_spec(mode).running);
    assert(r@.attention =~= fake_snapshot_spec(mode).attention);
    assert(r@.done =~= fake_snapshot_spec(mode).done);
    r
}

} // verus!
