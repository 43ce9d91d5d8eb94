use dsh_pet::json::Json;
use dsh_pet::sse::parse_frame;
use dsh_pet::state::{PetState, DONE_WINDOW_MS, PENDING_TTL_MS};
use dsh_pet::types::{
    now_ms, Approval, DoneEntry, Mode, ProjectionValues, Projections, Question, SessionItem,
    StateEvent,
};

fn mock_session(id: &str, title: &str, running: bool) -> SessionItem {
    SessionItem {
        session_id: id.to_string(),
        running,
        projections: Some(Projections {
            values: Some(ProjectionValues { title: Some(title.to_string()), todos: None }),
        }),
    }
}

fn frame(text: &str) -> Json {
    parse_frame(text).expect("test frame is JSON")
}

fn poll(state: &mut PetState, sessions: Vec<SessionItem>) {
    state.apply(StateEvent::Poll { sessions, ok: true, error: None });
}

#[test]
fn offline_state() {
    let mut state = PetState::new();
    state.apply(StateEvent::Poll {
        sessions: vec![],
        ok: false,
        error: Some("connection refused".into()),
    });
    let snap = state.build_snapshot();
    assert_eq!(snap.mode, Mode::Offline);
    assert_eq!(snap.bubble.title, "连不上 DSH 😢");
    assert!(snap.bubble.body.contains("connection refused"));
}

#[test]
fn idle_state() {
    let mut state = PetState::new();
    state.apply(StateEvent::Poll { sessions: vec![], ok: true, error: None });
    let snap = state.build_snapshot();
    assert_eq!(snap.mode, Mode::Idle);
    assert_eq!(snap.bubble.title, "休息中 💤");
    assert_eq!(snap.bubble.body, "没有运行中的任务");
}

#[test]
fn working_state() {
    let mut state = PetState::new();
    state.apply(StateEvent::Poll {
        sessions: vec![mock_session("s1", "调研中", true)],
        ok: true,
        error: None,
    });
    let snap = state.build_snapshot();
    assert_eq!(snap.mode, Mode::Working);
    assert_eq!(snap.running.len(), 1);
    assert!(snap.bubble.title.contains("1 个会话"));
    assert!(snap.bubble.body.contains("「调研中」"));
}

#[test]
fn running_to_done_transition() {
    let mut state = PetState::new();
    state.apply(StateEvent::Poll {
        sessions: vec![mock_session("s1", "任务A", true)],
        ok: true,
        error: None,
    });
    assert_eq!(state.build_snapshot().mode, Mode::Working);
    state.apply(StateEvent::Poll {
        sessions: vec![mock_session("s1", "任务A", false)],
        ok: true,
        error: None,
    });
    let snap = state.build_snapshot();
    assert_eq!(snap.mode, Mode::Done);
    assert_eq!(snap.done.len(), 1);
    assert!(snap.bubble.body.contains("「任务A」"));
}

#[test]
fn attention_over_working() {
    let mut state = PetState::new();
    state.apply(StateEvent::Poll {
        sessions: vec![mock_session("s1", "任务A", true)],
        ok: true,
        error: None,
    });
    state.apply(StateEvent::MuxFrame(frame(
        r#"{"type":"approval/requested","approvalId":"a1","sessionId":"s1","toolName":"bash","reason":"执行命令"}"#,
    )));
    let snap = state.build_snapshot();
    assert_eq!(snap.mode, Mode::Attention);
    assert_eq!(snap.attention.len(), 1);
    assert!(snap.bubble.body.contains("bash"));
}

#[test]
fn question_added_and_resolved() {
    let mut state = PetState::new();
    state.apply(StateEvent::Poll {
        sessions: vec![mock_session("s1", "任务A", true)],
        ok: true,
        error: None,
    });
    state.apply(StateEvent::MuxFrame(frame(
        r#"{"type":"question/requested","questionRpcId":"q1","sessionId":"s1","questions":[{"question":"选哪个方案？"}]}"#,
    )));
    let snap = state.build_snapshot();
    assert_eq!(snap.mode, Mode::Attention);
    assert_eq!(snap.attention.len(), 1);
    assert!(snap.bubble.body.contains("选哪个方案？"));
    state.apply(StateEvent::MuxFrame(frame(
        r#"{"type":"question/resolved","questionRpcId":"q1"}"#,
    )));
    assert_eq!(state.build_snapshot().mode, Mode::Working);
}

#[test]
fn approval_resolved_returns_to_working() {
    let mut state = PetState::new();
    state.apply(StateEvent::Poll {
        sessions: vec![mock_session("s1", "任务A", true)],
        ok: true,
        error: None,
    });
    state.apply(StateEvent::MuxFrame(frame(
        r#"{"type":"approval/requested","approvalId":"a1","sessionId":"s1","toolName":"bash","reason":""}"#,
    )));
    assert_eq!(state.build_snapshot().mode, Mode::Attention);
    state.apply(StateEvent::MuxFrame(frame(
        r#"{"type":"approval/resolved","approvalId":"a1"}"#,
    )));
    assert_eq!(state.build_snapshot().mode, Mode::Working);
}

#[test]
fn session_queue_updates_count() {
    let mut state = PetState::new();
    state.apply(StateEvent::Poll { sessions: vec![], ok: true, error: None });
    state.apply(StateEvent::MuxFrame(frame(r#"{"type":"session/queue","items":[{},{},{}]}"#)));
    let snap = state.build_snapshot();
    assert_eq!(snap.queued, 3);
}

#[test]
fn host_frame_flips_running_and_clears_pending() {
    let mut state = PetState::new();
    state.apply(StateEvent::Poll {
        sessions: vec![mock_session("s1", "任务A", true)],
        ok: true,
        error: None,
    });
    state.apply(StateEvent::MuxFrame(frame(
        r#"{"type":"approval/requested","approvalId":"a1","sessionId":"s1","toolName":"bash","reason":""}"#,
    )));
    assert_eq!(state.build_snapshot().mode, Mode::Attention);
    state.apply(StateEvent::HostFrame(frame(
        r#"{"type":"host/session-status","sessionId":"s1","running":false}"#,
    )));
    let snap = state.build_snapshot();
    assert_eq!(snap.mode, Mode::Done);
    assert_eq!(snap.attention.len(), 0);
    assert_eq!(snap.done.len(), 1);
}

#[test]
fn turn_end_completed_sets_done_sound_pending() {
    let mut state = PetState::new();
    state.apply(StateEvent::Poll {
        sessions: vec![mock_session("s1", "任务A", true)],
        ok: true,
        error: None,
    });
    assert!(!state.done_sound_pending);
    state.apply(StateEvent::MuxFrame(frame(
        r#"{"type":"session/event","event":{"type":"turn/end","reason":{"kind":"completed"}}}"#,
    )));
    assert!(state.done_sound_pending);
}

#[test]
fn done_window_expiry() {
    let mut state = PetState::new();
    let old = now_ms() - 130_000;
    state.done.push(DoneEntry { session_id: "s1".into(), title: "旧任务".into(), at: old });
    state.apply(StateEvent::Tick);
    assert!(state.done.is_empty());
}

#[test]
fn pending_ttl_expiry() {
    let mut state = PetState::new();
    let old = now_ms() - 31 * 60 * 1000;
    state.pending_approvals.push(Approval {
        approval_id: "a1".into(),
        session_id: "s1".into(),
        tool_name: "bash".into(),
        reason: "".into(),
        requested_at: old,
    });
    state.apply(StateEvent::Tick);
    assert!(state.pending_approvals.is_empty());
}

#[test]
fn disappeared_session_is_removed() {
    let mut state = PetState::new();
    state.apply(StateEvent::Poll {
        sessions: vec![mock_session("s1", "A", false), mock_session("s2", "B", false)],
        ok: true,
        error: None,
    });
    assert_eq!(state.sessions.len(), 2);
    state.apply(StateEvent::Poll {
        sessions: vec![mock_session("s2", "B", false)],
        ok: true,
        error: None,
    });
    assert_eq!(state.sessions.len(), 1);
    assert!(state.sessions.iter().any(|s| s.id == "s2"));
}

// ---- further cases ------------------------------------------------------------------------------

#[test]
fn starting_snapshot_texts() {
    let s = dsh_pet::types::Snapshot::starting();
    assert_eq!(s.mode, Mode::Starting);
    assert_eq!(s.bubble.title, "启动中…");
    assert_eq!(s.bubble.body, "正在连接 DSH");
    assert_eq!(s.queued, 0);
}

#[test]
fn offline_without_error_says_retrying() {
    let mut state = PetState::new();
    let snap = state.build_snapshot();
    assert_eq!(snap.mode, Mode::Offline);
    assert_eq!(snap.bubble.body, "GUI 未启动，我会自动重试");
    state.apply(StateEvent::Poll { sessions: vec![], ok: false, error: Some("boom".into()) });
    assert_eq!(state.build_snapshot().bubble.body, "GUI 无响应（boom）");
}

#[test]
fn attention_bubble_lists_approvals_then_questions() {
    let mut state = PetState::new();
    poll(&mut state, vec![mock_session("s1", "任务A", true)]);
    state.apply(StateEvent::MuxFrame(frame(
        r#"{"type":"question/requested","questionRpcId":"q1","sessionId":"s1","questions":[{"question":"Q?"}]}"#,
    )));
    state.apply(StateEvent::MuxFrame(frame(
        r#"{"type":"approval/requested","approvalId":"a1","sessionId":"s9","toolName":"bash"}"#,
    )));
    let snap = state.build_snapshot();
    assert_eq!(snap.bubble.title, "需要你确认 · 2 项");
    assert_eq!(snap.bubble.body, "1. 「某会话」请求使用 bash\n2. 「任务A」：Q?");
}

#[test]
fn working_body_counts_finished_sessions() {
    let mut state = PetState::new();
    poll(&mut state, vec![mock_session("s1", "A", true), mock_session("s2", "B", true)]);
    poll(&mut state, vec![mock_session("s1", "A", true), mock_session("s2", "B", false)]);
    let snap = state.build_snapshot();
    assert_eq!(snap.mode, Mode::Working);
    assert_eq!(snap.bubble.title, "正在干活…（1 个会话）");
    assert_eq!(snap.bubble.body, "1. 「A」\n—\n另有 1 个已完成待查看");
}

#[test]
fn untitled_session_gets_placeholder_title() {
    let mut state = PetState::new();
    poll(
        &mut state,
        vec![SessionItem { session_id: "s1".into(), running: true, projections: None }],
    );
    assert_eq!(state.build_snapshot().bubble.body, "1. 「未命名会话」");
}

#[test]
fn approval_request_then_resolve_restores_pending() {
    let mut state = PetState::new();
    poll(&mut state, vec![mock_session("s1", "任务A", true)]);
    state.apply(StateEvent::MuxFrame(frame(
        r#"{"type":"approval/requested","approvalId":"a1","sessionId":"s1","toolName":"bash"}"#,
    )));
    assert_eq!(state.pending_approvals.len(), 1);
    assert_eq!(state.pending_approvals[0].reason, "");
    state.apply(StateEvent::MuxFrame(frame(
        r#"{"type":"approval/resolved","approvalId":"a1"}"#,
    )));
    assert!(state.pending_approvals.is_empty());
}

#[test]
fn approval_without_tool_is_ignored() {
    let mut state = PetState::new();
    poll(&mut state, vec![]);
    state.apply(StateEvent::MuxFrame(frame(
        r#"{"type":"approval/requested","approvalId":"a1","sessionId":"s1"}"#,
    )));
    assert!(state.pending_approvals.is_empty());
}

#[test]
fn host_frame_for_running_session_keeps_pending() {
    let mut state = PetState::new();
    poll(&mut state, vec![mock_session("s1", "A", false)]);
    state.apply(StateEvent::MuxFrame(frame(
        r#"{"type":"approval/requested","approvalId":"a1","sessionId":"s1","toolName":"bash"}"#,
    )));
    state.apply(StateEvent::HostFrame(frame(
        r#"{"type":"host/session-status","sessionId":"s1","running":true}"#,
    )));
    assert_eq!(state.pending_approvals.len(), 1);
    assert!(state.sessions[0].running);
    assert!(state.done.is_empty());
}

#[test]
fn fresh_entries_survive_the_tick() {
    let mut state = PetState::new();
    let now = now_ms();
    state.done.push(DoneEntry { session_id: "s1".into(), title: "新".into(), at: now });
    state.pending_questions.push(Question {
        question_rpc_id: "q1".into(),
        session_id: "s1".into(),
        text: "?".into(),
        requested_at: now,
    });
    state.apply(StateEvent::Tick);
    assert_eq!(state.done.len(), 1);
    assert_eq!(state.pending_questions.len(), 1);
}

#[test]
fn expiry_edges_at_fixed_time() {
    let mut state = PetState::new();
    state.done.push(DoneEntry { session_id: "a".into(), title: "a".into(), at: 1_000 });
    state.done.push(DoneEntry { session_id: "b".into(), title: "b".into(), at: 2_000 });
    state.apply_at(StateEvent::Tick, 1_000 + DONE_WINDOW_MS);
    assert_eq!(state.done.len(), 1);
    assert_eq!(state.done[0].session_id, "b");
    state.pending_approvals.push(Approval {
        approval_id: "x".into(),
        session_id: "s".into(),
        tool_name: "t".into(),
        reason: "".into(),
        requested_at: 10,
    });
    state.apply_at(StateEvent::Tick, 10 + PENDING_TTL_MS - 1);
    assert_eq!(state.pending_approvals.len(), 1);
    state.apply_at(StateEvent::Tick, 10 + PENDING_TTL_MS);
    assert!(state.pending_approvals.is_empty());
}

#[test]
fn snapshot_built_twice_is_the_same() {
    let mut state = PetState::new();
    poll(&mut state, vec![mock_session("s1", "A", true)]);
    let a = state.build_snapshot();
    let b = state.build_snapshot();
    assert_eq!(a, b);
    assert_eq!(state.mode, Mode::Working);
}

#[test]
fn mode_priority_done_then_idle() {
    let mut state = PetState::new();
    poll(&mut state, vec![mock_session("s1", "A", true)]);
    poll(&mut state, vec![mock_session("s1", "A", false)]);
    assert_eq!(state.build_snapshot().mode, Mode::Done);
    state.done.clear();
    assert_eq!(state.build_snapshot().mode, Mode::Idle);
}

#[test]
fn default_state_is_the_initial_state() {
    let state = PetState::default();
    assert_eq!(state.mode, Mode::Starting);
    assert!(!state.connected);
    assert!(state.sessions.is_empty());
    assert_eq!(state.queued_count, 0);
}

#[test]
fn poll_stores_running_flag_and_title_and_keeps_pending() {
    let mut state = PetState::new();
    poll(&mut state, vec![mock_session("s1", "甲", true)]);
    state.apply(StateEvent::MuxFrame(frame(
        r#"{"type":"approval/requested","approvalId":"a1","sessionId":"s1","toolName":"bash","reason":""}"#,
    )));
    let untitled = SessionItem { session_id: "s2".to_string(), running: true, projections: None };
    poll(&mut state, vec![mock_session("s1", "乙", false), untitled]);
    let s1 = state.sessions.iter().find(|s| s.id == "s1").unwrap();
    assert!(!s1.running);
    assert_eq!(s1.title, "乙");
    let s2 = state.sessions.iter().find(|s| s.id == "s2").unwrap();
    assert!(s2.running);
    assert_eq!(s2.title, "未命名会话");
    assert_eq!(state.pending_approvals.len(), 1);
    assert_eq!(state.pending_approvals[0].approval_id, "a1");
    assert!(state.done.iter().any(|d| d.session_id == "s1"));
}

#[test]
fn host_stop_keeps_other_sessions_pending_items() {
    let mut state = PetState::new();
    poll(&mut state, vec![mock_session("s1", "甲", true), mock_session("s2", "乙", true)]);
    state.apply(StateEvent::MuxFrame(frame(
        r#"{"type":"approval/requested","approvalId":"a1","sessionId":"s1","toolName":"bash","reason":""}"#,
    )));
    state.apply(StateEvent::MuxFrame(frame(
        r#"{"type":"approval/requested","approvalId":"a2","sessionId":"s2","toolName":"edit","reason":""}"#,
    )));
    state.apply(StateEvent::HostFrame(frame(
        r#"{"type":"host/session-status","sessionId":"s1","running":false}"#,
    )));
    assert_eq!(state.sessions.len(), 2);
    assert_eq!(state.pending_approvals.len(), 1);
    assert_eq!(state.pending_approvals[0].approval_id, "a2");
    assert!(state.sessions.iter().any(|s| s.id == "s1" && !s.running));
    assert!(state.sessions.iter().any(|s| s.id == "s2" && s.running));
}

#[test]
fn tick_keeps_exactly_the_young_entries_in_order() {
    let mut state = PetState::new();
    state.done.push(DoneEntry { session_id: "a".into(), title: "a".into(), at: 0 });
    state.done.push(DoneEntry { session_id: "b".into(), title: "b".into(), at: 50_000 });
    state.done.push(DoneEntry { session_id: "c".into(), title: "c".into(), at: 100_000 });
    state.apply_at(StateEvent::Tick, 150_000);
    let ids: Vec<&str> = state.done.iter().map(|d| d.session_id.as_str()).collect();
    assert_eq!(ids, vec!["b", "c"]);
}
