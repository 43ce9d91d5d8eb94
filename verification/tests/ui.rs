use dsh_pet::audio::{sound_file_names, sound_for_mode};
use dsh_pet::input::{ClickTarget, InputAction, InputState, MouseEvent};
use dsh_pet::platform::{bottom_right, cursor_screen_position, hide_dock, init, offscreen_target, MonitorArea, Rect};
use dsh_pet::renderer::{
    settings_hit, EscapeOutcome, KeyCommand, Renderer, SettingsHit, SettingsKey, BUBBLE_ANIM_IN_MS,
    ENDPOINT_MAX_BYTES,
};
use dsh_pet::shot::fake_snapshot;
use dsh_pet::tray::{action_for_item, bubble_item_label, sound_item_label, TrayAction};
use dsh_pet::types::Mode;

fn over_whale() -> InputState {
    let mut s = InputState::new();
    s.set_hit_regions(false, true);
    s
}

#[test]
fn click_on_whale_needs_a_visible_pixel() {
    let mut s = over_whale();
    assert_eq!(s.handle(MouseEvent::LeftPressed, false), InputAction::Nothing);
    assert!(s.is_down());
    assert_eq!(s.handle(MouseEvent::LeftReleased, true), InputAction::Click(ClickTarget::Whale));
    assert!(!s.is_down());
    s.handle(MouseEvent::LeftPressed, false);
    assert_eq!(s.handle(MouseEvent::LeftReleased, false), InputAction::Nothing);
}

#[test]
fn drag_ends_without_click() {
    let mut s = over_whale();
    s.handle(MouseEvent::LeftPressed, true);
    s.check_moved(false);
    assert!(!s.is_moved());
    s.check_moved(true);
    s.check_moved(false);
    assert!(s.is_moved());
    assert_eq!(s.handle(MouseEvent::LeftReleased, true), InputAction::DragEnd);
    assert!(!s.is_moved());
}

#[test]
fn bubble_click_context_menu_and_scroll() {
    let mut s = InputState::new();
    s.set_hit_regions(true, false);
    s.handle(MouseEvent::LeftPressed, false);
    assert_eq!(s.handle(MouseEvent::LeftReleased, false), InputAction::Click(ClickTarget::Bubble));
    assert_eq!(s.handle(MouseEvent::RightReleased, false), InputAction::ContextMenu);
    assert_eq!(s.handle(MouseEvent::Wheel, false), InputAction::Scroll);
    let mut w = over_whale();
    assert_eq!(w.handle(MouseEvent::RightReleased, false), InputAction::Nothing);
    assert_eq!(w.handle(MouseEvent::RightReleased, true), InputAction::ContextMenu);
    assert_eq!(w.handle(MouseEvent::Wheel, true), InputAction::Nothing);
    let mut nowhere = InputState::new();
    assert_eq!(nowhere.handle(MouseEvent::LeftPressed, true), InputAction::Nothing);
    assert!(!nowhere.is_down());
    assert_eq!(nowhere.handle(MouseEvent::LeftReleased, true), InputAction::Nothing);
}

#[test]
fn drag_origin_is_kept_until_cleared() {
    let mut s = InputState::new();
    assert_eq!(s.drag_origin(), None);
    s.set_drag_origin((10, -4));
    assert_eq!(s.drag_origin(), Some((10, -4)));
    s.clear_drag_origin();
    assert_eq!(s.drag_origin(), None);
}

#[test]
fn typing_backspace_and_undo() {
    let mut r = Renderer::new(0);
    r.set_endpoint_text("http://a".to_string());
    assert_eq!(r.endpoint_cursor(), 8);
    r.insert_text_at_cursor("é:1");
    assert_eq!(r.endpoint_text(), "http://aé:1");
    assert_eq!(r.endpoint_cursor(), 11);
    r.undo();
    assert_eq!(r.endpoint_text(), "http://a");
    assert_eq!(r.endpoint_cursor(), 8);
    r.insert_text_at_cursor("x");
    r.backspace_at_cursor();
    assert_eq!(r.endpoint_text(), "http://a");
    r.move_cursor_home();
    r.delete_at_cursor();
    assert_eq!(r.endpoint_text(), "ttp://a");
    r.undo();
    assert_eq!(r.endpoint_text(), "http://a");
    r.undo();
    assert_eq!(r.endpoint_text(), "http://a");
}

#[test]
fn cursor_moves_stay_in_the_text() {
    let mut r = Renderer::new(0);
    r.set_endpoint_text("ab".to_string());
    r.move_cursor_right();
    assert_eq!(r.endpoint_cursor(), 2);
    r.move_cursor_left();
    r.move_cursor_left();
    r.move_cursor_left();
    assert_eq!(r.endpoint_cursor(), 0);
    r.set_endpoint_cursor(99);
    assert_eq!(r.endpoint_cursor(), 2);
    r.insert_text_at_cursor("c");
    r.move_cursor_home();
    r.insert_text_at_cursor("_");
    assert_eq!(r.endpoint_text(), "_abc");
    r.move_cursor_end();
    assert_eq!(r.endpoint_cursor(), 4);
}

#[test]
fn select_all_copy_and_replace() {
    let mut r = Renderer::new(0);
    r.set_endpoint_text("你好".to_string());
    assert_eq!(r.selected_text(), None);
    r.select_all_endpoint();
    assert_eq!(r.endpoint_selection(), Some((0, 2)));
    assert_eq!(r.selected_text(), Some("你好".to_string()));
    r.insert_text_at_cursor("x");
    assert_eq!(r.endpoint_text(), "x");
    r.select_all_endpoint();
    r.backspace_at_cursor();
    assert_eq!(r.endpoint_text(), "");
    assert_eq!(r.endpoint_cursor(), 0);
    r.undo();
    assert_eq!(r.endpoint_text(), "x");
}

#[test]
fn focus_loss_drops_preedit_and_selection() {
    let mut r = Renderer::new(0);
    r.set_endpoint_text("abc".to_string());
    r.set_endpoint_focused(true);
    r.set_endpoint_preedit(Some(("zh".to_string(), Some((0, 2)))));
    r.select_all_endpoint();
    assert!(r.endpoint_preedit().is_some());
    r.set_endpoint_focused(false);
    assert!(!r.endpoint_focused());
    assert!(r.endpoint_preedit().is_none());
    assert_eq!(r.endpoint_selection(), None);
    assert!(!r.delete_selection());
}

#[test]
fn bubble_slide_animation() {
    let mut r = Renderer::new(0);
    assert!(r.bubble_visible());
    r.set_bubble_visible(true, 5);
    assert!(!r.bubble_animating());
    r.set_bubble_visible(false, 100);
    assert!(r.bubble_animating());
    assert!(r.bubble_drawn());
    assert_eq!(r.bubble_anim_phase(200), Some((false, 100)));
    assert_eq!(r.bubble_anim_phase(360), None);
    assert!(!r.bubble_animating());
    assert!(!r.bubble_drawn());
    r.set_bubble_visible(true, 1000);
    assert_eq!(r.bubble_anim_phase(1000 + BUBBLE_ANIM_IN_MS - 1), Some((true, BUBBLE_ANIM_IN_MS - 1)));
    assert_eq!(r.bubble_anim_phase(1000 + BUBBLE_ANIM_IN_MS), None);
}

#[test]
fn panel_flags_and_hits() {
    let mut r = Renderer::new(7);
    assert_eq!(r.mode_changed_at(), 7);
    r.set_mode(Mode::Idle, Mode::Working, 50);
    assert_eq!(r.mode_changed_at(), 50);
    r.set_settings_visible(true);
    assert!(r.settings_visible());
    r.set_sound_on(false);
    assert!(!r.sound_on());
    assert!(Renderer::is_animating(Mode::Idle));
    assert!(!Renderer::is_animating(Mode::Offline));
    assert_eq!(settings_hit(true, true, true), SettingsHit::Close);
    assert_eq!(settings_hit(false, true, true), SettingsHit::EndpointInput);
    assert_eq!(settings_hit(false, false, true), SettingsHit::ToggleSound);
    assert_eq!(settings_hit(false, false, false), SettingsHit::Nothing);
}

#[test]
fn tray_items_and_labels() {
    assert_eq!(action_for_item(0), Some(TrayAction::OpenGui));
    assert_eq!(action_for_item(2), Some(TrayAction::ToggleSound(true)));
    assert_eq!(action_for_item(7), Some(TrayAction::Quit));
    assert_eq!(action_for_item(8), None);
    assert_eq!(bubble_item_label(true), "隐藏气泡");
    assert_eq!(bubble_item_label(false), "显示气泡");
    assert_eq!(sound_item_label(true), "✓ 状态提示音");
    assert_eq!(sound_item_label(false), "  状态提示音");
}

#[test]
fn sounds_per_mode() {
    assert_eq!(sound_for_mode(Mode::Attention), Some("attention"));
    assert_eq!(sound_for_mode(Mode::Done), Some("done"));
    assert_eq!(sound_for_mode(Mode::Working), None);
    assert_eq!(
        sound_file_names("done"),
        vec!["done.m4a", "done.mp4", "done.mp3", "done.wav", "done.ogg"]
    );
}

#[test]
fn fake_snapshots() {
    let w = fake_snapshot(Mode::Working);
    assert_eq!(w.running.len(), 6);
    assert_eq!(w.bubble.title, "正在干活…（6 个会话）");
    assert!(w.bubble.body.starts_with("1. 「示例会话 1：市场调研与竞品分析报告」\n2. "));
    let a = fake_snapshot(Mode::Attention);
    assert_eq!(a.attention.len(), 4);
    assert_eq!(a.attention[3].text, "「会话 4」请求使用 glob");
    assert_eq!(a.bubble.body.lines().count(), 4);
    let d = fake_snapshot(Mode::Done);
    assert_eq!(d.done[2].title, "示例：任务 3 完成");
    assert_eq!(fake_snapshot(Mode::Offline).bubble.body, "GUI 无响应，我会自动重试");
    assert_eq!(fake_snapshot(Mode::Idle).bubble.title, "休息中 💤");
    assert_eq!(fake_snapshot(Mode::Starting).queued, 0);
}

#[test]
fn platform_decisions() {
    assert!(init(true, false));
    assert!(!init(true, true));
    assert!(!init(false, false));
    hide_dock();
    assert_eq!(cursor_screen_position(), None);
    assert_eq!(bottom_right(1920, 1080, 280, 372), (1622, 684));
}

#[test]
fn offscreen_window_moves_to_primary_corner() {
    let primary = MonitorArea { work: Rect { left: 0, top: 0, right: 2560, bottom: 1400 }, primary: true };
    let other = MonitorArea { work: Rect { left: 2560, top: 0, right: 4480, bottom: 1040 }, primary: false };
    let off = Rect { left: 5000, top: 100, right: 5280, bottom: 472 };
    assert_eq!(offscreen_target(off, &vec![primary, other]), Some((2262, 1004)));
    let visible = Rect { left: 100, top: 100, right: 380, bottom: 472 };
    assert_eq!(offscreen_target(visible, &vec![primary, other]), None);
    let mostly_off = Rect { left: 2500, top: 1300, right: 2780, bottom: 1672 };
    assert_eq!(offscreen_target(mostly_off, &vec![primary]), Some((2262, 1004)));
    assert_eq!(offscreen_target(off, &vec![other]), None);
    let empty = Rect { left: 10, top: 10, right: 10, bottom: 50 };
    assert_eq!(offscreen_target(empty, &vec![primary]), None);
}

#[test]
fn typing_skips_controls_and_stops_at_the_byte_limit() {
    let mut r = Renderer::new(0);
    r.set_endpoint_text("a".repeat(ENDPOINT_MAX_BYTES - 1));
    assert!(r.type_text("b\u{7}é"));
    assert_eq!(r.endpoint_text().len(), ENDPOINT_MAX_BYTES);
    assert!(r.endpoint_text().ends_with('b'));
    assert!(!r.type_text("c"));
    let mut s = Renderer::new(0);
    assert!(s.type_text("h\tq"));
    assert_eq!(s.endpoint_text(), "hq");
}

#[test]
fn paste_needs_text_and_room() {
    let mut r = Renderer::new(0);
    r.set_endpoint_text("http://".to_string());
    assert!(r.paste("h:1"));
    assert_eq!(r.endpoint_text(), "http://h:1");
    assert!(!r.paste(""));
    assert!(!r.paste(&"x".repeat(300)));
    assert_eq!(r.endpoint_text(), "http://h:1");
}

#[test]
fn escape_unfocuses_then_closes() {
    let mut r = Renderer::new(0);
    r.set_settings_visible(true);
    r.set_endpoint_text("http://a".to_string());
    r.set_endpoint_focused(true);
    r.type_text("bc");
    assert_eq!(r.escape("http://a"), EscapeOutcome::Unfocused);
    assert_eq!(r.endpoint_text(), "http://a");
    assert!(!r.endpoint_focused());
    assert!(r.settings_visible());
    assert_eq!(r.escape("http://a"), EscapeOutcome::ClosedPanel);
    assert!(!r.settings_visible());
}

#[test]
fn default_input_state_is_idle() {
    let s = InputState::default();
    assert!(!s.is_down());
    assert!(!s.is_moved());
    assert_eq!(s.drag_origin(), None);
}

#[test]
fn keys_do_nothing_on_an_unfocused_field_but_escape() {
    let r = Renderer::new(0);
    assert_eq!(r.key_command(SettingsKey::Escape, "", false), KeyCommand::Escape);
    assert_eq!(r.key_command(SettingsKey::Enter, "", false), KeyCommand::Nothing);
    assert_eq!(r.key_command(SettingsKey::Backspace, "", false), KeyCommand::Nothing);
    assert_eq!(r.key_command(SettingsKey::Text, "a", false), KeyCommand::Nothing);
    assert_eq!(r.key_command(SettingsKey::Text, "a", true), KeyCommand::Nothing);
}

#[test]
fn focused_field_takes_editing_keys_shortcuts_and_text() {
    let mut r = Renderer::new(0);
    r.set_endpoint_focused(true);
    assert_eq!(r.key_command(SettingsKey::Enter, "", false), KeyCommand::Commit);
    assert_eq!(r.key_command(SettingsKey::Backspace, "", false), KeyCommand::Backspace);
    assert_eq!(r.key_command(SettingsKey::Left, "", false), KeyCommand::CursorLeft);
    assert_eq!(r.key_command(SettingsKey::Right, "", false), KeyCommand::CursorRight);
    assert_eq!(r.key_command(SettingsKey::Home, "", false), KeyCommand::CursorHome);
    assert_eq!(r.key_command(SettingsKey::End, "", false), KeyCommand::CursorEnd);
    assert_eq!(r.key_command(SettingsKey::Delete, "", false), KeyCommand::Delete);
    assert_eq!(r.key_command(SettingsKey::Text, "a", true), KeyCommand::SelectAll);
    assert_eq!(r.key_command(SettingsKey::Text, "A", true), KeyCommand::SelectAll);
    assert_eq!(r.key_command(SettingsKey::Text, "c", true), KeyCommand::Copy);
    assert_eq!(r.key_command(SettingsKey::Text, "X", true), KeyCommand::Cut);
    assert_eq!(r.key_command(SettingsKey::Text, "v", true), KeyCommand::Paste);
    assert_eq!(r.key_command(SettingsKey::Text, "z", true), KeyCommand::Undo);
    assert_eq!(r.key_command(SettingsKey::Text, "q", true), KeyCommand::Nothing);
    assert_eq!(r.key_command(SettingsKey::Text, "ab", true), KeyCommand::Nothing);
    assert_eq!(r.key_command(SettingsKey::Text, "a", false), KeyCommand::TypeText);
    assert_eq!(r.key_command(SettingsKey::Other, "", false), KeyCommand::Nothing);
}

#[test]
fn composition_blocks_editing_but_not_enter_or_escape() {
    let mut r = Renderer::new(0);
    r.set_endpoint_focused(true);
    r.set_endpoint_preedit(Some(("ni".to_string(), None)));
    assert_eq!(r.key_command(SettingsKey::Backspace, "", false), KeyCommand::Nothing);
    assert_eq!(r.key_command(SettingsKey::Text, "a", false), KeyCommand::Nothing);
    assert_eq!(r.key_command(SettingsKey::Enter, "", false), KeyCommand::Commit);
    assert_eq!(r.key_command(SettingsKey::Escape, "", false), KeyCommand::Escape);
}
