//! The renderer's state apart from the pixels: bubble visibility and its
//! slide animation, the settings panel, and the address field of the panel
//! with its cursor, selection, undo and IME pre-edit. Drawing is done by the
//! caller from this state.

use vstd::prelude::*;

use vstd::string::StringSliceAdditionalSpecFns;
use vstd::utf8::{char_is_scalar, encode_scalar, encode_utf8};

use crate::strings::{string_from_chars, string_from_range, to_chars};
use crate::types::{mode_animating, Mode};

verus! {

/// How long the bubble takes to slide in (ms).
pub const BUBBLE_ANIM_IN_MS: u64 = 300;

/// How long the bubble takes to slide out (ms).
pub const BUBBLE_ANIM_OUT_MS: u64 = 260;

/// What a click in the settings panel landed on.
#[derive(Debug, Clone, Copy, PartialEq, Eq, Structural)]
pub enum SettingsHit {
    Nothing,
    ToggleSound,
    Close,
    EndpointInput,
}

/// The bubble's slide animation, with its start time (ms).
#[derive(Debug, Clone, Copy, PartialEq, Eq, Structural)]
pub enum BubbleAnim {
    Idle,
    Appearing { start_ms: u64 },
    Disappearing { start_ms: u64 },
}

/// An IME pre-edit: the text being composed and its cursor range.
pub type Preedit = (String, Option<(usize, usize)>);

/// The renderer's state.
pub struct Renderer {
    bubble_visible: bool,
    bubble_anim: BubbleAnim,
    settings_visible: bool,
    sound_on: bool,
    endpoint_text: String,
    endpoint_cursor: usize,
    endpoint_selection: Option<(usize, usize)>,
    endpoint_undo: Option<(String, usize)>,
    endpoint_preedit: Option<Preedit>,
    endpoint_focused: bool,
    mode_changed_at_ms: u64,
}

/// The abstract state: the address field's text is a character sequence,
/// its cursor and selection count characters.
pub ghost struct RendererV {
    pub bubble_visible: bool,
    pub bubble_anim: BubbleAnim,
    pub settings_visible: bool,
    pub sound_on: bool,
    pub text: Seq<char>,
    pub cursor: nat,
    pub selection: Option<(nat, nat)>,
    pub undo: Option<(Seq<char>, nat)>,
    pub preedit: Option<(Seq<char>, Option<(usize, usize)>)>,
    pub focused: bool,
    pub mode_changed_at_ms: u64,
}

impl View for Renderer {
    type V = RendererV;

    closed spec fn view(&self) -> RendererV {
        RendererV {
            bubble_visible: self.bubble_visible,
            bubble_anim: self.bubble_anim,
            settings_visible: self.settings_visible,
            sound_on: self.sound_on,
            text: self.endpoint_text@,
            cursor: self.endpoint_cursor as nat,
            selection: match self.endpoint_selection {
                Some((s, e)) => Some((s as nat, e as nat)),
                None => None,
            },
            undo: match self.endpoint_undo {
                Some((t, c)) => Some((t@, c as nat)),
                None => None,
            },
            preedit: match self.endpoint_preedit {
                Some((t, r)) => Some((t@, r)),
                None => None,
            },
            focused: self.endpoint_focused,
            mode_changed_at_ms: self.mode_changed_at_ms,
        }
    }
}

/// The cursor lies within the text, a selection is an ordered range of the
/// text, and the undo snapshot's cursor lies within its text.
pub open spec fn renderer_wf(v: RendererV) -> bool {
    &&& v.cursor <= v.text.len()
    &&& match v.selection {
        Some((s, e)) => s <= e <= v.text.len(),
        None => true,
    }
    &&& match v.undo {
        Some((t, c)) => c <= t.len(),
        None => true,
    }
}

// ---- the text operations, on the abstract state ------------------------------------------------

/// `t` without the characters `s..e`.
pub open spec fn cut(t: Seq<char>, s: nat, e: nat) -> Seq<char> {
    t.take(s as int) + t.skip(e as int)
}

/// The state with the undo snapshot taken.
pub open spec fn with_undo(v: RendererV) -> RendererV {
    RendererV { undo: Some((v.text, v.cursor)), ..v }
}

/// The selection deleted, the cursor at its start.
pub open spec fn delete_selection_spec(v: RendererV) -> RendererV {
    match v.selection {
        Some((s, e)) => RendererV { text: cut(v.text, s, e), cursor: s, selection: None, ..v },
        None => v,
    }
}

/// Typing or pasting `ins`: undo snapshot, selection replaced, pre-edit
/// dropped, `ins` inserted at the cursor, the cursor after it.
pub open spec fn insert_spec(v: RendererV, ins: Seq<char>) -> RendererV {
    let w = delete_selection_spec(with_undo(v));
    RendererV {
        text: w.text.take(w.cursor as int) + ins + w.text.skip(w.cursor as int),
        cursor: w.cursor + ins.len(),
        preedit: None,
        ..w
    }
}

/// Backspace: deletes the selection, or else the character before the cursor.
pub open spec fn backspace_spec(v: RendererV) -> RendererV {
    if v.selection is Some {
        delete_selection_spec(with_undo(v))
    } else if v.cursor == 0 || v.text.len() == 0 {
        v
    } else {
        RendererV {
            text: cut(v.text, (v.cursor - 1) as nat, v.cursor),
            cursor: (v.cursor - 1) as nat,
            ..with_undo(v)
        }
    }
}

/// Delete: deletes the selection, or else the character after the cursor.
pub open spec fn delete_spec(v: RendererV) -> RendererV {
    if v.selection is Some {
        delete_selection_spec(with_undo(v))
    } else if v.cursor >= v.text.len() {
        v
    } else {
        RendererV { text: cut(v.text, v.cursor, v.cursor + 1), ..with_undo(v) }
    }
}

/// Undo: back to the snapshot, which is then used up.
pub open spec fn undo_spec(v: RendererV) -> RendererV {
    match v.undo {
        Some((t, c)) => RendererV {
            text: t,
            cursor: c,
            selection: None,
            preedit: None,
            undo: None,
            ..v
        },
        None => v,
    }
}

/// Select all: the whole text, the cursor at its end.
pub open spec fn select_all_spec(v: RendererV) -> RendererV {
    RendererV { selection: Some((0, v.text.len())), cursor: v.text.len(), ..v }
}

// ---- exec helpers -----------------------------------------------------------------------------

/// `cs[..s] + cs[e..]` as a string.
fn cut_string(cs: &Vec<char>, s: usize, e: usize) -> (r: String)
    requires
        s <= e <= cs.len(),
    ensures
        r@ == cut(cs@, s as nat, e as nat),
{
    let mut v: Vec<char> = Vec::new();
    let mut i: usize = 0;
    while i < s
        invariant
            i <= s <= e <= cs.len(),
            v@ == cs@.take(i as int),
        decreases s - i,
    {
        v.push(cs[i]);
        assert(cs@.take(i + 1) =~= cs@.take(i as int).push(cs@[i as int]));
        i = i + 1;
    }
    let mut j: usize = e;
    while j < cs.len()
        invariant
            s <= e <= j <= cs.len(),
            v@ == cs@.take(s as int) + cs@.subrange(e as int, j as int),
        decreases cs.len() - j,
    {
        v.push(cs[j]);
        assert(cs@.subrange(e as int, j + 1) =~= cs@.subrange(e as int, j as int).push(cs@[j as int]));
        j = j + 1;
    }
    assert(cs@.subrange(e as int, cs.len() as int) =~= cs@.skip(e as int));
    string_from_chars(&v)
}

impl Renderer {
    /// The renderer's state is consistent (see [`renderer_wf`]).
    pub open spec fn wf(&self) -> bool {
        renderer_wf(self@)
    }

    /// Bubble shown without animation, settings closed, sound on, empty
    /// address field; the pop-in clock starts at `now_ms`.
    pub fn new(now_ms: u64) -> (r: Self)
        ensures
            r.wf(),
            r@ == (RendererV {
                bubble_visible: true,
                bubble_anim: BubbleAnim::Idle,
                settings_visible: false,
                sound_on: true,
                text: Seq::empty(),
                cursor: 0,
                selection: None,
                undo: None,
                preedit: None,
                focused: false,
                mode_changed_at_ms: now_ms,
            }),
    {
        Renderer {
            bubble_visible: true,
            bubble_anim: BubbleAnim::Idle,
            settings_visible: false,
            sound_on: true,
            endpoint_text: String::new(),
            endpoint_cursor: 0,
            endpoint_selection: None,
            endpoint_undo: None,
            endpoint_preedit: None,
            endpoint_focused: false,
            mode_changed_at_ms: now_ms,
        }
    }

    // ---- bubble, panel, sound -----------------------------------------------------------------

    /// Restarts the pop-in clock when the mode changes.
    pub fn set_mode(&mut self, _old: Mode, _new: Mode, now_ms: u64)
        requires
            old(self).wf(),
        ensures
            final(self).wf(),
            final(self)@ == (RendererV { mode_changed_at_ms: now_ms, ..old(self)@ }),
    {
        self.mode_changed_at_ms = now_ms;
    }

    /// When the mode last changed (ms).
    pub fn mode_changed_at(&self) -> (r: u64)
        ensures
            r == self@.mode_changed_at_ms,
    {
        self.mode_changed_at_ms
    }

    /// Shows or hides the bubble; a change starts the slide-in or slide-out
    /// animation at `now_ms`, no change does nothing.
    pub fn set_bubble_visible(&mut self, v: bool, now_ms: u64)
        requires
            old(self).wf(),
        ensures
            final(self).wf(),
            final(self)@ == if v == old(self)@.bubble_visible {
                old(self)@
            } else {
                RendererV {
                    bubble_visible: v,
                    bubble_anim: if v {
                        BubbleAnim::Appearing { start_ms: now_ms }
                    } else {
                        BubbleAnim::Disappearing { start_ms: now_ms }
                    },
                    ..old(self)@
                }
            },
    {
        if v == self.bubble_visible {
            return ;
        }
        self.bubble_visible = v;
        self.bubble_anim = if v {
            BubbleAnim::Appearing { start_ms: now_ms }
        } else {
            BubbleAnim::Disappearing { start_ms: now_ms }
        };
    }

    /// Whether the bubble is (to be) shown.
    pub fn bubble_visible(&self) -> (r: bool)
        ensures
            r == self@.bubble_visible,
    {
        self.bubble_visible
    }

    /// Whether the bubble is sliding in or out.
    pub fn bubble_animating(&self) -> (r: bool)
        ensures
            r == !(self@.bubble_anim is Idle),
    {
        match self.bubble_anim {
            BubbleAnim::Idle => false,
            _ => true,
        }
    }

    /// The running slide animation at `now_ms`: whether it slides in, and
    /// the milliseconds since it started. An animation that has run its
    /// course (300 ms in, 260 ms out) ends here and gives `None`, as does no
    /// animation.
    pub fn bubble_anim_phase(&mut self, now_ms: u64) -> (r: Option<(bool, u64)>)
        requires
            old(self).wf(),
        ensures
            final(self).wf(),
            match old(self)@.bubble_anim {
                BubbleAnim::Idle => r is None && final(self)@ == old(self)@,
                BubbleAnim::Appearing { start_ms } => {
                    let el = if now_ms >= start_ms { (now_ms - start_ms) as u64 } else { 0u64 };
                    if el >= BUBBLE_ANIM_IN_MS {
                        r is None && final(self)@ == (RendererV { bubble_anim: BubbleAnim::Idle, ..old(self)@ })
                    } else {
                        r == Some((true, el)) && final(self)@ == old(self)@
                    }
                },
                BubbleAnim::Disappearing { start_ms } => {
                    let el = if now_ms >= start_ms { (now_ms - start_ms) as u64 } else { 0u64 };
                    if el >= BUBBLE_ANIM_OUT_MS {
                        r is None && final(self)@ == (RendererV { bubble_anim: BubbleAnim::Idle, ..old(self)@ })
                    } else {
                        r == Some((false, el)) && final(self)@ == old(self)@
                    }
                },
            },
    {
        match self.bubble_anim {
            BubbleAnim::Idle => None,
            BubbleAnim::Appearing { start_ms } => {
                let el = if now_ms >= start_ms { now_ms - start_ms } else { 0 };
                if el >= BUBBLE_ANIM_IN_MS {
                    self.bubble_anim = BubbleAnim::Idle;
                    None
                } else {
                    Some((true, el))
                }
            },
            BubbleAnim::Disappearing { start_ms } => {
                let el = if now_ms >= start_ms { now_ms - start_ms } else { 0 };
                if el >= BUBBLE_ANIM_OUT_MS {
                    self.bubble_anim = BubbleAnim::Idle;
                    None
                } else {
                    Some((false, el))
                }
            },
        }
    }

    /// Whether a bubble is to be drawn: shown, or still sliding out.
    pub fn bubble_drawn(&self) -> (r: bool)
        ensures
            r == (self@.bubble_visible || self@.bubble_anim is Disappearing),
    {
        self.bubble_visible || match self.bubble_anim {
            BubbleAnim::Disappearing { .. } => true,
            _ => false,
        }
    }

    /// Opens or closes the settings panel.
    pub fn set_settings_visible(&mut self, visible: bool)
        requires
            old(self).wf(),
        ensures
            final(self).wf(),
            final(self)@ == (RendererV { settings_visible: visible, ..old(self)@ }),
    {
        self.settings_visible = visible;
    }

    /// Whether the settings panel is open.
    pub fn settings_visible(&self) -> (r: bool)
        ensures
            r == self@.settings_visible,
    {
        self.settings_visible
    }

    /// Records whether the sound is on (drawn as the panel's switch).
    pub fn set_sound_on(&mut self, sound_on: bool)
        requires
            old(self).wf(),
        ensures
            final(self).wf(),
            final(self)@ == (RendererV { sound_on, ..old(self)@ }),
    {
        self.sound_on = sound_on;
    }

    /// Whether the sound is on.
    pub fn sound_on(&self) -> (r: bool)
        ensures
            r == self@.sound_on,
    {
        self.sound_on
    }

    /// Whether the pet keeps animating in this mode.
    pub fn is_animating(mode: Mode) -> (r: bool)
        ensures
            r == mode_animating(mode),
    {
        mode.is_animating()
    }

    // ---- the address field --------------------------------------------------------------------

    /// Replaces the address text; the cursor goes to its end, and the
    /// selection, undo snapshot and pre-edit are dropped.
    pub fn set_endpoint_text(&mut self, text: String)
        requires
            old(self).wf(),
        ensures
            final(self).wf(),
            final(self)@ == (RendererV {
                text: text@,
                cursor: text@.len(),
                selection: None,
                undo: None,
                preedit: None,
                ..old(self)@
            }),
    {
        let len = to_chars(text.as_str()).len();
        self.endpoint_text = text;
        self.endpoint_cursor = len;
        self.endpoint_selection = None;
        self.endpoint_undo = None;
        self.endpoint_preedit = None;
    }

    /// The address text.
    pub fn endpoint_text(&self) -> (r: &str)
        ensures
            r@ == self@.text,
    {
        self.endpoint_text.as_str()
    }

    /// The cursor, in characters.
    pub fn endpoint_cursor(&self) -> (r: usize)
        ensures
            r == self@.cursor,
    {
        self.endpoint_cursor
    }

    /// Moves the cursor to `pos`, at most to the end of the text.
    pub fn set_endpoint_cursor(&mut self, pos: usize)
        requires
            old(self).wf(),
        ensures
            final(self).wf(),
            final(self)@ == (RendererV {
                cursor: if pos <= old(self)@.text.len() {
                    pos as nat
                } else {
                    old(self)@.text.len()
                },
                ..old(self)@
            }),
    {
        let len = to_chars(self.endpoint_text.as_str()).len();
        self.endpoint_cursor = if pos <= len {
            pos
        } else {
            len
        };
    }

    /// The IME pre-edit, if any.
    pub fn endpoint_preedit(&self) -> (r: &Option<Preedit>)
        ensures
            match *r {
                Some((t, c)) => self@.preedit == Some((t@, c)),
                None => self@.preedit is None,
            },
    {
        &self.endpoint_preedit
    }

    /// Sets or clears the IME pre-edit.
    pub fn set_endpoint_preedit(&mut self, preedit: Option<Preedit>)
        requires
            old(self).wf(),
        ensures
            final(self).wf(),
            final(self)@ == (RendererV {
                preedit: match preedit {
                    Some((t, c)) => Some((t@, c)),
                    None => None,
                },
                ..old(self)@
            }),
    {
        self.endpoint_preedit = preedit;
    }

    /// Moves the cursor one character left (not before the start) and drops
    /// the selection.
    pub fn move_cursor_left(&mut self)
        requires
            old(self).wf(),
        ensures
            final(self).wf(),
            final(self)@ == (RendererV {
                cursor: if old(self)@.cursor > 0 {
                    (old(self)@.cursor - 1) as nat
                } else {
                    0
                },
                selection: None,
                ..old(self)@
            }),
    {
        if self.endpoint_cursor > 0 {
            self.endpoint_cursor = self.endpoint_cursor - 1;
        }
        self.endpoint_selection = None;
    }

    /// Moves the cursor one character right (not past the end) and drops
    /// the selection.
    pub fn move_cursor_right(&mut self)
        requires
            old(self).wf(),
        ensures
            final(self).wf(),
            final(self)@ == (RendererV {
                cursor: if old(self)@.cursor < old(self)@.text.len() {
                    old(self)@.cursor + 1
                } else {
                    old(self)@.cursor
                },
                selection: None,
                ..old(self)@
            }),
    {
        let len = to_chars(self.endpoint_text.as_str()).len();
        if self.endpoint_cursor < len {
            self.endpoint_cursor = self.endpoint_cursor + 1;
        }
        self.endpoint_selection = None;
    }

    /// Moves the cursor to the start and drops the selection.
    pub fn move_cursor_home(&mut self)
        requires
            old(self).wf(),
        ensures
            final(self).wf(),
            final(self)@ == (RendererV { cursor: 0, selection: None, ..old(self)@ }),
    {
        self.endpoint_cursor = 0;
        self.endpoint_selection = None;
    }

    /// Moves the cursor to the end and drops the selection.
    pub fn move_cursor_end(&mut self)
        requires
            old(self).wf(),
        ensures
            final(self).wf(),
            final(self)@ == (RendererV { cursor: old(self)@.text.len(), selection: None, ..old(self)@ }),
    {
        let len = to_chars(self.endpoint_text.as_str()).len();
        self.endpoint_cursor = len;
        self.endpoint_selection = None;
    }

    /// Selects the whole text; the cursor goes to its end.
    pub fn select_all_endpoint(&mut self)
        requires
            old(self).wf(),
        ensures
            final(self).wf(),
            final(self)@ == select_all_spec(old(self)@),
    {
        let len = to_chars(self.endpoint_text.as_str()).len();
        self.endpoint_selection = Some((0, len));
        self.endpoint_cursor = len;
    }

    /// The selected range, in characters.
    pub fn endpoint_selection(&self) -> (r: Option<(usize, usize)>)
        ensures
            match r {
                Some((s, e)) => self@.selection == Some((s as nat, e as nat)),
                None => self@.selection is None,
            },
    {
        self.endpoint_selection
    }

    /// The selected text, if there is a selection.
    pub fn selected_text(&self) -> (r: Option<String>)
        requires
            self.wf(),
        ensures
            match self@.selection {
                Some((s, e)) => r matches Some(t) && t@ == self@.text.subrange(s as int, e as int),
                None => r is None,
            },
    {
        match self.endpoint_selection {
            Some((s, e)) => {
                let cs = to_chars(self.endpoint_text.as_str());
                Some(string_from_range(&cs, s, e))
            },
            None => None,
        }
    }

    /// Deletes the selected text, if any, leaving the cursor where it
    /// started; tells whether something was deleted.
    pub fn delete_selection(&mut self) -> (r: bool)
        requires
            old(self).wf(),
        ensures
            final(self).wf(),
            r == old(self)@.selection is Some,
            final(self)@ == delete_selection_spec(old(self)@),
    {
        match self.endpoint_selection {
            Some((s, e)) => {
                let cs = to_chars(self.endpoint_text.as_str());
                self.endpoint_text = cut_string(&cs, s, e);
                self.endpoint_cursor = s;
                self.endpoint_selection = None;
                true
            },
            None => false,
        }
    }

    fn save_undo(&mut self)
        requires
            old(self).wf(),
        ensures
            final(self).wf(),
            final(self)@ == with_undo(old(self)@),
    {
        self.endpoint_undo = Some((self.endpoint_text.clone(), self.endpoint_cursor));
    }

    /// Inserts `text` at the cursor, replacing the selection if any, after
    /// taking an undo snapshot; the cursor ends after the inserted text.
    pub fn insert_text_at_cursor(&mut self, text: &str)
        requires
            old(self).wf(),
        ensures
            final(self).wf(),
            final(self)@ == insert_spec(old(self)@, text@),
    {
        self.save_undo();
        let _ = self.delete_selection();
        self.endpoint_preedit = None;
        let cs = to_chars(self.endpoint_text.as_str());
        let ins = to_chars(text);
        let c = self.endpoint_cursor;
        let mut v: Vec<char> = Vec::new();
        let mut i: usize = 0;
        while i < c
            invariant
                i <= c <= cs.len(),
                v@ == cs@.take(i as int),
            decreases c - i,
        {
            v.push(cs[i]);
            assert(cs@.take(i + 1) =~= cs@.take(i as int).push(cs@[i as int]));
            i = i + 1;
        }
        let mut k: usize = 0;
        while k < ins.len()
            invariant
                c <= cs.len(),
                k <= ins.len(),
                v@ == cs@.take(c as int) + ins@.take(k as int),
            decreases ins.len() - k,
        {
            v.push(ins[k]);
            assert(ins@.take(k + 1) =~= ins@.take(k as int).push(ins@[k as int]));
            k = k + 1;
        }
        assert(ins@.take(ins.len() as int) =~= ins@);
        let mut j: usize = c;
        while j < cs.len()
            invariant
                c <= j <= cs.len(),
                v@ == cs@.take(c as int) + ins@ + cs@.subrange(c as int, j as int),
            decreases cs.len() - j,
        {
            v.push(cs[j]);
            assert(cs@.subrange(c as int, j + 1) =~= cs@.subrange(c as int, j as int).push(cs@[j as int]));
            j = j + 1;
        }
        assert(cs@.subrange(c as int, cs.len() as int) =~= cs@.skip(c as int));
        let total = v.len();
        assert(c + ins.len() <= total);
        self.endpoint_text = string_from_chars(&v);
        self.endpoint_cursor = c + ins.len();
    }

    /// Backspace: deletes the selection, or else the character before the
    /// cursor; an undo snapshot is taken when something is deleted.
    pub fn backspace_at_cursor(&mut self)
        requires
            old(self).wf(),
        ensures
            final(self).wf(),
            final(self)@ == backspace_spec(old(self)@),
    {
        if self.endpoint_selection.is_some() {
            self.save_undo();
            let _ = self.delete_selection();
            return ;
        }
        let cs = to_chars(self.endpoint_text.as_str());
        if self.endpoint_cursor == 0 || cs.len() == 0 {
            return ;
        }
        self.save_undo();
        let c = self.endpoint_cursor;
        self.endpoint_text = cut_string(&cs, c - 1, c);
        self.endpoint_cursor = c - 1;
    }

    /// Delete: deletes the selection, or else the character after the
    /// cursor; an undo snapshot is taken when something is deleted.
    pub fn delete_at_cursor(&mut self)
        requires
            old(self).wf(),
        ensures
            final(self).wf(),
            final(self)@ == delete_spec(old(self)@),
    {
        if self.endpoint_selection.is_some() {
            self.save_undo();
            let _ = self.delete_selection();
            return ;
        }
        let cs = to_chars(self.endpoint_text.as_str());
        if self.endpoint_cursor >= cs.len() {
            return ;
        }
        self.save_undo();
        let c = self.endpoint_cursor;
        self.endpoint_text = cut_string(&cs, c, c + 1);
    }

    /// Goes back to the last undo snapshot, if any (once).
    pub fn undo(&mut self)
        requires
            old(self).wf(),
        ensures
            final(self).wf(),
            final(self)@ == undo_spec(old(self)@),
    {
        let u = self.endpoint_undo.take();
        match u {
            Some((text, cursor)) => {
                self.endpoint_text = text;
                self.endpoint_cursor = cursor;
                self.endpoint_selection = None;
                self.endpoint_preedit = None;
            },
            None => {},
        }
    }

    /// Focuses or unfocuses the address field; unfocusing drops the
    /// pre-edit and the selection.
    pub fn set_endpoint_focused(&mut self, focused: bool)
        requires
            old(self).wf(),
        ensures
            final(self).wf(),
            final(self)@ == if focused {
                RendererV { focused: true, ..old(self)@ }
            } else {
                RendererV { focused: false, preedit: None, selection: None, ..old(self)@ }
            },
    {
        self.endpoint_focused = focused;
        if !focused {
            self.endpoint_preedit = None;
            self.endpoint_selection = None;
        }
    }

    /// Whether the address field has the focus.
    pub fn endpoint_focused(&self) -> (r: bool)
        ensures
            r == self@.focused,
    {
        self.endpoint_focused
    }
}

/// The longest address the field takes, in UTF-8 bytes.
pub const ENDPOINT_MAX_BYTES: usize = 256;

/// `char::is_control`: the C0 and C1 control characters.
pub open spec fn is_control(c: char) -> bool {
    (c as u32) <= 0x1F || (0x7F <= (c as u32) && (c as u32) <= 0x9F)
}

/// `char::len_utf8`.
pub open spec fn utf8_len(c: char) -> nat {
    if (c as u32) < 0x80 {
        1
    } else if (c as u32) < 0x800 {
        2
    } else if (c as u32) < 0x10000 {
        3
    } else {
        4
    }
}

/// One typed character: inserted unless it is a control character or the
/// text would grow past [`ENDPOINT_MAX_BYTES`].
pub open spec fn type_char_spec(v: RendererV, c: char) -> RendererV {
    if !is_control(c) && encode_utf8(v.text).len() + utf8_len(c) <= ENDPOINT_MAX_BYTES {
        insert_spec(v, seq![c])
    } else {
        v
    }
}

/// Typed characters, first to last.
pub open spec fn type_text_spec(v: RendererV, cs: Seq<char>) -> RendererV
    decreases cs.len(),
{
    if cs.len() == 0 {
        v
    } else {
        type_char_spec(type_text_spec(v, cs.drop_last()), cs.last())
    }
}

/// A paste: inserted when it is not empty and the text stays within
/// [`ENDPOINT_MAX_BYTES`].
pub open spec fn paste_spec(v: RendererV, t: Seq<char>) -> RendererV {
    if t.len() > 0 && encode_utf8(v.text).len() + encode_utf8(t).len() <= ENDPOINT_MAX_BYTES {
        insert_spec(v, t)
    } else {
        v
    }
}

/// A key pressed while the settings panel is open, by what the panel reads
/// of it; `Text` is a key that types characters (its text is passed along).
#[derive(Debug, Clone, Copy, PartialEq, Eq, Structural)]
pub enum SettingsKey {
    Escape,
    Backspace,
    Enter,
    Left,
    Right,
    Home,
    End,
    Delete,
    Text,
    Other,
}

/// What the panel does with a pressed key.
#[derive(Debug, Clone, Copy, PartialEq, Eq, Structural)]
pub enum KeyCommand {
    Escape,
    Backspace,
    Commit,
    CursorLeft,
    CursorRight,
    CursorHome,
    CursorEnd,
    Delete,
    SelectAll,
    Copy,
    Cut,
    Paste,
    Undo,
    TypeText,
    Nothing,
}

/// The key's text is the one letter `lower`, in either case (`lower` is a
/// lower-case ASCII letter).
pub open spec fn is_letter_key(t: Seq<char>, lower: char) -> bool {
    t.len() == 1 && (t[0] == lower || t[0] as u32 + 32 == lower as u32)
}

/// A Ctrl shortcut of the address field: A selects all, C copies, X cuts,
/// V pastes, Z undoes.
pub open spec fn shortcut_spec(t: Seq<char>) -> KeyCommand {
    if is_letter_key(t, 'a') {
        KeyCommand::SelectAll
    } else if is_letter_key(t, 'c') {
        KeyCommand::Copy
    } else if is_letter_key(t, 'x') {
        KeyCommand::Cut
    } else if is_letter_key(t, 'v') {
        KeyCommand::Paste
    } else if is_letter_key(t, 'z') {
        KeyCommand::Undo
    } else {
        KeyCommand::Nothing
    }
}

/// The panel's key dispatch: Escape always; Enter commits when the field has
/// the focus; the editing keys, shortcuts and typing act only on a focused
/// field with no IME composition under way.
pub open spec fn key_command_spec(
    key: SettingsKey,
    t: Seq<char>,
    focused: bool,
    composing: bool,
    ctrl: bool,
) -> KeyCommand {
    let editable = focused && !composing;
    match key {
        SettingsKey::Escape => KeyCommand::Escape,
        SettingsKey::Enter => if focused {
            KeyCommand::Commit
        } else {
            KeyCommand::Nothing
        },
        SettingsKey::Other => KeyCommand::Nothing,
        _ => if !editable {
            KeyCommand::Nothing
        } else {
            match key {
                SettingsKey::Backspace => KeyCommand::Backspace,
                SettingsKey::Left => KeyCommand::CursorLeft,
                SettingsKey::Right => KeyCommand::CursorRight,
                SettingsKey::Home => KeyCommand::CursorHome,
                SettingsKey::End => KeyCommand::CursorEnd,
                SettingsKey::Delete => KeyCommand::Delete,
                _ => if ctrl {
                    shortcut_spec(t)
                } else {
                    KeyCommand::TypeText
                },
            }
        },
    }
}

fn is_letter_key_exec(t: &Vec<char>, lower: char) -> (r: bool)
    requires
        0x61 <= lower as u32 <= 0x7A,
    ensures
        r == is_letter_key(t@, lower),
{
    if t.len() != 1 {
        return false;
    }
    let c = t[0];
    let u = c as u32;
    c == lower || (u < 0x80 && u + 32 == lower as u32)
}

/// What Escape did.
#[derive(Debug, Clone, Copy, PartialEq, Eq, Structural)]
pub enum EscapeOutcome {
    /// The address field lost the focus and got the address in use back.
    Unfocused,
    /// The settings panel was closed.
    ClosedPanel,
}

fn char_utf8_len(c: char) -> (r: usize)
    ensures
        r == utf8_len(c),
{
    let u = c as u32;
    if u < 0x80 {
        1
    } else if u < 0x800 {
        2
    } else if u < 0x10000 {
        3
    } else {
        4
    }
}

impl Renderer {
    /// Types `s` into the field, character by character (see
    /// [`type_char_spec`]); tells whether any character was inserted.
    pub fn type_text(&mut self, s: &str) -> (inserted: bool)
        requires
            old(self).wf(),
        ensures
            final(self).wf(),
            final(self)@ == type_text_spec(old(self)@, s@),
    {
        let cs = to_chars(s);
        let mut inserted = false;
        let mut i: usize = 0;
        assert(cs@.take(0) =~= Seq::<char>::empty());
        while i < cs.len()
            invariant
                i <= cs.len(),
                cs@ == s@,
                self.wf(),
                self@ == type_text_spec(old(self)@, cs@.take(i as int)),
            decreases cs.len() - i,
        {
            let c = cs[i];
            assert(cs@.take(i + 1).drop_last() =~= cs@.take(i as int));
            assert(cs@.take(i + 1).last() == c);
            let u = c as u32;
            let control = u <= 0x1F || (0x7F <= u && u <= 0x9F);
            let n = self.endpoint_text.as_str().as_bytes().len();
            let w = char_utf8_len(c);
            if !control && n <= ENDPOINT_MAX_BYTES && w <= ENDPOINT_MAX_BYTES - n {
                self.insert_text_at_cursor_char(c);
                inserted = true;
            }
            i = i + 1;
        }
        assert(cs@.take(cs.len() as int) =~= s@);
        inserted
    }

    fn insert_text_at_cursor_char(&mut self, c: char)
        requires
            old(self).wf(),
        ensures
            final(self).wf(),
            final(self)@ == insert_spec(old(self)@, seq![c]),
    {
        let mut t = String::new();
        crate::strings::push_char(&mut t, c);
        assert(t@ =~= seq![c]);
        self.insert_text_at_cursor(t.as_str());
    }

    /// Pastes `text` (see [`paste_spec`]); tells whether it was inserted.
    pub fn paste(&mut self, text: &str) -> (inserted: bool)
        requires
            old(self).wf(),
        ensures
            final(self).wf(),
            final(self)@ == paste_spec(old(self)@, text@),
            inserted == (text@.len() > 0 && encode_utf8(old(self)@.text).len() + encode_utf8(
                text@,
            ).len() <= ENDPOINT_MAX_BYTES),
    {
        let n = self.endpoint_text.as_str().as_bytes().len();
        let m = text.as_bytes().len();
        if !text.is_empty() && n <= ENDPOINT_MAX_BYTES && m <= ENDPOINT_MAX_BYTES - n {
            self.insert_text_at_cursor(text);
            true
        } else {
            false
        }
    }

    /// Escape: an address field with the focus loses it and gets `current`
    /// (the address in use) back; otherwise the panel closes.
    pub fn escape(&mut self, current: &str) -> (r: EscapeOutcome)
        requires
            old(self).wf(),
        ensures
            final(self).wf(),
            if old(self)@.focused {
                &&& r == EscapeOutcome::Unfocused
                &&& final(self)@ == (RendererV {
                    focused: false,
                    text: current@,
                    cursor: current@.len(),
                    selection: None,
                    undo: None,
                    preedit: None,
                    ..old(self)@
                })
            } else {
                &&& r == EscapeOutcome::ClosedPanel
                &&& final(self)@ == (RendererV { settings_visible: false, ..old(self)@ })
            },
    {
        if self.endpoint_focused {
            self.set_endpoint_focused(false);
            self.set_endpoint_text(crate::strings::owned(current));
            EscapeOutcome::Unfocused
        } else {
            self.set_settings_visible(false);
            EscapeOutcome::ClosedPanel
        }
    }

    /// What a key pressed on the open panel does, given its text (for a key
    /// that types) and whether Ctrl is held (see [`key_command_spec`]).
    pub fn key_command(&self, key: SettingsKey, text: &str, ctrl: bool) -> (r: KeyCommand)
        ensures
            r == key_command_spec(key, text@, self@.focused, self@.preedit is Some, ctrl),
    {
        let editable = self.endpoint_focused && self.endpoint_preedit.is_none();
        match key {
            SettingsKey::Escape => KeyCommand::Escape,
            SettingsKey::Enter => if self.endpoint_focused {
                KeyCommand::Commit
            } else {
                KeyCommand::Nothing
            },
            SettingsKey::Other => KeyCommand::Nothing,
            _ => if !editable {
                KeyCommand::Nothing
            } else {
                match key {
                    SettingsKey::Backspace => KeyCommand::Backspace,
                    SettingsKey::Left => KeyCommand::CursorLeft,
                    SettingsKey::Right => KeyCommand::CursorRight,
                    SettingsKey::Home => KeyCommand::CursorHome,
                    SettingsKey::End => KeyCommand::CursorEnd,
                    SettingsKey::Delete => KeyCommand::Delete,
                    _ => if ctrl {
                        let t = to_chars(text);
                        if is_letter_key_exec(&t, 'a') {
                            KeyCommand::SelectAll
                        } else if is_letter_key_exec(&t, 'c') {
                            KeyCommand::Copy
                        } else if is_letter_key_exec(&t, 'x') {
                            KeyCommand::Cut
                        } else if is_letter_key_exec(&t, 'v') {
                            KeyCommand::Paste
                        } else if is_letter_key_exec(&t, 'z') {
                            KeyCommand::Undo
                        } else {
                            KeyCommand::Nothing
                        }
                    } else {
                        KeyCommand::TypeText
                    },
                }
            },
        }
    }
}

/// What a click in the settings panel hit, the close button first, then the
/// address field, then the sound switch.
pub fn settings_hit(on_close: bool, on_endpoint: bool, on_toggle: bool) -> (r: SettingsHit)
    ensures
        r == if on_close {
            SettingsHit::Close
        } else if on_endpoint {
            SettingsHit::EndpointInput
        } else if on_toggle {
            SettingsHit::ToggleSound
        } else {
            SettingsHit::Nothing
        },
{
    if on_close {
        SettingsHit::Close
    } else if on_endpoint {
        SettingsHit::EndpointInput
    } else if on_toggle {
        SettingsHit::ToggleSound
    } else {
        SettingsHit::Nothing
    }
}

/// Undo after typing or pasting gives back the text and cursor from before.
pub proof fn law_undo_reverts_insert(v: RendererV, ins: Seq<char>)
    requires
        renderer_wf(v),
    ensures
        undo_spec(insert_spec(v, ins)).text == v.text,
        undo_spec(insert_spec(v, ins)).cursor == v.cursor,
{
}

/// Undo after a backspace or a delete that removed something gives back the
/// text and cursor from before.
pub proof fn law_undo_reverts_deletion(v: RendererV)
    requires
        renderer_wf(v),
    ensures
        backspace_spec(v).text != v.text ==> undo_spec(backspace_spec(v)).text == v.text
            && undo_spec(backspace_spec(v)).cursor == v.cursor,
        delete_spec(v).text != v.text ==> undo_spec(delete_spec(v)).text == v.text
            && undo_spec(delete_spec(v)).cursor == v.cursor,
{
}

/// Typing one character and pressing backspace leaves the text and cursor
/// as they were, when nothing was selected.
pub proof fn law_backspace_reverts_typed_char(v: RendererV, c: char)
    requires
        renderer_wf(v),
        v.selection is None,
    ensures
        backspace_spec(insert_spec(v, seq![c])).text == v.text,
        backspace_spec(insert_spec(v, seq![c])).cursor == v.cursor,
{
    let w = insert_spec(v, seq![c]);
    assert(w.text.len() == v.text.len() + 1);
    assert(cut(w.text, v.cursor, v.cursor + 1) =~= v.text);
}

/// Select all followed by backspace or delete empties the field and puts
/// the cursor at its start.
pub proof fn law_select_all_then_delete_empties(v: RendererV)
    requires
        renderer_wf(v),
    ensures
        backspace_spec(select_all_spec(v)).text.len() == 0,
        backspace_spec(select_all_spec(v)).cursor == 0,
        delete_spec(select_all_spec(v)).text.len() == 0,
        delete_spec(select_all_spec(v)).cursor == 0,
{
}

proof fn lemma_encode_concat(a: Seq<char>, b: Seq<char>)
    ensures
        encode_utf8(a + b) == encode_utf8(a) + encode_utf8(b),
    decreases a.len(),
{
    if a.len() == 0 {
        assert(a + b =~= b);
        assert(encode_utf8(a) =~= Seq::<u8>::empty());
        assert(encode_utf8(a) + encode_utf8(b) =~= encode_utf8(b));
    } else {
        lemma_encode_concat(a.drop_first(), b);
        assert((a + b).drop_first() =~= a.drop_first() + b);
        assert((a + b)[0] == a[0]);
        assert(encode_scalar(a[0] as u32) + (encode_utf8(a.drop_first()) + encode_utf8(b))
            =~= (encode_scalar(a[0] as u32) + encode_utf8(a.drop_first())) + encode_utf8(b));
    }
}

proof fn lemma_split_bytes(t: Seq<char>, k: int)
    requires
        0 <= k <= t.len(),
    ensures
        encode_utf8(t).len() == encode_utf8(t.take(k)).len() + encode_utf8(t.skip(k)).len(),
{
    assert(t.take(k) + t.skip(k) =~= t);
    lemma_encode_concat(t.take(k), t.skip(k));
}

proof fn lemma_scalar_len(c: char)
    ensures
        encode_scalar(c as u32).len() == utf8_len(c),
{
    char_is_scalar(c);
}

/// Inserting keeps the state consistent and adds at most the inserted bytes.
proof fn lemma_insert_bytes(v: RendererV, ins: Seq<char>)
    requires
        renderer_wf(v),
    ensures
        renderer_wf(insert_spec(v, ins)),
        encode_utf8(insert_spec(v, ins).text).len() <= encode_utf8(v.text).len() + encode_utf8(
            ins,
        ).len(),
{
    let w = delete_selection_spec(with_undo(v));
    let c = w.cursor as int;
    match v.selection {
        Some((s, e)) => {
            lemma_split_bytes(v.text, s as int);
            lemma_split_bytes(v.text.skip(s as int), (e - s) as int);
            assert(v.text.skip(s as int).skip((e - s) as int) =~= v.text.skip(e as int));
            lemma_encode_concat(v.text.take(s as int), v.text.skip(e as int));
        },
        None => {},
    }
    assert(encode_utf8(w.text).len() <= encode_utf8(v.text).len());
    lemma_split_bytes(w.text, c);
    lemma_encode_concat(w.text.take(c), ins);
    lemma_encode_concat(w.text.take(c) + ins, w.text.skip(c));
}

/// Typing never makes an address that fits in [`ENDPOINT_MAX_BYTES`] bytes
/// longer than that.
pub proof fn law_typing_keeps_byte_limit(v: RendererV, cs: Seq<char>)
    requires
        renderer_wf(v),
        encode_utf8(v.text).len() <= ENDPOINT_MAX_BYTES,
    ensures
        renderer_wf(type_text_spec(v, cs)),
        encode_utf8(type_text_spec(v, cs).text).len() <= ENDPOINT_MAX_BYTES,
    decreases cs.len(),
{
    if cs.len() > 0 {
        law_typing_keeps_byte_limit(v, cs.drop_last());
        let u = type_text_spec(v, cs.drop_last());
        let c = cs.last();
        if !is_control(c) && encode_utf8(u.text).len() + utf8_len(c) <= ENDPOINT_MAX_BYTES {
            lemma_insert_bytes(u, seq![c]);
            lemma_scalar_len(c);
            let one = seq![c];
            assert(one.len() == 1 && one[0] == c);
            assert(one.drop_first() =~= Seq::<char>::empty());
            assert(encode_utf8(one.drop_first()) =~= Seq::<u8>::empty());
            assert(encode_utf8(one) == encode_scalar(one[0] as u32) + encode_utf8(one.drop_first()));
            assert(encode_utf8(one) =~= encode_scalar(c as u32));
        }
    }
}

/// Pasting never makes an address that fits in [`ENDPOINT_MAX_BYTES`] bytes
/// longer than that.
pub proof fn law_paste_keeps_byte_limit(v: RendererV, t: Seq<char>)
    requires
        renderer_wf(v),
        encode_utf8(v.text).len() <= ENDPOINT_MAX_BYTES,
    ensures
        renderer_wf(paste_spec(v, t)),
        encode_utf8(paste_spec(v, t).text).len() <= ENDPOINT_MAX_BYTES,
{
    lemma_insert_bytes(v, t);
}

/// Delete with nothing selected and the cursor before the end removes
/// exactly the character after the cursor: the text before the cursor stays,
/// the text after it moves up by one, and the cursor stays.
pub proof fn law_delete_removes_char_after_cursor(v: RendererV)
    requires
        renderer_wf(v),
        v.selection is None,
        v.cursor < v.text.len(),
    ensures
        delete_spec(v).text.len() + 1 == v.text.len(),
        forall|i: int| 0 <= i < v.cursor ==> #[trigger] delete_spec(v).text[i] == v.text[i],
        forall|i: int|
            v.cursor <= i < v.text.len() - 1 ==> #[trigger] delete_spec(v).text[i] == v.text[i + 1],
        delete_spec(v).cursor == v.cursor,
{
}

/// Backspace with nothing selected and the cursor after the start removes
/// exactly the character before the cursor, and the cursor moves back by one.
pub proof fn law_backspace_removes_char_before_cursor(v: RendererV)
    requires
        renderer_wf(v),
        v.selection is None,
        0 < v.cursor,
    ensures
        backspace_spec(v).text.len() + 1 == v.text.len(),
        forall|i: int| 0 <= i < v.cursor - 1 ==> #[trigger] backspace_spec(v).text[i] == v.text[i],
        forall|i: int|
            v.cursor - 1 <= i < v.text.len() - 1 ==> #[trigger] backspace_spec(v).text[i]
                == v.text[i + 1],
        backspace_spec(v).cursor + 1 == v.cursor,
{
}

} // verus!
