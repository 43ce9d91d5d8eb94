//! The mouse state machine: tells clicks, right clicks, drags and scrolls
//! apart. Cursor coordinates and the drag threshold stay with the caller,
//! which reports what they decided (the pixel hit on the whale, whether the
//! cursor moved past the threshold).

use vstd::prelude::*;

verus! {

/// What a press landed on.
#[derive(Debug, Clone, Copy, PartialEq, Eq, Structural)]
pub enum ClickTarget {
    Whale,
    Bubble,
}

/// What an input event leads to.
#[derive(Debug, Clone, Copy, PartialEq, Eq, Structural)]
pub enum InputAction {
    Nothing,
    /// A click on the whale (toggles the bubble) or on the bubble (opens the GUI).
    Click(ClickTarget),
    /// A right click: the context menu or the settings panel.
    ContextMenu,
    /// Dragging, by this much.
    Dragging { dx: i32, dy: i32 },
    /// A drag ended.
    DragEnd,
    /// Scrolling inside the bubble.
    Scroll,
}

/// A mouse event, as far as the state machine looks at it.
#[derive(Debug, Clone, Copy, PartialEq, Eq, Structural)]
pub enum MouseEvent {
    CursorMoved,
    LeftPressed,
    LeftReleased,
    RightReleased,
    Wheel,
    Other,
}

/// The mouse state.
pub struct InputState {
    down: bool,
    moved: bool,
    down_target: Option<ClickTarget>,
    drag_origin: Option<(i32, i32)>,
    /// The cursor is over the bubble.
    pub in_bubble: bool,
    /// The cursor is over the whale's stage.
    pub in_whale: bool,
}

/// The abstract mouse state.
pub ghost struct InputV {
    pub down: bool,
    pub moved: bool,
    pub down_target: Option<ClickTarget>,
    pub drag_origin: Option<(i32, i32)>,
    pub in_bubble: bool,
    pub in_whale: bool,
}

impl View for InputState {
    type V = InputV;

    closed spec fn view(&self) -> InputV {
        InputV {
            down: self.down,
            moved: self.moved,
            down_target: self.down_target,
            drag_origin: self.drag_origin,
            in_bubble: self.in_bubble,
            in_whale: self.in_whale,
        }
    }
}

/// The effect of an event: the next state and the action. `whale_hit` is
/// whether the cursor is on a visible pixel of the whale.
pub open spec fn handle_spec(s: InputV, e: MouseEvent, whale_hit: bool) -> (InputV, InputAction) {
    match e {
        MouseEvent::LeftPressed => {
            if s.in_whale {
                (InputV { down: true, moved: false, down_target: Some(ClickTarget::Whale), ..s }, InputAction::Nothing)
            } else if s.in_bubble {
                (InputV { down: true, moved: false, down_target: Some(ClickTarget::Bubble), ..s }, InputAction::Nothing)
            } else {
                (s, InputAction::Nothing)
            }
        },
        MouseEvent::LeftReleased => {
            let action = if s.down && !s.moved {
                match s.down_target {
                    Some(ClickTarget::Whale) => if whale_hit {
                        InputAction::Click(ClickTarget::Whale)
                    } else {
                        InputAction::Nothing
                    },
                    Some(ClickTarget::Bubble) => InputAction::Click(ClickTarget::Bubble),
                    None => InputAction::Nothing,
                }
            } else if s.down {
                InputAction::DragEnd
            } else {
                InputAction::Nothing
            };
            (InputV { down: false, moved: false, down_target: None, ..s }, action)
        },
        MouseEvent::RightReleased => {
            if s.in_whale && !whale_hit {
                (s, InputAction::Nothing)
            } else if !s.in_whale && !s.in_bubble {
                (s, InputAction::Nothing)
            } else {
                (s, InputAction::ContextMenu)
            }
        },
        MouseEvent::Wheel => (s, if s.in_bubble {
            InputAction::Scroll
        } else {
            InputAction::Nothing
        }),
        _ => (s, InputAction::Nothing),
    }
}

impl InputState {
    /// Button up, nothing over anything.
    pub fn new() -> (r: Self)
        ensures
            r@ == (InputV {
                down: false,
                moved: false,
                down_target: None,
                drag_origin: None,
                in_bubble: false,
                in_whale: false,
            }),
    {
        InputState {
            down: false,
            moved: false,
            down_target: None,
            drag_origin: None,
            in_bubble: false,
            in_whale: false,
        }
    }

    /// Records which regions the cursor is over.
    pub fn set_hit_regions(&mut self, in_bubble: bool, in_whale: bool)
        ensures
            final(self)@ == (InputV { in_bubble, in_whale, ..old(self)@ }),
    {
        self.in_bubble = in_bubble;
        self.in_whale = in_whale;
    }

    /// Records the window's screen position when the button went down.
    pub fn set_drag_origin(&mut self, origin: (i32, i32))
        ensures
            final(self)@ == (InputV { drag_origin: Some(origin), ..old(self)@ }),
    {
        self.drag_origin = Some(origin);
    }

    /// The window's screen position when the button went down.
    pub fn drag_origin(&self) -> (r: Option<(i32, i32)>)
        ensures
            r == self@.drag_origin,
    {
        self.drag_origin
    }

    /// Forgets the drag origin.
    pub fn clear_drag_origin(&mut self)
        ensures
            final(self)@ == (InputV { drag_origin: None, ..old(self)@ }),
    {
        self.drag_origin = None;
    }

    /// Whether the left button is down on the whale or the bubble.
    pub fn is_down(&self) -> (r: bool)
        ensures
            r == self@.down,
    {
        self.down
    }

    /// Whether the cursor moved past the drag threshold since the press.
    pub fn is_moved(&self) -> (r: bool)
        ensures
            r == self@.moved,
    {
        self.moved
    }

    /// Marks the press as a drag once the cursor went past the threshold;
    /// once marked it stays so until the button is released.
    pub fn check_moved(&mut self, beyond_threshold: bool)
        ensures
            final(self)@ == (InputV { moved: old(self)@.moved || beyond_threshold, ..old(self)@ }),
    {
        if self.moved {
            return;
        }
        if beyond_threshold {
            self.moved = true;
        }
    }

    /// Handles a mouse event (see [`handle_spec`]): a press on the whale or
    /// the bubble starts a press; a release without a drag is a click (on
    /// the whale only on a visible pixel), after a drag it ends the drag; a
    /// right release over the whale's pixels or the bubble opens the context
    /// menu; the wheel scrolls inside the bubble.
    pub fn handle(&mut self, event: MouseEvent, whale_hit: bool) -> (r: InputAction)
        ensures
            (final(self)@, r) == handle_spec(old(self)@, event, whale_hit),
    {
        match event {
            MouseEvent::LeftPressed => {
                let target = if self.in_whale {
                    Some(ClickTarget::Whale)
                } else if self.in_bubble {
                    Some(ClickTarget::Bubble)
                } else {
                    None
                };
                if target.is_none() {
                    return InputAction::Nothing;
                }
                self.down = true;
                self.moved = false;
                self.down_target = target;
                InputAction::Nothing
            },
            MouseEvent::LeftReleased => {
                let action = if self.down && !self.moved {
                    match self.down_target {
                        Some(ClickTarget::Whale) => {
                            if whale_hit {
                                InputAction::Click(ClickTarget::Whale)
                            } else {
                                InputAction::Nothing
                            }
                        },
                        Some(ClickTarget::Bubble) => InputAction::Click(ClickTarget::Bubble),
                        None => InputAction::Nothing,
                    }
                } else if self.down {
                    InputAction::DragEnd
                } else {
                    InputAction::Nothing
                };
                self.down = false;
                self.moved = false;
                self.down_target = None;
                action
            },
            MouseEvent::RightReleased => {
                if self.in_whale && !whale_hit {
                    return InputAction::Nothing;
                }
                if !self.in_whale && !self.in_bubble {
                    return InputAction::Nothing;
                }
                InputAction::ContextMenu
            },
            MouseEvent::Wheel => {
                if self.in_bubble {
                    InputAction::Scroll
                } else {
                    InputAction::Nothing
                }
            },
            _ => InputAction::Nothing,
        }
    }
}

impl Default for InputState {
    /// Button up, nothing over anything (see [`InputState::new`]).
    fn default() -> (r: Self)
        ensures
            r@ == (InputV {
                down: false,
                moved: false,
                down_target: None,
                drag_origin: None,
                in_bubble: false,
                in_whale: false,
            }),
    {
        InputState::new()
    }
}

/// A press on the whale or the bubble followed by a release with no drag in
/// between is a click on what was pressed (on the whale, when the release is
/// on one of its visible pixels); after a drag the release ends the drag
/// instead. Either way the button is then up.
pub proof fn law_press_release(s: InputV, moved_between: bool, whale_hit: bool)
    requires
        s.in_whale || s.in_bubble,
    ensures
        ({
            let pressed = handle_spec(s, MouseEvent::LeftPressed, whale_hit).0;
            let dragged = InputV { moved: pressed.moved || moved_between, ..pressed };
            let (after, action) = handle_spec(dragged, MouseEvent::LeftReleased, whale_hit);
            &&& !after.down && !after.moved && after.down_target is None
            &&& moved_between ==> action == InputAction::DragEnd
            &&& !moved_between ==> action == if s.in_whale {
                if whale_hit {
                    InputAction::Click(ClickTarget::Whale)
                } else {
                    InputAction::Nothing
                }
            } else {
                InputAction::Click(ClickTarget::Bubble)
            }
        }),
{
}

/// A release with the button up does nothing, and no event but a release
/// ends a press.
pub proof fn law_release_without_press(s: InputV, e: MouseEvent, whale_hit: bool)
    ensures
        !s.down && e == MouseEvent::LeftReleased ==> handle_spec(s, e, whale_hit).1
            == InputAction::Nothing,
        s.down && e != MouseEvent::LeftReleased ==> handle_spec(s, e, whale_hit).0.down,
{
}

} // verus!
