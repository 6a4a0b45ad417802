use vstd::prelude::*;

use crate::map::Position;

pub mod build_history;
pub mod menu;
pub mod popup;
pub mod toolbar;
pub mod view_build;

verus! {

/// The time controls of the game screen.
#[derive(Clone, Copy, PartialEq, Eq, Structural, Debug)]
pub enum TimeSelect {
    Pause,
    FastForward,
    Menu,
}

/// What the build view is told about the mouse over the map.
#[derive(Clone, Copy, PartialEq, Eq, Structural, Debug)]
pub enum MouseEvent {
    /// The pointer left the grid: forget the press.
    Clear,
    /// The left button went down at this tile.
    Down(Position),
    /// The left button came up at this tile.
    Up(Position),
    /// The pointer moved onto this tile.
    Motion(Position),
}

/// What the game remembers of the mouse between frames.
#[derive(Clone, Copy, PartialEq, Eq, Structural, Debug)]
pub struct MouseState {
    pub mouse_pressed: bool,
    pub last_mouse_pos: Option<Position>,
}

/// The events of one frame with the pointer over the map at tile `pos`
/// (`on_grid` whether that tile exists) and the left button `button_down`,
/// from `state` (see `mouse_step`).
pub open spec fn spec_mouse_step(state: MouseState, pos: Position, on_grid: bool, button_down: bool) -> (
    MouseState,
    Seq<MouseEvent>,
) {
    if !on_grid {
        (MouseState { mouse_pressed: false, last_mouse_pos: None }, seq![MouseEvent::Clear])
    } else {
        let (pressed, press_events) = if button_down {
            if !state.mouse_pressed {
                (true, seq![MouseEvent::Down(pos)])
            } else {
                (true, Seq::empty())
            }
        } else if state.mouse_pressed {
            (false, seq![MouseEvent::Up(pos)])
        } else {
            (false, Seq::empty())
        };
        if state.last_mouse_pos != Some(pos) {
            (
                MouseState { mouse_pressed: pressed, last_mouse_pos: Some(pos) },
                press_events.push(MouseEvent::Motion(pos)),
            )
        } else {
            (MouseState { mouse_pressed: pressed, last_mouse_pos: state.last_mouse_pos }, press_events)
        }
    }
}

impl MouseState {
    pub fn new() -> (r: Self)
        ensures
            r == (MouseState { mouse_pressed: false, last_mouse_pos: None }),
    {
        MouseState { mouse_pressed: false, last_mouse_pos: None }
    }

    /// One frame of the mouse over the map: off the grid the press is
    /// forgotten; otherwise a press and a release each give one event, and
    /// moving onto a new tile gives a motion event.
    pub fn step(&mut self, pos: Position, on_grid: bool, button_down: bool) -> (r: Vec<MouseEvent>)
        ensures
            (*final(self), r@) == spec_mouse_step(*old(self), pos, on_grid, button_down),
    {
        let mut events: Vec<MouseEvent> = Vec::new();
        if !on_grid {
            self.mouse_pressed = false;
            self.last_mouse_pos = None;
            events.push(MouseEvent::Clear);
            assert(events@ =~= seq![MouseEvent::Clear]);
            return events;
        }
        if button_down {
            if !self.mouse_pressed {
                events.push(MouseEvent::Down(pos));
                self.mouse_pressed = true;
            }
        } else if self.mouse_pressed {
            self.mouse_pressed = false;
            events.push(MouseEvent::Up(pos));
        }
        let moved = match self.last_mouse_pos {
            Some(last) => last != pos,
            None => true,
        };
        if moved {
            events.push(MouseEvent::Motion(pos));
            self.last_mouse_pos = Some(pos);
        }
        proof {
            let (st, evs) = spec_mouse_step(*old(self), pos, on_grid, button_down);
            assert(events@ =~= evs);
        }
        events
    }
}

} // verus!
