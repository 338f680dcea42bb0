use vstd::prelude::*;
use crate::router::Route;

pub mod dashboard;
pub mod login;

verus! {

/// What a page asks the application to do after handling input.
#[derive(Debug, Clone, PartialEq, Eq, Structural)]
pub enum PageAction {
    NoAction,
    Navigate(Route),
    Back,
    Quit,
    Tick,
}

/// A key on the keyboard, as the pages distinguish them.
#[derive(Debug, Clone, Copy, PartialEq, Eq, Structural)]
pub enum KeyCode {
    Down,
    Up,
    Left,
    Right,
    Tab,
    /// Tab pressed with Shift.
    BackTab,
    Enter,
    Esc,
    Backspace,
    Char(char),
    Other,
}

/// A key press, with whether the Control modifier was held.
#[derive(Debug, Clone, Copy, PartialEq, Eq, Structural)]
pub struct KeyEvent {
    pub code: KeyCode,
    pub ctrl: bool,
}

/// The kinds of mouse input the pages react to.
#[derive(Debug, Clone, Copy, PartialEq, Eq, Structural)]
pub enum MouseEventKind {
    LeftDown,
    ScrollDown,
    ScrollUp,
    Other,
}

/// A mouse event at a terminal cell.
#[derive(Debug, Clone, Copy, PartialEq, Eq, Structural)]
pub struct MouseEvent {
    pub kind: MouseEventKind,
    pub column: u16,
    pub row: u16,
}

/// Terminal input handed to a page.
#[derive(Debug, Clone, Copy, PartialEq, Eq, Structural)]
pub enum Event {
    Key(KeyEvent),
    Mouse(MouseEvent),
    Resize(u16, u16),
    Other,
}

/// A rectangle of terminal cells.
#[derive(Debug, Clone, Copy, PartialEq, Eq, Structural)]
pub struct Rect {
    pub x: u16,
    pub y: u16,
    pub width: u16,
    pub height: u16,
}

impl Rect {
    /// The rectangle at the origin with no area.
    pub fn zero() -> (r: Rect)
        ensures
            r == (Rect { x: 0, y: 0, width: 0, height: 0 }),
    {
        Rect { x: 0, y: 0, width: 0, height: 0 }
    }

    /// Whether the cell `(x, y)` lies inside the rectangle.
    pub fn contains(&self, x: u16, y: u16) -> (b: bool)
        requires
            self.x + self.width <= u16::MAX,
            self.y + self.height <= u16::MAX,
        ensures
            b == (self.x <= x < self.x + self.width && self.y <= y < self.y + self.height),
    {
        x >= self.x && x < self.x + self.width && y >= self.y && y < self.y + self.height
    }
}

} // verus!
