use crate::tui::editor::{Cursor, Editor};
use vstd::prelude::*;

verus! {

/// The screens of the terminal interface, in the order of their tabs.
#[derive(Debug, Clone, Copy, PartialEq, Eq, Structural)]
pub enum CurrentScreen {
    Main,
    Downloading,
    Finished,
    Filter,
    State,
    Log,
}

impl CurrentScreen {
    /// The position of the screen's tab.
    pub fn tab_index(&self) -> (r: usize)
        ensures
            r < 6,
            *self == CurrentScreen::Main <==> r == 0,
            *self == CurrentScreen::Downloading <==> r == 1,
            *self == CurrentScreen::Finished <==> r == 2,
            *self == CurrentScreen::Filter <==> r == 3,
            *self == CurrentScreen::State <==> r == 4,
            *self == CurrentScreen::Log <==> r == 5,
    {
        match self {
            CurrentScreen::Main => 0,
            CurrentScreen::Downloading => 1,
            CurrentScreen::Finished => 2,
            CurrentScreen::Filter => 3,
            CurrentScreen::State => 4,
            CurrentScreen::Log => 5,
        }
    }
}

/// The first line a scrolled list may start at so that a window of
/// `visible` lines stays filled.
pub open spec fn last_start(total: usize, visible: usize) -> int {
    if total >= visible {
        total - visible
    } else {
        0
    }
}

/// The part of a scrolled list of `total` lines shown in a window of
/// `visible` lines: the first line shown, `offset` moved back so that the
/// window stays filled, and the line after the last one shown.
pub fn visible_window(offset: usize, total: usize, visible: usize) -> (r: (usize, usize))
    ensures
        r.0 == if offset <= last_start(total, visible) { offset as int } else { last_start(total, visible) },
        r.1 == if r.0 + visible <= total { r.0 + visible } else { total as int },
        r.0 <= r.1 <= total,
{
    let max_first = if total >= visible { total - visible } else { 0 };
    let first = if offset <= max_first { offset } else { max_first };
    let end = if first + visible <= total { first + visible } else { total };
    (first, end)
}

/// Whether the user is typing, and into which editor.
#[derive(Debug)]
pub enum InputState {
    NotInput,
    Text(Editor),
}

impl InputState {
    /// Typing into an empty editor.
    pub fn empty_text() -> (r: Self)
        ensures
            r matches InputState::Text(e) && e@.text == Seq::<char>::empty() && e@.cursor == (Cursor::Normal { index: 0 })
                && e@.insert_at is None,
    {
        Self::Text(Editor::new())
    }

    /// Typing into an editor holding `str`, the cursor at its start.
    pub fn text(str: String) -> (r: Self)
        ensures
            r matches InputState::Text(e) && e@.text == str@ && e@.cursor == (Cursor::Normal { index: 0 })
                && e@.insert_at is None,
    {
        Self::Text(Editor::new_with_text(str))
    }

    /// Kept for callers that mark the input as selected; the selection lives in the editor.
    pub fn to_selected(&mut self)
        ensures
            *final(self) == *old(self),
    {
    }

    /// Kept for callers that mark the input as not selected; the selection lives in the editor.
    pub fn to_unselected(&mut self)
        ensures
            *final(self) == *old(self),
    {
    }

    /// Whether the user is typing.
    pub fn is_typing(&self) -> (r: bool)
        ensures
            r == !(*self is NotInput),
    {
        match self {
            InputState::NotInput => false,
            InputState::Text(_) => true,
        }
    }

    /// Takes what is typed, leaving an empty editor behind; nothing is taken
    /// when the user is not typing.
    pub fn take(&mut self) -> (r: InputState)
        ensures
            *old(self) is NotInput ==> r is NotInput && *final(self) is NotInput,
            *old(self) is Text ==> r == *old(self) && (*final(self) matches InputState::Text(e)
                && e@.text == Seq::<char>::empty() && e@.cursor == (Cursor::Normal { index: 0 }) && e@.insert_at is None),
    {
        match self {
            InputState::Text(_) => {
                let mut r = InputState::Text(Editor::default());
                std::mem::swap(self, &mut r);
                r
            },
            InputState::NotInput => InputState::NotInput,
        }
    }
}

} // verus!
