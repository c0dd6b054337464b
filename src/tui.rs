use vstd::prelude::*;

verus! {

/// A key press as the interactive viewer sees it.
#[derive(Clone, Copy, Debug, PartialEq, Eq, Structural)]
pub enum Key {
    Char(char),
    Tab,
    BackTab,
    Esc,
    Other,
}

/// What the viewer shows besides the palette: the selected slot and whether the
/// help overlay is open. It never changes the palette's colors.
#[derive(Clone, Copy, Debug, PartialEq, Eq, Structural)]
pub struct ViewState {
    pub selected_slot: Option<usize>,
    pub show_help: bool,
}

/// What the viewer does after a key press.
#[derive(Clone, Copy, Debug, PartialEq, Eq, Structural)]
pub enum Action {
    Continue,
    Quit,
}

impl ViewState {
    /// A selected slot is one of the 16 ANSI slots.
    pub open spec fn wf(self) -> bool {
        self.selected_slot matches Some(n) ==> n < 16
    }

    pub fn new() -> (s: ViewState)
        ensures
            s == (ViewState { selected_slot: None, show_help: false }),
    {
        ViewState { selected_slot: None, show_help: false }
    }
}

/// The slot after `sel`, wrapping from 15 to 0; nothing selected goes to 0.
pub open spec fn next_slot(sel: Option<usize>) -> usize {
    match sel {
        Some(n) => if n >= 15 { 0 } else { (n + 1) as usize },
        None => 0,
    }
}

/// The slot before `sel`, wrapping from 0 to 15; nothing selected goes to 15.
pub open spec fn prev_slot(sel: Option<usize>) -> usize {
    match sel {
        Some(n) => if n == 0 { 15 } else { (n - 1) as usize },
        None => 15,
    }
}

/// Selects the next slot.
pub fn cycle_slot(sel: Option<usize>) -> (r: Option<usize>)
    requires
        sel matches Some(n) ==> n < 16,
    ensures
        r == Some(next_slot(sel)),
        r->0 < 16,
{
    Some(
        match sel {
            None => 0,
            Some(n) => if n == 15 { 0 } else { n + 1 },
        },
    )
}

/// Selects the previous slot.
pub fn cycle_slot_reverse(sel: Option<usize>) -> (r: Option<usize>)
    requires
        sel matches Some(n) ==> n < 16,
    ensures
        r == Some(prev_slot(sel)),
        r->0 < 16,
{
    Some(
        match sel {
            None => 15,
            Some(n) => if n == 0 { 15 } else { n - 1 },
        },
    )
}

/// The state and action that follow `key`: `q` quits, `?` toggles help, Tab and
/// Shift+Tab cycle the selection, `1` to `6` select that accent slot, Esc closes
/// help if it is open and otherwise clears the selection; other keys change nothing.
pub open spec fn step(s: ViewState, key: Key) -> (ViewState, Action) {
    match key {
        Key::Char(c) => if c == 'q' {
            (s, Action::Quit)
        } else if c == '?' {
            (ViewState { show_help: !s.show_help, ..s }, Action::Continue)
        } else if '1' <= c <= '6' {
            (ViewState { selected_slot: Some((c as int - '0' as int) as usize), ..s }, Action::Continue)
        } else {
            (s, Action::Continue)
        },
        Key::Tab => (ViewState { selected_slot: Some(next_slot(s.selected_slot)), ..s }, Action::Continue),
        Key::BackTab => (ViewState { selected_slot: Some(prev_slot(s.selected_slot)), ..s }, Action::Continue),
        Key::Esc => if s.show_help {
            (ViewState { show_help: false, ..s }, Action::Continue)
        } else {
            (ViewState { selected_slot: None, ..s }, Action::Continue)
        },
        Key::Other => (s, Action::Continue),
    }
}

/// Handles one key press of the interactive viewer.
pub fn handle_key(s: ViewState, key: Key) -> (r: (ViewState, Action))
    requires
        s.wf(),
    ensures
        r == step(s, key),
        r.0.wf(),
{
    match key {
        Key::Char(c) => {
            if c == 'q' {
                (s, Action::Quit)
            } else if c == '?' {
                (ViewState { show_help: !s.show_help, ..s }, Action::Continue)
            } else if '1' <= c && c <= '6' {
                let n: usize = (c as u32 - '0' as u32) as usize;
                (ViewState { selected_slot: Some(n), ..s }, Action::Continue)
            } else {
                (s, Action::Continue)
            }
        },
        Key::Tab => (ViewState { selected_slot: cycle_slot(s.selected_slot), ..s }, Action::Continue),
        Key::BackTab => (ViewState { selected_slot: cycle_slot_reverse(s.selected_slot), ..s }, Action::Continue),
        Key::Esc => {
            if s.show_help {
                (ViewState { show_help: false, ..s }, Action::Continue)
            } else {
                (ViewState { selected_slot: None, ..s }, Action::Continue)
            }
        },
        Key::Other => (s, Action::Continue),
    }
}

} // verus!
