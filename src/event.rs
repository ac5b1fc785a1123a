use vstd::prelude::*;

verus! {

use crate::message::Message;
use crate::model::Model;
use crate::pane::{is_detail, is_list, next_row, pane_at, previous_row, row_of, InputEvent, KeyCode, Pane};

/// The message a key press gives while the terminal is too small: only the
/// quit keys count.
pub open spec fn small_terminal_message(code: KeyCode, control: bool) -> Option<Message> {
    match code {
        KeyCode::Esc | KeyCode::Char('q') => Some(Message::GoBackOrQuit),
        KeyCode::Char('c') => if control {
            Some(Message::QuitImmediately)
        } else {
            None
        },
        _ => None,
    }
}

/// The message a key press gives in the help pane.
pub open spec fn help_message(code: KeyCode, control: bool) -> Option<Message> {
    match code {
        KeyCode::Esc | KeyCode::Char('q') | KeyCode::Char('?') => Some(Message::GoBackOrQuit),
        KeyCode::Char('c') => if control {
            Some(Message::QuitImmediately)
        } else {
            None
        },
        _ => None,
    }
}

/// A message that only a list pane answers.
pub open spec fn list_only(p: Pane, m: Message) -> Option<Message> {
    if is_list(p) {
        Some(m)
    } else {
        None
    }
}

/// The message a key press gives in one of the six panes besides help.
/// Digits jump to a pane; `Tab` and `Shift+Tab` cycle the list panes;
/// `J` and `K` move down and up the stack of rows on the same side; `L`
/// and `H` cross to the other side of the row, `→` from a list to its
/// details and `←` back.
pub open spec fn pane_message(p: Pane, code: KeyCode, control: bool) -> Option<Message> {
    let row = row_of(p);
    let detail = is_detail(p);
    match code {
        KeyCode::Esc | KeyCode::Char('q') => Some(Message::GoBackOrQuit),
        KeyCode::Char('?') => Some(Message::GoToPane(Pane::Help)),
        KeyCode::Char('c') => if control {
            Some(Message::QuitImmediately)
        } else {
            None
        },
        KeyCode::Char('r') => if control {
            Some(Message::RefreshResultsForMarkedServices)
        } else {
            Some(Message::RefreshResultsForCurrentItem)
        },
        KeyCode::Char('1') => Some(Message::GoToPane(Pane::ServicesList)),
        KeyCode::Char('2') => Some(Message::GoToPane(Pane::TasksList)),
        KeyCode::Char('3') => Some(Message::GoToPane(Pane::ContainersList)),
        KeyCode::Char('4') => Some(Message::GoToPane(Pane::ContainerDetails)),
        KeyCode::Tab => Some(Message::GoToPane(pane_at(next_row(row), false))),
        KeyCode::BackTab => Some(Message::GoToPane(pane_at(previous_row(row), false))),
        KeyCode::Char('J') => Some(Message::GoToPane(pane_at(next_row(row), detail))),
        KeyCode::Char('K') => Some(Message::GoToPane(pane_at(previous_row(row), detail))),
        KeyCode::Char('L') | KeyCode::Char('H') => Some(Message::GoToPane(pane_at(row, !detail))),
        KeyCode::Right => if detail {
            None
        } else {
            Some(Message::GoToPane(pane_at(row, true)))
        },
        KeyCode::Left => if detail {
            Some(Message::GoToPane(pane_at(row, false)))
        } else {
            None
        },
        KeyCode::Char('j') | KeyCode::Down => list_only(p, Message::GoToNextListItem),
        KeyCode::Char('k') | KeyCode::Up => list_only(p, Message::GoToPreviousListItem),
        KeyCode::Char('g') => list_only(p, Message::GoToFirstListItem),
        KeyCode::Char('G') => list_only(p, Message::GoToLastListItem),
        KeyCode::Char('m') => if p == Pane::ServicesList {
            Some(Message::ToggleServiceRefresh)
        } else {
            None
        },
        KeyCode::Char('R') => if p == Pane::ServicesList {
            Some(Message::ToggleAutoRefresh)
        } else {
            None
        },
        _ => None,
    }
}

/// The message a raw event gives on a model in pane `p`, too small or not.
pub open spec fn event_message(p: Pane, small: bool, event: InputEvent) -> Option<Message> {
    match event {
        InputEvent::Key { code, control, press } => if !press {
            None
        } else if small {
            small_terminal_message(code, control)
        } else if p == Pane::Help {
            help_message(code, control)
        } else {
            pane_message(p, code, control)
        },
        InputEvent::Resize(w, h) => Some(Message::TerminalResize(w, h)),
        InputEvent::Other => None,
    }
}

fn list_only_message(p: Pane, m: Message) -> (r: Option<Message>)
    ensures
        r == list_only(p, m),
{
    if p.is_list() {
        Some(m)
    } else {
        None
    }
}

fn pane_key_message(p: Pane, code: KeyCode, control: bool) -> (r: Option<Message>)
    requires
        p != Pane::Help,
    ensures
        r == pane_message(p, code, control),
{
    let row = p.row();
    let detail = p.is_detail();
    let next: u8 = if row >= 2 {
        0
    } else {
        row + 1
    };
    let previous: u8 = if row == 0 {
        2
    } else {
        row - 1
    };
    match code {
        KeyCode::Esc | KeyCode::Char('q') => Some(Message::GoBackOrQuit),
        KeyCode::Char('?') => Some(Message::GoToPane(Pane::Help)),
        KeyCode::Char('c') => if control {
            Some(Message::QuitImmediately)
        } else {
            None
        },
        KeyCode::Char('r') => if control {
            Some(Message::RefreshResultsForMarkedServices)
        } else {
            Some(Message::RefreshResultsForCurrentItem)
        },
        KeyCode::Char('1') => Some(Message::GoToPane(Pane::ServicesList)),
        KeyCode::Char('2') => Some(Message::GoToPane(Pane::TasksList)),
        KeyCode::Char('3') => Some(Message::GoToPane(Pane::ContainersList)),
        KeyCode::Char('4') => Some(Message::GoToPane(Pane::ContainerDetails)),
        KeyCode::Tab => Some(Message::GoToPane(Pane::at(next, false))),
        KeyCode::BackTab => Some(Message::GoToPane(Pane::at(previous, false))),
        KeyCode::Char('J') => Some(Message::GoToPane(Pane::at(next, detail))),
        KeyCode::Char('K') => Some(Message::GoToPane(Pane::at(previous, detail))),
        KeyCode::Char('L') | KeyCode::Char('H') => Some(Message::GoToPane(Pane::at(row, !detail))),
        KeyCode::Right => if detail {
            None
        } else {
            Some(Message::GoToPane(Pane::at(row, true)))
        },
        KeyCode::Left => if detail {
            Some(Message::GoToPane(Pane::at(row, false)))
        } else {
            None
        },
        KeyCode::Char('j') | KeyCode::Down => list_only_message(p, Message::GoToNextListItem),
        KeyCode::Char('k') | KeyCode::Up => list_only_message(p, Message::GoToPreviousListItem),
        KeyCode::Char('g') => list_only_message(p, Message::GoToFirstListItem),
        KeyCode::Char('G') => list_only_message(p, Message::GoToLastListItem),
        KeyCode::Char('m') => if p == Pane::ServicesList {
            Some(Message::ToggleServiceRefresh)
        } else {
            None
        },
        KeyCode::Char('R') => if p == Pane::ServicesList {
            Some(Message::ToggleAutoRefresh)
        } else {
            None
        },
        _ => None,
    }
}

/// Translates a raw terminal event into a message for the reducer, by the
/// active pane and whether the terminal is too small. Resizes always give
/// a message.
pub fn get_event_handling_msg(model: &Model, event: InputEvent) -> (r: Option<Message>)
    ensures
        r == event_message(model.active_pane, model.terminal_too_small, event),
{
    match event {
        InputEvent::Key { code, control, press } => {
            if !press {
                None
            } else if model.terminal_too_small {
                match code {
                    KeyCode::Esc | KeyCode::Char('q') => Some(Message::GoBackOrQuit),
                    KeyCode::Char('c') => if control {
                        Some(Message::QuitImmediately)
                    } else {
                        None
                    },
                    _ => None,
                }
            } else if model.active_pane == Pane::Help {
                match code {
                    KeyCode::Esc | KeyCode::Char('q') | KeyCode::Char('?') => Some(
                        Message::GoBackOrQuit,
                    ),
                    KeyCode::Char('c') => if control {
                        Some(Message::QuitImmediately)
                    } else {
                        None
                    },
                    _ => None,
                }
            } else {
                pane_key_message(model.active_pane, code, control)
            }
        },
        InputEvent::Resize(w, h) => Some(Message::TerminalResize(w, h)),
        InputEvent::Other => None,
    }
}

/// Whether a key moves between panes: a digit, `Tab`, `Shift+Tab`, `J`,
/// `K`, `L` or `H`.
pub open spec fn is_pane_key(code: KeyCode) -> bool {
    match code {
        KeyCode::Char(c) => c == '1' || c == '2' || c == '3' || c == '4' || c == 'J' || c == 'K'
            || c == 'L' || c == 'H',
        KeyCode::Tab | KeyCode::BackTab => true,
        _ => false,
    }
}

/// Pane transitions are total: in every pane but help, every pane key leads
/// to a pane, `→` leads from every list pane and `←` from every detail
/// pane; `Esc` leads back (or out) from every pane, help included.
pub proof fn lemma_pane_keys_total(p: Pane, code: KeyCode, control: bool)
    ensures
        p != Pane::Help && is_pane_key(code) ==> pane_message(p, code, control) matches Some(
            Message::GoToPane(_),
        ),
        p != Pane::Help && is_list(p) ==> pane_message(p, KeyCode::Right, control) matches Some(
            Message::GoToPane(_),
        ),
        p != Pane::Help && is_detail(p) ==> pane_message(p, KeyCode::Left, control) matches Some(
            Message::GoToPane(_),
        ),
        event_message(p, false, InputEvent::Key { code: KeyCode::Esc, control, press: true })
            == Some(Message::GoBackOrQuit),
        event_message(p, true, InputEvent::Key { code: KeyCode::Esc, control, press: true })
            == Some(Message::GoBackOrQuit),
{
}

} // verus!
