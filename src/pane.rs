use vstd::prelude::*;

verus! {

/// The dashboard's focus regions. The six panes besides help form three
/// rows (services, tasks, containers) of a list pane and its detail pane.
#[derive(PartialEq, Eq, Structural, Debug, Clone, Copy)]
pub enum Pane {
    ServicesList,
    ServiceDetails,
    TasksList,
    TaskDetails,
    ContainersList,
    ContainerDetails,
    Help,
}

/// The row of a pane other than help: services, tasks or containers.
pub open spec fn row_of(p: Pane) -> int {
    match p {
        Pane::ServicesList | Pane::ServiceDetails => 0,
        Pane::TasksList | Pane::TaskDetails => 1,
        _ => 2,
    }
}

/// Whether a pane is a detail pane.
pub open spec fn is_detail(p: Pane) -> bool {
    p == Pane::ServiceDetails || p == Pane::TaskDetails || p == Pane::ContainerDetails
}

/// Whether a pane is one of the three list panes.
pub open spec fn is_list(p: Pane) -> bool {
    p == Pane::ServicesList || p == Pane::TasksList || p == Pane::ContainersList
}

/// The pane of a row and side.
pub open spec fn pane_at(row: int, detail: bool) -> Pane {
    if row == 0 {
        if detail {
            Pane::ServiceDetails
        } else {
            Pane::ServicesList
        }
    } else if row == 1 {
        if detail {
            Pane::TaskDetails
        } else {
            Pane::TasksList
        }
    } else {
        if detail {
            Pane::ContainerDetails
        } else {
            Pane::ContainersList
        }
    }
}

/// The row below, wrapping round.
pub open spec fn next_row(row: int) -> int {
    if row >= 2 {
        0
    } else {
        row + 1
    }
}

/// The row above, wrapping round.
pub open spec fn previous_row(row: int) -> int {
    if row <= 0 {
        2
    } else {
        row - 1
    }
}

impl Pane {
    /// A short tag for the pane, as the debug line shows it.
    pub fn short_name(&self) -> &'static str {
        match self {
            Pane::ServicesList => "sl",
            Pane::ServiceDetails => "sd",
            Pane::TasksList => "tl",
            Pane::TaskDetails => "td",
            Pane::ContainersList => "cl",
            Pane::ContainerDetails => "cd",
            Pane::Help => "h",
        }
    }

    /// The row of the pane (help counts with services).
    pub fn row(&self) -> (r: u8)
        ensures
            r as int == row_of(*self),
            r <= 2,
    {
        match self {
            Pane::ServicesList | Pane::ServiceDetails => 0,
            Pane::TasksList | Pane::TaskDetails => 1,
            Pane::ContainersList | Pane::ContainerDetails => 2,
            Pane::Help => 2,
        }
    }

    pub fn is_detail(&self) -> (r: bool)
        ensures
            r == is_detail(*self),
    {
        match self {
            Pane::ServiceDetails | Pane::TaskDetails | Pane::ContainerDetails => true,
            _ => false,
        }
    }

    pub fn is_list(&self) -> (r: bool)
        ensures
            r == is_list(*self),
    {
        match self {
            Pane::ServicesList | Pane::TasksList | Pane::ContainersList => true,
            _ => false,
        }
    }

    /// The pane of a row and side.
    pub fn at(row: u8, detail: bool) -> (r: Pane)
        ensures
            r == pane_at(row as int, detail),
    {
        if row == 0 {
            if detail {
                Pane::ServiceDetails
            } else {
                Pane::ServicesList
            }
        } else if row == 1 {
            if detail {
                Pane::TaskDetails
            } else {
                Pane::TasksList
            }
        } else {
            if detail {
                Pane::ContainerDetails
            } else {
                Pane::ContainersList
            }
        }
    }
}

/// A key as the event translator sees it.
#[derive(PartialEq, Eq, Structural, Debug, Clone, Copy)]
pub enum KeyCode {
    Char(char),
    Tab,
    BackTab,
    Esc,
    Left,
    Right,
    Up,
    Down,
    Other,
}

/// A raw terminal event: a key with whether control was held and whether
/// it was a press, a resize to width and height, or anything else.
#[derive(PartialEq, Eq, Structural, Debug, Clone, Copy)]
pub enum InputEvent {
    Key { code: KeyCode, control: bool, press: bool },
    Resize(u16, u16),
    Other,
}

} // verus!
