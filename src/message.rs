use vstd::prelude::*;

verus! {

use crate::config::ClusterConfig;
use crate::domain::{ServiceDetails, ServiceResult, ServiceView};
use crate::model::TaskSnapshot;
use crate::pane::Pane;

/// Background work that the reducer asks for. Each command ends in exactly
/// one message.
#[derive(Debug)]
pub enum Command {
    /// Describe the services of a cluster.
    GetServices(ClusterConfig),
    /// Describe one listed service again; the index is its place in the list.
    RefreshService((ServiceDetails, usize)),
    /// List and describe the tasks of a service; the flag marks a refresh.
    GetTasks((ServiceDetails, bool)),
}

/// What the reducer consumes: user and timer events, and the outcomes of
/// commands.
#[derive(Debug)]
pub enum Message {
    TerminalResize(u16, u16),
    GoToNextListItem,
    GoToPreviousListItem,
    GoToFirstListItem,
    GoToLastListItem,
    ServicesFetched(Vec<ServiceResult>),
    /// The new result, the service as it was listed, and its index.
    ServiceDetailsRefreshed((ServiceResult, ServiceDetails, usize)),
    /// The service, its tasks, and whether a refresh asked for them.
    TasksFetched((ServiceDetails, Vec<TaskSnapshot>, bool)),
    ClearUserMsg,
    RefreshResultsForMarkedServices,
    RefreshResultsForCurrentItem,
    ToggleServiceRefresh,
    ToggleAutoRefresh,
    GoBackOrQuit,
    QuitImmediately,
    GoToPane(Pane),
}

/// A command as plain values.
pub enum CommandView {
    GetServices(ClusterConfig),
    RefreshService(ServiceView, usize),
    GetTasks(ServiceView, bool),
}

impl View for Command {
    type V = CommandView;

    open spec fn view(&self) -> CommandView {
        match self {
            Command::GetServices(c) => CommandView::GetServices(*c),
            Command::RefreshService((d, i)) => CommandView::RefreshService(d@, *i),
            Command::GetTasks((d, r)) => CommandView::GetTasks(d@, *r),
        }
    }
}

} // verus!
