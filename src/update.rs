use vstd::prelude::*;

verus! {

use crate::domain::{service_result_view, ServiceDetails, ServiceResult, ServiceView};
use crate::message::{Command, CommandView, Message};
use crate::model::{
    cache_map, first_selection, is_too_small, lemma_marked_count_bound, lemma_marked_count_update,
    parent_pane, too_small, unmarked_items, with_moved_selection, ContainerItems,
    ContainerSnapshot, ListMove, Model, RunningState, ServiceItem, ServiceItemView, TaskItems,
    TaskSnapshot, TerminalDimensions, UserMessage, CLEAR_USER_MESSAGE_LOOP_INTERVAL_SECS,
};
use crate::pane::Pane;
use crate::sort::{key_sorted, views};

/// The service result at the model's selection, if the selection names one.
pub open spec fn selected_result(m: Model) -> Option<ServiceResult> {
    match m.service_items.selected {
        Some(i) => if i < m.service_items.items@.len() {
            Some(m.service_items.items@[i as int].service)
        } else {
            None
        },
        None => None,
    }
}

/// The task at the selection of a task list, if any.
pub open spec fn selected_task_of(t: Option<TaskItems>) -> Option<TaskSnapshot> {
    match t {
        Some(ti) => match ti.selected {
            Some(i) => if i < ti.items@.len() {
                Some(ti.items@[i as int])
            } else {
                None
            },
            None => None,
        },
        None => None,
    }
}

/// The selection of a task list, if there is one.
pub open spec fn task_selection(t: Option<TaskItems>) -> Option<usize> {
    match t {
        Some(ti) => ti.selected,
        None => None,
    }
}

/// The container pane shows `task`'s containers by name, the first selected.
pub open spec fn lists_containers_of(c: ContainerItems, task: TaskSnapshot) -> bool {
    views(c.items@) == key_sorted::<ContainerSnapshot>(views(task.containers@)) && c.selected
        == first_selection(c.items@.len())
}

/// The container pane after the task list changed under it: the selected
/// task's containers, or as it was when no task is selected.
pub open spec fn containers_follow(fin: Model, before: ContainerItems) -> bool {
    match selected_task_of(fin.task_items) {
        Some(t) => lists_containers_of(fin.container_items, t),
        None => fin.container_items == before,
    }
}

/// How the task and container panes are brought in line with the service
/// selection after a message, given the panes as the message left them.
/// When the selected service changed, no tasks are listed, or the message
/// brought new data, the task pane is refilled from the cache (or a task
/// fetch is issued) and the container pane follows. Otherwise, when only
/// the task selection moved, the container pane follows the selected task.
pub open spec fn resynced(
    fin: Model,
    tasks_before: Option<TaskItems>,
    containers_before: ContainerItems,
    service_sel_before: Option<usize>,
    task_sel_before: Option<usize>,
    data_refresh: bool,
    new_cmds: Seq<CommandView>,
) -> bool {
    if data_refresh || tasks_before is None || service_sel_before != fin.service_items.selected {
        match selected_result(fin) {
            Some(Ok(d)) => {
                &&& if cache_map(fin.task_results_cache@).contains_key(d@) {
                    &&& fin.task_items matches Some(t) && views(t.items@) == cache_map(
                        fin.task_results_cache@,
                    )[d@] && t.selected == first_selection(t.items@.len())
                    &&& new_cmds.len() == 0
                } else {
                    &&& fin.task_items is None
                    &&& new_cmds == seq![CommandView::GetTasks(d@, false)]
                }
                &&& containers_follow(fin, containers_before)
            },
            Some(Err(_)) => {
                &&& fin.task_items is None
                &&& fin.container_items.items@.len() == 0
                &&& fin.container_items.selected is None
                &&& new_cmds.len() == 0
            },
            None => {
                &&& fin.task_items == tasks_before
                &&& fin.container_items == containers_before
                &&& new_cmds.len() == 0
            },
        }
    } else {
        &&& fin.task_items == tasks_before
        &&& new_cmds.len() == 0
        &&& if task_selection(tasks_before) != task_sel_before && selected_task_of(
            tasks_before,
        ) is Some {
            lists_containers_of(fin.container_items, selected_task_of(tasks_before)->0)
        } else {
            fin.container_items == containers_before
        }
    }
}

/// Refills the task and container panes after a message.
fn resync_task_panes(
    model: &mut Model,
    service_sel_before: Option<usize>,
    task_sel_before: Option<usize>,
    data_refresh: bool,
    cmds: &mut Vec<Command>,
)
    requires
        old(model).wf(),
    ensures
        final(model).wf(),
        *final(model) == (Model {
            task_items: final(model).task_items,
            container_items: final(model).container_items,
            ..*old(model)
        }),
        final(cmds)@.take(old(cmds)@.len() as int) == old(cmds)@,
        final(cmds)@.len() >= old(cmds)@.len(),
        resynced(
            *final(model),
            old(model).task_items,
            old(model).container_items,
            service_sel_before,
            task_sel_before,
            data_refresh,
            views(final(cmds)@).skip(old(cmds)@.len() as int),
        ),
{
    let ghost cmds_before = cmds@;
    let refresh_all = data_refresh || model.task_items.is_none() || service_sel_before
        != model.service_items.selected;
    if refresh_all {
        let selected = match model.get_selected_service() {
            Some((Ok(service), _)) => Some(Ok(service.clone())),
            Some((Err(_), _)) => Some(Err(())),
            None => None,
        };
        match selected {
            Some(Ok(service)) => {
                let listed = match model.cached_tasks(&service) {
                    Some(tasks) => Some(TaskItems::from_tasks(tasks)),
                    None => None,
                };
                match listed {
                    Some(t) => {
                        proof {
                            assert(views(t.items@).len() == t.items@.len());
                        }
                        model.task_items = Some(t);
                    },
                    None => {
                        cmds.push(Command::GetTasks((service, false)));
                        model.task_items = None;
                    },
                }
                let shown = match model.get_selected_task() {
                    Some(task) => Some(ContainerItems::from_containers(&task.containers)),
                    None => None,
                };
                if let Some(c) = shown {
                    model.container_items = c;
                }
                proof {
                    assert(selected_result(*model) matches Some(Ok(d)) && d@ == service@);
                }
            },
            Some(Err(())) => {
                model.task_items = None;
                model.container_items = ContainerItems::empty();
            },
            None => {},
        }
    } else {
        let moved = match &model.task_items {
            Some(t) => t.selected != task_sel_before,
            None => false,
        };
        if moved {
            let shown = match model.get_selected_task() {
                Some(task) => Some(ContainerItems::from_containers(&task.containers)),
                None => None,
            };
            if let Some(c) = shown {
                model.container_items = c;
            }
        }
    }
    proof {
        assert(cmds@.take(cmds_before.len() as int) =~= cmds_before);
        if cmds@.len() > cmds_before.len() {
            assert(views(cmds@).skip(cmds_before.len() as int) =~= seq![cmds@.last()@]);
        } else {
            assert(views(cmds@).skip(cmds_before.len() as int) =~= Seq::<CommandView>::empty());
        }
    }
}

/// Whether a pane shows tasks or containers.
pub open spec fn is_task_pane(p: Pane) -> bool {
    p == Pane::TasksList || p == Pane::TaskDetails || p == Pane::ContainersList || p
        == Pane::ContainerDetails
}

/// The task fetches that newly listed services ask for: one per success,
/// in order.
pub open spec fn fetched_task_commands(results: Seq<ServiceResult>) -> Seq<CommandView>
    decreases results.len(),
{
    if results.len() == 0 {
        Seq::empty()
    } else {
        fetched_task_commands(results.drop_last()) + match results.last() {
            Ok(d) => seq![CommandView::GetTasks(d@, false)],
            Err(_) => Seq::empty(),
        }
    }
}

/// How many of `results` are failures.
pub open spec fn error_count(results: Seq<ServiceResult>) -> nat
    decreases results.len(),
{
    if results.len() == 0 {
        0
    } else {
        error_count(results.drop_last()) + if results.last() is Err {
            1nat
        } else {
            0nat
        }
    }
}

/// A counter increased by `n`, stopping at the largest `usize`.
pub open spec fn capped_add(a: usize, n: nat) -> usize {
    if a + n > usize::MAX {
        usize::MAX
    } else {
        (a + n) as usize
    }
}

/// The refreshes a bulk refresh asks for: every success when `all`, else
/// every marked success, each with its index.
pub open spec fn refresh_targets(items: Seq<ServiceItemView>, all: bool) -> Seq<CommandView>
    decreases items.len(),
{
    if items.len() == 0 {
        Seq::empty()
    } else {
        refresh_targets(items.drop_last(), all) + if (all || items.last().marked_for_refresh)
            && items.last().service is Ok {
            seq![CommandView::RefreshService(items.last().service->Ok_0, (items.len() - 1) as usize)]
        } else {
            Seq::empty()
        }
    }
}

/// The task cache with the entries of every refreshed service dropped.
pub open spec fn evicted(
    cache: Map<ServiceView, Seq<crate::model::TaskView>>,
    cmds: Seq<CommandView>,
) -> Map<ServiceView, Seq<crate::model::TaskView>>
    decreases cmds.len(),
{
    if cmds.len() == 0 {
        cache
    } else {
        match cmds.last() {
            CommandView::RefreshService(d, _) => evicted(cache, cmds.drop_last()).remove(d),
            _ => evicted(cache, cmds.drop_last()),
        }
    }
}

/// The commands that a message itself issues, before the panes are
/// brought in line.
pub open spec fn message_commands(old: Model, msg: Message) -> Seq<CommandView> {
    match msg {
        Message::ServicesFetched(results) => fetched_task_commands(results@),
        Message::RefreshResultsForCurrentItem => match selected_result(old) {
            Some(Ok(d)) => if old.active_pane == Pane::ServicesList || old.active_pane
                == Pane::ServiceDetails {
                seq![CommandView::RefreshService(d@, old.service_items.selected->0)]
            } else if is_task_pane(old.active_pane) {
                seq![CommandView::GetTasks(d@, true)]
            } else {
                Seq::empty()
            },
            _ => Seq::empty(),
        },
        Message::RefreshResultsForMarkedServices => if old.active_pane == Pane::Help {
            Seq::empty()
        } else {
            refresh_targets(
                views(old.service_items.items@),
                old.num_services_marked_for_refresh == 0,
            )
        },
        _ => Seq::empty(),
    }
}

/// The move a navigation message makes, if it is one.
pub open spec fn list_move_of(msg: Message) -> Option<ListMove> {
    match msg {
        Message::GoToNextListItem => Some(ListMove::Next),
        Message::GoToPreviousListItem => Some(ListMove::Previous),
        Message::GoToFirstListItem => Some(ListMove::First),
        Message::GoToLastListItem => Some(ListMove::Last),
        _ => None,
    }
}

/// The task pane as the message itself leaves it.
pub open spec fn tasks_after_message(old: Model, msg: Message) -> Option<TaskItems> {
    match list_move_of(msg) {
        Some(mv) => with_moved_selection(old, mv).task_items,
        None => if msg is RefreshResultsForCurrentItem && is_task_pane(old.active_pane)
            && selected_result(old) matches Some(Ok(_)) {
            None
        } else {
            old.task_items
        },
    }
}

/// The container pane as the message itself leaves it.
pub open spec fn containers_after_message(old: Model, msg: Message) -> ContainerItems {
    match list_move_of(msg) {
        Some(mv) => with_moved_selection(old, mv).container_items,
        None => old.container_items,
    }
}

/// Whether the message brought new data for the task panes.
pub open spec fn data_refreshed(old: Model, msg: Message) -> bool {
    match msg {
        Message::TasksFetched((_, _, refresh)) => refresh,
        Message::ServiceDetailsRefreshed((result, _, index)) => index
            < old.service_items.items@.len() && result is Ok,
        _ => false,
    }
}

/// Whether a user message raised at `at` is older than the clearing
/// interval at second `now`.
pub open spec fn expired(at: u64, now: u64) -> bool {
    (if now >= at {
        now - at
    } else {
        0
    }) > CLEAR_USER_MESSAGE_LOOP_INTERVAL_SECS
}

pub open spec fn raised_at(m: UserMessage) -> u64 {
    match m {
        UserMessage::Info(_, t) => t,
        UserMessage::Error(_, t) => t,
    }
}

/// What a message does to the model, apart from the task and container
/// panes (which `resynced` describes).
pub open spec fn message_effect(old: Model, msg: Message, now: u64, fin: Model) -> bool {
    let tc = Model { task_items: fin.task_items, container_items: fin.container_items, ..old };
    match msg {
        Message::GoToNextListItem | Message::GoToPreviousListItem | Message::GoToFirstListItem
        | Message::GoToLastListItem => fin == (Model {
            task_items: fin.task_items,
            container_items: fin.container_items,
            ..with_moved_selection(old, list_move_of(msg)->0)
        }),
        Message::TerminalResize(w, h) => fin == (Model {
            terminal_dimensions: TerminalDimensions { width: w, height: h },
            terminal_too_small: too_small(w, h),
            ..tc
        }),
        Message::ClearUserMsg => {
            &&& fin == (Model { user_message: fin.user_message, ..tc })
            &&& fin.user_message == if old.user_message matches Some(m) && expired(
                raised_at(m),
                now,
            ) {
                None
            } else {
                old.user_message
            }
        },
        Message::GoToPane(p) => fin == (Model {
            active_pane: p,
            last_active_pane: Some(old.active_pane),
            ..tc
        }),
        Message::TasksFetched((d, tasks, _)) => {
            &&& fin == (Model { task_results_cache: fin.task_results_cache, ..tc })
            &&& cache_map(fin.task_results_cache@) == cache_map(old.task_results_cache@).insert(
                d@,
                views(tasks@),
            )
        },
        Message::ServicesFetched(results) => {
            &&& fin == (Model { service_items: fin.service_items, num_errors: fin.num_errors, ..tc })
            &&& views(fin.service_items.items@) == key_sorted::<ServiceItem>(
                views(old.service_items.items@) + unmarked_items(results@),
            )
            &&& fin.service_items.selected == match old.service_items.selected {
                Some(i) => Some(i),
                None => first_selection(fin.service_items.items@.len()),
            }
            &&& fin.num_errors == capped_add(old.num_errors, error_count(results@))
        },
        Message::ServiceDetailsRefreshed((result, previous, index)) => if index
            < old.service_items.items@.len() {
            &&& fin == (Model {
                service_items: fin.service_items,
                task_results_cache: fin.task_results_cache,
                num_services_marked_for_refresh: fin.num_services_marked_for_refresh,
                ..tc
            })
            &&& fin.service_items.selected == old.service_items.selected
            &&& views(fin.service_items.items@) == views(old.service_items.items@).update(
                index as int,
                ServiceItemView {
                    service: service_result_view(result),
                    marked_for_refresh: old.service_items.items@[index as int].marked_for_refresh
                        && result is Ok,
                },
            )
            &&& cache_map(fin.task_results_cache@) == if result is Ok {
                cache_map(old.task_results_cache@).remove(previous@)
            } else {
                cache_map(old.task_results_cache@)
            }
        } else {
            fin == tc
        },
        Message::RefreshResultsForCurrentItem => {
            &&& fin == (Model { task_results_cache: fin.task_results_cache, ..tc })
            &&& cache_map(fin.task_results_cache@) == match selected_result(old) {
                Some(Ok(d)) => if is_task_pane(old.active_pane) {
                    cache_map(old.task_results_cache@).remove(d@)
                } else {
                    cache_map(old.task_results_cache@)
                },
                _ => cache_map(old.task_results_cache@),
            }
        },
        Message::RefreshResultsForMarkedServices => {
            &&& fin == (Model { task_results_cache: fin.task_results_cache, ..tc })
            &&& cache_map(fin.task_results_cache@) == evicted(
                cache_map(old.task_results_cache@),
                message_commands(old, msg),
            )
        },
        Message::ToggleServiceRefresh => match selected_result(old) {
            Some(Ok(_)) => {
                let i = old.service_items.selected->0 as int;
                &&& fin == (Model {
                    service_items: fin.service_items,
                    num_services_marked_for_refresh: fin.num_services_marked_for_refresh,
                    ..tc
                })
                &&& fin.service_items.selected == old.service_items.selected
                &&& views(fin.service_items.items@) == views(old.service_items.items@).update(
                    i,
                    ServiceItemView {
                        marked_for_refresh: !old.service_items.items@[i].marked_for_refresh,
                        ..views(old.service_items.items@)[i]
                    },
                )
            },
            Some(Err(_)) => {
                &&& fin == (Model { user_message: fin.user_message, ..tc })
                &&& fin.user_message matches Some(UserMessage::Error(m, t)) && t == now && m@
                    == "error results cannot be marked for refresh"@
            },
            None => fin == tc,
        },
        Message::ToggleAutoRefresh => fin == (Model { auto_refresh: !old.auto_refresh, ..tc }),
        Message::GoBackOrQuit => fin == (Model {
            active_pane: parent_pane(old.active_pane, old.last_active_pane),
            last_active_pane: Some(old.active_pane),
            running_state: if old.active_pane == Pane::ServicesList {
                RunningState::Done
            } else {
                old.running_state
            },
            ..tc
        }),
        Message::QuitImmediately => fin == (Model { running_state: RunningState::Done, ..tc }),
    }
}

fn message_expired(m: &UserMessage, now: u64) -> (r: bool)
    ensures
        r == expired(raised_at(*m), now),
{
    let at = m.raised_at();
    let elapsed = if now >= at {
        now - at
    } else {
        0
    };
    elapsed > CLEAR_USER_MESSAGE_LOOP_INTERVAL_SECS
}

/// Issues a task fetch for each newly listed success and counts the failures.
fn queue_task_fetches(results: &Vec<ServiceResult>, cmds: &mut Vec<Command>, num_errors: &mut usize)
    requires
        old(cmds)@.len() == 0,
    ensures
        views(final(cmds)@) == fetched_task_commands(results@),
        *final(num_errors) == capped_add(*old(num_errors), error_count(results@)),
{
    let mut i: usize = 0;
    proof {
        assert(results@.take(0) =~= Seq::<ServiceResult>::empty());
        assert(views(cmds@) =~= Seq::<CommandView>::empty());
    }
    while i < results.len()
        invariant
            i <= results.len(),
            views(cmds@) == fetched_task_commands(results@.take(i as int)),
            *num_errors == capped_add(*old(num_errors), error_count(results@.take(i as int))),
        decreases results.len() - i,
    {
        let ghost before = cmds@;
        proof {
            assert(results@.take(i + 1).drop_last() =~= results@.take(i as int));
        }
        match &results[i] {
            Ok(d) => {
                let c = Command::GetTasks((d.clone(), false));
                cmds.push(c);
                proof {
                    assert(views(cmds@) =~= views(before) + seq![c@]);
                }
            },
            Err(_) => {
                if *num_errors < usize::MAX {
                    *num_errors = *num_errors + 1;
                }
                proof {
                    assert(views(cmds@) =~= views(before) + Seq::<CommandView>::empty());
                }
            },
        }
        i = i + 1;
    }
    proof {
        assert(results@.take(i as int) =~= results@);
    }
}

/// Everything a message does before the panes are brought in line: its
/// effect, the panes as it leaves them, the commands it issues and whether it
/// brought new task data.
pub open spec fn applied(
    old: Model,
    msg: Message,
    now: u64,
    fin: Model,
    cmds: Seq<CommandView>,
    data_refresh: bool,
) -> bool {
    &&& fin.wf()
    &&& message_effect(old, msg, now, fin)
    &&& fin.task_items == tasks_after_message(old, msg)
    &&& fin.container_items == containers_after_message(old, msg)
    &&& cmds == message_commands(old, msg)
    &&& data_refresh == data_refreshed(old, msg)
}

fn on_services_fetched(model: &mut Model, results: Vec<ServiceResult>, now: u64) -> (r: Vec<Command>)
    requires
        old(model).wf(),
    ensures
        applied(*old(model), Message::ServicesFetched(results), now, *final(model), views(r@), false),
{
    let mut cmds: Vec<Command> = Vec::new();
    model.service_items.append(&results);
    queue_task_fetches(&results, &mut cmds, &mut model.num_errors);
    cmds
}

fn on_service_refreshed(
    model: &mut Model,
    result: ServiceResult,
    previous: ServiceDetails,
    index: usize,
    now: u64,
) -> (r: bool)
    requires
        old(model).wf(),
    ensures
        applied(
            *old(model),
            Message::ServiceDetailsRefreshed((result, previous, index)),
            now,
            *final(model),
            Seq::empty(),
            r,
        ),
{
    if index < model.service_items.items.len() {
        let marked = model.service_items.items[index].marked_for_refresh;
        let ok = result.is_ok();
        let ghost result_view = service_result_view(result);
        let item = ServiceItem { service: result, marked_for_refresh: marked && ok };
        let ghost before = views(model.service_items.items@);
        let ghost new_view = item@;
        model.service_items.items.set(index, item);
        proof {
            assert(views(model.service_items.items@) =~= before.update(index as int, new_view));
            lemma_marked_count_update(before, index as int, new_view);
            assert forall|k: int|
                0 <= k < views(model.service_items.items@).len() && (#[trigger] views(
                    model.service_items.items@,
                )[k]).marked_for_refresh implies views(model.service_items.items@)[k].service is Ok by {
                if k != index {
                    assert(views(model.service_items.items@)[k] == before[k]);
                }
            }
        }
        if ok {
            model.evict_cached_tasks(&previous);
            true
        } else {
            if marked {
                model.num_services_marked_for_refresh = model.num_services_marked_for_refresh - 1;
            }
            false
        }
    } else {
        false
    }
}

fn on_refresh_current(model: &mut Model, now: u64) -> (r: Vec<Command>)
    requires
        old(model).wf(),
    ensures
        applied(
            *old(model),
            Message::RefreshResultsForCurrentItem,
            now,
            *final(model),
            views(r@),
            false,
        ),
{
    let mut cmds: Vec<Command> = Vec::new();
    proof {
        assert(views(cmds@) =~= Seq::<CommandView>::empty());
    }
    match model.active_pane {
        Pane::ServicesList | Pane::ServiceDetails => {
            let target = match model.get_selected_service() {
                Some((Ok(d), i)) => Some((d.clone(), i)),
                _ => None,
            };
            if let Some((d, i)) = target {
                let c = Command::RefreshService((d, i));
                cmds.push(c);
                proof {
                    assert(views(cmds@) =~= seq![c@]);
                }
            }
        },
        Pane::Help => {},
        _ => {
            let target = match model.get_selected_service() {
                Some((Ok(d), _)) => Some(d.clone()),
                _ => None,
            };
            if let Some(d) = target {
                let key = d.clone();
                let c = Command::GetTasks((d, true));
                cmds.push(c);
                proof {
                    assert(views(cmds@) =~= seq![c@]);
                }
                model.evict_cached_tasks(&key);
                model.task_items = None;
            }
        },
    }
    cmds
}

fn on_refresh_marked(model: &mut Model, now: u64) -> (r: Vec<Command>)
    requires
        old(model).wf(),
    ensures
        applied(
            *old(model),
            Message::RefreshResultsForMarkedServices,
            now,
            *final(model),
            views(r@),
            false,
        ),
{
    let ghost start = *model;
    let mut cmds: Vec<Command> = Vec::new();
    proof {
        assert(views(cmds@) =~= Seq::<CommandView>::empty());
    }
    if model.active_pane != Pane::Help {
        let all = model.num_services_marked_for_refresh == 0;
        let ghost items = views(model.service_items.items@);
        let mut i: usize = 0;
        proof {
            assert(items.take(0) =~= Seq::<ServiceItemView>::empty());
        }
        while i < model.service_items.items.len()
            invariant
                i <= model.service_items.items@.len(),
                items == views(model.service_items.items@),
                *model == (Model { task_results_cache: model.task_results_cache, ..start }),
                views(cmds@) == refresh_targets(items.take(i as int), all),
                cache_map(model.task_results_cache@) == evicted(
                    cache_map(start.task_results_cache@),
                    refresh_targets(items.take(i as int), all),
                ),
            decreases model.service_items.items@.len() - i,
        {
            let item = &model.service_items.items[i];
            let target = if all || item.marked_for_refresh {
                match &item.service {
                    Ok(d) => Some(d.clone()),
                    Err(_) => None,
                }
            } else {
                None
            };
            let ghost before = cmds@;
            proof {
                assert(items.take(i + 1).drop_last() =~= items.take(i as int));
                assert(items[i as int] == model.service_items.items@[i as int]@);
            }
            if let Some(d) = target {
                let key = d.clone();
                let c = Command::RefreshService((d, i));
                cmds.push(c);
                model.evict_cached_tasks(&key);
                proof {
                    assert(views(cmds@) =~= views(before) + seq![c@]);
                    assert(views(cmds@).drop_last() =~= views(before));
                }
            } else {
                proof {
                    assert(views(cmds@) =~= views(before) + Seq::<CommandView>::empty());
                }
            }
            i = i + 1;
        }
        proof {
            assert(items.take(i as int) =~= items);
        }
    }
    cmds
}

fn on_toggle_refresh(model: &mut Model, now: u64)
    requires
        old(model).wf(),
    ensures
        applied(*old(model), Message::ToggleServiceRefresh, now, *final(model), Seq::empty(), false),
{
    if let Some(i) = model.service_items.selected {
        if i < model.service_items.items.len() {
            if model.service_items.items[i].service.is_ok() {
                let marked = model.service_items.items[i].marked_for_refresh;
                let item = ServiceItem {
                    service: crate::domain::clone_service_result(
                        &model.service_items.items[i].service,
                    ),
                    marked_for_refresh: !marked,
                };
                let ghost before = views(model.service_items.items@);
                let ghost new_view = item@;
                proof {
                    lemma_marked_count_update(before, i as int, new_view);
                    lemma_marked_count_bound(before.update(i as int, new_view));
                    assert(views(model.service_items.items@).len()
                        == model.service_items.items@.len());
                }
                model.service_items.items.set(i, item);
                proof {
                    assert(views(model.service_items.items@) =~= before.update(i as int, new_view));
                    assert forall|k: int|
                        0 <= k < views(model.service_items.items@).len() && (#[trigger] views(
                            model.service_items.items@,
                        )[k]).marked_for_refresh implies views(
                        model.service_items.items@,
                    )[k].service is Ok by {
                        if k != i {
                            assert(views(model.service_items.items@)[k] == before[k]);
                        }
                    }
                }
                if marked {
                    model.num_services_marked_for_refresh = model.num_services_marked_for_refresh
                        - 1;
                } else {
                    model.num_services_marked_for_refresh = model.num_services_marked_for_refresh
                        + 1;
                }
            } else {
                model.user_message = Some(
                    UserMessage::error("error results cannot be marked for refresh", now),
                );
            }
        }
    }
}

/// Applies a message to the model, before the panes are brought in line.
fn apply_message(model: &mut Model, msg: Message, now: u64) -> (r: (Vec<Command>, bool))
    requires
        old(model).wf(),
    ensures
        applied(*old(model), msg, now, *final(model), views(r.0@), r.1),
{
    let mut cmds: Vec<Command> = Vec::new();
    let mut data_refresh = false;
    proof {
        assert(views(cmds@) =~= Seq::<CommandView>::empty());
    }
    match msg {
        Message::GoToNextListItem => model.select_next_list_item(),
        Message::GoToPreviousListItem => model.select_previous_list_item(),
        Message::GoToFirstListItem => model.select_first_list_item(),
        Message::GoToLastListItem => model.select_last_list_item(),
        Message::TerminalResize(width, height) => {
            model.terminal_dimensions = TerminalDimensions { width, height };
            model.terminal_too_small = is_too_small(width, height);
        },
        Message::ClearUserMsg => {
            let stale = match &model.user_message {
                Some(m) => message_expired(m, now),
                None => false,
            };
            if stale {
                model.user_message = None;
            }
        },
        Message::GoToPane(pane) => {
            model.last_active_pane = Some(model.active_pane);
            model.active_pane = pane;
        },
        Message::TasksFetched((service, tasks, refresh)) => {
            model.store_tasks(service, tasks);
            data_refresh = refresh;
        },
        Message::ServicesFetched(results) => {
            cmds = on_services_fetched(model, results, now);
        },
        Message::ServiceDetailsRefreshed((result, previous, index)) => {
            data_refresh = on_service_refreshed(model, result, previous, index, now);
        },
        Message::RefreshResultsForCurrentItem => {
            cmds = on_refresh_current(model, now);
        },
        Message::RefreshResultsForMarkedServices => {
            cmds = on_refresh_marked(model, now);
        },
        Message::ToggleServiceRefresh => on_toggle_refresh(model, now),
        Message::ToggleAutoRefresh => model.auto_refresh = !model.auto_refresh,
        Message::GoBackOrQuit => model.go_back_or_quit(),
        Message::QuitImmediately => model.running_state = RunningState::Done,
    }
    (cmds, data_refresh)
}

/// Asking to mark a failure for refresh changes no mark and no count, and
/// raises a user message.
pub proof fn lemma_marking_failure_refused(old: Model, now: u64, fin: Model)
    requires
        old.wf(),
        fin.wf(),
        selected_result(old) matches Some(Err(_)),
        message_effect(old, Message::ToggleServiceRefresh, now, fin),
    ensures
        fin.num_services_marked_for_refresh == old.num_services_marked_for_refresh,
        views(fin.service_items.items@) == views(old.service_items.items@),
        fin.user_message matches Some(UserMessage::Error(m, _)) && m@
            == "error results cannot be marked for refresh"@,
{
}

/// Marking a success for refresh and then unmarking it gives back the
/// count, and the marks, that were there before.
pub proof fn lemma_mark_then_unmark(m0: Model, now0: u64, m1: Model, now1: u64, m2: Model)
    requires
        m0.wf(),
        m1.wf(),
        m2.wf(),
        selected_result(m0) matches Some(Ok(_)),
        message_effect(m0, Message::ToggleServiceRefresh, now0, m1),
        message_effect(m1, Message::ToggleServiceRefresh, now1, m2),
    ensures
        m2.num_services_marked_for_refresh == m0.num_services_marked_for_refresh,
        views(m2.service_items.items@) == views(m0.service_items.items@),
{
    let i = m0.service_items.selected->0 as int;
    let v0 = views(m0.service_items.items@);
    let v1 = views(m1.service_items.items@);
    assert(v1[i] == m1.service_items.items@[i]@);
    assert(v0[i] == m0.service_items.items@[i]@);
    assert(m1.service_items.items@[i].service is Ok);
    assert(selected_result(m1) matches Some(Ok(_)));
    assert(views(m2.service_items.items@) =~= v0);
}

/// A successful refresh of a service leaves no cached tasks for it as it
/// was listed.
pub proof fn lemma_refresh_evicts(
    old: Model,
    result: ServiceResult,
    previous: ServiceDetails,
    index: usize,
    now: u64,
    fin: Model,
)
    requires
        old.wf(),
        index < old.service_items.items@.len(),
        result is Ok,
        message_effect(old, Message::ServiceDetailsRefreshed((result, previous, index)), now, fin),
    ensures
        !cache_map(fin.task_results_cache@).contains_key(previous@),
{
}

proof fn lemma_evicted_keys(
    cache: Map<ServiceView, Seq<crate::model::TaskView>>,
    cmds: Seq<CommandView>,
    s: ServiceView,
)
    ensures
        evicted(cache, cmds).contains_key(s) ==> cache.contains_key(s),
    decreases cmds.len(),
{
    if cmds.len() > 0 {
        lemma_evicted_keys(cache, cmds.drop_last(), s);
    }
}

/// Once a service has no cached tasks, it gets none back until tasks are
/// fetched for it: no other message puts them there.
pub proof fn lemma_eviction_lasts(old: Model, msg: Message, now: u64, fin: Model, s: ServiceView)
    requires
        old.wf(),
        !cache_map(old.task_results_cache@).contains_key(s),
        message_effect(old, msg, now, fin),
        !(msg matches Message::TasksFetched((d, _, _)) && d@ == s),
    ensures
        !cache_map(fin.task_results_cache@).contains_key(s),
{
    if msg is RefreshResultsForMarkedServices {
        lemma_evicted_keys(cache_map(old.task_results_cache@), message_commands(old, msg), s);
    }
}

/// The reducer: applies one message to the model, returning the commands it
/// issues. After the message itself, the task and container panes are
/// brought in line with the selection.
pub fn update(model: &mut Model, msg: Message, now: u64) -> (cmds: Vec<Command>)
    requires
        old(model).wf(),
    ensures
        final(model).wf(),
        message_effect(*old(model), msg, now, *final(model)),
        cmds@.len() >= message_commands(*old(model), msg).len(),
        views(cmds@).take(message_commands(*old(model), msg).len() as int) == message_commands(
            *old(model),
            msg,
        ),
        resynced(
            *final(model),
            tasks_after_message(*old(model), msg),
            containers_after_message(*old(model), msg),
            old(model).service_items.selected,
            task_selection(old(model).task_items),
            data_refreshed(*old(model), msg),
            views(cmds@).skip(message_commands(*old(model), msg).len() as int),
        ),
{
    let ghost start = *model;
    let ghost msg_spec = msg;
    let service_sel_before = model.service_items.selected;
    let task_sel_before = match &model.task_items {
        Some(t) => t.selected,
        None => None,
    };
    let (mut cmds, data_refresh) = apply_message(model, msg, now);
    let ghost mid = *model;
    let ghost n = cmds@.len();
    let ghost first = cmds@;
    resync_task_panes(model, service_sel_before, task_sel_before, data_refresh, &mut cmds);
    proof {
        assert(views(cmds@).take(n as int) =~= views(first));
        assert(views(cmds@).len() == cmds@.len());
        assert(views(first).len() == first.len());
    }
    cmds
}

} // verus!
