use ecscope::{
    get_event_handling_msg, refreshed_service, services_for_cluster, update, ClusterConfig,
    Command, ConfigSource, ContainerSnapshot, DescribedService, InputEvent, KeyCode, Message,
    Model, Pane, RunningState, ServiceDetails, ServiceError, ServiceResult, TaskSnapshot,
    TerminalDimensions, UserMessage,
};

fn model() -> Model {
    Model::new(
        "qa".to_string(),
        vec![],
        TerminalDimensions { width: 120, height: 40 },
        false,
        false,
    )
}

fn details(name: &str) -> ServiceDetails {
    ServiceDetails {
        name: name.to_string(),
        status: "ACTIVE".to_string(),
        desired_count: 1,
        running_count: 1,
        pending_count: 0,
        cluster_keys: vec!["qa".to_string()],
        cluster_arn: "arn:cluster".to_string(),
        config_source: ConfigSource::Env,
    }
}

fn failure(name: &str) -> ServiceResult {
    Err(ServiceError {
        service_name: name.to_string(),
        error: "boom".to_string(),
        cluster_keys: vec!["qa".to_string()],
    })
}

fn container(name: &str) -> ContainerSnapshot {
    ContainerSnapshot {
        name: Some(name.to_string()),
        image: None,
        last_status: Some("RUNNING".to_string()),
        cpu: None,
        memory: None,
        health_status: None,
    }
}

fn task(arn: &str, containers: Vec<ContainerSnapshot>) -> TaskSnapshot {
    TaskSnapshot {
        task_arn: Some(arn.to_string()),
        last_status: Some("RUNNING".to_string()),
        health_status: None,
        cpu: None,
        memory: None,
        containers,
    }
}

fn key(c: char) -> InputEvent {
    InputEvent::Key { code: KeyCode::Char(c), control: false, press: true }
}

fn code(k: KeyCode) -> InputEvent {
    InputEvent::Key { code: k, control: false, press: true }
}

fn pane_after(m: &Model, event: InputEvent) -> Option<Pane> {
    match get_event_handling_msg(m, event) {
        Some(Message::GoToPane(p)) => Some(p),
        _ => None,
    }
}

fn names(m: &Model) -> Vec<String> {
    m.service_items
        .items
        .iter()
        .map(|i| match &i.service {
            Ok(d) => d.name.clone(),
            Err(e) => format!("!{}", e.service_name),
        })
        .collect()
}

#[test]
fn every_pane_has_neighbours_for_navigation_keys() {
    let panes = [
        Pane::ServicesList,
        Pane::ServiceDetails,
        Pane::TasksList,
        Pane::TaskDetails,
        Pane::ContainersList,
        Pane::ContainerDetails,
    ];
    let mut m = model();
    for p in panes {
        m.active_pane = p;
        for e in [key('1'), key('2'), key('3'), key('4'), key('J'), key('K'), key('L'), key('H')] {
            assert!(pane_after(&m, e).is_some(), "{p:?} {e:?}");
        }
        assert!(pane_after(&m, code(KeyCode::Tab)).is_some());
        assert!(pane_after(&m, code(KeyCode::BackTab)).is_some());
        assert!(matches!(
            get_event_handling_msg(&m, code(KeyCode::Esc)),
            Some(Message::GoBackOrQuit)
        ));
    }
    m.active_pane = Pane::Help;
    assert!(matches!(get_event_handling_msg(&m, key('?')), Some(Message::GoBackOrQuit)));
    assert!(get_event_handling_msg(&m, key('1')).is_none());
}

#[test]
fn tab_and_vertical_keys_cycle_rows() {
    let mut m = model();
    assert_eq!(pane_after(&m, code(KeyCode::Tab)), Some(Pane::TasksList));
    assert_eq!(pane_after(&m, code(KeyCode::BackTab)), Some(Pane::ContainersList));
    assert_eq!(pane_after(&m, code(KeyCode::Right)), Some(Pane::ServiceDetails));
    assert_eq!(pane_after(&m, key('J')), Some(Pane::TasksList));
    m.active_pane = Pane::ContainersList;
    assert_eq!(pane_after(&m, code(KeyCode::Tab)), Some(Pane::ServicesList));
    assert_eq!(pane_after(&m, key('J')), Some(Pane::ServicesList));
    assert_eq!(pane_after(&m, key('K')), Some(Pane::TasksList));
    m.active_pane = Pane::TaskDetails;
    assert_eq!(pane_after(&m, code(KeyCode::Left)), Some(Pane::TasksList));
    assert_eq!(pane_after(&m, key('J')), Some(Pane::ContainerDetails));
    assert_eq!(pane_after(&m, key('K')), Some(Pane::ServiceDetails));
    assert_eq!(pane_after(&m, code(KeyCode::Right)), None);
}

#[test]
fn control_keys_and_list_keys() {
    let mut m = model();
    let ctrl = |c| InputEvent::Key { code: KeyCode::Char(c), control: true, press: true };
    assert!(matches!(get_event_handling_msg(&m, ctrl('c')), Some(Message::QuitImmediately)));
    assert!(matches!(
        get_event_handling_msg(&m, ctrl('r')),
        Some(Message::RefreshResultsForMarkedServices)
    ));
    assert!(matches!(
        get_event_handling_msg(&m, key('r')),
        Some(Message::RefreshResultsForCurrentItem)
    ));
    assert!(matches!(get_event_handling_msg(&m, key('j')), Some(Message::GoToNextListItem)));
    assert!(matches!(get_event_handling_msg(&m, key('m')), Some(Message::ToggleServiceRefresh)));
    assert!(get_event_handling_msg(&m, key('c')).is_none());
    let release = InputEvent::Key { code: KeyCode::Char('q'), control: false, press: false };
    assert!(get_event_handling_msg(&m, release).is_none());
    m.active_pane = Pane::ServiceDetails;
    assert!(get_event_handling_msg(&m, key('j')).is_none());
    assert!(get_event_handling_msg(&m, key('m')).is_none());
}

#[test]
fn small_terminal_honours_only_quit_keys() {
    let mut m = model();
    update(&mut m, Message::TerminalResize(79, 40), 0);
    assert!(m.terminal_too_small);
    assert!(get_event_handling_msg(&m, key('2')).is_none());
    assert!(get_event_handling_msg(&m, code(KeyCode::Tab)).is_none());
    assert!(matches!(get_event_handling_msg(&m, key('q')), Some(Message::GoBackOrQuit)));
    assert!(matches!(
        get_event_handling_msg(&m, InputEvent::Resize(100, 50)),
        Some(Message::TerminalResize(100, 50))
    ));
    update(&mut m, Message::TerminalResize(80, 30), 0);
    assert!(!m.terminal_too_small);
    assert_eq!(m.terminal_dimensions, TerminalDimensions { width: 80, height: 30 });
    update(&mut m, Message::TerminalResize(80, 29), 0);
    assert!(m.terminal_too_small);
}

#[test]
fn escape_from_services_list_ends_the_loop() {
    let mut m = model();
    update(&mut m, Message::GoToPane(Pane::ContainerDetails), 0);
    update(&mut m, Message::GoBackOrQuit, 0);
    assert_eq!(m.active_pane, Pane::ContainersList);
    update(&mut m, Message::GoBackOrQuit, 0);
    assert_eq!(m.active_pane, Pane::TasksList);
    update(&mut m, Message::GoBackOrQuit, 0);
    assert_eq!(m.active_pane, Pane::ServicesList);
    assert_eq!(m.running_state, RunningState::Running);
    update(&mut m, Message::GoBackOrQuit, 0);
    assert_eq!(m.running_state, RunningState::Done);
}

#[test]
fn help_remembers_the_pane_it_came_from() {
    let mut m = model();
    update(&mut m, Message::GoToPane(Pane::TaskDetails), 0);
    update(&mut m, Message::GoToPane(Pane::Help), 0);
    assert_eq!(m.last_active_pane, Some(Pane::TaskDetails));
    update(&mut m, Message::GoBackOrQuit, 0);
    assert_eq!(m.active_pane, Pane::TaskDetails);
    update(&mut m, Message::QuitImmediately, 0);
    assert_eq!(m.running_state, RunningState::Done);
}

#[test]
fn fetched_services_merge_successes_first_and_queue_task_fetches() {
    let mut m = model();
    let cmds = update(
        &mut m,
        Message::ServicesFetched(vec![Ok(details("zeta")), failure("f1"), Ok(details("alpha"))]),
        0,
    );
    assert_eq!(names(&m), vec!["alpha", "zeta", "!f1"]);
    assert_eq!(m.num_errors, 1);
    assert_eq!(m.service_items.selected, Some(0));
    let fetches: Vec<(String, bool)> = cmds
        .iter()
        .map(|c| match c {
            Command::GetTasks((d, r)) => (d.name.clone(), *r),
            _ => panic!("unexpected command"),
        })
        .collect();
    assert_eq!(
        fetches,
        vec![
            ("zeta".to_string(), false),
            ("alpha".to_string(), false),
            ("alpha".to_string(), false),
        ]
    );
    update(
        &mut m,
        Message::ServicesFetched(vec![failure("f0"), Ok(details("beta"))]),
        0,
    );
    assert_eq!(names(&m), vec!["alpha", "beta", "zeta", "!f1", "!f0"]);
    assert_eq!(m.num_errors, 2);
}

#[test]
fn marking_a_failure_is_refused_with_a_message() {
    let mut m = model();
    update(&mut m, Message::ServicesFetched(vec![failure("bad")]), 0);
    update(&mut m, Message::ToggleServiceRefresh, 42);
    assert_eq!(m.num_services_marked_for_refresh, 0);
    assert!(!m.service_items.items[0].marked_for_refresh);
    match &m.user_message {
        Some(UserMessage::Error(text, at)) => {
            assert_eq!(text, "error results cannot be marked for refresh");
            assert_eq!(*at, 42);
        }
        other => panic!("expected an error message, got {other:?}"),
    }
    update(&mut m, Message::ClearUserMsg, 50);
    assert!(m.user_message.is_some());
    update(&mut m, Message::ClearUserMsg, 53);
    assert!(m.user_message.is_none());
}

#[test]
fn marking_then_unmarking_restores_the_count() {
    let mut m = model();
    update(&mut m, Message::ServicesFetched(vec![Ok(details("a")), Ok(details("b"))]), 0);
    update(&mut m, Message::ToggleServiceRefresh, 0);
    assert_eq!(m.num_services_marked_for_refresh, 1);
    assert!(m.service_items.items[0].marked_for_refresh);
    update(&mut m, Message::ToggleServiceRefresh, 0);
    assert_eq!(m.num_services_marked_for_refresh, 0);
    assert!(!m.service_items.items[0].marked_for_refresh);
}

#[test]
fn bulk_refresh_takes_marked_services_or_all() {
    let mut m = model();
    update(
        &mut m,
        Message::ServicesFetched(vec![Ok(details("a")), Ok(details("b")), failure("c")]),
        0,
    );
    let cmds = update(&mut m, Message::RefreshResultsForMarkedServices, 0);
    let refreshed: Vec<(String, usize)> = cmds
        .iter()
        .filter_map(|c| match c {
            Command::RefreshService((d, i)) => Some((d.name.clone(), *i)),
            _ => None,
        })
        .collect();
    assert_eq!(refreshed, vec![("a".to_string(), 0), ("b".to_string(), 1)]);
    update(&mut m, Message::GoToNextListItem, 0);
    update(&mut m, Message::ToggleServiceRefresh, 0);
    let cmds = update(&mut m, Message::RefreshResultsForMarkedServices, 0);
    let refreshed: Vec<(String, usize)> = cmds
        .iter()
        .filter_map(|c| match c {
            Command::RefreshService((d, i)) => Some((d.name.clone(), *i)),
            _ => None,
        })
        .collect();
    assert_eq!(refreshed, vec![("b".to_string(), 1)]);
}

#[test]
fn refresh_drops_cached_tasks_until_tasks_come_back() {
    let mut m = model();
    update(&mut m, Message::ServicesFetched(vec![Ok(details("a"))]), 0);
    update(
        &mut m,
        Message::TasksFetched((details("a"), vec![task("arn/t1", vec![container("c")])], false)),
        0,
    );
    assert!(m.cached_tasks(&details("a")).is_some());
    assert_eq!(m.task_items.as_ref().map(|t| t.items.len()), Some(1));
    let mut fresh = details("a");
    fresh.running_count = 0;
    let cmds = update(
        &mut m,
        Message::ServiceDetailsRefreshed((Ok(fresh.clone()), details("a"), 0)),
        0,
    );
    assert!(m.cached_tasks(&details("a")).is_none());
    assert!(m.task_items.is_none());
    assert!(matches!(&cmds[..], [Command::GetTasks((d, false))] if d.name == "a"));
    update(&mut m, Message::GoToNextListItem, 0);
    assert!(m.cached_tasks(&details("a")).is_none());
    update(&mut m, Message::TasksFetched((fresh.clone(), vec![task("arn/t2", vec![])], true)), 0);
    assert!(m.cached_tasks(&fresh).is_some());
    assert_eq!(m.task_items.as_ref().map(|t| t.items.len()), Some(1));
}

#[test]
fn failed_refresh_clears_the_mark() {
    let mut m = model();
    update(&mut m, Message::ServicesFetched(vec![Ok(details("a"))]), 0);
    update(&mut m, Message::ToggleServiceRefresh, 0);
    assert_eq!(m.num_services_marked_for_refresh, 1);
    update(
        &mut m,
        Message::ServiceDetailsRefreshed((failure("a"), details("a"), 0)),
        0,
    );
    assert_eq!(m.num_services_marked_for_refresh, 0);
    assert!(!m.service_items.items[0].marked_for_refresh);
    assert!(m.task_items.is_none());
    assert!(m.container_items.items.is_empty());
    update(
        &mut m,
        Message::ServiceDetailsRefreshed((Ok(details("a")), details("a"), 7)),
        0,
    );
    assert!(m.service_items.items[0].service.is_err());
}

#[test]
fn containers_follow_the_selected_task() {
    let mut m = model();
    update(&mut m, Message::ServicesFetched(vec![Ok(details("a"))]), 0);
    let tasks = vec![
        task("arn/t1", vec![container("web"), container("app")]),
        task("arn/t2", vec![container("sidecar")]),
    ];
    update(&mut m, Message::TasksFetched((details("a"), tasks, false)), 0);
    let shown: Vec<String> =
        m.container_items.items.iter().map(|c| c.name.clone().unwrap()).collect();
    assert_eq!(shown, vec!["app", "web"]);
    update(&mut m, Message::GoToPane(Pane::TasksList), 0);
    update(&mut m, Message::GoToNextListItem, 0);
    let shown: Vec<String> =
        m.container_items.items.iter().map(|c| c.name.clone().unwrap()).collect();
    assert_eq!(shown, vec!["sidecar"]);
    update(&mut m, Message::GoToNextListItem, 0);
    assert_eq!(m.task_items.as_ref().unwrap().selected, Some(1));
    update(&mut m, Message::GoToFirstListItem, 0);
    assert_eq!(m.task_items.as_ref().unwrap().selected, Some(0));
}

#[test]
fn refreshing_from_a_task_pane_refetches_tasks() {
    let mut m = model();
    update(&mut m, Message::ServicesFetched(vec![Ok(details("a"))]), 0);
    update(&mut m, Message::TasksFetched((details("a"), vec![task("arn/t", vec![])], false)), 0);
    update(&mut m, Message::GoToPane(Pane::TasksList), 0);
    let cmds = update(&mut m, Message::RefreshResultsForCurrentItem, 0);
    assert!(matches!(&cmds[0], Command::GetTasks((d, true)) if d.name == "a"));
    assert!(m.cached_tasks(&details("a")).is_none());
    assert!(m.task_items.is_none());
    update(&mut m, Message::GoToPane(Pane::ServicesList), 0);
    let cmds = update(&mut m, Message::RefreshResultsForCurrentItem, 0);
    assert!(matches!(&cmds[0], Command::RefreshService((d, 0)) if d.name == "a"));
}

#[test]
fn selection_stays_within_the_list() {
    let mut m = model();
    update(&mut m, Message::GoToNextListItem, 0);
    assert_eq!(m.service_items.selected, None);
    update(&mut m, Message::ServicesFetched(vec![Ok(details("a")), Ok(details("b"))]), 0);
    update(&mut m, Message::GoToLastListItem, 0);
    assert_eq!(m.service_items.selected, Some(1));
    update(&mut m, Message::GoToNextListItem, 0);
    assert_eq!(m.service_items.selected, Some(1));
    update(&mut m, Message::GoToPreviousListItem, 0);
    update(&mut m, Message::GoToPreviousListItem, 0);
    assert_eq!(m.service_items.selected, Some(0));
    update(&mut m, Message::ToggleAutoRefresh, 0);
    assert!(m.auto_refresh);
}

#[test]
fn cluster_reply_becomes_service_results() {
    let c = ClusterConfig {
        keys: vec!["qa".to_string()],
        arn: "arn:c".to_string(),
        services: vec!["a".to_string(), "b".to_string()],
        config_source: ConfigSource::Env,
    };
    let reply = vec![
        DescribedService {
            service_name: Some("a".to_string()),
            status: None,
            desired_count: 3,
            running_count: 2,
            pending_count: 1,
            deployments: vec![],
        },
        DescribedService {
            service_name: None,
            status: Some("ACTIVE".to_string()),
            desired_count: 0,
            running_count: 0,
            pending_count: 0,
            deployments: vec![],
        },
    ];
    let results = services_for_cluster(&c, &Some(Ok(reply)));
    assert_eq!(results.len(), 2);
    let first = results[0].as_ref().unwrap();
    assert_eq!((first.name.as_str(), first.status.as_str()), ("a", "unknown"));
    assert_eq!((first.desired_count, first.running_count, first.pending_count), (3, 2, 1));
    let second = results[1].as_ref().unwrap_err();
    assert_eq!(second.service_name, "unknown");
    assert_eq!(second.error, "service name returned was empty");

    let failed = services_for_cluster(&c, &Some(Err("denied".to_string())));
    assert_eq!(failed.len(), 2);
    assert!(failed.iter().all(|r| matches!(r, Err(e) if e.error == "denied")));
    let missing = services_for_cluster(&c, &None);
    assert!(missing.iter().all(|r| matches!(r, Err(e) if e.error == "unexpected error")));
}

#[test]
fn refresh_reply_becomes_one_result() {
    let listed = details("a");
    let one = DescribedService {
        service_name: Some("a".to_string()),
        status: Some("DRAINING".to_string()),
        desired_count: 5,
        running_count: 4,
        pending_count: 1,
        deployments: vec![],
    };
    let r = refreshed_service(&listed, &Some(Ok(vec![one.clone()]))).unwrap();
    assert_eq!((r.status.as_str(), r.desired_count), ("DRAINING", 5));
    assert_eq!(r.cluster_arn, "arn:cluster");
    let two = refreshed_service(&listed, &Some(Ok(vec![one.clone(), one]))).unwrap_err();
    assert_eq!(two.service_name, "unknown");
    let err = refreshed_service(&listed, &Some(Err("gone".to_string()))).unwrap_err();
    assert_eq!((err.service_name.as_str(), err.error.as_str()), ("a", "gone"));
    let none = refreshed_service(&listed, &None).unwrap_err();
    assert_eq!(none.error, "unexpected error");
}

#[test]
fn user_messages_and_items() {
    let info = UserMessage::info("hello", 3);
    assert!(matches!(&info, UserMessage::Info(t, 3) if t == "hello"));
    assert_eq!(info.raised_at(), 3);
    let item = ecscope::ServiceItem::new(Ok(details("x")));
    assert!(!item.marked_for_refresh);
    assert_eq!(Pane::TaskDetails.short_name(), "td");
}
