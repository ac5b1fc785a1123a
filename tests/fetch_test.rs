use ecscope::{
    check_clients, collect_deployments, deployment_included, deployments_of_cluster,
    failures_of_cluster, join_keys, shown_or_redacted, sort_by_key, ClusterConfig,
    ClusterOutcome, ConfigSource, DeploymentDetails, DeploymentError, DeploymentState,
    DescribedDeployment, DescribedService, FetchError, FetchLimiter, MAX_CONCURRENT_FETCHES,
};

fn cluster(keys: &[&str], services: &[&str], source: ConfigSource) -> ClusterConfig {
    ClusterConfig {
        keys: keys.iter().map(|k| k.to_string()).collect(),
        arn: "arn:cluster".to_string(),
        services: services.iter().map(|s| s.to_string()).collect(),
        config_source: source,
    }
}

fn deployment(status: &str, running: i32, desired: i32, failed: i32) -> DescribedDeployment {
    DescribedDeployment {
        id: Some(format!("dep-{status}-{running}")),
        status: Some(status.to_string()),
        running_count: running,
        desired_count: desired,
        pending_count: 0,
        failed_tasks: failed,
    }
}

fn service(name: &str, deployments: Vec<DescribedDeployment>) -> DescribedService {
    DescribedService {
        service_name: Some(name.to_string()),
        status: Some("ACTIVE".to_string()),
        desired_count: 2,
        running_count: 2,
        pending_count: 0,
        deployments,
    }
}

#[test]
fn finished_and_in_progress_filters_split_deployments() {
    let done = deployment("PRIMARY", 2, 2, 0);
    assert!(deployment_included(Some(DeploymentState::Finished), &done));
    assert!(!deployment_included(Some(DeploymentState::InProgress), &done));
    let failing = deployment("ACTIVE", 1, 3, 2);
    assert!(deployment_included(Some(DeploymentState::Failing), &failing));
    assert!(deployment_included(Some(DeploymentState::InProgress), &failing));
    assert!(!deployment_included(Some(DeploymentState::Finished), &failing));
    let no_failures = deployment("ACTIVE", 1, 3, 0);
    assert!(!deployment_included(Some(DeploymentState::Failing), &no_failures));
    let no_status = DescribedDeployment { status: None, ..deployment("PRIMARY", 2, 2, 0) };
    assert!(!deployment_included(Some(DeploymentState::Finished), &no_status));
    assert!(deployment_included(None, &no_status));
}

#[test]
fn two_deployments_of_one_service_filter_by_state() {
    let c = cluster(&["qa"], &["svc-a", "svc-b"], ConfigSource::Env);
    let services = vec![
        service(
            "svc-a",
            vec![deployment("PRIMARY", 2, 2, 0), deployment("ACTIVE", 1, 2, 0)],
        ),
        service("svc-b", vec![]),
    ];
    let finished = deployments_of_cluster(&c, &services, Some(DeploymentState::Finished));
    assert_eq!(finished.len(), 1);
    assert_eq!(finished[0].status, "PRIMARY");
    let in_progress = deployments_of_cluster(&c, &services, Some(DeploymentState::InProgress));
    assert_eq!(in_progress.len(), 1);
    assert_eq!(in_progress[0].status, "ACTIVE");
    assert_eq!(in_progress[0].running_count, 1);
    let all = deployments_of_cluster(&c, &services, None);
    assert_eq!(all.len(), 2);
    assert_eq!(all[0].service_name, "svc-a");
    assert_eq!(all[0].keys, "qa");
    assert_eq!(all[0].cluster_arn, "arn:cluster");
}

#[test]
fn missing_reply_fields_read_unknown() {
    let c = cluster(&["qa"], &["svc-a"], ConfigSource::Env);
    let services = vec![DescribedService {
        service_name: None,
        deployments: vec![DescribedDeployment { id: None, status: None, ..deployment("x", 0, 0, 0) }],
        ..service("ignored", vec![])
    }];
    let all = deployments_of_cluster(&c, &services, None);
    assert_eq!(all.len(), 1);
    assert_eq!(all[0].service_name, "<unknown>");
    assert_eq!(all[0].deployment_id, "<unknown>");
    assert_eq!(all[0].status, "<unknown>");
}

#[test]
fn failed_cluster_gives_one_failure_per_service() {
    let c = cluster(&["qa", "eu"], &["a", "b", "c"], ConfigSource::Env);
    let errors = failures_of_cluster(&c, &"access denied".to_string());
    assert_eq!(errors.len(), 3);
    for (e, name) in errors.iter().zip(["a", "b", "c"]) {
        assert_eq!(e.service_name, name);
        assert_eq!(e.error, "access denied");
        assert_eq!(e.keys, "qa,eu");
        assert_eq!(e.cluster_arn, "arn:cluster");
    }
}

#[test]
fn keys_are_joined_with_commas() {
    assert_eq!(join_keys(&vec![]), "");
    assert_eq!(join_keys(&vec!["qa".to_string()]), "qa");
    assert_eq!(
        join_keys(&vec!["qa".to_string(), "eu".to_string(), "x".to_string()]),
        "qa,eu,x"
    );
}

#[test]
fn batch_with_missing_client_fails_before_any_query() {
    let clusters = vec![
        cluster(&["a"], &["s1"], ConfigSource::Env),
        cluster(&["b"], &["s2"], ConfigSource::Profile { name: "absent".to_string() }),
        cluster(&["c"], &["s3"], ConfigSource::Env),
    ];
    let registered = vec![ConfigSource::Env];
    assert_eq!(
        check_clients(&clusters, &registered),
        Err(FetchError::MissingClient { cluster_index: 1 })
    );
    let registered = vec![
        ConfigSource::Env,
        ConfigSource::Profile { name: "absent".to_string() },
    ];
    assert_eq!(check_clients(&clusters, &registered), Ok(()));
    assert_eq!(check_clients(&vec![], &vec![]), Ok(()));
}

#[test]
fn batch_results_are_sorted_by_name_then_keys() {
    let clusters = vec![
        cluster(&["staging"], &["zeta", "alpha"], ConfigSource::Env),
        cluster(&["qa"], &["alpha", "beta"], ConfigSource::Env),
        cluster(&["prod"], &["gamma", "alpha"], ConfigSource::Env),
    ];
    let outcomes: Vec<ClusterOutcome> = vec![
        Ok(vec![
            service("zeta", vec![deployment("PRIMARY", 1, 1, 0)]),
            service("alpha", vec![deployment("PRIMARY", 1, 1, 0)]),
        ]),
        Ok(vec![
            service("beta", vec![deployment("PRIMARY", 1, 1, 0)]),
            service("alpha", vec![deployment("PRIMARY", 1, 1, 0)]),
        ]),
        Err("timed out".to_string()),
    ];
    let (deps, errors) = collect_deployments(&clusters, &outcomes, None);
    let order: Vec<(String, String)> =
        deps.iter().map(|d| (d.service_name.clone(), d.keys.clone())).collect();
    assert_eq!(
        order,
        vec![
            ("alpha".to_string(), "qa".to_string()),
            ("alpha".to_string(), "staging".to_string()),
            ("beta".to_string(), "qa".to_string()),
            ("zeta".to_string(), "staging".to_string()),
        ]
    );
    let failed: Vec<String> = errors.iter().map(|e| e.service_name.clone()).collect();
    assert_eq!(failed, vec!["alpha".to_string(), "gamma".to_string()]);
    assert!(errors.iter().all(|e| e.error == "timed out" && e.keys == "prod"));

    let (again, again_errors) = collect_deployments(&clusters, &outcomes, None);
    let order_again: Vec<(String, String)> =
        again.iter().map(|d| (d.service_name.clone(), d.keys.clone())).collect();
    assert_eq!(order, order_again);
    assert_eq!(again_errors.len(), errors.len());

    let resorted = sort_by_key(deps);
    let order_resorted: Vec<(String, String)> =
        resorted.iter().map(|d| (d.service_name.clone(), d.keys.clone())).collect();
    assert_eq!(order, order_resorted);
}

#[test]
fn sort_keeps_order_of_equal_keys() {
    let mut a = DeploymentDetails::dummy_running("svc", "qa");
    a.deployment_id = "first".to_string();
    let mut b = DeploymentDetails::dummy_pending("svc", "qa");
    b.deployment_id = "second".to_string();
    let c = DeploymentDetails::dummy_active("abc", "zz");
    let sorted = sort_by_key(vec![a, b, c]);
    assert_eq!(sorted[0].service_name, "abc");
    assert_eq!(sorted[1].deployment_id, "first");
    assert_eq!(sorted[2].deployment_id, "second");
}

#[test]
fn sort_orders_errors_by_name_then_keys() {
    let e = |name: &str, keys: &str| DeploymentError {
        service_name: name.to_string(),
        error: "e".to_string(),
        cluster_arn: "c".to_string(),
        keys: keys.to_string(),
    };
    let sorted = sort_by_key(vec![e("b", "x"), e("a", "z"), e("a", "y"), e("B", "x")]);
    let got: Vec<(String, String)> =
        sorted.iter().map(|d| (d.service_name.clone(), d.keys.clone())).collect();
    assert_eq!(
        got,
        vec![
            ("B".to_string(), "x".to_string()),
            ("a".to_string(), "y".to_string()),
            ("a".to_string(), "z".to_string()),
            ("b".to_string(), "x".to_string()),
        ]
    );
}

#[test]
fn limiter_never_exceeds_ceiling() {
    let mut limiter = FetchLimiter::new();
    let mut started = 0;
    for _ in 0..25 {
        if limiter.try_acquire() {
            started += 1;
        }
        assert!(limiter.in_flight() <= MAX_CONCURRENT_FETCHES);
    }
    assert_eq!(started, 10);
    assert_eq!(limiter.in_flight(), 10);
    limiter.release();
    assert_eq!(limiter.in_flight(), 9);
    assert!(limiter.try_acquire());
    assert!(!limiter.try_acquire());
    for _ in 0..12 {
        limiter.release();
    }
    assert_eq!(limiter.in_flight(), 0);
}

#[test]
fn sample_deployments_have_their_states() {
    let r = DeploymentDetails::dummy_running("s", "k");
    assert_eq!((r.status.as_str(), r.running_count, r.desired_count), ("PRIMARY", 2, 2));
    assert_eq!(r.cluster_arn, "");
    let p = DeploymentDetails::dummy_pending("s", "k");
    assert_eq!((p.running_count, p.desired_count, p.pending_count), (0, 2, 2));
    let a = DeploymentDetails::dummy_active("s", "k");
    assert_eq!((a.status.as_str(), a.running_count, a.desired_count), ("ACTIVE", 2, 0));
    let f = DeploymentDetails::dummy_failing("s", "k");
    assert_eq!(f.failed_count, 3);
    let d = DeploymentDetails::dummy_draining("s", "k");
    assert_eq!(d.status, "DRAINING");
    assert_eq!((d.service_name.as_str(), d.keys.as_str()), ("s", "k"));
}

#[test]
fn redaction_hides_identifiers() {
    assert_eq!(shown_or_redacted("arn:secret", true), "<REDACTED>");
    assert_eq!(shown_or_redacted("arn:secret", false), "arn:secret");
}

#[test]
fn state_names() {
    assert_eq!(DeploymentState::Finished.as_str(), "finished");
    assert_eq!(DeploymentState::InProgress.as_str(), "in-progress");
    assert_eq!(DeploymentState::Failing.as_str(), "failing");
    assert_eq!(ecscope::OutputFormat::Json.as_str(), "json");
    assert_eq!(ecscope::OutputMode::Web.as_str(), "web");
}
