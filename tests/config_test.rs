use ecscope::{parse_config_source, ClusterConfig, ConfigSource, Pattern, Profile};

fn cluster(keys: &[&str], services: &[&str]) -> ClusterConfig {
    ClusterConfig {
        keys: keys.iter().map(|k| k.to_string()).collect(),
        arn: "arn:aws:ecs:eu-central-1:111111111111:cluster/cluster-a".to_string(),
        services: services.iter().map(|s| s.to_string()).collect(),
        config_source: ConfigSource::Env,
    }
}

#[test]
fn deserializing_cluster_config_works() {
    assert_eq!(parse_config_source("env"), Some(ConfigSource::Env));
    assert_eq!(
        parse_config_source("profile:qa"),
        Some(ConfigSource::Profile { name: "qa".to_string() })
    );
    assert_eq!(
        parse_config_source("assume:arn:aws:iam::222222222222:role/role-name"),
        Some(ConfigSource::AssumeRole {
            role_arn: "arn:aws:iam::222222222222:role/role-name".to_string()
        })
    );
}

#[test]
fn deserializing_incorrect_cluster_config_fails() {
    assert_eq!(parse_config_source("unknown"), None);
}

#[test]
fn config_source_needs_exact_env_word() {
    assert_eq!(parse_config_source("environment"), None);
    assert_eq!(parse_config_source(""), None);
    assert_eq!(
        parse_config_source("profile:"),
        Some(ConfigSource::Profile { name: String::new() })
    );
}

#[test]
fn using_regex_for_search_filter_works() {
    let re = Pattern::new(".*-service").expect("pattern should compile");
    assert_eq!(re.as_str(), ".*-service");
    let c = cluster(&["qa"], &["auth-service", "worker", "billing-service"])
        .filter_by_service_name(&re)
        .expect("two services match");
    assert_eq!(c.services, vec!["auth-service".to_string(), "billing-service".to_string()]);
    assert!(cluster(&["qa"], &["worker"]).filter_by_service_name(&re).is_none());
}

#[test]
fn using_regex_for_key_filter_works() {
    let re = Pattern::new("qa|staging").expect("pattern should compile");
    assert!(cluster(&["prod", "staging"], &["a"]).filter_by_cluster_key(&re).is_some());
    assert!(cluster(&["prod"], &["a"]).filter_by_cluster_key(&re).is_none());
}

#[test]
fn using_invalid_regex_for_search_filter_fails() {
    assert!(Pattern::new("(a(bc").is_err());
}

#[test]
fn using_invalid_regex_for_key_filter_fails() {
    assert!(Pattern::new("(a(bc").is_err());
}

#[test]
fn adding_a_profile_works() {
    let p1 = Profile::try_from("prof1").expect("valid name");
    assert_eq!(p1.name(), "prof1");
    let p2 = Profile::try_from("prof2").expect("valid name");
    assert_eq!(p2.name(), "prof2");
}

#[test]
fn using_incorrect_profile_name_fails() {
    let err = Profile::try_from("split in three").unwrap_err();
    assert_eq!(err, "valid regex: ^[a-z0-9_-]{1,20}$");
    assert!(Profile::try_from("").is_err());
    assert!(Profile::try_from("abcdefghijklmnopqrstu").is_err());
    assert!(Profile::try_from("abcdefghijklmnopqrst").is_ok());
}

#[test]
fn select_clusters_applies_both_filters() {
    let clusters = vec![
        cluster(&["qa"], &["auth-service", "worker"]),
        cluster(&["prod"], &["auth-service"]),
        cluster(&["qa"], &["worker"]),
    ];
    let s = Pattern::new("-service$").unwrap();
    let k = Pattern::new("^qa$").unwrap();
    let out = ecscope::select_clusters(&clusters, Some(&s), Some(&k));
    assert_eq!(out.len(), 1);
    assert_eq!(out[0].services, vec!["auth-service".to_string()]);
    assert_eq!(ecscope::select_clusters(&clusters, None, None).len(), 3);
    assert_eq!(ecscope::select_clusters(&clusters, None, Some(&k)).len(), 2);
}

#[test]
fn distinct_sources_lists_each_once() {
    let mut a = cluster(&["qa"], &["x"]);
    a.config_source = ConfigSource::Profile { name: "qa".to_string() };
    let b = cluster(&["qa"], &["y"]);
    let mut c = cluster(&["qa"], &["z"]);
    c.config_source = ConfigSource::Profile { name: "qa".to_string() };
    let sources = ecscope::distinct_sources(&vec![a, b, c]);
    assert_eq!(
        sources,
        vec![ConfigSource::Profile { name: "qa".to_string() }, ConfigSource::Env]
    );
}

#[test]
fn environment_flag_selects_dev() {
    assert_eq!(ecscope::environment_from_flag("1"), ecscope::Environment::Dev);
    assert_eq!(ecscope::environment_from_flag("0"), ecscope::Environment::Prod);
    assert_eq!(ecscope::environment_from_flag(""), ecscope::Environment::Prod);
}
