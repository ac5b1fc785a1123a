use vstd::prelude::*;

verus! {

use crate::config::{clone_texts, texts_view, ClusterConfig};
use crate::domain::{
    service_result_view, ServiceDetails, ServiceError, ServiceErrorView, ServiceResult, ServiceView,
};
use crate::fetch::{ClusterOutcome, DescribedService};

/// A dashboard service result as plain values.
pub type ServiceResultView = Result<ServiceView, ServiceErrorView>;

/// The views of a list of service results.
pub open spec fn results_view(s: Seq<ServiceResult>) -> Seq<ServiceResultView> {
    s.map_values(|r: ServiceResult| service_result_view(r))
}

pub open spec fn unknown_word() -> Seq<char> {
    "unknown"@
}

pub open spec fn empty_name_error() -> Seq<char> {
    "service name returned was empty"@
}

pub open spec fn missing_client_error() -> Seq<char> {
    "unexpected error"@
}

/// An optional text, `unknown` when absent.
pub open spec fn text_or_unknown_word(o: Option<String>) -> Seq<char> {
    match o {
        Some(s) => s@,
        None => unknown_word(),
    }
}

/// The result for one described service of `cluster`: a failure when the
/// reply left out its name.
pub open spec fn described_result(cluster: ClusterConfig, s: DescribedService) -> ServiceResultView {
    match s.service_name {
        Some(name) => Ok(
            ServiceView {
                name: name@,
                status: text_or_unknown_word(s.status),
                desired_count: s.desired_count,
                running_count: s.running_count,
                pending_count: s.pending_count,
                cluster_keys: texts_view(cluster.keys@),
                cluster_arn: cluster.arn@,
                config_source: cluster.config_source@,
            },
        ),
        None => Err(
            ServiceErrorView {
                service_name: unknown_word(),
                error: empty_name_error(),
                cluster_keys: texts_view(cluster.keys@),
            },
        ),
    }
}

/// One failure per configured service of `cluster`, with `error` as text.
pub open spec fn failed_results(cluster: ClusterConfig, error: Seq<char>) -> Seq<ServiceResultView> {
    Seq::new(
        cluster.services@.len(),
        |i: int|
            Err(
                ServiceErrorView {
                    service_name: cluster.services@[i]@,
                    error: error,
                    cluster_keys: texts_view(cluster.keys@),
                },
            ),
    )
}

/// The results the dashboard lists for a cluster: from the reply, or one
/// failure per configured service when the query failed or no client was
/// built for the cluster (`None`).
pub open spec fn listed_results(cluster: ClusterConfig, outcome: Option<ClusterOutcome>) -> Seq<
    ServiceResultView,
> {
    match outcome {
        None => failed_results(cluster, missing_client_error()),
        Some(Err(e)) => failed_results(cluster, e@),
        Some(Ok(list)) => list@.map_values(|s: DescribedService| described_result(cluster, s)),
    }
}

fn unknown_or(o: &Option<String>) -> (r: String)
    ensures
        r@ == text_or_unknown_word(*o),
{
    match o {
        Some(s) => s.clone(),
        None => "unknown".to_owned(),
    }
}

fn described_service_result(cluster: &ClusterConfig, s: &DescribedService) -> (r: ServiceResult)
    ensures
        service_result_view(r) == described_result(*cluster, *s),
{
    match &s.service_name {
        Some(name) => Ok(
            ServiceDetails {
                name: name.clone(),
                status: unknown_or(&s.status),
                desired_count: s.desired_count,
                running_count: s.running_count,
                pending_count: s.pending_count,
                cluster_keys: clone_texts(&cluster.keys),
                cluster_arn: cluster.arn.clone(),
                config_source: cluster.config_source.clone(),
            },
        ),
        None => Err(
            ServiceError {
                service_name: "unknown".to_owned(),
                error: "service name returned was empty".to_owned(),
                cluster_keys: clone_texts(&cluster.keys),
            },
        ),
    }
}

fn failed_service_results(cluster: &ClusterConfig, error: &str) -> (r: Vec<ServiceResult>)
    ensures
        results_view(r@) == failed_results(*cluster, error@),
{
    let mut out: Vec<ServiceResult> = Vec::new();
    let mut i: usize = 0;
    while i < cluster.services.len()
        invariant
            i <= cluster.services.len(),
            results_view(out@) == failed_results(*cluster, error@).take(i as int),
        decreases cluster.services.len() - i,
    {
        let ghost before = out@;
        let r: ServiceResult = Err(
            ServiceError {
                service_name: cluster.services[i].clone(),
                error: error.to_owned(),
                cluster_keys: clone_texts(&cluster.keys),
            },
        );
        out.push(r);
        proof {
            assert(results_view(out@) =~= results_view(before).push(service_result_view(r)));
            assert(results_view(out@) =~= failed_results(*cluster, error@).take(i + 1));
        }
        i = i + 1;
    }
    proof {
        assert(failed_results(*cluster, error@).take(i as int) =~= failed_results(
            *cluster,
            error@,
        ));
    }
    out
}

/// The service results to list for a cluster, from what its query gave:
/// `None` when no client was built for its credential source.
pub fn services_for_cluster(cluster: &ClusterConfig, outcome: &Option<ClusterOutcome>) -> (r: Vec<
    ServiceResult,
>)
    ensures
        results_view(r@) == listed_results(*cluster, *outcome),
{
    match outcome {
        None => failed_service_results(cluster, "unexpected error"),
        Some(Err(e)) => failed_service_results(cluster, e.as_str()),
        Some(Ok(list)) => {
            let mut out: Vec<ServiceResult> = Vec::new();
            let mut i: usize = 0;
            let ghost expected = list@.map_values(
                |s: DescribedService| described_result(*cluster, s),
            );
            while i < list.len()
                invariant
                    i <= list.len(),
                    expected == list@.map_values(
                        |s: DescribedService| described_result(*cluster, s),
                    ),
                    results_view(out@) == expected.take(i as int),
                decreases list.len() - i,
            {
                let ghost before = out@;
                let r = described_service_result(cluster, &list[i]);
                out.push(r);
                proof {
                    assert(results_view(out@) =~= results_view(before).push(service_result_view(r)));
                    assert(results_view(out@) =~= expected.take(i + 1));
                }
                i = i + 1;
            }
            proof {
                assert(expected.take(i as int) =~= expected);
            }
            out
        },
    }
}

/// The result of refreshing one listed service, from what its query gave:
/// `None` when no client was built for its credential source. A reply that
/// does not describe exactly one named service is a failure.
pub open spec fn refreshed_result(listed: ServiceDetails, outcome: Option<ClusterOutcome>) -> ServiceResultView {
    let keys = texts_view(listed.cluster_keys@);
    match outcome {
        None => Err(
            ServiceErrorView { service_name: listed.name@, error: missing_client_error(), cluster_keys: keys },
        ),
        Some(Err(e)) => Err(ServiceErrorView { service_name: listed.name@, error: e@, cluster_keys: keys }),
        Some(Ok(list)) => if list@.len() != 1 || list@[0].service_name is None {
            Err(ServiceErrorView { service_name: unknown_word(), error: empty_name_error(), cluster_keys: keys })
        } else {
            Ok(
                ServiceView {
                    name: list@[0].service_name->0@,
                    status: text_or_unknown_word(list@[0].status),
                    desired_count: list@[0].desired_count,
                    running_count: list@[0].running_count,
                    pending_count: list@[0].pending_count,
                    cluster_keys: keys,
                    cluster_arn: listed.cluster_arn@,
                    config_source: listed.config_source@,
                },
            )
        },
    }
}

/// The new result for a listed service after its refresh query.
pub fn refreshed_service(listed: &ServiceDetails, outcome: &Option<ClusterOutcome>) -> (r: ServiceResult)
    ensures
        service_result_view(r) == refreshed_result(*listed, *outcome),
{
    match outcome {
        None => Err(
            ServiceError {
                service_name: listed.name.clone(),
                error: "unexpected error".to_owned(),
                cluster_keys: clone_texts(&listed.cluster_keys),
            },
        ),
        Some(Err(e)) => Err(
            ServiceError {
                service_name: listed.name.clone(),
                error: e.clone(),
                cluster_keys: clone_texts(&listed.cluster_keys),
            },
        ),
        Some(Ok(list)) => {
            if list.len() != 1 {
                return Err(
                    ServiceError {
                        service_name: "unknown".to_owned(),
                        error: "service name returned was empty".to_owned(),
                        cluster_keys: clone_texts(&listed.cluster_keys),
                    },
                );
            }
            match &list[0].service_name {
                None => Err(
                    ServiceError {
                        service_name: "unknown".to_owned(),
                        error: "service name returned was empty".to_owned(),
                        cluster_keys: clone_texts(&listed.cluster_keys),
                    },
                ),
                Some(name) => Ok(
                    ServiceDetails {
                        name: name.clone(),
                        status: unknown_or(&list[0].status),
                        desired_count: list[0].desired_count,
                        running_count: list[0].running_count,
                        pending_count: list[0].pending_count,
                        cluster_keys: clone_texts(&listed.cluster_keys),
                        cluster_arn: listed.cluster_arn.clone(),
                        config_source: listed.config_source.clone(),
                    },
                ),
            }
        },
    }
}

} // verus!
