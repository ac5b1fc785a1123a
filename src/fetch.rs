use vstd::prelude::*;

verus! {

use crate::config::{texts_view, ClusterConfig, ConfigSource, SourceView};
use crate::domain::{
    primary_status, state_includes, DeploymentDetails, DeploymentError, DeploymentErrorView,
    DeploymentState, DeploymentView,
};
use crate::sort::{
    key_sorted, lemma_name_keys_order, name_keys_before, name_keys_lt, sort_by_key, views,
    SortKeyed,
};

/// The most queries that may be in flight at once.
pub const MAX_CONCURRENT_FETCHES: usize = 10;

/// A deployment as the describe-services reply reports it.
#[derive(Debug, Clone)]
pub struct DescribedDeployment {
    pub id: Option<String>,
    pub status: Option<String>,
    pub running_count: i32,
    pub desired_count: i32,
    pub pending_count: i32,
    pub failed_tasks: i32,
}

/// A service as the describe-services reply reports it.
#[derive(Debug, Clone)]
pub struct DescribedService {
    pub service_name: Option<String>,
    pub status: Option<String>,
    pub desired_count: i32,
    pub running_count: i32,
    pub pending_count: i32,
    pub deployments: Vec<DescribedDeployment>,
}

/// What one cluster's query gave: the services it described, or the error
/// text of the failed query.
pub type ClusterOutcome = Result<Vec<DescribedService>, String>;

/// Why a batch cannot run at all.
#[derive(Debug, Clone, PartialEq, Eq, Structural)]
pub enum FetchError {
    /// A cluster names a credential source for which no client was built.
    MissingClient { cluster_index: usize },
}

impl SortKeyed for DeploymentDetails {
    open spec fn precedes(a: DeploymentView, b: DeploymentView) -> bool {
        name_keys_lt(a.service_name, a.keys, b.service_name, b.keys)
    }

    proof fn lemma_precedes_order(a: DeploymentView, b: DeploymentView, c: DeploymentView) {
        lemma_name_keys_order(a.service_name, a.keys, b.service_name, b.keys, c.service_name, c.keys);
    }

    fn sorts_before(&self, other: &Self) -> (r: bool) {
        name_keys_before(
            self.service_name.as_str(),
            self.keys.as_str(),
            other.service_name.as_str(),
            other.keys.as_str(),
        )
    }
}

impl SortKeyed for DeploymentError {
    open spec fn precedes(a: DeploymentErrorView, b: DeploymentErrorView) -> bool {
        name_keys_lt(a.service_name, a.keys, b.service_name, b.keys)
    }

    proof fn lemma_precedes_order(a: DeploymentErrorView, b: DeploymentErrorView, c: DeploymentErrorView) {
        lemma_name_keys_order(a.service_name, a.keys, b.service_name, b.keys, c.service_name, c.keys);
    }

    fn sorts_before(&self, other: &Self) -> (r: bool) {
        name_keys_before(
            self.service_name.as_str(),
            self.keys.as_str(),
            other.service_name.as_str(),
            other.keys.as_str(),
        )
    }
}

/// The text shown for a value the reply left out.
pub open spec fn unknown_text() -> Seq<char> {
    seq!['<', 'u', 'n', 'k', 'n', 'o', 'w', 'n', '>']
}

/// An optional text, empty when absent.
pub open spec fn text_or_empty(o: Option<String>) -> Seq<char> {
    match o {
        Some(s) => s@,
        None => Seq::empty(),
    }
}

/// An optional text, the unknown marker when absent.
pub open spec fn text_or_unknown(o: Option<String>) -> Seq<char> {
    match o {
        Some(s) => s@,
        None => unknown_text(),
    }
}

/// Cluster keys joined with commas.
pub open spec fn joined_keys(keys: Seq<Seq<char>>) -> Seq<char>
    decreases keys.len(),
{
    if keys.len() == 0 {
        Seq::empty()
    } else if keys.len() == 1 {
        keys[0]
    } else {
        joined_keys(keys.drop_last()) + seq![','] + keys.last()
    }
}

/// Relies on `String::push_str`: appends `s` to `text`.
#[verifier::external_body]
pub(crate) fn append_text(text: &mut String, s: &str)
    ensures
        final(text)@ == old(text)@ + s@,
{
    text.push_str(s)
}

/// Joins cluster keys with commas.
pub fn join_keys(keys: &Vec<String>) -> (r: String)
    ensures
        r@ == joined_keys(texts_view(keys@)),
{
    let mut out = String::new();
    let mut i: usize = 0;
    proof {
        reveal_strlit(",");
        assert(texts_view(keys@).take(0) =~= Seq::<Seq<char>>::empty());
    }
    while i < keys.len()
        invariant
            i <= keys.len(),
            out@ == joined_keys(texts_view(keys@).take(i as int)),
        decreases keys.len() - i,
    {
        let ghost ks = texts_view(keys@);
        let ghost before = out@;
        if i > 0 {
            append_text(&mut out, ",");
        }
        append_text(&mut out, keys[i].as_str());
        proof {
            reveal_strlit(",");
            assert(ks[i as int] == keys@[i as int]@);
            assert(ks.take(i + 1).drop_last() =~= ks.take(i as int));
            assert(ks.take(i + 1).last() == ks[i as int]);
            if i == 0 {
                assert(before =~= Seq::<char>::empty());
                assert(out@ =~= ks.take(1)[0]);
            } else {
                assert(out@ =~= before + seq![','] + ks[i as int]);
            }
        }
        i = i + 1;
    }
    proof {
        assert(texts_view(keys@).take(keys.len() as int) =~= texts_view(keys@));
    }
    out
}

/// Whether `d` is kept under `state`; an absent status counts as empty.
pub open spec fn deployment_kept(state: Option<DeploymentState>, d: DescribedDeployment) -> bool {
    state_includes(state, text_or_empty(d.status), d.running_count, d.desired_count, d.failed_tasks)
}

/// A primary deployment that runs all it wants is finished and not in
/// progress; one that runs fewer or more than it wants, with failed tasks,
/// is failing.
pub proof fn lemma_state_filters(status: Seq<char>, running: i32, desired: i32, failed: i32)
    ensures
        status == primary_status() && running == desired ==> state_includes(
            Some(DeploymentState::Finished),
            status,
            running,
            desired,
            failed,
        ) && !state_includes(Some(DeploymentState::InProgress), status, running, desired, failed),
        running != desired && failed > 0 ==> state_includes(
            Some(DeploymentState::Failing),
            status,
            running,
            desired,
            failed,
        ),
        state_includes(None, status, running, desired, failed),
        state_includes(Some(DeploymentState::Finished), status, running, desired, failed)
            != state_includes(Some(DeploymentState::InProgress), status, running, desired, failed),
{
}

/// The records of a batch come out in order of service name and keys, and
/// sorting them again changes nothing.
pub proof fn lemma_batch_order(
    clusters: Seq<ClusterConfig>,
    outcomes: Seq<ClusterOutcome>,
    state: Option<DeploymentState>,
)
    ensures
        crate::sort::sorted_by_key::<DeploymentDetails>(
            key_sorted::<DeploymentDetails>(batch_records(clusters, outcomes, state)),
        ),
        key_sorted::<DeploymentDetails>(
            key_sorted::<DeploymentDetails>(batch_records(clusters, outcomes, state)),
        ) == key_sorted::<DeploymentDetails>(batch_records(clusters, outcomes, state)),
        crate::sort::sorted_by_key::<DeploymentError>(
            key_sorted::<DeploymentError>(batch_failures(clusters, outcomes)),
        ),
        key_sorted::<DeploymentError>(key_sorted::<DeploymentError>(batch_failures(clusters, outcomes)))
            == key_sorted::<DeploymentError>(batch_failures(clusters, outcomes)),
{
    crate::sort::lemma_key_sorted_idempotent::<DeploymentDetails>(
        batch_records(clusters, outcomes, state),
    );
    crate::sort::lemma_key_sorted_idempotent::<DeploymentError>(batch_failures(clusters, outcomes));
}

/// Decides whether a deployment is kept under the requested state.
pub fn deployment_included(state: Option<DeploymentState>, d: &DescribedDeployment) -> (r: bool)
    ensures
        r == deployment_kept(state, *d),
{
    proof {
        reveal_strlit("PRIMARY");
        assert("PRIMARY"@ =~= primary_status());
    }
    let primary = match &d.status {
        Some(s) => crate::config::same_text(s.as_str(), "PRIMARY"),
        None => false,
    };
    proof {
        if d.status is None {
            assert(Seq::<char>::empty().len() != primary_status().len());
        }
    }
    match state {
        Some(DeploymentState::Finished) => primary && d.running_count == d.desired_count,
        Some(DeploymentState::InProgress) => !primary || d.running_count != d.desired_count,
        Some(DeploymentState::Failing) => d.running_count != d.desired_count && d.failed_tasks
            != 0,
        None => true,
    }
}

/// The record of deployment `d` of `service` in `cluster`.
pub open spec fn deployment_record(
    cluster: ClusterConfig,
    service: DescribedService,
    d: DescribedDeployment,
) -> DeploymentView {
    DeploymentView {
        service_name: text_or_unknown(service.service_name),
        keys: joined_keys(texts_view(cluster.keys@)),
        cluster_arn: cluster.arn@,
        deployment_id: text_or_unknown(d.id),
        status: text_or_unknown(d.status),
        running_count: d.running_count,
        desired_count: d.desired_count,
        pending_count: d.pending_count,
        failed_count: d.failed_tasks,
    }
}

/// The records of the deployments among `deps` that `state` keeps, in order.
pub open spec fn service_records(
    cluster: ClusterConfig,
    service: DescribedService,
    deps: Seq<DescribedDeployment>,
    state: Option<DeploymentState>,
) -> Seq<DeploymentView>
    decreases deps.len(),
{
    if deps.len() == 0 {
        Seq::empty()
    } else {
        let rest = service_records(cluster, service, deps.drop_last(), state);
        if deployment_kept(state, deps.last()) {
            rest.push(deployment_record(cluster, service, deps.last()))
        } else {
            rest
        }
    }
}

/// The records of every kept deployment of `services`, service by service.
pub open spec fn cluster_records(
    cluster: ClusterConfig,
    services: Seq<DescribedService>,
    state: Option<DeploymentState>,
) -> Seq<DeploymentView>
    decreases services.len(),
{
    if services.len() == 0 {
        Seq::empty()
    } else {
        cluster_records(cluster, services.drop_last(), state) + service_records(
            cluster,
            services.last(),
            services.last().deployments@,
            state,
        )
    }
}

/// The marker for a missing value.
fn unknown_string() -> (r: String)
    ensures
        r@ == unknown_text(),
{
    proof {
        reveal_strlit("<unknown>");
    }
    let r = "<unknown>".to_owned();
    proof {
        assert(r@ =~= unknown_text());
    }
    r
}

fn text_or_unknown_string(o: &Option<String>) -> (r: String)
    ensures
        r@ == text_or_unknown(*o),
{
    match o {
        Some(s) => s.clone(),
        None => unknown_string(),
    }
}

/// The records of the deployments of one described service that `state` keeps.
fn deployments_of_service(
    cluster: &ClusterConfig,
    keys: &String,
    service: &DescribedService,
    state: Option<DeploymentState>,
) -> (r: Vec<DeploymentDetails>)
    requires
        keys@ == joined_keys(texts_view(cluster.keys@)),
    ensures
        views(r@) == service_records(*cluster, *service, service.deployments@, state),
{
    let mut out: Vec<DeploymentDetails> = Vec::new();
    let mut i: usize = 0;
    proof {
        assert(service.deployments@.take(0) =~= Seq::<DescribedDeployment>::empty());
        assert(views(out@) =~= Seq::<DeploymentView>::empty());
    }
    while i < service.deployments.len()
        invariant
            i <= service.deployments.len(),
            keys@ == joined_keys(texts_view(cluster.keys@)),
            views(out@) == service_records(
                *cluster,
                *service,
                service.deployments@.take(i as int),
                state,
            ),
        decreases service.deployments.len() - i,
    {
        let d = &service.deployments[i];
        let ghost before = out@;
        proof {
            assert(service.deployments@.take(i + 1).drop_last() =~= service.deployments@.take(
                i as int,
            ));
        }
        if deployment_included(state, d) {
            let record = DeploymentDetails {
                service_name: text_or_unknown_string(&service.service_name),
                keys: keys.clone(),
                cluster_arn: cluster.arn.clone(),
                deployment_id: text_or_unknown_string(&d.id),
                status: text_or_unknown_string(&d.status),
                running_count: d.running_count,
                desired_count: d.desired_count,
                pending_count: d.pending_count,
                failed_count: d.failed_tasks,
            };
            out.push(record);
            proof {
                assert(views(out@) =~= views(before).push(record@));
            }
        }
        i = i + 1;
    }
    proof {
        assert(service.deployments@.take(i as int) =~= service.deployments@);
    }
    out
}

/// The records of the kept deployments of every service that a cluster's
/// query described.
pub fn deployments_of_cluster(
    cluster: &ClusterConfig,
    services: &Vec<DescribedService>,
    state: Option<DeploymentState>,
) -> (r: Vec<DeploymentDetails>)
    ensures
        views(r@) == cluster_records(*cluster, services@, state),
{
    let keys = join_keys(&cluster.keys);
    let mut out: Vec<DeploymentDetails> = Vec::new();
    let mut i: usize = 0;
    proof {
        assert(services@.take(0) =~= Seq::<DescribedService>::empty());
        assert(views(out@) =~= Seq::<DeploymentView>::empty());
    }
    while i < services.len()
        invariant
            i <= services.len(),
            keys@ == joined_keys(texts_view(cluster.keys@)),
            views(out@) == cluster_records(*cluster, services@.take(i as int), state),
        decreases services.len() - i,
    {
        let mut more = deployments_of_service(cluster, &keys, &services[i], state);
        let ghost before = out@;
        let ghost added = more@;
        out.append(&mut more);
        proof {
            assert(services@.take(i + 1).drop_last() =~= services@.take(i as int));
            assert(views(out@) =~= views(before) + views(added));
        }
        i = i + 1;
    }
    proof {
        assert(services@.take(i as int) =~= services@);
    }
    out
}

/// One failure record per configured service of `cluster`, each carrying
/// the cluster's error text.
pub open spec fn failure_records(cluster: ClusterConfig, error: Seq<char>) -> Seq<
    DeploymentErrorView,
> {
    Seq::new(
        cluster.services@.len(),
        |i: int|
            DeploymentErrorView {
                service_name: cluster.services@[i]@,
                error: error,
                cluster_arn: cluster.arn@,
                keys: joined_keys(texts_view(cluster.keys@)),
            },
    )
}

/// Shows `value` in a detail pane, or a fixed placeholder when sensitive
/// identifiers are hidden.
pub fn shown_or_redacted(value: &str, redact: bool) -> (r: &str)
    ensures
        r@ == if redact {
            "<REDACTED>"@
        } else {
            value@
        },
{
    if redact {
        "<REDACTED>"
    } else {
        value
    }
}

/// Records a failed cluster query as one failure per configured service.
pub fn failures_of_cluster(cluster: &ClusterConfig, error: &String) -> (r: Vec<DeploymentError>)
    ensures
        views(r@) == failure_records(*cluster, error@),
        r.len() == cluster.services.len(),
        forall|i: int|
            0 <= i < r.len() ==> (#[trigger] r@[i]).error@ == error@ && r@[i].service_name@
                == cluster.services@[i]@,
{
    let keys = join_keys(&cluster.keys);
    let mut out: Vec<DeploymentError> = Vec::new();
    let mut i: usize = 0;
    while i < cluster.services.len()
        invariant
            i <= cluster.services.len(),
            keys@ == joined_keys(texts_view(cluster.keys@)),
            views(out@) == failure_records(*cluster, error@).take(i as int),
        decreases cluster.services.len() - i,
    {
        let ghost before = out@;
        let record = DeploymentError {
            service_name: cluster.services[i].clone(),
            error: error.clone(),
            cluster_arn: cluster.arn.clone(),
            keys: keys.clone(),
        };
        out.push(record);
        proof {
            assert(views(out@) =~= views(before).push(record@));
            assert(record@ == failure_records(*cluster, error@)[i as int]);
            assert(views(out@) =~= failure_records(*cluster, error@).take(i + 1));
        }
        i = i + 1;
    }
    proof {
        assert(failure_records(*cluster, error@).take(i as int) =~= failure_records(
            *cluster,
            error@,
        ));
        assert forall|k: int| 0 <= k < out.len() implies (#[trigger] out@[k]).error@ == error@
            && out@[k].service_name@ == cluster.services@[k]@ by {
            assert(views(out@)[k] == out@[k]@);
        }
    }
    out
}

/// Whether one of `clusters` names credential source `src`.
pub open spec fn source_used(clusters: Seq<ClusterConfig>, src: SourceView) -> bool {
    exists|i: int| 0 <= i < clusters.len() && (#[trigger] clusters[i]).config_source@ == src
}

/// The credential sources that `clusters` name, each once, in the order of
/// first use.
pub fn distinct_sources(clusters: &Vec<ClusterConfig>) -> (r: Vec<ConfigSource>)
    ensures
        forall|i: int| 0 <= i < clusters.len() ==> has_client(r@, (#[trigger] clusters@[i]).config_source@),
        forall|k: int| 0 <= k < r.len() ==> source_used(clusters@, (#[trigger] r@[k])@),
        forall|a: int, b: int| 0 <= a < b < r.len() ==> (#[trigger] r@[a])@ != (#[trigger] r@[b])@,
{
    let mut out: Vec<ConfigSource> = Vec::new();
    let mut i: usize = 0;
    while i < clusters.len()
        invariant
            i <= clusters.len(),
            forall|m: int| 0 <= m < i ==> has_client(out@, (#[trigger] clusters@[m]).config_source@),
            forall|k: int| 0 <= k < out.len() ==> source_used(clusters@, (#[trigger] out@[k])@),
            forall|a: int, b: int| 0 <= a < b < out.len() ==> (#[trigger] out@[a])@ != (#[trigger] out@[b])@,
        decreases clusters.len() - i,
    {
        if !client_registered(&out, &clusters[i].config_source) {
            let src = clusters[i].config_source.clone();
            let ghost before = out@;
            out.push(src);
            proof {
                assert(out@[before.len() as int] == src);
                assert forall|m: int| 0 <= m <= i implies has_client(
                    out@,
                    (#[trigger] clusters@[m]).config_source@,
                ) by {
                    if m < i {
                        let k = choose|k: int|
                            0 <= k < before.len() && (#[trigger] before[k])@ == clusters@[m].config_source@;
                        assert(out@[k] == before[k]);
                    } else {
                        assert(out@[before.len() as int]@ == clusters@[m].config_source@);
                    }
                }
                assert forall|a: int, b: int| 0 <= a < b < out.len() implies (#[trigger] out@[a])@
                    != (#[trigger] out@[b])@ by {
                    if b == before.len() {
                        assert(out@[a] == before[a]);
                        assert(!has_client(before, src@));
                        if out@[a]@ == out@[b]@ {
                            assert(before[a]@ == src@);
                        }
                    } else {
                        assert(out@[a] == before[a] && out@[b] == before[b]);
                    }
                }
                assert forall|k: int| 0 <= k < out.len() implies source_used(
                    clusters@,
                    (#[trigger] out@[k])@,
                ) by {
                    if k < before.len() {
                        assert(out@[k] == before[k]);
                    } else {
                        assert(clusters@[i as int].config_source@ == out@[k]@);
                    }
                }
            }
        }
        i = i + 1;
    }
    out
}

/// Whether a client was built for credential source `src`.
pub open spec fn has_client(registered: Seq<ConfigSource>, src: SourceView) -> bool {
    exists|k: int| 0 <= k < registered.len() && (#[trigger] registered[k])@ == src
}

/// Every cluster can be given a client.
pub open spec fn all_clients_present(clusters: Seq<ClusterConfig>, registered: Seq<ConfigSource>) -> bool {
    forall|i: int| 0 <= i < clusters.len() ==> has_client(registered, (#[trigger] clusters[i]).config_source@)
}

/// Whether `src` is among `registered`.
pub fn client_registered(registered: &Vec<ConfigSource>, src: &ConfigSource) -> (r: bool)
    ensures
        r == has_client(registered@, src@),
{
    let mut k: usize = 0;
    while k < registered.len()
        invariant
            k <= registered.len(),
            forall|m: int| 0 <= m < k ==> (#[trigger] registered@[m])@ != src@,
        decreases registered.len() - k,
    {
        if registered[k].eq(src) {
            return true;
        }
        k = k + 1;
    }
    false
}

/// Checks, before any query, that every cluster's credential source has a
/// client. A batch with a cluster that has none fails as a whole, naming the
/// first such cluster; no cluster of it is queried.
pub fn check_clients(clusters: &Vec<ClusterConfig>, registered: &Vec<ConfigSource>) -> (r: Result<
    (),
    FetchError,
>)
    ensures
        r is Ok <==> all_clients_present(clusters@, registered@),
        r matches Err(FetchError::MissingClient { cluster_index }) ==> cluster_index < clusters.len()
            && !has_client(registered@, clusters@[cluster_index as int].config_source@) && forall|
            i: int,
        | 0 <= i < cluster_index ==> has_client(registered@, (#[trigger] clusters@[i]).config_source@),
{
    let mut i: usize = 0;
    while i < clusters.len()
        invariant
            i <= clusters.len(),
            forall|m: int| 0 <= m < i ==> has_client(registered@, (#[trigger] clusters@[m]).config_source@),
        decreases clusters.len() - i,
    {
        if !client_registered(registered, &clusters[i].config_source) {
            return Err(FetchError::MissingClient { cluster_index: i });
        }
        i = i + 1;
    }
    Ok(())
}

/// The deployment records of a batch, cluster by cluster, before sorting.
pub open spec fn batch_records(
    clusters: Seq<ClusterConfig>,
    outcomes: Seq<ClusterOutcome>,
    state: Option<DeploymentState>,
) -> Seq<DeploymentView>
    decreases clusters.len(),
{
    if clusters.len() == 0 || outcomes.len() != clusters.len() {
        Seq::empty()
    } else {
        batch_records(clusters.drop_last(), outcomes.drop_last(), state) + match outcomes.last() {
            Ok(services) => cluster_records(clusters.last(), services@, state),
            Err(_) => Seq::empty(),
        }
    }
}

/// The failure records of a batch, cluster by cluster, before sorting.
pub open spec fn batch_failures(clusters: Seq<ClusterConfig>, outcomes: Seq<ClusterOutcome>) -> Seq<
    DeploymentErrorView,
>
    decreases clusters.len(),
{
    if clusters.len() == 0 || outcomes.len() != clusters.len() {
        Seq::empty()
    } else {
        batch_failures(clusters.drop_last(), outcomes.drop_last()) + match outcomes.last() {
            Ok(_) => Seq::empty(),
            Err(e) => failure_records(clusters.last(), e@),
        }
    }
}

/// Gathers the outcomes of a batch (one per cluster, in order) into the
/// deployment records that `state` keeps and the per-service failures, both
/// sorted by service name, then keys.
pub fn collect_deployments(
    clusters: &Vec<ClusterConfig>,
    outcomes: &Vec<ClusterOutcome>,
    state: Option<DeploymentState>,
) -> (r: (Vec<DeploymentDetails>, Vec<DeploymentError>))
    requires
        outcomes.len() == clusters.len(),
    ensures
        views(r.0@) == key_sorted::<DeploymentDetails>(batch_records(clusters@, outcomes@, state)),
        views(r.1@) == key_sorted::<DeploymentError>(batch_failures(clusters@, outcomes@)),
{
    let mut deployments: Vec<DeploymentDetails> = Vec::new();
    let mut errors: Vec<DeploymentError> = Vec::new();
    let mut i: usize = 0;
    proof {
        assert(views(deployments@) =~= Seq::<DeploymentView>::empty());
        assert(views(errors@) =~= Seq::<DeploymentErrorView>::empty());
    }
    while i < clusters.len()
        invariant
            i <= clusters.len(),
            outcomes.len() == clusters.len(),
            views(deployments@) == batch_records(
                clusters@.take(i as int),
                outcomes@.take(i as int),
                state,
            ),
            views(errors@) == batch_failures(clusters@.take(i as int), outcomes@.take(i as int)),
        decreases clusters.len() - i,
    {
        let ghost d_before = deployments@;
        let ghost e_before = errors@;
        proof {
            assert(clusters@.take(i + 1).drop_last() =~= clusters@.take(i as int));
            assert(outcomes@.take(i + 1).drop_last() =~= outcomes@.take(i as int));
        }
        match &outcomes[i] {
            Ok(services) => {
                let mut more = deployments_of_cluster(&clusters[i], services, state);
                let ghost added = more@;
                deployments.append(&mut more);
                proof {
                    assert(views(deployments@) =~= views(d_before) + views(added));
                    assert(views(errors@) =~= views(e_before) + Seq::<DeploymentErrorView>::empty());
                }
            },
            Err(error) => {
                let mut more = failures_of_cluster(&clusters[i], error);
                let ghost added = more@;
                errors.append(&mut more);
                proof {
                    assert(views(errors@) =~= views(e_before) + views(added));
                    assert(views(deployments@) =~= views(d_before) + Seq::<DeploymentView>::empty());
                }
            },
        }
        i = i + 1;
    }
    proof {
        assert(clusters@.take(i as int) =~= clusters@);
        assert(outcomes@.take(i as int) =~= outcomes@);
    }
    (sort_by_key(deployments), sort_by_key(errors))
}

/// Counts the queries of a batch that are in flight and refuses to start
/// one more once the ceiling is reached.
pub struct FetchLimiter {
    in_flight: usize,
}

impl FetchLimiter {
    #[verifier::type_invariant]
    spec fn within_ceiling(&self) -> bool {
        self.in_flight <= MAX_CONCURRENT_FETCHES
    }

    /// The number of queries in flight.
    pub closed spec fn count(&self) -> nat {
        self.in_flight as nat
    }

    pub fn new() -> (r: FetchLimiter)
        ensures
            r.count() == 0,
    {
        FetchLimiter { in_flight: 0 }
    }

    /// However many clusters a batch holds, no more than the ceiling of
    /// queries are ever in flight at once.
    pub fn in_flight(&self) -> (r: usize)
        ensures
            r == self.count(),
            r <= MAX_CONCURRENT_FETCHES,
    {
        proof {
            use_type_invariant(self);
        }
        self.in_flight
    }

    /// Takes a permit for one more query when fewer than the ceiling are in
    /// flight.
    pub fn try_acquire(&mut self) -> (r: bool)
        ensures
            r == (old(self).count() < MAX_CONCURRENT_FETCHES),
            final(self).count() == if r {
                old(self).count() + 1
            } else {
                old(self).count()
            },
            final(self).count() <= MAX_CONCURRENT_FETCHES,
    {
        proof {
            use_type_invariant(&*self);
        }
        if self.in_flight < MAX_CONCURRENT_FETCHES {
            self.in_flight = self.in_flight + 1;
            true
        } else {
            false
        }
    }

    /// Gives back the permit of a query that finished; with none in flight
    /// nothing changes.
    pub fn release(&mut self)
        ensures
            final(self).count() == if old(self).count() == 0 {
                0
            } else {
                old(self).count() - 1
            },
            final(self).count() <= MAX_CONCURRENT_FETCHES,
    {
        proof {
            use_type_invariant(&*self);
        }
        if self.in_flight > 0 {
            self.in_flight = self.in_flight - 1;
        }
    }
}

} // verus!
