use vstd::prelude::*;

verus! {

use crate::config::{clone_texts, same_texts, texts_view, ConfigSource, SourceView};

/// One deployment rollout record of a service.
#[derive(Debug, Clone)]
pub struct DeploymentDetails {
    pub service_name: String,
    pub keys: String,
    pub cluster_arn: String,
    pub deployment_id: String,
    pub status: String,
    pub running_count: i32,
    pub desired_count: i32,
    pub pending_count: i32,
    pub failed_count: i32,
}

/// A deployment record as plain values.
pub struct DeploymentView {
    pub service_name: Seq<char>,
    pub keys: Seq<char>,
    pub cluster_arn: Seq<char>,
    pub deployment_id: Seq<char>,
    pub status: Seq<char>,
    pub running_count: i32,
    pub desired_count: i32,
    pub pending_count: i32,
    pub failed_count: i32,
}

impl View for DeploymentDetails {
    type V = DeploymentView;

    open spec fn view(&self) -> DeploymentView {
        DeploymentView {
            service_name: self.service_name@,
            keys: self.keys@,
            cluster_arn: self.cluster_arn@,
            deployment_id: self.deployment_id@,
            status: self.status@,
            running_count: self.running_count,
            desired_count: self.desired_count,
            pending_count: self.pending_count,
            failed_count: self.failed_count,
        }
    }
}

/// A deployment record with the given name, keys and status and counts,
/// the cluster and deployment identifiers left empty.
pub open spec fn sample_deployment(
    name: Seq<char>,
    keys: Seq<char>,
    status: Seq<char>,
    running: i32,
    desired: i32,
    pending: i32,
    failed: i32,
) -> DeploymentView {
    DeploymentView {
        service_name: name,
        keys: keys,
        cluster_arn: Seq::empty(),
        deployment_id: Seq::empty(),
        status: status,
        running_count: running,
        desired_count: desired,
        pending_count: pending,
        failed_count: failed,
    }
}

impl DeploymentDetails {
    fn sample(
        name: &str,
        keys: &str,
        status: &str,
        running: i32,
        desired: i32,
        pending: i32,
        failed: i32,
    ) -> (r: DeploymentDetails)
        ensures
            r@ == sample_deployment(name@, keys@, status@, running, desired, pending, failed),
    {
        proof {
            reveal_strlit("");
        }
        let r = DeploymentDetails {
            service_name: name.to_owned(),
            keys: keys.to_owned(),
            cluster_arn: "".to_owned(),
            deployment_id: "".to_owned(),
            status: status.to_owned(),
            running_count: running,
            desired_count: desired,
            pending_count: pending,
            failed_count: failed,
        };
        proof {
            assert(r.cluster_arn@ =~= Seq::<char>::empty());
            assert(r.deployment_id@ =~= Seq::<char>::empty());
        }
        r
    }

    /// A finished primary deployment: two of two tasks run.
    pub fn dummy_running(name: &str, keys: &str) -> (r: DeploymentDetails)
        ensures
            r@ == sample_deployment(name@, keys@, "PRIMARY"@, 2, 2, 0, 0),
    {
        Self::sample(name, keys, "PRIMARY", 2, 2, 0, 0)
    }

    /// A primary deployment whose two tasks are still pending.
    pub fn dummy_pending(name: &str, keys: &str) -> (r: DeploymentDetails)
        ensures
            r@ == sample_deployment(name@, keys@, "PRIMARY"@, 0, 2, 2, 0),
    {
        Self::sample(name, keys, "PRIMARY", 0, 2, 2, 0)
    }

    /// An active deployment that still runs two tasks it no longer wants.
    pub fn dummy_active(name: &str, keys: &str) -> (r: DeploymentDetails)
        ensures
            r@ == sample_deployment(name@, keys@, "ACTIVE"@, 2, 0, 0, 0),
    {
        Self::sample(name, keys, "ACTIVE", 2, 0, 0, 0)
    }

    /// An active deployment with pending tasks and three failed ones.
    pub fn dummy_failing(name: &str, keys: &str) -> (r: DeploymentDetails)
        ensures
            r@ == sample_deployment(name@, keys@, "ACTIVE"@, 0, 2, 2, 3),
    {
        Self::sample(name, keys, "ACTIVE", 0, 2, 2, 3)
    }

    /// A draining deployment with no tasks.
    pub fn dummy_draining(name: &str, keys: &str) -> (r: DeploymentDetails)
        ensures
            r@ == sample_deployment(name@, keys@, "DRAINING"@, 0, 0, 0, 0),
    {
        Self::sample(name, keys, "DRAINING", 0, 0, 0, 0)
    }
}

/// A deployment query that failed for one service.
#[derive(Debug, Clone)]
pub struct DeploymentError {
    pub service_name: String,
    pub error: String,
    pub cluster_arn: String,
    pub keys: String,
}

/// A deployment failure as plain values.
pub struct DeploymentErrorView {
    pub service_name: Seq<char>,
    pub error: Seq<char>,
    pub cluster_arn: Seq<char>,
    pub keys: Seq<char>,
}

impl View for DeploymentError {
    type V = DeploymentErrorView;

    open spec fn view(&self) -> DeploymentErrorView {
        DeploymentErrorView {
            service_name: self.service_name@,
            error: self.error@,
            cluster_arn: self.cluster_arn@,
            keys: self.keys@,
        }
    }
}

pub type DeploymentResult = Result<DeploymentDetails, DeploymentError>;

/// A service of a cluster, by name.
#[derive(Debug, Clone)]
pub struct Service {
    pub name: String,
    pub cluster_arn: String,
}

/// A successfully described service.
#[derive(Debug)]
pub struct ServiceDetails {
    pub name: String,
    pub status: String,
    pub desired_count: i32,
    pub running_count: i32,
    pub pending_count: i32,
    pub cluster_keys: Vec<String>,
    pub cluster_arn: String,
    pub config_source: ConfigSource,
}

/// A described service as plain values.
pub struct ServiceView {
    pub name: Seq<char>,
    pub status: Seq<char>,
    pub desired_count: i32,
    pub running_count: i32,
    pub pending_count: i32,
    pub cluster_keys: Seq<Seq<char>>,
    pub cluster_arn: Seq<char>,
    pub config_source: SourceView,
}

impl View for ServiceDetails {
    type V = ServiceView;

    open spec fn view(&self) -> ServiceView {
        ServiceView {
            name: self.name@,
            status: self.status@,
            desired_count: self.desired_count,
            running_count: self.running_count,
            pending_count: self.pending_count,
            cluster_keys: texts_view(self.cluster_keys@),
            cluster_arn: self.cluster_arn@,
            config_source: self.config_source@,
        }
    }
}

/// A service whose query failed.
#[derive(Debug)]
pub struct ServiceError {
    pub service_name: String,
    pub error: String,
    pub cluster_keys: Vec<String>,
}

/// A service failure as plain values.
pub struct ServiceErrorView {
    pub service_name: Seq<char>,
    pub error: Seq<char>,
    pub cluster_keys: Seq<Seq<char>>,
}

impl View for ServiceError {
    type V = ServiceErrorView;

    open spec fn view(&self) -> ServiceErrorView {
        ServiceErrorView {
            service_name: self.service_name@,
            error: self.error@,
            cluster_keys: texts_view(self.cluster_keys@),
        }
    }
}

impl Clone for ServiceDetails {
    fn clone(&self) -> (r: ServiceDetails)
        ensures
            r@ == self@,
    {
        ServiceDetails {
            name: self.name.clone(),
            status: self.status.clone(),
            desired_count: self.desired_count,
            running_count: self.running_count,
            pending_count: self.pending_count,
            cluster_keys: clone_texts(&self.cluster_keys),
            cluster_arn: self.cluster_arn.clone(),
            config_source: self.config_source.clone(),
        }
    }
}

impl ServiceDetails {
    /// Whether the service is not yet running all it wants, or has tasks
    /// pending.
    pub fn has_pending_work(&self) -> (r: bool)
        ensures
            r == (self.desired_count != self.running_count || self.pending_count != 0),
    {
        self.desired_count != self.running_count || self.pending_count != 0
    }

    /// Whether two described services are the same in every field.
    pub fn same_as(&self, other: &ServiceDetails) -> (r: bool)
        ensures
            r == (self@ == other@),
    {
        crate::config::same_text(self.name.as_str(), other.name.as_str())
            && crate::config::same_text(self.status.as_str(), other.status.as_str())
            && self.desired_count == other.desired_count && self.running_count
            == other.running_count && self.pending_count == other.pending_count && same_texts(
            &self.cluster_keys,
            &other.cluster_keys,
        ) && crate::config::same_text(self.cluster_arn.as_str(), other.cluster_arn.as_str())
            && self.config_source.eq(&other.config_source)
    }
}

impl Clone for ServiceError {
    fn clone(&self) -> (r: ServiceError)
        ensures
            r@ == self@,
    {
        ServiceError {
            service_name: self.service_name.clone(),
            error: self.error.clone(),
            cluster_keys: clone_texts(&self.cluster_keys),
        }
    }
}

pub type ServiceResult = Result<ServiceDetails, ServiceError>;

/// Copies a service result.
pub fn clone_service_result(r: &ServiceResult) -> (c: ServiceResult)
    ensures
        service_result_view(c) == service_result_view(*r),
{
    match r {
        Ok(d) => Ok(d.clone()),
        Err(e) => Err(e.clone()),
    }
}

/// A service result as plain values.
pub open spec fn service_result_view(r: ServiceResult) -> Result<ServiceView, ServiceErrorView> {
    match r {
        Ok(d) => Ok(d@),
        Err(e) => Err(e@),
    }
}

pub open spec fn primary_status() -> Seq<char> {
    seq!['P', 'R', 'I', 'M', 'A', 'R', 'Y']
}

/// Which deployments a batch query keeps.
#[derive(Clone, Copy, Debug, PartialEq, Eq, Structural)]
pub enum DeploymentState {
    /// The deployment is primary and runs all the tasks it wants.
    Finished,
    /// The deployment is not primary, or not all its tasks run.
    InProgress,
    /// Not all tasks run and some have failed.
    Failing,
}

impl DeploymentState {
    /// The name of the state as a command line spells it.
    pub fn as_str(&self) -> (r: &'static str) {
        match self {
            DeploymentState::Finished => "finished",
            DeploymentState::InProgress => "in-progress",
            DeploymentState::Failing => "failing",
        }
    }
}

/// Whether a deployment with these values is kept under `state`
/// (every deployment is kept when no state is given).
pub open spec fn state_includes(
    state: Option<DeploymentState>,
    status: Seq<char>,
    running: i32,
    desired: i32,
    failed: i32,
) -> bool {
    match state {
        Some(DeploymentState::Finished) => status == primary_status() && running == desired,
        Some(DeploymentState::InProgress) => status != primary_status() || running != desired,
        Some(DeploymentState::Failing) => running != desired && failed != 0,
        None => true,
    }
}

/// How batch results are written out.
#[derive(Clone, Copy, Debug, PartialEq, Eq, Structural)]
pub enum OutputFormat {
    /// Delimited output
    Delimited,
    /// JSON output
    Json,
    /// Plain output
    Plain,
}

impl OutputFormat {
    pub fn as_str(&self) -> (r: &'static str) {
        match self {
            OutputFormat::Plain => "plain",
            OutputFormat::Json => "json",
            OutputFormat::Delimited => "delimited",
        }
    }
}

/// Where batch results go.
#[derive(Clone, Copy, Debug, PartialEq, Eq, Structural)]
pub enum OutputMode {
    /// Default one time output to stdout
    Default,
    /// Web view
    Web,
}

impl OutputMode {
    pub fn as_str(&self) -> (r: &'static str) {
        match self {
            OutputMode::Default => "default",
            OutputMode::Web => "web",
        }
    }
}

/// Whether static assets are served from the build or from disk.
#[derive(Clone, Copy, Debug, PartialEq, Eq, Structural)]
pub enum Environment {
    Dev,
    Prod,
}

/// The environment that a flag value selects: `1` is development.
pub fn environment_from_flag(value: &str) -> (r: Environment)
    ensures
        r == (if value@ == seq!['1'] {
            Environment::Dev
        } else {
            Environment::Prod
        }),
{
    proof {
        reveal_strlit("1");
        assert("1"@ =~= seq!['1']);
    }
    if crate::config::same_text(value, "1") {
        Environment::Dev
    } else {
        Environment::Prod
    }
}

} // verus!
