//! AWS: what the provider decides around the SDK calls. The states the SDK
//! reports are given here as enums of their own; the SDK clients are outside
//! the library.
use vstd::prelude::*;
use crate::cloud::{tag_map, tags_of, CloudConfig, CloudError, CloudProviderType, CloudService, DeploymentResult, ServiceStatus, ServiceType, StatusView};
use crate::stamp::{parse_rfc3339_millis, rfc3339_millis};
use crate::strmap::StrMap;
use crate::stamp::{is_hyphenated_uuid, new_uuid};
use crate::text::{concat2, owned, str_eq, views};

verus! {

/// The region the provider works in: the configured one, or "us-east-1".
pub fn aws_region(config: &CloudConfig) -> (r: String)
    ensures
        r@ == (match config.aws_region {
            Some(x) => x@,
            None => "us-east-1"@,
        }),
{
    match &config.aws_region {
        Some(x) => x.clone(),
        None => owned("us-east-1"),
    }
}

/// The regions the provider offers.
pub open spec fn aws_region_names() -> Seq<Seq<char>> {
    seq!["us-east-1"@, "us-east-2"@, "us-west-1"@, "us-west-2"@, "eu-west-1"@, "eu-central-1"@,
        "ap-southeast-1"@, "ap-northeast-1"@]
}

/// The regions the provider offers.
pub fn aws_regions() -> (r: Vec<String>)
    ensures views(r@) == aws_region_names(),
{
    let r = vec![
        owned("us-east-1"),
        owned("us-east-2"),
        owned("us-west-1"),
        owned("us-west-2"),
        owned("eu-west-1"),
        owned("eu-central-1"),
        owned("ap-southeast-1"),
        owned("ap-northeast-1"),
    ];
    assert(views(r@) =~= aws_region_names());
    r
}

/// The status of an EC2 instance from the name of its state.
pub open spec fn ec2_status(state: Option<Seq<char>>) -> StatusView {
    match state {
        Some(s) => if s == "running"@ {
            StatusView::Running
        } else if s == "pending"@ {
            StatusView::Creating
        } else if s == "stopping"@ || s == "stopped"@ {
            StatusView::Stopped
        } else if s == "terminated"@ {
            StatusView::Failed("Terminated"@)
        } else {
            StatusView::Unknown
        },
        None => StatusView::Unknown,
    }
}

/// The status of an EC2 instance; see `ec2_status`.
pub fn map_ec2_state(state: Option<&str>) -> (r: ServiceStatus)
    ensures
        r@ == ec2_status(match state {
            Some(s) => Some(s@),
            None => None,
        }),
{
    match state {
        Some(s) => {
            if str_eq(s, "running") {
                ServiceStatus::Running
            } else if str_eq(s, "pending") {
                ServiceStatus::Creating
            } else if str_eq(s, "stopping") || str_eq(s, "stopped") {
                ServiceStatus::Stopped
            } else if str_eq(s, "terminated") {
                ServiceStatus::Failed(owned("Terminated"))
            } else {
                ServiceStatus::Unknown
            }
        },
        None => ServiceStatus::Unknown,
    }
}

/// The state of a Lambda function as the SDK reports it.
#[derive(Debug, Clone, Copy, PartialEq, Eq, Structural)]
pub enum FunctionState {
    Active,
    Pending,
    Inactive,
    Failed,
    Other,
}

/// The status of a Lambda function in a given state.
pub open spec fn function_status(state: Option<FunctionState>) -> StatusView {
    match state {
        Some(FunctionState::Active) => StatusView::Running,
        Some(FunctionState::Pending) => StatusView::Creating,
        Some(FunctionState::Inactive) => StatusView::Stopped,
        Some(FunctionState::Failed) => StatusView::Failed("Failed"@),
        _ => StatusView::Unknown,
    }
}

/// The status of a Lambda function: active runs, pending is being created,
/// inactive is stopped, failed failed; any other state is unknown.
pub fn map_function_state(state: Option<FunctionState>) -> (r: ServiceStatus)
    ensures
        r@ == function_status(state),
{
    match state {
        Some(FunctionState::Active) => ServiceStatus::Running,
        Some(FunctionState::Pending) => ServiceStatus::Creating,
        Some(FunctionState::Inactive) => ServiceStatus::Stopped,
        Some(FunctionState::Failed) => ServiceStatus::Failed(owned("Failed")),
        _ => ServiceStatus::Unknown,
    }
}

/// The status of an EKS cluster as the SDK reports it.
#[derive(Debug, Clone, Copy, PartialEq, Eq, Structural)]
pub enum ClusterStatus {
    Active,
    Creating,
    Deleting,
    Failed,
    Updating,
    Other,
}

/// The status of an EKS cluster in a given state.
pub open spec fn cluster_status(status: Option<ClusterStatus>) -> StatusView {
    match status {
        Some(ClusterStatus::Active) => StatusView::Running,
        Some(ClusterStatus::Creating) => StatusView::Creating,
        Some(ClusterStatus::Deleting) => StatusView::Deleting,
        Some(ClusterStatus::Failed) => StatusView::Failed("Failed"@),
        Some(ClusterStatus::Updating) => StatusView::Updating,
        _ => StatusView::Unknown,
    }
}

/// The status of an EKS cluster.
pub fn map_eks_status(status: Option<ClusterStatus>) -> (r: ServiceStatus)
    ensures
        r@ == cluster_status(status),
{
    match status {
        Some(ClusterStatus::Active) => ServiceStatus::Running,
        Some(ClusterStatus::Creating) => ServiceStatus::Creating,
        Some(ClusterStatus::Deleting) => ServiceStatus::Deleting,
        Some(ClusterStatus::Failed) => ServiceStatus::Failed(owned("Failed")),
        Some(ClusterStatus::Updating) => ServiceStatus::Updating,
        _ => ServiceStatus::Unknown,
    }
}

/// The status of a CloudFormation stack as the SDK reports it.
#[derive(Debug, Clone, Copy, PartialEq, Eq, Structural)]
pub enum StackStatus {
    CreateComplete,
    CreateInProgress,
    DeleteComplete,
    DeleteFailed,
    UpdateComplete,
    UpdateInProgress,
    RollbackComplete,
    Other,
}

/// The status of a CloudFormation stack in a given state.
pub open spec fn stack_status(status: Option<StackStatus>) -> StatusView {
    match status {
        Some(StackStatus::CreateComplete) => StatusView::Running,
        Some(StackStatus::CreateInProgress) => StatusView::Creating,
        Some(StackStatus::DeleteComplete) => StatusView::Stopped,
        Some(StackStatus::DeleteFailed) => StatusView::Failed("Delete failed"@),
        Some(StackStatus::UpdateComplete) => StatusView::Running,
        Some(StackStatus::UpdateInProgress) => StatusView::Updating,
        Some(StackStatus::RollbackComplete) => StatusView::Failed("Rollback"@),
        _ => StatusView::Unknown,
    }
}

/// The status of a CloudFormation stack.
pub fn map_stack_status(status: Option<StackStatus>) -> (r: ServiceStatus)
    ensures
        r@ == stack_status(status),
{
    match status {
        Some(StackStatus::CreateComplete) => ServiceStatus::Running,
        Some(StackStatus::CreateInProgress) => ServiceStatus::Creating,
        Some(StackStatus::DeleteComplete) => ServiceStatus::Stopped,
        Some(StackStatus::DeleteFailed) => ServiceStatus::Failed(owned("Delete failed")),
        Some(StackStatus::UpdateComplete) => ServiceStatus::Running,
        Some(StackStatus::UpdateInProgress) => ServiceStatus::Updating,
        Some(StackStatus::RollbackComplete) => ServiceStatus::Failed(owned("Rollback")),
        _ => ServiceStatus::Unknown,
    }
}

/// The URL of an S3 bucket.
pub fn s3_url(bucket: &str) -> (r: String)
    ensures r@ == "s3://"@ + bucket@ + "/"@,
{
    let a = concat2("s3://", bucket);
    concat2(a.as_str(), "/")
}

/// The log group of a Lambda function.
pub fn lambda_log_group(function: &str) -> (r: String)
    ensures r@ == "/aws/lambda/"@ + function@,
{
    concat2("/aws/lambda/", function)
}

/// The URL a deployed Lambda function answers at.
pub open spec fn lambda_url(name: Seq<char>, region: Seq<char>) -> Seq<char> {
    "https://"@ + name + ".lambda-url."@ + region + ".on.aws"@
}

/// A deployment of `name` to `region` as a service of the given type: a
/// serverless one is a Lambda function, running at its URL under a fresh
/// deployment id; compute, container and storage deployments are refused as
/// not written yet; other types are refused.
pub fn aws_deploy(service_type: &ServiceType, name: &str, region: &str, duration_ms: u64)
    -> (r: Result<DeploymentResult, CloudError>)
    ensures
        match service_type {
            ServiceType::Serverless => r matches Ok(d) && d.service_name@ == name@
                && (d.service_url matches Some(u) && u@ == lambda_url(name@, region@))
                && is_hyphenated_uuid(d.deployment_id@)
                && d.status@ == StatusView::Running
                && views(d.logs@) == seq!["Deployment successful"@]
                && d.duration_ms == duration_ms,
            ServiceType::Compute => r matches Err(CloudError(m)) && m@ == "EC2 deployment not yet implemented"@,
            ServiceType::Container => r matches Err(CloudError(m)) && m@ == "EKS deployment not yet implemented"@,
            ServiceType::Storage => r matches Err(CloudError(m)) && m@ == "S3 deployment not yet implemented"@,
            _ => r matches Err(CloudError(m)) && m@ == "Unsupported service type for AWS"@,
        },
{
    match service_type {
        ServiceType::Serverless => {
            let a = concat2("https://", name);
            let b = concat2(a.as_str(), ".lambda-url.");
            let c = concat2(b.as_str(), region);
            let url = concat2(c.as_str(), ".on.aws");
            let logs = vec![owned("Deployment successful")];
            assert(views(logs@) =~= seq!["Deployment successful"@]);
            Ok(DeploymentResult {
                service_name: owned(name),
                service_url: Some(url),
                deployment_id: new_uuid(),
                status: ServiceStatus::Running,
                logs,
                duration_ms,
            })
        },
        ServiceType::Compute => Err(CloudError(owned("EC2 deployment not yet implemented"))),
        ServiceType::Container => Err(CloudError(owned("EKS deployment not yet implemented"))),
        ServiceType::Storage => Err(CloudError(owned("S3 deployment not yet implemented"))),
        _ => Err(CloudError(owned("Unsupported service type for AWS"))),
    }
}

/// The logs of a service: the Lambda function's when they could be read,
/// else the stack's when they could be read; else none are found.
pub fn service_logs(service: &str, lambda_logs: Option<Vec<String>>, stack_logs: Option<Vec<String>>)
    -> (r: Result<Vec<String>, CloudError>)
    ensures
        match (lambda_logs, stack_logs) {
            (Some(l), _) => r == Ok::<Vec<String>, CloudError>(l),
            (None, Some(s)) => r == Ok::<Vec<String>, CloudError>(s),
            (None, None) => r matches Err(CloudError(m)) && m@ == "No logs found for service: "@ + service@,
        },
{
    match lambda_logs {
        Some(l) => Ok(l),
        None => match stack_logs {
            Some(s) => Ok(s),
            None => Err(CloudError(concat2("No logs found for service: ", service))),
        },
    }
}


fn text_or_empty(o: Option<String>) -> (r: String)
    ensures r@ == opt_text(o),
{
    match o {
        Some(s) => s,
        None => String::new(),
    }
}

/// The text of an optional string, empty when there is none.
pub open spec fn opt_text(o: Option<String>) -> Seq<char> {
    match o {
        Some(s) => s@,
        None => Seq::empty(),
    }
}

/// `s` is an AWS service of the given type in `region`, with no tags unless
/// given, updated `now`.
pub open spec fn aws_service(s: CloudService, region: Seq<char>, now_ms: i64) -> bool {
    &&& s.provider == CloudProviderType::AWS
    &&& s.region@ == region
    &&& s.updated_at == now_ms
    &&& s.tags.wf()
}

/// A Lambda function as a service: a serverless service at its ARN, its
/// status from its state, created when it was last modified (or `now` when
/// that date cannot be read), with no tags.
pub fn lambda_service(name: Option<String>, region: &str, state: Option<FunctionState>, arn: Option<String>,
    last_modified: Option<&str>, now_ms: i64) -> (s: CloudService)
    ensures
        aws_service(s, region@, now_ms),
        s.name@ == opt_text(name),
        s.service_type is Serverless,
        s.status@ == function_status(state),
        s.url == arn,
        s.created_at == (match last_modified {
            Some(t) => match rfc3339_millis(t@) {
                Some(ms) => ms,
                None => now_ms,
            },
            None => now_ms,
        }),
        s.tags@ == Map::<Seq<char>, String>::empty(),
{
    let created_at = match last_modified {
        Some(t) => match parse_rfc3339_millis(t) {
            Some(ms) => ms,
            None => now_ms,
        },
        None => now_ms,
    };
    CloudService {
        name: text_or_empty(name),
        provider: CloudProviderType::AWS,
        service_type: ServiceType::Serverless,
        region: owned(region),
        status: map_function_state(state),
        url: arn,
        created_at,
        updated_at: now_ms,
        tags: StrMap::new(),
    }
}

/// An S3 bucket as a service: running storage at its `s3://` URL, created
/// and updated `now`, with no tags.
pub fn s3_service(name: Option<String>, region: &str, now_ms: i64) -> (s: CloudService)
    ensures
        aws_service(s, region@, now_ms),
        s.name@ == opt_text(name),
        s.service_type is Storage,
        s.status@ == StatusView::Running,
        s.url matches Some(u) && u@ == "s3://"@ + opt_text(name) + "/"@,
        s.created_at == now_ms,
        s.tags@ == Map::<Seq<char>, String>::empty(),
{
    let name = text_or_empty(name);
    let url = s3_url(name.as_str());
    CloudService {
        name,
        provider: CloudProviderType::AWS,
        service_type: ServiceType::Storage,
        region: owned(region),
        status: ServiceStatus::Running,
        url: Some(url),
        created_at: now_ms,
        updated_at: now_ms,
        tags: StrMap::new(),
    }
}

/// An EC2 instance as a service: compute named by its instance id, its
/// status from its state's name, at its public DNS name, with its tags,
/// created and updated `now`.
pub fn ec2_service(instance_id: Option<String>, region: &str, state: Option<&str>, public_dns: Option<String>,
    tags: Vec<(Option<String>, Option<String>)>, now_ms: i64) -> (s: CloudService)
    ensures
        aws_service(s, region@, now_ms),
        s.name@ == opt_text(instance_id),
        s.service_type is Compute,
        s.status@ == ec2_status(match state {
            Some(x) => Some(x@),
            None => None,
        }),
        s.url == public_dns,
        s.created_at == now_ms,
        s.tags@.map_values(|v: String| v@) == tags_of(tags@),
{
    CloudService {
        name: text_or_empty(instance_id),
        provider: CloudProviderType::AWS,
        service_type: ServiceType::Compute,
        region: owned(region),
        status: map_ec2_state(state),
        url: public_dns,
        created_at: now_ms,
        updated_at: now_ms,
        tags: tag_map(tags),
    }
}

/// An EKS cluster as a service: a container service at its endpoint, its
/// status from the cluster's, created and updated `now`, with no tags.
pub fn eks_service(name: String, region: &str, status: Option<ClusterStatus>, endpoint: Option<String>, now_ms: i64)
    -> (s: CloudService)
    ensures
        aws_service(s, region@, now_ms),
        s.name == name,
        s.service_type is Container,
        s.status@ == cluster_status(status),
        s.url == endpoint,
        s.created_at == now_ms,
        s.tags@ == Map::<Seq<char>, String>::empty(),
{
    CloudService {
        name,
        provider: CloudProviderType::AWS,
        service_type: ServiceType::Container,
        region: owned(region),
        status: map_eks_status(status),
        url: endpoint,
        created_at: now_ms,
        updated_at: now_ms,
        tags: StrMap::new(),
    }
}

/// A CloudFormation stack as a service: of the custom type "CloudFormation",
/// its status from the stack's, with no URL, with its tags, created and
/// updated `now`.
pub fn stack_service(name: Option<String>, region: &str, status: Option<StackStatus>,
    tags: Vec<(Option<String>, Option<String>)>, now_ms: i64) -> (s: CloudService)
    ensures
        aws_service(s, region@, now_ms),
        s.name@ == opt_text(name),
        s.service_type matches ServiceType::Custom(t) && t@ == "CloudFormation"@,
        s.status@ == stack_status(status),
        s.url is None,
        s.created_at == now_ms,
        s.tags@.map_values(|v: String| v@) == tags_of(tags@),
{
    CloudService {
        name: text_or_empty(name),
        provider: CloudProviderType::AWS,
        service_type: ServiceType::Custom(owned("CloudFormation")),
        region: owned(region),
        status: map_stack_status(status),
        url: None,
        created_at: now_ms,
        updated_at: now_ms,
        tags: tag_map(tags),
    }
}

} // verus!
