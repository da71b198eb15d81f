use parsec::cloud::aws::{
    aws_deploy, aws_region, aws_regions, lambda_log_group, lambda_service, map_ec2_state, map_eks_status,
    map_function_state, map_stack_status, s3_service, service_logs, ClusterStatus, FunctionState, StackStatus,
};
use parsec::cloud::azure::AzureProvider;
use parsec::cloud::docker::{container_filters, container_from_summary, container_name, created_millis, tar_entry_path};
use parsec::cloud::gcp::GCPProvider;
use parsec::cloud::kubernetes::{app_labels, container_from_spec, deployment_status, log_tail, namespace_or_default};
use parsec::cloud::provider::{current_environment, hypervisor_is_ec2, CloudCredentials, CloudEnvironment};
use parsec::cloud::serverless::ServerlessManager;
use parsec::cloud::{
    find_service, join_path, tag_map, CloudConfig, CloudError, CloudProviderType, CloudService, ProviderRegistry,
    ServiceStatus, ServiceType,
};
use parsec::strmap::StrMap;

fn config() -> CloudConfig {
    CloudConfig::from_environment(None, Some("proj".to_string()), None, Some("/home/u"), Some("/data"))
}

fn service(name: &str) -> CloudService {
    CloudService {
        name: name.to_string(),
        provider: CloudProviderType::GCP,
        service_type: ServiceType::Compute,
        region: "r".to_string(),
        status: ServiceStatus::Running,
        url: None,
        created_at: 0,
        updated_at: 0,
        tags: StrMap::new(),
    }
}

#[test]
fn join_path_adds_one_separator() {
    assert_eq!(join_path("/home/u", ".kube/config"), "/home/u/.kube/config");
    assert_eq!(join_path("/home/u/", "x"), "/home/u/x");
    assert_eq!(join_path("", "x"), "x");
}

#[test]
fn default_config_from_environment() {
    let c = config();
    assert_eq!(c.kubeconfig_path.as_deref(), Some("/home/u/.kube/config"));
    assert_eq!(c.cache_dir, "/data/parsec/cloud/cache");
    assert_eq!(c.timeout_seconds, 30);
    let d = CloudConfig::from_environment(None, None, None, None, None);
    assert_eq!(d.cache_dir, "./parsec/cloud/cache");
    assert!(d.kubeconfig_path.is_none());
}

#[test]
fn find_service_takes_the_first_of_a_name() {
    let mut a = service("api");
    a.region = "first".to_string();
    let mut b = service("api");
    b.region = "second".to_string();
    let found = find_service(vec![service("db"), a, b], "api").unwrap();
    assert_eq!(found.region, "first");
    assert!(find_service(vec![service("db")], "api").is_none());
}

#[test]
fn tags_need_key_and_value() {
    let m = tag_map(vec![
        (Some("env".to_string()), Some("dev".to_string())),
        (Some("lonely".to_string()), None),
        (Some("env".to_string()), Some("prod".to_string())),
    ]);
    assert_eq!(m.len(), 1);
    assert_eq!(m.get("env").unwrap(), "prod");
}

#[test]
fn provider_registry_routes_deployments() {
    let mut r = ProviderRegistry::new();
    match r.deploy_target() {
        Err(CloudError(m)) => assert_eq!(m, "No active provider"),
        Ok(_) => panic!("expected an error"),
    }
    r.register_provider("AWS", CloudProviderType::AWS);
    match r.set_active_provider("GCP") {
        Err(CloudError(m)) => assert_eq!(m, "Provider not found: GCP"),
        Ok(()) => panic!("expected an error"),
    }
    r.set_active_provider("AWS").unwrap();
    assert_eq!(r.deploy_target().unwrap(), "AWS");
    assert_eq!(r.list_providers(), vec!["AWS".to_string()]);
}

#[test]
fn credentials_reach() {
    let mut c = CloudCredentials::default();
    assert!(!c.has_aws() && !c.has_azure() && !c.has_gcp());
    c.aws_access_key = Some("k".to_string());
    assert!(!c.has_aws());
    c.aws_secret_key = Some("s".to_string());
    assert!(c.has_aws());
    let e = CloudCredentials::from_env_values(None, None, Some("t".to_string()), Some("s".to_string()), None);
    assert!(e.has_azure());
}

#[test]
fn environment_probes_in_order() {
    assert!(hypervisor_is_ec2("EC2abcd"));
    assert!(!hypervisor_is_ec2("xen"));
    assert_eq!(current_environment(Some("ec2-1"), true, true), Some(CloudEnvironment::AWS));
    assert_eq!(current_environment(Some("other"), true, false), Some(CloudEnvironment::Azure));
    assert_eq!(current_environment(None, false, true), Some(CloudEnvironment::GCP));
    assert_eq!(current_environment(None, false, false), None);
}

#[test]
fn aws_state_mappings() {
    assert!(matches!(map_ec2_state(Some("running")), ServiceStatus::Running));
    assert!(matches!(map_ec2_state(Some("stopping")), ServiceStatus::Stopped));
    match map_ec2_state(Some("terminated")) {
        ServiceStatus::Failed(m) => assert_eq!(m, "Terminated"),
        _ => panic!("expected a failure"),
    }
    assert!(matches!(map_ec2_state(None), ServiceStatus::Unknown));
    assert!(matches!(map_function_state(Some(FunctionState::Pending)), ServiceStatus::Creating));
    assert!(matches!(map_eks_status(Some(ClusterStatus::Deleting)), ServiceStatus::Deleting));
    match map_stack_status(Some(StackStatus::RollbackComplete)) {
        ServiceStatus::Failed(m) => assert_eq!(m, "Rollback"),
        _ => panic!("expected a failure"),
    }
    assert_eq!(aws_regions().len(), 8);
    assert_eq!(aws_region(&config()), "us-east-1");
    assert_eq!(lambda_log_group("f"), "/aws/lambda/f");
}

#[test]
fn aws_deploy_by_service_type() {
    let d = aws_deploy(&ServiceType::Serverless, "fn1", "eu-west-1", 12).unwrap();
    assert_eq!(d.service_url.as_deref(), Some("https://fn1.lambda-url.eu-west-1.on.aws"));
    assert_eq!(d.deployment_id.len(), 36);
    assert_eq!(d.logs, vec!["Deployment successful".to_string()]);
    match aws_deploy(&ServiceType::Compute, "x", "r", 0) {
        Err(CloudError(m)) => assert_eq!(m, "EC2 deployment not yet implemented"),
        Ok(_) => panic!("expected an error"),
    }
    match aws_deploy(&ServiceType::Database, "x", "r", 0) {
        Err(CloudError(m)) => assert_eq!(m, "Unsupported service type for AWS"),
        Ok(_) => panic!("expected an error"),
    }
}

#[test]
fn aws_logs_fall_back() {
    assert_eq!(service_logs("s", Some(vec!["a".to_string()]), None).unwrap(), vec!["a".to_string()]);
    assert_eq!(service_logs("s", None, Some(vec!["b".to_string()])).unwrap(), vec!["b".to_string()]);
    match service_logs("s", None, None) {
        Err(CloudError(m)) => assert_eq!(m, "No logs found for service: s"),
        Ok(_) => panic!("expected an error"),
    }
}

#[test]
fn aws_services_from_listings() {
    let l = lambda_service(Some("f".to_string()), "r", Some(FunctionState::Active), None,
        Some("2024-01-02T03:04:05Z"), 99);
    assert_eq!(l.created_at, 1_704_164_645_000);
    assert_eq!(l.updated_at, 99);
    let bad = lambda_service(None, "r", None, None, Some("not a date"), 7);
    assert_eq!(bad.created_at, 7);
    assert_eq!(bad.name, "");
    let s = s3_service(Some("bucket".to_string()), "r", 1);
    assert_eq!(s.url.as_deref(), Some("s3://bucket/"));
}

#[test]
fn docker_names_and_times() {
    assert_eq!(container_name(&vec!["//web".to_string(), "other".to_string()]), "web");
    assert_eq!(container_name(&vec![]), "");
    assert_eq!(created_millis(10, 5), 10_000);
    assert_eq!(tar_entry_path("", "a"), "a");
    assert_eq!(tar_entry_path("d", "a"), "d/a");
    assert_eq!(container_filters(true).len(), 0);
    assert_eq!(container_filters(false)[0].1, vec!["running".to_string()]);
    let c = container_from_summary(None, vec!["/n".to_string()], None, None, None, vec![], Some(2), 0);
    assert_eq!(c.name, "n");
    assert_eq!(c.created, 2000);
}

#[test]
fn kubernetes_decisions() {
    assert_eq!(namespace_or_default(None), "default");
    assert_eq!(namespace_or_default(Some("kube-system")), "kube-system");
    assert_eq!(deployment_status(Some((Some(2), Some(2)))), "Running");
    assert_eq!(deployment_status(Some((Some(1), Some(2)))), "Pending");
    assert_eq!(deployment_status(None), "Unknown");
    assert_eq!(app_labels("web").get("app").unwrap(), "web");
    assert_eq!(log_tail("a\nb\nc\n", 2), vec!["a".to_string(), "b".to_string()]);
    assert_eq!(log_tail("a", 5), vec!["a".to_string()]);
    let c = container_from_spec("c".to_string(), None);
    assert_eq!(c.state, "unknown");
    assert!(!c.ready);
}

#[test]
fn gcp_and_azure_answers() {
    let g = GCPProvider::new(config()).unwrap();
    assert_eq!(g.project_id, "proj");
    assert!(g.is_configured());
    assert_eq!(g.get_regions().unwrap().len(), 5);
    assert!(g.get_service("x").unwrap().is_none());
    match g.deploy() {
        Err(CloudError(m)) => assert_eq!(m, "GCP deployment not yet implemented"),
        Ok(_) => panic!("expected an error"),
    }
    let a = AzureProvider::new(config());
    assert!(!a.is_configured());
    assert_eq!(a.region, "eastus");
    assert_eq!(a.get_regions().unwrap().len(), 8);
}

#[test]
fn serverless_conversions() {
    let m = ServerlessManager::new(config()).unwrap();
    let f = m.aws_function(Some("f".to_string()), None, None, None, None, None, None, 5);
    assert_eq!(f.memory_mb, 128);
    assert_eq!(f.timeout_secs, 3);
    assert_eq!(f.status, "Active");
    assert_eq!(f.last_modified, 5);
    let s = m.to_cloud_service(&f);
    assert_eq!(s.name, "f");
    assert!(matches!(s.status, ServiceStatus::Running));
    assert_eq!(m.execution_role(), "arn:aws:iam::YOUR_ACCOUNT_ID:role/lambda-execution-role");
}

#[test]
fn all_services_skip_failed_providers() {
    let r = ProviderRegistry::new();
    let replies = vec![
        Ok(vec![service("a"), service("b")]),
        Err(CloudError("down".to_string())),
        Ok(vec![service("c")]),
    ];
    let names: Vec<String> = r.list_all_services(replies).unwrap().into_iter().map(|s| s.name).collect();
    assert_eq!(names, vec!["a", "b", "c"]);
    assert!(r.list_all_services(vec![]).unwrap().is_empty());
}
