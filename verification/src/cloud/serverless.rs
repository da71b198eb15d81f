//! Serverless functions: functions and deployments as data, and the
//! manager's conversions. Calling the function services is outside the
//! library.
use vstd::prelude::*;
use crate::cloud::{CloudConfig, CloudError, CloudProviderType, CloudService, ServiceStatus, ServiceType, StatusView};
use crate::stamp::{parse_rfc3339_millis, rfc3339_millis};
use crate::strmap::StrMap;
use crate::text::owned;

verus! {

/// A serverless function.
pub struct ServerlessFunction {
    pub name: String,
    pub provider: String,
    pub region: String,
    pub runtime: String,
    pub handler: String,
    pub memory_mb: u32,
    pub timeout_secs: u32,
    pub environment: StrMap<String>,
    pub last_modified: i64,
    pub status: String,
}

/// A deployment of a function.
#[derive(Debug)]
pub struct ServerlessDeployment {
    pub id: String,
    pub function: String,
    pub version: String,
    pub status: String,
    pub logs: Vec<String>,
    pub deployed_at: i64,
}

/// The serverless manager.
pub struct ServerlessManager {
    pub config: CloudConfig,
}

fn text_or_empty(o: Option<String>) -> (r: String)
    ensures
        r@ == (match o {
            Some(s) => s@,
            None => Seq::<char>::empty(),
        }),
{
    match o {
        Some(s) => s,
        None => String::new(),
    }
}

impl ServerlessManager {
    /// A manager for a configuration.
    pub fn new(config: CloudConfig) -> (r: Result<Self, CloudError>)
        ensures r matches Ok(m) && m.config == config,
    {
        Ok(ServerlessManager { config })
    }

    /// A function as a cloud service: a running serverless AWS service in the
    /// function's region, with no URL or tags, created and updated when the
    /// function was last modified.
    pub fn to_cloud_service(&self, func: &ServerlessFunction) -> (s: CloudService)
        ensures
            s.name@ == func.name@,
            s.provider == CloudProviderType::AWS,
            s.service_type is Serverless,
            s.region@ == func.region@,
            s.status@ == StatusView::Running,
            s.url is None,
            s.created_at == func.last_modified && s.updated_at == func.last_modified,
            s.tags.wf() && s.tags@ == Map::<Seq<char>, String>::empty(),
    {
        CloudService {
            name: func.name.clone(),
            provider: CloudProviderType::AWS,
            service_type: ServiceType::Serverless,
            region: func.region.clone(),
            status: ServiceStatus::Running,
            url: None,
            created_at: func.last_modified,
            updated_at: func.last_modified,
            tags: StrMap::new(),
        }
    }

    /// A Lambda function as the SDK lists it: missing texts are empty, the
    /// memory is 128 MB and the timeout 3 seconds when not given, the
    /// environment empty when not given; it is in the configured region (or
    /// none), active, and last modified at its modification date (or `now`
    /// when that date cannot be read).
    pub fn aws_function(&self, name: Option<String>, runtime: Option<String>, handler: Option<String>,
        memory_mb: Option<u32>, timeout_secs: Option<u32>, environment: Option<StrMap<String>>,
        last_modified: Option<&str>, now_ms: i64)
        -> (f: ServerlessFunction)
        requires
            environment matches Some(e) ==> e.wf(),
        ensures
            f.name@ == (match name { Some(s) => s@, None => Seq::<char>::empty() }),
            f.provider@ == "AWS"@,
            f.region@ == (match self.config.aws_region { Some(s) => s@, None => Seq::<char>::empty() }),
            f.runtime@ == (match runtime { Some(s) => s@, None => Seq::<char>::empty() }),
            f.handler@ == (match handler { Some(s) => s@, None => Seq::<char>::empty() }),
            f.memory_mb == (match memory_mb { Some(m) => m, None => 128 }),
            f.timeout_secs == (match timeout_secs { Some(t) => t, None => 3 }),
            f.environment.wf(),
            f.environment@ == (match environment { Some(e) => e@, None => Map::<Seq<char>, String>::empty() }),
            f.last_modified == (match last_modified {
                Some(t) => match rfc3339_millis(t@) {
                    Some(ms) => ms,
                    None => now_ms,
                },
                None => now_ms,
            }),
            f.status@ == "Active"@,
    {
        let region = match &self.config.aws_region {
            Some(r) => r.clone(),
            None => String::new(),
        };
        let environment = match environment {
            Some(e) => e,
            None => StrMap::new(),
        };
        let last_modified = match last_modified {
            Some(t) => match parse_rfc3339_millis(t) {
                Some(ms) => ms,
                None => now_ms,
            },
            None => now_ms,
        };
        ServerlessFunction {
            name: text_or_empty(name),
            provider: owned("AWS"),
            region,
            runtime: text_or_empty(runtime),
            handler: text_or_empty(handler),
            memory_mb: match memory_mb { Some(m) => m, None => 128 },
            timeout_secs: match timeout_secs { Some(t) => t, None => 3 },
            environment,
            last_modified,
            status: owned("Active"),
        }
    }

    /// The role a created function runs as.
    pub fn execution_role(&self) -> (r: String)
        ensures r@ == "arn:aws:iam::YOUR_ACCOUNT_ID:role/lambda-execution-role"@,
    {
        owned("arn:aws:iam::YOUR_ACCOUNT_ID:role/lambda-execution-role")
    }

    /// The deployment of a created function: its ARN and version (empty when
    /// not given), "Created", with no logs.
    pub fn created_deployment(&self, function: &str, function_arn: Option<String>, version: Option<String>,
        deployed_at: i64) -> (d: ServerlessDeployment)
        ensures
            d.id@ == (match function_arn { Some(s) => s@, None => Seq::<char>::empty() }),
            d.function@ == function@,
            d.version@ == (match version { Some(s) => s@, None => Seq::<char>::empty() }),
            d.status@ == "Created"@,
            d.logs@.len() == 0,
            d.deployed_at == deployed_at,
    {
        ServerlessDeployment {
            id: text_or_empty(function_arn),
            function: owned(function),
            version: text_or_empty(version),
            status: owned("Created"),
            logs: Vec::new(),
            deployed_at,
        }
    }
}

} // verus!
