//! Cloud credentials and environments: which clouds the credentials reach,
//! and the reading of where the IDE runs. Reading the process environment
//! and probing the machine are outside the library.
use vstd::prelude::*;
use crate::cloud::CloudError;
use crate::text::{contains_seq, contains_str, lowercase, to_lowercase};

verus! {

/// The cloud the IDE runs on.
#[derive(Debug, Clone, Copy, PartialEq, Eq, Structural)]
pub enum CloudEnvironment {
    AWS,
    Azure,
    GCP,
    OnPremise,
    Unknown,
}

/// Cloud credentials.
#[derive(Debug, Clone)]
pub struct CloudCredentials {
    pub aws_profile: Option<String>,
    pub aws_region: Option<String>,
    pub aws_access_key: Option<String>,
    pub aws_secret_key: Option<String>,
    pub aws_session_token: Option<String>,
    pub azure_tenant: Option<String>,
    pub azure_subscription: Option<String>,
    pub azure_client_id: Option<String>,
    pub azure_client_secret: Option<String>,
    pub gcp_project: Option<String>,
    pub gcp_service_account: Option<String>,
    pub gcp_access_token: Option<String>,
}

impl Default for CloudCredentials {
    fn default() -> (c: Self)
        ensures
            c.aws_profile is None && c.aws_region is None && c.aws_access_key is None,
            c.aws_secret_key is None && c.aws_session_token is None,
            c.azure_tenant is None && c.azure_subscription is None,
            c.azure_client_id is None && c.azure_client_secret is None,
            c.gcp_project is None && c.gcp_service_account is None && c.gcp_access_token is None,
    {
        CloudCredentials {
            aws_profile: None,
            aws_region: None,
            aws_access_key: None,
            aws_secret_key: None,
            aws_session_token: None,
            azure_tenant: None,
            azure_subscription: None,
            azure_client_id: None,
            azure_client_secret: None,
            gcp_project: None,
            gcp_service_account: None,
            gcp_access_token: None,
        }
    }
}

impl CloudCredentials {
    /// AWS is reachable with a profile, or with an access key and a secret key.
    pub fn has_aws(&self) -> (b: bool)
        ensures b == (self.aws_profile is Some || (self.aws_access_key is Some && self.aws_secret_key is Some)),
    {
        self.aws_profile.is_some() || (self.aws_access_key.is_some() && self.aws_secret_key.is_some())
    }

    /// Azure is reachable with a tenant and a subscription.
    pub fn has_azure(&self) -> (b: bool)
        ensures b == (self.azure_tenant is Some && self.azure_subscription is Some),
    {
        self.azure_tenant.is_some() && self.azure_subscription.is_some()
    }

    /// GCP is reachable with a project.
    pub fn has_gcp(&self) -> (b: bool)
        ensures b == (self.gcp_project is Some),
    {
        self.gcp_project.is_some()
    }

    /// The credentials the environment variables give: the AWS profile and
    /// region, the Azure tenant and subscription, and the GCP project.
    pub fn from_env_values(aws_profile: Option<String>, aws_region: Option<String>, azure_tenant: Option<String>,
        azure_subscription: Option<String>, gcp_project: Option<String>) -> (c: Self)
        ensures
            c.aws_profile == aws_profile && c.aws_region == aws_region,
            c.azure_tenant == azure_tenant && c.azure_subscription == azure_subscription,
            c.gcp_project == gcp_project,
            c.aws_access_key is None && c.aws_secret_key is None && c.aws_session_token is None,
            c.azure_client_id is None && c.azure_client_secret is None,
            c.gcp_service_account is None && c.gcp_access_token is None,
    {
        let mut c = CloudCredentials::default();
        c.aws_profile = aws_profile;
        c.aws_region = aws_region;
        c.azure_tenant = azure_tenant;
        c.azure_subscription = azure_subscription;
        c.gcp_project = gcp_project;
        c
    }
}

/// A source of credentials, implemented by the users of the library.
pub trait CredentialProvider {
    fn name(&self) -> &str;

    fn get_credentials(&self) -> Result<CloudCredentials, CloudError>;

    fn refresh(&self) -> Result<(), CloudError>;
}

/// Whether a hypervisor id names an EC2 machine: it mentions "ec2" in any case.
pub fn hypervisor_is_ec2(uuid: &str) -> (b: bool)
    ensures b == contains_seq(lowercase(uuid@), "ec2"@),
{
    let l = to_lowercase(uuid);
    contains_str(l.as_str(), "ec2")
}

/// Where the IDE runs, from the probes in order: an EC2 hypervisor id means
/// AWS, else the Azure agent's directory means Azure, else an answering GCP
/// metadata server means GCP; otherwise it is not known.
pub fn current_environment(hypervisor_uuid: Option<&str>, azure_agent_present: bool, gcp_metadata_answers: bool)
    -> (r: Option<CloudEnvironment>)
    ensures
        r == (if hypervisor_uuid is Some && contains_seq(lowercase(hypervisor_uuid->0@), "ec2"@) {
            Some(CloudEnvironment::AWS)
        } else if azure_agent_present {
            Some(CloudEnvironment::Azure)
        } else if gcp_metadata_answers {
            Some(CloudEnvironment::GCP)
        } else {
            None
        }),
{
    match hypervisor_uuid {
        Some(u) => {
            if hypervisor_is_ec2(u) {
                return Some(CloudEnvironment::AWS);
            }
        },
        None => {},
    }
    if azure_agent_present {
        Some(CloudEnvironment::Azure)
    } else if gcp_metadata_answers {
        Some(CloudEnvironment::GCP)
    } else {
        None
    }
}

} // verus!
