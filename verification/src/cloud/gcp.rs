//! GCP: the provider's settings and answers. Calling the Google Cloud
//! services is outside the library.
use vstd::prelude::*;
use crate::cloud::{find_service, CloudConfig, CloudError, CloudProviderType, CloudService, DeploymentResult};
use crate::text::{owned, views};

verus! {

/// The GCP provider.
pub struct GCPProvider {
    pub project_id: String,
    pub region: String,
    pub cloud_config: CloudConfig,
}

/// The regions the provider offers.
pub open spec fn gcp_region_names() -> Seq<Seq<char>> {
    seq!["us-central1"@, "us-east1"@, "us-west1"@, "europe-west1"@, "asia-east1"@]
}

impl GCPProvider {
    /// The provider for a configuration: its project (empty when not set), in
    /// region "us-central1".
    pub fn new(config: CloudConfig) -> (r: Result<Self, CloudError>)
        ensures
            r matches Ok(p) && p.project_id@ == (match config.gcp_project {
                Some(g) => g@,
                None => Seq::<char>::empty(),
            }) && p.region@ == "us-central1"@ && p.cloud_config == config,
    {
        let project_id = match &config.gcp_project {
            Some(g) => g.clone(),
            None => String::new(),
        };
        Ok(GCPProvider { project_id, region: owned("us-central1"), cloud_config: config })
    }

    /// The provider's name.
    pub fn name(&self) -> (s: &'static str)
        ensures s@ == "GCP"@,
    {
        "GCP"
    }

    /// The provider's type.
    pub fn provider_type(&self) -> (t: CloudProviderType)
        ensures t == CloudProviderType::GCP,
    {
        CloudProviderType::GCP
    }

    /// Configured when the project is set.
    pub fn is_configured(&self) -> (b: bool)
        ensures b == (self.project_id@.len() > 0),
    {
        self.project_id.unicode_len() > 0
    }

    /// The regions the provider offers.
    pub fn get_regions(&self) -> (r: Result<Vec<String>, CloudError>)
        ensures r matches Ok(v) && views(v@) == gcp_region_names(),
    {
        let r = vec![
            owned("us-central1"),
            owned("us-east1"),
            owned("us-west1"),
            owned("europe-west1"),
            owned("asia-east1"),
        ];
        assert(views(r@) =~= gcp_region_names());
        Ok(r)
    }

    /// The services: Cloud Functions, Cloud Run services, Compute Engine
    /// instances and Storage buckets, none of which are listed yet.
    pub fn list_services(&self) -> (r: Result<Vec<CloudService>, CloudError>)
        ensures r matches Ok(v) && v@.len() == 0,
    {
        Ok(Vec::new())
    }

    /// The service named `name` among those listed.
    pub fn get_service(&self, name: &str) -> (r: Result<Option<CloudService>, CloudError>)
        ensures r matches Ok(None),
    {
        let services = self.list_services()?;
        let found = find_service(services, name);
        proof {
            assert(crate::cloud::first_named(Seq::<CloudService>::empty(), name@) is None);
        }
        Ok(found)
    }

    /// Deployments are refused.
    pub fn deploy(&self) -> (r: Result<DeploymentResult, CloudError>)
        ensures r matches Err(CloudError(m)) && m@ == "GCP deployment not yet implemented"@,
    {
        Err(CloudError(owned("GCP deployment not yet implemented")))
    }

    /// Logs are not read: there are none.
    pub fn logs(&self, service: &str, tail: Option<usize>) -> (r: Result<Vec<String>, CloudError>)
        ensures r matches Ok(v) && v@.len() == 0,
    {
        Ok(Vec::new())
    }
}

} // verus!
