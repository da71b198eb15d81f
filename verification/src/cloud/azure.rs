//! Azure: the provider's settings and answers. Authenticating and calling the
//! Azure services are outside the library.
use vstd::prelude::*;
use crate::cloud::{CloudConfig, CloudError, CloudProviderType, CloudService, DeploymentResult};
use crate::text::{owned, views};

verus! {

/// The Azure provider's settings.
pub struct AzureProvider {
    pub tenant_id: String,
    pub subscription_id: String,
    pub region: String,
    pub cloud_config: CloudConfig,
}

/// The regions the provider offers.
pub open spec fn azure_region_names() -> Seq<Seq<char>> {
    seq!["eastus"@, "eastus2"@, "westus"@, "westus2"@, "centralus"@, "northeurope"@, "westeurope"@,
        "southeastasia"@]
}

impl AzureProvider {
    /// The provider for a configuration: its tenant and subscription (empty
    /// when not set), in region "eastus".
    pub fn new(config: CloudConfig) -> (p: Self)
        ensures
            p.tenant_id@ == (match config.azure_tenant { Some(t) => t@, None => Seq::<char>::empty() }),
            p.subscription_id@ == (match config.azure_subscription { Some(s) => s@, None => Seq::<char>::empty() }),
            p.region@ == "eastus"@,
            p.cloud_config == config,
    {
        let tenant_id = match &config.azure_tenant {
            Some(t) => t.clone(),
            None => String::new(),
        };
        let subscription_id = match &config.azure_subscription {
            Some(s) => s.clone(),
            None => String::new(),
        };
        AzureProvider { tenant_id, subscription_id, region: owned("eastus"), cloud_config: config }
    }

    /// The provider's name.
    pub fn name(&self) -> (s: &'static str)
        ensures s@ == "Azure"@,
    {
        "Azure"
    }

    /// The provider's type.
    pub fn provider_type(&self) -> (t: CloudProviderType)
        ensures t == CloudProviderType::Azure,
    {
        CloudProviderType::Azure
    }

    /// Configured when both the tenant and the subscription are set.
    pub fn is_configured(&self) -> (b: bool)
        ensures b == (self.tenant_id@.len() > 0 && self.subscription_id@.len() > 0),
    {
        self.tenant_id.unicode_len() > 0 && self.subscription_id.unicode_len() > 0
    }

    /// The regions the provider offers.
    pub fn get_regions(&self) -> (r: Result<Vec<String>, CloudError>)
        ensures r matches Ok(v) && views(v@) == azure_region_names(),
    {
        let r = vec![
            owned("eastus"),
            owned("eastus2"),
            owned("westus"),
            owned("westus2"),
            owned("centralus"),
            owned("northeurope"),
            owned("westeurope"),
            owned("southeastasia"),
        ];
        assert(views(r@) =~= azure_region_names());
        Ok(r)
    }

    /// The services: resource groups, storage accounts, functions and virtual
    /// machines, none of which are listed yet.
    pub fn list_services(&self) -> (r: Result<Vec<CloudService>, CloudError>)
        ensures r matches Ok(v) && v@.len() == 0,
    {
        Ok(Vec::new())
    }

    /// Deployments are refused.
    pub fn deploy(&self) -> (r: Result<DeploymentResult, CloudError>)
        ensures r matches Err(CloudError(m)) && m@ == "Azure deployment not yet implemented"@,
    {
        Err(CloudError(owned("Azure deployment not yet implemented")))
    }

    /// Logs are not read: there are none.
    pub fn logs(&self, service: &str, tail: Option<usize>) -> (r: Result<Vec<String>, CloudError>)
        ensures r matches Ok(v) && v@.len() == 0,
    {
        Ok(Vec::new())
    }
}

} // verus!
