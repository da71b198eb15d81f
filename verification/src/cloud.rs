//! Cloud development: configuration, services and deployments as data, the
//! registry of providers with one of them active, and the decisions the
//! providers make. Talking to the cloud SDKs is outside the library; paths
//! are strings, times are milliseconds since the Unix epoch, durations are
//! milliseconds.
use vstd::prelude::*;
use crate::strmap::StrMap;
use crate::text::{concat2, owned, views};

pub mod provider;
pub mod aws;
pub mod azure;
pub mod gcp;
pub mod docker;
pub mod kubernetes;
pub mod serverless;

verus! {

/// Cloud error, with its message.
#[derive(Debug)]
pub struct CloudError(pub String);

/// `rel` joined to `base` as `PathBuf::join` joins a relative path: with a
/// '/' between them unless `base` is empty or already ends with one.
pub open spec fn join_path_spec(base: Seq<char>, rel: Seq<char>) -> Seq<char> {
    if base.len() == 0 || base.last() == '/' {
        base + rel
    } else {
        base + "/"@ + rel
    }
}

/// `rel` joined to `base`; see `join_path_spec`.
pub fn join_path(base: &str, rel: &str) -> (r: String)
    ensures r@ == join_path_spec(base@, rel@),
{
    let n = base.unicode_len();
    if n == 0 {
        return concat2(base, rel);
    }
    let last = base.get_char(n - 1);
    if last == '/' {
        concat2(base, rel)
    } else {
        let a = concat2(base, "/");
        concat2(a.as_str(), rel)
    }
}

/// Cloud configuration.
#[derive(Debug)]
pub struct CloudConfig {
    pub aws_profile: Option<String>,
    pub aws_region: Option<String>,
    pub azure_tenant: Option<String>,
    pub azure_subscription: Option<String>,
    pub gcp_project: Option<String>,
    pub docker_host: Option<String>,
    pub kubeconfig_path: Option<String>,
    pub cache_dir: String,
    pub timeout_seconds: u64,
}

fn copy_opt(o: &Option<String>) -> (r: Option<String>)
    ensures r == *o,
{
    match o {
        Some(s) => Some(s.clone()),
        None => None,
    }
}

impl CloudConfig {
    /// A copy of the configuration.
    pub fn duplicate(&self) -> (c: Self)
        ensures c == *self,
    {
        CloudConfig {
            aws_profile: copy_opt(&self.aws_profile),
            aws_region: copy_opt(&self.aws_region),
            azure_tenant: copy_opt(&self.azure_tenant),
            azure_subscription: copy_opt(&self.azure_subscription),
            gcp_project: copy_opt(&self.gcp_project),
            docker_host: copy_opt(&self.docker_host),
            kubeconfig_path: copy_opt(&self.kubeconfig_path),
            cache_dir: self.cache_dir.clone(),
            timeout_seconds: self.timeout_seconds,
        }
    }

    /// The default configuration for what the environment gives: the AWS
    /// region, GCP project and Docker host variables, the home directory and
    /// the data directory. The kube config is `.kube/config` in the home
    /// directory; the cache is `parsec/cloud/cache` in the data directory (or
    /// in "." without one); the timeout is 30 seconds.
    pub fn from_environment(aws_region: Option<String>, gcp_project: Option<String>, docker_host: Option<String>,
        home_dir: Option<&str>, data_dir: Option<&str>) -> (c: Self)
        ensures
            c.aws_profile is None && c.azure_tenant is None && c.azure_subscription is None,
            c.aws_region == aws_region && c.gcp_project == gcp_project && c.docker_host == docker_host,
            match home_dir {
                Some(h) => c.kubeconfig_path matches Some(k) && k@ == join_path_spec(h@, ".kube/config"@),
                None => c.kubeconfig_path is None,
            },
            c.cache_dir@ == join_path_spec(join_path_spec(match data_dir {
                Some(d) => d@,
                None => "."@,
            }, "parsec/cloud"@), "cache"@),
            c.timeout_seconds == 30,
    {
        let kubeconfig_path = match home_dir {
            Some(h) => Some(join_path(h, ".kube/config")),
            None => None,
        };
        let base = match data_dir {
            Some(d) => join_path(d, "parsec/cloud"),
            None => join_path(".", "parsec/cloud"),
        };
        let cache_dir = join_path(base.as_str(), "cache");
        CloudConfig {
            aws_profile: None,
            aws_region,
            azure_tenant: None,
            azure_subscription: None,
            gcp_project,
            docker_host,
            kubeconfig_path,
            cache_dir,
            timeout_seconds: 30,
        }
    }
}

/// Cloud provider type.
#[derive(Debug, Clone, PartialEq, Eq)]
pub enum CloudProviderType {
    AWS,
    Azure,
    GCP,
    Custom(String),
}

/// Service type.
#[derive(Debug, Clone)]
pub enum ServiceType {
    Compute,
    Storage,
    Database,
    Network,
    Container,
    Serverless,
    Monitoring,
    Analytics,
    AIML,
    IoT,
    Custom(String),
}

/// Service status.
#[derive(Debug, Clone)]
pub enum ServiceStatus {
    Creating,
    Running,
    Stopped,
    Updating,
    Deleting,
    Failed(String),
    Unknown,
}

/// What a service status says: its kind, and a failure's message.
pub enum StatusView {
    Creating,
    Running,
    Stopped,
    Updating,
    Deleting,
    Failed(Seq<char>),
    Unknown,
}

impl View for ServiceStatus {
    type V = StatusView;

    open spec fn view(&self) -> StatusView {
        match self {
            ServiceStatus::Creating => StatusView::Creating,
            ServiceStatus::Running => StatusView::Running,
            ServiceStatus::Stopped => StatusView::Stopped,
            ServiceStatus::Updating => StatusView::Updating,
            ServiceStatus::Deleting => StatusView::Deleting,
            ServiceStatus::Failed(m) => StatusView::Failed(m@),
            ServiceStatus::Unknown => StatusView::Unknown,
        }
    }
}

/// A cloud service.
pub struct CloudService {
    pub name: String,
    pub provider: CloudProviderType,
    pub service_type: ServiceType,
    pub region: String,
    pub status: ServiceStatus,
    pub url: Option<String>,
    pub created_at: i64,
    pub updated_at: i64,
    pub tags: StrMap<String>,
}

/// Where a deployment comes from.
#[derive(Debug)]
pub enum DeploymentSource {
    LocalDirectory(String),
    GitRepository { url: String, branch: String },
    ContainerImage(String),
    Package(String),
    ZipArchive(Vec<u8>),
}

/// The result of a deployment.
#[derive(Debug)]
pub struct DeploymentResult {
    pub service_name: String,
    pub service_url: Option<String>,
    pub deployment_id: String,
    pub status: ServiceStatus,
    pub logs: Vec<String>,
    pub duration_ms: u64,
}

/// Position of the first service named `name`.
pub open spec fn first_named(s: Seq<CloudService>, name: Seq<char>) -> Option<int>
    decreases s.len(),
{
    if s.len() == 0 {
        None
    } else {
        match first_named(s.drop_last(), name) {
            Some(i) => Some(i),
            None => if s.last().name@ == name {
                Some(s.len() - 1)
            } else {
                None
            },
        }
    }
}

proof fn lemma_first_named_prefix(s: Seq<CloudService>, name: Seq<char>, k: int)
    requires
        0 <= k <= s.len(),
        first_named(s.subrange(0, k), name) is Some,
    ensures
        first_named(s, name) == first_named(s.subrange(0, k), name),
    decreases s.len(),
{
    if k == s.len() {
        assert(s.subrange(0, k) =~= s);
    } else {
        let t = s.drop_last();
        assert(t.subrange(0, k) =~= s.subrange(0, k));
        lemma_first_named_prefix(t, name, k);
    }
}

/// The first of `services` named `name`, as a provider's `get_service` picks it.
pub fn find_service(services: Vec<CloudService>, name: &str) -> (r: Option<CloudService>)
    ensures
        match first_named(services@, name@) {
            Some(i) => r == Some(services@[i]),
            None => r is None,
        },
{
    let ghost all = services@;
    let mut v = services;
    let mut i: usize = 0;
    let n = v.len();
    proof {
        assert(all.subrange(0, 0) =~= Seq::<CloudService>::empty());
    }
    while i < n
        invariant
            n == all.len(),
            all == services@,
            v@ == all,
            i <= n,
            first_named(all.subrange(0, i as int), name@) is None,
        decreases n - i,
    {
        proof {
            assert(all.subrange(0, i + 1).drop_last() =~= all.subrange(0, i as int));
        }
        if crate::text::str_eq(v[i].name.as_str(), name) {
            proof {
                let p = all.subrange(0, i + 1);
                assert(p.last() == all[i as int]);
                assert(p.last().name@ == name@);
                assert(first_named(p, name@) == Some(i as int));
                lemma_first_named_prefix(all, name@, i + 1);
                assert(first_named(all, name@) == Some(i as int));
            }
            let s = v.remove(i);
            assert(s == all[i as int]);
            return Some(s);
        }
        i = i + 1;
    }
    proof {
        assert(all.subrange(0, n as int) =~= all);
    }
    None
}

/// The tags of a tag list: each pair with both a key and a value, later pairs
/// winning.
pub open spec fn tags_of(pairs: Seq<(Option<String>, Option<String>)>) -> Map<Seq<char>, Seq<char>>
    decreases pairs.len(),
{
    if pairs.len() == 0 {
        Map::empty()
    } else {
        let m = tags_of(pairs.drop_last());
        match pairs.last() {
            (Some(k), Some(v)) => m.insert(k@, v@),
            _ => m,
        }
    }
}

/// The tags of a tag list; see `tags_of`.
pub fn tag_map(pairs: Vec<(Option<String>, Option<String>)>) -> (r: StrMap<String>)
    ensures
        r.wf(),
        r@.map_values(|v: String| v@) == tags_of(pairs@),
{
    let mut r: StrMap<String> = StrMap::new();
    let mut i: usize = 0;
    proof {
        assert(r@.map_values(|v: String| v@) =~= tags_of(pairs@.subrange(0, 0)));
    }
    while i < pairs.len()
        invariant
            i <= pairs@.len(),
            r.wf(),
            r@.map_values(|v: String| v@) == tags_of(pairs@.subrange(0, i as int)),
        decreases pairs.len() - i,
    {
        proof {
            let s = pairs@.subrange(0, i + 1);
            assert(s.drop_last() =~= pairs@.subrange(0, i as int));
        }
        match &pairs[i] {
            (Some(k), Some(v)) => {
                let ghost before = r@;
                r.insert(k.clone(), v.clone());
                proof {
                    assert(r@.map_values(|v: String| v@) =~= before.map_values(|v: String| v@).insert(k@, v@));
                }
            },
            _ => {},
        }
        i = i + 1;
    }
    proof {
        assert(pairs@.subrange(0, pairs@.len() as int) =~= pairs@);
    }
    r
}

/// The services in the providers' answers, in order; a provider that failed
/// adds none.
pub open spec fn services_of(replies: Seq<Result<Vec<CloudService>, CloudError>>) -> Seq<CloudService>
    decreases replies.len(),
{
    if replies.len() == 0 {
        Seq::empty()
    } else {
        services_of(replies.drop_last()) + match replies.last() {
            Ok(v) => v@,
            Err(_) => Seq::empty(),
        }
    }
}

/// The providers a cloud manager knows, by name, and the active one. The
/// provider clients themselves sit beside it, under the same names.
pub struct ProviderRegistry {
    providers: StrMap<CloudProviderType>,
    active: Option<String>,
}

impl ProviderRegistry {
    pub closed spec fn wf(&self) -> bool {
        self.providers.wf()
    }

    /// The providers by name.
    pub closed spec fn providers_view(&self) -> Map<Seq<char>, CloudProviderType> {
        self.providers@
    }

    /// The names, in the order first registered.
    pub closed spec fn names(&self) -> Seq<Seq<char>> {
        self.providers.key_seq()
    }

    /// The name made active, if any.
    pub closed spec fn active_name(&self) -> Option<Seq<char>> {
        match self.active {
            Some(a) => Some(a@),
            None => None,
        }
    }

    /// A registry with no providers.
    pub fn new() -> (r: Self)
        ensures
            r.wf(),
            r.providers_view() == Map::<Seq<char>, CloudProviderType>::empty(),
            r.active_name() is None,
    {
        ProviderRegistry { providers: StrMap::new(), active: None }
    }

    /// Register a provider under its name, replacing one of that name.
    pub fn register_provider(&mut self, name: &str, provider_type: CloudProviderType)
        requires old(self).wf(),
        ensures
            final(self).wf(),
            final(self).providers_view() == old(self).providers_view().insert(name@, provider_type),
            final(self).active_name() == old(self).active_name(),
    {
        self.providers.insert(owned(name), provider_type);
    }

    /// Make a registered provider active; an unknown name is refused and
    /// nothing changes.
    pub fn set_active_provider(&mut self, name: &str) -> (r: Result<(), CloudError>)
        requires old(self).wf(),
        ensures
            final(self).wf(),
            final(self).providers_view() == old(self).providers_view(),
            final(self).names() == old(self).names(),
            if old(self).providers_view().contains_key(name@) {
                r is Ok && final(self).active_name() == Some(name@)
            } else {
                (r matches Err(CloudError(m)) && m@ == "Provider not found: "@ + name@)
                    && final(self).active_name() == old(self).active_name()
            },
    {
        if self.providers.contains_key(name) {
            self.active = Some(owned(name));
            Ok(())
        } else {
            Err(CloudError(concat2("Provider not found: ", name)))
        }
    }

    /// The name of the active provider.
    pub fn active_provider(&self) -> (r: Option<String>)
        requires self.wf(),
        ensures
            match self.active_name() {
                Some(n) => if self.providers_view().contains_key(n) {
                    r matches Some(s) && s@ == n
                } else {
                    r is None
                },
                None => r is None,
            },
    {
        match &self.active {
            Some(n) => if self.providers.contains_key(n.as_str()) {
                Some(n.clone())
            } else {
                None
            },
            None => None,
        }
    }

    /// The provider a deployment goes to: the active one; with none the
    /// deployment is refused.
    pub fn deploy_target(&self) -> (r: Result<String, CloudError>)
        requires self.wf(),
        ensures
            match self.active_name() {
                Some(n) => if self.providers_view().contains_key(n) {
                    r matches Ok(s) && s@ == n
                } else {
                    r matches Err(CloudError(m)) && m@ == "No active provider"@
                },
                None => r matches Err(CloudError(m)) && m@ == "No active provider"@,
            },
    {
        match self.active_provider() {
            Some(n) => Ok(n),
            None => Err(CloudError(owned("No active provider"))),
        }
    }

    /// Every service across the providers, given each provider's answer in the
    /// order of `names()`; see `services_of`.
    pub fn list_all_services(&self, replies: Vec<Result<Vec<CloudService>, CloudError>>) -> (r: Result<Vec<CloudService>, CloudError>)
        ensures r matches Ok(v) && v@ == services_of(replies@),
    {
        let ghost all = replies@;
        let mut rest = replies;
        let mut result: Vec<CloudService> = Vec::new();
        while rest.len() > 0
            invariant
                services_of(all) == services_of(rest@) + result@,
            decreases rest.len(),
        {
            let ghost before = rest@;
            let last = rest.pop().unwrap();
            assert(rest@ == before.drop_last());
            match last {
                Ok(v) => {
                    let mut part = v;
                    let ghost p = part@;
                    part.append(&mut result);
                    assert(services_of(before) == services_of(rest@) + p);
                    result = part;
                    assert(services_of(all) == services_of(rest@) + result@);
                },
                Err(_) => {
                    assert(services_of(before) == services_of(rest@));
                },
            }
        }
        assert(services_of(rest@) == Seq::<CloudService>::empty());
        assert(services_of(all) =~= result@);
        Ok(result)
    }

    /// The provider names, in the order first registered.
    pub fn list_providers(&self) -> (r: Vec<String>)
        ensures views(r@) == self.names(),
    {
        let r = self.providers.keys();
        assert(views(r@) =~= self.names());
        r
    }
}

} // verus!
