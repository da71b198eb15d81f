//! API client: configuration, request history, environments and variable
//! substitution, REST/GraphQL/gRPC/WebSocket request data and collection
//! export. Sending requests is outside the library.
use vstd::prelude::*;
use crate::api_client::environments::EnvironmentManager;
use crate::stamp::now_millis;
use crate::text::owned;

pub mod rest;
pub mod environments;
pub mod collections;
pub mod graphql;
pub mod grpc;
pub mod websocket;

verus! {

/// API client error, with its message.
#[derive(Debug)]
pub struct ApiError(pub String);

/// API client configuration.
#[derive(Debug)]
pub struct APIClientConfig {
    pub max_history: usize,
    pub timeout_seconds: u64,
    pub follow_redirects: bool,
    pub max_redirects: u32,
    pub validate_ssl: bool,
    pub proxy_url: Option<String>,
    pub user_agent: String,
}

impl Default for APIClientConfig {
    fn default() -> (c: Self)
        ensures
            c.max_history == 100,
            c.timeout_seconds == 30,
            c.follow_redirects,
            c.max_redirects == 5,
            c.validate_ssl,
            c.proxy_url is None,
            c.user_agent@ == "Parsec-API-Client/1.0"@,
    {
        APIClientConfig {
            max_history: 100,
            timeout_seconds: 30,
            follow_redirects: true,
            max_redirects: 5,
            validate_ssl: true,
            proxy_url: None,
            user_agent: owned("Parsec-API-Client/1.0"),
        }
    }
}

/// Collection format.
#[derive(Debug, Clone, Copy, PartialEq, Eq, Structural)]
pub enum CollectionFormat {
    PostmanV2,
    OpenAPI3,
    HAR,
    Curl,
    Insomnia,
    Bruno,
}

/// Request history entry. The time is in milliseconds since the Unix epoch,
/// the duration in milliseconds.
#[derive(Debug)]
pub struct RequestHistory {
    pub id: String,
    pub method: String,
    pub url: String,
    pub status: Option<u16>,
    pub timestamp: i64,
    pub duration_ms: u64,
    pub request_size: usize,
    pub response_size: usize,
    pub collection: Option<String>,
    pub environment: Option<String>,
}

impl RequestHistory {
    /// A copy of the entry.
    pub fn duplicate(&self) -> (h: Self)
        ensures h == *self,
    {
        RequestHistory {
            id: self.id.clone(),
            method: self.method.clone(),
            url: self.url.clone(),
            status: self.status,
            timestamp: self.timestamp,
            duration_ms: self.duration_ms,
            request_size: self.request_size,
            response_size: self.response_size,
            collection: match &self.collection { Some(c) => Some(c.clone()), None => None },
            environment: match &self.environment { Some(e) => Some(e.clone()), None => None },
        }
    }
}

/// The part of the API client manager that keeps its state: configuration,
/// the request history (newest first, bounded) and the environments. The
/// protocol clients that send requests sit beside it.
pub struct APIClientManager {
    config: APIClientConfig,
    history: Vec<RequestHistory>,
    environments: EnvironmentManager,
}

impl APIClientManager {
    pub closed spec fn history_view(&self) -> Seq<RequestHistory> {
        self.history@
    }

    pub closed spec fn max_history(&self) -> usize {
        self.config.max_history
    }

    pub closed spec fn envs(&self) -> EnvironmentManager {
        self.environments
    }

    /// A manager with no history and no environments.
    pub fn new(config: APIClientConfig) -> (m: Self)
        ensures
            m.history_view().len() == 0,
            m.max_history() == config.max_history,
            m.envs().wf(),
            m.envs().envs_view() == Map::<Seq<char>, environments::Environment>::empty(),
            m.envs().active_name() is None,
    {
        APIClientManager { config, history: Vec::new(), environments: EnvironmentManager::new() }
    }

    /// Record a request: it comes first, and the oldest entry goes when there
    /// are more than the maximum.
    pub fn record_history(&mut self, entry: RequestHistory)
        ensures
            final(self).max_history() == old(self).max_history(),
            final(self).envs() == old(self).envs(),
            ({
                let all = seq![entry] + old(self).history_view();
                final(self).history_view() == (if all.len() > old(self).max_history() { all.drop_last() } else { all })
            }),
    {
        let ghost before = self.history@;
        self.history.insert(0, entry);
        assert(self.history@ =~= seq![entry] + before);
        if self.history.len() > self.config.max_history {
            self.history.pop();
        }
    }

    /// The newest `limit` entries (all when no limit).
    pub fn get_history(&self, limit: Option<usize>) -> (r: Vec<RequestHistory>)
        ensures
            r@ == self.history_view().subrange(0, match limit {
                Some(l) => if l < self.history_view().len() { l as int } else { self.history_view().len() as int },
                None => self.history_view().len() as int,
            }),
    {
        let len = self.history.len();
        let n = match limit {
            Some(l) => if l < len { l } else { len },
            None => len,
        };
        let mut r: Vec<RequestHistory> = Vec::new();
        let mut i: usize = 0;
        while i < n
            invariant
                n <= len,
                len == self.history@.len(),
                i <= n,
                r@ == self.history@.subrange(0, i as int),
            decreases n - i,
        {
            r.push(self.history[i].duplicate());
            i = i + 1;
            assert(r@ =~= self.history@.subrange(0, i as int));
        }
        r
    }

    /// Forget the history.
    pub fn clear_history(&mut self)
        ensures
            final(self).history_view().len() == 0,
            final(self).max_history() == old(self).max_history(),
            final(self).envs() == old(self).envs(),
    {
        self.history = Vec::new();
    }

    /// The environments.
    pub fn environments(&self) -> (e: &EnvironmentManager)
        ensures *e == self.envs(),
    {
        &self.environments
    }

    /// The environments, to change.
    pub fn environments_mut(&mut self) -> (e: &mut EnvironmentManager)
        ensures
            *e == old(self).envs(),
            final(self).envs() == *final(e),
            final(self).history_view() == old(self).history_view(),
            final(self).max_history() == old(self).max_history(),
    {
        &mut self.environments
    }

    /// Make an environment active (or none); see `EnvironmentManager::set_active`.
    pub fn set_environment(&mut self, name: Option<&str>) -> (r: Result<(), ApiError>)
        requires old(self).envs().wf(),
        ensures
            final(self).envs().wf(),
            final(self).history_view() == old(self).history_view(),
            final(self).envs().envs_view() == old(self).envs().envs_view(),
            match name {
                None => r is Ok && final(self).envs().active_name() is None,
                Some(n) => if old(self).envs().envs_view().contains_key(n@) {
                    r is Ok && final(self).envs().active_name() == Some(n@)
                } else {
                    (r matches Err(ApiError(m)) && m@ == "Environment not found: "@ + n@)
                        && final(self).envs().active_name() == old(self).envs().active_name()
                },
            },
    {
        self.environments.set_active(name)
    }

    /// The environment names, in the order first added.
    pub fn list_environments(&self) -> (r: Vec<String>)
        requires self.envs().wf(),
        ensures crate::text::views(r@) == self.envs().names(),
    {
        self.environments.list()
    }
}

/// A fresh history entry for a request sent now.
pub fn history_entry(id: String, method: String, url: String, status: Option<u16>, duration_ms: u64,
    response_size: usize) -> (h: RequestHistory)
    ensures
        h.id == id && h.method == method && h.url == url && h.status == status,
        h.duration_ms == duration_ms && h.request_size == 0 && h.response_size == response_size,
        h.collection is None && h.environment is None,
{
    RequestHistory {
        id, method, url, status, timestamp: now_millis(), duration_ms, request_size: 0, response_size,
        collection: None, environment: None,
    }
}

} // verus!
