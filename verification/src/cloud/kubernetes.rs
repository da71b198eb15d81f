//! Kubernetes: pods, containers and resources as data, and what the client
//! decides when it reads or writes them. Talking to the cluster is outside
//! the library.
use vstd::prelude::*;
use crate::strmap::StrMap;
use crate::text::{lines, owned, split_lines, views};

verus! {

/// A resource of the cluster.
pub struct KubeResource {
    pub kind: String,
    pub name: String,
    pub namespace: String,
    pub api_version: String,
    pub status: String,
    pub created_at: i64,
    pub labels: StrMap<String>,
    pub annotations: StrMap<String>,
}

/// A pod.
#[derive(Debug)]
pub struct KubePod {
    pub name: String,
    pub namespace: String,
    pub node: Option<String>,
    pub status: String,
    pub phase: String,
    pub containers: Vec<KubeContainer>,
    pub created_at: i64,
}

/// A container of a pod.
#[derive(Debug)]
pub struct KubeContainer {
    pub name: String,
    pub image: String,
    pub ready: bool,
    pub restart_count: i32,
    pub state: String,
}

/// The namespace a request works in: the one given, or "default".
pub fn namespace_or_default(namespace: Option<&str>) -> (r: &str)
    ensures
        r@ == (match namespace {
            Some(n) => n@,
            None => "default"@,
        }),
{
    match namespace {
        Some(n) => n,
        None => "default",
    }
}

/// A container as a pod's spec lists it: its name and image (empty when
/// none), not ready, never restarted, in an unknown state.
pub fn container_from_spec(name: String, image: Option<String>) -> (c: KubeContainer)
    ensures
        c.name == name,
        c.image@ == (match image {
            Some(i) => i@,
            None => Seq::<char>::empty(),
        }),
        !c.ready,
        c.restart_count == 0,
        c.state@ == "unknown"@,
{
    let image = match image {
        Some(i) => i,
        None => String::new(),
    };
    KubeContainer { name, image, ready: false, restart_count: 0, state: owned("unknown") }
}

/// The status of a deployment from its available and wanted replica counts:
/// running when they agree, pending when not, unknown without a status.
pub fn deployment_status(status: Option<(Option<i32>, Option<i32>)>) -> (r: String)
    ensures
        r@ == (match status {
            Some((available, replicas)) => if available == replicas { "Running"@ } else { "Pending"@ },
            None => "Unknown"@,
        }),
{
    match status {
        Some((available, replicas)) => {
            if available == replicas {
                owned("Running")
            } else {
                owned("Pending")
            }
        },
        None => owned("Unknown"),
    }
}

/// The labels a created deployment carries: "app" set to its name.
pub fn app_labels(name: &str) -> (r: StrMap<String>)
    ensures
        r.wf(),
        r@.dom() == set!["app"@],
        r@["app"@]@ == name@,
{
    let mut r: StrMap<String> = StrMap::new();
    r.insert(owned("app"), owned(name));
    assert(r@.dom() =~= set!["app"@]);
    r
}

/// The first `tail` lines of a log.
pub fn log_tail(logs: &str, tail: usize) -> (r: Vec<String>)
    ensures
        views(r@) == lines(logs@).take(if tail < lines(logs@).len() { tail as int } else { lines(logs@).len() as int }),
{
    let all = split_lines(logs);
    let n = if tail < all.len() { tail } else { all.len() };
    let mut r: Vec<String> = Vec::new();
    let mut i: usize = 0;
    while i < n
        invariant
            n <= all@.len(),
            i <= n,
            views(all@) == lines(logs@),
            views(r@) == views(all@).take(i as int),
        decreases n - i,
    {
        let ghost old_r = r@;
        r.push(all[i].clone());
        proof {
            assert(views(r@) =~= views(old_r).push(all@[i as int]@));
            assert(views(all@).take(i + 1) =~= views(all@).take(i as int).push(views(all@)[i as int]));
        }
        i = i + 1;
    }
    r
}


fn text_or_empty(o: Option<String>) -> (r: String)
    ensures
        r@ == (match o {
            Some(s) => s@,
            None => Seq::<char>::empty(),
        }),
{
    match o {
        Some(s) => s,
        None => String::new(),
    }
}

/// A pod as the cluster lists it: its name (empty when none), namespace,
/// node, its phase as both status and phase (empty when none), its
/// containers, created at its creation time or `now`.
pub fn pod_from_parts(name: Option<String>, namespace: &str, node: Option<String>, phase: Option<String>,
    containers: Vec<KubeContainer>, created_ms: Option<i64>, now_ms: i64) -> (p: KubePod)
    ensures
        p.name@ == (match name { Some(s) => s@, None => Seq::<char>::empty() }),
        p.namespace@ == namespace@,
        p.node == node,
        p.status@ == (match phase { Some(s) => s@, None => Seq::<char>::empty() }),
        p.phase@ == p.status@,
        p.containers@ == containers@,
        p.created_at == (match created_ms { Some(t) => t, None => now_ms }),
{
    let phase = text_or_empty(phase);
    KubePod {
        name: text_or_empty(name),
        namespace: owned(namespace),
        node,
        status: phase.clone(),
        phase,
        containers,
        created_at: match created_ms {
            Some(t) => t,
            None => now_ms,
        },
    }
}

/// A resource as the cluster lists it: its kind, name and API version (empty
/// when none), namespace, status, labels and annotations (empty when none),
/// created at its creation time or `now`.
pub fn resource_from_parts(kind: &str, name: Option<String>, namespace: &str, api_version: Option<String>,
    status: String, created_ms: Option<i64>, now_ms: i64, labels: Option<StrMap<String>>,
    annotations: Option<StrMap<String>>) -> (r: KubeResource)
    requires
        labels matches Some(l) ==> l.wf(),
        annotations matches Some(a) ==> a.wf(),
    ensures
        r.kind@ == kind@,
        r.name@ == (match name { Some(s) => s@, None => Seq::<char>::empty() }),
        r.namespace@ == namespace@,
        r.api_version@ == (match api_version { Some(s) => s@, None => Seq::<char>::empty() }),
        r.status == status,
        r.created_at == (match created_ms { Some(t) => t, None => now_ms }),
        r.labels.wf() && r.labels@ == (match labels { Some(l) => l@, None => Map::<Seq<char>, String>::empty() }),
        r.annotations.wf() && r.annotations@ == (match annotations { Some(a) => a@, None => Map::<Seq<char>, String>::empty() }),
{
    KubeResource {
        kind: owned(kind),
        name: text_or_empty(name),
        namespace: owned(namespace),
        api_version: text_or_empty(api_version),
        status,
        created_at: match created_ms {
            Some(t) => t,
            None => now_ms,
        },
        labels: match labels {
            Some(l) => l,
            None => StrMap::new(),
        },
        annotations: match annotations {
            Some(a) => a,
            None => StrMap::new(),
        },
    }
}

} // verus!
