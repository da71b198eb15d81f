//! Docker: containers, ports and images as data, and the names the client
//! derives. Talking to the Docker daemon is outside the library.
use vstd::prelude::*;
use crate::stamp::seconds_to_millis;
use crate::text::{chars_of, concat2, owned, slice_string};

verus! {

/// A port mapping.
#[derive(Debug)]
pub struct DockerPort {
    pub ip: String,
    pub private_port: u16,
    pub public_port: Option<u16>,
    pub protocol: String,
}

/// A container.
#[derive(Debug)]
pub struct DockerContainer {
    pub id: String,
    pub name: String,
    pub image: String,
    pub status: String,
    pub state: String,
    pub ports: Vec<DockerPort>,
    pub created: i64,
}

/// An image.
#[derive(Debug)]
pub struct DockerImage {
    pub id: String,
    pub tags: Vec<String>,
    pub size: u64,
    pub created: i64,
}

/// `s` without the run of `c` it starts with (`trim_start_matches`).
pub open spec fn strip_leading(s: Seq<char>, c: char) -> Seq<char>
    decreases s.len(),
{
    if s.len() > 0 && s[0] == c {
        strip_leading(s.drop_first(), c)
    } else {
        s
    }
}

proof fn lemma_strip_leading(s: Seq<char>, c: char, i: int)
    requires
        0 <= i <= s.len(),
        forall|j: int| 0 <= j < i ==> s[j] == c,
    ensures
        strip_leading(s, c) == strip_leading(s.subrange(i, s.len() as int), c),
    decreases i,
{
    if i > 0 {
        let t = s.drop_first();
        assert forall|j: int| 0 <= j < i - 1 implies t[j] == c by {
            assert(t[j] == s[j + 1]);
        }
        lemma_strip_leading(t, c, i - 1);
        assert(t.subrange(i - 1, t.len() as int) =~= s.subrange(i, s.len() as int));
    } else {
        assert(s.subrange(0, s.len() as int) =~= s);
    }
}

/// The name of a container: its first name without leading '/', or empty.
pub open spec fn container_name_of(names: Seq<Seq<char>>) -> Seq<char> {
    if names.len() > 0 {
        strip_leading(names[0], '/')
    } else {
        Seq::empty()
    }
}

/// The name of a container from the names Docker lists; see `container_name_of`.
pub fn container_name(names: &Vec<String>) -> (r: String)
    ensures r@ == container_name_of(crate::text::views(names@)),
{
    if names.len() == 0 {
        return String::new();
    }
    let v = chars_of(names[0].as_str());
    let mut i: usize = 0;
    while i < v.len() && v[i] == '/'
        invariant
            i <= v@.len(),
            forall|j: int| 0 <= j < i ==> v@[j] == '/',
        decreases v.len() - i,
    {
        i = i + 1;
    }
    proof {
        lemma_strip_leading(v@, '/', i as int);
        let rest = v@.subrange(i as int, v@.len() as int);
        if rest.len() > 0 {
            assert(rest[0] == v@[i as int]);
        }
    }
    slice_string(&v, i, v.len())
}

/// The path of an entry in a build context archive: its name under the
/// directory's path, or its name alone at the top.
pub fn tar_entry_path(prefix: &str, name: &str) -> (r: String)
    ensures r@ == (if prefix@.len() == 0 { name@ } else { prefix@ + "/"@ + name@ }),
{
    if prefix.unicode_len() == 0 {
        owned(name)
    } else {
        let a = concat2(prefix, "/");
        concat2(a.as_str(), name)
    }
}


fn text_or_empty(o: Option<String>) -> (r: String)
    ensures
        r@ == (match o {
            Some(s) => s@,
            None => Seq::<char>::empty(),
        }),
{
    match o {
        Some(s) => s,
        None => String::new(),
    }
}

/// A time in seconds as milliseconds, or `now` when chrono's dates do not
/// reach it.
pub fn created_millis(secs: i64, now_ms: i64) -> (r: i64)
    ensures
        r == secs * 1000 || r == now_ms,
        -8_000_000_000_000 <= secs <= 8_000_000_000_000 ==> r == secs * 1000,
{
    match seconds_to_millis(secs) {
        Some(ms) => ms,
        None => now_ms,
    }
}

/// A port mapping as Docker lists it: missing address and protocol are empty.
pub fn port_from_summary(ip: Option<String>, private_port: u16, public_port: Option<u16>, protocol: Option<String>)
    -> (p: DockerPort)
    ensures
        p.ip@ == (match ip { Some(s) => s@, None => Seq::<char>::empty() }),
        p.private_port == private_port && p.public_port == public_port,
        p.protocol@ == (match protocol { Some(s) => s@, None => Seq::<char>::empty() }),
{
    DockerPort { ip: text_or_empty(ip), private_port, public_port, protocol: text_or_empty(protocol) }
}

/// A container as Docker lists it: missing texts are empty, the name is its
/// first name without leading '/', created at its creation time (seconds,
/// 0 when not given) or `now` when that time is out of chrono's reach.
pub fn container_from_summary(id: Option<String>, names: Vec<String>, image: Option<String>, status: Option<String>,
    state: Option<String>, ports: Vec<DockerPort>, created_secs: Option<i64>, now_ms: i64) -> (c: DockerContainer)
    ensures
        c.id@ == (match id { Some(s) => s@, None => Seq::<char>::empty() }),
        c.name@ == container_name_of(crate::text::views(names@)),
        c.image@ == (match image { Some(s) => s@, None => Seq::<char>::empty() }),
        c.status@ == (match status { Some(s) => s@, None => Seq::<char>::empty() }),
        c.state@ == (match state { Some(s) => s@, None => Seq::<char>::empty() }),
        c.ports@ == ports@,
        ({
            let secs = match created_secs { Some(x) => x, None => 0 };
            c.created == secs * 1000 || c.created == now_ms
        }),
{
    let secs = match created_secs {
        Some(x) => x,
        None => 0,
    };
    DockerContainer {
        id: text_or_empty(id),
        name: container_name(&names),
        image: text_or_empty(image),
        status: text_or_empty(status),
        state: text_or_empty(state),
        ports,
        created: created_millis(secs, now_ms),
    }
}

/// An image as Docker lists it: no tags when none are given, its size (as an
/// unsigned count), created at its creation time or `now` when that time is
/// out of chrono's reach.
pub fn image_from_summary(id: String, tags: Option<Vec<String>>, size: u64, created_secs: i64, now_ms: i64)
    -> (i: DockerImage)
    ensures
        i.id == id,
        i.tags@ == (match tags { Some(t) => t@, None => Seq::<String>::empty() }),
        i.size == size,
        i.created == created_secs * 1000 || i.created == now_ms,
{
    let tags = match tags {
        Some(t) => t,
        None => Vec::new(),
    };
    DockerImage { id, tags, size, created: created_millis(created_secs, now_ms) }
}

/// The filters of a container listing: only running containers unless all
/// are asked for.
pub fn container_filters(all: bool) -> (r: Vec<(String, Vec<String>)>)
    ensures
        all ==> r@.len() == 0,
        !all ==> r@.len() == 1 && r@[0].0@ == "status"@ && r@[0].1@.len() == 1 && r@[0].1@[0]@ == "running"@,
{
    let mut r: Vec<(String, Vec<String>)> = Vec::new();
    if !all {
        r.push((owned("status"), vec![owned("running")]));
    }
    r
}

} // verus!
