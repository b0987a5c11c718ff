//! Podman: its command line, and the containers of services.

use crate::docker::DaemonError;
use crate::error::RuntimeError;
use crate::text::{
    decimal,
    at, decimal_text, find, from_chars, has_text, holds, lines, lower, lowered, parse_unsigned, replace,
    replaced, rfind, same, signed_text, split_lines, texts, to_chars, trim, trimmed, unsigned_value,
};
use vstd::prelude::*;
use vstd::string::*;

verus! {

// ── The command line ────────────────────────────────────────────────────────

/// A deployed pod.
#[derive(Debug)]
pub struct PodInfo {
    pub name: String,
    pub containers: Vec<String>,
}

/// Whether a line heads the list of containers.
pub open spec fn heads_containers(line: Seq<char>) -> bool {
    lowered(line) == "containers:"@ || lowered(line) == "container:"@
}

/// What has been read of the output of `podman kube play`: the containers so
/// far, and whether the list of containers goes on.
pub open spec fn play_state(ls: Seq<Seq<char>>) -> (Seq<Seq<char>>, bool)
    decreases ls.len(),
{
    if ls.len() == 0 {
        (seq![], false)
    } else {
        let (found, listing) = play_state(ls.drop_last());
        let line = trimmed(ls.last());
        if line.len() == 0 {
            (found, listing)
        } else if heads_containers(line) {
            (found, true)
        } else if line.last() == ':' {
            (found, false)
        } else if listing {
            (found.push(line), listing)
        } else {
            (found, listing)
        }
    }
}

/// Reads the containers from what `podman kube play` prints.
pub fn parse_kube_play_output(stdout: &str, pod_name: &str) -> (r: Result<PodInfo, RuntimeError>)
    ensures
        r is Ok,
        r->Ok_0.name@ == pod_name@,
        texts(r->Ok_0.containers@) == play_state(lines(stdout@)).0,
{
    let ls = split_lines(stdout);
    let ghost all = texts(ls@);
    let mut containers: Vec<String> = Vec::new();
    let mut listing: bool = false;
    let mut i: usize = 0;
    assert(texts(containers@) =~= seq![]);
    while i < ls.len()
        invariant
            i <= ls@.len(),
            all == texts(ls@),
            (texts(containers@), listing) == play_state(all.take(i as int)),
        decreases ls@.len() - i,
    {
        assert(all.take(i + 1).drop_last() =~= all.take(i as int));
        assert(all.take(i + 1).last() == ls@[i as int]@);
        let line = trim(ls[i].as_str());
        let v = to_chars(line.as_str());
        if v.len() > 0 {
            let small = lower(line.as_str());
            if same(small.as_str(), "containers:") || same(small.as_str(), "container:") {
                listing = true;
            } else if v[v.len() - 1] == ':' {
                listing = false;
            } else if listing {
                let ghost before = texts(containers@);
                containers.push(line);
                assert(texts(containers@) =~= before.push(line@));
            }
        }
        i = i + 1;
    }
    assert(all.take(i as int) =~= all);
    Ok(PodInfo { name: pod_name.to_owned(), containers })
}

/// The port behind the last colon of a line.
pub open spec fn line_port(line: Seq<char>) -> Option<nat> {
    match line.index_of_last(':') {
        Some(i) => unsigned_value(line.skip(i + 1), 0xffff),
        None => None,
    }
}

/// The port of the first line that has one.
pub open spec fn first_line_port(ls: Seq<Seq<char>>) -> Option<nat>
    decreases ls.len(),
{
    if ls.len() == 0 {
        None
    } else {
        match line_port(trimmed(ls[0])) {
            Some(p) => Some(p),
            None => first_line_port(ls.skip(1)),
        }
    }
}

/// Reads the host port from what `podman port` prints, such as
/// `0.0.0.0:54321`.
pub fn parse_port_output(stdout: &str) -> (r: Result<u16, RuntimeError>)
    ensures
        match r {
            Ok(p) => first_line_port(lines(trimmed(stdout@))) == Some(p as nat),
            Err(e) => first_line_port(lines(trimmed(stdout@))) is None && e is NoPortAssigned,
        },
{
    let whole = trim(stdout);
    let ls = split_lines(whole.as_str());
    let ghost all = texts(ls@);
    let mut i: usize = 0;
    assert(all.skip(0) =~= all);
    while i < ls.len()
        invariant
            i <= ls@.len(),
            all == texts(ls@),
            all == lines(trimmed(stdout@)),
            first_line_port(all) == first_line_port(all.skip(i as int)),
        decreases ls@.len() - i,
    {
        let line = trim(ls[i].as_str());
        let v = to_chars(line.as_str());
        let n: usize = v.len();
        assert(all.skip(i as int)[0] == ls@[i as int]@);
        match rfind(&v, ':') {
            Some(c) => {
                let tail = from_chars(&v, c + 1, n);
                assert(tail@ =~= line@.skip(c + 1));
                match parse_unsigned(tail.as_str(), 0xffff) {
                    Some(p) => {
                        return Ok(p as u16);
                    },
                    None => {},
                }
            },
            None => {},
        }
        assert(all.skip(i as int).skip(1) =~= all.skip(i + 1));
        i = i + 1;
    }
    Err(RuntimeError::NoPortAssigned)
}

/// Where the socket of Podman may lie, in the order to try: the user's runtime
/// directory, if there is one, then the system's.
pub fn socket_candidates(runtime_dir: &Option<String>) -> (r: Vec<String>)
    ensures
        texts(r@) == (match *runtime_dir {
            Some(d) => seq![d@ + "/podman/podman.sock"@],
            None => seq![],
        }) + seq!["/run/podman/podman.sock"@, "/var/run/podman/podman.sock"@],
{
    let mut out: Vec<String> = Vec::new();
    match runtime_dir {
        Some(d) => {
            out.push(d.clone().concat("/podman/podman.sock"));
        },
        None => {},
    }
    out.push("/run/podman/podman.sock".to_owned());
    out.push("/var/run/podman/podman.sock".to_owned());
    assert(texts(out@) =~= (match *runtime_dir {
        Some(d) => seq![d@ + "/podman/podman.sock"@],
        None => seq![],
    }) + seq!["/run/podman/podman.sock"@, "/var/run/podman/podman.sock"@]);
    out
}

/// Whether a socket is the system's, so that Podman runs as root.
pub fn is_rootful(socket_path: &str) -> (r: bool)
    ensures
        r == (socket_path@ == "/run/podman/podman.sock"@ || socket_path@ == "/var/run/podman/podman.sock"@),
{
    same(socket_path, "/run/podman/podman.sock") || same(socket_path, "/var/run/podman/podman.sock")
}

// ── Listed containers ───────────────────────────────────────────────────────

/// A container as the daemon lists it.
#[derive(Debug)]
pub struct ListedContainer {
    pub id: Option<String>,
    pub names: Option<Vec<String>>,
    pub state: Option<String>,
    /// The value of the label `slip.tag`.
    pub tag: Option<String>,
}

/// A container as it is shown.
#[derive(Debug)]
pub struct ContainerInfo {
    pub id: String,
    pub name: Option<String>,
    pub state: String,
    pub tag: Option<String>,
}

/// How a listed container is shown: its short id, its first name without
/// slashes before it, and its state.
pub open spec fn shown(c: ListedContainer, r: ContainerInfo) -> bool {
    &&& r.id@ == (match c.id {
        Some(id) => if id@.len() > 12 {
            id@.take(12)
        } else {
            id@
        },
        None => seq![],
    })
    &&& crate::text::opt_text(r.name) == (match c.names {
        Some(v) => if v@.len() > 0 {
            Some(crate::manifest::without_slashes(v@[0]@))
        } else {
            None
        },
        None => None,
    })
    &&& r.state@ == (match c.state {
        Some(s) => s@,
        None => "unknown"@,
    })
    &&& r.tag == c.tag
}

/// Shows a listed container.
pub fn show_container(c: &ListedContainer) -> (r: ContainerInfo)
    ensures
        shown(*c, r),
{
    let id: String = match &c.id {
        Some(id) => {
            let v = to_chars(id.as_str());
            let n: usize = if v.len() > 12 {
                12
            } else {
                v.len()
            };
            assert(v@.subrange(0, n as int) =~= if id@.len() > 12 {
                id@.take(12)
            } else {
                id@
            });
            from_chars(&v, 0, n)
        },
        None => String::new(),
    };
    let name: Option<String> = match &c.names {
        Some(v) => {
            if v.len() > 0 {
                Some(drop_slashes(v[0].as_str()))
            } else {
                None
            }
        },
        None => None,
    };
    ContainerInfo {
        id,
        name,
        state: match &c.state {
            Some(s) => s.clone(),
            None => "unknown".to_owned(),
        },
        tag: c.tag.clone(),
    }
}

fn drop_slashes(s: &str) -> (r: String)
    ensures
        r@ == crate::manifest::without_slashes(s@),
{
    let v = to_chars(s);
    let mut i: usize = 0;
    assert(s@.skip(0) =~= s@);
    while i < v.len() && v[i] == '/'
        invariant
            i <= v@.len(),
            v@ == s@,
            crate::manifest::without_slashes(s@) == crate::manifest::without_slashes(s@.skip(i as int)),
        decreases v@.len() - i,
    {
        assert(s@.skip(i as int).skip(1) =~= s@.skip(i + 1));
        i = i + 1;
    }
    assert(v@.subrange(i as int, v@.len() as int) =~= s@.skip(i as int));
    from_chars(&v, i, v.len())
}

// ── Logs ────────────────────────────────────────────────────────────────────

/// What the daemon is asked for of a container's log. Both streams are asked
/// for, with timestamps.
#[derive(Debug)]
pub struct LogPlan {
    /// Whether new lines are waited for.
    pub follow: bool,
    /// How many of the last lines are asked for.
    pub tail: String,
    /// The moment from which lines are asked for, in seconds.
    pub since: i64,
}

/// Plans the reading of a log: its last 200 lines, from its beginning unless a
/// moment is given.
pub fn plan_logs(since: Option<i64>, follow: bool) -> (p: LogPlan)
    ensures
        p.follow == follow,
        p.tail@ == "200"@,
        p.since == (match since {
            Some(n) => n,
            None => 0,
        }),
{
    LogPlan { follow, tail: "200".to_owned(), since: number_of(since) }
}

/// Where the daemon says that a line of a log came from.
#[derive(Clone, Copy, Debug, PartialEq, Eq, Structural)]
pub enum LogSource {
    StdOut,
    StdErr,
    StdIn,
    Console,
}

/// The stream under which a line of a log is shown.
#[derive(Clone, Copy, Debug, PartialEq, Eq, Structural)]
pub enum LogStream {
    StdOut,
    StdErr,
    Console,
}

/// The stream under which a line is shown; input is shown as the console's.
pub fn log_stream(source: LogSource) -> (r: LogStream)
    ensures
        r is StdOut <==> source is StdOut,
        r is StdErr <==> source is StdErr,
        r is Console <==> source is StdIn || source is Console,
{
    match source {
        LogSource::StdOut => LogStream::StdOut,
        LogSource::StdErr => LogStream::StdErr,
        LogSource::StdIn => LogStream::Console,
        LogSource::Console => LogStream::Console,
    }
}

// ── Services ────────────────────────────────────────────────────────────────

/// A mount of a container as the daemon reports it.
#[derive(Debug)]
pub struct MountFacts {
    pub source: Option<String>,
    pub destination: Option<String>,
    pub writable: Option<bool>,
}

/// A network of a container as the daemon reports it.
#[derive(Debug)]
pub struct NetworkFacts {
    pub name: String,
    pub aliases: Option<Vec<String>>,
}

/// What the daemon reports of a service's container. Its collections come in
/// the order in which they were read.
#[derive(Debug)]
pub struct ServiceFacts {
    pub id: Option<String>,
    pub name: Option<String>,
    pub hostname: Option<String>,
    pub labels: Option<Vec<(String, String)>>,
    pub repo_digests: Vec<String>,
    pub mounts: Option<Vec<MountFacts>>,
    pub networks: Option<Vec<NetworkFacts>>,
    /// The name of the restart policy, such as `UNLESS_STOPPED`.
    pub restart_policy: Option<String>,
    /// The name of the health status, such as `HEALTHY`.
    pub health_status: Option<String>,
    /// The host ports bound to each container port.
    pub port_bindings: Option<Vec<(String, Option<Vec<Option<String>>>)>>,
    pub running: Option<bool>,
    pub privileged: Option<bool>,
    pub read_only_rootfs: Option<bool>,
    pub memory: Option<i64>,
    pub nano_cpus: Option<i64>,
    pub pids_limit: Option<i64>,
    pub cap_drop: Option<Vec<String>>,
    pub cap_add: Option<Vec<String>>,
    pub security_opt: Option<Vec<String>>,
}

/// What is known of a service's container, with nothing left open.
#[derive(Debug)]
pub struct ServiceContainerInspect {
    pub container_id: String,
    pub name: Option<String>,
    pub hostname: Option<String>,
    pub labels: Vec<(String, String)>,
    pub repo_digests: Vec<String>,
    /// Source, destination, and whether the mount is read-only.
    pub mounts: Vec<(String, String, bool)>,
    pub networks: Vec<String>,
    pub network: String,
    pub network_aliases: Vec<String>,
    pub restart_policy: String,
    pub health_status: String,
    pub port_bindings: Vec<(u16, Option<String>)>,
    pub running: bool,
    pub privileged: bool,
    pub no_new_privileges: bool,
    pub read_only_rootfs: bool,
    pub cap_drop: Vec<String>,
    pub cap_add: Vec<String>,
    pub security_options: Vec<String>,
    pub memory_limit: i64,
    pub nano_cpus: i64,
    pub pids_limit: i64,
}

/// The text, or another if there is none.
pub open spec fn text_or(o: Option<String>, other: Seq<char>) -> Seq<char> {
    match o {
        Some(s) => s@,
        None => other,
    }
}

/// The texts, or none.
pub open spec fn texts_or_none(o: Option<Vec<String>>) -> Seq<String> {
    match o {
        Some(v) => v@,
        None => seq![],
    }
}

/// A name in small letters with hyphens.
pub open spec fn dashed(s: Seq<char>) -> Seq<char> {
    replaced(lowered(s), "_"@, "-"@)
}

/// A mount: source, destination, and whether it is read-only. One that is not
/// said to be read-only is writable.
pub open spec fn mount_of(m: MountFacts) -> (Seq<char>, Seq<char>, bool) {
    (text_or(m.source, seq![]), text_or(m.destination, seq![]), m.writable == Some(false))
}

/// The number before the slash of a port such as `80/tcp`, 0 if there is none.
pub open spec fn port_number(key: Seq<char>) -> nat {
    let head = match key.index_of_first('/') {
        Some(i) => key.take(i),
        None => key,
    };
    match unsigned_value(head, 0xffff) {
        Some(n) => n,
        None => 0,
    }
}

/// The bindings of one container port.
pub open spec fn port_pairs(p: (String, Option<Vec<Option<String>>>)) -> Seq<(u16, Option<String>)> {
    match p.1 {
        Some(v) => v@.map_values(|h: Option<String>| (port_number(p.0@) as u16, h)),
        None => seq![],
    }
}

/// The bindings of container ports, one after the other.
pub open spec fn all_port_pairs(ports: Seq<(String, Option<Vec<Option<String>>>)>) -> Seq<(u16, Option<String>)>
    decreases ports.len(),
{
    if ports.len() == 0 {
        seq![]
    } else {
        all_port_pairs(ports.drop_last()) + port_pairs(ports.last())
    }
}

/// What a service's container is, given what the daemon reports of it.
pub open spec fn inspected(requested: Seq<char>, f: ServiceFacts, r: ServiceContainerInspect) -> bool {
    &&& r.container_id@ == text_or(f.id, requested)
    &&& r.name == f.name
    &&& r.hostname == f.hostname
    &&& r.labels@ == (match f.labels {
        Some(l) => l@,
        None => seq![],
    })
    &&& r.repo_digests@ == f.repo_digests@
    &&& r.mounts@.map_values(|m: (String, String, bool)| (m.0@, m.1@, m.2)) == (match f.mounts {
        Some(v) => v@.map_values(|m: MountFacts| mount_of(m)),
        None => seq![],
    })
    &&& texts(r.networks@) == (match f.networks {
        Some(v) => v@.map_values(|n: NetworkFacts| n.name@),
        None => seq![],
    })
    &&& r.network@ == (match f.networks {
        Some(v) => if v@.len() > 0 {
            v@[0].name@
        } else {
            seq![]
        },
        None => seq![],
    })
    &&& r.network_aliases@ == (match f.networks {
        Some(v) => if v@.len() > 0 {
            texts_or_none(v@[0].aliases)
        } else {
            seq![]
        },
        None => seq![],
    })
    &&& r.restart_policy@ == (match f.restart_policy {
        Some(s) => dashed(s@),
        None => "no"@,
    })
    &&& r.health_status@ == (match f.health_status {
        Some(s) => dashed(s@),
        None => "none"@,
    })
    &&& r.port_bindings@ == (match f.port_bindings {
        Some(v) => all_port_pairs(v@),
        None => seq![],
    })
    &&& r.running == (f.running == Some(true))
    &&& r.privileged == (f.privileged == Some(true))
    &&& r.read_only_rootfs == (f.read_only_rootfs == Some(true))
    &&& r.memory_limit == (match f.memory {
        Some(n) => n,
        None => 0,
    })
    &&& r.nano_cpus == (match f.nano_cpus {
        Some(n) => n,
        None => 0,
    })
    &&& r.pids_limit == (match f.pids_limit {
        Some(n) => n,
        None => 0,
    })
    &&& r.cap_drop@ == texts_or_none(f.cap_drop)
    &&& r.cap_add@ == texts_or_none(f.cap_add)
    &&& r.security_options@ == texts_or_none(f.security_opt)
    &&& r.no_new_privileges == exists|i: int|
        0 <= i < r.security_options@.len() && has_text(
            (#[trigger] r.security_options@[i])@,
            "no-new-privileges"@,
        )
}

fn text_of(o: &Option<String>, other: &str) -> (r: String)
    ensures
        r@ == text_or(*o, other@),
{
    match o {
        Some(s) => s.clone(),
        None => other.to_owned(),
    }
}

fn texts_of(o: &Option<Vec<String>>) -> (r: Vec<String>)
    ensures
        r@ == texts_or_none(*o),
{
    match o {
        Some(v) => crate::text::copy_texts(v),
        None => {
            let none: Vec<String> = Vec::new();
            assert(none@ =~= seq![]);
            none
        },
    }
}

fn dash(s: &str) -> (r: String)
    ensures
        r@ == dashed(s@),
{
    proof {
        reveal_strlit("_");
    }
    replace(lower(s).as_str(), "_", "-")
}

fn number_of(o: Option<i64>) -> (r: i64)
    ensures
        r == (match o {
            Some(n) => n,
            None => 0,
        }),
{
    match o {
        Some(n) => n,
        None => 0,
    }
}

fn number_before_slash(key: &str) -> (r: u16)
    ensures
        r == port_number(key@),
{
    let v = to_chars(key);
    let end: usize = match find(&v, '/') {
        Some(i) => i,
        None => v.len(),
    };
    let head = from_chars(&v, 0, end);
    assert(head@ =~= (match key@.index_of_first('/') {
        Some(i) => key@.take(i),
        None => key@,
    }));
    match parse_unsigned(head.as_str(), 0xffff) {
        Some(n) => n as u16,
        None => 0,
    }
}

fn mounts_from(v: &Vec<MountFacts>) -> (r: Vec<(String, String, bool)>)
    ensures
        r@.map_values(|m: (String, String, bool)| (m.0@, m.1@, m.2)) == v@.map_values(|m: MountFacts| mount_of(m)),
{
    let mut out: Vec<(String, String, bool)> = Vec::new();
    let mut i: usize = 0;
    while i < v.len()
        invariant
            i <= v@.len(),
            out@.len() == i,
            forall|k: int|
                0 <= k < i ==> ((#[trigger] out@[k]).0@, out@[k].1@, out@[k].2) == mount_of(v@[k]),
        decreases v@.len() - i,
    {
        let read_only: bool = match v[i].writable {
            Some(w) => !w,
            None => false,
        };
        out.push((text_of(&v[i].source, ""), text_of(&v[i].destination, ""), read_only));
        proof {
            reveal_strlit("");
            assert(""@ =~= seq![]);
        }
        i = i + 1;
    }
    assert(out@.map_values(|m: (String, String, bool)| (m.0@, m.1@, m.2)) =~= v@.map_values(
        |m: MountFacts| mount_of(m),
    ));
    out
}

fn bound_to(port: u16, b: &Vec<Option<String>>) -> (r: Vec<(u16, Option<String>)>)
    ensures
        r@ == b@.map_values(|h: Option<String>| (port, h)),
{
    let mut out: Vec<(u16, Option<String>)> = Vec::new();
    let mut i: usize = 0;
    while i < b.len()
        invariant
            i <= b@.len(),
            out@.len() == i,
            forall|k: int| 0 <= k < i ==> #[trigger] out@[k] == (port, b@[k]),
        decreases b@.len() - i,
    {
        out.push((port, b[i].clone()));
        i = i + 1;
    }
    assert(out@ =~= b@.map_values(|h: Option<String>| (port, h)));
    out
}

fn said(o: Option<bool>) -> (r: bool)
    ensures
        r == (o == Some(true)),
{
    match o {
        Some(b) => b,
        None => false,
    }
}

fn ports_from(v: &Vec<(String, Option<Vec<Option<String>>>)>) -> (r: Vec<(u16, Option<String>)>)
    ensures
        r@ == all_port_pairs(v@),
{
    let mut out: Vec<(u16, Option<String>)> = Vec::new();
    let mut i: usize = 0;
    assert(out@ =~= all_port_pairs(v@.take(0)));
    while i < v.len()
        invariant
            i <= v@.len(),
            out@ == all_port_pairs(v@.take(i as int)),
        decreases v@.len() - i,
    {
        assert(v@.take(i + 1).drop_last() =~= v@.take(i as int));
        assert(v@.take(i + 1).last() == v@[i as int]);
        let port: u16 = number_before_slash(v[i].0.as_str());
        let ghost before = out@;
        match &v[i].1 {
            Some(b) => {
                let mut part = bound_to(port, b);
                out.append(&mut part);
            },
            None => {
                assert(before + port_pairs(v@[i as int]) =~= before);
            },
        }
        i = i + 1;
    }
    assert(v@.take(i as int) =~= v@);
    out
}

fn network_names(v: &Vec<NetworkFacts>) -> (r: Vec<String>)
    ensures
        texts(r@) == v@.map_values(|n: NetworkFacts| n.name@),
{
    let mut out: Vec<String> = Vec::new();
    let mut i: usize = 0;
    while i < v.len()
        invariant
            i <= v@.len(),
            out@.len() == i,
            forall|k: int| 0 <= k < i ==> (#[trigger] out@[k])@ == v@[k].name@,
        decreases v@.len() - i,
    {
        out.push(v[i].name.clone());
        i = i + 1;
    }
    assert(texts(out@) =~= v@.map_values(|n: NetworkFacts| n.name@));
    out
}

/// Makes out what a service's container is from what the daemon reports of
/// it. `container_id` is the id it was asked by.
pub fn inspect_service(container_id: &str, f: &ServiceFacts) -> (r: ServiceContainerInspect)
    ensures
        inspected(container_id@, *f, r),
{
    let none_labels: Vec<(String, String)> = Vec::new();
    let none_texts: Vec<String> = Vec::new();
    let none_mounts: Vec<(String, String, bool)> = Vec::new();
    let none_ports: Vec<(u16, Option<String>)> = Vec::new();
    assert(none_labels@ =~= seq![]);
    assert(texts(none_texts@) =~= seq![]);
    assert(none_mounts@.map_values(|m: (String, String, bool)| (m.0@, m.1@, m.2)) =~= seq![]);
    assert(none_ports@ =~= seq![]);
    let mut network: String = String::new();
    let mut network_aliases: Vec<String> = Vec::new();
    assert(network@ =~= seq![]);
    assert(network_aliases@ =~= seq![]);
    match &f.networks {
        Some(v) => {
            if v.len() > 0 {
                network = v[0].name.clone();
                network_aliases = texts_of(&v[0].aliases);
            }
        },
        None => {},
    }
    let security_options = texts_of(&f.security_opt);
    let mut no_new_privileges: bool = false;
    let mut i: usize = 0;
    while i < security_options.len()
        invariant
            i <= security_options@.len(),
            no_new_privileges == exists|k: int|
                0 <= k < i && has_text((#[trigger] security_options@[k])@, "no-new-privileges"@),
        decreases security_options@.len() - i,
    {
        if holds(security_options[i].as_str(), "no-new-privileges") {
            assert(has_text(security_options@[i as int]@, "no-new-privileges"@));
            no_new_privileges = true;
        }
        i = i + 1;
    }
    ServiceContainerInspect {
        container_id: text_of(&f.id, container_id),
        name: f.name.clone(),
        hostname: f.hostname.clone(),
        labels: match &f.labels {
            Some(l) => crate::config::copy_pairs(l),
            None => none_labels,
        },
        repo_digests: crate::text::copy_texts(&f.repo_digests),
        mounts: match &f.mounts {
            Some(v) => mounts_from(v),
            None => none_mounts,
        },
        networks: match &f.networks {
            Some(v) => network_names(v),
            None => none_texts,
        },
        network,
        network_aliases,
        restart_policy: match &f.restart_policy {
            Some(s) => dash(s.as_str()),
            None => "no".to_owned(),
        },
        health_status: match &f.health_status {
            Some(s) => dash(s.as_str()),
            None => "none".to_owned(),
        },
        port_bindings: match &f.port_bindings {
            Some(v) => ports_from(v),
            None => none_ports,
        },
        running: said(f.running),
        privileged: said(f.privileged),
        no_new_privileges,
        read_only_rootfs: said(f.read_only_rootfs),
        cap_drop: texts_of(&f.cap_drop),
        cap_add: texts_of(&f.cap_add),
        security_options,
        memory_limit: number_of(f.memory),
        nano_cpus: number_of(f.nano_cpus),
        pids_limit: number_of(f.pids_limit),
    }
}

/// A service's container is privileged, read-only or running only where the
/// daemon says so, and is never taken to be hardened without being told.
pub proof fn silence_grants_nothing(requested: Seq<char>, f: ServiceFacts, r: ServiceContainerInspect)
    requires
        inspected(requested, f, r),
    ensures
        f.running is None ==> !r.running,
        f.privileged is None ==> !r.privileged,
        f.read_only_rootfs is None ==> !r.read_only_rootfs,
        f.security_opt is None ==> !r.no_new_privileges,
        f.cap_drop is None ==> r.cap_drop@.len() == 0,
{
}

// ── Starting services ───────────────────────────────────────────────────────

/// How a service's container is probed by the runtime.
#[derive(Debug)]
pub struct ServiceHealthcheck {
    pub test_cmd: Vec<String>,
    pub interval_secs: i64,
    pub timeout_secs: i64,
    pub retries: i64,
    pub start_period_secs: i64,
}

/// A service to run.
#[derive(Debug)]
pub struct ServiceContainerSpec {
    pub name: String,
    /// The image, by digest.
    pub image: String,
    pub hostname: String,
    pub network: String,
    pub env: Vec<(String, String)>,
    pub labels: Vec<(String, String)>,
    pub mounts: Vec<crate::docker::BindMount>,
    pub healthcheck: ServiceHealthcheck,
    pub memory_bytes: Option<i64>,
    pub nano_cpus: Option<i64>,
    pub pids_limit: Option<i64>,
    pub read_only_rootfs: bool,
    /// Mount points of temporary file systems, with their options.
    pub tmpfs_mounts: Vec<(String, String)>,
}

/// A service's container as the daemon is asked for it. It binds no port, and
/// is restarted unless it was stopped.
#[derive(Debug)]
pub struct ServicePlan {
    pub env: Vec<String>,
    pub interval_nanos: i64,
    pub timeout_nanos: i64,
    pub start_period_nanos: i64,
    pub security_opt: Vec<String>,
    pub cap_drop: Vec<String>,
    /// Absent where there are none.
    pub tmpfs: Option<Vec<(String, String)>>,
}

/// Whether a number of seconds can be counted in nanoseconds.
pub open spec fn countable_secs(n: i64) -> bool {
    i64::MIN <= n * 1_000_000_000 <= i64::MAX
}

/// What a service is run with: no new privileges, no capabilities, and times
/// in nanoseconds.
pub open spec fn service_planned(s: ServiceContainerSpec, p: ServicePlan) -> bool {
    &&& texts(p.env@) == crate::deploy::env_texts(s.env@)
    &&& p.interval_nanos == s.healthcheck.interval_secs * 1_000_000_000
    &&& p.timeout_nanos == s.healthcheck.timeout_secs * 1_000_000_000
    &&& p.start_period_nanos == s.healthcheck.start_period_secs * 1_000_000_000
    &&& texts(p.security_opt@) == seq!["no-new-privileges:true"@]
    &&& texts(p.cap_drop@) == seq!["ALL"@]
    &&& match p.tmpfs {
        Some(v) => s.tmpfs_mounts@.len() > 0 && v@ == s.tmpfs_mounts@,
        None => s.tmpfs_mounts@.len() == 0,
    }
}

/// Plans the container of a service.
pub fn plan_service(s: &ServiceContainerSpec) -> (p: ServicePlan)
    requires
        countable_secs(s.healthcheck.interval_secs),
        countable_secs(s.healthcheck.timeout_secs),
        countable_secs(s.healthcheck.start_period_secs),
    ensures
        service_planned(*s, p),
{
    let mut env: Vec<String> = Vec::new();
    let mut i: usize = 0;
    while i < s.env.len()
        invariant
            i <= s.env@.len(),
            env@.len() == i,
            forall|k: int|
                0 <= k < i ==> (#[trigger] env@[k])@ == crate::deploy::env_text(s.env@[k].0@, s.env@[k].1@),
        decreases s.env@.len() - i,
    {
        env.push(s.env[i].0.clone().concat("=").concat(s.env[i].1.as_str()));
        i = i + 1;
    }
    assert(texts(env@) =~= crate::deploy::env_texts(s.env@));
    let mut security_opt: Vec<String> = Vec::new();
    security_opt.push("no-new-privileges:true".to_owned());
    assert(texts(security_opt@) =~= seq!["no-new-privileges:true"@]);
    let mut cap_drop: Vec<String> = Vec::new();
    cap_drop.push("ALL".to_owned());
    assert(texts(cap_drop@) =~= seq!["ALL"@]);
    ServicePlan {
        env,
        interval_nanos: s.healthcheck.interval_secs * 1_000_000_000,
        timeout_nanos: s.healthcheck.timeout_secs * 1_000_000_000,
        start_period_nanos: s.healthcheck.start_period_secs * 1_000_000_000,
        security_opt,
        cap_drop,
        tmpfs: if s.tmpfs_mounts.len() == 0 {
            None
        } else {
            Some(crate::config::copy_pairs(&s.tmpfs_mounts))
        },
    }
}

// ── What the daemon's errors mean ───────────────────────────────────────────

/// The error that a failed look at a container amounts to.
pub fn inspect_failure(e: DaemonError) -> (r: RuntimeError)
    ensures
        r matches RuntimeError::ContainerError(m) && m@ == (if e.status == Some(404u16) {
            "container not found"@
        } else {
            e.message@
        }),
{
    if e.status == Some(404) {
        RuntimeError::ContainerError("container not found".to_owned())
    } else {
        RuntimeError::ContainerError(e.message)
    }
}

/// Whether a network has to be created, by what looking at it came to.
pub fn network_is_missing(result: Result<(), DaemonError>) -> (r: Result<bool, RuntimeError>)
    ensures
        match result {
            Ok(_) => r == Ok::<bool, RuntimeError>(false),
            Err(e) => if e.status == Some(404u16) {
                r == Ok::<bool, RuntimeError>(true)
            } else {
                r == Err::<bool, RuntimeError>(RuntimeError::NetworkError(e.message))
            },
        },
{
    match result {
        Ok(_) => Ok(false),
        Err(e) => if e.status == Some(404) {
            Ok(true)
        } else {
            Err(RuntimeError::NetworkError(e.message))
        },
    }
}

// ── Command outcomes ────────────────────────────────────────────────────────

/// What running a command in a container came to: its output, or a failure
/// with the exit code, -1 if a signal ended it.
pub fn exec_outcome(success: bool, code: Option<i32>, stdout: &str, stderr: &str) -> (r: Result<String, RuntimeError>)
    ensures
        match r {
            Ok(out) => success && out@ == stdout@ + stderr@,
            Err(RuntimeError::ExecFailed(m)) => !success && m@ == "exit code "@ + signed_text(
                code_or_minus_one(code),
            ) + ": "@ + (stdout@ + stderr@),
            Err(_) => false,
        },
{
    let combined = stdout.to_owned().concat(stderr);
    if success {
        Ok(combined)
    } else {
        Err(
            RuntimeError::ExecFailed(
                "exit code ".to_owned().concat(write_signed(code_of(code)).as_str()).concat(": ").concat(
                    combined.as_str(),
                ),
            ),
        )
    }
}

/// What `podman kube play` came to, by its exit status.
pub fn play_failure(down: bool, code: Option<i32>, stderr: &str) -> (r: RuntimeError)
    ensures
        r matches RuntimeError::ContainerError(m) && m@ == (if down {
            "podman kube play --down failed (exit "@
        } else {
            "podman kube play failed (exit "@
        }) + signed_text(code_or_minus_one(code)) + "): "@ + stderr@,
{
    let start = if down {
        "podman kube play --down failed (exit ".to_owned()
    } else {
        "podman kube play failed (exit ".to_owned()
    };
    RuntimeError::ContainerError(
        start.concat(write_signed(code_of(code)).as_str()).concat("): ").concat(stderr),
    )
}

/// What a probe of a service came to, by its exit status.
pub fn probe_outcome(success: bool, code: Option<i32>) -> (r: Result<(), RuntimeError>)
    ensures
        match r {
            Ok(_) => success,
            Err(RuntimeError::ExecFailed(m)) => !success && m@ == "exec exited with code "@ + signed_text(
                code_or_minus_one(code),
            ),
            Err(_) => false,
        },
{
    if success {
        Ok(())
    } else {
        Err(
            RuntimeError::ExecFailed(
                "exec exited with code ".to_owned().concat(write_signed(code_of(code)).as_str()),
            ),
        )
    }
}

/// An exit code, -1 if there is none.
pub open spec fn code_or_minus_one(code: Option<i32>) -> int {
    match code {
        Some(c) => c as int,
        None => -1,
    }
}

fn code_of(code: Option<i32>) -> (r: i32)
    ensures
        r == code_or_minus_one(code),
{
    match code {
        Some(c) => c,
        None => -1,
    }
}

fn write_signed(n: i32) -> (r: String)
    ensures
        r@ == signed_text(n as int),
{
    if n < 0 {
        "-".to_owned().concat(decimal_text((-(n as i64)) as u64).as_str())
    } else {
        decimal_text(n as u64)
    }
}

/// What the daemon reports of a service's container is what is told of it: its
/// state, its limits, its capabilities and every mount, network and port.
pub proof fn what_is_reported_is_told(requested: Seq<char>, f: ServiceFacts, r: ServiceContainerInspect)
    requires
        inspected(requested, f, r),
    ensures
        f.id matches Some(id) ==> r.container_id@ == id@,
        f.id is None ==> r.container_id@ == requested,
        r.name == f.name,
        r.hostname == f.hostname,
        f.labels matches Some(l) ==> r.labels@ == l@,
        r.repo_digests@ == f.repo_digests@,
        f.running matches Some(b) ==> r.running == b,
        f.privileged matches Some(b) ==> r.privileged == b,
        f.read_only_rootfs matches Some(b) ==> r.read_only_rootfs == b,
        f.memory matches Some(n) ==> r.memory_limit == n,
        f.nano_cpus matches Some(n) ==> r.nano_cpus == n,
        f.pids_limit matches Some(n) ==> r.pids_limit == n,
        f.memory is None ==> r.memory_limit == 0,
        f.nano_cpus is None ==> r.nano_cpus == 0,
        f.pids_limit is None ==> r.pids_limit == 0,
        f.cap_drop matches Some(v) ==> r.cap_drop@ == v@,
        f.cap_add matches Some(v) ==> r.cap_add@ == v@,
        f.security_opt matches Some(v) ==> r.security_options@ == v@,
        r.no_new_privileges <==> exists|i: int|
            0 <= i < r.security_options@.len() && has_text((#[trigger] r.security_options@[i])@, "no-new-privileges"@),
        f.mounts matches Some(v) ==> r.mounts@.len() == v@.len() && forall|i: int|
            0 <= i < v@.len() ==> {
                &&& (#[trigger] v@[i]).source matches Some(s) ==> r.mounts@[i].0@ == s@
                &&& v@[i].destination matches Some(s) ==> r.mounts@[i].1@ == s@
                &&& r.mounts@[i].2 <==> v@[i].writable == Some(false)
            },
        f.networks matches Some(v) ==> r.networks@.len() == v@.len() && (forall|i: int|
            0 <= i < v@.len() ==> r.networks@[i]@ == (#[trigger] v@[i]).name@) && (v@.len() > 0 ==> r.network@
            == v@[0].name@ && (v@[0].aliases matches Some(a) ==> r.network_aliases@ == a@)),
        f.port_bindings matches Some(v) ==> forall|i: int, k: int|
            0 <= i < v@.len() && v@[i].1 is Some && 0 <= k < v@[i].1->0@.len() ==> r.port_bindings@.contains(
                (port_number(v@[i].0@) as u16, #[trigger] v@[i].1->0@[k]),
            ),
{
    if f.mounts is Some {
        let v = f.mounts->0@;
        let told = r.mounts@.map_values(|m: (String, String, bool)| (m.0@, m.1@, m.2));
        assert(told.len() == r.mounts@.len());
        assert forall|i: int| 0 <= i < v.len() implies {
            &&& (#[trigger] v[i]).source matches Some(s) ==> r.mounts@[i].0@ == s@
            &&& v[i].destination matches Some(s) ==> r.mounts@[i].1@ == s@
            &&& r.mounts@[i].2 <==> v[i].writable == Some(false)
        } by {
            assert(told[i] == (r.mounts@[i].0@, r.mounts@[i].1@, r.mounts@[i].2));
            assert(told[i] == mount_of(v[i]));
        }
    }
    if f.networks is Some {
        let v = f.networks->0@;
        let told = texts(r.networks@);
        assert(told.len() == r.networks@.len());
        assert forall|i: int| 0 <= i < v.len() implies r.networks@[i]@ == (#[trigger] v[i]).name@ by {
            assert(told[i] == r.networks@[i]@);
        }
    }
    if f.port_bindings is Some {
        let v = f.port_bindings->0@;
        assert forall|i: int, k: int| 0 <= i < v.len() && v[i].1 is Some && 0 <= k < v[i].1->0@.len() implies r.port_bindings@.contains(
            (port_number(v[i].0@) as u16, #[trigger] v[i].1->0@[k]),
        ) by {
            binding_is_listed(v, i, k);
        }
    }
}

proof fn binding_is_listed(ports: Seq<(String, Option<Vec<Option<String>>>)>, i: int, k: int)
    requires
        0 <= i < ports.len(),
        ports[i].1 is Some,
        0 <= k < ports[i].1->0@.len(),
    ensures
        all_port_pairs(ports).contains((port_number(ports[i].0@) as u16, ports[i].1->0@[k])),
    decreases ports.len(),
{
    let init = all_port_pairs(ports.drop_last());
    let last = port_pairs(ports.last());
    let pair = (port_number(ports[i].0@) as u16, ports[i].1->0@[k]);
    if i == ports.len() - 1 {
        assert(last[k] == pair);
        assert((init + last)[init.len() + k] == pair);
    } else {
        assert(ports.drop_last()[i] == ports[i]);
        binding_is_listed(ports.drop_last(), i, k);
        let j = choose|j: int| 0 <= j < init.len() && init[j] == pair;
        assert((init + last)[j] == pair);
    }
}

/// The number of a container port is the one before the slash.
pub proof fn a_port_is_read(n: nat, protocol: Seq<char>)
    requires
        n <= 0xffff,
    ensures
        port_number(decimal(n) + seq!['/'] + protocol) == n,
{
    let key = decimal(n) + seq!['/'] + protocol;
    crate::text::decimal_reads_back(n);
    let at = decimal(n).len() as int;
    assert(key[at] == '/');
    assert(key.contains('/'));
    key.index_of_first_ensures('/');
    assert forall|i: int| 0 <= i < at implies key[i] != '/' by {
        assert(crate::text::is_digit(decimal(n)[i]));
        assert(key[i] == decimal(n)[i]);
    }
    assert(key.index_of_first('/') == Some(at));
    assert(key.take(at) =~= decimal(n));
    assert(crate::text::is_digit(decimal(n)[0]));
}

/// What is listed under the heading of containers is taken for containers, line
/// by line.
pub proof fn listed_containers_are_found(before: Seq<Seq<char>>, heading: Seq<char>, ids: Seq<Seq<char>>)
    requires
        lowered(trimmed(heading)) == "containers:"@ || lowered(trimmed(heading)) == "container:"@,
        trimmed(heading).len() > 0,
        forall|i: int|
            0 <= i < ids.len() ==> trimmed(#[trigger] ids[i]).len() > 0 && trimmed(ids[i]).last() != ':'
                && lowered(trimmed(ids[i])) != "containers:"@ && lowered(trimmed(ids[i])) != "container:"@,
    ensures
        play_state(before.push(heading) + ids) == (
            play_state(before).0 + ids.map_values(|s: Seq<char>| trimmed(s)),
            true,
        ),
    decreases ids.len(),
{
    let all = before.push(heading) + ids;
    let found = ids.map_values(|s: Seq<char>| trimmed(s));
    if ids.len() == 0 {
        assert(all =~= before.push(heading));
        assert(all.drop_last() =~= before);
        assert(play_state(before).0 + found =~= play_state(before).0);
    } else {
        let init = ids.drop_last();
        assert forall|i: int| 0 <= i < init.len() implies trimmed(#[trigger] init[i]).len() > 0 && trimmed(
            init[i],
        ).last() != ':' && lowered(trimmed(init[i])) != "containers:"@ && lowered(trimmed(init[i]))
            != "container:"@ by {
            assert(init[i] == ids[i]);
        }
        listed_containers_are_found(before, heading, init);
        assert(all.drop_last() =~= before.push(heading) + init);
        assert(all.last() == ids[ids.len() - 1]);
        assert(play_state(before).0 + found =~= (play_state(before).0 + init.map_values(
            |s: Seq<char>| trimmed(s),
        )).push(trimmed(ids.last())));
    }
}

/// Nothing is taken for a container before the heading of containers, nor under
/// another heading.
pub proof fn nothing_else_is_a_container(before: Seq<Seq<char>>, ls: Seq<Seq<char>>)
    requires
        before.len() == 0 || trimmed(before.last()).len() > 0 && trimmed(before.last()).last() == ':',
        before.len() > 0 ==> !heads_containers(trimmed(before.last())),
        forall|i: int| 0 <= i < ls.len() ==> !heads_containers(trimmed(#[trigger] ls[i])),
    ensures
        play_state(before + ls) == (play_state(before).0, false),
    decreases ls.len(),
{
    let all = before + ls;
    if ls.len() == 0 {
        assert(all =~= before);
    } else {
        let init = ls.drop_last();
        assert forall|i: int| 0 <= i < init.len() implies !heads_containers(trimmed(#[trigger] init[i])) by {
            assert(init[i] == ls[i]);
        }
        nothing_else_is_a_container(before, init);
        assert(all.drop_last() =~= before + init);
        assert(all.last() == ls[ls.len() - 1]);
    }
}

/// The port that is read is that of the first line which has one.
pub proof fn the_first_port_is_read(ls: Seq<Seq<char>>, i: int, address: Seq<char>, n: nat)
    requires
        0 <= i < ls.len(),
        n <= 0xffff,
        trimmed(ls[i]) == address + seq![':'] + decimal(n),
        forall|j: int| 0 <= j < i ==> !trimmed(#[trigger] ls[j]).contains(':'),
    ensures
        first_line_port(ls) == Some(n),
    decreases ls.len(),
{
    if i == 0 {
        let line = trimmed(ls[0]);
        crate::text::decimal_reads_back(n);
        assert(!decimal(n).contains(':')) by {
            if decimal(n).contains(':') {
                let k = choose|k: int| 0 <= k < decimal(n).len() && decimal(n)[k] == ':';
                assert(crate::text::is_digit(decimal(n)[k]));
            }
        }
        assert(line =~= address.push(':') + decimal(n));
        crate::text::last_place(address, ':', decimal(n));
        assert(line.skip(address.len() as int + 1) =~= decimal(n));
        assert(crate::text::is_digit(decimal(n)[0]));
    } else {
        let first = trimmed(ls[0]);
        assert(!first.contains(':'));
        first.index_of_last_ensures(':');
        let rest = ls.skip(1);
        assert(rest[i - 1] == ls[i]);
        assert forall|j: int| 0 <= j < i - 1 implies !trimmed(#[trigger] rest[j]).contains(':') by {
            assert(rest[j] == ls[j + 1]);
        }
        the_first_port_is_read(rest, i - 1, address, n);
    }
}

/// A service is run with the environment, the times and the temporary file
/// systems that were asked for, and without any privilege.
pub proof fn a_service_is_run_as_asked(s: ServiceContainerSpec, p: ServicePlan, i: int)
    requires
        service_planned(s, p),
    ensures
        p.env@.len() == s.env@.len(),
        0 <= i < s.env@.len() ==> p.env@[i]@ == s.env@[i].0@ + "="@ + s.env@[i].1@,
        p.interval_nanos == s.healthcheck.interval_secs * 1_000_000_000,
        p.timeout_nanos == s.healthcheck.timeout_secs * 1_000_000_000,
        p.start_period_nanos == s.healthcheck.start_period_secs * 1_000_000_000,
        p.security_opt@.len() == 1 && p.security_opt@[0]@ == "no-new-privileges:true"@,
        p.cap_drop@.len() == 1 && p.cap_drop@[0]@ == "ALL"@,
        s.tmpfs_mounts@.len() > 0 ==> (p.tmpfs matches Some(v) && v@ == s.tmpfs_mounts@),
        s.tmpfs_mounts@.len() == 0 ==> p.tmpfs is None,
{
    assert(texts(p.env@).len() == p.env@.len());
    assert(texts(p.security_opt@).len() == p.security_opt@.len());
    assert(texts(p.cap_drop@).len() == p.cap_drop@.len());
    assert(texts(p.security_opt@)[0] == p.security_opt@[0]@);
    assert(texts(p.cap_drop@)[0] == p.cap_drop@[0]@);
    if 0 <= i < s.env@.len() {
        assert(texts(p.env@)[i] == p.env@[i]@);
    }
}

} // verus!
