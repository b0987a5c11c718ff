//! Containers: what is asked of the daemon, and what its answers mean.

use crate::error::{DockerError, RuntimeError};
use crate::merge::MergedVolume;
use crate::rollout::CreateRequest;
use crate::text::{
    all_white, at, byte_len, copy_texts, count_bytes, decimal, decimal_reads_back, decimal_text, ends_with, from_chars,
    integer_reads_back, is_digit, is_white, lower, lowered, padding_is_trimmed, parse_signed, parse_unsigned, same,
    signed_text, signed_value, to_chars, trim, trimmed, trimming_keeps_the_case, unsigned_value,
};
use vstd::prelude::*;
use vstd::string::*;
use vstd::utf8::{encode_utf8, is_char_boundary};

verus! {

// ── Memory limits ───────────────────────────────────────────────────────────

/// The number part of a memory limit and what its unit multiplies it with.
pub open spec fn memory_parts(s: Seq<char>) -> (Seq<char>, int) {
    if ends_with(s, "g"@) {
        (s.take(s.len() - 1), 1_073_741_824)
    } else if ends_with(s, "gb"@) {
        (s.take(s.len() - 2), 1_073_741_824)
    } else if ends_with(s, "m"@) {
        (s.take(s.len() - 1), 1_048_576)
    } else if ends_with(s, "mb"@) {
        (s.take(s.len() - 2), 1_048_576)
    } else if ends_with(s, "k"@) {
        (s.take(s.len() - 1), 1024)
    } else if ends_with(s, "kb"@) {
        (s.take(s.len() - 2), 1024)
    } else {
        (s, 1)
    }
}

/// The bytes that a memory limit such as `512m` or `1g` stands for, in either
/// case of letters.
pub open spec fn memory_bytes(limit: Option<String>) -> Option<int> {
    match limit {
        Some(text) => {
            let s = lowered(trimmed(text@));
            let (number, unit) = memory_parts(s);
            match signed_value(trimmed(number)) {
                Some(n) => Some(n * unit),
                None => None,
            }
        },
        None => None,
    }
}

/// Whether a memory limit is not beyond what 64 bits can count.
pub open spec fn memory_fits(limit: Option<String>) -> bool {
    memory_bytes(limit) matches Some(n) ==> i64::MIN <= n <= i64::MAX
}

fn cut_suffix(s: &Vec<char>, suffix: &str) -> (r: Option<String>)
    ensures
        match r {
            Some(t) => ends_with(s@, suffix@) && t@ == s@.take(s@.len() - suffix@.len()),
            None => !ends_with(s@, suffix@),
        },
{
    let p = to_chars(suffix);
    if p.len() > s.len() {
        return None;
    }
    let n: usize = s.len() - p.len();
    if at(s, &p, n) {
        assert(s@.subrange(0, n as int) =~= s@.take(n as int));
        Some(from_chars(s, 0, n))
    } else {
        None
    }
}

proof fn empty_is_no_number(s: Seq<char>)
    requires
        s.len() == 0,
    ensures
        signed_value(trimmed(memory_parts(s).0)) is None,
{
    reveal_strlit("g");
    reveal_strlit("gb");
    reveal_strlit("m");
    reveal_strlit("mb");
    reveal_strlit("k");
    reveal_strlit("kb");
    assert(trimmed(s) == s);
}

/// Reads a memory limit, however large.
fn read_memory(memory: &Option<String>) -> (r: Option<i128>)
    ensures
        memory_bytes(*memory) == (match r {
            Some(n) => Some(n as int),
            None => None,
        }),
{
    let text = match memory {
        Some(t) => t,
        None => {
            return None;
        },
    };
    let s = lower(trim(text.as_str()).as_str());
    let v = to_chars(s.as_str());
    if v.len() == 0 {
        proof {
            empty_is_no_number(s@);
        }
        return None;
    }
    let (number, unit): (String, i128) = match cut_suffix(&v, "g") {
        Some(t) => (t, 1_073_741_824),
        None => match cut_suffix(&v, "gb") {
            Some(t) => (t, 1_073_741_824),
            None => match cut_suffix(&v, "m") {
                Some(t) => (t, 1_048_576),
                None => match cut_suffix(&v, "mb") {
                    Some(t) => (t, 1_048_576),
                    None => match cut_suffix(&v, "k") {
                        Some(t) => (t, 1024),
                        None => match cut_suffix(&v, "kb") {
                            Some(t) => (t, 1024),
                            None => (s.clone(), 1),
                        },
                    },
                },
            },
        },
    };
    proof {
        reveal_strlit("g");
        reveal_strlit("gb");
        reveal_strlit("m");
        reveal_strlit("mb");
        reveal_strlit("k");
        reveal_strlit("kb");
        assert((number@, unit as int) == memory_parts(s@));
    }
    match parse_signed(trim(number.as_str()).as_str()) {
        Some(n) => {
            assert(-0x8000_0000_0000_0000int * 1_073_741_824 <= n * unit <= 0x7fff_ffff_ffff_ffffint * 1_073_741_824)
                by (nonlinear_arith)
                requires
                    -0x8000_0000_0000_0000int <= n <= 0x7fff_ffff_ffff_ffffint,
                    1 <= unit <= 1_073_741_824,
            ;
            Some(n as i128 * unit)
        },
        None => None,
    }
}

/// The bytes that a memory limit stands for; none if it is not set or cannot
/// be read.
pub fn parse_memory_limit(memory: &Option<String>) -> (r: Option<i64>)
    requires
        memory_fits(*memory),
    ensures
        memory_bytes(*memory) == (match r {
            Some(n) => Some(n as int),
            None => None,
        }),
{
    match read_memory(memory) {
        Some(n) => Some(n as i64),
        None => None,
    }
}

/// What a unit multiplies the number of a memory limit with.
pub open spec fn unit_factor(unit: Seq<char>) -> Option<int> {
    if unit == "g"@ || unit == "gb"@ {
        Some(1_073_741_824)
    } else if unit == "m"@ || unit == "mb"@ {
        Some(1_048_576)
    } else if unit == "k"@ || unit == "kb"@ {
        Some(1024)
    } else if unit == ""@ {
        Some(1)
    } else {
        None
    }
}

/// An integer that is written with a unit, or with none, is read as that many
/// of the unit, whatever the case of the letters and whatever white space stands
/// before, between and after. It can be counted as far as 64 bits hold the
/// product.
pub proof fn a_limit_is_its_number_of_units(
    limit: String,
    n: int,
    unit: Seq<char>,
    front: Seq<char>,
    body: Seq<char>,
    gap: Seq<char>,
    back: Seq<char>,
)
    requires
        i64::MIN <= n <= i64::MAX,
        unit_factor(unit) is Some,
        limit@ == front + body + back,
        lowered(body) == signed_text(n) + gap + unit,
        all_white(front),
        all_white(gap),
        all_white(back),
        unit.len() == 0 ==> gap.len() == 0,
    ensures
        memory_bytes(Some(limit)) == Some(n * unit_factor(unit)->0),
        memory_fits(Some(limit)) <==> i64::MIN <= n * unit_factor(unit)->0 <= i64::MAX,
{
    let number = signed_text(n);
    let w = number + gap + unit;
    whole_when_trimmed(n);
    padding_is_trimmed(front, body, back);
    trimming_keeps_the_case(body);
    unit_is_cut(number + gap, unit);
    assert(w[0] == number[0]);
    assert(trimmed(w) == w);
    padding_is_trimmed(seq![], number, gap);
    assert(seq![] + number + gap =~= number + gap);
    integer_reads_back(n);
}

/// The unit at the end of a memory limit is told from what stands before it.
proof fn unit_is_cut(stem: Seq<char>, unit: Seq<char>)
    requires
        unit_factor(unit) is Some,
        unit.len() == 0 ==> stem.len() > 0 && is_digit(stem.last()),
    ensures
        memory_parts(stem + unit) == (stem, unit_factor(unit)->0),
        !is_white((stem + unit).last()),
{
    reveal_strlit("g");
    reveal_strlit("gb");
    reveal_strlit("m");
    reveal_strlit("mb");
    reveal_strlit("k");
    reveal_strlit("kb");
    reveal_strlit("");
    let w = stem + unit;
    let n = stem.len() as int;
    assert(w.take(n) =~= stem);
    assert(w.skip(n) =~= unit);
    assert(w.subrange(n, w.len() as int) =~= unit);
    if unit.len() == 0 {
        assert(w =~= stem);
    } else {
        assert(w.last() == unit.last());
        assert(w[n] == unit[0]);
    }
    assert forall|p: Seq<char>| p.len() > 0 && #[trigger] ends_with(w, p) implies w.last() == p.last() by {
        assert(p.last() == p[p.len() - 1]);
    }
    assert forall|p: Seq<char>| p.len() > 1 && #[trigger] ends_with(w, p) implies w[w.len() - 2] == p[p.len() - 2] by {}
}

/// The notation of an integer neither begins nor ends with white space, and ends
/// with a digit.
proof fn whole_when_trimmed(n: int)
    ensures
        signed_text(n).len() > 0,
        !is_white(signed_text(n)[0]),
        is_digit(signed_text(n).last()),
        trimmed(signed_text(n)) == signed_text(n),
{
    reveal_strlit("-");
    let digits = decimal((if n < 0 { -n } else { n }) as nat);
    decimal_reads_back((if n < 0 { -n } else { n }) as nat);
    assert(digits.len() > 0);
    assert(is_digit(digits[0]));
    assert(is_digit(digits[digits.len() - 1]));
    assert(signed_text(n).last() == digits.last());
}

/// The case of letters and the white space around a memory limit change
/// nothing, whether or not it can be read.
pub proof fn case_and_padding_do_not_count(a: String, b: String, front: Seq<char>, body: Seq<char>, back: Seq<char>)
    requires
        b@ == front + body + back,
        lowered(body) == lowered(a@),
        all_white(front),
        all_white(back),
    ensures
        memory_bytes(Some(b)) == memory_bytes(Some(a)),
{
    padding_is_trimmed(front, body, back);
    trimming_keeps_the_case(body);
    trimming_keeps_the_case(a@);
}

/// Tests whether a memory limit is not beyond what 64 bits can count.
pub fn is_countable(memory: &Option<String>) -> (r: bool)
    ensures
        r == memory_fits(*memory),
{
    match read_memory(memory) {
        Some(n) => -0x8000_0000_0000_0000 <= n && n <= 0x7fff_ffff_ffff_ffff,
        None => true,
    }
}

// ── What the daemon says of a container ─────────────────────────────────────

/// What the daemon says of a container, as far as deploys need it.
#[derive(Debug)]
pub struct ContainerFacts {
    pub running: Option<bool>,
    /// The host ports bound to each container port, such as `3000/tcp`; a port
    /// may have no bindings, and a binding no host port.
    pub ports: Option<Vec<(String, Option<Vec<Option<String>>>)>>,
}

/// The bindings of a container port.
pub open spec fn bindings_of(
    ports: Seq<(String, Option<Vec<Option<String>>>)>,
    key: Seq<char>,
) -> Option<Seq<Option<String>>>
    decreases ports.len(),
{
    if ports.len() == 0 {
        None
    } else if ports[0].0@ == key {
        match ports[0].1 {
            Some(v) => Some(v@),
            None => None,
        }
    } else {
        bindings_of(ports.skip(1), key)
    }
}

/// The key under which the daemon lists a container port.
pub open spec fn port_key(port: u16) -> Seq<char> {
    decimal(port as nat) + "/tcp"@
}

/// The host port of the first binding of a container port.
pub open spec fn host_port(info: ContainerFacts, port: u16) -> Option<nat> {
    match info.ports {
        Some(ports) => match bindings_of(ports@, port_key(port)) {
            Some(b) => if b.len() > 0 && b[0] is Some {
                unsigned_value(b[0]->0@, 0xffff)
            } else {
                None
            },
            None => None,
        },
        None => None,
    }
}

fn key_text(port: u16) -> (r: String)
    ensures
        r@ == port_key(port),
{
    decimal_text(port as u64).concat("/tcp")
}

/// The host port that a container port is bound to.
pub fn extract_host_port(info: &ContainerFacts, container_port: u16) -> (r: Result<u16, DockerError>)
    ensures
        match r {
            Ok(p) => host_port(*info, container_port) == Some(p as nat),
            Err(e) => host_port(*info, container_port) is None && e is NoPortAssigned,
        },
{
    let key = key_text(container_port);
    let ports = match &info.ports {
        Some(p) => p,
        None => {
            return Err(DockerError::NoPortAssigned);
        },
    };
    let mut i: usize = 0;
    assert(ports@.skip(0) =~= ports@);
    while i < ports.len()
        invariant
            i <= ports@.len(),
            key@ == port_key(container_port),
            info.ports == Some(*ports),
            bindings_of(ports@, key@) == bindings_of(ports@.skip(i as int), key@),
        decreases ports@.len() - i,
    {
        if same(ports[i].0.as_str(), key.as_str()) {
            return match &ports[i].1 {
                Some(b) => {
                    if b.len() > 0 {
                        match &b[0] {
                            Some(text) => match parse_unsigned(text.as_str(), 0xffff) {
                                Some(p) => Ok(p as u16),
                                None => Err(DockerError::NoPortAssigned),
                            },
                            None => Err(DockerError::NoPortAssigned),
                        }
                    } else {
                        Err(DockerError::NoPortAssigned)
                    }
                },
                None => Err(DockerError::NoPortAssigned),
            };
        }
        assert(ports@.skip(i as int).skip(1) =~= ports@.skip(i + 1));
        i = i + 1;
    }
    Err(DockerError::NoPortAssigned)
}

/// Whether a container runs; one of unknown state does not.
pub open spec fn is_running(info: ContainerFacts) -> bool {
    info.running == Some(true)
}

/// Tests whether a container runs.
pub fn running(info: &ContainerFacts) -> (r: bool)
    ensures
        r == is_running(*info),
{
    match info.running {
        Some(b) => b,
        None => false,
    }
}

/// What a start came to: the container and its host port, unless the container
/// does not run or has no port. A container that serves nothing has port 0.
pub fn started(info: &ContainerFacts, container_id: String, container_port: u16, portless: bool) -> (r: Result<
    (String, u16),
    DockerError,
>)
    ensures
        match r {
            Ok((id, port)) => {
                &&& is_running(*info)
                &&& id == container_id
                &&& if portless && container_port == 0 {
                    port == 0
                } else {
                    host_port(*info, container_port) == Some(port as nat)
                }
            },
            Err(DockerError::ContainerNotRunning(id)) => !is_running(*info) && id == container_id,
            Err(DockerError::NoPortAssigned) => {
                &&& is_running(*info)
                &&& !(portless && container_port == 0)
                &&& host_port(*info, container_port) is None
            },
            Err(_) => false,
        },
{
    if !running(info) {
        return Err(DockerError::ContainerNotRunning(container_id));
    }
    if portless && container_port == 0 {
        return Ok((container_id, 0));
    }
    match extract_host_port(info, container_port) {
        Ok(port) => Ok((container_id, port)),
        Err(_) => Err(DockerError::NoPortAssigned),
    }
}

// ── What the daemon is asked for ────────────────────────────────────────────

/// Whether a text is the first twelve bytes of a tag, or all of a shorter one.
pub open spec fn is_tag_prefix(tag: Seq<char>, prefix: Seq<char>) -> bool {
    encode_utf8(prefix) == if byte_len(tag) >= 12 {
        encode_utf8(tag).subrange(0, 12)
    } else {
        encode_utf8(tag)
    }
}

/// The first twelve bytes of a tag, or all of a shorter one.
pub fn tag_prefix(tag: &str) -> (r: &str)
    requires
        byte_len(tag@) >= 12 ==> is_char_boundary(encode_utf8(tag@), 12),
    ensures
        is_tag_prefix(tag@, r@),
{
    if count_bytes(tag) >= 12 {
        let (head, _) = tag.split_at(12);
        head
    } else {
        tag
    }
}

/// A directory of the host in a container.
#[derive(Debug)]
pub struct BindMount {
    pub source: String,
    pub target: String,
    pub read_only: bool,
}

/// Source, target and mode of mounts.
pub open spec fn mount_views(v: Seq<BindMount>) -> Seq<(Seq<char>, Seq<char>, bool)> {
    v.map_values(|m: BindMount| (m.source@, m.target@, m.read_only))
}

/// A container as the daemon is asked for it. The host port is chosen by the
/// daemon, on the loopback address.
#[derive(Debug)]
pub struct ContainerPlan {
    pub name: String,
    pub image: String,
    pub env: Vec<String>,
    pub labels: Vec<(String, String)>,
    /// The container port to bind, if any.
    pub port_key: Option<String>,
    pub host_ip: String,
    pub network: String,
    pub memory: Option<i64>,
    pub mounts: Vec<BindMount>,
}

/// What a request for a container is turned into.
pub open spec fn planned(
    p: ContainerPlan,
    req: CreateRequest,
    prefix: Seq<char>,
    suffix: Seq<char>,
    portless: bool,
) -> bool {
    &&& p.name@ == "slip-"@ + req.app@ + "-"@ + prefix + "-"@ + suffix
    &&& p.image@ == req.image@ + ":"@ + req.tag@
    &&& p.env@ == req.env_vars@
    &&& p.labels@.len() == 3
    &&& p.labels@[0].0@ == "slip.app"@ && p.labels@[0].1@ == req.app@
    &&& p.labels@[1].0@ == "slip.tag"@ && p.labels@[1].1@ == req.tag@
    &&& p.labels@[2].0@ == "slip.managed"@ && p.labels@[2].1@ == "true"@
    &&& crate::text::opt_text(p.port_key) == if portless && req.container_port == 0 {
        None
    } else {
        Some(port_key(req.container_port))
    }
    &&& p.host_ip@ == "127.0.0.1"@
    &&& p.network@ == req.network@
    &&& memory_bytes(req.resources.memory) == (match p.memory {
        Some(n) => Some(n as int),
        None => None,
    })
    &&& mount_views(p.mounts@) == req.volumes@.map_values(
        |v: MergedVolume| (v.host_path@, v.mount_path@, v.read_only),
    )
}

/// Turns a request into a container for the daemon. With `portless`, a
/// container that serves nothing gets no port.
pub fn plan_container(req: &CreateRequest, suffix: &str, portless: bool) -> (p: ContainerPlan)
    requires
        byte_len(req.tag@) >= 12 ==> is_char_boundary(encode_utf8(req.tag@), 12),
        memory_fits(req.resources.memory),
    ensures
        exists|prefix: Seq<char>|
            #[trigger] planned(p, *req, prefix, suffix@, portless) && is_tag_prefix(req.tag@, prefix),
{
    let prefix = tag_prefix(req.tag.as_str());
    let mut labels: Vec<(String, String)> = Vec::new();
    labels.push(("slip.app".to_owned(), req.app.clone()));
    labels.push(("slip.tag".to_owned(), req.tag.clone()));
    labels.push(("slip.managed".to_owned(), "true".to_owned()));
    let mut mounts: Vec<BindMount> = Vec::new();
    let mut i: usize = 0;
    while i < req.volumes.len()
        invariant
            i <= req.volumes@.len(),
            mounts@.len() == i,
            forall|k: int|
                0 <= k < i ==> (#[trigger] mounts@[k]).source@ == req.volumes@[k].host_path@ && mounts@[k].target@
                    == req.volumes@[k].mount_path@ && mounts@[k].read_only == req.volumes@[k].read_only,
        decreases req.volumes@.len() - i,
    {
        let v = &req.volumes[i];
        mounts.push(
            BindMount { source: v.host_path.clone(), target: v.mount_path.clone(), read_only: v.read_only },
        );
        i = i + 1;
    }
    assert(mount_views(mounts@) =~= req.volumes@.map_values(
        |v: MergedVolume| (v.host_path@, v.mount_path@, v.read_only),
    ));
    let p = ContainerPlan {
        name: "slip-".to_owned().concat(req.app.as_str()).concat("-").concat(prefix).concat("-").concat(suffix),
        image: req.image.clone().concat(":").concat(req.tag.as_str()),
        env: copy_texts(&req.env_vars),
        labels,
        port_key: if portless && req.container_port == 0 {
            None
        } else {
            Some(key_text(req.container_port))
        },
        host_ip: "127.0.0.1".to_owned(),
        network: req.network.clone(),
        memory: parse_memory_limit(&req.resources.memory),
        mounts,
    };
    assert(planned(p, *req, prefix@, suffix@, portless));
    p
}

// ── What the daemon's errors mean ───────────────────────────────────────────

/// An error of the daemon: the status it answered with, if it did answer, and
/// the message.
#[derive(Debug)]
pub struct DaemonError {
    pub status: Option<u16>,
    pub message: String,
}

/// Whether a failure is that of a container, with a message.
pub open spec fn failed_with(e: RuntimeError, message: String) -> bool {
    e == RuntimeError::ContainerError(message)
}

/// What stopping a container came to. One that was stopped already (304) is
/// as good as stopped.
pub fn stopped(result: Result<(), DaemonError>) -> (r: Result<(), DockerError>)
    ensures
        match result {
            Ok(_) => r is Ok,
            Err(e) => if e.status == Some(304u16) {
                r is Ok
            } else {
                r == Err::<(), DockerError>(DockerError::Api(e.message))
            },
        },
{
    match result {
        Ok(_) => Ok(()),
        Err(e) => if e.status == Some(304) {
            Ok(())
        } else {
            Err(DockerError::Api(e.message))
        },
    }
}

/// Whether something exists, by what looking at it came to: the daemon answers
/// 404 for what does not.
pub fn is_there(result: Result<(), DaemonError>) -> (r: Result<bool, DockerError>)
    ensures
        match result {
            Ok(_) => r == Ok::<bool, DockerError>(true),
            Err(e) => if e.status == Some(404u16) {
                r == Ok::<bool, DockerError>(false)
            } else {
                r == Err::<bool, DockerError>(DockerError::Api(e.message))
            },
        },
{
    match result {
        Ok(_) => Ok(true),
        Err(e) => if e.status == Some(404) {
            Ok(false)
        } else {
            Err(DockerError::Api(e.message))
        },
    }
}

/// What one item of a pull's progress means: the pull goes on, unless the item
/// reports an error or is one.
pub fn pull_goes_on(item: Result<Option<String>, DaemonError>) -> (r: Result<(), DockerError>)
    ensures
        match item {
            Ok(None) => r is Ok,
            Ok(Some(message)) => r == Err::<(), DockerError>(DockerError::PullFailed(message)),
            Err(e) => r == Err::<(), DockerError>(DockerError::PullFailed(e.message)),
        },
{
    match item {
        Ok(None) => Ok(()),
        Ok(Some(message)) => Err(DockerError::PullFailed(message)),
        Err(e) => Err(DockerError::PullFailed(e.message)),
    }
}

/// The container that the daemon is asked for is the one that is wanted: its image
/// and tag, its environment, network, memory and mounts; labelled with the app and
/// the tag, and bound to the loopback address alone.
pub proof fn the_container_is_the_one_wanted(
    p: ContainerPlan,
    req: CreateRequest,
    prefix: Seq<char>,
    suffix: Seq<char>,
    portless: bool,
)
    requires
        planned(p, req, prefix, suffix, portless),
    ensures
        p.image@ == req.image@ + ":"@ + req.tag@,
        p.name@ == "slip-"@ + req.app@ + "-"@ + prefix + "-"@ + suffix,
        p.env@ == req.env_vars@,
        p.network@ == req.network@,
        p.host_ip@ == "127.0.0.1"@,
        req.resources.memory is None ==> p.memory is None,
        memory_bytes(req.resources.memory) matches Some(n) ==> p.memory is Some && p.memory->0 == n,
        req.container_port > 0 || !portless ==> p.port_key is Some && p.port_key->0@ == decimal(
            req.container_port as nat,
        ) + "/tcp"@,
        req.container_port == 0 && portless ==> p.port_key is None,
        p.labels@.len() == 3,
        p.labels@[0].0@ == "slip.app"@ && p.labels@[0].1@ == req.app@,
        p.labels@[1].0@ == "slip.tag"@ && p.labels@[1].1@ == req.tag@,
        p.labels@[2].0@ == "slip.managed"@ && p.labels@[2].1@ == "true"@,
        p.mounts@.len() == req.volumes@.len(),
        forall|i: int|
            0 <= i < req.volumes@.len() ==> {
                &&& (#[trigger] p.mounts@[i]).source@ == req.volumes@[i].host_path@
                &&& p.mounts@[i].target@ == req.volumes@[i].mount_path@
                &&& p.mounts@[i].read_only == req.volumes@[i].read_only
            },
{
    let told = mount_views(p.mounts@);
    assert(told.len() == p.mounts@.len());
    assert forall|i: int| 0 <= i < req.volumes@.len() implies {
        &&& (#[trigger] p.mounts@[i]).source@ == req.volumes@[i].host_path@
        &&& p.mounts@[i].target@ == req.volumes@[i].mount_path@
        &&& p.mounts@[i].read_only == req.volumes@[i].read_only
    } by {
        assert(told[i] == (p.mounts@[i].source@, p.mounts@[i].target@, p.mounts@[i].read_only));
    }
}

proof fn the_first_entry_counts(ports: Seq<(String, Option<Vec<Option<String>>>)>, key: Seq<char>, i: int)
    requires
        0 <= i < ports.len(),
        ports[i].0@ == key,
        ports[i].1 is Some,
        forall|j: int| 0 <= j < i ==> (#[trigger] ports[j]).0@ != key,
    ensures
        bindings_of(ports, key) == Some(ports[i].1->0@),
    decreases ports.len(),
{
    if i > 0 {
        let rest = ports.skip(1);
        assert(ports[0].0@ != key);
        assert(rest[i - 1] == ports[i]);
        assert forall|j: int| 0 <= j < i - 1 implies (#[trigger] rest[j]).0@ != key by {
            assert(rest[j] == ports[j + 1]);
        }
        the_first_entry_counts(rest, key, i - 1);
    }
}

/// The host port of a container port is the one that its first binding names,
/// whatever other ports are bound.
pub proof fn the_host_port_is_the_bound_one(
    info: ContainerFacts,
    ports: Vec<(String, Option<Vec<Option<String>>>)>,
    i: int,
    port: u16,
    bound: String,
    n: nat,
)
    requires
        info.ports == Some(ports),
        0 <= i < ports@.len(),
        ports@[i].0@ == decimal(port as nat) + "/tcp"@,
        forall|j: int| 0 <= j < i ==> (#[trigger] ports@[j]).0@ != ports@[i].0@,
        ports@[i].1 matches Some(v) && v@.len() > 0 && v@[0] == Some(bound),
        n <= 0xffff,
        bound@ == decimal(n),
    ensures
        host_port(info, port) == Some(n),
{
    the_first_entry_counts(ports@, decimal(port as nat) + "/tcp"@, i);
    crate::text::decimal_reads_back(n);
    assert(crate::text::is_digit(decimal(n)[0]));
}

} // verus!
