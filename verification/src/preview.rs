//! Previews: short-lived deployments of a pull request or branch, each with
//! its own id and subdomain and, if so configured, an end.

use crate::config::{
    AppPreviewConfig, Duplicate, RepoResourceConfig, ResourceConfig, ServerPreviewConfig,
};
use crate::deploy::{AppStatus, DeployStatus};
use crate::docker::{is_countable, memory_bytes, memory_fits, parse_memory_limit};
use crate::error::{CaddyError, RuntimeError};
use crate::merge::or_else;
use crate::text::{
    all_white, decimal, decimal_reads_back, from_chars, integer_reads_back, is_digit, opt_text, padding_is_trimmed,
    parse_signed, same, signed_text, signed_value, to_chars, trim, trimmed,
};
use crate::time::{
    days_span, hours_span, in_calendar, minutes_span, seconds_span, span_fits, span_of, std_span, Duration, Timestamp,
};
use vstd::prelude::*;
use vstd::string::*;

verus! {

// ── State ───────────────────────────────────────────────────────────────────

/// What is known of a preview.
#[derive(Debug)]
pub struct PreviewState {
    pub preview_id: String,
    pub app: String,
    /// The commit that the preview shows.
    pub sha: String,
    pub status: AppStatus,
    pub container_id: Option<String>,
    pub pod_name: Option<String>,
    pub port: Option<u16>,
    pub tag: Option<String>,
    pub deployed_at: Timestamp,
    /// When the preview ends; never, without it.
    pub expires_at: Option<Timestamp>,
    pub domain: String,
    pub manifest_path: Option<String>,
    /// The deploy under way; not kept across restarts.
    pub deploy_id: Option<String>,
}

impl Duplicate for PreviewState {
    open spec fn alike(&self, other: &Self) -> bool {
        *self == *other
    }

    fn duplicate(&self) -> (r: Self) {
        PreviewState {
            preview_id: self.preview_id.clone(),
            app: self.app.clone(),
            sha: self.sha.clone(),
            status: self.status,
            container_id: self.container_id.clone(),
            pod_name: self.pod_name.clone(),
            port: self.port,
            tag: self.tag.clone(),
            deployed_at: self.deployed_at,
            expires_at: self.expires_at,
            domain: self.domain.clone(),
            manifest_path: self.manifest_path.clone(),
            deploy_id: self.deploy_id.clone(),
        }
    }
}

/// What of a preview is kept across restarts.
#[derive(Debug)]
pub struct PersistedPreviewState {
    pub preview_id: String,
    pub app: String,
    pub sha: String,
    pub container_id: Option<String>,
    pub pod_name: Option<String>,
    pub port: Option<u16>,
    pub tag: Option<String>,
    pub deployed_at: Timestamp,
    pub expires_at: Option<Timestamp>,
    pub domain: String,
    pub manifest_path: Option<String>,
}

impl<'a> From<&'a PreviewState> for PersistedPreviewState {
    fn from(s: &'a PreviewState) -> (r: Self) {
        PersistedPreviewState {
            preview_id: s.preview_id.clone(),
            app: s.app.clone(),
            sha: s.sha.clone(),
            container_id: s.container_id.clone(),
            pod_name: s.pod_name.clone(),
            port: s.port,
            tag: s.tag.clone(),
            deployed_at: s.deployed_at,
            expires_at: s.expires_at,
            domain: s.domain.clone(),
            manifest_path: s.manifest_path.clone(),
        }
    }
}

impl<'a> vstd::std_specs::convert::FromSpecImpl<&'a PreviewState> for PersistedPreviewState {
    open spec fn obeys_from_spec() -> bool {
        true
    }

    open spec fn from_spec(s: &'a PreviewState) -> Self {
        persisted(*s)
    }
}

/// What of a preview is kept.
pub open spec fn persisted(s: PreviewState) -> PersistedPreviewState {
    PersistedPreviewState {
        preview_id: s.preview_id,
        app: s.app,
        sha: s.sha,
        container_id: s.container_id,
        pod_name: s.pod_name,
        port: s.port,
        tag: s.tag,
        deployed_at: s.deployed_at,
        expires_at: s.expires_at,
        domain: s.domain,
        manifest_path: s.manifest_path,
    }
}

/// A preview as it is taken up again: running if it has a container or a pod.
pub open spec fn restored(p: PersistedPreviewState) -> PreviewState {
    PreviewState {
        preview_id: p.preview_id,
        app: p.app,
        sha: p.sha,
        status: if p.container_id is Some || p.pod_name is Some {
            AppStatus::Running
        } else {
            AppStatus::NotDeployed
        },
        container_id: p.container_id,
        pod_name: p.pod_name,
        port: p.port,
        tag: p.tag,
        deployed_at: p.deployed_at,
        expires_at: p.expires_at,
        domain: p.domain,
        manifest_path: p.manifest_path,
        deploy_id: None,
    }
}

impl From<PersistedPreviewState> for PreviewState {
    fn from(p: PersistedPreviewState) -> (r: Self) {
        let status = if p.container_id.is_some() || p.pod_name.is_some() {
            AppStatus::Running
        } else {
            AppStatus::NotDeployed
        };
        PreviewState {
            preview_id: p.preview_id,
            app: p.app,
            sha: p.sha,
            status,
            container_id: p.container_id,
            pod_name: p.pod_name,
            port: p.port,
            tag: p.tag,
            deployed_at: p.deployed_at,
            expires_at: p.expires_at,
            domain: p.domain,
            manifest_path: p.manifest_path,
            deploy_id: None,
        }
    }
}

impl vstd::std_specs::convert::FromSpecImpl<PersistedPreviewState> for PreviewState {
    open spec fn obeys_from_spec() -> bool {
        true
    }

    open spec fn from_spec(p: PersistedPreviewState) -> Self {
        restored(p)
    }
}

/// Keeping a preview and taking it up again gives it back, but for the deploy
/// under way and for a status that is made out anew; and keeping that again
/// gives the same.
pub proof fn keeping_a_preview(s: PreviewState)
    ensures
        restored(persisted(s)) == (PreviewState {
            status: restored(persisted(s)).status,
            deploy_id: None,
            ..s
        }),
        restored(persisted(s)).status == AppStatus::Running <==> s.container_id is Some || s.pod_name is Some,
        persisted(restored(persisted(s))) == persisted(s),
{
}

// ── Errors ──────────────────────────────────────────────────────────────────

/// Why a preview deploy failed.
#[derive(Debug)]
pub enum DeployError {
    Message(String),
    /// A command run in the fresh preview failed.
    HookFailed(String),
}

impl DeployError {
    /// The message without what kind of error it is.
    pub open spec fn inner(self) -> Seq<char> {
        match self {
            DeployError::Message(s) => s@,
            DeployError::HookFailed(s) => s@,
        }
    }

    /// The message as it is shown.
    pub open spec fn text(self) -> Seq<char> {
        match self {
            DeployError::Message(s) => s@,
            DeployError::HookFailed(s) => "hook failed: "@ + s@,
        }
    }

    /// The message without what kind of error it is.
    pub fn message(&self) -> (r: &str)
        ensures
            r@ == self.inner(),
    {
        match self {
            DeployError::Message(s) => s.as_str(),
            DeployError::HookFailed(s) => s.as_str(),
        }
    }

    /// The message as it is shown.
    pub fn display(&self) -> (r: String)
        ensures
            r@ == self.text(),
    {
        match self {
            DeployError::Message(s) => s.clone(),
            DeployError::HookFailed(s) => "hook failed: ".to_owned().concat(s.as_str()),
        }
    }

    /// The error of a runtime.
    pub fn from_runtime(e: &RuntimeError) -> (r: DeployError)
        ensures
            r matches DeployError::Message(m) && m@ == e.text(),
    {
        DeployError::Message(e.message())
    }

    /// The error of the proxy.
    pub fn from_caddy(e: &CaddyError) -> (r: DeployError)
        ensures
            r matches DeployError::Message(m) && m@ == e.text(),
    {
        DeployError::Message(e.message())
    }
}

// ── Domain ──────────────────────────────────────────────────────────────────

/// The domain that previews of an app lie under: the app's own, else the
/// server's.
pub open spec fn domain_in_force(
    server: Option<ServerPreviewConfig>,
    app: Option<AppPreviewConfig>,
) -> Option<Seq<char>> {
    match app {
        Some(AppPreviewConfig { domain: Some(d), .. }) => Some(d@),
        _ => match server {
            Some(s) => Some(s.domain@),
            None => None,
        },
    }
}

/// The full domain of a preview.
pub fn resolve_preview_domain(
    preview_id: &str,
    _app_name: &str,
    server_preview: &Option<ServerPreviewConfig>,
    app_preview: &Option<AppPreviewConfig>,
) -> (r: Result<String, DeployError>)
    ensures
        match r {
            Ok(d) => domain_in_force(*server_preview, *app_preview) is Some && d@ == preview_id@ + "."@
                + domain_in_force(*server_preview, *app_preview)->0,
            Err(e) => {
                &&& domain_in_force(*server_preview, *app_preview) is None
                &&& e is Message
                &&& e.inner()
                    == "preview domain not configured: set [preview].domain in slip.toml or [preview].domain in the app config"@
            },
        },
{
    match app_preview {
        Some(a) => match &a.domain {
            Some(d) => {
                return Ok(preview_id.to_owned().concat(".").concat(d.as_str()));
            },
            None => {},
        },
        None => {},
    }
    match server_preview {
        Some(s) => Ok(preview_id.to_owned().concat(".").concat(s.domain.as_str())),
        None => Err(
            DeployError::Message(
                "preview domain not configured: set [preview].domain in slip.toml or [preview].domain in the app config".to_owned(),
            ),
        ),
    }
}

// ── Time to live ────────────────────────────────────────────────────────────

/// The seconds of a unit of time, `d`, `h`, `m` or `s`.
pub open spec fn unit_seconds(unit: char) -> Option<int> {
    if unit == 'd' {
        Some(86_400)
    } else if unit == 'h' {
        Some(3_600)
    } else if unit == 'm' {
        Some(60)
    } else if unit == 's' {
        Some(1)
    } else {
        None
    }
}

/// The seconds of a time to live such as `72h`, or what is wrong with it.
pub open spec fn ttl_seconds(text: Seq<char>) -> Result<int, Seq<char>> {
    let s = trimmed(text);
    if s.len() > 0 && unit_seconds(s.last()) is Some {
        match signed_value(trimmed(s.drop_last())) {
            None => Err("invalid TTL '"@ + s + "': expected integer before '"@ + seq![s.last()] + "'"@),
            Some(n) => match span_of(n * unit_seconds(s.last())->0) {
                Some(secs) => Ok(secs),
                None => Err("TTL '"@ + s + "' overflows chrono::Duration"@),
            },
        }
    } else {
        Err("invalid TTL '"@ + s + "': expected suffix 'd', 'h', 'm', or 's'"@)
    }
}

/// Reads a time to live and gives its seconds.
pub fn parse_ttl(s: &str) -> (r: Result<i64, DeployError>)
    ensures
        ttl_seconds(s@) == (match r {
            Ok(n) => Ok::<int, Seq<char>>(n as int),
            Err(e) => Err(e.inner()),
        }),
        r matches Err(e) ==> e is Message,
{
    let t = trim(s);
    let v = to_chars(t.as_str());
    let n: usize = v.len();
    if n == 0 || !(v[n - 1] == 'd' || v[n - 1] == 'h' || v[n - 1] == 'm' || v[n - 1] == 's') {
        return Err(
            DeployError::Message(
                "invalid TTL '".to_owned().concat(t.as_str()).concat(
                    "': expected suffix 'd', 'h', 'm', or 's'",
                ),
            ),
        );
    }
    let unit: char = v[n - 1];
    let head = from_chars(&v, 0, n - 1);
    assert(head@ =~= t@.drop_last());
    match parse_signed(trim(head.as_str()).as_str()) {
        None => {
            let mut unit_text: String = String::new();
            unit_text.push(unit);
            assert(unit_text@ =~= seq![unit]);
            Err(
                DeployError::Message(
                    "invalid TTL '".to_owned().concat(t.as_str()).concat("': expected integer before '").concat(
                        unit_text.as_str(),
                    ).concat("'"),
                ),
            )
        },
        Some(count) => {
            let span: Option<i64> = if unit == 'd' {
                days_span(count)
            } else if unit == 'h' {
                hours_span(count)
            } else if unit == 'm' {
                minutes_span(count)
            } else {
                seconds_span(count)
            };
            match span {
                Some(secs) => Ok(secs),
                None => Err(
                    DeployError::Message(
                        "TTL '".to_owned().concat(t.as_str()).concat("' overflows chrono::Duration"),
                    ),
                ),
            }
        },
    }
}

/// How long a preview lives, in nanoseconds: the repository's time to live,
/// else the server's default, else without end; or what is wrong with it.
pub open spec fn lifetime(repo_ttl: Option<Duration>, server_ttl: Option<Seq<char>>) -> Result<
    Option<int>,
    Seq<char>,
> {
    match repo_ttl {
        Some(d) => if span_fits(d.secs() as int, d.nanos() as int) {
            Ok(Some(d.secs() * 1_000_000_000 + d.nanos()))
        } else {
            Err(
                "repo TTL out of range for chrono: "@
                    + "Source duration value is out of range for the target type"@,
            )
        },
        None => match server_ttl {
            Some(text) => match ttl_seconds(text) {
                Ok(secs) => Ok(Some(secs * 1_000_000_000)),
                Err(e) => Err(e),
            },
            None => Ok(None),
        },
    }
}

/// Whether the calendar has the moment at which a preview ends.
pub open spec fn expiry_fits(
    deployed_at: Timestamp,
    repo_ttl: Option<Duration>,
    server_ttl: Option<Seq<char>>,
) -> bool {
    lifetime(repo_ttl, server_ttl) matches Ok(Some(n)) ==> in_calendar(deployed_at.total() + n)
}

/// When a preview ends.
pub fn compute_expires_at(
    deployed_at: Timestamp,
    repo_ttl: Option<Duration>,
    server_default_ttl: Option<&str>,
) -> (r: Result<Option<Timestamp>, DeployError>)
    requires
        deployed_at.wf(),
        expiry_fits(
            deployed_at,
            repo_ttl,
            match server_default_ttl {
                Some(t) => Some(t@),
                None => None,
            },
        ),
    ensures
        match lifetime(
            repo_ttl,
            match server_default_ttl {
                Some(t) => Some(t@),
                None => None,
            },
        ) {
            Ok(Some(n)) => r matches Ok(Some(t)) && t.wf() && t.total() == deployed_at.total() + n,
            Ok(None) => r matches Ok(None),
            Err(message) => r matches Err(e) && e is Message && e.inner() == message,
        },
{
    match repo_ttl {
        Some(d) => match std_span(d.as_secs(), d.subsec_nanos()) {
            Ok((secs, nanos)) => Ok(deployed_at.plus(secs, nanos as u32)),
            Err(e) => Err(
                DeployError::Message("repo TTL out of range for chrono: ".to_owned().concat(e.as_str())),
            ),
        },
        None => match server_default_ttl {
            Some(text) => match parse_ttl(text) {
                Ok(secs) => Ok(deployed_at.plus(secs, 0)),
                Err(e) => Err(e),
            },
            None => Ok(None),
        },
    }
}

/// Tests whether the calendar has the moment at which a preview ends.
pub fn is_datable(deployed_at: Timestamp, repo_ttl: Option<Duration>, server_default_ttl: Option<&str>) -> (r: bool)
    requires
        deployed_at.wf(),
    ensures
        r == expiry_fits(
            deployed_at,
            repo_ttl,
            match server_default_ttl {
                Some(t) => Some(t@),
                None => None,
            },
        ),
{
    match repo_ttl {
        Some(d) => match std_span(d.as_secs(), d.subsec_nanos()) {
            Ok((secs, nanos)) => deployed_at.plus(secs, nanos as u32).is_some(),
            Err(_) => true,
        },
        None => match server_default_ttl {
            Some(text) => match parse_ttl(text) {
                Ok(secs) => deployed_at.plus(secs, 0).is_some(),
                Err(_) => true,
            },
            None => true,
        },
    }
}

// ── Limits ──────────────────────────────────────────────────────────────────

/// How many previews an app may have: the repository's limit, else the app's,
/// else the server's, else any number.
pub open spec fn limit_in_force(
    repo_max: Option<u32>,
    app: Option<AppPreviewConfig>,
    server: Option<ServerPreviewConfig>,
) -> Option<u32> {
    match (repo_max, app, server) {
        (Some(m), _, _) => Some(m),
        (None, Some(AppPreviewConfig { max: Some(m), .. }), _) => Some(m),
        (None, _, Some(s)) => s.max_per_app,
        (None, _, None) => None,
    }
}

/// How many previews an app may have.
pub fn resolve_max_limit(
    repo_max: Option<u32>,
    app_preview: &Option<AppPreviewConfig>,
    server_preview: &Option<ServerPreviewConfig>,
) -> (r: Option<u32>)
    ensures
        r == limit_in_force(repo_max, *app_preview, *server_preview),
{
    match repo_max {
        Some(m) => {
            return Some(m);
        },
        None => {},
    }
    match app_preview {
        Some(a) => match a.max {
            Some(m) => {
                return Some(m);
            },
            None => {},
        },
        None => {},
    }
    match server_preview {
        Some(s) => s.max_per_app,
        None => None,
    }
}

/// The lesser of a requested memory limit and the cap. What cannot be read is
/// capped.
pub open spec fn memory_capped(requested: Option<String>, cap: String) -> Seq<char> {
    match (memory_bytes(Some(cap)), memory_bytes(requested)) {
        (Some(c), Some(n)) => if n <= c {
            requested->0@
        } else {
            cap@
        },
        _ => cap@,
    }
}

/// Caps a memory limit.
pub fn cap_memory(requested: &Option<String>, cap: &String) -> (r: String)
    requires
        memory_fits(Some(*cap)),
        memory_bytes(Some(*cap)) is Some ==> memory_fits(*requested),
    ensures
        r@ == memory_capped(*requested, *cap),
        r@ == cap@ || *requested == Some(r),
{
    let limit: Option<String> = Some(cap.clone());
    let most: i64 = match parse_memory_limit(&limit) {
        Some(c) => c,
        None => {
            return cap.clone();
        },
    };
    match parse_memory_limit(requested) {
        Some(n) => if n <= most {
            match requested {
                Some(t) => t.clone(),
                None => cap.clone(),
            }
        } else {
            cap.clone()
        },
        None => cap.clone(),
    }
}

/// The lesser of a requested number of processors and the cap. `within` says
/// whether both are numbers and the requested one does not exceed the cap.
pub fn cap_cpus(requested: &Option<String>, cap: &String, within: bool) -> (r: String)
    ensures
        r == (if within && *requested is Some {
            requested->0
        } else {
            *cap
        }),
{
    if within {
        match requested {
            Some(t) => t.clone(),
            None => cap.clone(),
        }
    } else {
        cap.clone()
    }
}

/// The memory a preview asks for: the repository's, else the app's.
pub open spec fn wanted_memory(repo: Option<RepoResourceConfig>, base: ResourceConfig) -> Option<String> {
    match repo {
        Some(r) => or_else(r.memory, base.memory),
        None => base.memory,
    }
}

/// The processors a preview asks for: the repository's, else the app's.
pub open spec fn wanted_cpus(repo: Option<RepoResourceConfig>, base: ResourceConfig) -> Option<String> {
    match repo {
        Some(r) => or_else(r.cpus, base.cpus),
        None => base.cpus,
    }
}

/// The server's cap on memory.
pub open spec fn memory_cap(server: Option<ServerPreviewConfig>) -> Option<String> {
    match server {
        Some(s) => s.max_memory,
        None => None,
    }
}

/// The server's cap on processors.
pub open spec fn cpus_cap(server: Option<ServerPreviewConfig>) -> Option<String> {
    match server {
        Some(s) => s.max_cpus,
        None => None,
    }
}

/// Whether the resources of a preview are those in force.
pub open spec fn resources_in_force(
    repo: Option<RepoResourceConfig>,
    server: Option<ServerPreviewConfig>,
    base: ResourceConfig,
    cpus_within: bool,
    r: ResourceConfig,
) -> bool {
    &&& opt_text(r.memory) == (match memory_cap(server) {
        Some(cap) => Some(memory_capped(wanted_memory(repo, base), cap)),
        None => opt_text(wanted_memory(repo, base)),
    })
    &&& opt_text(r.cpus) == (match cpus_cap(server) {
        Some(cap) => if cpus_within && wanted_cpus(repo, base) is Some {
            opt_text(wanted_cpus(repo, base))
        } else {
            Some(cap@)
        },
        None => opt_text(wanted_cpus(repo, base)),
    })
}

/// Whether a cap on memory, where there is one, is not beyond what can be
/// counted, nor what is asked for, which counts only beside a cap that can be
/// read.
pub open spec fn caps_within(cap: Option<String>, wanted: Option<String>) -> bool {
    cap is Some ==> memory_fits(cap) && (memory_bytes(cap) is Some ==> memory_fits(wanted))
}

/// Whether the memory limits that count for a preview are not beyond what can
/// be counted.
pub open spec fn limits_fit(
    repo: Option<RepoResourceConfig>,
    server: Option<ServerPreviewConfig>,
    base: ResourceConfig,
) -> bool {
    caps_within(memory_cap(server), wanted_memory(repo, base))
}

/// Tests whether the memory limits that count for a preview are not beyond what
/// can be counted.
pub fn limits_are_countable(
    repo_memory: &Option<String>,
    server_config: &Option<ServerPreviewConfig>,
    app_memory: &Option<String>,
) -> (r: bool)
    ensures
        r == caps_within(memory_cap(*server_config), or_else(*repo_memory, *app_memory)),
{
    match server_config {
        Some(server) => match &server.max_memory {
            Some(cap) => {
                let limit: Option<String> = Some(cap.clone());
                let wanted = if repo_memory.is_some() {
                    repo_memory
                } else {
                    app_memory
                };
                is_countable(&limit) && (parse_memory_limit(&limit).is_none() || is_countable(wanted))
            },
            None => true,
        },
        None => true,
    }
}

/// The resources of a preview: what it asks for, within the server's caps.
/// `cpus_within` says whether the processors it asks for and the cap on them
/// are numbers of which the first does not exceed the second.
pub fn effective_preview_resources(
    repo_resources: &Option<RepoResourceConfig>,
    server_config: &Option<ServerPreviewConfig>,
    app_default_resources: &ResourceConfig,
    cpus_within: bool,
) -> (r: ResourceConfig)
    requires
        limits_fit(*repo_resources, *server_config, *app_default_resources),
    ensures
        resources_in_force(*repo_resources, *server_config, *app_default_resources, cpus_within, r),
{
    let mut result = app_default_resources.duplicate();
    match repo_resources {
        Some(repo) => {
            if repo.memory.is_some() {
                result.memory = repo.memory.clone();
            }
            if repo.cpus.is_some() {
                result.cpus = repo.cpus.clone();
            }
        },
        None => {},
    }
    assert(result.memory == wanted_memory(*repo_resources, *app_default_resources));
    assert(result.cpus == wanted_cpus(*repo_resources, *app_default_resources));
    match server_config {
        Some(server) => {
            match &server.max_memory {
                Some(cap) => {
                    result.memory = Some(cap_memory(&result.memory, cap));
                },
                None => {},
            }
            match &server.max_cpus {
                Some(cap) => {
                    result.cpus = Some(cap_cpus(&result.cpus, cap, cpus_within));
                },
                None => {},
            }
        },
        None => {},
    }
    result
}

/// A preview never gets more memory than the server allows: if there is a cap
/// that can be read, the limit in force can be read and does not exceed it.
pub proof fn memory_never_exceeds_the_cap(
    repo: Option<RepoResourceConfig>,
    server: Option<ServerPreviewConfig>,
    base: ResourceConfig,
    cpus_within: bool,
    r: ResourceConfig,
)
    requires
        resources_in_force(repo, server, base, cpus_within, r),
        memory_cap(server) is Some,
        memory_bytes(memory_cap(server)) is Some,
    ensures
        memory_bytes(r.memory) is Some,
        memory_bytes(r.memory)->0 <= memory_bytes(memory_cap(server))->0,
{
    let cap = memory_cap(server)->0;
    let wanted = wanted_memory(repo, base);
    assert(r.memory is Some);
    if r.memory->0@ == cap@ {
        assert(memory_bytes(r.memory) == memory_bytes(Some(cap)));
    } else {
        assert(r.memory->0@ == wanted->0@);
        assert(memory_bytes(r.memory) == memory_bytes(wanted));
    }
}

// ── Keys ────────────────────────────────────────────────────────────────────

/// The key of a preview.
pub open spec fn preview_key(app: Seq<char>, id: Seq<char>) -> Seq<char> {
    app + ":"@ + id
}

/// The name under which a preview is deployed and routed.
pub open spec fn preview_name(app: Seq<char>, id: Seq<char>) -> Seq<char> {
    app + "-preview-"@ + id
}

/// The key of a preview.
pub fn key_for(app: &str, id: &str) -> (r: String)
    ensures
        r@ == preview_key(app@, id@),
{
    app.to_owned().concat(":").concat(id)
}

/// The name under which a preview is deployed and routed.
pub fn name_for(app: &str, id: &str) -> (r: String)
    ensures
        r@ == preview_name(app@, id@),
{
    app.to_owned().concat("-preview-").concat(id)
}

/// A preview to deploy.
#[derive(Debug)]
pub struct PreviewDeployContext {
    pub deploy_id: String,
    pub app_name: String,
    pub image: String,
    pub tag: String,
    pub preview_id: String,
    pub sha: String,
}

// ── Status ──────────────────────────────────────────────────────────────────

/// How a preview is doing while its deploy has a status.
pub open spec fn status_during(s: DeployStatus) -> AppStatus {
    match s {
        DeployStatus::Completed => AppStatus::Running,
        DeployStatus::Failed => AppStatus::Failed,
        _ => AppStatus::Deploying,
    }
}

/// A preview with another status, where there is one.
pub open spec fn with_status(entry: Option<PreviewState>, status: AppStatus) -> Option<PreviewState> {
    match entry {
        Some(s) => Some(PreviewState { status, ..s }),
        None => None,
    }
}

/// Sets the status of a preview, where there is one.
pub fn update_preview_status(entry: &mut Option<PreviewState>, status: AppStatus)
    ensures
        *final(entry) == with_status(*old(entry), status),
{
    match entry {
        Some(s) => {
            s.status = status;
        },
        None => {},
    }
}

/// Sets the status of a preview after that of its deploy.
pub fn update_preview_deploy_status(entry: &mut Option<PreviewState>, deploy_status: DeployStatus)
    ensures
        *final(entry) == with_status(*old(entry), status_during(deploy_status)),
{
    let status = match deploy_status {
        DeployStatus::Completed => AppStatus::Running,
        DeployStatus::Failed => AppStatus::Failed,
        _ => AppStatus::Deploying,
    };
    update_preview_status(entry, status);
}

// ── Eviction ────────────────────────────────────────────────────────────────

/// Whether a preview counts against the limit of an app when another is
/// deployed: it runs, and is not that other one.
pub open spec fn counts(p: PreviewState, app: Seq<char>, id: Seq<char>) -> bool {
    p.app@ == app && p.preview_id@ != id && p.status == AppStatus::Running
}

/// The previews that count, with the time of their deploy.
pub open spec fn counted(
    previews: Seq<PreviewState>,
    app: Seq<char>,
    id: Seq<char>,
) -> Seq<(Seq<char>, Timestamp)>
    decreases previews.len(),
{
    if previews.len() == 0 {
        seq![]
    } else {
        let before = counted(previews.drop_last(), app, id);
        let p = previews.last();
        if counts(p, app, id) {
            before.push((p.preview_id@, p.deployed_at))
        } else {
            before
        }
    }
}

/// A list with an entry put behind those that are not later.
pub open spec fn put_by_time(
    list: Seq<(Seq<char>, Timestamp)>,
    e: (Seq<char>, Timestamp),
) -> Seq<(Seq<char>, Timestamp)>
    decreases list.len(),
{
    if list.len() == 0 || list.last().1.at_or_before(e.1) {
        list.push(e)
    } else {
        put_by_time(list.drop_last(), e).push(list.last())
    }
}

/// A list in the order of time; entries of one time stay in their order.
pub open spec fn by_time(list: Seq<(Seq<char>, Timestamp)>) -> Seq<(Seq<char>, Timestamp)>
    decreases list.len(),
{
    if list.len() == 0 {
        list
    } else {
        put_by_time(by_time(list.drop_last()), list.last())
    }
}

/// How many of a number of previews must go so that one more stays within the
/// limit.
pub open spec fn surplus(n: nat, max: u32) -> nat {
    if n < max {
        0
    } else if n - max + 1 <= n {
        (n - max + 1) as nat
    } else {
        n
    }
}

/// The previews that must go, the oldest first.
pub open spec fn evicted(
    previews: Seq<PreviewState>,
    app: Seq<char>,
    id: Seq<char>,
    max: u32,
) -> Seq<Seq<char>> {
    let all = by_time(counted(previews, app, id));
    all.take(surplus(all.len(), max) as int).map_values(|e: (Seq<char>, Timestamp)| e.0)
}

/// Whether a list is in the order of time.
pub open spec fn ordered(list: Seq<(Seq<char>, Timestamp)>) -> bool {
    forall|i: int, j: int|
        0 <= i < j < list.len() ==> (#[trigger] list[i]).1.at_or_before((#[trigger] list[j]).1)
}

proof fn put_keeps_order(list: Seq<(Seq<char>, Timestamp)>, e: (Seq<char>, Timestamp))
    requires
        ordered(list),
    ensures
        ordered(put_by_time(list, e)),
        put_by_time(list, e).len() == list.len() + 1,
        put_by_time(list, e).to_multiset() == list.to_multiset().insert(e),
    decreases list.len(),
{
    broadcast use vstd::seq_lib::group_to_multiset_ensures;

    let after = put_by_time(list, e);
    if list.len() == 0 || list.last().1.at_or_before(e.1) {
        assert forall|i: int, j: int| 0 <= i < j < after.len() implies (#[trigger] after[i]).1.at_or_before(
            (#[trigger] after[j]).1,
        ) by {
            if j == list.len() && i < list.len() - 1 {
                assert(list[i].1.at_or_before(list[list.len() - 1].1));
            }
        }
    } else {
        let init = list.drop_last();
        assert forall|i: int, j: int| 0 <= i < j < init.len() implies (#[trigger] init[i]).1.at_or_before(
            (#[trigger] init[j]).1,
        ) by {
            assert(list[i].1.at_or_before(list[j].1));
        }
        put_keeps_order(init, e);
        let mid = put_by_time(init, e);
        assert forall|i: int, j: int| 0 <= i < j < after.len() implies (#[trigger] after[i]).1.at_or_before(
            (#[trigger] after[j]).1,
        ) by {
            if j == mid.len() {
                assert(mid.to_multiset().contains(mid[i]));
                if mid[i] != e {
                    assert(init.to_multiset().contains(mid[i]));
                    assert(init.contains(mid[i]));
                    let k = choose|k: int| 0 <= k < init.len() && init[k] == mid[i];
                    assert(list[k].1.at_or_before(list[list.len() - 1].1));
                }
            } else {
                assert(mid[i].1.at_or_before(mid[j].1));
            }
        }
        assert(init.push(list.last()) =~= list);
        assert(after.to_multiset() =~= list.to_multiset().insert(e));
    }
}

/// Putting a list in the order of time loses nothing and adds nothing.
pub proof fn by_time_orders(list: Seq<(Seq<char>, Timestamp)>)
    ensures
        ordered(by_time(list)),
        by_time(list).len() == list.len(),
        by_time(list).to_multiset() == list.to_multiset(),
    decreases list.len(),
{
    broadcast use vstd::seq_lib::group_to_multiset_ensures;

    if list.len() > 0 {
        by_time_orders(list.drop_last());
        put_keeps_order(by_time(list.drop_last()), list.last());
        assert(list.drop_last().push(list.last()) =~= list);
    }
}

/// Eviction makes room and takes the oldest: what stays is fewer than the
/// limit, as long as that allows any preview at all, and nothing that stays is
/// older than anything that goes.
pub proof fn eviction_makes_room(
    previews: Seq<PreviewState>,
    app: Seq<char>,
    id: Seq<char>,
    max: u32,
)
    ensures
        ({
            let n = counted(previews, app, id).len();
            let all = by_time(counted(previews, app, id));
            let gone = evicted(previews, app, id, max).len();
            &&& gone <= n
            &&& max > 0 ==> n - gone < max
            &&& max > 0 && n < max ==> gone == 0
            &&& forall|i: int, j: int|
                0 <= i < gone <= j < n ==> (#[trigger] all[i]).1.at_or_before((#[trigger] all[j]).1)
            &&& all.to_multiset() == counted(previews, app, id).to_multiset()
        }),
{
    by_time_orders(counted(previews, app, id));
}

fn insert_by_time(list: &mut Vec<(String, Timestamp)>, e: (String, Timestamp))
    ensures
        time_views(final(list)@) == put_by_time(time_views(old(list)@), (e.0@, e.1)),
{
    let ghost given = time_views(list@);
    let mut i: usize = list.len();
    assert(given.take(i as int) =~= given);
    assert(put_by_time(given.take(i as int), (e.0@, e.1)) + given.skip(i as int) =~= put_by_time(
        given,
        (e.0@, e.1),
    ));
    while i > 0 && !list[i - 1].1.not_after(&e.1)
        invariant
            i <= list@.len(),
            given == time_views(list@),
            put_by_time(given.take(i as int), (e.0@, e.1)) + given.skip(i as int) == put_by_time(
                given,
                (e.0@, e.1),
            ),
        decreases i,
    {
        assert(given.take(i as int).last() == (list@[i - 1].0@, list@[i - 1].1));
        assert(given.take(i as int).drop_last() =~= given.take(i - 1));
        assert(put_by_time(given.take(i - 1), (e.0@, e.1)).push(given[i - 1]) + given.skip(i as int)
            =~= put_by_time(given.take(i - 1), (e.0@, e.1)) + given.skip(i - 1));
        i = i - 1;
    }
    proof {
        if i > 0 {
            assert(given.take(i as int).last() == (list@[i - 1].0@, list@[i - 1].1));
        }
        assert(put_by_time(given.take(i as int), (e.0@, e.1)) == given.take(i as int).push((e.0@, e.1)));
    }
    let ghost ev = (e.0@, e.1);
    list.insert(i, e);
    assert(time_views(list@) =~= given.take(i as int).push(ev) + given.skip(i as int));
}

/// Names and times of a list.
pub open spec fn time_views(v: Seq<(String, Timestamp)>) -> Seq<(Seq<char>, Timestamp)> {
    v.map_values(|e: (String, Timestamp)| (e.0@, e.1))
}

/// Picks the previews of an app that must go so that one more stays within the
/// limit, the oldest first.
pub fn pick_victims(previews: &Vec<PreviewState>, app: &str, preview_id: &str, max: u32) -> (r: Vec<String>)
    ensures
        crate::text::texts(r@) == evicted(previews@, app@, preview_id@, max),
{
    let mut list: Vec<(String, Timestamp)> = Vec::new();
    let ghost id = preview_id@;
    let mut i: usize = 0;
    assert(time_views(list@) =~= seq![]);
    while i < previews.len()
        invariant
            i <= previews@.len(),
            id == preview_id@,
            time_views(list@) == by_time(counted(previews@.take(i as int), app@, id)),
        decreases previews@.len() - i,
    {
        let p = &previews[i];
        assert(previews@.take(i + 1).drop_last() =~= previews@.take(i as int));
        assert(previews@.take(i + 1).last() == *p);
        if same(p.app.as_str(), app) && !same(p.preview_id.as_str(), preview_id) && p.status == AppStatus::Running {
            let ghost before = counted(previews@.take(i as int), app@, id);
            assert(before.push((p.preview_id@, p.deployed_at)).drop_last() =~= before);
            insert_by_time(&mut list, (p.preview_id.clone(), p.deployed_at));
        }
        i = i + 1;
    }
    assert(previews@.take(i as int) =~= previews@);
    let ghost all = by_time(counted(previews@, app@, id));
    let n: usize = list.len();
    let count: usize = if n < max as usize {
        0
    } else if max == 0 {
        n
    } else {
        n - max as usize + 1
    };
    assert(count == surplus(all.len(), max));
    let mut out: Vec<String> = Vec::new();
    let mut j: usize = 0;
    while j < count
        invariant
            j <= count <= list@.len(),
            all == time_views(list@),
            out@.len() == j,
            forall|k: int| 0 <= k < j ==> (#[trigger] out@[k])@ == all[k].0,
        decreases count - j,
    {
        out.push(list[j].0.clone());
        assert(all[j as int].0 == list@[j as int].0@);
        j = j + 1;
    }
    assert(crate::text::texts(out@) =~= evicted(previews@, app@, preview_id@, max));
    out
}

// ── Expiry ──────────────────────────────────────────────────────────────────

/// Whether a preview has ended.
pub open spec fn is_expired(p: PreviewState, now: Timestamp) -> bool {
    p.expires_at matches Some(end) && end.at_or_before(now)
}

/// App and id of the previews that have ended, in order.
pub open spec fn expired(previews: Seq<PreviewState>, now: Timestamp) -> Seq<(Seq<char>, Seq<char>)>
    decreases previews.len(),
{
    if previews.len() == 0 {
        seq![]
    } else {
        let before = expired(previews.drop_last(), now);
        if is_expired(previews.last(), now) {
            before.push((previews.last().app@, previews.last().preview_id@))
        } else {
            before
        }
    }
}

/// Pairs of texts.
pub open spec fn pair_views(v: Seq<(String, String)>) -> Seq<(Seq<char>, Seq<char>)> {
    v.map_values(|p: (String, String)| (p.0@, p.1@))
}

/// Lists app and id of the previews that have ended by a given time.
pub fn collect_expired_at(previews: &Vec<PreviewState>, now: Timestamp) -> (r: Vec<(String, String)>)
    ensures
        pair_views(r@) == expired(previews@, now),
{
    let mut out: Vec<(String, String)> = Vec::new();
    let mut i: usize = 0;
    assert(pair_views(out@) =~= seq![]);
    while i < previews.len()
        invariant
            i <= previews@.len(),
            pair_views(out@) == expired(previews@.take(i as int), now),
        decreases previews@.len() - i,
    {
        let p = &previews[i];
        assert(previews@.take(i + 1).drop_last() =~= previews@.take(i as int));
        assert(previews@.take(i + 1).last() == *p);
        let ended: bool = match &p.expires_at {
            Some(end) => end.not_after(&now),
            None => false,
        };
        if ended {
            let ghost before = pair_views(out@);
            out.push((p.app.clone(), p.preview_id.clone()));
            assert(pair_views(out@) =~= before.push((p.app@, p.preview_id@)));
        }
        i = i + 1;
    }
    assert(previews@.take(i as int) =~= previews@);
    out
}

/// A preview without an end never expires, and one that has expired stays so.
pub proof fn expiry_is_final(p: PreviewState, now: Timestamp, later: Timestamp)
    requires
        now.at_or_before(later),
    ensures
        p.expires_at is None ==> !is_expired(p, now),
        is_expired(p, now) ==> is_expired(p, later),
{
}

// ── Teardown ────────────────────────────────────────────────────────────────

/// One step of taking a preview down. None of them keeps the next from being
/// taken if it fails.
#[derive(Debug)]
pub enum TeardownStep {
    StopAndRemove { container: String },
    TeardownPod { manifest: String },
    RemoveRoute { app: String },
    /// Drop the preview from memory.
    Forget { key: String },
    /// Delete what was kept of it.
    DeleteState { app: String, preview_id: String },
}

/// A step as a mathematical value.
pub ghost enum TeardownView {
    StopAndRemove(Seq<char>),
    TeardownPod(Seq<char>),
    RemoveRoute(Seq<char>),
    Forget(Seq<char>),
    DeleteState(Seq<char>, Seq<char>),
}

impl View for TeardownStep {
    type V = TeardownView;

    open spec fn view(&self) -> TeardownView {
        match self {
            TeardownStep::StopAndRemove { container } => TeardownView::StopAndRemove(container@),
            TeardownStep::TeardownPod { manifest } => TeardownView::TeardownPod(manifest@),
            TeardownStep::RemoveRoute { app } => TeardownView::RemoveRoute(app@),
            TeardownStep::Forget { key } => TeardownView::Forget(key@),
            TeardownStep::DeleteState { app, preview_id } => TeardownView::DeleteState(app@, preview_id@),
        }
    }
}

/// The steps of taking a preview down: its container, its pod, its route, and
/// what is known of it. There is nothing to do for one that is not known.
pub open spec fn teardown_steps(entry: Option<PreviewState>, app: Seq<char>, id: Seq<char>) -> Seq<TeardownView> {
    match entry {
        None => seq![],
        Some(s) => (match s.container_id {
            Some(c) => seq![TeardownView::StopAndRemove(c@)],
            None => seq![],
        }) + (match (s.pod_name, s.manifest_path) {
            (Some(_), Some(m)) => seq![TeardownView::TeardownPod(m@)],
            _ => seq![],
        }) + seq![
            TeardownView::RemoveRoute(preview_name(app, id)),
            TeardownView::Forget(preview_key(app, id)),
            TeardownView::DeleteState(app, id),
        ],
    }
}

/// Plans taking a preview down.
pub fn plan_teardown(entry: &Option<PreviewState>, app: &str, preview_id: &str) -> (r: Vec<TeardownStep>)
    ensures
        r@.map_values(|s: TeardownStep| s@) == teardown_steps(*entry, app@, preview_id@),
{
    let mut out: Vec<TeardownStep> = Vec::new();
    match entry {
        None => {},
        Some(s) => {
            match &s.container_id {
                Some(c) => {
                    out.push(TeardownStep::StopAndRemove { container: c.clone() });
                },
                None => {},
            }
            match (&s.pod_name, &s.manifest_path) {
                (Some(_), Some(m)) => {
                    out.push(TeardownStep::TeardownPod { manifest: m.clone() });
                },
                _ => {},
            }
            out.push(TeardownStep::RemoveRoute { app: name_for(app, preview_id) });
            out.push(TeardownStep::Forget { key: key_for(app, preview_id) });
            out.push(
                TeardownStep::DeleteState { app: app.to_owned(), preview_id: preview_id.to_owned() },
            );
        },
    }
    assert(out@.map_values(|s: TeardownStep| s@) =~= teardown_steps(*entry, app@, preview_id@));
    out
}

/// Taking a preview down that is known removes its container and tears down its pod
/// as far as it has them, then its route, and forgets it; nothing is done twice, and
/// nothing at all for a preview that is not known.
pub proof fn teardown_leaves_nothing(entry: Option<PreviewState>, app: Seq<char>, id: Seq<char>)
    ensures
        ({
            let steps = teardown_steps(entry, app, id);
            &&& entry is None ==> steps.len() == 0
            &&& entry matches Some(s) ==> {
                let own = app + "-preview-"@ + id;
                let n = steps.len() as int;
                &&& n == 3 + (if s.container_id is Some {
                    1int
                } else {
                    0
                }) + (if s.pod_name is Some && s.manifest_path is Some {
                    1int
                } else {
                    0
                })
                &&& s.container_id matches Some(c) ==> steps[0] == TeardownView::StopAndRemove(c@)
                &&& s.pod_name is Some && s.manifest_path is Some ==> steps[n - 4] == TeardownView::TeardownPod(
                    s.manifest_path->0@,
                )
                &&& steps[n - 3] == TeardownView::RemoveRoute(own)
                &&& steps[n - 2] == TeardownView::Forget(app + ":"@ + id)
                &&& steps[n - 1] == TeardownView::DeleteState(app, id)
            }
        }),
{
}

/// A time to live is its number times its unit: days, hours, minutes or seconds, with
/// any white space around it.
pub proof fn a_lifetime_is_its_number_of_units(
    text: Seq<char>,
    n: int,
    unit: char,
    front: Seq<char>,
    gap: Seq<char>,
    back: Seq<char>,
)
    requires
        -0x8000_0000_0000_0000 <= n <= 0x7fff_ffff_ffff_ffff,
        unit == 'd' || unit == 'h' || unit == 'm' || unit == 's',
        text == front + (signed_text(n) + gap + seq![unit]) + back,
        all_white(front),
        all_white(gap),
        all_white(back),
        -9_223_372_036_854_775 <= n * lasting(unit) <= 9_223_372_036_854_775,
    ensures
        ttl_seconds(text) == Ok::<int, Seq<char>>(n * lasting(unit)),
{
    let number = signed_text(n);
    let body = number + gap + seq![unit];
    padding_is_trimmed(front, body, back);
    reveal_strlit("-");
    decimal_reads_back((if n < 0 {
        -n
    } else {
        n
    }) as nat);
    let digits = decimal((if n < 0 {
        -n
    } else {
        n
    }) as nat);
    assert(is_digit(digits[0]));
    assert(is_digit(digits[digits.len() - 1]));
    assert(number.last() == digits.last());
    assert(body[0] == number[0]);
    assert(body.last() == unit);
    assert(trimmed(body) == body);
    assert(body.drop_last() =~= number + gap);
    padding_is_trimmed(seq![], number, gap);
    assert(seq![] + number + gap =~= number + gap);
    assert(trimmed(number) == number);
    integer_reads_back(n);
}

/// The seconds of a unit of time.
pub open spec fn lasting(unit: char) -> int {
    if unit == 'd' {
        86_400
    } else if unit == 'h' {
        3600
    } else if unit == 'm' {
        60
    } else {
        1
    }
}

/// The domain of an app's previews is the app's own, else the server's; the limit on
/// previews is the repository's, else the app's, else the server's.
pub proof fn the_nearest_setting_counts(
    server: Option<ServerPreviewConfig>,
    app: Option<AppPreviewConfig>,
    repo_max: Option<u32>,
)
    ensures
        app is Some && app->0.domain is Some ==> domain_in_force(server, app) == Some(app->0.domain->0@),
        !(app is Some && app->0.domain is Some) && server is Some ==> domain_in_force(server, app) == Some(
            server->0.domain@,
        ),
        !(app is Some && app->0.domain is Some) && server is None ==> domain_in_force(server, app) is None,
        repo_max is Some ==> limit_in_force(repo_max, app, server) == repo_max,
        repo_max is None && app is Some && app->0.max is Some ==> limit_in_force(repo_max, app, server) == app->0.max,
        repo_max is None && !(app is Some && app->0.max is Some) && server is Some ==> limit_in_force(
            repo_max,
            app,
            server,
        ) == server->0.max_per_app,
{
}

/// Whether a preview with an id runs for an app.
pub open spec fn runs(previews: Seq<PreviewState>, app: Seq<char>, id: Seq<char>) -> bool {
    exists|i: int|
        0 <= i < previews.len() && (#[trigger] previews[i]).app@ == app && previews[i].preview_id@ == id
            && previews[i].status == AppStatus::Running
}

proof fn counted_are(previews: Seq<PreviewState>, app: Seq<char>, id: Seq<char>, e: (Seq<char>, Timestamp))
    ensures
        counted(previews, app, id).contains(e) <==> e.0 != id && exists|i: int|
            0 <= i < previews.len() && is_dated(#[trigger] previews[i], app, e),
    decreases previews.len(),
{
    if previews.len() > 0 {
        let init = previews.drop_last();
        let before = counted(init, app, id);
        let all = counted(previews, app, id);
        counted_are(init, app, id, e);
        if all.contains(e) {
            let k = choose|k: int| 0 <= k < all.len() && all[k] == e;
            if k < before.len() {
                assert(before[k] == e);
                assert(before.contains(e));
                let i = choose|i: int| 0 <= i < init.len() && is_dated(#[trigger] init[i], app, e);
                assert(is_dated(previews[i], app, e));
            } else {
                assert(is_dated(previews[previews.len() - 1], app, e));
            }
        }
        if e.0 != id && exists|i: int| 0 <= i < previews.len() && is_dated(#[trigger] previews[i], app, e) {
            let i = choose|i: int| 0 <= i < previews.len() && is_dated(#[trigger] previews[i], app, e);
            if i < init.len() {
                assert(is_dated(init[i], app, e));
                assert(before.contains(e));
                let k = choose|k: int| 0 <= k < before.len() && before[k] == e;
                assert(all[k] == e);
            } else {
                assert(all[all.len() - 1] == e);
            }
        }
    }
}

/// Whether a preview runs for an app, with an id and the time of its deploy.
pub open spec fn is_dated(p: PreviewState, app: Seq<char>, e: (Seq<char>, Timestamp)) -> bool {
    p.app@ == app && p.preview_id@ == e.0 && p.deployed_at == e.1 && p.status == AppStatus::Running
}

/// Only running previews of the app are evicted, never the one that is being
/// deployed, and no more of them than the limit asks for.
pub proof fn no_other_preview_is_evicted(
    previews: Seq<PreviewState>,
    app: Seq<char>,
    id: Seq<char>,
    max: u32,
    k: int,
)
    requires
        0 <= k < evicted(previews, app, id, max).len(),
    ensures
        evicted(previews, app, id, max)[k] != id,
        runs(previews, app, evicted(previews, app, id, max)[k]),
        max > 0 ==> counted(previews, app, id).len() - evicted(previews, app, id, max).len() == max - 1,
        max == 0 ==> evicted(previews, app, id, max).len() == counted(previews, app, id).len(),
{
    broadcast use vstd::seq_lib::group_to_multiset_ensures;

    let list = counted(previews, app, id);
    let all = by_time(list);
    by_time_orders(list);
    eviction_makes_room(previews, app, id, max);
    let e = all[k];
    assert(all.contains(e));
    assert(all.to_multiset().count(e) > 0);
    assert(list.to_multiset().count(e) > 0);
    assert(list.contains(e));
    counted_are(previews, app, id, e);
    let i = choose|i: int| 0 <= i < previews.len() && is_dated(#[trigger] previews[i], app, e);
    assert(previews[i].app@ == app);
}

/// Of two running previews the one that stays was not deployed before the one
/// that goes.
pub proof fn the_oldest_goes_first(
    previews: Seq<PreviewState>,
    app: Seq<char>,
    id: Seq<char>,
    max: u32,
    i: int,
    k: int,
)
    requires
        0 <= i < previews.len(),
        previews[i].app@ == app,
        previews[i].preview_id@ != id,
        previews[i].status == AppStatus::Running,
        !evicted(previews, app, id, max).contains(previews[i].preview_id@),
        0 <= k < evicted(previews, app, id, max).len(),
    ensures
        exists|j: int|
            0 <= j < previews.len() && (#[trigger] previews[j]).app@ == app && previews[j].preview_id@ == evicted(
                previews,
                app,
                id,
                max,
            )[k] && previews[j].deployed_at.at_or_before(previews[i].deployed_at),
{
    broadcast use vstd::seq_lib::group_to_multiset_ensures;

    let list = counted(previews, app, id);
    let all = by_time(list);
    let gone = evicted(previews, app, id, max);
    by_time_orders(list);
    eviction_makes_room(previews, app, id, max);
    let kept = (previews[i].preview_id@, previews[i].deployed_at);
    assert(is_dated(previews[i], app, kept));
    counted_are(previews, app, id, kept);
    assert(list.to_multiset().count(kept) > 0);
    assert(all.to_multiset().count(kept) > 0);
    assert(all.contains(kept));
    let at = choose|at: int| 0 <= at < all.len() && all[at] == kept;
    if at < gone.len() {
        assert(gone[at] == kept.0);
        assert(gone.contains(kept.0));
    }
    let e = all[k];
    assert(gone[k] == e.0);
    assert(e.1.at_or_before(kept.1));
    assert(all.contains(e));
    assert(all.to_multiset().count(e) > 0);
    assert(list.to_multiset().count(e) > 0);
    assert(list.contains(e));
    counted_are(previews, app, id, e);
    let j = choose|j: int| 0 <= j < previews.len() && is_dated(#[trigger] previews[j], app, e);
    assert(previews[j].app@ == app);
}

/// What a preview asks for it gets, as far as the server allows it: the
/// repository's wish before the app's, uncapped where the server sets no cap.
pub proof fn what_is_allowed_is_granted(
    wish: RepoResourceConfig,
    server: Option<ServerPreviewConfig>,
    base: ResourceConfig,
    cpus_within: bool,
    r: ResourceConfig,
)
    requires
        resources_in_force(Some(wish), server, base, cpus_within, r),
    ensures
        server is None || (server->0).max_memory is None ==> {
            &&& wish.memory is Some ==> opt_text(r.memory) == opt_text(wish.memory)
            &&& wish.memory is None ==> opt_text(r.memory) == opt_text(base.memory)
        },
        server is None || (server->0).max_cpus is None ==> {
            &&& wish.cpus is Some ==> opt_text(r.cpus) == opt_text(wish.cpus)
            &&& wish.cpus is None ==> opt_text(r.cpus) == opt_text(base.cpus)
        },
        server matches Some(s) ==> {
            &&& s.max_memory is Some && memory_bytes(s.max_memory) is Some && memory_bytes(wish.memory) is Some
                && memory_bytes(wish.memory)->0 <= memory_bytes(s.max_memory)->0 ==> opt_text(r.memory) == opt_text(
                wish.memory,
            )
            &&& s.max_cpus is Some && wish.cpus is Some && cpus_within ==> opt_text(r.cpus) == opt_text(wish.cpus)
            &&& s.max_cpus is Some && !cpus_within ==> opt_text(r.cpus) == opt_text(s.max_cpus)
        },
{
}

} // verus!
