//! What a deploy is, what is known of a running app, and the settings a deploy
//! resolves before it acts.

use crate::config::{copy_pairs, AppConfig, DeployConfig, Duplicate, SlipConfig};
use crate::error::HealthError;
use crate::text::{
    begins, decimal, decimal_text, from_chars, lines, rfind, same, split_lines, starts_with, texts, to_chars,
    trim, trimmed,
};
use crate::time::{utc_now, Duration, Timestamp};
use dashmap::DashMap;
use vstd::prelude::*;
use vstd::string::*;

verus! {

// ── Health reasons ──────────────────────────────────────────────────────────

/// The tagged reason of a deploy that a health check ended.
pub open spec fn health_reason(e: HealthError) -> Seq<char> {
    match e {
        HealthError::UnexpectedStatus { .. } => "[health_unexpected_status] "@ + e.text(),
        HealthError::Unhealthy { .. } => "[health_check_failed] health check failed: "@ + e.text(),
    }
}

/// The tagged reason of a deploy that a health check ended. It holds the
/// expected and the observed status, and nothing of the response.
pub fn format_health_reason(e: &HealthError) -> (r: String)
    ensures
        r@ == health_reason(*e),
{
    match e {
        HealthError::UnexpectedStatus { .. } => "[health_unexpected_status] ".to_owned().concat(
            e.message().as_str(),
        ),
        HealthError::Unhealthy { .. } => "[health_check_failed] health check failed: ".to_owned().concat(
            e.message().as_str(),
        ),
    }
}

// ── Statuses ────────────────────────────────────────────────────────────────

/// How far a deploy has come.
#[derive(Clone, Copy, Debug, PartialEq, Eq, Structural)]
pub enum DeployStatus {
    Accepted,
    Pulling,
    Configuring,
    Starting,
    HealthChecking,
    Switching,
    /// The old container is being stopped: downtime begins.
    StoppingOld,
    /// The route is being taken away during downtime.
    RemovingRoute,
    /// The old container is being restarted after a failure.
    RestartingOld,
    Completed,
    Failed,
}

impl DeployStatus {
    /// The name it is stored under.
    pub open spec fn name(self) -> Seq<char> {
        match self {
            DeployStatus::Accepted => "accepted"@,
            DeployStatus::Pulling => "pulling"@,
            DeployStatus::Configuring => "configuring"@,
            DeployStatus::Starting => "starting"@,
            DeployStatus::HealthChecking => "health_checking"@,
            DeployStatus::Switching => "switching"@,
            DeployStatus::StoppingOld => "stopping_old"@,
            DeployStatus::RemovingRoute => "removing_route"@,
            DeployStatus::RestartingOld => "restarting_old"@,
            DeployStatus::Completed => "completed"@,
            DeployStatus::Failed => "failed"@,
        }
    }

    /// Whether a deploy of this status has ended.
    pub open spec fn terminal(self) -> bool {
        self == DeployStatus::Completed || self == DeployStatus::Failed
    }

    /// The name it is stored under.
    pub fn as_str(&self) -> (r: &'static str)
        ensures
            r@ == self.name(),
    {
        match self {
            DeployStatus::Accepted => "accepted",
            DeployStatus::Pulling => "pulling",
            DeployStatus::Configuring => "configuring",
            DeployStatus::Starting => "starting",
            DeployStatus::HealthChecking => "health_checking",
            DeployStatus::Switching => "switching",
            DeployStatus::StoppingOld => "stopping_old",
            DeployStatus::RemovingRoute => "removing_route",
            DeployStatus::RestartingOld => "restarting_old",
            DeployStatus::Completed => "completed",
            DeployStatus::Failed => "failed",
        }
    }

    /// No two statuses are stored under one name.
    pub proof fn names_differ(self, other: DeployStatus)
        requires
            self.name() == other.name(),
        ensures
            self == other,
    {
        reveal_strlit("accepted");
        reveal_strlit("pulling");
        reveal_strlit("configuring");
        reveal_strlit("starting");
        reveal_strlit("health_checking");
        reveal_strlit("switching");
        reveal_strlit("stopping_old");
        reveal_strlit("removing_route");
        reveal_strlit("restarting_old");
        reveal_strlit("completed");
        reveal_strlit("failed");
        assert("accepted"@.len() == 8 && "pulling"@.len() == 7 && "configuring"@.len() == 11);
        assert("starting"@.len() == 8 && "health_checking"@.len() == 15 && "switching"@.len() == 9);
        assert("stopping_old"@.len() == 12 && "removing_route"@.len() == 14);
        assert("restarting_old"@.len() == 14 && "completed"@.len() == 9 && "failed"@.len() == 6);
        assert("accepted"@[0] == 'a' && "starting"@[0] == 's');
        assert("switching"@[0] == 's' && "completed"@[0] == 'c');
        assert("removing_route"@[2] == 'm' && "restarting_old"@[2] == 's');
    }

    /// Reads a stored name. One that is not known counts as failed.
    pub fn from_name(name: &str) -> (r: DeployStatus)
        ensures
            r.name() == name@ || (r == DeployStatus::Failed && forall|s: DeployStatus| #[trigger] s.name() != name@),
    {
        let r = if same(name, "accepted") {
            DeployStatus::Accepted
        } else if same(name, "pulling") {
            DeployStatus::Pulling
        } else if same(name, "configuring") {
            DeployStatus::Configuring
        } else if same(name, "starting") {
            DeployStatus::Starting
        } else if same(name, "health_checking") {
            DeployStatus::HealthChecking
        } else if same(name, "switching") {
            DeployStatus::Switching
        } else if same(name, "stopping_old") {
            DeployStatus::StoppingOld
        } else if same(name, "removing_route") {
            DeployStatus::RemovingRoute
        } else if same(name, "restarting_old") {
            DeployStatus::RestartingOld
        } else if same(name, "completed") {
            DeployStatus::Completed
        } else {
            DeployStatus::Failed
        };
        r
    }
}

/// What set a deploy off.
#[derive(Clone, Copy, Debug, PartialEq, Eq, Structural)]
pub enum TriggerSource {
    Webhook,
    Cli,
    Rollback,
}

/// How an app is doing.
#[derive(Clone, Copy, Debug, PartialEq, Eq, Structural)]
pub enum AppStatus {
    NotDeployed,
    Running,
    Deploying,
    Failed,
}

impl Default for AppStatus {
    fn default() -> (r: Self)
        ensures
            r == AppStatus::NotDeployed,
    {
        AppStatus::NotDeployed
    }
}

// ── Deploys ─────────────────────────────────────────────────────────────────

/// One attempt at deploying an app.
#[derive(Debug)]
pub struct DeployContext {
    pub id: String,
    pub app: String,
    pub image: String,
    pub tag: String,
    /// Full image references by container name, each name once.
    pub images: Vec<(String, String)>,
    pub status: DeployStatus,
    pub started_at: Timestamp,
    pub finished_at: Option<Timestamp>,
    pub error: Option<String>,
    pub triggered_by: TriggerSource,
    pub new_container_id: Option<String>,
    pub new_port: Option<u16>,
    pub new_pod_name: Option<String>,
    pub new_manifest_path: Option<String>,
    /// Whether neither the old container nor a fallback could be brought up.
    pub rollback_failed: bool,
}

impl Duplicate for DeployContext {
    open spec fn alike(&self, other: &Self) -> bool {
        &&& *self == (DeployContext { images: self.images, ..*other })
        &&& self.images@ == other.images@
    }

    fn duplicate(&self) -> (r: Self) {
        DeployContext {
            id: self.id.clone(),
            app: self.app.clone(),
            image: self.image.clone(),
            tag: self.tag.clone(),
            images: copy_pairs(&self.images),
            status: self.status,
            started_at: self.started_at,
            finished_at: self.finished_at,
            error: self.error.clone(),
            triggered_by: self.triggered_by,
            new_container_id: self.new_container_id.clone(),
            new_port: self.new_port,
            new_pod_name: self.new_pod_name.clone(),
            new_manifest_path: self.new_manifest_path.clone(),
            rollback_failed: self.rollback_failed,
        }
    }
}

/// What a table of the latest deploys holds, by app.
pub uninterp spec fn deploys_of(table: dashmap::DashMap<String, DeployContext>) -> Map<Seq<char>, DeployContext>;

/// `DashMap::insert` sets the value under a key and gives back the one that was
/// there.
#[verifier::external_body]
fn put_deploy(table: &mut DashMap<String, DeployContext>, app: String, ctx: DeployContext) -> (r: Option<DeployContext>)
    ensures
        r == (if deploys_of(*old(table)).contains_key(app@) {
            Some(deploys_of(*old(table))[app@])
        } else {
            None
        }),
        deploys_of(*final(table)) == deploys_of(*old(table)).insert(app@, ctx),
{
    table.insert(app, ctx)
}

/// Notes a deploy as the latest of its app; those of other apps stay.
pub fn record_deploy(table: &mut DashMap<String, DeployContext>, ctx: &DeployContext)
    ensures
        deploys_of(*final(table)).contains_key(ctx.app@),
        deploys_of(*final(table))[ctx.app@].alike(ctx),
        deploys_of(*final(table)) == deploys_of(*old(table)).insert(ctx.app@, deploys_of(*final(table))[ctx.app@]),
{
    let _ = put_deploy(table, ctx.app.clone(), ctx.duplicate());
}

/// Whether a deploy is `before` with a failure recorded.
pub open spec fn failed_from(
    before: DeployContext,
    after: DeployContext,
    error: Seq<char>,
    now: Timestamp,
) -> bool {
    &&& after.error is Some
    &&& after.error->0@ == error
    &&& after == (DeployContext {
        status: DeployStatus::Failed,
        finished_at: Some(now),
        error: after.error,
        ..before
    })
}

impl DeployContext {
    /// Whether an attempt has just been accepted.
    pub open spec fn fresh(self) -> bool {
        &&& self.images@.len() == 0
        &&& self.status == DeployStatus::Accepted
        &&& self.finished_at is None
        &&& self.error is None
        &&& self.new_container_id is None
        &&& self.new_port is None
        &&& self.new_pod_name is None
        &&& self.new_manifest_path is None
        &&& !self.rollback_failed
    }

    /// An accepted attempt that starts now.
    pub fn new(id: String, app: String, image: String, tag: String, triggered_by: TriggerSource) -> (r: Self)
        ensures
            r.id == id,
            r.app == app,
            r.image == image,
            r.tag == tag,
            r.triggered_by == triggered_by,
            r.fresh(),
    {
        DeployContext::new_at(id, app, image, tag, triggered_by, utc_now())
    }

    /// An accepted attempt that starts at a given time.
    pub fn new_at(
        id: String,
        app: String,
        image: String,
        tag: String,
        triggered_by: TriggerSource,
        started_at: Timestamp,
    ) -> (r: Self)
        ensures
            r.id == id,
            r.app == app,
            r.image == image,
            r.tag == tag,
            r.triggered_by == triggered_by,
            r.started_at == started_at,
            r.fresh(),
    {
        DeployContext {
            id,
            app,
            image,
            tag,
            images: Vec::new(),
            status: DeployStatus::Accepted,
            started_at,
            finished_at: None,
            error: None,
            triggered_by,
            new_container_id: None,
            new_port: None,
            new_pod_name: None,
            new_manifest_path: None,
            rollback_failed: false,
        }
    }

    /// Records that the attempt has failed just now.
    pub fn fail(&mut self, error: &str)
        ensures
            exists|now: Timestamp| #[trigger] failed_from(*old(self), *final(self), error@, now),
    {
        let now = utc_now();
        self.fail_at(error, now);
        assert(failed_from(*old(self), *self, error@, now));
    }

    /// Records that the attempt failed at a given time.
    pub fn fail_at(&mut self, error: &str, now: Timestamp)
        ensures
            failed_from(*old(self), *final(self), error@, now),
    {
        self.status = DeployStatus::Failed;
        self.finished_at = Some(now);
        self.error = Some(error.to_owned());
    }
}

// ── Running apps ────────────────────────────────────────────────────────────

/// A hostname and the host port it leads to.
#[derive(Debug)]
pub struct RouteState {
    pub hostname: String,
    pub port: u16,
}

/// What is known of a deployed app.
#[derive(Debug)]
pub struct AppRuntimeState {
    pub status: AppStatus,
    pub current_tag: Option<String>,
    pub previous_tag: Option<String>,
    pub current_container_id: Option<String>,
    pub previous_container_id: Option<String>,
    pub current_port: Option<u16>,
    pub current_routes: Vec<RouteState>,
    pub deployed_at: Option<Timestamp>,
    pub deploy_id: Option<String>,
    pub current_pod_name: Option<String>,
    pub current_manifest_path: Option<String>,
    pub kind: Option<String>,
    pub last_applied: Option<String>,
}

/// The hostnames and ports of routes.
pub open spec fn route_states(v: Seq<RouteState>) -> Seq<(Seq<char>, u16)> {
    v.map_values(|r: RouteState| (r.hostname@, r.port))
}

impl Duplicate for RouteState {
    open spec fn alike(&self, other: &Self) -> bool {
        *self == *other
    }

    fn duplicate(&self) -> (r: Self) {
        RouteState { hostname: self.hostname.clone(), port: self.port }
    }
}

impl Duplicate for AppRuntimeState {
    open spec fn alike(&self, other: &Self) -> bool {
        &&& self.current_routes@ == other.current_routes@
        &&& *self == (AppRuntimeState { current_routes: self.current_routes, ..*other })
    }

    fn duplicate(&self) -> (r: Self) {
        AppRuntimeState {
            status: self.status,
            current_tag: self.current_tag.clone(),
            previous_tag: self.previous_tag.clone(),
            current_container_id: self.current_container_id.clone(),
            previous_container_id: self.previous_container_id.clone(),
            current_port: self.current_port,
            current_routes: crate::config::duplicate_all(&self.current_routes),
            deployed_at: self.deployed_at,
            deploy_id: self.deploy_id.clone(),
            current_pod_name: self.current_pod_name.clone(),
            current_manifest_path: self.current_manifest_path.clone(),
            kind: self.kind.clone(),
            last_applied: self.last_applied.clone(),
        }
    }
}

impl Default for AppRuntimeState {
    /// An app that was never deployed.
    fn default() -> (r: Self)
        ensures
            r.current_routes@.len() == 0,
            r == (AppRuntimeState {
                status: AppStatus::NotDeployed,
                current_tag: None,
                previous_tag: None,
                current_container_id: None,
                previous_container_id: None,
                current_port: None,
                current_routes: r.current_routes,
                deployed_at: None,
                deploy_id: None,
                current_pod_name: None,
                current_manifest_path: None,
                kind: None,
                last_applied: None,
            }),
    {
        AppRuntimeState {
            status: AppStatus::NotDeployed,
            current_tag: None,
            previous_tag: None,
            current_container_id: None,
            previous_container_id: None,
            current_port: None,
            current_routes: Vec::new(),
            deployed_at: None,
            deploy_id: None,
            current_pod_name: None,
            current_manifest_path: None,
            kind: None,
            last_applied: None,
        }
    }
}

// ── Time limits ─────────────────────────────────────────────────────────────

/// The limit of a deploy: the app's own, else the server's, else ten minutes.
pub open spec fn limit_in_force(app: Option<Duration>, server: Option<Duration>) -> Duration {
    match (app, server) {
        (Some(d), _) => d,
        (None, Some(d)) => d,
        (None, None) => Duration::of_secs(600),
    }
}

fn limit_of(app: Option<Duration>, server: Option<Duration>) -> (r: Duration)
    ensures
        r == limit_in_force(app, server),
{
    match (app, server) {
        (Some(d), _) => d,
        (None, Some(d)) => d,
        (None, None) => Duration::from_secs(600),
    }
}

/// The time limit of a production deploy.
pub fn resolve_deploy_timeout(config: &SlipConfig, app_config: &DeployConfig) -> (r: Duration)
    ensures
        r == limit_in_force(
            app_config.timeout,
            match config.deploy {
                Some(d) => Some(d.timeout),
                None => None,
            },
        ),
{
    limit_of(
        app_config.timeout,
        match &config.deploy {
            Some(d) => Some(d.timeout),
            None => None,
        },
    )
}

/// The time limit of a preview deploy.
pub fn resolve_preview_timeout(config: &SlipConfig, app_config: &DeployConfig) -> (r: Duration)
    ensures
        r == limit_in_force(
            app_config.timeout,
            match config.deploy {
                Some(d) => Some(d.preview_timeout),
                None => None,
            },
        ),
{
    limit_of(
        app_config.timeout,
        match &config.deploy {
            Some(d) => Some(d.preview_timeout),
            None => None,
        },
    )
}

/// A span of time in minutes and seconds.
pub open spec fn minutes_and_seconds(d: Duration) -> Seq<char> {
    decimal((d.secs() / 60) as nat) + "m"@ + decimal((d.secs() % 60) as nat) + "s"@
}

/// Writes a span of time for messages, such as `10m0s`.
pub fn format_duration(dur: Duration) -> (r: String)
    ensures
        r@ == minutes_and_seconds(dur),
{
    decimal_text(dur.as_secs() / 60).concat("m").concat(decimal_text(dur.as_secs() % 60).as_str()).concat("s")
}

// ── Image references ────────────────────────────────────────────────────────

/// An image reference as image and tag: split at the last `@`, else at the
/// last colon, unless that one lies before the last slash and so belongs to a
/// port; else with the tag `latest`.
pub open spec fn image_and_tag(full: Seq<char>) -> (Seq<char>, Seq<char>) {
    match full.index_of_last('@') {
        Some(i) => (full.take(i), full.skip(i + 1)),
        None => match (full.index_of_last(':'), full.index_of_last('/')) {
            (Some(c), Some(s)) => if c > s {
                (full.take(c), full.skip(c + 1))
            } else {
                (full, "latest"@)
            },
            (Some(c), None) => (full.take(c), full.skip(c + 1)),
            (None, _) => (full, "latest"@),
        },
    }
}

/// Splits an image reference into image and tag. A digest is taken as the tag.
pub fn parse_image_ref(full_ref: &str) -> (r: (String, String))
    ensures
        (r.0@, r.1@) == image_and_tag(full_ref@),
{
    let v = to_chars(full_ref);
    let n: usize = v.len();
    let cut: Option<usize> = match rfind(&v, '@') {
        Some(i) => Some(i),
        None => match (rfind(&v, ':'), rfind(&v, '/')) {
            (Some(c), Some(s)) => if c > s {
                Some(c)
            } else {
                None
            },
            (Some(c), None) => Some(c),
            (None, _) => None,
        },
    };
    match cut {
        Some(i) => {
            assert(v@.subrange(0, i as int) =~= full_ref@.take(i as int));
            assert(v@.subrange(i + 1, n as int) =~= full_ref@.skip(i + 1));
            (from_chars(&v, 0, i), from_chars(&v, i + 1, n))
        },
        None => (full_ref.to_owned(), "latest".to_owned()),
    }
}

// ── Environment ─────────────────────────────────────────────────────────────

/// A variable as a `KEY=VALUE` entry.
pub open spec fn env_text(key: Seq<char>, value: Seq<char>) -> Seq<char> {
    key + "="@ + value
}

/// The entries of an environment, in order.
pub open spec fn env_texts(env: Seq<(String, String)>) -> Seq<Seq<char>> {
    env.map_values(|p: (String, String)| env_text(p.0@, p.1@))
}

/// The entries of an environment file: its trimmed lines, without empty ones
/// and comments.
pub open spec fn file_entries(ls: Seq<Seq<char>>) -> Seq<Seq<char>>
    decreases ls.len(),
{
    if ls.len() == 0 {
        seq![]
    } else {
        let before = file_entries(ls.drop_last());
        let line = trimmed(ls.last());
        if line.len() == 0 || line[0] == '#' {
            before
        } else {
            before.push(line)
        }
    }
}

/// Entries without those that set a key.
pub open spec fn without_key(vars: Seq<Seq<char>>, key: Seq<char>) -> Seq<Seq<char>>
    decreases vars.len(),
{
    if vars.len() == 0 {
        seq![]
    } else {
        let before = without_key(vars.drop_last(), key);
        if starts_with(vars.last(), key + "="@) {
            before
        } else {
            before.push(vars.last())
        }
    }
}

/// Entries with secrets, each in place of what sets its key.
pub open spec fn with_secrets(vars: Seq<Seq<char>>, secrets: Seq<(String, String)>) -> Seq<Seq<char>>
    decreases secrets.len(),
{
    if secrets.len() == 0 {
        vars
    } else {
        let before = with_secrets(vars, secrets.drop_last());
        let (key, value) = secrets.last();
        without_key(before, key@).push(env_text(key@, value@))
    }
}

/// The environment of an app: its own variables, those of its environment
/// file, and its secrets over both.
pub open spec fn environment(
    env: Seq<(String, String)>,
    file: Option<String>,
    secrets: Option<Vec<(String, String)>>,
) -> Seq<Seq<char>> {
    let plain = env_texts(env) + match file {
        Some(text) => file_entries(lines(text@)),
        None => seq![],
    };
    match secrets {
        Some(s) => with_secrets(plain, s@),
        None => plain,
    }
}

fn drop_key(vars: &Vec<String>, key: &str) -> (r: Vec<String>)
    ensures
        texts(r@) == without_key(texts(vars@), key@),
{
    let prefix = key.to_owned().concat("=");
    let ghost all = texts(vars@);
    let mut out: Vec<String> = Vec::new();
    let mut i: usize = 0;
    assert(texts(out@) =~= seq![]);
    while i < vars.len()
        invariant
            i <= vars@.len(),
            all == texts(vars@),
            prefix@ == key@ + "="@,
            texts(out@) == without_key(all.take(i as int), key@),
        decreases vars@.len() - i,
    {
        assert(all.take(i + 1).drop_last() =~= all.take(i as int));
        assert(all.take(i + 1).last() == vars@[i as int]@);
        if !begins(vars[i].as_str(), prefix.as_str()) {
            let ghost before = texts(out@);
            out.push(vars[i].clone());
            assert(texts(out@) =~= before.push(vars@[i as int]@));
        }
        i = i + 1;
    }
    assert(all.take(i as int) =~= all);
    out
}

/// The environment of an app, given what its environment file holds and what
/// the secret store has for it, as far as either could be read.
pub fn resolve_env_vars_for_app(
    app_config: &AppConfig,
    env_file: &Option<String>,
    secrets: &Option<Vec<(String, String)>>,
) -> (r: Vec<String>)
    ensures
        texts(r@) == environment(app_config.env@, *env_file, *secrets),
{
    let env = &app_config.env;
    let mut vars: Vec<String> = Vec::new();
    let mut i: usize = 0;
    assert(texts(vars@) =~= env_texts(env@.take(0)));
    while i < env.len()
        invariant
            i <= env@.len(),
            texts(vars@) == env_texts(env@.take(i as int)),
        decreases env@.len() - i,
    {
        let ghost before = texts(vars@);
        let entry = env[i].0.clone().concat("=").concat(env[i].1.as_str());
        vars.push(entry);
        i = i + 1;
        assert(texts(vars@) =~= before.push(entry@));
        assert(env_texts(env@.take(i as int)) =~= env_texts(env@.take(i - 1)).push(entry@));
    }
    assert(env@.take(i as int) =~= env@);
    let ghost own = texts(vars@);
    match env_file {
        Some(text) => {
            let ls = split_lines(text.as_str());
            let ghost all = texts(ls@);
            let mut j: usize = 0;
            assert(own + file_entries(all.take(0)) =~= own);
            while j < ls.len()
                invariant
                    j <= ls@.len(),
                    all == texts(ls@),
                    texts(vars@) == own + file_entries(all.take(j as int)),
                decreases ls@.len() - j,
            {
                assert(all.take(j + 1).drop_last() =~= all.take(j as int));
                assert(all.take(j + 1).last() == ls@[j as int]@);
                let line = trim(ls[j].as_str());
                let chars = to_chars(line.as_str());
                if chars.len() > 0 && chars[0] != '#' {
                    let ghost before = texts(vars@);
                    vars.push(line);
                    assert(texts(vars@) =~= before.push(line@));
                    assert(before.push(line@) =~= own + file_entries(all.take(j as int)).push(line@));
                }
                j = j + 1;
            }
            assert(all.take(j as int) =~= all);
        },
        None => {
            assert(own + Seq::<Seq<char>>::empty() =~= own);
        },
    }
    let ghost plain = texts(vars@);
    match secrets {
        Some(s) => {
            let mut k: usize = 0;
            while k < s.len()
                invariant
                    k <= s@.len(),
                    texts(vars@) == with_secrets(plain, s@.take(k as int)),
                decreases s@.len() - k,
            {
                assert(s@.take(k + 1).drop_last() =~= s@.take(k as int));
                assert(s@.take(k + 1).last() == s@[k as int]);
                let mut rest = drop_key(&vars, s[k].0.as_str());
                let ghost before = texts(rest@);
                let entry = s[k].0.clone().concat("=").concat(s[k].1.as_str());
                rest.push(entry);
                assert(texts(rest@) =~= before.push(entry@));
                vars = rest;
                k = k + 1;
            }
            assert(s@.take(k as int) =~= s@);
        },
        None => {},
    }
    vars
}

/// What stays when a key is dropped was there, and does not set the key.
proof fn without_key_is(vars: Seq<Seq<char>>, key: Seq<char>)
    ensures
        forall|x: Seq<char>| #[trigger] without_key(vars, key).contains(x) <==> vars.contains(x) && !starts_with(
            x,
            key + "="@,
        ),
    decreases vars.len(),
{
    let after = without_key(vars, key);
    if vars.len() > 0 {
        let init = vars.drop_last();
        without_key_is(init, key);
        assert forall|x: Seq<char>| #[trigger] after.contains(x) <==> vars.contains(x) && !starts_with(x, key + "="@) by {
            let before = without_key(init, key);
            if after.contains(x) {
                let i = choose|i: int| 0 <= i < after.len() && after[i] == x;
                if i < before.len() {
                    assert(before.contains(x));
                    let j = choose|j: int| 0 <= j < init.len() && init[j] == x;
                    assert(vars[j] == x);
                } else {
                    assert(vars[vars.len() - 1] == x);
                }
            }
            if vars.contains(x) && !starts_with(x, key + "="@) {
                let j = choose|j: int| 0 <= j < vars.len() && vars[j] == x;
                if j < init.len() {
                    assert(init[j] == x);
                    assert(before.contains(x));
                    let i = choose|i: int| 0 <= i < before.len() && before[i] == x;
                    assert(after[i] == x);
                } else {
                    assert(after[after.len() - 1] == x);
                }
            }
        }
    }
}

/// An entry sets one key only.
proof fn entry_sets_one_key(a: Seq<char>, b: Seq<char>, value: Seq<char>)
    requires
        !a.contains('='),
        !b.contains('='),
        starts_with(env_text(a, value), b + "="@),
    ensures
        a == b,
{
    reveal_strlit("=");
    let e = env_text(a, value);
    let p = b + "="@;
    let n = b.len() as int;
    assert(e.subrange(0, p.len() as int) == p);
    assert(e[n] == p[n] && p[n] == '=');
    if n < a.len() {
        assert(e[n] == a[n]);
        assert(a.contains('='));
    }
    assert(e[a.len() as int] == '=');
    if a.len() < n {
        assert(e.subrange(0, p.len() as int)[a.len() as int] == b[a.len() as int]);
        assert(b.contains('='));
    }
    assert(a =~= b) by {
        assert forall|i: int| 0 <= i < n implies a[i] == b[i] by {
            assert(e.subrange(0, p.len() as int)[i] == p[i]);
        }
    }
}

/// Secrets win: with keys that differ and hold no `=`, each secret stands in
/// the environment, and nothing else in it sets the secret's key.
pub proof fn secrets_win(vars: Seq<Seq<char>>, secrets: Seq<(String, String)>, i: int)
    requires
        0 <= i < secrets.len(),
        forall|j: int| 0 <= j < secrets.len() ==> !(#[trigger] secrets[j]).0@.contains('='),
        forall|j: int, k: int|
            0 <= j < k < secrets.len() ==> (#[trigger] secrets[j]).0@ != (#[trigger] secrets[k]).0@,
    ensures
        with_secrets(vars, secrets).contains(env_text(secrets[i].0@, secrets[i].1@)),
        forall|x: Seq<char>| #[trigger]
            with_secrets(vars, secrets).contains(x) && starts_with(x, secrets[i].0@ + "="@) ==> x == env_text(
                secrets[i].0@,
                secrets[i].1@,
            ),
    decreases secrets.len(),
{
    let init = secrets.drop_last();
    let before = with_secrets(vars, init);
    let (key, value) = secrets.last();
    let kept = without_key(before, key@);
    let all = with_secrets(vars, secrets);
    let entry = env_text(secrets[i].0@, secrets[i].1@);
    without_key_is(before, key@);
    assert(all == kept.push(env_text(key@, value@)));
    assert(all[kept.len() as int] == env_text(key@, value@));
    if i == secrets.len() - 1 {
        assert(all.contains(entry));
        assert forall|x: Seq<char>| #[trigger] all.contains(x) && starts_with(x, key@ + "="@) implies x == entry by {
            let j = choose|j: int| 0 <= j < all.len() && all[j] == x;
            if j < kept.len() {
                assert(kept[j] == x);
                assert(kept.contains(x));
            }
        }
    } else {
        assert(init[i] == secrets[i]);
        assert forall|j: int| 0 <= j < init.len() implies !(#[trigger] init[j]).0@.contains('=') by {
            assert(init[j] == secrets[j]);
        }
        assert forall|j: int, k: int| 0 <= j < k < init.len() implies (#[trigger] init[j]).0@ != (#[trigger] init[k]).0@ by {
            assert(init[j] == secrets[j] && init[k] == secrets[k]);
        }
        secrets_win(vars, init, i);
        assert(secrets[i].0@ != key@);
        assert(!secrets[i].0@.contains('='));
        assert(!key@.contains('=')) by {
            assert(secrets[secrets.len() - 1] == (key, value));
        }
        if starts_with(entry, key@ + "="@) {
            entry_sets_one_key(secrets[i].0@, key@, secrets[i].1@);
        }
        assert(kept.contains(entry));
        let p = choose|p: int| 0 <= p < kept.len() && kept[p] == entry;
        assert(all[p] == entry);
        assert forall|x: Seq<char>| #[trigger] all.contains(x) && starts_with(x, secrets[i].0@ + "="@) implies x == entry by {
            let j = choose|j: int| 0 <= j < all.len() && all[j] == x;
            if j < kept.len() {
                assert(kept[j] == x);
                assert(kept.contains(x));
                assert(before.contains(x));
            } else {
                entry_sets_one_key(key@, secrets[i].0@, value@);
            }
        }
    }
}

/// What an environment without secrets holds: the app's own variables and
/// every line of its file that is neither empty nor a comment.
pub open spec fn is_given(env: Seq<(String, String)>, file: Option<String>, x: Seq<char>) -> bool {
    ||| exists|i: int| 0 <= i < env.len() && env_text((#[trigger] env[i]).0@, env[i].1@) == x
    ||| file matches Some(text) && x.len() > 0 && x[0] != '#' && exists|i: int|
        0 <= i < lines(text@).len() && trimmed(#[trigger] lines(text@)[i]) == x
}

/// Whether an entry sets the key of a secret.
pub open spec fn is_overridden(secrets: Seq<(String, String)>, x: Seq<char>) -> bool {
    exists|i: int| 0 <= i < secrets.len() && starts_with(x, (#[trigger] secrets[i]).0@ + "="@)
}

/// Whether an entry is one of the secrets.
pub open spec fn is_secret(secrets: Seq<(String, String)>, x: Seq<char>) -> bool {
    exists|i: int| 0 <= i < secrets.len() && env_text((#[trigger] secrets[i]).0@, secrets[i].1@) == x
}

proof fn file_entries_are(ls: Seq<Seq<char>>, x: Seq<char>)
    ensures
        file_entries(ls).contains(x) <==> x.len() > 0 && x[0] != '#' && exists|i: int|
            0 <= i < ls.len() && trimmed(#[trigger] ls[i]) == x,
    decreases ls.len(),
{
    if ls.len() > 0 {
        let init = ls.drop_last();
        let before = file_entries(init);
        let all = file_entries(ls);
        file_entries_are(init, x);
        if all.contains(x) {
            let k = choose|k: int| 0 <= k < all.len() && all[k] == x;
            if k < before.len() {
                assert(before[k] == x);
                let i = choose|i: int| 0 <= i < init.len() && trimmed(#[trigger] init[i]) == x;
                assert(ls[i] == init[i]);
            } else {
                assert(trimmed(ls[ls.len() - 1]) == x);
            }
        }
        if x.len() > 0 && x[0] != '#' && exists|i: int| 0 <= i < ls.len() && trimmed(#[trigger] ls[i]) == x {
            let i = choose|i: int| 0 <= i < ls.len() && trimmed(#[trigger] ls[i]) == x;
            if i < init.len() {
                assert(init[i] == ls[i]);
                let k = choose|k: int| 0 <= k < before.len() && before[k] == x;
                assert(all[k] == x);
            } else {
                assert(all[all.len() - 1] == x);
            }
        }
    }
}

proof fn with_secrets_holds(vars: Seq<Seq<char>>, secrets: Seq<(String, String)>, x: Seq<char>)
    ensures
        vars.contains(x) && !is_overridden(secrets, x) ==> with_secrets(vars, secrets).contains(x),
        with_secrets(vars, secrets).contains(x) ==> is_secret(secrets, x) || (vars.contains(x) && !is_overridden(
            secrets,
            x,
        )),
    decreases secrets.len(),
{
    if secrets.len() > 0 {
        let init = secrets.drop_last();
        let before = with_secrets(vars, init);
        let (key, value) = secrets.last();
        let kept = without_key(before, key@);
        let all = with_secrets(vars, secrets);
        with_secrets_holds(vars, init, x);
        without_key_is(before, key@);
        assert(secrets[secrets.len() - 1] == (key, value));
        assert forall|i: int| 0 <= i < init.len() implies #[trigger] init[i] == secrets[i] by {}
        if is_overridden(init, x) {
            let i = choose|i: int| 0 <= i < init.len() && starts_with(x, (#[trigger] init[i]).0@ + "="@);
            assert(starts_with(x, secrets[i].0@ + "="@));
        }
        if is_overridden(secrets, x) && !starts_with(x, key@ + "="@) {
            let i = choose|i: int| 0 <= i < secrets.len() && starts_with(x, (#[trigger] secrets[i]).0@ + "="@);
            assert(starts_with(x, init[i].0@ + "="@));
        }
        if vars.contains(x) && !is_overridden(secrets, x) {
            assert(!starts_with(x, secrets[secrets.len() - 1].0@ + "="@));
            assert(kept.contains(x));
            let k = choose|k: int| 0 <= k < kept.len() && kept[k] == x;
            assert(all[k] == x);
        }
        if all.contains(x) {
            let k = choose|k: int| 0 <= k < all.len() && all[k] == x;
            if k < kept.len() {
                assert(kept[k] == x);
                assert(kept.contains(x));
                if is_secret(init, x) {
                    let i = choose|i: int|
                        0 <= i < init.len() && env_text((#[trigger] init[i]).0@, init[i].1@) == x;
                    assert(env_text(secrets[i].0@, secrets[i].1@) == x);
                }
            } else {
                assert(env_text(secrets[secrets.len() - 1].0@, secrets[secrets.len() - 1].1@) == x);
            }
        }
    }
}

/// An app gets every variable it was given, but for those whose key a secret
/// sets, and besides them only its secrets.
pub proof fn every_variable_is_passed_on(
    env: Seq<(String, String)>,
    file: Option<String>,
    secrets: Option<Vec<(String, String)>>,
    x: Seq<char>,
)
    ensures
        secrets is None ==> (environment(env, file, secrets).contains(x) <==> is_given(env, file, x)),
        secrets matches Some(s) ==> {
            &&& is_given(env, file, x) && !is_overridden(s@, x) ==> environment(env, file, secrets).contains(x)
            &&& environment(env, file, secrets).contains(x) ==> is_secret(s@, x) || (is_given(env, file, x)
                && !is_overridden(s@, x))
        },
{
    let own = env_texts(env);
    let read = match file {
        Some(text) => file_entries(lines(text@)),
        None => seq![],
    };
    let plain = own + read;
    assert(plain.contains(x) <==> is_given(env, file, x)) by {
        if let Some(text) = file {
            file_entries_are(lines(text@), x);
        }
        if plain.contains(x) {
            let k = choose|k: int| 0 <= k < plain.len() && plain[k] == x;
            if k < own.len() {
                assert(env_text(env[k].0@, env[k].1@) == x);
            } else {
                assert(read[k - own.len()] == x);
                assert(read.contains(x));
            }
        }
        if exists|i: int| 0 <= i < env.len() && env_text((#[trigger] env[i]).0@, env[i].1@) == x {
            let i = choose|i: int| 0 <= i < env.len() && env_text((#[trigger] env[i]).0@, env[i].1@) == x;
            assert(own[i] == x);
            assert(plain[i] == x);
        }
        if read.contains(x) {
            let k = choose|k: int| 0 <= k < read.len() && read[k] == x;
            assert(plain[own.len() + k] == x);
        }
    }
    if let Some(s) = secrets {
        with_secrets_holds(plain, s@, x);
    }
}

/// The app's own limit counts before the server's, and without either a deploy
/// has ten minutes.
pub proof fn the_nearest_limit_counts(own: Duration, servers: Duration, unset: Option<Duration>)
    requires
        unset is None,
    ensures
        limit_in_force(Some(own), unset) == own,
        limit_in_force(Some(own), Some(servers)) == own,
        limit_in_force(unset, Some(servers)) == servers,
        limit_in_force(unset, unset) == Duration::of_secs(600),
{
}

/// A span is written as its minutes and the seconds left over.
pub proof fn minutes_are_sixty_seconds(d: Duration, minutes: nat, seconds: nat)
    requires
        seconds < 60,
        d.secs() == minutes * 60 + seconds,
    ensures
        minutes_and_seconds(d) == decimal(minutes) + "m"@ + decimal(seconds) + "s"@,
{
}

/// A reference is split where its tag or its digest begins, a colon of a port
/// is no tag, and without a tag it is `latest`. A name is what precedes the
/// last path segment, and that segment.
pub proof fn a_reference_is_name_and_tag(dir: Seq<char>, base: Seq<char>, tag: Seq<char>, digest: Seq<char>)
    requires
        dir.len() > 0 ==> dir.last() == '/',
        !dir.contains('@'),
        !base.contains('/') && !base.contains(':') && !base.contains('@'),
        !tag.contains('/') && !tag.contains(':') && !tag.contains('@'),
        !digest.contains('@'),
    ensures
        image_and_tag(dir + base) == (dir + base, "latest"@),
        image_and_tag(dir + base + seq![':'] + tag) == (dir + base, tag),
        image_and_tag(dir + base + seq!['@'] + digest) == (dir + base, digest),
{
    let name = dir + base;
    crate::registry::name_ends(dir, base, tag);
    let tagged = name + seq![':'] + tag;
    assert(tagged =~= name.push(':') + tag);
    crate::text::last_place(name, ':', tag);
    assert(tagged.take(name.len() as int) =~= name);
    assert(tagged.skip(name.len() as int + 1) =~= tag);
    let pinned = name + seq!['@'] + digest;
    assert(pinned =~= name.push('@') + digest);
    crate::text::last_place(name, '@', digest);
    assert(pinned.take(name.len() as int) =~= name);
    assert(pinned.skip(name.len() as int + 1) =~= digest);
}

} // verus!
