//! The deploy of a preview as a machine that turns outcomes into orders.
//!
//! It works as the machine of a production deploy does: it says what is to be
//! done, waits for the outcome, and ends with `Finish`. What it knows of the
//! preview it keeps in the preview's entry.

use crate::config::{AppConfig, Duplicate, RepoConfig, ServerPreviewConfig};
use crate::deploy::{env_texts, AppStatus, DeployStatus};
use crate::error::{CaddyError, HealthError, RuntimeError};
use crate::manifest::{render_manifest, rendered, RenderContext};
use crate::merge::{merge_config, overlaid, MergedConfig};
use crate::preview::{
    compute_expires_at, cpus_cap, domain_in_force, effective_preview_resources, evicted, expiry_fits, is_datable,
    lifetime, limit_in_force, limits_are_countable, limits_fit, name_for, persisted, pick_victims, preview_name,
    resolve_max_limit, resolve_preview_domain, resources_in_force, update_preview_deploy_status, wanted_cpus,
    with_status, DeployError, PersistedPreviewState, PreviewDeployContext, PreviewState,
};
use crate::registry::RegistryCredentials;
use crate::rollout::{
    fresh_suffix, is_suffix, manifests_dir, merge_failure, merges, port_in_force, ConfigOutcome, CreateRequest,
    WriteOutcome,
};
use crate::text::{join_path, joined, opt_text, same, texts};
use crate::time::{utc_now, Duration, Timestamp};
use vstd::prelude::*;
use vstd::string::*;

verus! {

/// What is to be done next.
#[derive(Debug)]
pub enum PreviewAction {
    PullImage { image: String, tag: String, credentials: Option<RegistryCredentials> },
    /// Extract the repository's configuration from the image and parse it.
    ReadConfig { image: String, tag: String, path: String },
    /// Find out whether both are numbers and the first does not exceed the
    /// second.
    CompareCpus { requested: Option<String>, cap: String },
    /// List every preview that is known.
    ListPreviews,
    TeardownPreview { app: String, preview_id: String },
    StopAndRemove { container: String },
    TeardownPod { manifest: String },
    RemoveRoute { app: String },
    ExtractFile { image: String, tag: String, path: String },
    /// Create the directory, then write the file.
    WriteManifest { directory: String, path: String, text: String },
    DeployPod { manifest: String, pod: String },
    PodContainerPort { pod: String, container: String, container_port: u16 },
    CreateAndStart(CreateRequest),
    CheckHealth { port: u16 },
    /// Run a command in the container.
    Exec { container: String, command: Vec<String> },
    SetRoute { app: String, domain: String, port: u16 },
    SaveState { app: String, preview_id: String, state: PersistedPreviewState },
    /// Nothing: the deploy has ended.
    Finish(Result<(), DeployError>),
}

/// The outcome of an action.
#[derive(Debug)]
pub enum PreviewEvent {
    Pulled(Result<(), RuntimeError>),
    Config(ConfigOutcome),
    CpusCompared(bool),
    Previews(Vec<PreviewState>),
    Extracted(Result<Option<Vec<u8>>, RuntimeError>),
    Written(WriteOutcome),
    PodDeployed(Result<(), RuntimeError>),
    Port(Result<u16, RuntimeError>),
    Created(Result<(String, u16), RuntimeError>),
    Health(Result<(), HealthError>),
    Executed(Result<String, RuntimeError>),
    RouteSet(Result<(), CaddyError>),
    /// An action whose outcome does not matter is over.
    Over,
}

/// What the machine waits for.
#[derive(Debug)]
pub enum PreviewPhase {
    Pull,
    ReadConfig,
    CompareCpus,
    ListPreviews,
    /// The preview at an index among the victims is being taken down.
    Evict(usize),
    StopOld,
    TeardownOld,
    RemoveOldRoute,
    Create,
    Manifest,
    Write,
    DeployPod,
    PodPort,
    Health,
    Migrate,
    Seed,
    Route,
    Save,
    /// What was deployed is being removed; the deploy has failed.
    CleanUp(DeployError),
    Done,
}

/// The deploy of a preview under way.
#[derive(Debug)]
pub struct PreviewRollout {
    pub ctx: PreviewDeployContext,
    pub phase: PreviewPhase,
    /// The server's settings for previews.
    pub server: Option<ServerPreviewConfig>,
    /// The app's configuration in force: the server's, combined with the
    /// repository's once that is known.
    pub config: AppConfig,
    pub merged: Option<MergedConfig>,
    pub storage_path: String,
    pub domain: String,
    pub deployed_at: Timestamp,
    /// What ran for this preview before.
    pub old_container: Option<String>,
    pub old_pod: Option<String>,
    pub old_manifest: Option<String>,
    pub victims: Vec<String>,
    pub container_id: Option<String>,
    pub pod_name: Option<String>,
    pub manifest_path: Option<String>,
    pub host_port: u16,
}

/// The server's default time to live.
pub open spec fn default_ttl(server: Option<ServerPreviewConfig>) -> Option<Seq<char>> {
    match server {
        Some(s) => opt_text(s.default_ttl),
        None => None,
    }
}

/// Whether a repository's configuration lets the deploy of a preview go on: it is
/// the app's, has previews enabled and can be merged with the server's.
pub open spec fn goes_on(m: PreviewRollout, repo: RepoConfig) -> bool {
    &&& repo.app.name@ == m.ctx.app_name@
    &&& repo.preview is Some && repo.preview->0.enabled
    &&& merge_failure(m.config, repo) is None
}

/// Whether a repository's configuration with which the deploy goes on stays
/// within what can be counted.
pub open spec fn repo_fits(m: PreviewRollout, repo: RepoConfig) -> bool {
    goes_on(m, repo) ==> {
        let p = repo.preview->0;
        &&& limits_fit(p.resources, m.server, overlaid(m.config, repo).resources)
        &&& expiry_fits(m.deployed_at, p.ttl, default_ttl(m.server))
    }
}

impl PreviewRollout {
    /// Whether what has been merged stays within what can be counted.
    pub open spec fn settled_fits(self) -> bool {
        &&& self.merged is Some
        &&& self.merged->0.preview is Some
        &&& limits_fit(self.merged->0.preview->0.resources, self.server, self.config.resources)
        &&& expiry_fits(self.deployed_at, self.merged->0.preview->0.ttl, default_ttl(self.server))
    }

    /// Whether the parts of the machine fit its phase.
    pub open spec fn wf(self) -> bool {
        &&& self.deployed_at.wf()
        &&& match self.phase {
            PreviewPhase::Pull => true,
            PreviewPhase::ReadConfig => true,
            PreviewPhase::CompareCpus => self.settled_fits(),
            PreviewPhase::CleanUp(_) => true,
            PreviewPhase::Done => true,
            PreviewPhase::ListPreviews => self.merged is Some && self.merged->0.preview is Some,
            PreviewPhase::Evict(i) => self.merged is Some && i < self.victims@.len(),
            PreviewPhase::Migrate => self.merged is Some && self.container_id is Some,
            PreviewPhase::Seed => self.merged is Some && self.container_id is Some,
            PreviewPhase::DeployPod => self.merged is Some && self.pod_name is Some && self.manifest_path is Some,
            PreviewPhase::Write => self.merged is Some && self.pod_name is Some && self.manifest_path is Some,
            PreviewPhase::PodPort => self.merged is Some && self.pod_name is Some && self.manifest_path is Some,
            _ => self.merged is Some,
        }
    }

    /// Whether an outcome is one that the phase waits for.
    pub open spec fn awaits(self, event: PreviewEvent) -> bool {
        &&& self.wf()
        &&& match (self.phase, event) {
            (PreviewPhase::Pull, PreviewEvent::Pulled(_)) => true,
            (PreviewPhase::ReadConfig, PreviewEvent::Config(ConfigOutcome::Parsed(repo))) => repo_fits(self, repo),
            (PreviewPhase::ReadConfig, PreviewEvent::Config(_)) => true,
            (PreviewPhase::CompareCpus, PreviewEvent::CpusCompared(_)) => true,
            (PreviewPhase::ListPreviews, PreviewEvent::Previews(_)) => true,
            (PreviewPhase::Evict(_), PreviewEvent::Over) => true,
            (PreviewPhase::StopOld, PreviewEvent::Over) => true,
            (PreviewPhase::TeardownOld, PreviewEvent::Over) => true,
            (PreviewPhase::RemoveOldRoute, PreviewEvent::Over) => true,
            (PreviewPhase::Create, PreviewEvent::Created(_)) => true,
            (PreviewPhase::Manifest, PreviewEvent::Extracted(_)) => true,
            (PreviewPhase::Write, PreviewEvent::Written(_)) => true,
            (PreviewPhase::DeployPod, PreviewEvent::PodDeployed(_)) => true,
            (PreviewPhase::PodPort, PreviewEvent::Port(_)) => true,
            (PreviewPhase::Health, PreviewEvent::Health(_)) => true,
            (PreviewPhase::Migrate, PreviewEvent::Executed(_)) => true,
            (PreviewPhase::Seed, PreviewEvent::Executed(_)) => true,
            (PreviewPhase::Route, PreviewEvent::RouteSet(_)) => true,
            (PreviewPhase::Save, PreviewEvent::Over) => true,
            (PreviewPhase::CleanUp(_), PreviewEvent::Over) => true,
            _ => false,
        }
    }

    /// The name under which the preview is deployed and routed.
    pub open spec fn name(self) -> Seq<char> {
        preview_name(self.ctx.app_name@, self.ctx.preview_id@)
    }
}

/// The machine and the preview's entry on both sides of a step, and the action
/// that the step orders.
pub ghost struct PreviewTurn {
    pub pre: PreviewRollout,
    pub post: PreviewRollout,
    pub pre_entry: Option<PreviewState>,
    pub post_entry: Option<PreviewState>,
    pub action: PreviewAction,
}

/// Whether an error is a failed hook or not, with a message.
pub open spec fn is_error(e: DeployError, hook: bool, message: Seq<char>) -> bool {
    (e is HookFailed <==> hook) && e.inner() == message
}

/// Whether an error says that there is no domain for previews.
pub open spec fn lacks_domain(e: DeployError) -> bool {
    is_error(
        e,
        false,
        "domain resolution failed: preview domain not configured: set [preview].domain in slip.toml or [preview].domain in the app config"@,
    )
}

impl PreviewTurn {
    /// The deploy ends with an error, and the preview counts as failed.
    pub open spec fn fails(self, message: Seq<char>) -> bool {
        &&& self.post == (PreviewRollout { phase: PreviewPhase::Done, ..self.pre })
        &&& self.post_entry == with_status(self.pre_entry, AppStatus::Failed)
        &&& self.action matches PreviewAction::Finish(Err(e)) && is_error(e, false, message)
    }

    /// The machine goes on to another phase, and nothing else changes.
    pub open spec fn waits(self) -> bool {
        &&& self.post == (PreviewRollout { phase: self.post.phase, ..self.pre })
        &&& self.post_entry == self.pre_entry
    }

    /// The machine goes on to another phase with the preview deploying.
    pub open spec fn advances(self) -> bool {
        &&& self.post == (PreviewRollout { phase: self.post.phase, ..self.pre })
        &&& self.post_entry == with_status(self.pre_entry, AppStatus::Deploying)
    }

    /// The preview counts as failed; what was deployed is removed, and then
    /// the deploy ends with an error.
    pub open spec fn discards(self, hook: bool, message: Seq<char>) -> bool {
        &&& self.post_entry == with_status(self.pre_entry, AppStatus::Failed)
        &&& self.post == (PreviewRollout { phase: self.post.phase, ..self.pre })
        &&& match (self.pre.container_id, self.pre.manifest_path) {
            (Some(c), _) => {
                &&& self.post.phase matches PreviewPhase::CleanUp(e) && is_error(e, hook, message)
                &&& self.action matches PreviewAction::StopAndRemove { container } && container@ == c@
            },
            (None, Some(m)) => {
                &&& self.post.phase matches PreviewPhase::CleanUp(e) && is_error(e, hook, message)
                &&& self.action matches PreviewAction::TeardownPod { manifest } && manifest@ == m@
            },
            (None, None) => {
                &&& self.post.phase is Done
                &&& self.action matches PreviewAction::Finish(Err(e)) && is_error(e, hook, message)
            },
        }
    }
}

// ── Configuration ───────────────────────────────────────────────────────────

/// The image has been pulled, or not.
pub open spec fn on_pulled(t: PreviewTurn, result: Result<(), RuntimeError>) -> bool {
    match result {
        Err(e) => t.fails("image pull failed: "@ + e.text()),
        Ok(_) => {
            &&& t.advances()
            &&& t.post.phase is ReadConfig
            &&& t.action matches PreviewAction::ReadConfig { image, tag, path } && {
                &&& image@ == t.pre.ctx.image@
                &&& tag@ == t.pre.ctx.tag@
                &&& path@ == "/slip/slip.toml"@
            }
        },
    }
}

/// The repository's configuration has been looked for. A preview needs one
/// that turns previews on.
pub open spec fn on_config(t: PreviewTurn, outcome: ConfigOutcome) -> bool {
    match outcome {
        ConfigOutcome::Parsed(repo) => if repo.app.name@ != t.pre.ctx.app_name@ {
            t.fails(
                "repo config app name '"@ + repo.app.name@ + "' does not match deploy app '"@ + t.pre.ctx.app_name@
                    + "'"@,
            )
        } else {
            match repo.preview {
                None => t.fails(
                    "no [preview] section in repo config \u{2014} preview deployments not configured"@,
                ),
                Some(p) => if !p.enabled {
                    t.fails("preview deployments are disabled in repo config (preview.enabled = false)"@)
                } else {
                    match merge_failure(t.pre.config, repo) {
                        Some(message) => t.fails("config merge failed: "@ + message),
                        None => {
                            let merged = PreviewRollout {
                                merged: t.post.merged,
                                config: AppConfig { resources: t.post.merged->0.app.resources, ..t.post.config },
                                ..t.pre
                            };
                            &&& t.post.merged is Some
                            &&& merges(t.pre.config, repo, t.post.merged->0)
                            &&& t.post.merged->0.preview == repo.preview
                            &&& t.post.merged->0.routing_container == repo.routing.container
                            &&& merged.config.alike(&t.post.merged->0.app)
                            &&& asks_cpus(PreviewTurn { pre: merged, ..t })
                        },
                    }
                },
            }
        },
        ConfigOutcome::ParseFailed(e) => t.fails("failed to parse repo config: "@ + e@),
        ConfigOutcome::Absent => t.fails(
            "no /slip/slip.toml found in image \u{2014} preview requires repo config"@,
        ),
        ConfigOutcome::ExtractFailed(e) => if e is Unsupported {
            t.fails("extract_file not supported by this runtime \u{2014} cannot read preview config"@)
        } else {
            t.fails("failed to extract config from image: "@ + e.text())
        },
    }
}

/// Where the server caps processors, the cap is to be compared first.
pub open spec fn asks_cpus(t: PreviewTurn) -> bool {
    match cpus_cap(t.pre.server) {
        Some(c) => {
            &&& t.waits()
            &&& t.post.phase is CompareCpus
            &&& t.action matches PreviewAction::CompareCpus { requested, cap } && {
                &&& opt_text(requested) == opt_text(
                    wanted_cpus(t.pre.merged->0.preview->0.resources, t.pre.config.resources),
                )
                &&& cap@ == c@
            }
        },
        None => settles(t, false),
    }
}

/// A preview with an end, where there is one.
pub open spec fn with_end(entry: Option<PreviewState>, end: Option<Timestamp>) -> Option<PreviewState> {
    match entry {
        Some(s) => Some(PreviewState { expires_at: end, ..s }),
        None => None,
    }
}

/// Resources and end of the preview are settled; then room is made for it.
pub open spec fn settles(t: PreviewTurn, cpus_within: bool) -> bool {
    let p = t.pre.merged->0.preview->0;
    let ready = PreviewRollout {
        config: AppConfig { resources: t.post.config.resources, ..t.pre.config },
        ..t.pre
    };
    &&& resources_in_force(p.resources, t.pre.server, t.pre.config.resources, cpus_within, t.post.config.resources)
    &&& match lifetime(p.ttl, default_ttl(t.pre.server)) {
        Err(e) => (PreviewTurn { pre: ready, ..t }).fails("TTL computation failed: "@ + e),
        Ok(span) => exists|end: Option<Timestamp>|
            ends_after(t.pre.deployed_at, span, end) && #[trigger] makes_room(
                PreviewTurn { pre: ready, pre_entry: with_end(t.pre_entry, end), ..t },
            ),
    }
}

/// Whether a moment lies a span after another; without a span there is none.
pub open spec fn ends_after(start: Timestamp, span: Option<int>, end: Option<Timestamp>) -> bool {
    match (span, end) {
        (Some(n), Some(e)) => e.wf() && e.total() == start.total() + n,
        (None, None) => true,
        _ => false,
    }
}

/// The limit on previews that counts for this one.
pub open spec fn limit_of(m: PreviewRollout) -> Option<u32> {
    limit_in_force(m.merged->0.preview->0.max, m.config.preview, m.server)
}

/// Where there is a limit, the previews are to be listed.
pub open spec fn makes_room(t: PreviewTurn) -> bool {
    if limit_of(t.pre) is Some {
        &&& t.waits()
        &&& t.post.phase is ListPreviews
        &&& t.action is ListPreviews
    } else {
        redeploys(t)
    }
}

/// The previews have been listed: the surplus is to be taken down, one by one.
pub open spec fn on_previews(t: PreviewTurn, list: Seq<PreviewState>) -> bool {
    let ready = PreviewRollout { victims: t.post.victims, ..t.pre };
    &&& texts(t.post.victims@) == (match limit_of(t.pre) {
        Some(max) => evicted(list, t.pre.ctx.app_name@, t.pre.ctx.preview_id@, max),
        None => seq![],
    })
    &&& evicts(PreviewTurn { pre: ready, ..t }, 0)
}

/// The victim at an index is to be taken down; after the last one, what ran
/// for this preview before.
pub open spec fn evicts(t: PreviewTurn, i: int) -> bool {
    if i < t.pre.victims@.len() {
        &&& t.waits()
        &&& t.post.phase == PreviewPhase::Evict(i as usize)
        &&& t.action matches PreviewAction::TeardownPreview { app, preview_id } && {
            &&& app@ == t.pre.ctx.app_name@
            &&& preview_id@ == t.pre.victims@[i]@
        }
    } else {
        redeploys(t)
    }
}

// ── Redeploy ────────────────────────────────────────────────────────────────

/// The container that ran for this preview is to be removed, if there is one.
pub open spec fn redeploys(t: PreviewTurn) -> bool {
    match t.pre.old_container {
        Some(c) => {
            &&& t.waits()
            &&& t.post.phase is StopOld
            &&& t.action matches PreviewAction::StopAndRemove { container } && container@ == c@
        },
        None => redeploys_pod(t),
    }
}

/// The pod that ran for this preview is to be torn down, if there is one.
pub open spec fn redeploys_pod(t: PreviewTurn) -> bool {
    match (t.pre.old_pod, t.pre.old_manifest) {
        (Some(_), Some(m)) => {
            &&& t.waits()
            &&& t.post.phase is TeardownOld
            &&& t.action matches PreviewAction::TeardownPod { manifest } && manifest@ == m@
        },
        _ => starts(t),
    }
}

// ── Start ───────────────────────────────────────────────────────────────────

/// The new container or pod is to be started.
pub open spec fn starts(t: PreviewTurn) -> bool {
    let begun = PreviewTurn { pre_entry: with_status(t.pre_entry, AppStatus::Deploying), ..t };
    if t.pre.merged->0.kind@ == "pod"@ {
        match t.pre.merged->0.manifest {
            None => begun.fails("pod deploy requires [app].manifest in repo config"@),
            Some(p) => {
                &&& begun.waits()
                &&& t.post.phase is Manifest
                &&& t.action matches PreviewAction::ExtractFile { image, tag, path } && {
                    &&& image@ == t.pre.ctx.image@
                    &&& tag@ == t.pre.ctx.tag@
                    &&& path@ == p@
                }
            },
        }
    } else {
        &&& begun.waits()
        &&& t.post.phase is Create
        &&& t.action matches PreviewAction::CreateAndStart(req) && {
            &&& req.app@ == t.pre.name()
            &&& req.image@ == t.pre.ctx.image@
            &&& req.tag@ == t.pre.ctx.tag@
            &&& req.container_port == port_in_force(t.pre.config)
            &&& texts(req.env_vars@) == env_texts(t.pre.config.env@)
            &&& req.network@ == t.pre.config.network.name@
            &&& req.resources == t.pre.config.resources
            &&& req.volumes@.len() == 0
        }
    }
}

/// The container has been started, or not.
pub open spec fn on_created(t: PreviewTurn, result: Result<(String, u16), RuntimeError>) -> bool {
    match result {
        Err(e) => t.fails("container start failed: "@ + e.text()),
        Ok((id, port)) => is_up(
            PreviewTurn { pre: PreviewRollout { container_id: t.post.container_id, ..t.pre }, ..t },
            port,
        ) && opt_text(t.post.container_id) == Some(id@),
    }
}

/// An entry with what runs for the preview, where there is an entry.
pub open spec fn with_workload(entry: Option<PreviewState>, m: PreviewRollout, port: u16, after: Option<PreviewState>) -> bool {
    match (entry, after) {
        (Some(b), Some(a)) => {
            &&& a == (PreviewState {
                status: AppStatus::Deploying,
                container_id: a.container_id,
                pod_name: a.pod_name,
                port: Some(port),
                manifest_path: a.manifest_path,
                ..b
            })
            &&& opt_text(a.container_id) == opt_text(m.container_id)
            &&& opt_text(a.pod_name) == opt_text(m.pod_name)
            &&& opt_text(a.manifest_path) == opt_text(m.manifest_path)
        },
        (None, None) => true,
        _ => false,
    }
}

/// Something runs for the preview: its health is to be checked.
pub open spec fn is_up(t: PreviewTurn, port: u16) -> bool {
    &&& t.post == (PreviewRollout { host_port: port, phase: PreviewPhase::Health, ..t.pre })
    &&& with_workload(t.pre_entry, t.pre, port, t.post_entry)
    &&& t.action matches PreviewAction::CheckHealth { port: p } && p == port
}

/// What the manifest of a preview is rendered with.
pub open spec fn renders_with(c: RenderContext, m: PreviewRollout, suffix: Seq<char>) -> bool {
    &&& c.app_name@ == m.name()
    &&& c.tag@ == m.ctx.tag@
    &&& c.primary_image@ == m.config.app.image@
    &&& c.pod_suffix@ == suffix
    &&& texts(c.env_vars@) == env_texts(m.config.env@)
    &&& c.image_overrides@.len() == 0
    &&& c.volumes@.len() == 0
}

/// The manifest has been extracted, or not.
pub open spec fn on_manifest(
    t: PreviewTurn,
    result: Result<Option<Vec<u8>>, RuntimeError>,
    suffix: Seq<char>,
) -> bool {
    match result {
        Ok(Some(bytes)) => exists|c: RenderContext| #[trigger]
            renders_with(c, t.pre, suffix) && match rendered(bytes@, c) {
                Ok(yaml) => {
                    &&& t.post == (PreviewRollout {
                        phase: PreviewPhase::Write,
                        pod_name: t.post.pod_name,
                        manifest_path: t.post.manifest_path,
                        ..t.pre
                    })
                    &&& opt_text(t.post.pod_name) == Some(t.pre.name() + "-"@ + suffix)
                    &&& opt_text(t.post.manifest_path) == Some(
                        joined(
                            manifests_dir(t.pre.storage_path@),
                            t.pre.name() + "-"@ + t.pre.ctx.deploy_id@ + ".yaml"@,
                        ),
                    )
                    &&& t.post_entry == t.pre_entry
                    &&& t.action matches PreviewAction::WriteManifest { directory, path, text } && {
                        &&& directory@ == manifests_dir(t.pre.storage_path@)
                        &&& Some(path@) == opt_text(t.post.manifest_path)
                        &&& text@ == yaml
                    }
                },
                Err(e) => t.fails("failed to render manifest: "@ + e.text()),
            },
        Ok(None) => t.fails(
            "manifest '"@ + (match t.pre.merged->0.manifest {
                Some(p) => p@,
                None => seq![],
            }) + "' not found in image"@,
        ),
        Err(e) => t.fails("failed to extract manifest from image: "@ + e.text()),
    }
}

/// The manifest has been written, or not.
pub open spec fn on_written(t: PreviewTurn, outcome: WriteOutcome) -> bool {
    match outcome {
        WriteOutcome::Written => {
            &&& t.waits()
            &&& t.post.phase is DeployPod
            &&& t.action matches PreviewAction::DeployPod { manifest, pod } && Some(manifest@) == opt_text(
                t.pre.manifest_path,
            ) && Some(pod@) == opt_text(t.pre.pod_name)
        },
        WriteOutcome::DirectoryFailed(e) => t.fails("failed to create manifests directory: "@ + e@),
        WriteOutcome::FileFailed(e) => t.fails("failed to write manifest file: "@ + e@),
    }
}

/// The pod has been deployed, or not.
pub open spec fn on_pod_deployed(t: PreviewTurn, result: Result<(), RuntimeError>) -> bool {
    match result {
        Err(e) => t.fails("pod deploy failed: "@ + e.text()),
        Ok(_) => {
            &&& t.waits()
            &&& t.post.phase is PodPort
            &&& t.action matches PreviewAction::PodContainerPort { pod, container, container_port } && {
                &&& Some(pod@) == opt_text(t.pre.pod_name)
                &&& container@ == (match t.pre.merged->0.routing_container {
                    Some(c) => c@,
                    None => "web"@,
                })
                &&& container_port == port_in_force(t.pre.config)
            }
        },
    }
}

/// The port of the pod is known, or cannot be found.
pub open spec fn on_port(t: PreviewTurn, result: Result<u16, RuntimeError>) -> bool {
    match result {
        Ok(port) => is_up(t, port),
        Err(e) => t.discards(false, "failed to get pod container port: "@ + e.text()),
    }
}

// ── Health, hooks and route ─────────────────────────────────────────────────

/// The health of what runs is known.
pub open spec fn on_health(t: PreviewTurn, result: Result<(), HealthError>) -> bool {
    match result {
        Err(e) => t.discards(false, "health check failed: "@ + e.text()),
        Ok(_) => migrates(t),
    }
}

/// The command of a hook, which only a container can run.
pub open spec fn hook_of(m: PreviewRollout, seed: bool) -> Option<Seq<char>> {
    if m.container_id is None {
        None
    } else {
        match m.merged->0.preview {
            Some(p) => match p.hooks {
                Some(h) => opt_text(
                    if seed {
                        h.seed
                    } else {
                        h.migrate
                    },
                ),
                None => None,
            },
            None => None,
        }
    }
}

/// The order to run a hook in the container.
pub open spec fn orders_hook(action: PreviewAction, m: PreviewRollout, hook: Seq<char>) -> bool {
    &&& action matches PreviewAction::Exec { container, command } && {
        &&& Some(container@) == opt_text(m.container_id)
        &&& texts(command@) == seq!["/bin/sh"@, "-c"@, hook]
    }
}

/// The migration is to be run, if there is one.
pub open spec fn migrates(t: PreviewTurn) -> bool {
    match hook_of(t.pre, false) {
        Some(hook) => t.waits() && t.post.phase is Migrate && orders_hook(t.action, t.pre, hook),
        None => seeds(t),
    }
}

/// The seeding is to be run, if there is one.
pub open spec fn seeds(t: PreviewTurn) -> bool {
    match hook_of(t.pre, true) {
        Some(hook) => t.waits() && t.post.phase is Seed && orders_hook(t.action, t.pre, hook),
        None => routes(t),
    }
}

/// A hook has ended.
pub open spec fn on_executed(t: PreviewTurn, result: Result<String, RuntimeError>) -> bool {
    match (t.pre.phase, result) {
        (PreviewPhase::Migrate, Err(e)) => t.discards(true, "migrate: "@ + e.text()),
        (PreviewPhase::Migrate, Ok(_)) => seeds(t),
        (_, Err(e)) => t.discards(true, "seed: "@ + e.text()),
        (_, Ok(_)) => routes(t),
    }
}

/// The route is to be set.
pub open spec fn routes(t: PreviewTurn) -> bool {
    &&& t.advances()
    &&& t.post.phase is Route
    &&& t.action matches PreviewAction::SetRoute { app, domain, port } && {
        &&& app@ == t.pre.name()
        &&& domain@ == t.pre.domain@
        &&& port == t.pre.host_port
    }
}

/// The route has been set, or not. With it the preview runs, and that is kept.
pub open spec fn on_route(t: PreviewTurn, result: Result<(), CaddyError>) -> bool {
    match result {
        Err(e) => t.discards(false, "caddy route update failed: "@ + e.text()),
        Ok(_) => {
            &&& t.post_entry == (match t.pre_entry {
                Some(s) => Some(
                    PreviewState { status: AppStatus::Running, port: Some(t.pre.host_port), ..s },
                ),
                None => None,
            })
            &&& t.post == (PreviewRollout { phase: t.post.phase, ..t.pre })
            &&& match t.post_entry {
                Some(s) => {
                    &&& t.post.phase is Save
                    &&& t.action matches PreviewAction::SaveState { app, preview_id, state } && {
                        &&& app@ == t.pre.ctx.app_name@
                        &&& preview_id@ == t.pre.ctx.preview_id@
                        &&& state == persisted(s)
                    }
                },
                None => t.post.phase is Done && t.action == PreviewAction::Finish(Ok(())),
            }
        },
    }
}

// ── All transitions ─────────────────────────────────────────────────────────

/// A step whose outcome does not matter is over.
pub open spec fn on_over(t: PreviewTurn) -> bool {
    match t.pre.phase {
        PreviewPhase::Evict(i) => evicts(t, i + 1),
        PreviewPhase::StopOld => redeploys_pod(t),
        PreviewPhase::TeardownOld => {
            &&& t.waits()
            &&& t.post.phase is RemoveOldRoute
            &&& t.action matches PreviewAction::RemoveRoute { app } && app@ == t.pre.name()
        },
        PreviewPhase::RemoveOldRoute => starts(t),
        PreviewPhase::Save => {
            &&& t.waits()
            &&& t.post.phase is Done
            &&& t.action == PreviewAction::Finish(Ok(()))
        },
        PreviewPhase::CleanUp(e) => {
            &&& t.waits()
            &&& t.post.phase is Done
            &&& t.action == PreviewAction::Finish(Err(e))
        },
        _ => false,
    }
}

/// What an outcome leads to. The suffix is the one that a new pod is named
/// with.
pub open spec fn follows(t: PreviewTurn, event: PreviewEvent, suffix: Seq<char>) -> bool {
    match event {
        PreviewEvent::Pulled(r) => on_pulled(t, r),
        PreviewEvent::Config(c) => on_config(t, c),
        PreviewEvent::CpusCompared(within) => settles(t, within),
        PreviewEvent::Previews(list) => on_previews(t, list@),
        PreviewEvent::Extracted(r) => on_manifest(t, r, suffix),
        PreviewEvent::Written(o) => on_written(t, o),
        PreviewEvent::PodDeployed(r) => on_pod_deployed(t, r),
        PreviewEvent::Port(r) => on_port(t, r),
        PreviewEvent::Created(r) => on_created(t, r),
        PreviewEvent::Health(r) => on_health(t, r),
        PreviewEvent::Executed(r) => on_executed(t, r),
        PreviewEvent::RouteSet(r) => on_route(t, r),
        PreviewEvent::Over => on_over(t),
    }
}

/// The entry of a preview whose deploy begins.
pub open spec fn fresh_entry(e: PreviewState, ctx: PreviewDeployContext, domain: Seq<char>, now: Timestamp) -> bool {
    &&& e.preview_id@ == ctx.preview_id@
    &&& e.app@ == ctx.app_name@
    &&& e.sha@ == ctx.sha@
    &&& e.status == AppStatus::Deploying
    &&& e.container_id is None
    &&& e.pod_name is None
    &&& e.port is None
    &&& opt_text(e.tag) == Some(ctx.tag@)
    &&& e.deployed_at == now
    &&& e.expires_at is None
    &&& e.domain@ == domain
    &&& e.manifest_path is None
    &&& opt_text(e.deploy_id) == Some(ctx.deploy_id@)
}

/// The deploy of a preview begins: what ran for it before is noted, it gets a
/// fresh entry, and the image is pulled.
pub open spec fn begins(
    ctx: PreviewDeployContext,
    server: Option<ServerPreviewConfig>,
    config: AppConfig,
    storage_path: String,
    credentials: Option<RegistryCredentials>,
    before: Option<PreviewState>,
    now: Timestamp,
    m: PreviewRollout,
    action: PreviewAction,
    after: Option<PreviewState>,
) -> bool {
    &&& domain_in_force(server, config.preview) is Some
    &&& m.domain@ == ctx.preview_id@ + "."@ + domain_in_force(server, config.preview)->0
    &&& m.ctx == ctx
    &&& m.phase is Pull
    &&& m.server == server
    &&& m.config == config
    &&& m.merged is None
    &&& m.storage_path == storage_path
    &&& m.deployed_at == now
    &&& m.old_container == (match before {
        Some(s) => s.container_id,
        None => None,
    })
    &&& m.old_pod == (match before {
        Some(s) => s.pod_name,
        None => None,
    })
    &&& m.old_manifest == (match before {
        Some(s) => s.manifest_path,
        None => None,
    })
    &&& m.container_id is None
    &&& m.pod_name is None
    &&& m.manifest_path is None
    &&& m.victims@.len() == 0
    &&& m.host_port == 0
    &&& after is Some
    &&& fresh_entry(after->0, ctx, m.domain@, now)
    &&& action matches PreviewAction::PullImage { image, tag, credentials: c } && {
        &&& image@ == ctx.image@
        &&& tag@ == ctx.tag@
        &&& c == credentials
    }
}

// ── The machine ─────────────────────────────────────────────────────────────

fn env_entries(env: &Vec<(String, String)>) -> (r: Vec<String>)
    ensures
        texts(r@) == env_texts(env@),
{
    let mut out: Vec<String> = Vec::new();
    let mut i: usize = 0;
    while i < env.len()
        invariant
            i <= env@.len(),
            out@.len() == i,
            forall|k: int| 0 <= k < i ==> (#[trigger] out@[k])@ == crate::deploy::env_text(env@[k].0@, env@[k].1@),
        decreases env@.len() - i,
    {
        out.push(env[i].0.clone().concat("=").concat(env[i].1.as_str()));
        i = i + 1;
    }
    assert(texts(out@) =~= env_texts(env@));
    out
}

fn message(text: String) -> (e: DeployError)
    ensures
        is_error(e, false, text@),
{
    DeployError::Message(text)
}

impl PreviewRollout {
    /// Begins the deploy of a preview at a given time. Without a domain for
    /// previews nothing is begun.
    pub fn begin_at(
        ctx: PreviewDeployContext,
        server: Option<ServerPreviewConfig>,
        config: AppConfig,
        storage_path: String,
        credentials: Option<RegistryCredentials>,
        entry: &mut Option<PreviewState>,
        now: Timestamp,
    ) -> (r: Result<(PreviewRollout, PreviewAction), DeployError>)
        ensures
            match r {
                Ok((m, action)) => begins(
                    ctx,
                    server,
                    config,
                    storage_path,
                    credentials,
                    *old(entry),
                    now,
                    m,
                    action,
                    *final(entry),
                ),
                Err(e) => {
                    &&& domain_in_force(server, config.preview) is None
                    &&& *final(entry) == *old(entry)
                    &&& lacks_domain(e)
                },
            },
    {
        let domain = match resolve_preview_domain(
            ctx.preview_id.as_str(),
            ctx.app_name.as_str(),
            &server,
            &config.preview,
        ) {
            Ok(d) => d,
            Err(_) => {
                return Err(
                    DeployError::Message(
                        "domain resolution failed: preview domain not configured: set [preview].domain in slip.toml or [preview].domain in the app config".to_owned(),
                    ),
                );
            },
        };
        let fresh = PreviewState {
            preview_id: ctx.preview_id.clone(),
            app: ctx.app_name.clone(),
            sha: ctx.sha.clone(),
            status: AppStatus::Deploying,
            container_id: None,
            pod_name: None,
            port: None,
            tag: Some(ctx.tag.clone()),
            deployed_at: now,
            expires_at: None,
            domain: domain.clone(),
            manifest_path: None,
            deploy_id: Some(ctx.deploy_id.clone()),
        };
        let mut before: Option<PreviewState> = Some(fresh);
        core::mem::swap(&mut before, entry);
        let (old_container, old_pod, old_manifest): (Option<String>, Option<String>, Option<String>) = match before {
            Some(s) => (s.container_id, s.pod_name, s.manifest_path),
            None => (None, None, None),
        };
        let action = PreviewAction::PullImage { image: ctx.image.clone(), tag: ctx.tag.clone(), credentials };
        let m = PreviewRollout {
            ctx,
            phase: PreviewPhase::Pull,
            server,
            config,
            merged: None,
            storage_path,
            domain,
            deployed_at: now,
            old_container,
            old_pod,
            old_manifest,
            victims: Vec::new(),
            container_id: None,
            pod_name: None,
            manifest_path: None,
            host_port: 0,
        };
        Ok((m, action))
    }

    /// Begins the deploy of a preview now.
    pub fn begin(
        ctx: PreviewDeployContext,
        server: Option<ServerPreviewConfig>,
        config: AppConfig,
        storage_path: String,
        credentials: Option<RegistryCredentials>,
        entry: &mut Option<PreviewState>,
    ) -> (r: Result<(PreviewRollout, PreviewAction), DeployError>)
        ensures
            match r {
                Ok((m, action)) => m.wf() && begins(
                    ctx,
                    server,
                    config,
                    storage_path,
                    credentials,
                    *old(entry),
                    m.deployed_at,
                    m,
                    action,
                    *final(entry),
                ),
                Err(e) => {
                    &&& domain_in_force(server, config.preview) is None
                    &&& *final(entry) == *old(entry)
                    &&& lacks_domain(e)
                },
            },
    {
        let now = utc_now();
        PreviewRollout::begin_at(ctx, server, config, storage_path, credentials, entry, now)
    }

    fn full_name(&self) -> (r: String)
        ensures
            r@ == self.name(),
    {
        name_for(self.ctx.app_name.as_str(), self.ctx.preview_id.as_str())
    }

    fn fail(&mut self, entry: &mut Option<PreviewState>, text: String) -> (action: PreviewAction)
        ensures
            (PreviewTurn {
                pre: *old(self),
                post: *final(self),
                pre_entry: *old(entry),
                post_entry: *final(entry),
                action,
            }).fails(text@),
    {
        self.phase = PreviewPhase::Done;
        update_preview_deploy_status(entry, DeployStatus::Failed);
        PreviewAction::Finish(Err(message(text)))
    }

    fn discard(
        &mut self,
        entry: &mut Option<PreviewState>,
        error: DeployError,
    ) -> (action: PreviewAction)
        ensures
            (PreviewTurn {
                pre: *old(self),
                post: *final(self),
                pre_entry: *old(entry),
                post_entry: *final(entry),
                action,
            }).discards(error is HookFailed, error.inner()),
    {
        update_preview_deploy_status(entry, DeployStatus::Failed);
        match (self.container_id.clone(), self.manifest_path.clone()) {
            (Some(container), _) => {
                self.phase = PreviewPhase::CleanUp(error);
                PreviewAction::StopAndRemove { container }
            },
            (None, Some(manifest)) => {
                self.phase = PreviewPhase::CleanUp(error);
                PreviewAction::TeardownPod { manifest }
            },
            (None, None) => {
                self.phase = PreviewPhase::Done;
                PreviewAction::Finish(Err(error))
            },
        }
    }

    fn pulled(
        &mut self,
        result: Result<(), RuntimeError>,
        entry: &mut Option<PreviewState>,
    ) -> (action: PreviewAction)
        ensures
            on_pulled(
                PreviewTurn {
                    pre: *old(self),
                    post: *final(self),
                    pre_entry: *old(entry),
                    post_entry: *final(entry),
                    action,
                },
                result,
            ),
    {
        match result {
            Err(e) => self.fail(entry, "image pull failed: ".to_owned().concat(e.message().as_str())),
            Ok(_) => {
                update_preview_deploy_status(entry, DeployStatus::Configuring);
                self.phase = PreviewPhase::ReadConfig;
                PreviewAction::ReadConfig {
                    image: self.ctx.image.clone(),
                    tag: self.ctx.tag.clone(),
                    path: "/slip/slip.toml".to_owned(),
                }
            },
        }
    }

    fn configured(&mut self, outcome: ConfigOutcome, entry: &mut Option<PreviewState>) -> (action: PreviewAction)
        requires
            old(self).deployed_at.wf(),
            outcome matches ConfigOutcome::Parsed(repo) ==> repo_fits(*old(self), repo),
        ensures
            on_config(
                PreviewTurn {
                    pre: *old(self),
                    post: *final(self),
                    pre_entry: *old(entry),
                    post_entry: *final(entry),
                    action,
                },
                outcome,
            ),
    {
        match outcome {
            ConfigOutcome::Parsed(repo) => {
                if !same(repo.app.name.as_str(), self.ctx.app_name.as_str()) {
                    let text = "repo config app name '".to_owned().concat(repo.app.name.as_str()).concat(
                        "' does not match deploy app '",
                    ).concat(self.ctx.app_name.as_str()).concat("'");
                    return self.fail(entry, text);
                }
                match &repo.preview {
                    None => {
                        return self.fail(
                            entry,
                            "no [preview] section in repo config \u{2014} preview deployments not configured".to_owned(),
                        );
                    },
                    Some(p) => {
                        if !p.enabled {
                            return self.fail(
                                entry,
                                "preview deployments are disabled in repo config (preview.enabled = false)".to_owned(),
                            );
                        }
                    },
                }
                match merge_config(&self.config, &repo) {
                    Err(e) => {
                        let text = "config merge failed: ".to_owned().concat(e.message().as_str());
                        self.fail(entry, text)
                    },
                    Ok(m) => {
                        let ghost base = m.app;
                        self.config = m.app.duplicate();
                        self.merged = Some(m);
                        assert(self.config.resources == overlaid(old(self).config, repo).resources);
                        assert(self.settled_fits());
                        self.ask_cpus(entry)
                    },
                }
            },
            ConfigOutcome::ParseFailed(e) => {
                let text = "failed to parse repo config: ".to_owned().concat(e.as_str());
                self.fail(entry, text)
            },
            ConfigOutcome::Absent => self.fail(
                entry,
                "no /slip/slip.toml found in image \u{2014} preview requires repo config".to_owned(),
            ),
            ConfigOutcome::ExtractFailed(e) => match e {
                RuntimeError::Unsupported(_) => self.fail(
                    entry,
                    "extract_file not supported by this runtime \u{2014} cannot read preview config".to_owned(),
                ),
                other => {
                    let text = "failed to extract config from image: ".to_owned().concat(other.message().as_str());
                    self.fail(entry, text)
                },
            },
        }
    }

    fn ask_cpus(&mut self, entry: &mut Option<PreviewState>) -> (action: PreviewAction)
        requires
            old(self).deployed_at.wf(),
            old(self).settled_fits(),
        ensures
            asks_cpus(
                PreviewTurn {
                    pre: *old(self),
                    post: *final(self),
                    pre_entry: *old(entry),
                    post_entry: *final(entry),
                    action,
                },
            ),
            final(self).merged == old(self).merged,
            final(self).config == (AppConfig { resources: final(self).config.resources, ..old(self).config }),
    {
        let cap: Option<String> = match &self.server {
            Some(s) => s.max_cpus.clone(),
            None => None,
        };
        match cap {
            Some(cap) => {
                let mut requested: Option<String> = self.config.resources.cpus.clone();
                match &self.merged {
                    Some(m) => match &m.preview {
                        Some(p) => match &p.resources {
                            Some(r) => {
                                if r.cpus.is_some() {
                                    requested = r.cpus.clone();
                                }
                            },
                            None => {},
                        },
                        None => {},
                    },
                    None => {},
                }
                self.phase = PreviewPhase::CompareCpus;
                PreviewAction::CompareCpus { requested, cap }
            },
            None => self.settle(false, entry),
        }
    }

    fn settle(&mut self, cpus_within: bool, entry: &mut Option<PreviewState>) -> (action: PreviewAction)
        requires
            old(self).deployed_at.wf(),
            old(self).settled_fits(),
        ensures
            settles(
                PreviewTurn {
                    pre: *old(self),
                    post: *final(self),
                    pre_entry: *old(entry),
                    post_entry: *final(entry),
                    action,
                },
                cpus_within,
            ),
            final(self).merged == old(self).merged,
            final(self).config == (AppConfig { resources: final(self).config.resources, ..old(self).config }),
    {
        let ghost given = *self;
        let ghost entry_given = *entry;
        let (resources, ttl): (crate::config::ResourceConfig, Option<Duration>) = match &self.merged {
            Some(m) => match &m.preview {
                Some(p) => (
                    effective_preview_resources(&p.resources, &self.server, &self.config.resources, cpus_within),
                    p.ttl,
                ),
                None => (self.config.resources.duplicate(), None),
            },
            None => (self.config.resources.duplicate(), None),
        };
        let end = match &self.server {
            Some(s) => match &s.default_ttl {
                Some(t) => compute_expires_at(self.deployed_at, ttl, Some(t.as_str())),
                None => compute_expires_at(self.deployed_at, ttl, None),
            },
            None => compute_expires_at(self.deployed_at, ttl, None),
        };
        self.config.resources = resources;
        match end {
            Err(e) => {
                let text = "TTL computation failed: ".to_owned().concat(e.display().as_str());
                self.fail(entry, text)
            },
            Ok(end) => {
                match entry {
                    Some(s) => {
                        s.expires_at = end;
                    },
                    None => {},
                }
                let ghost ready = *self;
                assert(*entry == with_end(entry_given, end));
                assert(ends_after(given.deployed_at, lifetime(ttl, default_ttl(given.server))->Ok_0, end));
                let action = self.make_room(entry);
                assert(makes_room(
                    PreviewTurn {
                        pre: ready,
                        post: *self,
                        pre_entry: with_end(entry_given, end),
                        post_entry: *entry,
                        action,
                    },
                ));
                action
            },
        }
    }

    fn limit(&self) -> (r: Option<u32>)
        requires
            self.merged is Some,
            self.merged->0.preview is Some,
        ensures
            r == limit_of(*self),
    {
        let max: Option<u32> = match &self.merged {
            Some(m) => match &m.preview {
                Some(p) => p.max,
                None => None,
            },
            None => None,
        };
        resolve_max_limit(max, &self.config.preview, &self.server)
    }

    fn make_room(&mut self, entry: &mut Option<PreviewState>) -> (action: PreviewAction)
        requires
            old(self).merged is Some,
            old(self).merged->0.preview is Some,
        ensures
            makes_room(
                PreviewTurn {
                    pre: *old(self),
                    post: *final(self),
                    pre_entry: *old(entry),
                    post_entry: *final(entry),
                    action,
                },
            ),
            final(self).merged == old(self).merged,
            final(self).config == old(self).config,
    {
        if self.limit().is_some() {
            self.phase = PreviewPhase::ListPreviews;
            PreviewAction::ListPreviews
        } else {
            self.redeploy(entry)
        }
    }

    fn previews_listed(&mut self, list: &Vec<PreviewState>, entry: &mut Option<PreviewState>) -> (action: PreviewAction)
        requires
            old(self).merged is Some,
            old(self).merged->0.preview is Some,
        ensures
            on_previews(
                PreviewTurn {
                    pre: *old(self),
                    post: *final(self),
                    pre_entry: *old(entry),
                    post_entry: *final(entry),
                    action,
                },
                list@,
            ),
    {
        self.victims = match self.limit() {
            Some(max) => pick_victims(list, self.ctx.app_name.as_str(), self.ctx.preview_id.as_str(), max),
            None => {
                let none: Vec<String> = Vec::new();
                assert(texts(none@) =~= seq![]);
                none
            },
        };
        self.evict(0, entry)
    }

    fn evict(&mut self, i: usize, entry: &mut Option<PreviewState>) -> (action: PreviewAction)
        requires
            old(self).merged is Some,
        ensures
            evicts(
                PreviewTurn {
                    pre: *old(self),
                    post: *final(self),
                    pre_entry: *old(entry),
                    post_entry: *final(entry),
                    action,
                },
                i as int,
            ),
            final(self).victims == old(self).victims,
    {
        if i < self.victims.len() {
            self.phase = PreviewPhase::Evict(i);
            PreviewAction::TeardownPreview {
                app: self.ctx.app_name.clone(),
                preview_id: self.victims[i].clone(),
            }
        } else {
            self.redeploy(entry)
        }
    }

    fn redeploy(&mut self, entry: &mut Option<PreviewState>) -> (action: PreviewAction)
        requires
            old(self).merged is Some,
        ensures
            redeploys(
                PreviewTurn {
                    pre: *old(self),
                    post: *final(self),
                    pre_entry: *old(entry),
                    post_entry: *final(entry),
                    action,
                },
            ),
            *final(self) == (PreviewRollout { phase: final(self).phase, ..*old(self) }),
    {
        match self.old_container.clone() {
            Some(container) => {
                self.phase = PreviewPhase::StopOld;
                PreviewAction::StopAndRemove { container }
            },
            None => self.redeploy_pod(entry),
        }
    }

    fn redeploy_pod(&mut self, entry: &mut Option<PreviewState>) -> (action: PreviewAction)
        requires
            old(self).merged is Some,
        ensures
            redeploys_pod(
                PreviewTurn {
                    pre: *old(self),
                    post: *final(self),
                    pre_entry: *old(entry),
                    post_entry: *final(entry),
                    action,
                },
            ),
            *final(self) == (PreviewRollout { phase: final(self).phase, ..*old(self) }),
    {
        match (self.old_pod.clone(), self.old_manifest.clone()) {
            (Some(_), Some(manifest)) => {
                self.phase = PreviewPhase::TeardownOld;
                PreviewAction::TeardownPod { manifest }
            },
            _ => self.start(entry),
        }
    }

    fn start(&mut self, entry: &mut Option<PreviewState>) -> (action: PreviewAction)
        requires
            old(self).merged is Some,
        ensures
            starts(
                PreviewTurn {
                    pre: *old(self),
                    post: *final(self),
                    pre_entry: *old(entry),
                    post_entry: *final(entry),
                    action,
                },
            ),
            *final(self) == (PreviewRollout { phase: final(self).phase, ..*old(self) }),
    {
        update_preview_deploy_status(entry, DeployStatus::Starting);
        let (pod, manifest): (bool, Option<String>) = match &self.merged {
            Some(m) => (same(m.kind.as_str(), "pod"), m.manifest.clone()),
            None => (false, None),
        };
        if pod {
            match manifest {
                None => self.fail(entry, "pod deploy requires [app].manifest in repo config".to_owned()),
                Some(path) => {
                    self.phase = PreviewPhase::Manifest;
                    PreviewAction::ExtractFile { image: self.ctx.image.clone(), tag: self.ctx.tag.clone(), path }
                },
            }
        } else {
            self.phase = PreviewPhase::Create;
            PreviewAction::CreateAndStart(
                CreateRequest {
                    app: self.full_name(),
                    image: self.ctx.image.clone(),
                    tag: self.ctx.tag.clone(),
                    container_port: self.configured_port(),
                    env_vars: env_entries(&self.config.env),
                    network: self.config.network.name.clone(),
                    resources: self.config.resources.duplicate(),
                    volumes: Vec::new(),
                },
            )
        }
    }

    fn configured_port(&self) -> (r: u16)
        ensures
            r == port_in_force(self.config),
    {
        match self.config.routing.port {
            Some(p) => p,
            None => 0,
        }
    }

    fn come_up(&mut self, port: u16, entry: &mut Option<PreviewState>) -> (action: PreviewAction)
        ensures
            is_up(
                PreviewTurn {
                    pre: *old(self),
                    post: *final(self),
                    pre_entry: *old(entry),
                    post_entry: *final(entry),
                    action,
                },
                port,
            ),
    {
        match entry {
            Some(s) => {
                s.container_id = self.container_id.clone();
                s.pod_name = self.pod_name.clone();
                s.port = Some(port);
                s.manifest_path = self.manifest_path.clone();
            },
            None => {},
        }
        update_preview_deploy_status(entry, DeployStatus::HealthChecking);
        self.host_port = port;
        self.phase = PreviewPhase::Health;
        PreviewAction::CheckHealth { port }
    }

    fn created(
        &mut self,
        result: Result<(String, u16), RuntimeError>,
        entry: &mut Option<PreviewState>,
    ) -> (action: PreviewAction)
        ensures
            on_created(
                PreviewTurn {
                    pre: *old(self),
                    post: *final(self),
                    pre_entry: *old(entry),
                    post_entry: *final(entry),
                    action,
                },
                result,
            ),
    {
        match result {
            Err(e) => self.fail(entry, "container start failed: ".to_owned().concat(e.message().as_str())),
            Ok((id, port)) => {
                self.container_id = Some(id);
                self.come_up(port, entry)
            },
        }
    }

    fn manifest_extracted(
        &mut self,
        result: Result<Option<Vec<u8>>, RuntimeError>,
        suffix: &str,
        entry: &mut Option<PreviewState>,
    ) -> (action: PreviewAction)
        requires
            old(self).merged is Some,
        ensures
            on_manifest(
                PreviewTurn {
                    pre: *old(self),
                    post: *final(self),
                    pre_entry: *old(entry),
                    post_entry: *final(entry),
                    action,
                },
                result,
                suffix@,
            ),
    {
        match result {
            Ok(Some(bytes)) => {
                let render_ctx = RenderContext {
                    app_name: self.full_name(),
                    tag: self.ctx.tag.clone(),
                    primary_image: self.config.app.image.clone(),
                    pod_suffix: suffix.to_owned(),
                    env_vars: env_entries(&self.config.env),
                    image_overrides: Vec::new(),
                    volumes: Vec::new(),
                };
                assert(renders_with(render_ctx, *self, suffix@));
                match render_manifest(bytes.as_slice(), &render_ctx) {
                    Ok(text) => {
                        let directory = join_path(self.storage_path.as_str(), "manifests");
                        let file = self.full_name().concat("-").concat(self.ctx.deploy_id.as_str()).concat(".yaml");
                        let path = join_path(directory.as_str(), file.as_str());
                        self.pod_name = Some(self.full_name().concat("-").concat(suffix));
                        self.manifest_path = Some(path.clone());
                        self.phase = PreviewPhase::Write;
                        PreviewAction::WriteManifest { directory, path, text }
                    },
                    Err(e) => {
                        let text = "failed to render manifest: ".to_owned().concat(e.message().as_str());
                        self.fail(entry, text)
                    },
                }
            },
            Ok(None) => {
                let path: String = match &self.merged {
                    Some(m) => match &m.manifest {
                        Some(p) => p.clone(),
                        None => String::new(),
                    },
                    None => String::new(),
                };
                self.fail(entry, "manifest '".to_owned().concat(path.as_str()).concat("' not found in image"))
            },
            Err(e) => self.fail(
                entry,
                "failed to extract manifest from image: ".to_owned().concat(e.message().as_str()),
            ),
        }
    }

    fn manifest_written(&mut self, outcome: WriteOutcome, entry: &mut Option<PreviewState>) -> (action: PreviewAction)
        requires
            old(self).pod_name is Some,
            old(self).manifest_path is Some,
        ensures
            on_written(
                PreviewTurn {
                    pre: *old(self),
                    post: *final(self),
                    pre_entry: *old(entry),
                    post_entry: *final(entry),
                    action,
                },
                outcome,
            ),
    {
        match outcome {
            WriteOutcome::Written => {
                self.phase = PreviewPhase::DeployPod;
                PreviewAction::DeployPod {
                    manifest: match &self.manifest_path {
                        Some(m) => m.clone(),
                        None => String::new(),
                    },
                    pod: match &self.pod_name {
                        Some(p) => p.clone(),
                        None => String::new(),
                    },
                }
            },
            WriteOutcome::DirectoryFailed(e) => self.fail(
                entry,
                "failed to create manifests directory: ".to_owned().concat(e.as_str()),
            ),
            WriteOutcome::FileFailed(e) => self.fail(
                entry,
                "failed to write manifest file: ".to_owned().concat(e.as_str()),
            ),
        }
    }

    fn pod_deployed(
        &mut self,
        result: Result<(), RuntimeError>,
        entry: &mut Option<PreviewState>,
    ) -> (action: PreviewAction)
        requires
            old(self).merged is Some,
            old(self).pod_name is Some,
        ensures
            on_pod_deployed(
                PreviewTurn {
                    pre: *old(self),
                    post: *final(self),
                    pre_entry: *old(entry),
                    post_entry: *final(entry),
                    action,
                },
                result,
            ),
    {
        match result {
            Err(e) => self.fail(entry, "pod deploy failed: ".to_owned().concat(e.message().as_str())),
            Ok(_) => {
                self.phase = PreviewPhase::PodPort;
                PreviewAction::PodContainerPort {
                    pod: match &self.pod_name {
                        Some(p) => p.clone(),
                        None => String::new(),
                    },
                    container: match &self.merged {
                        Some(m) => match &m.routing_container {
                            Some(c) => c.clone(),
                            None => "web".to_owned(),
                        },
                        None => "web".to_owned(),
                    },
                    container_port: self.configured_port(),
                }
            },
        }
    }

    fn port_found(&mut self, result: Result<u16, RuntimeError>, entry: &mut Option<PreviewState>) -> (action: PreviewAction)
        ensures
            on_port(
                PreviewTurn {
                    pre: *old(self),
                    post: *final(self),
                    pre_entry: *old(entry),
                    post_entry: *final(entry),
                    action,
                },
                result,
            ),
    {
        match result {
            Ok(port) => self.come_up(port, entry),
            Err(e) => self.discard(
                entry,
                message("failed to get pod container port: ".to_owned().concat(e.message().as_str())),
            ),
        }
    }

    fn checked(&mut self, result: Result<(), HealthError>, entry: &mut Option<PreviewState>) -> (action: PreviewAction)
        requires
            old(self).merged is Some,
        ensures
            on_health(
                PreviewTurn {
                    pre: *old(self),
                    post: *final(self),
                    pre_entry: *old(entry),
                    post_entry: *final(entry),
                    action,
                },
                result,
            ),
    {
        match result {
            Err(e) => self.discard(
                entry,
                message("health check failed: ".to_owned().concat(e.message().as_str())),
            ),
            Ok(_) => match self.hook(false) {
                Some(cmd) => {
                    let action = self.hook_order(cmd);
                    self.phase = PreviewPhase::Migrate;
                    action
                },
                None => self.seed(entry),
            },
        }
    }

    fn hook(&self, seed: bool) -> (r: Option<String>)
        requires
            self.merged is Some,
        ensures
            opt_text(r) == hook_of(*self, seed),
    {
        if self.container_id.is_none() {
            return None;
        }
        match &self.merged {
            Some(m) => match &m.preview {
                Some(p) => match &p.hooks {
                    Some(h) => if seed {
                        h.seed.clone()
                    } else {
                        h.migrate.clone()
                    },
                    None => None,
                },
                None => None,
            },
            None => None,
        }
    }

    fn hook_order(&self, cmd: String) -> (action: PreviewAction)
        requires
            self.container_id is Some,
        ensures
            orders_hook(action, *self, cmd@),
    {
        let mut command: Vec<String> = Vec::new();
        command.push("/bin/sh".to_owned());
        command.push("-c".to_owned());
        command.push(cmd);
        assert(texts(command@) =~= seq!["/bin/sh"@, "-c"@, cmd@]);
        PreviewAction::Exec {
            container: match &self.container_id {
                Some(c) => c.clone(),
                None => String::new(),
            },
            command,
        }
    }

    fn seed(&mut self, entry: &mut Option<PreviewState>) -> (action: PreviewAction)
        requires
            old(self).merged is Some,
        ensures
            seeds(
                PreviewTurn {
                    pre: *old(self),
                    post: *final(self),
                    pre_entry: *old(entry),
                    post_entry: *final(entry),
                    action,
                },
            ),
    {
        match self.hook(true) {
            Some(cmd) => {
                let action = self.hook_order(cmd);
                self.phase = PreviewPhase::Seed;
                action
            },
            None => self.route(entry),
        }
    }

    fn route(&mut self, entry: &mut Option<PreviewState>) -> (action: PreviewAction)
        ensures
            routes(
                PreviewTurn {
                    pre: *old(self),
                    post: *final(self),
                    pre_entry: *old(entry),
                    post_entry: *final(entry),
                    action,
                },
            ),
    {
        update_preview_deploy_status(entry, DeployStatus::Switching);
        self.phase = PreviewPhase::Route;
        PreviewAction::SetRoute { app: self.full_name(), domain: self.domain.clone(), port: self.host_port }
    }

    fn executed(
        &mut self,
        result: Result<String, RuntimeError>,
        entry: &mut Option<PreviewState>,
    ) -> (action: PreviewAction)
        requires
            old(self).merged is Some,
        ensures
            on_executed(
                PreviewTurn {
                    pre: *old(self),
                    post: *final(self),
                    pre_entry: *old(entry),
                    post_entry: *final(entry),
                    action,
                },
                result,
            ),
    {
        let migrating: bool = matches!(self.phase, PreviewPhase::Migrate);
        match result {
            Err(e) => {
                let text = if migrating {
                    "migrate: ".to_owned().concat(e.message().as_str())
                } else {
                    "seed: ".to_owned().concat(e.message().as_str())
                };
                self.discard(entry, DeployError::HookFailed(text))
            },
            Ok(_) => if migrating {
                self.seed(entry)
            } else {
                self.route(entry)
            },
        }
    }

    fn routed(&mut self, result: Result<(), CaddyError>, entry: &mut Option<PreviewState>) -> (action: PreviewAction)
        ensures
            on_route(
                PreviewTurn {
                    pre: *old(self),
                    post: *final(self),
                    pre_entry: *old(entry),
                    post_entry: *final(entry),
                    action,
                },
                result,
            ),
    {
        match result {
            Err(e) => self.discard(
                entry,
                message("caddy route update failed: ".to_owned().concat(e.message().as_str())),
            ),
            Ok(_) => {
                match entry {
                    Some(s) => {
                        s.status = AppStatus::Running;
                        s.port = Some(self.host_port);
                        self.phase = PreviewPhase::Save;
                        PreviewAction::SaveState {
                            app: self.ctx.app_name.clone(),
                            preview_id: self.ctx.preview_id.clone(),
                            state: keep(s),
                        }
                    },
                    None => {
                        self.phase = PreviewPhase::Done;
                        PreviewAction::Finish(Ok(()))
                    },
                }
            },
        }
    }

    fn over(&mut self, entry: &mut Option<PreviewState>) -> (action: PreviewAction)
        requires
            old(self).awaits(PreviewEvent::Over),
        ensures
            on_over(
                PreviewTurn {
                    pre: *old(self),
                    post: *final(self),
                    pre_entry: *old(entry),
                    post_entry: *final(entry),
                    action,
                },
            ),
    {
        let mut phase = PreviewPhase::Done;
        core::mem::swap(&mut self.phase, &mut phase);
        match phase {
            PreviewPhase::Evict(i) => {
                let n: usize = self.victims.len();
                self.evict(i + 1, entry)
            },
            PreviewPhase::StopOld => self.redeploy_pod(entry),
            PreviewPhase::TeardownOld => {
                self.phase = PreviewPhase::RemoveOldRoute;
                PreviewAction::RemoveRoute { app: self.full_name() }
            },
            PreviewPhase::RemoveOldRoute => self.start(entry),
            PreviewPhase::CleanUp(e) => PreviewAction::Finish(Err(e)),
            _ => PreviewAction::Finish(Ok(())),
        }
    }

    fn is_countable(&self, repo: &RepoConfig) -> (r: bool)
        requires
            self.deployed_at.wf(),
        ensures
            r == repo_fits(*self, *repo),
    {
        let p = match &repo.preview {
            Some(p) => p,
            None => {
                return true;
            },
        };
        if !same(repo.app.name.as_str(), self.ctx.app_name.as_str()) || !p.enabled || merge_config(
            &self.config,
            repo,
        ).is_err() {
            return true;
        }
        let none: Option<String> = None;
        let mut app_memory: Option<String> = self.config.resources.memory.clone();
        match &repo.defaults.resources {
            Some(d) => {
                if app_memory.is_none() {
                    app_memory = d.memory.clone();
                }
            },
            None => {},
        }
        let repo_memory: &Option<String> = match &p.resources {
            Some(r) => &r.memory,
            None => &none,
        };
        let ttl: Option<&str> = match &self.server {
            Some(s) => match &s.default_ttl {
                Some(t) => Some(t.as_str()),
                None => None,
            },
            None => None,
        };
        assert(app_memory == overlaid(self.config, *repo).resources.memory);
        limits_are_countable(repo_memory, &self.server, &app_memory) && is_datable(self.deployed_at, p.ttl, ttl)
    }

    /// Tests whether an outcome is one that the phase waits for.
    pub fn expects(&self, event: &PreviewEvent) -> (r: bool)
        requires
            self.wf(),
        ensures
            r == self.awaits(*event),
    {
        match (&self.phase, event) {
            (PreviewPhase::Pull, PreviewEvent::Pulled(_)) => true,
            (PreviewPhase::ReadConfig, PreviewEvent::Config(ConfigOutcome::Parsed(repo))) => self.is_countable(repo),
            (PreviewPhase::ReadConfig, PreviewEvent::Config(_)) => true,
            (PreviewPhase::CompareCpus, PreviewEvent::CpusCompared(_)) => true,
            (PreviewPhase::ListPreviews, PreviewEvent::Previews(_)) => true,
            (PreviewPhase::Evict(_), PreviewEvent::Over) => true,
            (PreviewPhase::StopOld, PreviewEvent::Over) => true,
            (PreviewPhase::TeardownOld, PreviewEvent::Over) => true,
            (PreviewPhase::RemoveOldRoute, PreviewEvent::Over) => true,
            (PreviewPhase::Create, PreviewEvent::Created(_)) => true,
            (PreviewPhase::Manifest, PreviewEvent::Extracted(_)) => true,
            (PreviewPhase::Write, PreviewEvent::Written(_)) => true,
            (PreviewPhase::DeployPod, PreviewEvent::PodDeployed(_)) => true,
            (PreviewPhase::PodPort, PreviewEvent::Port(_)) => true,
            (PreviewPhase::Health, PreviewEvent::Health(_)) => true,
            (PreviewPhase::Migrate, PreviewEvent::Executed(_)) => true,
            (PreviewPhase::Seed, PreviewEvent::Executed(_)) => true,
            (PreviewPhase::Route, PreviewEvent::RouteSet(_)) => true,
            (PreviewPhase::Save, PreviewEvent::Over) => true,
            (PreviewPhase::CleanUp(_), PreviewEvent::Over) => true,
            _ => false,
        }
    }

    /// Takes an outcome, with the suffix that a new pod would be named with,
    /// and says what is next. The preview's entry is brought up to date.
    pub fn step_with(
        &mut self,
        event: PreviewEvent,
        entry: &mut Option<PreviewState>,
        suffix: &str,
    ) -> (action: PreviewAction)
        requires
            old(self).awaits(event),
        ensures
            follows(
                PreviewTurn {
                    pre: *old(self),
                    post: *final(self),
                    pre_entry: *old(entry),
                    post_entry: *final(entry),
                    action,
                },
                event,
                suffix@,
            ),
    {
        match event {
            PreviewEvent::Pulled(r) => self.pulled(r, entry),
            PreviewEvent::Config(c) => self.configured(c, entry),
            PreviewEvent::CpusCompared(within) => self.settle(within, entry),
            PreviewEvent::Previews(list) => self.previews_listed(&list, entry),
            PreviewEvent::Extracted(r) => self.manifest_extracted(r, suffix, entry),
            PreviewEvent::Written(o) => self.manifest_written(o, entry),
            PreviewEvent::PodDeployed(r) => self.pod_deployed(r, entry),
            PreviewEvent::Port(r) => self.port_found(r, entry),
            PreviewEvent::Created(r) => self.created(r, entry),
            PreviewEvent::Health(r) => self.checked(r, entry),
            PreviewEvent::Executed(r) => self.executed(r, entry),
            PreviewEvent::RouteSet(r) => self.routed(r, entry),
            PreviewEvent::Over => self.over(entry),
        }
    }

    /// Takes an outcome and says what is next. The preview's entry is brought
    /// up to date.
    pub fn step(&mut self, event: PreviewEvent, entry: &mut Option<PreviewState>) -> (action: PreviewAction)
        requires
            old(self).awaits(event),
        ensures
            exists|suffix: Seq<char>|
                is_suffix(suffix) && #[trigger] follows(
                    PreviewTurn {
                        pre: *old(self),
                        post: *final(self),
                        pre_entry: *old(entry),
                        post_entry: *final(entry),
                        action,
                    },
                    event,
                    suffix,
                ),
    {
        let suffix = fresh_suffix();
        self.step_with(event, entry, suffix.as_str())
    }
}

fn keep(s: &PreviewState) -> (r: PersistedPreviewState)
    ensures
        r == persisted(*s),
{
    PersistedPreviewState::from(s)
}

} // verus!
