//! What holds of a whole deploy, told from its orders and their outcomes alone.
//!
//! A run is a deploy from its beginning to some step of it. What is seen of it
//! so far is put together from the orders and the outcomes, whatever the
//! machine keeps to itself.

use crate::config::{AppConfig, Duplicate, RepoConfig};
use crate::deploy::{environment, image_and_tag, route_states, AppRuntimeState, AppStatus, DeployContext, DeployStatus};
use crate::manifest::{rendered, RenderContext};
use crate::merge::{
    declared_volumes, every_hostname_is_the_servers, merged_routes, paired_route, route_views, server_route,
    undeclared_volumes, volume_views,
};
use crate::error::RuntimeError;
use crate::registry::{credential_for, credentials_view, registry_views, ResolvedRegistry};
use crate::rollout::{
    begins, follows, merge_failure, renders_with, routes_view, server_routes, times_out, Action, ConfigOutcome, Event,
    Phase, Rollout, Route, Step, Turn, WriteOutcome,
};
use crate::rollout_laws::{answers, beginning_is_awaited, orders_are_awaited};
use crate::text::{joined, opt_text, texts};
use crate::time::Duration;
use vstd::prelude::*;

verus! {

// ── Runs ────────────────────────────────────────────────────────────────────

/// A container that was started, by its id, and its host port.
pub ghost struct Started {
    pub id: Seq<char>,
    pub port: u16,
}

/// What is seen of a deploy.
pub ghost struct Seen {
    /// How many images were pulled.
    pub pulled: nat,
    /// The repository's configuration.
    pub repo: Option<RepoConfig>,
    /// The environment file and the secrets.
    pub env: (Option<String>, Option<Vec<(String, String)>>),
    /// How often a container was asked for.
    pub tries: nat,
    /// The container that was started last, and its host port.
    pub created: Option<Started>,
    /// Whether it answered its health check.
    pub healthy: bool,
    /// What is known of whether it runs.
    pub running: Option<bool>,
    /// Whether the routes were set since.
    pub routed: bool,
    /// The port of the container that was restarted, if that was asked for and
    /// found.
    pub inspected: Option<Option<u16>>,
    /// Whether the app's entry was saved.
    pub saved: bool,
    /// Where the manifest was written.
    pub manifest: Option<Seq<char>>,
    /// The pod that was deployed.
    pub pod: Option<Seq<char>>,
    /// How many routes of the pod were asked about.
    pub asked: nat,
    /// The host port that was found last.
    pub port: u16,
    /// Whether a container of the pod does not answer.
    pub mute: bool,
    /// The routes of the pod by which it answers, by their place in the
    /// configuration, with their host ports.
    pub up: Seq<(int, u16)>,
}

/// What is seen at the beginning.
pub open spec fn nothing_seen() -> Seen {
    Seen {
        pulled: 0,
        repo: None,
        env: (None, None),
        tries: 0,
        created: None,
        healthy: false,
        running: None,
        routed: false,
        inspected: None,
        saved: false,
        manifest: None,
        pod: None,
        asked: 0,
        port: 0,
        mute: false,
        up: seq![],
    }
}

/// What is seen with one more outcome of an order.
pub open spec fn noted(s: Seen, action: Action, event: Event) -> Seen {
    match event {
        Event::Pulled(Ok(_)) => Seen { pulled: s.pulled + 1, ..s },
        Event::Config(ConfigOutcome::Parsed(repo)) => Seen { repo: Some(repo), ..s },
        Event::Env { file, secrets } => Seen { env: (file, secrets), ..s },
        Event::Created(Ok((id, port))) => Seen {
            tries: s.tries + 1,
            created: Some(Started { id: id@, port }),
            healthy: false,
            running: None,
            routed: false,
            ..s
        },
        Event::Created(Err(_)) => Seen { tries: s.tries + 1, created: None, ..s },
        Event::Health(Ok(_)) => Seen {
            healthy: true,
            up: if s.pod is Some {
                s.up.push((s.asked - 1, s.port))
            } else {
                s.up
            },
            ..s
        },
        Event::Health(Err(_)) => Seen { healthy: false, mute: s.mute || s.pod is Some, ..s },
        Event::Running(r) => Seen {
            running: match r {
                Ok(b) => Some(b),
                Err(_) => None,
            },
            asked: if s.pod is Some {
                s.asked + 1
            } else {
                s.asked
            },
            ..s
        },
        Event::RoutesSet(Ok(_)) => Seen { routed: true, ..s },
        Event::Port(r) => match action {
            Action::InspectPort { .. } => Seen {
                inspected: Some(
                    match r {
                        Ok(p) => Some(p),
                        Err(_) => None,
                    },
                ),
                ..s
            },
            _ => Seen {
                asked: s.asked + 1,
                mute: s.mute || r is Err,
                port: match r {
                    Ok(p) => p,
                    Err(_) => s.port,
                },
                ..s
            },
        },
        Event::Written(WriteOutcome::Written) => match action {
            Action::WriteManifest { path, .. } => Seen { manifest: Some(path@), ..s },
            _ => s,
        },
        Event::PodDeployed(Ok(_)) => match action {
            Action::DeployPod { pod, .. } => Seen { pod: Some(pod@), ..s },
            _ => s,
        },
        Event::Over => Seen { saved: s.saved || action is SaveState, ..s },
        _ => s,
    }
}

/// A deploy: what it was begun with, its first step and what it made of every
/// outcome.
pub ghost struct Run {
    pub ctx: DeployContext,
    pub config: AppConfig,
    pub registries: Vec<ResolvedRegistry>,
    pub storage_path: String,
    /// The app's entry before the deploy, and once it has begun.
    pub before: Option<AppRuntimeState>,
    pub entry: Option<AppRuntimeState>,
    pub start: Rollout,
    pub first: Step,
    pub turns: Seq<Turn>,
    pub events: Seq<Event>,
    pub suffixes: Seq<Seq<char>>,
}

impl Run {
    /// The machine after some outcomes.
    pub open spec fn machine(self, i: int) -> Rollout {
        if i <= 0 {
            self.start
        } else {
            self.turns[i - 1].post
        }
    }

    /// The app's entry after some outcomes.
    pub open spec fn app(self, i: int) -> Option<AppRuntimeState> {
        if i <= 0 {
            self.entry
        } else {
            self.turns[i - 1].post_app
        }
    }

    /// The order after some outcomes.
    pub open spec fn action(self, i: int) -> Action {
        if i <= 0 {
            self.first.action
        } else {
            self.turns[i - 1].step.action
        }
    }

    /// What is seen after some outcomes.
    pub open spec fn seen(self, i: int) -> Seen
        decreases i,
    {
        if i <= 0 {
            nothing_seen()
        } else {
            noted(self.seen(i - 1), self.action(i - 1), self.events[i - 1])
        }
    }

    /// Whether the step after some outcomes is what its outcome leads to.
    pub open spec fn goes_on(self, i: int) -> bool {
        let t = self.turns[i];
        &&& t.pre == self.machine(i)
        &&& t.pre_app == self.app(i)
        &&& answers(self.action(i), self.events[i])
        &&& follows(t, self.events[i], self.suffixes[i])
    }

    /// Whether this is a deploy that begins and in which every step follows
    /// from the outcome of the order before, with nobody else changing the
    /// app's entry.
    pub open spec fn valid(self) -> bool {
        &&& self.ctx.new_container_id is None
        &&& self.ctx.new_port is None
        &&& begins(
            self.ctx,
            self.config,
            self.registries,
            self.storage_path,
            self.before,
            self.start,
            self.entry,
            self.first,
        )
        &&& self.events.len() == self.turns.len()
        &&& self.suffixes.len() == self.turns.len()
        &&& forall|i: int| 0 <= i < self.turns.len() ==> #[trigger] self.goes_on(i)
    }

    /// The container that ran before the deploy.
    pub open spec fn old_container(self) -> Option<Seq<char>> {
        match self.before {
            Some(s) => opt_text(s.current_container_id),
            None => None,
        }
    }

    /// The tag that ran before the deploy.
    pub open spec fn old_tag(self) -> Option<Seq<char>> {
        match self.before {
            Some(s) => opt_text(s.current_tag),
            None => None,
        }
    }

    /// The manifest of the pod that ran before the deploy.
    pub open spec fn old_manifest(self) -> Option<Seq<char>> {
        match self.before {
            Some(s) => opt_text(s.current_manifest_path),
            None => None,
        }
    }

    /// The host port that the app had before the deploy, 0 if it had none.
    pub open spec fn old_port(self) -> u16 {
        match self.before {
            Some(s) => match s.current_port {
                Some(p) => p,
                None => 0,
            },
            None => 0,
        }
    }

    /// The hostname of the app at an index.
    pub open spec fn hostname(self, k: int) -> Seq<char> {
        if self.config.routing.routes@.len() > 0 {
            self.config.routing.routes@[k].hostname@
        } else {
            match self.config.routing.domain {
                Some(d) => d@,
                None => seq![],
            }
        }
    }

    /// How many hostnames the app has.
    pub open spec fn hostnames(self) -> nat {
        if self.config.routing.routes@.len() > 0 {
            self.config.routing.routes@.len()
        } else if self.config.routing.domain is Some {
            1
        } else {
            0
        }
    }
}

// ── What is right of an order ───────────────────────────────────────────────

/// Whether the repository says that the app is a worker.
pub open spec fn for_worker(s: Seen) -> bool {
    s.repo is Some && s.repo->0.app.kind@ == "worker"@
}

/// Whether the repository says that the app is a pod.
pub open spec fn for_pod(s: Seen) -> bool {
    s.repo is Some && s.repo->0.app.kind@ == "pod"@
}

/// The container of a pod that the route at an index leads to, as the repository
/// has it; `web` if it names none.
pub open spec fn right_container(s: Seen, k: int) -> Seq<char> {
    let named = if s.repo->0.routing.routes@.len() > 0 {
        s.repo->0.routing.routes@[k].container
    } else {
        s.repo->0.routing.container
    };
    match named {
        Some(c) => c@,
        None => "web"@,
    }
}

/// The port inside of a pod that the route at an index leads to: the repository's,
/// else the server's.
pub open spec fn right_container_port(r: Run, s: Seen, k: int) -> u16 {
    let theirs = if s.repo->0.routing.routes@.len() > 0 {
        s.repo->0.routing.routes@[k].port
    } else {
        s.repo->0.routing.port
    };
    let ours = if r.config.routing.routes@.len() > 0 {
        r.config.routing.routes@[k].port
    } else {
        r.config.routing.port
    };
    match (theirs, ours) {
        (Some(p), _) => p,
        (None, Some(p)) => p,
        (None, None) => 0,
    }
}

/// Whether the container of the route at an index is a worker.
pub open spec fn right_worker(s: Seen, k: int) -> bool {
    s.repo->0.routing.routes@.len() > 0 && s.repo->0.routing.routes@[k].kind@ == "worker"@
}

/// A container is removed only if it is the one that this deploy started and the
/// app's entry does not name it yet; or, once the entry names the new one and has
/// been saved, if it is the one that ran before. The old one alone is stopped,
/// restarted or inspected.
pub open spec fn removes_rightly(r: Run, s: Seen, app: Option<AppRuntimeState>, action: Action) -> bool {
    &&& action matches Action::StopAndRemove { container } ==> if s.saved {
        &&& Some(container@) == r.old_container()
        &&& s.created is Some && app is Some
        &&& opt_text(app->0.current_container_id) == Some(s.created->0.id)
    } else {
        &&& s.created is Some && container@ == s.created->0.id
        &&& app matches Some(a) ==> opt_text(a.current_container_id) == r.old_container()
    }
    &&& action matches Action::StopContainer { container } ==> !s.saved && s.tries == 0 && Some(container@)
        == r.old_container() && r.config.deploy.strategy@ == "recreate"@
    &&& action matches Action::StartContainer { container } ==> !s.saved && Some(container@) == r.old_container()
    &&& action matches Action::InspectPort { container, container_port } ==> Some(container@) == r.old_container()
        && container_port == (match r.config.routing.port {
        Some(p) => p,
        None => 0,
    })
    &&& action matches Action::TeardownPod { manifest } ==> if s.saved {
        Some(manifest@) == r.old_manifest() && app is Some && opt_text(app->0.current_manifest_path) == s.manifest
    } else {
        Some(manifest@) == s.manifest && (app matches Some(a) ==> opt_text(a.current_manifest_path)
            == r.old_manifest())
    }
}

/// The port that requests are to be sent to: the one found on the restarted
/// container, or else the one known before; without a restart, the one of the
/// container that was started last.
pub open spec fn right_port(r: Run, s: Seen) -> u16 {
    match s.inspected {
        Some(Some(p)) => p,
        Some(None) => r.old_port(),
        None => s.created->0.port,
    }
}

/// Routes are set for the app's own hostnames, each to the port at which what it
/// leads to was found.
pub open spec fn routes_rightly(r: Run, s: Seen, action: Action) -> bool {
    action matches Action::SetRoutes { app, routes } ==> {
        &&& app@ == r.ctx.app@
        &&& if s.pod is Some {
            &&& routes@.len() == s.up.len()
            &&& forall|k: int|
                0 <= k < routes@.len() ==> (#[trigger] routes@[k]).port == s.up[k].1 && routes@[k].hostname@
                    == r.hostname(s.up[k].0)
        } else {
            &&& s.inspected is Some || s.created is Some
            &&& forall|k: int| 0 <= k < routes@.len() ==> (#[trigger] routes@[k]).port == right_port(r, s)
            &&& if s.repo is Some || s.inspected is Some || s.tries > 1 {
                &&& routes@.len() == r.hostnames()
                &&& forall|k: int| 0 <= k < routes@.len() ==> (#[trigger] routes@[k]).hostname@ == r.hostname(k)
            } else {
                &&& routes@.len() == 1
                &&& routes@[0].hostname@ == (match r.config.routing.domain {
                    Some(d) => d@,
                    None => seq![],
                })
            }
        }
    }
}

/// The memory limit of the app: the server's, else the repository's default.
pub open spec fn right_memory(r: Run, s: Seen) -> Option<String> {
    if r.config.resources.memory is None && s.repo is Some && s.repo->0.defaults.resources is Some {
        s.repo->0.defaults.resources->0.memory
    } else {
        r.config.resources.memory
    }
}

/// The processor limit of the app: the server's, else the repository's default.
pub open spec fn right_cpus(r: Run, s: Seen) -> Option<String> {
    if r.config.resources.cpus is None && s.repo is Some && s.repo->0.defaults.resources is Some {
        s.repo->0.defaults.resources->0.cpus
    } else {
        r.config.resources.cpus
    }
}

/// The first container that is asked for is of the image and the tag of the deploy;
/// one asked for later is of the tag that ran before. Either gets the app's port,
/// environment, network, limits and volumes.
pub open spec fn creates_rightly(r: Run, s: Seen, action: Action) -> bool {
    &&& action matches Action::CreateAndStart(req) ==> {
        &&& !s.saved
        &&& req.app@ == r.ctx.app@
        &&& req.image@ == r.ctx.image@
        &&& if s.tries == 0 {
            req.tag@ == r.ctx.tag@
        } else {
            Some(req.tag@) == r.old_tag()
        }
        &&& req.container_port == if s.tries == 0 && for_worker(s) {
            0
        } else {
            match r.config.routing.port {
                Some(p) => p,
                None => 0,
            }
        }
        &&& texts(req.env_vars@) == environment(r.config.env@, s.env.0, s.env.1)
        &&& req.network@ == r.config.network.name@
        &&& req.resources.memory == right_memory(r, s)
        &&& req.resources.cpus == right_cpus(r, s)
        &&& volume_views(req.volumes@) == if s.repo is Some {
            declared_volumes(r.config.volumes@, s.repo->0.volumes@)->Ok_0 + undeclared_volumes(
                r.config.volumes@,
                s.repo->0.volumes@,
            )
        } else {
            seq![]
        }
    }
    &&& action matches Action::PullImage { image, tag, credentials } ==> if s.pulled == 0 {
        &&& image@ == r.ctx.image@ && tag@ == r.ctx.tag@
        &&& credentials_view(credentials) == credential_for(r.ctx.image@, registry_views(r.registries@))
    } else {
        let sidecar = r.ctx.images@[s.pulled - 1].1@;
        &&& s.pulled <= r.ctx.images@.len()
        &&& (image@, tag@) == image_and_tag(sidecar)
        &&& credentials_view(credentials) == credential_for(sidecar, registry_views(r.registries@))
    }
    &&& action matches Action::ReadConfig { image, tag, path } ==> image@ == r.ctx.image@ && tag@ == r.ctx.tag@
        && path@ == "/slip/slip.toml"@ && s.pulled == r.ctx.images@.len() + 1
    &&& action matches Action::ExtractFile { image, tag, path } ==> image@ == r.ctx.image@ && tag@ == r.ctx.tag@
        && s.repo is Some && Some(path@) == opt_text(s.repo->0.app.manifest)
    &&& action matches Action::ReadEnv { app, env_file } ==> app@ == r.ctx.app@ && (match r.config.env_file {
        Some(f) => env_file is Some && env_file->0@ == f.path@,
        None => env_file is None,
    })
    &&& action matches Action::DeployPod { manifest, .. } ==> Some(manifest@) == s.manifest
    &&& action matches Action::PodContainerPort { pod, container, container_port } ==> {
        &&& Some(pod@) == s.pod
        &&& s.asked < r.hostnames() && !right_worker(s, s.asked as int)
        &&& container@ == right_container(s, s.asked as int)
        &&& container_port == right_container_port(r, s, s.asked as int)
    }
    &&& action matches Action::CheckHealth { port } ==> if s.pod is Some {
        port == s.port
    } else {
        s.created is Some && port == s.created->0.port
    }
    &&& action matches Action::ContainerIsRunning { container } ==> if s.pod is Some {
        &&& s.asked < r.hostnames() && right_worker(s, s.asked as int)
        &&& container@ == s.pod->0 + "-"@ + right_container(s, s.asked as int)
    } else {
        s.created is Some && container@ == s.created->0.id
    }
    &&& action matches Action::RemoveRoute { app } ==> app@ == r.ctx.app@ && s.tries == 0
        && r.config.deploy.strategy@ == "recreate"@
    &&& action matches Action::Drain { wait } ==> s.saved && wait == r.config.deploy.drain_timeout
}

/// The app's entry is saved only once what was started is healthy, runs and gets
/// the requests. It then names that, and what ran before as previous.
pub open spec fn saves_rightly(r: Run, s: Seen, app: Option<AppRuntimeState>, action: Action) -> bool {
    action matches Action::SaveState { app: name, state } ==> {
        &&& name@ == r.ctx.app@
        &&& app is Some && state.alike(&app->0)
        &&& !s.saved
        &&& state.status == AppStatus::Running
        &&& opt_text(state.current_tag) == Some(r.ctx.tag@)
        &&& opt_text(state.previous_tag) == r.old_tag()
        &&& opt_text(state.deploy_id) == Some(r.ctx.id@)
        &&& s.repo is Some ==> opt_text(state.kind) == Some(s.repo->0.app.kind@)
        &&& if s.pod is Some {
            &&& s.routed || s.up.len() == 0
            &&& opt_text(state.current_manifest_path) == s.manifest
            &&& opt_text(state.current_pod_name) == s.pod
            &&& opt_text(state.current_container_id) == r.old_container()
            &&& state.current_port == if s.up.len() > 0 {
                Some(s.up[0].1)
            } else {
                None::<u16>
            }
        } else {
            &&& s.created is Some
            &&& opt_text(state.current_container_id) == Some(s.created->0.id)
            &&& opt_text(state.previous_container_id) == r.old_container()
            &&& opt_text(state.current_manifest_path) == r.old_manifest()
            &&& if for_worker(s) {
                s.running == Some(true) && state.current_port is None
            } else {
                &&& s.healthy && s.routed
                &&& s.running != Some(false)
                &&& r.config.deploy.strategy@ == "blue-green"@ ==> s.running == Some(true)
                &&& state.current_port == Some(s.created->0.port)
            }
        }
    }
}

/// Whether a deploy has ended as completed: it is recorded, and nothing more is
/// ordered.
pub open spec fn is_completed(t: Turn) -> bool {
    &&& t.step.action is Finish && t.step.record
    &&& t.post.ctx.status == DeployStatus::Completed
    &&& t.post.ctx.finished_at == Some(t.now)
}

/// Whether a deploy has ended as failed: it is recorded with a reason, the app
/// counts as failed, and nothing more is ordered.
pub open spec fn is_failed(t: Turn) -> bool {
    &&& t.step.action is Finish && t.step.record
    &&& t.post.ctx.status == DeployStatus::Failed
    &&& t.post.ctx.error is Some
    &&& t.post.ctx.finished_at == Some(t.now)
    &&& t.post_app matches Some(a) ==> a.status == AppStatus::Failed
}

/// What an outcome calls for once the new container or pod serves: what ran before
/// is drained, unless it was stopped at first, and then removed; with nothing left
/// to remove the deploy is completed.
pub open spec fn finishes_rightly(r: Run, s: Seen, action: Action, t: Turn) -> bool {
    let old = if s.pod is Some {
        r.old_manifest()
    } else {
        r.old_container()
    };
    &&& action is SaveState ==> if old is None {
        is_completed(t)
    } else if s.pod is None && r.config.deploy.strategy@ == "recreate"@ {
        t.step.action is StopAndRemove
    } else {
        t.step.action is Drain
    }
    &&& action is Drain ==> if s.pod is Some {
        t.step.action is TeardownPod
    } else {
        t.step.action is StopAndRemove
    }
    &&& s.saved && (action is StopAndRemove || action is TeardownPod) ==> is_completed(t)
    &&& t.step.action is Drain ==> action is SaveState
    &&& t.step.action is Finish && t.post.ctx.status == DeployStatus::Completed ==> s.saved || action is SaveState
}

/// What a deploy that replaces a container in place falls back to: the old
/// container, else one of the old tag, else nothing.
pub open spec fn rolls_back_rightly(r: Run, t: Turn) -> bool {
    if r.old_container() is Some {
        t.step.action is StartContainer
    } else {
        falls_back_rightly(r, t)
    }
}

/// A container of the old tag is asked for, or rolling back has failed too.
pub open spec fn falls_back_rightly(r: Run, t: Turn) -> bool {
    if r.old_tag() is Some {
        t.step.action is CreateAndStart
    } else {
        is_failed(t) && t.post.ctx.rollback_failed
    }
}

/// The app's entry names the fallback that runs in place of the old container.
pub open spec fn is_replaced(r: Run, s: Seen, t: Turn) -> bool {
    &&& is_failed(t)
    &&& t.post_app matches Some(a) ==> {
        &&& s.created is Some && opt_text(a.current_container_id) == Some(s.created->0.id)
        &&& a.current_port == Some(s.created->0.port)
        &&& opt_text(a.current_tag) == r.old_tag()
    }
}

/// What is to be done about a pod: the next route is asked about; after the last
/// one the pod is torn down if a container does not answer, and else gets the
/// requests, or is saved if there are none to get.
pub open spec fn looks_on_rightly(r: Run, s: Seen, t: Turn) -> bool {
    if s.asked < r.hostnames() {
        if right_worker(s, s.asked as int) {
            t.step.action is ContainerIsRunning
        } else {
            t.step.action is PodContainerPort
        }
    } else if s.mute {
        t.step.action is TeardownPod
    } else if s.up.len() > 0 {
        t.step.action is SetRoutes
    } else {
        t.step.action is SaveState
    }
}

/// Whether a manifest is rendered with what the deploy was begun with and what was
/// seen of the configuration.
pub open spec fn renders_rightly(r: Run, s: Seen, c: RenderContext, suffix: Seq<char>) -> bool {
    &&& c.app_name@ == r.ctx.app@
    &&& c.tag@ == r.ctx.tag@
    &&& c.primary_image@ == r.config.app.image@
    &&& c.pod_suffix@ == suffix
    &&& c.image_overrides@ == r.ctx.images@
    &&& texts(c.env_vars@) == environment(r.config.env@, s.env.0, s.env.1)
    &&& volume_views(c.volumes@) == declared_volumes(r.config.volumes@, s.repo->0.volumes@)->Ok_0
        + undeclared_volumes(r.config.volumes@, s.repo->0.volumes@)
}

/// What each outcome calls for before the new container or pod serves.
pub open spec fn reacts_rightly(r: Run, s: Seen, action: Action, event: Event, suffix: Seq<char>, t: Turn) -> bool {
    let recreate = r.config.deploy.strategy@ == "recreate"@;
    let after = noted(s, action, event);
    match event {
        Event::Pulled(Ok(_)) => if after.pulled <= r.ctx.images@.len() {
            t.step.action is PullImage
        } else {
            t.step.action is ReadConfig
        },
        Event::Pulled(Err(_)) => is_failed(t),
        Event::Config(ConfigOutcome::Parsed(repo)) => if repo.app.name@ != r.ctx.app@ || merge_failure(
            r.config,
            repo,
        ) is Some {
            is_failed(t)
        } else {
            t.step.action is ReadEnv
        },
        Event::Config(ConfigOutcome::Absent) => t.step.action is ReadEnv,
        Event::Config(ConfigOutcome::ParseFailed(_)) => is_failed(t),
        Event::Config(ConfigOutcome::ExtractFailed(e)) => if e is Unsupported {
            t.step.action is ReadEnv
        } else {
            is_failed(t)
        },
        Event::Env { .. } => {
            let reachable = r.config.routing.routes@.len() > 0 || (r.config.routing.domain is Some
                && r.config.routing.domain->0@.len() > 0 && r.config.routing.port is Some
                && r.config.routing.port->0 > 0);
            let strategy = r.config.deploy.strategy@;
            if (!reachable && !for_worker(s)) || (strategy != "blue-green"@ && strategy != "recreate"@) {
                is_failed(t)
            } else if for_pod(s) {
                if s.repo->0.app.manifest is Some {
                    t.step.action is ExtractFile
                } else {
                    t.step.action is Proceed
                }
            } else if recreate {
                if r.old_container() is Some {
                    t.step.action is StopContainer
                } else {
                    t.step.action is RemoveRoute
                }
            } else {
                t.step.action is CreateAndStart
            }
        },
        Event::Stopped(Ok(_)) => t.step.action is RemoveRoute,
        Event::Stopped(Err(_)) => is_failed(t),
        Event::Created(Ok(_)) => if s.tries == 0 && for_worker(s) {
            t.step.action is ContainerIsRunning
        } else if s.tries == 0 {
            t.step.action is CheckHealth
        } else if t.pre.config.health.path is Some {
            t.step.action is CheckHealth
        } else if r.hostnames() > 0 {
            t.step.action is SetRoutes
        } else {
            is_replaced(r, after, t)
        },
        Event::Created(Err(_)) => if s.tries > 0 {
            is_failed(t) && t.post.ctx.rollback_failed
        } else if recreate {
            rolls_back_rightly(r, t)
        } else {
            is_failed(t)
        },
        Event::Health(result) => if s.pod is Some {
            looks_on_rightly(r, after, t)
        } else if s.tries > 1 {
            if result is Err {
                t.step.action is StopAndRemove
            } else if r.hostnames() > 0 {
                t.step.action is SetRoutes
            } else {
                is_replaced(r, s, t)
            }
        } else if result is Err && !recreate {
            t.step.action is StopAndRemove
        } else {
            t.step.action is ContainerIsRunning
        },
        Event::Running(result) => if s.pod is Some {
            looks_on_rightly(r, after, t)
        } else if result == Ok::<bool, RuntimeError>(true) && (s.healthy || for_worker(s)) {
            if for_worker(s) {
                t.step.action is SaveState
            } else {
                t.step.action is SetRoutes
            }
        } else if !recreate {
            is_failed(t)
        } else if result is Err && s.healthy && !for_worker(s) {
            t.step.action is SetRoutes
        } else {
            t.step.action is StopAndRemove
        },
        Event::RoutesSet(result) => if s.inspected is Some {
            is_failed(t)
        } else if s.tries > 1 {
            is_replaced(r, s, t)
        } else if result is Ok {
            t.step.action is SaveState
        } else if s.pod is Some {
            t.step.action is TeardownPod
        } else {
            t.step.action is StopAndRemove
        },
        Event::Started(Ok(_)) => t.step.action is InspectPort,
        Event::Started(Err(_)) => falls_back_rightly(r, t),
        Event::Port(result) => if !(action is InspectPort) {
            if result is Ok {
                t.step.action is CheckHealth
            } else {
                looks_on_rightly(r, after, t)
            }
        } else if r.hostnames() > 0 {
            t.step.action is SetRoutes
        } else {
            is_failed(t)
        },
        Event::Extracted(Ok(Some(bytes))) => exists|c: RenderContext| #[trigger]
            renders_rightly(r, s, c, suffix) && match rendered(bytes@, c) {
                Ok(yaml) => t.step.action matches Action::WriteManifest { directory, path, text } && {
                    &&& text@ == yaml
                    &&& directory@ == joined(r.storage_path@, "manifests"@)
                    &&& path@ == joined(directory@, r.ctx.app@ + "-"@ + r.ctx.id@ + ".yaml"@)
                },
                Err(_) => is_failed(t),
            },
        Event::Extracted(_) => is_failed(t),
        Event::Written(WriteOutcome::Written) => t.step.action is DeployPod,
        Event::Written(_) => is_failed(t),
        Event::PodDeployed(Err(_)) => is_failed(t),
        Event::PodDeployed(Ok(_)) => if r.hostnames() > 0 {
            looks_on_rightly(r, after, t)
        } else {
            t.step.action is Proceed && t.step.record
        },
        Event::Over => {
            &&& !s.saved && action is StopAndRemove ==> if recreate && s.tries == 1 {
                rolls_back_rightly(r, t)
            } else {
                is_failed(t) && (recreate ==> t.post.ctx.rollback_failed)
            }
            &&& !s.saved && action is TeardownPod ==> is_failed(t)
            &&& action is RemoveRoute ==> t.step.action is CreateAndStart
            &&& action is Proceed ==> if s.pod is Some {
                looks_on_rightly(r, s, t)
            } else {
                is_failed(t)
            }
        },
    }
}

// ── What the machine keeps in mind ──────────────────────────────────────────

/// Whether the machine works with what the deploy was begun with and what was
/// seen of the configuration.
spec fn settled(r: Run, s: Seen, m: Rollout) -> bool {
    m.phase is Done || {
    &&& m.ctx.app == r.ctx.app
    &&& m.ctx.image == r.ctx.image
    &&& m.ctx.tag == r.ctx.tag
    &&& m.ctx.id == r.ctx.id
    &&& m.ctx.images == r.ctx.images
    &&& m.registries == r.registries
    &&& m.storage_path == r.storage_path
    &&& m.config.app == r.config.app
    &&& m.config.routing.alike(&r.config.routing)
    &&& m.config.deploy == r.config.deploy
    &&& m.config.env@ == r.config.env@
    &&& m.config.env_file == r.config.env_file
    &&& m.config.network == r.config.network
    &&& m.config.volumes@ == r.config.volumes@
    &&& m.config.resources.memory == right_memory(r, s)
    &&& m.config.resources.cpus == right_cpus(r, s)
    &&& m.merged is Some <==> s.repo is Some
    &&& m.merged is None ==> m.config == r.config
    &&& m.merged matches Some(c) ==> {
        &&& c.kind == s.repo->0.app.kind
        &&& c.manifest == s.repo->0.app.manifest
        &&& c.routes@.len() == r.hostnames()
        &&& forall|k: int|
            0 <= k < c.routes@.len() ==> {
                &&& (#[trigger] c.routes@[k]).hostname@ == r.hostname(k)
                &&& c.routes@[k].port == right_container_port(r, s, k)
                &&& (c.routes@[k].kind@ == "worker"@) == right_worker(s, k)
                &&& right_container(s, k) == (match c.routes@[k].container {
                    Some(name) => name@,
                    None => "web"@,
                })
            }
        &&& volume_views(c.volumes@) == declared_volumes(r.config.volumes@, s.repo->0.volumes@)->Ok_0
            + undeclared_volumes(r.config.volumes@, s.repo->0.volumes@)
    }
    &&& s.tries == 0 && s.pod is None ==> m.ctx.new_container_id is None
    &&& s.tries == 1 && s.created is Some ==> opt_text(m.ctx.new_container_id) == Some(s.created->0.id)
    &&& m.phase is PullMain || m.phase is PullSidecar || m.phase is ReadConfig || m.phase is ReadEnv
        || texts(m.env_vars@) == environment(r.config.env@, s.env.0, s.env.1)
    }
}

/// Whether the new container is the one that was started.
spec fn has_new(s: Seen, m: Rollout) -> bool {
    &&& s.tries == 1
    &&& s.created is Some
    &&& opt_text(m.ctx.new_container_id) == Some(s.created->0.id)
    &&& !m.is_worker() ==> m.ctx.new_port == Some(s.created->0.port)
}

/// Whether the machine has in mind what ran before, to roll back to it.
spec fn has_old(r: Run, m: Rollout) -> bool {
    &&& opt_text(m.old_container) == r.old_container()
    &&& opt_text(m.old_tag) == r.old_tag()
}

/// Whether the machine has in mind what the phase needs.
spec fn in_phase(r: Run, s: Seen, m: Rollout, app: Option<AppRuntimeState>, action: Action) -> bool {
    let early = s.tries == 0 && m.ctx.new_container_id is None && m.ctx.new_port is None;
    let blue = m.config.deploy.strategy@ == "blue-green"@ && s.pod is None && s.inspected is None;
    let again = m.config.deploy.strategy@ == "recreate"@ && s.pod is None && has_old(r, m);
    let port = m.old_port == (match r.before {
        Some(b) => b.current_port,
        None => None,
    });
    let unsaved = !s.saved && app == r.entry;
    let aside = s.inspected is None && !s.routed && s.created is None;
    let fresh = aside && s.pod is None && s.manifest is None && s.asked == 0 && s.up.len() == 0
        && m.healthy_routes@.len() == 0 && !s.mute && !m.http_failure;
    let pod = m.merged is Some && aside && s.tries == 0 && Some(m.manifest_path@) == s.manifest && Some(
        m.pod_name@,
    ) == s.pod && m.http_failure == s.mute && m.healthy_routes@.len() == s.up.len() && (forall|k: int|
        0 <= k < s.up.len() ==> (#[trigger] m.healthy_routes@[k]).port == s.up[k].1
            && m.healthy_routes@[k].hostname@ == r.hostname(s.up[k].0));
    match m.phase {
        Phase::PullMain => unsaved && early && fresh && s.repo is None && s.pulled == 0,
        Phase::PullSidecar(k) => unsaved && early && fresh && s.repo is None && s.pulled == k + 1,
        Phase::ReadConfig => unsaved && early && fresh && s.repo is None,
        Phase::ReadEnv => unsaved && early && fresh,
        Phase::BlueCreate => unsaved && early && blue && !s.routed,
        Phase::BlueWorkerRunning => unsaved && blue && has_new(s, m) && m.is_worker(),
        Phase::BlueHealth => unsaved && blue && has_new(s, m) && !m.is_worker(),
        Phase::BlueRunning => unsaved && blue && has_new(s, m) && s.healthy && !m.is_worker(),
        Phase::BlueRoutes => unsaved && blue && has_new(s, m) && s.healthy && s.running == Some(true)
            && !m.is_worker() && opt_text(m.old_container) == r.old_container(),
        Phase::BlueSave => !s.saved && blue && has_new(s, m) && action is SaveState && app is Some && opt_text(
            app->0.current_container_id,
        ) == Some(s.created->0.id) && opt_text(m.old_container) == r.old_container(),
        Phase::BlueDrain(old) => s.saved && blue && has_new(s, m) && app is Some && opt_text(
            app->0.current_container_id,
        ) == Some(s.created->0.id) && Some(old@) == r.old_container() && action is Drain,
        Phase::BlueStopOld => s.saved && action is StopAndRemove && s.pod is None,
        Phase::Discard(_) => unsaved && blue && action is StopAndRemove,
        Phase::RecreateStop => unsaved && early && again && fresh,
        Phase::RecreateRemoveRoute => unsaved && early && again && fresh && action is RemoveRoute,
        Phase::RecreateCreate => unsaved && early && again && fresh,
        Phase::RecreateWorkerRunning { container, port: p } => unsaved && again && s.inspected is None && has_new(s, m)
            && m.is_worker() && container@ == s.created->0.id,
        Phase::RecreateHealth { container, port: p } => unsaved && again && s.inspected is None && has_new(s, m)
            && !m.is_worker() && container@ == s.created->0.id && p == s.created->0.port,
        Phase::RecreateRunning { container, port: p, healthy } => unsaved && again && s.inspected is None && has_new(
            s,
            m,
        ) && !m.is_worker() && container@ == s.created->0.id && p == s.created->0.port && healthy == s.healthy,
        Phase::RecreateRoutes { container } => unsaved && again && s.inspected is None && has_new(s, m)
            && !m.is_worker() && container@ == s.created->0.id && s.healthy && s.running != Some(false),
        Phase::RecreateSave => !s.saved && again && has_new(s, m) && action is SaveState && app is Some && opt_text(
            app->0.current_container_id,
        ) == Some(s.created->0.id),
        Phase::RecreateRemoveOld => s.saved && action is StopAndRemove && s.pod is None,
        Phase::RecreateDiscard => unsaved && again && s.tries == 1 && s.inspected is None && action is StopAndRemove,
        Phase::RestartOld(old) => unsaved && again && s.tries == 1 && s.inspected is None && port && Some(old@)
            == r.old_container(),
        Phase::RestartPort => unsaved && again && s.tries == 1 && s.inspected is None && port && action is InspectPort,
        Phase::RestartRoutes => unsaved && again && s.inspected is Some && s.tries == 1,
        Phase::FallbackCreate(tag) => unsaved && again && s.tries == 1 && s.inspected is None && Some(tag@)
            == r.old_tag(),
        Phase::FallbackHealth { container, port: p, tag } => unsaved && again && s.tries == 2 && s.inspected is None
            && s.created == Some(Started { id: container@, port: p }) && Some(tag@) == r.old_tag(),
        Phase::FallbackRoutes { container, port: p, tag } => unsaved && again && s.tries == 2 && s.inspected is None
            && s.created == Some(
            Started { id: container@, port: p },
        ) && Some(tag@) == r.old_tag(),
        Phase::FallbackStop => unsaved && again && s.tries == 2 && action is StopAndRemove,
        Phase::PodManifest => unsaved && early && fresh && m.merged is Some,
        Phase::PodUnnamed => unsaved && s.pod is None && action is Proceed,
        Phase::PodWrite => unsaved && early && fresh && m.merged is Some && (action matches Action::WriteManifest {
            path,
            ..
        } && path@ == m.manifest_path@),
        Phase::PodDeploy => unsaved && aside && s.tries == 0 && s.pod is None && s.asked == 0 && s.up.len() == 0
            && m.healthy_routes@.len() == 0 && !s.mute && !m.http_failure && m.merged is Some && Some(m.manifest_path@) == s.manifest && (
        action matches Action::DeployPod { pod: name, .. } && name@ == m.pod_name@),
        Phase::PodBare => unsaved && pod && s.asked == 0 && r.hostnames() == 0 && action is Proceed,
        Phase::PodWorker(i) => unsaved && pod && s.asked == i,
        Phase::PodPort(i) => unsaved && pod && s.asked == i && action is PodContainerPort,
        Phase::PodHealth { route, port: p } => unsaved && pod && s.asked == route + 1 && s.port == p,
        Phase::PodDiscard(_) => unsaved && s.pod is Some && action is TeardownPod,
        Phase::PodRoutes => unsaved && pod && opt_text(m.old_manifest) == r.old_manifest(),
        Phase::PodSave => !s.saved && s.pod is Some && action is SaveState && app is Some && opt_text(
            app->0.current_manifest_path,
        ) == s.manifest && opt_text(m.old_manifest) == r.old_manifest(),
        Phase::PodDrain(old) => s.saved && s.pod is Some && app is Some && opt_text(app->0.current_manifest_path)
            == s.manifest && Some(old@) == r.old_manifest() && action is Drain,
        Phase::PodStopOld => s.saved && action is TeardownPod && s.pod is Some,
        Phase::TimedOut => false,
        Phase::Done => action is Finish && (m.ctx.status == DeployStatus::Completed ==> s.saved) && (m.ctx.status
            == DeployStatus::Failed ==> !s.saved),
    }
}

/// Whether all is right of an order and of what the machine keeps in mind.
spec fn right(r: Run, s: Seen, m: Rollout, app: Option<AppRuntimeState>, action: Action) -> bool {
    &&& m.wf()
    &&& settled(r, s, m)
    &&& in_phase(r, s, m, app, action)
    &&& removes_rightly(r, s, app, action)
    &&& routes_rightly(r, s, action)
    &&& creates_rightly(r, s, action)
    &&& saves_rightly(r, s, app, action)
}

/// Whether a step is one of a run, as far as all was right before it.
spec fn steps(r: Run, s: Seen, t: Turn, event: Event, suffix: Seq<char>, action: Action) -> bool {
    &&& r.entry == (match r.before {
        Some(b) => Some(AppRuntimeState { status: AppStatus::Deploying, ..b }),
        None => None,
    })
    &&& right(r, s, t.pre, t.pre_app, action)
    &&& answers(action, event)
    &&& t.pre.awaits(event)
    &&& t.post.wf()
    &&& follows(t, event, suffix)
}

/// Whether all is right after a step.
spec fn stays_right(r: Run, s: Seen, t: Turn, event: Event, action: Action) -> bool {
    right(r, noted(s, action, event), t.post, t.post_app, t.step.action)
}

proof fn words_differ()
    ensures
        "blue-green"@ != "recreate"@,
        "worker"@ != "pod"@,
        "worker"@ != "http"@,
{
    reveal_strlit("http");
    reveal_strlit("blue-green");
    reveal_strlit("recreate");
    reveal_strlit("worker");
    reveal_strlit("pod");
    assert("blue-green"@.len() != "recreate"@.len());
    assert("worker"@.len() != "pod"@.len());
    assert("worker"@.len() != "http"@.len());
}

/// What routes say, one by one.
proof fn routes_read(v: Seq<Route>)
    ensures
        routes_view(v).len() == v.len(),
        forall|k: int|
            0 <= k < v.len() ==> #[trigger] routes_view(v)[k] == (v[k].hostname@, v[k].port),
        forall|k: int|
            0 <= k < v.len() ==> (#[trigger] v[k]).hostname@ == routes_view(v)[k].0 && v[k].port
                == routes_view(v)[k].1,
{
}

/// The app's hostnames, all leading to one port.
proof fn servers_routes(r: Run, m: Rollout, port: u16)
    requires
        m.config.routing.alike(&r.config.routing),
    ensures
        server_routes(m.config, port).len() == r.hostnames(),
        forall|k: int|
            0 <= k < r.hostnames() ==> #[trigger] server_routes(m.config, port)[k] == (r.hostname(k), port),
{
    assert forall|k: int| 0 <= k < r.hostnames() implies #[trigger] server_routes(m.config, port)[k] == (
        r.hostname(k),
        port,
    ) by {
        let list = m.config.routing.routes_in_force();
        assert(list[k].0 == r.hostname(k));
    }
}

/// What is there to know of an order and its routes.
proof fn order_read(r: Run, s: Seen, m: Rollout, action: Action)
    requires
        settled(r, s, m),
        !(m.phase is Done),
    ensures
        action matches Action::SetRoutes { routes, .. } ==> {
            &&& routes_view(routes@).len() == routes@.len()
            &&& forall|k: int|
                0 <= k < routes@.len() ==> (#[trigger] routes@[k]).hostname@ == routes_view(routes@)[k].0
                    && routes@[k].port == routes_view(routes@)[k].1
        },
        forall|port: u16| (#[trigger] server_routes(m.config, port)).len() == r.hostnames(),
        forall|port: u16, k: int|
            0 <= k < r.hostnames() ==> #[trigger] server_routes(m.config, port)[k] == (r.hostname(k), port),
        volume_views(seq![]) == Seq::<crate::merge::MergedVolumeView>::empty(),
{
    if let Action::SetRoutes { routes, .. } = action {
        routes_read(routes@);
    }
    assert forall|port: u16| (#[trigger] server_routes(m.config, port)).len() == r.hostnames() by {
        servers_routes(r, m, port);
    }
    assert forall|port: u16, k: int| 0 <= k < r.hostnames() implies #[trigger] server_routes(m.config, port)[k] == (
        r.hostname(k),
        port,
    ) by {
        servers_routes(r, m, port);
    }
    assert(volume_views(seq![]) =~= seq![]);
}

#[verifier::spinoff_prover]
#[verifier::rlimit(100)]
proof fn right_after_pulled(r: Run, s: Seen, t: Turn, event: Event, suffix: Seq<char>, action: Action)
    requires
        steps(r, s, t, event, suffix, action),
        event is Pulled,
    ensures
        settled(r, noted(s, action, event), t.post),
        in_phase(r, noted(s, action, event), t.post, t.post_app, t.step.action),
        removes_rightly(r, noted(s, action, event), t.post_app, t.step.action),
        routes_rightly(r, noted(s, action, event), t.step.action),
        creates_rightly(r, noted(s, action, event), t.step.action),
        saves_rightly(r, noted(s, action, event), t.post_app, t.step.action),
{
    order_read(r, s, t.pre, t.step.action);
    words_differ();
    assert(t.pre.ctx.images.len() == t.pre.ctx.images@.len());
    if t.pre.merged is Some {
        assert(t.pre.merged->0.routes.len() == t.pre.merged->0.routes@.len());
    }
}

#[verifier::spinoff_prover]
#[verifier::rlimit(100)]
proof fn right_after_config(r: Run, s: Seen, t: Turn, event: Event, suffix: Seq<char>, action: Action)
    requires
        steps(r, s, t, event, suffix, action),
        event is Config,
    ensures
        settled(r, noted(s, action, event), t.post),
        in_phase(r, noted(s, action, event), t.post, t.post_app, t.step.action),
        removes_rightly(r, noted(s, action, event), t.post_app, t.step.action),
        routes_rightly(r, noted(s, action, event), t.step.action),
        creates_rightly(r, noted(s, action, event), t.step.action),
        saves_rightly(r, noted(s, action, event), t.post_app, t.step.action),
{
    order_read(r, s, t.pre, t.step.action);
    words_differ();
    assert(t.pre.ctx.images.len() == t.pre.ctx.images@.len());
    if t.pre.merged is Some {
        assert(t.pre.merged->0.routes.len() == t.pre.merged->0.routes@.len());
    }
    if let Event::Config(ConfigOutcome::Parsed(repo)) = event {
        let server = t.pre.config.routing.routes_in_force();
        if merged_routes(server, repo.routing.routes_in_force()) is Ok {
            every_hostname_is_the_servers(server, repo.routing.routes_in_force());
            if t.post.merged is Some {
                let c = t.post.merged->0;
                let after = noted(s, action, event);
                assert forall|k: int| 0 <= k < c.routes@.len() implies {
                    &&& (#[trigger] c.routes@[k]).hostname@ == r.hostname(k)
                    &&& c.routes@[k].port == right_container_port(r, after, k)
                    &&& (c.routes@[k].kind@ == "worker"@) == right_worker(after, k)
                    &&& right_container(after, k) == (match c.routes@[k].container {
                        Some(name) => name@,
                        None => "web"@,
                    })
                } by {
                    assert(route_views(c.routes@)[k] == c.routes@[k]@);
                    assert(server[k].0 == r.hostname(k));
                    let theirs = repo.routing.routes_in_force();
                    if theirs.len() > 0 {
                        assert(merged_routes(server, theirs)->Ok_0[k] == paired_route(server[k], theirs[k]));
                    } else {
                        assert(merged_routes(server, theirs)->Ok_0[k] == server_route(server[k]));
                    }
                }
            }
        }
    }
}

#[verifier::spinoff_prover]
#[verifier::rlimit(100)]
proof fn right_after_env(r: Run, s: Seen, t: Turn, event: Event, suffix: Seq<char>, action: Action)
    requires
        steps(r, s, t, event, suffix, action),
        event is Env,
    ensures
        settled(r, noted(s, action, event), t.post),
        in_phase(r, noted(s, action, event), t.post, t.post_app, t.step.action),
        removes_rightly(r, noted(s, action, event), t.post_app, t.step.action),
        routes_rightly(r, noted(s, action, event), t.step.action),
        creates_rightly(r, noted(s, action, event), t.step.action),
        saves_rightly(r, noted(s, action, event), t.post_app, t.step.action),
{
    order_read(r, s, t.pre, t.step.action);
    words_differ();
    assert(t.pre.ctx.images.len() == t.pre.ctx.images@.len());
    if t.pre.merged is Some {
        assert(t.pre.merged->0.routes.len() == t.pre.merged->0.routes@.len());
    }
}

#[verifier::spinoff_prover]
#[verifier::rlimit(100)]
proof fn right_after_created(r: Run, s: Seen, t: Turn, event: Event, suffix: Seq<char>, action: Action)
    requires
        steps(r, s, t, event, suffix, action),
        event is Created,
    ensures
        settled(r, noted(s, action, event), t.post),
        in_phase(r, noted(s, action, event), t.post, t.post_app, t.step.action),
        removes_rightly(r, noted(s, action, event), t.post_app, t.step.action),
        routes_rightly(r, noted(s, action, event), t.step.action),
        creates_rightly(r, noted(s, action, event), t.step.action),
        saves_rightly(r, noted(s, action, event), t.post_app, t.step.action),
{
    order_read(r, s, t.pre, t.step.action);
    words_differ();
    assert(t.pre.ctx.images.len() == t.pre.ctx.images@.len());
    if t.pre.merged is Some {
        assert(t.pre.merged->0.routes.len() == t.pre.merged->0.routes@.len());
    }
}

#[verifier::spinoff_prover]
#[verifier::rlimit(100)]
proof fn right_after_running(r: Run, s: Seen, t: Turn, event: Event, suffix: Seq<char>, action: Action)
    requires
        steps(r, s, t, event, suffix, action),
        event is Running,
    ensures
        settled(r, noted(s, action, event), t.post),
        in_phase(r, noted(s, action, event), t.post, t.post_app, t.step.action),
        removes_rightly(r, noted(s, action, event), t.post_app, t.step.action),
        routes_rightly(r, noted(s, action, event), t.step.action),
        creates_rightly(r, noted(s, action, event), t.step.action),
        saves_rightly(r, noted(s, action, event), t.post_app, t.step.action),
{
    order_read(r, s, t.pre, t.step.action);
    words_differ();
    assert(t.pre.ctx.images.len() == t.pre.ctx.images@.len());
    if t.pre.merged is Some {
        assert(t.pre.merged->0.routes.len() == t.pre.merged->0.routes@.len());
    }
    routes_read(t.pre.healthy_routes@);
}

#[verifier::spinoff_prover]
#[verifier::rlimit(100)]
proof fn right_after_health(r: Run, s: Seen, t: Turn, event: Event, suffix: Seq<char>, action: Action)
    requires
        steps(r, s, t, event, suffix, action),
        event is Health,
    ensures
        settled(r, noted(s, action, event), t.post),
        in_phase(r, noted(s, action, event), t.post, t.post_app, t.step.action),
        removes_rightly(r, noted(s, action, event), t.post_app, t.step.action),
        routes_rightly(r, noted(s, action, event), t.step.action),
        creates_rightly(r, noted(s, action, event), t.step.action),
        saves_rightly(r, noted(s, action, event), t.post_app, t.step.action),
{
    order_read(r, s, t.pre, t.step.action);
    words_differ();
    assert(t.pre.ctx.images.len() == t.pre.ctx.images@.len());
    if t.pre.merged is Some {
        assert(t.pre.merged->0.routes.len() == t.pre.merged->0.routes@.len());
    }
    routes_read(t.pre.healthy_routes@);
    routes_read(t.post.healthy_routes@);
    if t.pre.phase is PodHealth && event is Health && event->Health_0 is Ok {
        let up = noted(s, action, event).up;
        let routes = t.post.healthy_routes@;
        assert forall|k: int| 0 <= k < up.len() implies (#[trigger] routes[k]).port == up[k].1 && routes[k].hostname@
            == r.hostname(up[k].0) by {
            assert(routes_view(routes)[k] == (routes[k].hostname@, routes[k].port));
            if k < s.up.len() {
                assert(routes_view(t.pre.healthy_routes@)[k] == (
                    t.pre.healthy_routes@[k].hostname@,
                    t.pre.healthy_routes@[k].port,
                ));
            }
        }
    }
}

#[verifier::spinoff_prover]
#[verifier::rlimit(100)]
proof fn right_after_routes(r: Run, s: Seen, t: Turn, event: Event, suffix: Seq<char>, action: Action)
    requires
        steps(r, s, t, event, suffix, action),
        event is RoutesSet,
    ensures
        settled(r, noted(s, action, event), t.post),
        in_phase(r, noted(s, action, event), t.post, t.post_app, t.step.action),
        removes_rightly(r, noted(s, action, event), t.post_app, t.step.action),
        routes_rightly(r, noted(s, action, event), t.step.action),
        creates_rightly(r, noted(s, action, event), t.step.action),
        saves_rightly(r, noted(s, action, event), t.post_app, t.step.action),
{
    order_read(r, s, t.pre, t.step.action);
    words_differ();
    assert(t.pre.ctx.images.len() == t.pre.ctx.images@.len());
    if t.pre.merged is Some {
        assert(t.pre.merged->0.routes.len() == t.pre.merged->0.routes@.len());
    }
}

#[verifier::spinoff_prover]
#[verifier::rlimit(100)]
proof fn right_after_stopped(r: Run, s: Seen, t: Turn, event: Event, suffix: Seq<char>, action: Action)
    requires
        steps(r, s, t, event, suffix, action),
        event is Stopped,
    ensures
        settled(r, noted(s, action, event), t.post),
        in_phase(r, noted(s, action, event), t.post, t.post_app, t.step.action),
        removes_rightly(r, noted(s, action, event), t.post_app, t.step.action),
        routes_rightly(r, noted(s, action, event), t.step.action),
        creates_rightly(r, noted(s, action, event), t.step.action),
        saves_rightly(r, noted(s, action, event), t.post_app, t.step.action),
{
    order_read(r, s, t.pre, t.step.action);
    words_differ();
    assert(t.pre.ctx.images.len() == t.pre.ctx.images@.len());
    if t.pre.merged is Some {
        assert(t.pre.merged->0.routes.len() == t.pre.merged->0.routes@.len());
    }
}

#[verifier::spinoff_prover]
#[verifier::rlimit(100)]
proof fn right_after_started(r: Run, s: Seen, t: Turn, event: Event, suffix: Seq<char>, action: Action)
    requires
        steps(r, s, t, event, suffix, action),
        event is Started,
    ensures
        settled(r, noted(s, action, event), t.post),
        in_phase(r, noted(s, action, event), t.post, t.post_app, t.step.action),
        removes_rightly(r, noted(s, action, event), t.post_app, t.step.action),
        routes_rightly(r, noted(s, action, event), t.step.action),
        creates_rightly(r, noted(s, action, event), t.step.action),
        saves_rightly(r, noted(s, action, event), t.post_app, t.step.action),
{
    order_read(r, s, t.pre, t.step.action);
    words_differ();
    assert(t.pre.ctx.images.len() == t.pre.ctx.images@.len());
    if t.pre.merged is Some {
        assert(t.pre.merged->0.routes.len() == t.pre.merged->0.routes@.len());
    }
}

#[verifier::spinoff_prover]
#[verifier::rlimit(100)]
proof fn right_after_port(r: Run, s: Seen, t: Turn, event: Event, suffix: Seq<char>, action: Action)
    requires
        steps(r, s, t, event, suffix, action),
        event is Port,
    ensures
        settled(r, noted(s, action, event), t.post),
        in_phase(r, noted(s, action, event), t.post, t.post_app, t.step.action),
        removes_rightly(r, noted(s, action, event), t.post_app, t.step.action),
        routes_rightly(r, noted(s, action, event), t.step.action),
        creates_rightly(r, noted(s, action, event), t.step.action),
        saves_rightly(r, noted(s, action, event), t.post_app, t.step.action),
{
    order_read(r, s, t.pre, t.step.action);
    words_differ();
    assert(t.pre.ctx.images.len() == t.pre.ctx.images@.len());
    if t.pre.merged is Some {
        assert(t.pre.merged->0.routes.len() == t.pre.merged->0.routes@.len());
    }
    routes_read(t.pre.healthy_routes@);
}

#[verifier::spinoff_prover]
#[verifier::rlimit(100)]
proof fn right_after_extracted(r: Run, s: Seen, t: Turn, event: Event, suffix: Seq<char>, action: Action)
    requires
        steps(r, s, t, event, suffix, action),
        event is Extracted,
    ensures
        settled(r, noted(s, action, event), t.post),
        in_phase(r, noted(s, action, event), t.post, t.post_app, t.step.action),
        removes_rightly(r, noted(s, action, event), t.post_app, t.step.action),
        routes_rightly(r, noted(s, action, event), t.step.action),
        creates_rightly(r, noted(s, action, event), t.step.action),
        saves_rightly(r, noted(s, action, event), t.post_app, t.step.action),
{
    order_read(r, s, t.pre, t.step.action);
    words_differ();
    assert(t.pre.ctx.images.len() == t.pre.ctx.images@.len());
    if t.pre.merged is Some {
        assert(t.pre.merged->0.routes.len() == t.pre.merged->0.routes@.len());
    }
}

#[verifier::spinoff_prover]
#[verifier::rlimit(100)]
proof fn right_after_written(r: Run, s: Seen, t: Turn, event: Event, suffix: Seq<char>, action: Action)
    requires
        steps(r, s, t, event, suffix, action),
        event is Written,
    ensures
        settled(r, noted(s, action, event), t.post),
        in_phase(r, noted(s, action, event), t.post, t.post_app, t.step.action),
        removes_rightly(r, noted(s, action, event), t.post_app, t.step.action),
        routes_rightly(r, noted(s, action, event), t.step.action),
        creates_rightly(r, noted(s, action, event), t.step.action),
        saves_rightly(r, noted(s, action, event), t.post_app, t.step.action),
{
    order_read(r, s, t.pre, t.step.action);
    words_differ();
    assert(t.pre.ctx.images.len() == t.pre.ctx.images@.len());
    if t.pre.merged is Some {
        assert(t.pre.merged->0.routes.len() == t.pre.merged->0.routes@.len());
    }
}

#[verifier::spinoff_prover]
#[verifier::rlimit(100)]
proof fn right_after_pod(r: Run, s: Seen, t: Turn, event: Event, suffix: Seq<char>, action: Action)
    requires
        steps(r, s, t, event, suffix, action),
        event is PodDeployed,
    ensures
        settled(r, noted(s, action, event), t.post),
        in_phase(r, noted(s, action, event), t.post, t.post_app, t.step.action),
        removes_rightly(r, noted(s, action, event), t.post_app, t.step.action),
        routes_rightly(r, noted(s, action, event), t.step.action),
        creates_rightly(r, noted(s, action, event), t.step.action),
        saves_rightly(r, noted(s, action, event), t.post_app, t.step.action),
{
    order_read(r, s, t.pre, t.step.action);
    words_differ();
    assert(t.pre.ctx.images.len() == t.pre.ctx.images@.len());
    if t.pre.merged is Some {
        assert(t.pre.merged->0.routes.len() == t.pre.merged->0.routes@.len());
    }
}

#[verifier::spinoff_prover]
#[verifier::rlimit(100)]
proof fn right_after_over(r: Run, s: Seen, t: Turn, event: Event, suffix: Seq<char>, action: Action)
    requires
        steps(r, s, t, event, suffix, action),
        event is Over,
    ensures
        settled(r, noted(s, action, event), t.post),
        in_phase(r, noted(s, action, event), t.post, t.post_app, t.step.action),
        removes_rightly(r, noted(s, action, event), t.post_app, t.step.action),
        routes_rightly(r, noted(s, action, event), t.step.action),
        creates_rightly(r, noted(s, action, event), t.step.action),
        saves_rightly(r, noted(s, action, event), t.post_app, t.step.action),
{
    order_read(r, s, t.pre, t.step.action);
    words_differ();
    assert(t.pre.ctx.images.len() == t.pre.ctx.images@.len());
    if t.pre.merged is Some {
        assert(t.pre.merged->0.routes.len() == t.pre.merged->0.routes@.len());
    }
    routes_read(t.pre.healthy_routes@);
}

/// All is right after a step of a run.
proof fn right_after(r: Run, s: Seen, t: Turn, event: Event, suffix: Seq<char>, action: Action)
    requires
        steps(r, s, t, event, suffix, action),
    ensures
        right(r, noted(s, action, event), t.post, t.post_app, t.step.action),
{
    match event {
        Event::Pulled(_) => right_after_pulled(r, s, t, event, suffix, action),
        Event::Config(_) => right_after_config(r, s, t, event, suffix, action),
        Event::Env { .. } => right_after_env(r, s, t, event, suffix, action),
        Event::Created(_) => right_after_created(r, s, t, event, suffix, action),
        Event::Running(_) => right_after_running(r, s, t, event, suffix, action),
        Event::Health(_) => right_after_health(r, s, t, event, suffix, action),
        Event::RoutesSet(_) => right_after_routes(r, s, t, event, suffix, action),
        Event::Stopped(_) => right_after_stopped(r, s, t, event, suffix, action),
        Event::Started(_) => right_after_started(r, s, t, event, suffix, action),
        Event::Port(_) => right_after_port(r, s, t, event, suffix, action),
        Event::Extracted(_) => right_after_extracted(r, s, t, event, suffix, action),
        Event::Written(_) => right_after_written(r, s, t, event, suffix, action),
        Event::PodDeployed(_) => right_after_pod(r, s, t, event, suffix, action),
        Event::Over => right_after_over(r, s, t, event, suffix, action),
    }
}

/// The machine of a run waits for the outcome that comes.
proof fn outcome_is_awaited(r: Run, i: int)
    requires
        r.valid(),
        0 <= i < r.turns.len(),
    ensures
        r.machine(i).wf(),
        r.machine(i).awaits(r.events[i]),
        r.turns[i].post.wf(),
    decreases i,
{
    assert(r.goes_on(i));
    if i > 0 {
        outcome_is_awaited(r, i - 1);
        assert(r.goes_on(i - 1));
        orders_are_awaited(r.turns[i - 1], r.events[i - 1], r.suffixes[i - 1], r.events[i]);
    } else {
        beginning_is_awaited(
            r.ctx,
            r.config,
            r.registries,
            r.storage_path,
            r.before,
            r.start,
            r.entry,
            r.first,
            r.events[0],
        );
    }
    orders_are_awaited(r.turns[i], r.events[i], r.suffixes[i], r.events[i]);
}

/// All is right at the beginning of a run.
proof fn right_at_first(r: Run)
    requires
        r.valid(),
    ensures
        right(r, nothing_seen(), r.start, r.entry, r.first.action),
{
}

/// All is right throughout a run.
proof fn all_is_right(r: Run, i: int)
    requires
        r.valid(),
        0 <= i <= r.turns.len(),
    ensures
        right(r, r.seen(i), r.machine(i), r.app(i), r.action(i)),
    decreases i,
{
    if i == 0 {
        right_at_first(r);
    } else {
        all_is_right(r, i - 1);
        outcome_is_awaited(r, i - 1);
        assert(r.goes_on(i - 1));
        right_after(r, r.seen(i - 1), r.turns[i - 1], r.events[i - 1], r.suffixes[i - 1], r.action(i - 1));
    }
}

// ── Laws ────────────────────────────────────────────────────────────────────

/// Throughout a deploy, what is removed before the app's entry is saved is the
/// container or pod that this deploy has started, while the entry still names
/// what ran before. What is removed after that is what ran before, while the
/// entry names the new one. So what the entry names is never removed. Only the
/// old container is ever stopped, restarted or inspected.
pub proof fn what_serves_is_never_removed(r: Run, i: int)
    requires
        r.valid(),
        0 <= i <= r.turns.len(),
    ensures
        removes_rightly(r, r.seen(i), r.app(i), r.action(i)),
{
    all_is_right(r, i);
}

/// Throughout a deploy, routes are set for the app's hostnames and lead to the
/// port where what serves them was found: that of the restarted container, if it
/// was found, and else the one known before; without a restart that of the
/// container started last; with a pod that of each container which answered.
pub proof fn requests_go_where_something_listens(r: Run, i: int)
    requires
        r.valid(),
        0 <= i <= r.turns.len(),
    ensures
        routes_rightly(r, r.seen(i), r.action(i)),
{
    all_is_right(r, i);
}

/// Throughout a deploy, the container that is asked for is of the deploy's image
/// and tag, or of the tag that ran before if it is a fallback, with all that the
/// configuration gives it. What is checked is what was started.
pub proof fn what_is_started_is_what_was_asked_for(r: Run, i: int)
    requires
        r.valid(),
        0 <= i <= r.turns.len(),
    ensures
        creates_rightly(r, r.seen(i), r.action(i)),
{
    all_is_right(r, i);
}

/// Throughout a deploy, the app's entry is saved only when what was started is
/// healthy, runs and gets the requests; it then names that, with the deploy's tag,
/// and what ran before as previous.
pub proof fn what_is_saved_is_what_serves(r: Run, i: int)
    requires
        r.valid(),
        0 <= i <= r.turns.len(),
    ensures
        saves_rightly(r, r.seen(i), r.app(i), r.action(i)),
{
    all_is_right(r, i);
}

#[verifier::spinoff_prover]
#[verifier::rlimit(60)]
proof fn pull_is_answered(r: Run, s: Seen, t: Turn, event: Event, suffix: Seq<char>, action: Action)
    requires
        steps(r, s, t, event, suffix, action),
        event is Pulled,
    ensures
        reacts_rightly(r, s, action, event, suffix, t),
{
    assert(t.pre.ctx.images.len() == t.pre.ctx.images@.len());
}

#[verifier::spinoff_prover]
#[verifier::rlimit(60)]
proof fn config_is_answered(r: Run, s: Seen, t: Turn, event: Event, suffix: Seq<char>, action: Action)
    requires
        steps(r, s, t, event, suffix, action),
        event is Config || event is Env,
    ensures
        reacts_rightly(r, s, action, event, suffix, t),
{
    words_differ();
}

#[verifier::spinoff_prover]
#[verifier::rlimit(60)]
proof fn manifest_is_answered(r: Run, s: Seen, t: Turn, event: Event, suffix: Seq<char>, action: Action)
    requires
        steps(r, s, t, event, suffix, action),
        event is Extracted || event is Written,
    ensures
        reacts_rightly(r, s, action, event, suffix, t),
{
    if let Event::Extracted(Ok(Some(bytes))) = event {
        let c = choose|c: RenderContext| #[trigger]
            renders_with(c, t.pre, suffix) && match rendered(bytes@, c) {
                Ok(yaml) => t.step.action matches Action::WriteManifest { directory, path, text } && {
                    &&& text@ == yaml
                    &&& directory@ == joined(r.storage_path@, "manifests"@)
                    &&& path@ == joined(directory@, r.ctx.app@ + "-"@ + r.ctx.id@ + ".yaml"@)
                },
                Err(_) => is_failed(t),
            };
        assert(renders_rightly(r, s, c, suffix));
    }
}

#[verifier::spinoff_prover]
#[verifier::rlimit(60)]
proof fn start_is_answered(r: Run, s: Seen, t: Turn, event: Event, suffix: Seq<char>, action: Action)
    requires
        steps(r, s, t, event, suffix, action),
        event is Created || event is Started || event is Stopped,
    ensures
        reacts_rightly(r, s, action, event, suffix, t),
{
    words_differ();
}

#[verifier::spinoff_prover]
#[verifier::rlimit(60)]
proof fn running_is_answered(r: Run, s: Seen, t: Turn, event: Event, suffix: Seq<char>, action: Action)
    requires
        steps(r, s, t, event, suffix, action),
        event is Running,
    ensures
        reacts_rightly(r, s, action, event, suffix, t),
{
    words_differ();
    if t.pre.merged is Some {
        assert(t.pre.merged->0.routes.len() == t.pre.merged->0.routes@.len());
    }
}

#[verifier::spinoff_prover]
#[verifier::rlimit(60)]
proof fn health_is_answered(r: Run, s: Seen, t: Turn, event: Event, suffix: Seq<char>, action: Action)
    requires
        steps(r, s, t, event, suffix, action),
        event is Health,
    ensures
        reacts_rightly(r, s, action, event, suffix, t),
{
    words_differ();
    if t.pre.merged is Some {
        assert(t.pre.merged->0.routes.len() == t.pre.merged->0.routes@.len());
    }
    routes_read(t.pre.healthy_routes@);
    routes_read(t.post.healthy_routes@);
    if t.pre.phase is PodHealth {
        let k = s.asked as int;
        let routes = t.pre.merged->0.routes@;
        if k < routes.len() {
            assert(routes[k].hostname@ == r.hostname(k));
        }
        assert(looks_on_rightly(r, noted(s, action, event), t));
    } else {
        assert(s.pod is None);
    }
}

#[verifier::spinoff_prover]
#[verifier::rlimit(60)]
proof fn routes_are_answered(r: Run, s: Seen, t: Turn, event: Event, suffix: Seq<char>, action: Action)
    requires
        steps(r, s, t, event, suffix, action),
        event is RoutesSet,
    ensures
        reacts_rightly(r, s, action, event, suffix, t),
{
    words_differ();
}

#[verifier::spinoff_prover]
#[verifier::rlimit(60)]
proof fn port_is_answered(r: Run, s: Seen, t: Turn, event: Event, suffix: Seq<char>, action: Action)
    requires
        steps(r, s, t, event, suffix, action),
        event is Port,
    ensures
        reacts_rightly(r, s, action, event, suffix, t),
{
    words_differ();
    if t.pre.merged is Some {
        assert(t.pre.merged->0.routes.len() == t.pre.merged->0.routes@.len());
    }
    if t.pre.phase is PodPort {
        let k = s.asked as int + 1;
        let routes = t.pre.merged->0.routes@;
        assert(s.asked < routes.len());
        if k < routes.len() {
            assert(routes[k].hostname@ == r.hostname(k));
        }
        assert(event->Port_0 is Ok ==> t.step.action is CheckHealth);
        assert(event->Port_0 is Err ==> looks_on_rightly(r, noted(s, action, event), t));
    } else {
        assert(t.pre.phase is RestartPort);
        assert(action is InspectPort);
    }
}

#[verifier::spinoff_prover]
#[verifier::rlimit(60)]
proof fn pod_is_answered(r: Run, s: Seen, t: Turn, event: Event, suffix: Seq<char>, action: Action)
    requires
        steps(r, s, t, event, suffix, action),
        event is PodDeployed,
    ensures
        reacts_rightly(r, s, action, event, suffix, t),
{
    words_differ();
    if t.pre.merged is Some {
        assert(t.pre.merged->0.routes.len() == t.pre.merged->0.routes@.len());
    }
}

/// Every outcome leads to what it calls for.
proof fn reaction_is_right(r: Run, s: Seen, t: Turn, event: Event, suffix: Seq<char>, action: Action)
    requires
        steps(r, s, t, event, suffix, action),
        !(event is Over),
    ensures
        reacts_rightly(r, s, action, event, suffix, t),
{
    match event {
        Event::Pulled(_) => pull_is_answered(r, s, t, event, suffix, action),
        Event::Config(_) => config_is_answered(r, s, t, event, suffix, action),
        Event::Env { .. } => config_is_answered(r, s, t, event, suffix, action),
        Event::Created(_) => start_is_answered(r, s, t, event, suffix, action),
        Event::Started(_) => start_is_answered(r, s, t, event, suffix, action),
        Event::Stopped(_) => start_is_answered(r, s, t, event, suffix, action),
        Event::Running(_) => running_is_answered(r, s, t, event, suffix, action),
        Event::Health(_) => health_is_answered(r, s, t, event, suffix, action),
        Event::RoutesSet(_) => routes_are_answered(r, s, t, event, suffix, action),
        Event::Port(_) => port_is_answered(r, s, t, event, suffix, action),
        Event::Extracted(_) => manifest_is_answered(r, s, t, event, suffix, action),
        Event::Written(_) => manifest_is_answered(r, s, t, event, suffix, action),
        Event::PodDeployed(_) => pod_is_answered(r, s, t, event, suffix, action),
        Event::Over => {},
    }
}

#[verifier::spinoff_prover]
#[verifier::rlimit(100)]
proof fn end_is_right(r: Run, s: Seen, t: Turn, event: Event, suffix: Seq<char>, action: Action)
    requires
        steps(r, s, t, event, suffix, action),
    ensures
        event is Over ==> reacts_rightly(r, s, action, event, suffix, t),
        finishes_rightly(r, s, action, t),
{
    words_differ();
}

/// Throughout a deploy, each outcome leads to what it calls for: a step that
/// failed ends the deploy as failed, after the new container is removed where
/// there is one; a container that replaces another in place is rolled back to the
/// old one, or to the old tag; and what passed its checks gets the requests and
/// is saved.
pub proof fn every_outcome_has_its_consequence(r: Run, i: int)
    requires
        r.valid(),
        0 <= i < r.turns.len(),
    ensures
        reacts_rightly(r, r.seen(i), r.action(i), r.events[i], r.suffixes[i], r.turns[i]),
{
    all_is_right(r, i);
    outcome_is_awaited(r, i);
    assert(r.goes_on(i));
    if r.events[i] is Over {
        end_is_right(r, r.seen(i), r.turns[i], r.events[i], r.suffixes[i], r.action(i));
    } else {
        reaction_is_right(r, r.seen(i), r.turns[i], r.events[i], r.suffixes[i], r.action(i));
    }
}

/// Once the new container or pod is saved as what serves, the old one is drained
/// and removed, and only then is the deploy completed; it is completed in no other
/// way.
pub proof fn a_deploy_completes_with_the_old_gone(r: Run, i: int)
    requires
        r.valid(),
        0 <= i < r.turns.len(),
    ensures
        finishes_rightly(r, r.seen(i), r.action(i), r.turns[i]),
{
    all_is_right(r, i);
    outcome_is_awaited(r, i);
    assert(r.goes_on(i));
    end_is_right(r, r.seen(i), r.turns[i], r.events[i], r.suffixes[i], r.action(i));
}

/// When the time of a deploy is up, the container that it has started is
/// removed, and nothing is if it has started none; either way the deploy has
/// failed.
pub proof fn a_timeout_removes_what_was_started(r: Run, i: int, t: Turn, limit: Duration)
    requires
        r.valid(),
        0 <= i <= r.turns.len(),
        t.pre == r.machine(i),
        t.pre.phase !is Done,
        t.pre_app == r.app(i),
        times_out(t, limit),
        r.seen(i).tries <= 1,
        r.seen(i).tries == 1 ==> r.seen(i).created is Some,
        r.seen(i).pod is None,
    ensures
        t.post.ctx.status == DeployStatus::Failed,
        r.seen(i).tries == 1 ==> (t.step.action matches Action::StopAndRemove { container } && container@
            == r.seen(i).created->0.id),
        r.seen(i).tries == 0 ==> t.step.action is Finish,
{
    all_is_right(r, i);
}

/// The entry that is saved lists the routes by which the app is reached, with the
/// host ports they lead to; it bears the time of the step and keeps what was applied
/// last.
pub open spec fn lists_rightly(r: Run, s: Seen, t: Turn) -> bool {
    t.step.action matches Action::SaveState { state, .. } ==> {
        &&& state.deployed_at == Some(t.now)
        &&& state.last_applied == (match t.pre_app {
            Some(b) => b.last_applied,
            None => None,
        })
        &&& if s.pod is Some {
            &&& state.current_routes@.len() == s.up.len()
            &&& forall|k: int|
                0 <= k < s.up.len() ==> (#[trigger] state.current_routes@[k]).port == s.up[k].1
                    && state.current_routes@[k].hostname@ == r.hostname(s.up[k].0)
        } else if s.repo is Some {
            &&& state.current_routes@.len() == r.hostnames()
            &&& forall|k: int|
                0 <= k < r.hostnames() ==> (#[trigger] state.current_routes@[k]).hostname@ == r.hostname(k) && (
                !for_worker(s) ==> state.current_routes@[k].port == s.created->0.port)
        } else {
            state.current_routes@.len() == 0
        }
    }
}

#[verifier::spinoff_prover]
#[verifier::rlimit(100)]
proof fn lists_rightly_after(r: Run, s: Seen, t: Turn, event: Event, suffix: Seq<char>, action: Action)
    requires
        steps(r, s, t, event, suffix, action),
        stays_right(r, s, t, event, action),
    ensures
        lists_rightly(r, noted(s, action, event), t),
{
    words_differ();
    if t.step.action is SaveState {
        let now = noted(s, action, event);
        let listed = t.step.action->state.current_routes@;
        assert(t.post.phase is BlueSave || t.post.phase is RecreateSave || t.post.phase is PodSave);
        assert(listed == t.post_app->0.current_routes@);
        assert(route_states(listed).len() == listed.len());
        assert forall|k: int| 0 <= k < listed.len() implies route_states(listed)[k] == (
            (#[trigger] listed[k]).hostname@,
            listed[k].port,
        ) by {}
        if t.post.phase is PodSave {
            routes_read(t.pre.healthy_routes@);
            assert(route_states(listed) == routes_view(t.pre.healthy_routes@));
        } else if t.pre.merged is Some {
            let routes = t.pre.merged->0.routes@;
            assert(route_states(listed).len() == routes.len());
            assert forall|k: int| 0 <= k < routes.len() implies route_states(listed)[k].0 == (
            #[trigger] routes[k]).hostname@ by {}
        }
    }
}

/// Throughout a deploy, an entry that is saved lists the routes by which the app
/// is reached and bears the time at which it went live.
pub proof fn what_is_saved_lists_what_is_reached(r: Run, i: int)
    requires
        r.valid(),
        0 <= i < r.turns.len(),
    ensures
        lists_rightly(r, r.seen(i + 1), r.turns[i]),
{
    all_is_right(r, i);
    all_is_right(r, i + 1);
    assert(r.goes_on(i));
    let t = r.turns[i];
    outcome_is_awaited(r, i);
    lists_rightly_after(r, r.seen(i), t, r.events[i], r.suffixes[i], r.action(i));
}

} // verus!
