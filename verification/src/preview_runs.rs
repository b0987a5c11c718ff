//! What holds of the whole deploy of a preview, told from its orders and their
//! outcomes alone.

use crate::config::{AppConfig, Duplicate, PreviewConfig, RepoConfig, ResourceConfig, ServerPreviewConfig};
use crate::deploy::{env_texts, AppStatus};
use crate::docker::memory_bytes;
use crate::error::RuntimeError;
use crate::manifest::{rendered, RenderContext};
use crate::preview::{
    by_time, by_time_orders, counted, evicted, persisted, ttl_seconds, PreviewDeployContext, PreviewState,
};
use crate::preview_laws::{answers, beginning_is_awaited, countable, orders_are_awaited};
use crate::preview_rollout::{
    begins, follows, renders_with, PreviewAction, PreviewEvent, PreviewPhase, PreviewRollout, PreviewTurn,
};
use crate::registry::RegistryCredentials;
use crate::rollout::{merge_failure, ConfigOutcome, WriteOutcome};
use crate::rollout_runs::Started;
use crate::text::{joined, opt_text, texts};
use crate::time::Timestamp;
use vstd::prelude::*;

verus! {

// ── Runs ────────────────────────────────────────────────────────────────────

/// What is seen of the deploy of a preview.
pub ghost struct PreviewSeen {
    /// The repository's configuration.
    pub repo: Option<RepoConfig>,
    /// Whether the processors asked for were found to be within the cap.
    pub within: bool,
    /// The previews that were listed.
    pub list: Seq<PreviewState>,
    /// How many previews were taken down.
    pub gone: nat,
    /// The container that was started, and its host port.
    pub created: Option<Started>,
    /// Where the manifest was written.
    pub manifest: Option<Seq<char>>,
    /// The pod that was deployed.
    pub pod: Option<Seq<char>>,
    /// The host port of what was started.
    pub port: Option<u16>,
    /// Whether it answered its health check.
    pub healthy: bool,
    /// How many hooks have run.
    pub hooks: nat,
    /// Whether the route was set.
    pub routed: bool,
}

/// What is seen at the beginning.
pub open spec fn nothing_seen() -> PreviewSeen {
    PreviewSeen {
        repo: None,
        within: false,
        list: seq![],
        gone: 0,
        created: None,
        manifest: None,
        pod: None,
        port: None,
        healthy: false,
        hooks: 0,
        routed: false,
    }
}

/// What is seen with one more outcome of an order.
pub open spec fn noted(s: PreviewSeen, action: PreviewAction, event: PreviewEvent) -> PreviewSeen {
    match event {
        PreviewEvent::Config(ConfigOutcome::Parsed(repo)) => PreviewSeen { repo: Some(repo), ..s },
        PreviewEvent::CpusCompared(within) => PreviewSeen { within, ..s },
        PreviewEvent::Previews(list) => PreviewSeen { list: list@, ..s },
        PreviewEvent::Created(Ok((id, port))) => PreviewSeen {
            created: Some(Started { id: id@, port }),
            port: Some(port),
            ..s
        },
        PreviewEvent::Written(WriteOutcome::Written) => match action {
            PreviewAction::WriteManifest { path, .. } => PreviewSeen { manifest: Some(path@), ..s },
            _ => s,
        },
        PreviewEvent::PodDeployed(Ok(_)) => match action {
            PreviewAction::DeployPod { pod, .. } => PreviewSeen { pod: Some(pod@), ..s },
            _ => s,
        },
        PreviewEvent::Port(Ok(port)) => PreviewSeen { port: Some(port), ..s },
        PreviewEvent::Health(Ok(_)) => PreviewSeen { healthy: true, ..s },
        PreviewEvent::Executed(Ok(_)) => PreviewSeen { hooks: s.hooks + 1, ..s },
        PreviewEvent::RouteSet(Ok(_)) => PreviewSeen { routed: true, ..s },
        PreviewEvent::Over => PreviewSeen {
            gone: if action is TeardownPreview {
                s.gone + 1
            } else {
                s.gone
            },
            ..s
        },
        _ => s,
    }
}

/// The deploy of a preview: what it was begun with, its first order and what it
/// made of every outcome.
pub ghost struct PreviewRun {
    pub ctx: PreviewDeployContext,
    pub server: Option<ServerPreviewConfig>,
    pub config: AppConfig,
    pub storage_path: String,
    pub credentials: Option<RegistryCredentials>,
    /// The preview's entry before the deploy, and once it has begun.
    pub before: Option<PreviewState>,
    pub entry: Option<PreviewState>,
    pub now: Timestamp,
    pub start: PreviewRollout,
    pub first: PreviewAction,
    pub turns: Seq<PreviewTurn>,
    pub events: Seq<PreviewEvent>,
    pub suffixes: Seq<Seq<char>>,
}

impl PreviewRun {
    /// The machine after some outcomes.
    pub open spec fn machine(self, i: int) -> PreviewRollout {
        if i <= 0 {
            self.start
        } else {
            self.turns[i - 1].post
        }
    }

    /// The preview's entry after some outcomes.
    pub open spec fn entry_at(self, i: int) -> Option<PreviewState> {
        if i <= 0 {
            self.entry
        } else {
            self.turns[i - 1].post_entry
        }
    }

    /// The order after some outcomes.
    pub open spec fn action(self, i: int) -> PreviewAction {
        if i <= 0 {
            self.first
        } else {
            self.turns[i - 1].action
        }
    }

    /// What is seen after some outcomes.
    pub open spec fn seen(self, i: int) -> PreviewSeen
        decreases i,
    {
        if i <= 0 {
            nothing_seen()
        } else {
            noted(self.seen(i - 1), self.action(i - 1), self.events[i - 1])
        }
    }

    /// Whether the step after some outcomes is what its outcome leads to.
    pub open spec fn goes_on(self, i: int) -> bool {
        let t = self.turns[i];
        &&& t.pre == self.machine(i)
        &&& t.pre_entry == self.entry_at(i)
        &&& answers(self.action(i), self.events[i])
        &&& countable(self.machine(i), self.events[i])
        &&& follows(t, self.events[i], self.suffixes[i])
    }

    /// Whether this is a deploy that begins and in which every step follows from
    /// the outcome of the order before, with nobody else changing the entry.
    pub open spec fn valid(self) -> bool {
        &&& self.now.wf()
        &&& begins(
            self.ctx,
            self.server,
            self.config,
            self.storage_path,
            self.credentials,
            self.before,
            self.now,
            self.start,
            self.first,
            self.entry,
        )
        &&& self.events.len() == self.turns.len()
        &&& self.suffixes.len() == self.turns.len()
        &&& forall|i: int| 0 <= i < self.turns.len() ==> #[trigger] self.goes_on(i)
    }

    /// The name under which the preview is deployed and routed.
    pub open spec fn name(self) -> Seq<char> {
        self.ctx.app_name@ + "-preview-"@ + self.ctx.preview_id@
    }

    /// The domain of the preview, under the app's domain for previews or else the
    /// server's.
    pub open spec fn domain(self) -> Seq<char> {
        let below = if self.config.preview is Some && self.config.preview->0.domain is Some {
            self.config.preview->0.domain->0@
        } else {
            self.server->0.domain@
        };
        self.ctx.preview_id@ + "."@ + below
    }

    /// The port that the app listens on.
    pub open spec fn app_port(self) -> u16 {
        match self.config.routing.port {
            Some(p) => p,
            None => 0,
        }
    }
}

/// What the repository says of previews.
pub open spec fn preview_of(s: PreviewSeen) -> PreviewConfig {
    s.repo->0.preview->0
}

// ── What is right of an order ───────────────────────────────────────────────

/// The first of some limits that is set.
pub open spec fn first_set(a: Option<String>, b: Option<String>, c: Option<String>) -> Option<String> {
    if a is Some {
        a
    } else if b is Some {
        b
    } else {
        c
    }
}

/// The memory limit that is asked for: the preview's, else the server's for the app,
/// else the repository's default.
pub open spec fn asked_memory(r: PreviewRun, s: PreviewSeen) -> Option<String> {
    first_set(
        if preview_of(s).resources is Some {
            preview_of(s).resources->0.memory
        } else {
            None
        },
        r.config.resources.memory,
        if s.repo->0.defaults.resources is Some {
            s.repo->0.defaults.resources->0.memory
        } else {
            None
        },
    )
}

/// The processor limit that is asked for.
pub open spec fn asked_cpus(r: PreviewRun, s: PreviewSeen) -> Option<String> {
    first_set(
        if preview_of(s).resources is Some {
            preview_of(s).resources->0.cpus
        } else {
            None
        },
        r.config.resources.cpus,
        if s.repo->0.defaults.resources is Some {
            s.repo->0.defaults.resources->0.cpus
        } else {
            None
        },
    )
}

/// Limits are those asked for, unless the server's cap is lower or cannot be held
/// against them: then it is the cap.
pub open spec fn right_limits(r: PreviewRun, s: PreviewSeen, limits: ResourceConfig) -> bool {
    let memory_cap = if r.server is Some {
        r.server->0.max_memory
    } else {
        None
    };
    let cpus_cap = if r.server is Some {
        r.server->0.max_cpus
    } else {
        None
    };
    let asked = asked_memory(r, s);
    &&& opt_text(limits.memory) == if memory_cap is None || (memory_bytes(memory_cap) is Some && memory_bytes(
        asked,
    ) is Some && memory_bytes(asked)->0 <= memory_bytes(memory_cap)->0) {
        opt_text(asked)
    } else {
        opt_text(memory_cap)
    }
    &&& opt_text(limits.cpus) == if cpus_cap is None || (s.within && asked_cpus(r, s) is Some) {
        opt_text(asked_cpus(r, s))
    } else {
        opt_text(cpus_cap)
    }
}

/// What is pulled, read and started is of the image and the tag of the deploy, under
/// the preview's own name, with the app's port, environment and network and within
/// the limits; without volumes.
pub open spec fn starts_rightly(r: PreviewRun, s: PreviewSeen, action: PreviewAction) -> bool {
    &&& action matches PreviewAction::PullImage { image, tag, credentials } ==> image@ == r.ctx.image@ && tag@
        == r.ctx.tag@ && credentials == r.credentials
    &&& action matches PreviewAction::ReadConfig { image, tag, path } ==> image@ == r.ctx.image@ && tag@ == r.ctx.tag@
        && path@ == "/slip/slip.toml"@
    &&& action matches PreviewAction::CompareCpus { requested, cap } ==> opt_text(requested) == opt_text(
        asked_cpus(r, s),
    ) && r.server is Some && opt_text(r.server->0.max_cpus) == Some(cap@)
    &&& action matches PreviewAction::CreateAndStart(req) ==> {
        &&& s.created is None
        &&& req.app@ == r.name()
        &&& req.image@ == r.ctx.image@
        &&& req.tag@ == r.ctx.tag@
        &&& req.container_port == r.app_port()
        &&& texts(req.env_vars@) == env_texts(r.config.env@)
        &&& req.network@ == r.config.network.name@
        &&& right_limits(r, s, req.resources)
        &&& req.volumes@.len() == 0
    }
    &&& action matches PreviewAction::ExtractFile { image, tag, path } ==> image@ == r.ctx.image@ && tag@
        == r.ctx.tag@ && Some(path@) == opt_text(s.repo->0.app.manifest)
    &&& action matches PreviewAction::DeployPod { manifest, .. } ==> Some(manifest@) == s.manifest
    &&& action matches PreviewAction::PodContainerPort { pod, container, container_port } ==> {
        &&& Some(pod@) == s.pod
        &&& container@ == (match s.repo->0.routing.container {
            Some(c) => c@,
            None => "web"@,
        })
        &&& container_port == r.app_port()
    }
    &&& action matches PreviewAction::CheckHealth { port } ==> Some(port) == s.port
}

/// The command of the migration.
pub open spec fn migration(s: PreviewSeen) -> Option<String> {
    if preview_of(s).hooks is Some {
        preview_of(s).hooks->0.migrate
    } else {
        None
    }
}

/// The command of the seeding.
pub open spec fn seeding(s: PreviewSeen) -> Option<String> {
    if preview_of(s).hooks is Some {
        preview_of(s).hooks->0.seed
    } else {
        None
    }
}

/// Hooks run in the container that was started, once it is healthy, the migration
/// first. The route leads from the preview's domain to what was started, once it is
/// healthy and the hooks of a container have run.
pub open spec fn serves_rightly(r: PreviewRun, s: PreviewSeen, action: PreviewAction) -> bool {
    &&& action matches PreviewAction::Exec { container, command } ==> {
        &&& s.healthy && s.created is Some && container@ == s.created->0.id
        &&& command@.len() == 3
        &&& command@[0]@ == "/bin/sh"@ && command@[1]@ == "-c"@
        &&& Some(command@[2]@) == opt_text(
            if s.hooks == 0 && migration(s) is Some {
                migration(s)
            } else {
                seeding(s)
            },
        )
    }
    &&& action matches PreviewAction::SetRoute { app, domain, port } ==> {
        &&& app@ == r.name()
        &&& domain@ == r.domain()
        &&& Some(port) == s.port
        &&& s.healthy
        &&& s.created is Some ==> s.hooks == (if migration(s) is Some {
            1int
        } else {
            0
        }) + (if seeding(s) is Some {
            1int
        } else {
            0
        })
    }
    &&& action matches PreviewAction::RemoveRoute { app } ==> app@ == r.name()
}

/// What is removed is what ran for this preview before, as long as nothing new was
/// started, and after that what was started. What is taken down is another
/// preview of the app that runs.
pub open spec fn clears_rightly(r: PreviewRun, s: PreviewSeen, action: PreviewAction) -> bool {
    &&& action matches PreviewAction::StopAndRemove { container } ==> if s.created is Some {
        container@ == s.created->0.id
    } else {
        r.before is Some && Some(container@) == opt_text(r.before->0.container_id)
    }
    &&& action matches PreviewAction::TeardownPod { manifest } ==> if s.manifest is Some {
        s.created is None && Some(manifest@) == s.manifest
    } else {
        r.before is Some && Some(manifest@) == opt_text(r.before->0.manifest_path)
    }
    &&& action matches PreviewAction::TeardownPreview { app, preview_id } ==> {
        &&& app@ == r.ctx.app_name@
        &&& preview_id@ != r.ctx.preview_id@
        &&& s.created is None && s.pod is None
        &&& exists|k: int|
            0 <= k < s.list.len() && (#[trigger] s.list[k]).preview_id@ == preview_id@ && s.list[k].app@
                == r.ctx.app_name@ && s.list[k].status == AppStatus::Running
    }
}

/// Whether a moment is the end of a preview that lives for a time from a moment on.
pub open spec fn right_end(r: PreviewRun, s: PreviewSeen, end: Option<Timestamp>) -> bool {
    let default = if r.server is Some {
        r.server->0.default_ttl
    } else {
        None
    };
    if preview_of(s).ttl is Some {
        let span = preview_of(s).ttl->0;
        end is Some && end->0.total() == r.now.total() + span.secs() * 1_000_000_000 + span.nanos()
    } else if default is Some {
        end is Some && ttl_seconds(default->0@) is Ok && end->0.total() == r.now.total() + ttl_seconds(
            default->0@,
        )->Ok_0 * 1_000_000_000
    } else {
        end is None
    }
}

/// The preview's entry tells which build it shows, where and until when, and what
/// runs for it.
pub open spec fn tells_rightly(r: PreviewRun, s: PreviewSeen, e: Option<PreviewState>, action: PreviewAction) -> bool {
    &&& e is Some
    &&& e->0.app@ == r.ctx.app_name@
    &&& e->0.preview_id@ == r.ctx.preview_id@
    &&& e->0.sha@ == r.ctx.sha@
    &&& opt_text(e->0.tag) == Some(r.ctx.tag@)
    &&& e->0.domain@ == r.domain()
    &&& e->0.deployed_at == r.now
    &&& opt_text(e->0.deploy_id) == Some(r.ctx.deploy_id@)
    &&& opt_text(e->0.container_id) == (match s.created {
        Some(c) => Some(c.id),
        None => None,
    })
    &&& e->0.port == s.port
    &&& s.port is Some ==> opt_text(e->0.pod_name) == s.pod && opt_text(e->0.manifest_path) == s.manifest
    &&& s.port is Some ==> right_end(r, s, e->0.expires_at)
    &&& action matches PreviewAction::SaveState { app, preview_id, state } ==> {
        &&& app@ == r.ctx.app_name@ && preview_id@ == r.ctx.preview_id@
        &&& s.healthy && s.routed
        &&& e->0.status == AppStatus::Running
        &&& state == persisted(e->0)
    }
    &&& action matches PreviewAction::Finish(result) ==> if result is Ok {
        s.routed && s.healthy && e->0.status == AppStatus::Running
    } else {
        e->0.status == AppStatus::Failed
    }
}

// ── What the machine keeps in mind ──────────────────────────────────────────

/// Whether the machine works with what the deploy was begun with and what was seen
/// of the configuration.
spec fn settled(r: PreviewRun, s: PreviewSeen, m: PreviewRollout) -> bool {
    m.phase is Done || {
        &&& m.ctx == r.ctx
        &&& m.server == r.server
        &&& m.domain@ == r.domain()
        &&& m.deployed_at == r.now
        &&& m.storage_path == r.storage_path
        &&& m.old_container == (match r.before {
            Some(b) => b.container_id,
            None => None,
        })
        &&& m.old_pod == (match r.before {
            Some(b) => b.pod_name,
            None => None,
        })
        &&& m.old_manifest == (match r.before {
            Some(b) => b.manifest_path,
            None => None,
        })
        &&& m.config.routing.alike(&r.config.routing)
        &&& m.config.env@ == r.config.env@
        &&& m.config.network == r.config.network
        &&& m.config.app == r.config.app
        &&& m.config.preview == r.config.preview
        &&& m.merged is Some <==> s.repo is Some
        &&& m.merged is None ==> m.config == r.config
        &&& m.merged matches Some(c) ==> {
            &&& s.repo->0.preview is Some
            &&& c.preview == s.repo->0.preview
            &&& c.kind == s.repo->0.app.kind
            &&& c.manifest == s.repo->0.app.manifest
            &&& c.routing_container == s.repo->0.routing.container
            &&& m.phase is CompareCpus ==> {
                &&& m.config.resources.memory == first_set(
                    None,
                    r.config.resources.memory,
                    if s.repo->0.defaults.resources is Some {
                        s.repo->0.defaults.resources->0.memory
                    } else {
                        None
                    },
                )
                &&& m.config.resources.cpus == first_set(
                    None,
                    r.config.resources.cpus,
                    if s.repo->0.defaults.resources is Some {
                        s.repo->0.defaults.resources->0.cpus
                    } else {
                        None
                    },
                )
            }
            &&& !(m.phase is CompareCpus) ==> right_limits(r, s, m.config.resources)
        }
    }
}

/// How many hooks the migration is.
spec fn migrations(s: PreviewSeen) -> int {
    if migration(s) is Some {
        1
    } else {
        0
    }
}

/// How many hooks the seeding is.
spec fn seedings(s: PreviewSeen) -> int {
    if seeding(s) is Some {
        1
    } else {
        0
    }
}

/// Whether the machine has in mind what the phase needs.
spec fn in_phase(r: PreviewRun, s: PreviewSeen, m: PreviewRollout, e: Option<PreviewState>, action: PreviewAction) -> bool {
    let bare = s.created is None && s.manifest is None && s.pod is None && s.port is None && m.container_id is None
        && m.pod_name is None && m.manifest_path is None && !s.healthy && s.hooks == 0 && !s.routed;
    let dated = e is Some && right_end(r, s, e->0.expires_at);
    let up = s.port == Some(m.host_port) && opt_text(m.container_id) == (match s.created {
        Some(c) => Some(c.id),
        None => None,
    }) && opt_text(m.pod_name) == s.pod && opt_text(m.manifest_path) == s.manifest && (s.created is Some
        ==> s.manifest is None) && (s.created is Some || s.manifest is Some) && dated && !s.routed;
    let pod = s.created is None && s.port is None && m.container_id is None && m.pod_name is Some && m.manifest_path
        is Some && !s.healthy && s.hooks == 0 && !s.routed && dated;
    match m.phase {
        PreviewPhase::Pull => bare && s.repo is None && s.gone == 0,
        PreviewPhase::ReadConfig => bare && s.repo is None && s.gone == 0,
        PreviewPhase::CompareCpus => bare && s.gone == 0,
        PreviewPhase::ListPreviews => bare && dated && s.gone == 0,
        PreviewPhase::Evict(i) => bare && dated && action is TeardownPreview && s.gone == i && texts(m.victims@) == evicted(
            s.list,
            r.ctx.app_name@,
            r.ctx.preview_id@,
            right_limit(r, s)->0,
        ) && forall|k: int|
            0 <= k < m.victims@.len() ==> is_victim(r, s, (#[trigger] m.victims@[k])@),
        PreviewPhase::StopOld => bare && dated && action is StopAndRemove,
        PreviewPhase::TeardownOld => bare && dated && action is TeardownPod,
        PreviewPhase::RemoveOldRoute => bare && dated && action is RemoveRoute,
        PreviewPhase::Create => bare && dated,
        PreviewPhase::Manifest => bare && dated,
        PreviewPhase::Write => pod && s.manifest is None && s.pod is None && (action matches PreviewAction::WriteManifest {
            path,
            ..
        } && Some(path@) == opt_text(m.manifest_path)),
        PreviewPhase::DeployPod => pod && s.pod is None && s.manifest == opt_text(m.manifest_path) && (
        action matches PreviewAction::DeployPod { pod: name, .. } && Some(name@) == opt_text(m.pod_name)),
        PreviewPhase::PodPort => pod && s.manifest == opt_text(m.manifest_path) && s.pod == opt_text(m.pod_name)
            && action is PodContainerPort,
        PreviewPhase::Health => up && !s.healthy && s.hooks == 0,
        PreviewPhase::Migrate => up && s.healthy && s.created is Some && migration(s) is Some && s.hooks == 0,
        PreviewPhase::Seed => up && s.healthy && s.created is Some && seeding(s) is Some && s.hooks == migrations(s),
        PreviewPhase::Route => up && s.healthy,
        PreviewPhase::Save => s.routed && s.healthy && e is Some && e->0.status == AppStatus::Running && action is SaveState,
        PreviewPhase::CleanUp(_) => e is Some && e->0.status == AppStatus::Failed && (action is StopAndRemove || action
            is TeardownPod) && !s.routed && (s.port is Some ==> dated) && (s.created is Some || s.manifest is Some),
        PreviewPhase::Done => action is Finish,
    }
}

/// Whether a preview is one that may make room: another one of the app, which runs.
spec fn is_victim(r: PreviewRun, s: PreviewSeen, id: Seq<char>) -> bool {
    &&& id != r.ctx.preview_id@
    &&& exists|k: int|
        0 <= k < s.list.len() && (#[trigger] s.list[k]).preview_id@ == id && s.list[k].app@ == r.ctx.app_name@
            && s.list[k].status == AppStatus::Running
}

proof fn counted_is_listed(list: Seq<PreviewState>, app: Seq<char>, id: Seq<char>, k: int)
    requires
        0 <= k < counted(list, app, id).len(),
    ensures
        counted(list, app, id)[k].0 != id,
        exists|j: int|
            0 <= j < list.len() && (#[trigger] list[j]).preview_id@ == counted(list, app, id)[k].0 && list[j].app@ == app
                && list[j].status == AppStatus::Running,
    decreases list.len(),
{
    if list.len() > 0 {
        let init = list.drop_last();
        if k < counted(init, app, id).len() {
            counted_is_listed(init, app, id, k);
            let j = choose|j: int|
                0 <= j < init.len() && (#[trigger] init[j]).preview_id@ == counted(init, app, id)[k].0 && init[j].app@
                    == app && init[j].status == AppStatus::Running;
            assert(list[j] == init[j]);
        } else {
            assert(list[list.len() - 1] == list.last());
        }
    }
}

/// A preview that has to go is one that is listed: another one of the app, which
/// runs.
proof fn victim_is_listed(list: Seq<PreviewState>, app: Seq<char>, id: Seq<char>, max: u32, k: int)
    requires
        0 <= k < evicted(list, app, id, max).len(),
    ensures
        evicted(list, app, id, max)[k] != id,
        exists|j: int|
            0 <= j < list.len() && (#[trigger] list[j]).preview_id@ == evicted(list, app, id, max)[k] && list[j].app@
                == app && list[j].status == AppStatus::Running,
{
    broadcast use vstd::seq_lib::group_to_multiset_ensures;

    let c = counted(list, app, id);
    let all = by_time(c);
    by_time_orders(c);
    assert(all.contains(all[k]));
    assert(all.to_multiset().count(all[k]) > 0);
    assert(c.to_multiset().count(all[k]) > 0);
    assert(c.contains(all[k]));
    let j = choose|j: int| 0 <= j < c.len() && c[j] == all[k];
    counted_is_listed(list, app, id, j);
}

/// Whether a step is one of a run, as far as all was right before it.
spec fn steps(
    r: PreviewRun,
    s: PreviewSeen,
    t: PreviewTurn,
    event: PreviewEvent,
    suffix: Seq<char>,
    action: PreviewAction,
) -> bool {
    &&& settled(r, s, t.pre)
    &&& in_phase(r, s, t.pre, t.pre_entry, action)
    &&& tells_rightly(r, s, t.pre_entry, action)
    &&& answers(action, event)
    &&& t.pre.awaits(event)
    &&& t.post.wf()
    &&& follows(t, event, suffix)
}

#[verifier::spinoff_prover]
#[verifier::rlimit(60)]
proof fn right_after_pulled(
    r: PreviewRun,
    s: PreviewSeen,
    t: PreviewTurn,
    event: PreviewEvent,
    suffix: Seq<char>,
    action: PreviewAction,
)
    requires
        steps(r, s, t, event, suffix, action),
        event is Pulled,
    ensures
        settled(r, noted(s, action, event), t.post),
        in_phase(r, noted(s, action, event), t.post, t.post_entry, t.action),
        starts_rightly(r, noted(s, action, event), t.action),
        serves_rightly(r, noted(s, action, event), t.action),
        clears_rightly(r, noted(s, action, event), t.action),
        tells_rightly(r, noted(s, action, event), t.post_entry, t.action),
{
}

#[verifier::spinoff_prover]
#[verifier::rlimit(60)]
proof fn right_after_config(
    r: PreviewRun,
    s: PreviewSeen,
    t: PreviewTurn,
    event: PreviewEvent,
    suffix: Seq<char>,
    action: PreviewAction,
)
    requires
        steps(r, s, t, event, suffix, action),
        event is Config,
    ensures
        settled(r, noted(s, action, event), t.post),
        in_phase(r, noted(s, action, event), t.post, t.post_entry, t.action),
        starts_rightly(r, noted(s, action, event), t.action),
        serves_rightly(r, noted(s, action, event), t.action),
        clears_rightly(r, noted(s, action, event), t.action),
        tells_rightly(r, noted(s, action, event), t.post_entry, t.action),
{
}

#[verifier::spinoff_prover]
#[verifier::rlimit(60)]
proof fn right_after_cpus(
    r: PreviewRun,
    s: PreviewSeen,
    t: PreviewTurn,
    event: PreviewEvent,
    suffix: Seq<char>,
    action: PreviewAction,
)
    requires
        steps(r, s, t, event, suffix, action),
        event is CpusCompared,
    ensures
        settled(r, noted(s, action, event), t.post),
        in_phase(r, noted(s, action, event), t.post, t.post_entry, t.action),
        starts_rightly(r, noted(s, action, event), t.action),
        serves_rightly(r, noted(s, action, event), t.action),
        clears_rightly(r, noted(s, action, event), t.action),
        tells_rightly(r, noted(s, action, event), t.post_entry, t.action),
{
}

#[verifier::spinoff_prover]
#[verifier::rlimit(60)]
proof fn right_after_previews(
    r: PreviewRun,
    s: PreviewSeen,
    t: PreviewTurn,
    event: PreviewEvent,
    suffix: Seq<char>,
    action: PreviewAction,
)
    requires
        steps(r, s, t, event, suffix, action),
        event is Previews,
    ensures
        settled(r, noted(s, action, event), t.post),
        in_phase(r, noted(s, action, event), t.post, t.post_entry, t.action),
        starts_rightly(r, noted(s, action, event), t.action),
        serves_rightly(r, noted(s, action, event), t.action),
        clears_rightly(r, noted(s, action, event), t.action),
        tells_rightly(r, noted(s, action, event), t.post_entry, t.action),
{
    let after = noted(s, action, event);
    assert(t.post.victims.len() == t.post.victims@.len());
    assert(texts(t.post.victims@).len() == t.post.victims@.len());
    assert forall|k: int| 0 <= k < t.post.victims@.len() implies is_victim(
        r,
        after,
        (#[trigger] t.post.victims@[k])@,
    ) by {
        assert(texts(t.post.victims@)[k] == t.post.victims@[k]@);
        let max = crate::preview_rollout::limit_of(t.pre)->0;
        victim_is_listed(after.list, r.ctx.app_name@, r.ctx.preview_id@, max, k);
    }
}

#[verifier::spinoff_prover]
#[verifier::rlimit(60)]
proof fn right_after_extracted(
    r: PreviewRun,
    s: PreviewSeen,
    t: PreviewTurn,
    event: PreviewEvent,
    suffix: Seq<char>,
    action: PreviewAction,
)
    requires
        steps(r, s, t, event, suffix, action),
        event is Extracted,
    ensures
        settled(r, noted(s, action, event), t.post),
        in_phase(r, noted(s, action, event), t.post, t.post_entry, t.action),
        starts_rightly(r, noted(s, action, event), t.action),
        serves_rightly(r, noted(s, action, event), t.action),
        clears_rightly(r, noted(s, action, event), t.action),
        tells_rightly(r, noted(s, action, event), t.post_entry, t.action),
{
}

#[verifier::spinoff_prover]
#[verifier::rlimit(60)]
proof fn right_after_written(
    r: PreviewRun,
    s: PreviewSeen,
    t: PreviewTurn,
    event: PreviewEvent,
    suffix: Seq<char>,
    action: PreviewAction,
)
    requires
        steps(r, s, t, event, suffix, action),
        event is Written,
    ensures
        settled(r, noted(s, action, event), t.post),
        in_phase(r, noted(s, action, event), t.post, t.post_entry, t.action),
        starts_rightly(r, noted(s, action, event), t.action),
        serves_rightly(r, noted(s, action, event), t.action),
        clears_rightly(r, noted(s, action, event), t.action),
        tells_rightly(r, noted(s, action, event), t.post_entry, t.action),
{
}

#[verifier::spinoff_prover]
#[verifier::rlimit(60)]
proof fn right_after_pod(
    r: PreviewRun,
    s: PreviewSeen,
    t: PreviewTurn,
    event: PreviewEvent,
    suffix: Seq<char>,
    action: PreviewAction,
)
    requires
        steps(r, s, t, event, suffix, action),
        event is PodDeployed,
    ensures
        settled(r, noted(s, action, event), t.post),
        in_phase(r, noted(s, action, event), t.post, t.post_entry, t.action),
        starts_rightly(r, noted(s, action, event), t.action),
        serves_rightly(r, noted(s, action, event), t.action),
        clears_rightly(r, noted(s, action, event), t.action),
        tells_rightly(r, noted(s, action, event), t.post_entry, t.action),
{
}

#[verifier::spinoff_prover]
#[verifier::rlimit(60)]
proof fn right_after_port(
    r: PreviewRun,
    s: PreviewSeen,
    t: PreviewTurn,
    event: PreviewEvent,
    suffix: Seq<char>,
    action: PreviewAction,
)
    requires
        steps(r, s, t, event, suffix, action),
        event is Port,
    ensures
        settled(r, noted(s, action, event), t.post),
        in_phase(r, noted(s, action, event), t.post, t.post_entry, t.action),
        starts_rightly(r, noted(s, action, event), t.action),
        serves_rightly(r, noted(s, action, event), t.action),
        clears_rightly(r, noted(s, action, event), t.action),
        tells_rightly(r, noted(s, action, event), t.post_entry, t.action),
{
}

#[verifier::spinoff_prover]
#[verifier::rlimit(60)]
proof fn right_after_created(
    r: PreviewRun,
    s: PreviewSeen,
    t: PreviewTurn,
    event: PreviewEvent,
    suffix: Seq<char>,
    action: PreviewAction,
)
    requires
        steps(r, s, t, event, suffix, action),
        event is Created,
    ensures
        settled(r, noted(s, action, event), t.post),
        in_phase(r, noted(s, action, event), t.post, t.post_entry, t.action),
        starts_rightly(r, noted(s, action, event), t.action),
        serves_rightly(r, noted(s, action, event), t.action),
        clears_rightly(r, noted(s, action, event), t.action),
        tells_rightly(r, noted(s, action, event), t.post_entry, t.action),
{
}

#[verifier::spinoff_prover]
#[verifier::rlimit(60)]
proof fn right_after_health(
    r: PreviewRun,
    s: PreviewSeen,
    t: PreviewTurn,
    event: PreviewEvent,
    suffix: Seq<char>,
    action: PreviewAction,
)
    requires
        steps(r, s, t, event, suffix, action),
        event is Health,
    ensures
        settled(r, noted(s, action, event), t.post),
        in_phase(r, noted(s, action, event), t.post, t.post_entry, t.action),
        starts_rightly(r, noted(s, action, event), t.action),
        serves_rightly(r, noted(s, action, event), t.action),
        clears_rightly(r, noted(s, action, event), t.action),
        tells_rightly(r, noted(s, action, event), t.post_entry, t.action),
{
    if let PreviewAction::Exec { command, .. } = t.action {
        let words = texts(command@);
        assert(words.len() == command@.len());
        if words.len() == 3 {
            assert(words[0] == command@[0]@ && words[1] == command@[1]@ && words[2] == command@[2]@);
        }
    }
}

#[verifier::spinoff_prover]
#[verifier::rlimit(60)]
proof fn right_after_executed(
    r: PreviewRun,
    s: PreviewSeen,
    t: PreviewTurn,
    event: PreviewEvent,
    suffix: Seq<char>,
    action: PreviewAction,
)
    requires
        steps(r, s, t, event, suffix, action),
        event is Executed,
    ensures
        settled(r, noted(s, action, event), t.post),
        in_phase(r, noted(s, action, event), t.post, t.post_entry, t.action),
        starts_rightly(r, noted(s, action, event), t.action),
        serves_rightly(r, noted(s, action, event), t.action),
        clears_rightly(r, noted(s, action, event), t.action),
        tells_rightly(r, noted(s, action, event), t.post_entry, t.action),
{
    if let PreviewAction::Exec { command, .. } = t.action {
        let words = texts(command@);
        assert(words.len() == command@.len());
        if words.len() == 3 {
            assert(words[0] == command@[0]@ && words[1] == command@[1]@ && words[2] == command@[2]@);
        }
    }
}

#[verifier::spinoff_prover]
#[verifier::rlimit(60)]
proof fn right_after_route(
    r: PreviewRun,
    s: PreviewSeen,
    t: PreviewTurn,
    event: PreviewEvent,
    suffix: Seq<char>,
    action: PreviewAction,
)
    requires
        steps(r, s, t, event, suffix, action),
        event is RouteSet,
    ensures
        settled(r, noted(s, action, event), t.post),
        in_phase(r, noted(s, action, event), t.post, t.post_entry, t.action),
        starts_rightly(r, noted(s, action, event), t.action),
        serves_rightly(r, noted(s, action, event), t.action),
        clears_rightly(r, noted(s, action, event), t.action),
        tells_rightly(r, noted(s, action, event), t.post_entry, t.action),
{
}

#[verifier::spinoff_prover]
#[verifier::rlimit(60)]
proof fn right_after_over(
    r: PreviewRun,
    s: PreviewSeen,
    t: PreviewTurn,
    event: PreviewEvent,
    suffix: Seq<char>,
    action: PreviewAction,
)
    requires
        steps(r, s, t, event, suffix, action),
        event is Over,
    ensures
        settled(r, noted(s, action, event), t.post),
        in_phase(r, noted(s, action, event), t.post, t.post_entry, t.action),
        starts_rightly(r, noted(s, action, event), t.action),
        serves_rightly(r, noted(s, action, event), t.action),
        clears_rightly(r, noted(s, action, event), t.action),
        tells_rightly(r, noted(s, action, event), t.post_entry, t.action),
{
    assert(t.pre.victims.len() == t.pre.victims@.len());
}

/// The machine of a run waits for the outcome that comes.
proof fn outcome_is_awaited(r: PreviewRun, i: int)
    requires
        r.valid(),
        0 <= i < r.turns.len(),
    ensures
        r.machine(i).awaits(r.events[i]),
        r.turns[i].post.wf(),
    decreases i,
{
    assert(r.goes_on(i));
    if i > 0 {
        outcome_is_awaited(r, i - 1);
        assert(r.goes_on(i - 1));
        orders_are_awaited(r.turns[i - 1], r.events[i - 1], r.suffixes[i - 1], r.events[i]);
    } else {
        beginning_is_awaited(
            r.ctx,
            r.server,
            r.config,
            r.storage_path,
            r.credentials,
            r.before,
            r.now,
            r.start,
            r.first,
            r.entry,
            r.events[0],
        );
    }
    orders_are_awaited(r.turns[i], r.events[i], r.suffixes[i], r.events[i]);
}

/// All is right throughout a run.
proof fn all_is_right(r: PreviewRun, i: int)
    requires
        r.valid(),
        0 <= i <= r.turns.len(),
    ensures
        settled(r, r.seen(i), r.machine(i)),
        in_phase(r, r.seen(i), r.machine(i), r.entry_at(i), r.action(i)),
        starts_rightly(r, r.seen(i), r.action(i)),
        serves_rightly(r, r.seen(i), r.action(i)),
        clears_rightly(r, r.seen(i), r.action(i)),
        tells_rightly(r, r.seen(i), r.entry_at(i), r.action(i)),
    decreases i,
{
    if i > 0 {
        all_is_right(r, i - 1);
        outcome_is_awaited(r, i - 1);
        assert(r.goes_on(i - 1));
        let (s, t, event, suffix, action) = (
            r.seen(i - 1),
            r.turns[i - 1],
            r.events[i - 1],
            r.suffixes[i - 1],
            r.action(i - 1),
        );
        match event {
            PreviewEvent::Pulled(_) => right_after_pulled(r, s, t, event, suffix, action),
            PreviewEvent::Config(_) => right_after_config(r, s, t, event, suffix, action),
            PreviewEvent::CpusCompared(_) => right_after_cpus(r, s, t, event, suffix, action),
            PreviewEvent::Previews(_) => right_after_previews(r, s, t, event, suffix, action),
            PreviewEvent::Extracted(_) => right_after_extracted(r, s, t, event, suffix, action),
            PreviewEvent::Written(_) => right_after_written(r, s, t, event, suffix, action),
            PreviewEvent::PodDeployed(_) => right_after_pod(r, s, t, event, suffix, action),
            PreviewEvent::Port(_) => right_after_port(r, s, t, event, suffix, action),
            PreviewEvent::Created(_) => right_after_created(r, s, t, event, suffix, action),
            PreviewEvent::Health(_) => right_after_health(r, s, t, event, suffix, action),
            PreviewEvent::Executed(_) => right_after_executed(r, s, t, event, suffix, action),
            PreviewEvent::RouteSet(_) => right_after_route(r, s, t, event, suffix, action),
            PreviewEvent::Over => right_after_over(r, s, t, event, suffix, action),
        }
    }
}

// ── What each outcome calls for ─────────────────────────────────────────────

/// Whether the deploy has ended with an error, and the preview counts as failed.
pub open spec fn is_failed(t: PreviewTurn) -> bool {
    &&& t.action matches PreviewAction::Finish(Err(_))
    &&& t.post_entry matches Some(e) ==> e.status == AppStatus::Failed
}

/// The limit on previews: the repository's, else the app's, else the server's.
pub open spec fn right_limit(r: PreviewRun, s: PreviewSeen) -> Option<u32> {
    if preview_of(s).max is Some {
        preview_of(s).max
    } else if r.config.preview is Some && r.config.preview->0.max is Some {
        r.config.preview->0.max
    } else if r.server is Some {
        r.server->0.max_per_app
    } else {
        None
    }
}

/// What comes once room is made: what ran for the preview before is removed, then
/// the new container or pod is started.
pub open spec fn replaces_rightly(r: PreviewRun, s: PreviewSeen, t: PreviewTurn) -> bool {
    if r.before is Some && r.before->0.container_id is Some {
        t.action is StopAndRemove
    } else {
        replaces_pod_rightly(r, s, t)
    }
}

/// What comes once the old container is removed.
pub open spec fn replaces_pod_rightly(r: PreviewRun, s: PreviewSeen, t: PreviewTurn) -> bool {
    if r.before is Some && r.before->0.pod_name is Some && r.before->0.manifest_path is Some {
        t.action is TeardownPod
    } else {
        begins_rightly(s, t)
    }
}

/// A container is started, or for a pod the manifest is fetched.
pub open spec fn begins_rightly(s: PreviewSeen, t: PreviewTurn) -> bool {
    if s.repo->0.app.kind@ != "pod"@ {
        t.action is CreateAndStart
    } else if s.repo->0.app.manifest is Some {
        t.action is ExtractFile
    } else {
        is_failed(t)
    }
}

/// Whether the preview's time to live cannot be told: it is longer than 64 bits of
/// milliseconds, or the server's default cannot be read.
pub open spec fn lacks_end(r: PreviewRun, s: PreviewSeen) -> bool {
    if preview_of(s).ttl is Some {
        preview_of(s).ttl->0.secs() >= 9_223_372_036_854_775
    } else {
        r.server is Some && r.server->0.default_ttl is Some && ttl_seconds(r.server->0.default_ttl->0@) is Err
    }
}

/// What comes once the limits are settled: the previews are listed if there is a
/// limit on them.
pub open spec fn settles_rightly(r: PreviewRun, s: PreviewSeen, t: PreviewTurn) -> bool {
    if lacks_end(r, s) && is_failed(t) {
        true
    } else if right_limit(r, s) is Some {
        t.action is ListPreviews
    } else {
        replaces_rightly(r, s, t)
    }
}

/// What comes once what was started answers: the hooks of a container, the
/// migration before the seeding, and then the route.
pub open spec fn prepares_rightly(s: PreviewSeen, t: PreviewTurn) -> bool {
    let due = (if migration(s) is Some {
        1int
    } else {
        0
    }) + (if seeding(s) is Some {
        1int
    } else {
        0
    });
    if s.created is Some && s.hooks < due {
        t.action is Exec
    } else {
        t.action is SetRoute
    }
}

/// What was started is removed, and the preview counts as failed.
pub open spec fn discards_rightly(s: PreviewSeen, t: PreviewTurn) -> bool {
    &&& if s.created is Some {
        t.action is StopAndRemove
    } else {
        t.action is TeardownPod
    }
    &&& t.post_entry matches Some(e) ==> e.status == AppStatus::Failed
}

/// Whether a manifest is rendered with what the deploy was begun with.
pub open spec fn renders_rightly(r: PreviewRun, c: RenderContext, suffix: Seq<char>) -> bool {
    &&& c.app_name@ == r.name()
    &&& c.tag@ == r.ctx.tag@
    &&& c.primary_image@ == r.config.app.image@
    &&& c.pod_suffix@ == suffix
    &&& texts(c.env_vars@) == env_texts(r.config.env@)
    &&& c.image_overrides@.len() == 0
    &&& c.volumes@.len() == 0
}

/// What each outcome calls for.
pub open spec fn reacts_rightly(
    r: PreviewRun,
    s: PreviewSeen,
    action: PreviewAction,
    event: PreviewEvent,
    suffix: Seq<char>,
    t: PreviewTurn,
) -> bool {
    let after = noted(s, action, event);
    match event {
        PreviewEvent::Pulled(result) => if result is Ok {
            t.action is ReadConfig
        } else {
            is_failed(t)
        },
        PreviewEvent::Config(ConfigOutcome::Parsed(repo)) => if repo.app.name@ != r.ctx.app_name@ || repo.preview is None
            || !repo.preview->0.enabled || merge_failure(r.config, repo) is Some {
            is_failed(t)
        } else if r.server is Some && r.server->0.max_cpus is Some {
            t.action is CompareCpus
        } else {
            settles_rightly(r, after, t)
        },
        PreviewEvent::Config(_) => is_failed(t),
        PreviewEvent::CpusCompared(_) => settles_rightly(r, after, t),
        PreviewEvent::Previews(list) => if right_limit(r, s) is Some && evicted(
            list@,
            r.ctx.app_name@,
            r.ctx.preview_id@,
            right_limit(r, s)->0,
        ).len() > 0 {
            t.action is TeardownPreview
        } else {
            replaces_rightly(r, after, t)
        },
        PreviewEvent::Created(result) => if result is Ok {
            t.action is CheckHealth
        } else {
            is_failed(t)
        },
        PreviewEvent::Extracted(Ok(Some(bytes))) => exists|c: RenderContext| #[trigger]
            renders_rightly(r, c, suffix) && match rendered(bytes@, c) {
                Ok(yaml) => t.action matches PreviewAction::WriteManifest { directory, path, text } && {
                    &&& text@ == yaml
                    &&& directory@ == joined(r.storage_path@, "manifests"@)
                    &&& path@ == joined(directory@, r.name() + "-"@ + r.ctx.deploy_id@ + ".yaml"@)
                },
                Err(_) => is_failed(t),
            },
        PreviewEvent::Extracted(_) => is_failed(t),
        PreviewEvent::Written(WriteOutcome::Written) => t.action is DeployPod,
        PreviewEvent::Written(_) => is_failed(t),
        PreviewEvent::PodDeployed(result) => if result is Ok {
            t.action is PodContainerPort
        } else {
            is_failed(t)
        },
        PreviewEvent::Port(result) => if result is Ok {
            t.action is CheckHealth
        } else {
            discards_rightly(s, t)
        },
        PreviewEvent::Health(result) => if result is Ok {
            prepares_rightly(after, t)
        } else {
            discards_rightly(s, t)
        },
        PreviewEvent::Executed(result) => if result is Ok {
            prepares_rightly(after, t)
        } else {
            discards_rightly(s, t)
        },
        PreviewEvent::RouteSet(result) => if result is Ok {
            t.action is SaveState
        } else {
            discards_rightly(s, t)
        },
        PreviewEvent::Over => {
            &&& action is SaveState ==> t.action == PreviewAction::Finish(Ok(()))
            &&& s.created is None && s.manifest is None ==> {
                &&& action is StopAndRemove ==> replaces_pod_rightly(r, s, t)
                &&& action is TeardownPod ==> t.action is RemoveRoute
                &&& action is RemoveRoute ==> begins_rightly(s, t)
            }
            &&& s.created is Some || s.manifest is Some ==> {
                &&& action is StopAndRemove ==> is_failed(t)
                &&& action is TeardownPod ==> is_failed(t)
            }
            &&& action is TeardownPreview ==> if after.gone < evicted(
                s.list,
                r.ctx.app_name@,
                r.ctx.preview_id@,
                right_limit(r, s)->0,
            ).len() {
                t.action is TeardownPreview
            } else {
                replaces_rightly(r, s, t)
            }
        },
    }
}

#[verifier::spinoff_prover]
#[verifier::rlimit(60)]
proof fn right_when_begun(
    r: PreviewRun,
    s: PreviewSeen,
    t: PreviewTurn,
    event: PreviewEvent,
    suffix: Seq<char>,
    action: PreviewAction,
)
    requires
        steps(r, s, t, event, suffix, action),
        event is Pulled || event is Config || event is CpusCompared || event is Previews,
    ensures
        reacts_rightly(r, s, action, event, suffix, t),
{
    assert(t.pre.victims.len() == t.pre.victims@.len());
    assert(texts(t.post.victims@).len() == t.post.victims@.len());
}

#[verifier::spinoff_prover]
#[verifier::rlimit(60)]
proof fn right_when_started(
    r: PreviewRun,
    s: PreviewSeen,
    t: PreviewTurn,
    event: PreviewEvent,
    suffix: Seq<char>,
    action: PreviewAction,
)
    requires
        steps(r, s, t, event, suffix, action),
        event is Created || event is Extracted || event is Written || event is PodDeployed || event is Port,
    ensures
        reacts_rightly(r, s, action, event, suffix, t),
{
    if let PreviewEvent::Extracted(Ok(Some(bytes))) = event {
        let c = choose|c: RenderContext| #[trigger]
            renders_with(c, t.pre, suffix) && match rendered(bytes@, c) {
                Ok(yaml) => t.action matches PreviewAction::WriteManifest { directory, path, text } && {
                    &&& text@ == yaml
                    &&& directory@ == joined(r.storage_path@, "manifests"@)
                    &&& path@ == joined(directory@, r.name() + "-"@ + r.ctx.deploy_id@ + ".yaml"@)
                },
                Err(_) => is_failed(t),
            };
        assert(renders_rightly(r, c, suffix));
    }
}

#[verifier::spinoff_prover]
#[verifier::rlimit(60)]
proof fn right_when_served(
    r: PreviewRun,
    s: PreviewSeen,
    t: PreviewTurn,
    event: PreviewEvent,
    suffix: Seq<char>,
    action: PreviewAction,
)
    requires
        steps(r, s, t, event, suffix, action),
        event is Health || event is Executed || event is RouteSet,
    ensures
        reacts_rightly(r, s, action, event, suffix, t),
{
    assert(t.pre.victims.len() == t.pre.victims@.len());
    assert(texts(t.post.victims@).len() == t.post.victims@.len());
}

#[verifier::spinoff_prover]
#[verifier::rlimit(60)]
proof fn right_when_cleared(
    r: PreviewRun,
    s: PreviewSeen,
    t: PreviewTurn,
    event: PreviewEvent,
    suffix: Seq<char>,
    action: PreviewAction,
)
    requires
        steps(r, s, t, event, suffix, action),
        event is Over,
    ensures
        reacts_rightly(r, s, action, event, suffix, t),
{
    assert(t.pre.victims.len() == t.pre.victims@.len());
    assert(texts(t.post.victims@).len() == t.post.victims@.len());
}

// ── Laws ────────────────────────────────────────────────────────────────────

/// Throughout the deploy of a preview, what is pulled, read and started is of the
/// image and the tag that the deploy was asked for, under the preview's own name
/// and within the limits.
pub proof fn a_preview_shows_its_own_build(r: PreviewRun, i: int)
    requires
        r.valid(),
        0 <= i <= r.turns.len(),
    ensures
        starts_rightly(r, r.seen(i), r.action(i)),
{
    all_is_right(r, i);
}

/// Throughout the deploy of a preview, hooks run in what was started once it is
/// healthy, and the route leads from the preview's domain to what was started, once
/// that is healthy and its hooks have run.
pub proof fn a_preview_serves_what_was_started(r: PreviewRun, i: int)
    requires
        r.valid(),
        0 <= i <= r.turns.len(),
    ensures
        serves_rightly(r, r.seen(i), r.action(i)),
{
    all_is_right(r, i);
}

/// Throughout the deploy of a preview, nothing is removed but what ran for it
/// before, what it has started itself, and other previews of the app that run.
pub proof fn a_preview_removes_nothing_else(r: PreviewRun, i: int)
    requires
        r.valid(),
        0 <= i <= r.turns.len(),
    ensures
        clears_rightly(r, r.seen(i), r.action(i)),
{
    all_is_right(r, i);
}

/// Throughout the deploy of a preview, its entry tells the build, the domain and
/// what runs for it, and once something runs also when it ends. It is kept, and
/// the deploy succeeds, only when what was started is healthy and routed.
pub proof fn a_preview_is_what_its_entry_says(r: PreviewRun, i: int)
    requires
        r.valid(),
        0 <= i <= r.turns.len(),
    ensures
        tells_rightly(r, r.seen(i), r.entry_at(i), r.action(i)),
{
    all_is_right(r, i);
}

/// Throughout the deploy of a preview, each outcome leads to what it calls for.
pub proof fn every_outcome_has_its_consequence(r: PreviewRun, i: int)
    requires
        r.valid(),
        0 <= i < r.turns.len(),
    ensures
        reacts_rightly(r, r.seen(i), r.action(i), r.events[i], r.suffixes[i], r.turns[i]),
{
    all_is_right(r, i);
    outcome_is_awaited(r, i);
    assert(r.goes_on(i));
    let (s, t, event, suffix, action) = (r.seen(i), r.turns[i], r.events[i], r.suffixes[i], r.action(i));
    if event is Over {
        right_when_cleared(r, s, t, event, suffix, action);
    } else if event is Health || event is Executed || event is RouteSet {
        right_when_served(r, s, t, event, suffix, action);
    } else if event is Pulled || event is Config || event is CpusCompared || event is Previews {
        right_when_begun(r, s, t, event, suffix, action);
    } else {
        right_when_started(r, s, t, event, suffix, action);
    }
}

} // verus!
