//! What holds of every deploy of a preview, whatever the outcomes.

use crate::config::{AppConfig, ServerPreviewConfig};
use crate::deploy::AppStatus;
use crate::preview::{PreviewDeployContext, PreviewState};
use crate::preview_rollout::{
    begins, follows, hook_of, repo_fits, PreviewAction, PreviewEvent, PreviewPhase, PreviewRollout, PreviewTurn,
};
use crate::registry::RegistryCredentials;
use crate::rollout::ConfigOutcome;
use crate::text::opt_text;
use crate::time::Timestamp;
use vstd::prelude::*;

verus! {

/// Whether an event is an outcome of an action.
pub open spec fn answers(action: PreviewAction, event: PreviewEvent) -> bool {
    match (action, event) {
        (PreviewAction::PullImage { .. }, PreviewEvent::Pulled(_)) => true,
        (PreviewAction::ReadConfig { .. }, PreviewEvent::Config(_)) => true,
        (PreviewAction::CompareCpus { .. }, PreviewEvent::CpusCompared(_)) => true,
        (PreviewAction::ListPreviews, PreviewEvent::Previews(_)) => true,
        (PreviewAction::TeardownPreview { .. }, PreviewEvent::Over) => true,
        (PreviewAction::StopAndRemove { .. }, PreviewEvent::Over) => true,
        (PreviewAction::TeardownPod { .. }, PreviewEvent::Over) => true,
        (PreviewAction::RemoveRoute { .. }, PreviewEvent::Over) => true,
        (PreviewAction::ExtractFile { .. }, PreviewEvent::Extracted(_)) => true,
        (PreviewAction::WriteManifest { .. }, PreviewEvent::Written(_)) => true,
        (PreviewAction::DeployPod { .. }, PreviewEvent::PodDeployed(_)) => true,
        (PreviewAction::PodContainerPort { .. }, PreviewEvent::Port(_)) => true,
        (PreviewAction::CreateAndStart(_), PreviewEvent::Created(_)) => true,
        (PreviewAction::CheckHealth { .. }, PreviewEvent::Health(_)) => true,
        (PreviewAction::Exec { .. }, PreviewEvent::Executed(_)) => true,
        (PreviewAction::SetRoute { .. }, PreviewEvent::RouteSet(_)) => true,
        (PreviewAction::SaveState { .. }, PreviewEvent::Over) => true,
        _ => false,
    }
}

/// Whether a configuration that comes in stays within what can be counted.
pub open spec fn countable(m: PreviewRollout, event: PreviewEvent) -> bool {
    event matches PreviewEvent::Config(ConfigOutcome::Parsed(repo)) ==> repo_fits(m, repo)
}

/// A machine that has begun waits for every outcome of its first action.
pub proof fn beginning_is_awaited(
    ctx: PreviewDeployContext,
    server: Option<ServerPreviewConfig>,
    config: AppConfig,
    storage_path: String,
    credentials: Option<RegistryCredentials>,
    before: Option<PreviewState>,
    now: Timestamp,
    m: PreviewRollout,
    action: PreviewAction,
    after: Option<PreviewState>,
    event: PreviewEvent,
)
    requires
        now.wf(),
        begins(ctx, server, config, storage_path, credentials, before, now, m, action, after),
        answers(action, event),
    ensures
        m.wf(),
        m.awaits(event),
{
}

/// The machine is never stuck: after a step it waits for every outcome of the
/// action it has ordered, as far as a configuration can be counted, until it
/// orders nothing more.
#[verifier::spinoff_prover]
#[verifier::rlimit(50)]
pub proof fn orders_are_awaited(t: PreviewTurn, event: PreviewEvent, suffix: Seq<char>, next: PreviewEvent)
    requires
        t.pre.awaits(event),
        follows(t, event, suffix),
    ensures
        t.post.wf(),
        t.action is Finish <==> t.post.phase is Done,
        answers(t.action, next) && countable(t.post, next) ==> t.post.awaits(next),
{
}

/// How far a phase is from the end.
pub open spec fn stage(p: PreviewPhase) -> nat {
    match p {
        PreviewPhase::Pull => 20,
        PreviewPhase::ReadConfig => 19,
        PreviewPhase::CompareCpus => 18,
        PreviewPhase::ListPreviews => 17,
        PreviewPhase::Evict(_) => 16,
        PreviewPhase::StopOld => 15,
        PreviewPhase::TeardownOld => 14,
        PreviewPhase::RemoveOldRoute => 13,
        PreviewPhase::Manifest => 12,
        PreviewPhase::Write => 11,
        PreviewPhase::DeployPod => 10,
        PreviewPhase::PodPort => 9,
        PreviewPhase::Create => 9,
        PreviewPhase::Health => 8,
        PreviewPhase::Migrate => 7,
        PreviewPhase::Seed => 6,
        PreviewPhase::Route => 5,
        PreviewPhase::Save => 4,
        PreviewPhase::CleanUp(_) => 3,
        PreviewPhase::Done => 0,
    }
}

/// How many victims are left.
pub open spec fn left(m: PreviewRollout) -> int {
    match m.phase {
        PreviewPhase::Evict(i) => m.victims@.len() - i,
        _ => 0,
    }
}

/// Every deploy of a preview ends: each step brings the machine closer to the
/// end, by its stage or, among the victims, by one of them.
#[verifier::spinoff_prover]
#[verifier::rlimit(50)]
pub proof fn every_step_is_progress(t: PreviewTurn, event: PreviewEvent, suffix: Seq<char>)
    requires
        t.pre.awaits(event),
        follows(t, event, suffix),
    ensures
        stage(t.post.phase) < stage(t.pre.phase) || (stage(t.post.phase) == stage(t.pre.phase) && 0 <= left(t.post)
            < left(t.pre)),
{
    assert(t.pre.victims.len() == t.pre.victims@.len());
    assert(t.post.victims.len() == t.post.victims@.len());
}

/// Whether the preview's entry says what the phase means: running when all is
/// done but for keeping it, failed while cleaning up.
pub open spec fn entry_right(m: PreviewRollout, entry: Option<PreviewState>) -> bool {
    entry matches Some(s) ==> {
        &&& m.phase is Save ==> s.status == AppStatus::Running
        &&& m.phase is CleanUp ==> s.status == AppStatus::Failed
    }
}

/// A deploy that succeeds leaves the preview running, and one that fails
/// leaves it failed, as long as nobody else changed the entry meanwhile.
pub proof fn the_end_shows_in_the_entry(t: PreviewTurn, event: PreviewEvent, suffix: Seq<char>)
    requires
        t.pre.awaits(event),
        entry_right(t.pre, t.pre_entry),
        follows(t, event, suffix),
    ensures
        entry_right(t.post, t.post_entry),
        t.action == PreviewAction::Finish(Ok(())) ==> (t.post_entry matches Some(s) ==> s.status
            == AppStatus::Running),
        t.action matches PreviewAction::Finish(Err(_)) ==> (t.post_entry matches Some(s) ==> s.status
            == AppStatus::Failed),
{
}

/// Hooks run before the route is set, the migration before the seeding: the
/// route is ordered only when no hook is left to run.
pub proof fn hooks_come_before_the_route(t: PreviewTurn, event: PreviewEvent, suffix: Seq<char>)
    requires
        t.pre.awaits(event),
        follows(t, event, suffix),
        t.action is SetRoute,
    ensures
        t.pre.phase is Seed || hook_of(t.pre, true) is None,
        t.pre.phase is Seed || t.pre.phase is Migrate || hook_of(t.pre, false) is None,
{
}

/// A hook that fails ends the deploy: the preview counts as failed, its
/// container is removed, and no other hook and no route is ordered.
pub proof fn a_failed_hook_ends_the_deploy(t: PreviewTurn, event: PreviewEvent, suffix: Seq<char>)
    requires
        t.pre.awaits(event),
        follows(t, event, suffix),
        event matches PreviewEvent::Executed(Err(_)),
    ensures
        t.post.phase matches PreviewPhase::CleanUp(e) && e is HookFailed,
        t.action matches PreviewAction::StopAndRemove { container } && Some(container@) == opt_text(
            t.pre.container_id,
        ),
        t.post_entry matches Some(s) ==> s.status == AppStatus::Failed,
{
}

/// What was deployed is not left behind: a deploy that fails once a container
/// runs or a pod is up orders its removal first.
pub proof fn nothing_is_left_behind(t: PreviewTurn, event: PreviewEvent, suffix: Seq<char>)
    requires
        t.pre.awaits(event),
        follows(t, event, suffix),
        t.pre.phase is Health || t.pre.phase is Migrate || t.pre.phase is Seed || t.pre.phase is Route || t.pre.phase
            is PodPort,
        t.pre.container_id is Some || t.pre.manifest_path is Some,
    ensures
        !(t.action matches PreviewAction::Finish(Err(_))),
{
}

} // verus!
