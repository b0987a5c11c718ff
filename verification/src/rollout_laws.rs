//! What holds of every deploy, whatever the outcomes.

use crate::config::AppConfig;
use crate::deploy::{AppRuntimeState, AppStatus, DeployContext, DeployStatus};
use crate::registry::ResolvedRegistry;
use crate::rollout::{begins, follows, times_out, Action, Event, Phase, Rollout, Step, Turn};
use crate::text::opt_text;
use crate::time::Duration;
use vstd::prelude::*;

verus! {

/// Whether an event is an outcome of an action.
pub open spec fn answers(action: Action, event: Event) -> bool {
    match (action, event) {
        (Action::PullImage { .. }, Event::Pulled(_)) => true,
        (Action::ReadConfig { .. }, Event::Config(_)) => true,
        (Action::ReadEnv { .. }, Event::Env { .. }) => true,
        (Action::CreateAndStart(_), Event::Created(_)) => true,
        (Action::ContainerIsRunning { .. }, Event::Running(_)) => true,
        (Action::CheckHealth { .. }, Event::Health(_)) => true,
        (Action::SetRoutes { .. }, Event::RoutesSet(_)) => true,
        (Action::RemoveRoute { .. }, Event::Over) => true,
        (Action::SaveState { .. }, Event::Over) => true,
        (Action::Proceed, Event::Over) => true,
        (Action::Drain { .. }, Event::Over) => true,
        (Action::StopAndRemove { .. }, Event::Over) => true,
        (Action::TeardownPod { .. }, Event::Over) => true,
        (Action::StopContainer { .. }, Event::Stopped(_)) => true,
        (Action::StartContainer { .. }, Event::Started(_)) => true,
        (Action::InspectPort { .. }, Event::Port(_)) => true,
        (Action::PodContainerPort { .. }, Event::Port(_)) => true,
        (Action::ExtractFile { .. }, Event::Extracted(_)) => true,
        (Action::WriteManifest { .. }, Event::Written(_)) => true,
        (Action::DeployPod { .. }, Event::PodDeployed(_)) => true,
        _ => false,
    }
}

/// A machine that has begun waits for every outcome of its first action.
pub proof fn beginning_is_awaited(
    ctx: DeployContext,
    config: AppConfig,
    registries: Vec<ResolvedRegistry>,
    storage_path: String,
    before: Option<AppRuntimeState>,
    m: Rollout,
    after: Option<AppRuntimeState>,
    step: Step,
    event: Event,
)
    requires
        begins(ctx, config, registries, storage_path, before, m, after, step),
        answers(step.action, event),
    ensures
        m.wf(),
        m.awaits(event),
{
}

/// The machine is never stuck: after a step it waits for every outcome of the
/// action it has ordered, until it orders nothing more.
#[verifier::spinoff_prover]
#[verifier::rlimit(50)]
pub proof fn orders_are_awaited(t: Turn, event: Event, suffix: Seq<char>, next: Event)
    requires
        t.pre.wf(),
        t.pre.awaits(event),
        follows(t, event, suffix),
    ensures
        t.post.wf(),
        t.step.action is Finish <==> t.post.phase is Done,
        answers(t.step.action, next) ==> t.post.awaits(next),
{
}

/// How far a phase is from the end.
pub open spec fn stage(p: Phase) -> nat {
    match p {
        Phase::PullMain => 31,
        Phase::PullSidecar(_) => 30,
        Phase::ReadConfig => 29,
        Phase::ReadEnv => 28,
        Phase::BlueCreate => 27,
        Phase::BlueWorkerRunning => 26,
        Phase::BlueHealth => 26,
        Phase::BlueRunning => 25,
        Phase::BlueRoutes => 24,
        Phase::BlueSave => 23,
        Phase::BlueDrain(_) => 22,
        Phase::BlueStopOld => 21,
        Phase::RecreateStop => 27,
        Phase::RecreateRemoveRoute => 26,
        Phase::RecreateCreate => 25,
        Phase::RecreateWorkerRunning { .. } => 24,
        Phase::RecreateHealth { .. } => 24,
        Phase::RecreateRunning { .. } => 23,
        Phase::RecreateRoutes { .. } => 22,
        Phase::RecreateSave => 21,
        Phase::RecreateRemoveOld => 20,
        Phase::RecreateDiscard => 19,
        Phase::RestartOld(_) => 18,
        Phase::RestartPort => 17,
        Phase::RestartRoutes => 16,
        Phase::FallbackCreate(_) => 15,
        Phase::FallbackHealth { .. } => 14,
        Phase::FallbackRoutes { .. } => 13,
        Phase::FallbackStop => 12,
        Phase::PodManifest => 27,
        Phase::PodUnnamed => 27,
        Phase::PodWrite => 26,
        Phase::PodDeploy => 25,
        Phase::PodBare => 24,
        Phase::PodWorker(_) => 24,
        Phase::PodPort(_) => 24,
        Phase::PodHealth { .. } => 24,
        Phase::PodRoutes => 23,
        Phase::PodSave => 22,
        Phase::PodDrain(_) => 21,
        Phase::PodStopOld => 20,
        Phase::PodDiscard(_) => 5,
        Phase::Discard(_) => 5,
        Phase::TimedOut => 4,
        Phase::Done => 0,
    }
}

/// How much is left within a phase that comes once for each item.
pub open spec fn left(m: Rollout) -> int {
    match m.phase {
        Phase::PullSidecar(i) => m.ctx.images@.len() - i,
        Phase::PodWorker(i) => 2 * (m.merged->0.routes@.len() - i),
        Phase::PodPort(i) => 2 * (m.merged->0.routes@.len() - i),
        Phase::PodHealth { route, .. } => 2 * (m.merged->0.routes@.len() - route) - 1,
        _ => 0,
    }
}

/// Every deploy ends: each step brings the machine closer to the end, by its
/// stage or, within a stage, by what is left of it.
#[verifier::spinoff_prover]
#[verifier::rlimit(50)]
pub proof fn every_step_is_progress(t: Turn, event: Event, suffix: Seq<char>)
    requires
        t.pre.wf(),
        t.pre.awaits(event),
        follows(t, event, suffix),
    ensures
        stage(t.post.phase) < stage(t.pre.phase) || (stage(t.post.phase) == stage(t.pre.phase) && 0 <= left(t.post)
            < left(t.pre)),
{
    assert(t.pre.ctx.images.len() == t.pre.ctx.images@.len());
    if t.pre.merged is Some {
        assert(t.pre.merged->0.routes.len() == t.pre.merged->0.routes@.len());
    }
}

/// Whether a deploy's record fits its phase: no error and no end while it is
/// under way, and an end with the right status afterwards.
pub open spec fn recorded_right(m: Rollout) -> bool {
    if m.phase is Done || m.phase is TimedOut {
        &&& m.ctx.finished_at is Some
        &&& (m.ctx.status == DeployStatus::Failed && m.ctx.error is Some) || (m.phase is Done && m.ctx.status
            == DeployStatus::Completed && m.ctx.error is None)
    } else {
        &&& !m.ctx.status.terminal()
        &&& m.ctx.finished_at is None
        &&& m.ctx.error is None
    }
}

/// A deploy that begins is recorded as under way.
pub proof fn beginning_is_recorded_right(
    ctx: DeployContext,
    config: AppConfig,
    registries: Vec<ResolvedRegistry>,
    storage_path: String,
    before: Option<AppRuntimeState>,
    m: Rollout,
    after: Option<AppRuntimeState>,
    step: Step,
)
    requires
        begins(ctx, config, registries, storage_path, before, m, after, step),
        ctx.finished_at is None,
        ctx.error is None,
    ensures
        recorded_right(m),
{
}

/// A deploy ends as completed without an error, or as failed with one, at a
/// known time, and that is recorded; until then it has neither.
#[verifier::spinoff_prover]
#[verifier::rlimit(50)]
pub proof fn every_end_is_recorded(t: Turn, event: Event, suffix: Seq<char>)
    requires
        t.pre.wf(),
        t.pre.awaits(event),
        recorded_right(t.pre),
        follows(t, event, suffix),
    ensures
        recorded_right(t.post),
        t.step.action is Finish ==> t.step.record && t.post.ctx.status.terminal(),
{
}

/// Every change of a deploy's status is recorded.
#[verifier::spinoff_prover]
#[verifier::rlimit(50)]
pub proof fn every_change_is_recorded(t: Turn, event: Event, suffix: Seq<char>)
    requires
        t.pre.wf(),
        t.pre.awaits(event),
        follows(t, event, suffix),
    ensures
        t.post.ctx.status != t.pre.ctx.status ==> t.step.record,
{
}

/// A timeout ends a deploy as failed as well.
pub proof fn timeout_is_recorded(t: Turn, limit: Duration)
    requires
        times_out(t, limit),
    ensures
        recorded_right(t.post),
        t.post.ctx.status == DeployStatus::Failed,
{
}

/// Whether a phase belongs to recreating a container or to its rollback.
pub open spec fn of_recreate(p: Phase) -> bool {
    match p {
        Phase::RecreateStop => true,
        Phase::RecreateRemoveRoute => true,
        Phase::RecreateCreate => true,
        Phase::RecreateWorkerRunning { .. } => true,
        Phase::RecreateHealth { .. } => true,
        Phase::RecreateRunning { .. } => true,
        Phase::RecreateRoutes { .. } => true,
        Phase::RecreateSave => true,
        Phase::RecreateRemoveOld => true,
        Phase::RecreateDiscard => true,
        Phase::RestartOld(_) => true,
        Phase::RestartPort => true,
        Phase::RestartRoutes => true,
        Phase::FallbackCreate(_) => true,
        Phase::FallbackHealth { .. } => true,
        Phase::FallbackRoutes { .. } => true,
        Phase::FallbackStop => true,
        _ => false,
    }
}

/// Blue-green never stops what runs before the new container is live. A step
/// outside the recreate strategy stops or tears down only the deploy's own new
/// container or pod, or the old one after it was drained.
pub proof fn blue_green_stops_the_old_last(t: Turn, event: Event, suffix: Seq<char>)
    requires
        t.pre.wf(),
        t.pre.awaits(event),
        follows(t, event, suffix),
        !of_recreate(t.post.phase),
        !of_recreate(t.pre.phase),
    ensures
        !(t.step.action is StopContainer),
        t.step.action matches Action::StopAndRemove { container } ==> t.pre.phase is BlueDrain || Some(container@)
            == opt_text(t.pre.ctx.new_container_id),
        t.step.action matches Action::TeardownPod { manifest } ==> t.pre.phase is PodDrain || manifest@
            == t.pre.manifest_path@,
{
}

/// Draining starts only after the new container or pod has gone live: before
/// it the app's entry was set to running with the new container or pod.
pub proof fn draining_follows_going_live(t: Turn, event: Event, suffix: Seq<char>)
    requires
        t.pre.wf(),
        t.pre.awaits(event),
        follows(t, event, suffix),
    ensures
        t.post.phase is BlueDrain ==> t.pre.phase is BlueSave,
        t.post.phase is PodDrain ==> t.pre.phase is PodSave,
        t.post.phase is BlueSave ==> t.post_app is Some && t.post_app->0.status == AppStatus::Running
            && t.post_app->0.current_container_id == t.post.ctx.new_container_id,
        t.post.phase is PodSave ==> t.post_app is Some && t.post_app->0.status == AppStatus::Running
            && opt_text(t.post_app->0.current_pod_name) == Some(t.post.pod_name@),
        t.post.phase is RecreateSave ==> t.post_app is Some && t.post_app->0.status == AppStatus::Running
            && t.post_app->0.current_container_id == t.post.ctx.new_container_id,
{
}

/// Recreating orders the new container only after the old one, if there is
/// one, was stopped and the route was taken away.
pub proof fn recreate_stops_the_old_first(t: Turn, event: Event, suffix: Seq<char>)
    requires
        t.pre.wf(),
        t.pre.awaits(event),
        follows(t, event, suffix),
    ensures
        t.post.phase is RecreateCreate ==> t.pre.phase is RecreateRemoveRoute,
        t.post.phase is RecreateRemoveRoute ==> t.pre.phase is RecreateStop || t.post.old_container is None,
{
}

/// A deploy that fails leaves the app's entry as it is, but for its status;
/// the one exception is a fallback that runs in place of the old container.
pub proof fn failing_keeps_what_runs(t: Turn, event: Event, suffix: Seq<char>)
    requires
        t.pre.wf(),
        t.pre.awaits(event),
        recorded_right(t.pre),
        follows(t, event, suffix),
        t.post.ctx.status == DeployStatus::Failed,
    ensures
        t.pre_app is Some <==> t.post_app is Some,
        t.post_app matches Some(a) ==> a.status == AppStatus::Failed,
        t.pre.phase is FallbackCreate || t.pre.phase is FallbackHealth || t.pre.phase is FallbackRoutes || (
        t.post_app matches Some(a) ==> a == AppRuntimeState { status: AppStatus::Failed, ..t.pre_app->0 }),
{
}

/// Rolling back is given up only when nothing is left to try: the old
/// container did not restart or there is none, and no tag to fall back to is
/// known or the fallback failed too.
pub proof fn rollback_tries_every_tier(t: Turn, event: Event, suffix: Seq<char>)
    requires
        t.pre.wf(),
        t.pre.awaits(event),
        follows(t, event, suffix),
        !t.pre.ctx.rollback_failed,
        t.post.ctx.rollback_failed,
    ensures
        t.post.ctx.status == DeployStatus::Failed,
        t.pre.phase is FallbackCreate || t.pre.phase is FallbackStop || t.pre.old_tag is None,
        t.pre.phase is FallbackCreate || t.pre.phase is FallbackStop || t.pre.phase is RestartOld
            || t.pre.old_container is None,
{
}

/// A timeout stops nothing but the deploy's own new container.
pub proof fn timeout_spares_the_old(t: Turn, limit: Duration)
    requires
        times_out(t, limit),
    ensures
        t.step.action is Finish || (t.step.action matches Action::StopAndRemove { container } && Some(container@)
            == opt_text(t.pre.ctx.new_container_id)),
        t.post_app matches Some(a) ==> a.current_container_id == t.pre_app->0.current_container_id,
{
}

/// A timeout leaves nothing behind: the new container, if there is one, is
/// removed, and once it is the app counts as failed; without one the deploy
/// ends at once.
pub proof fn a_timeout_leaves_nothing_behind(t: Turn, limit: Duration, next: Turn, suffix: Seq<char>)
    requires
        times_out(t, limit),
    ensures
        t.pre.ctx.new_container_id matches Some(id) ==> (t.step.action matches Action::StopAndRemove { container }
            && container@ == id@),
        t.pre.ctx.new_container_id is None ==> t.step.action is Finish && (t.post_app matches Some(a) ==> a.status
            == AppStatus::Failed),
        t.pre.ctx.new_container_id is Some && next.pre == t.post && follows(next, Event::Over, suffix) ==> {
            &&& next.step.action is Finish
            &&& next.step.record
            &&& next.post.ctx == t.post.ctx
            &&& next.post_app matches Some(a) ==> a.status == AppStatus::Failed && a.current_container_id
                == next.pre_app->0.current_container_id
        },
{
}

} // verus!
