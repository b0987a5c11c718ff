//! What a diff says of the two configurations it was made of.

use crate::config::{RepoConfig, RepoDeployConfig, RepoResourceConfig};
use crate::diff::{
    common_part, create_view, diff_between, diff_text, env_view, fields_read_back, hidden,
    no_operation_touches_what_is_unset, normalized, op_line, op_lines, op_views, removed_key, removed_lines,
    repo_fields, server_fields, str_of, update_view, volume_view, volumes_part, with_opt, AppResponse, ApplyDiff,
    OpView, Pushable, PushableVolume,
};
use crate::json::{is_distinct, json_seconds, json_text, json_unsigned, object_of, JsonView};
use crate::patch::{
    child, found, is_leaf, lies_in_difference, object_at, patches, path_text, what_differs_has_an_operation,
};
use crate::text::{join, opt_text, stands_in, starts_with};
use crate::time::Duration;
use vstd::prelude::*;

verus! {

/// Whether a diff is one that is computed of a repository's and a server's
/// configuration.
pub open spec fn is_diff(d: ApplyDiff, repo: RepoConfig, server: AppResponse) -> bool {
    exists|repo_p: Pushable, server_p: Pushable|
        repo_fields(repo_p, repo) && server_fields(server_p, server) && #[trigger] diff_between(
            d,
            repo,
            repo_p,
            server_p,
        )
}

/// The way to a field.
pub open spec fn outer(a: Seq<char>) -> Seq<Seq<char>> {
    seq![a]
}

/// The way to a field within another.
pub open spec fn inner(a: Seq<char>, b: Seq<char>) -> Seq<Seq<char>> {
    seq![a, b]
}

/// Whether an operation names the place at the end of steps.
pub open spec fn has_op(d: ApplyDiff, steps: Seq<Seq<char>>) -> bool {
    exists|i: int| 0 <= i < d.ops@.len() && (#[trigger] d.ops@[i])@.path() == path_text(steps)
}

/// Whether a part of a value is a text, or null without one.
pub open spec fn says_text(v: JsonView, steps: Seq<Seq<char>>, text: Option<String>) -> bool {
    found(v, steps) == Some(
        match text {
            Some(t) => JsonView::Str(t@),
            None => JsonView::Null,
        },
    )
}

/// Whether a part of a value is a whole number, or null without one.
pub open spec fn says_number(v: JsonView, steps: Seq<Seq<char>>, number: Option<u64>) -> bool {
    found(v, steps) == Some(
        match number {
            Some(n) => JsonView::Number(json_unsigned(n)),
            None => JsonView::Null,
        },
    )
}

/// Whether a part of a value is a span of time in seconds, or null without one.
pub open spec fn says_span(v: JsonView, steps: Seq<Seq<char>>, span: Option<Duration>) -> bool {
    found(v, steps) == Some(
        match span {
            Some(d) => JsonView::Number(json_seconds(d.secs(), d.nanos())),
            None => JsonView::Null,
        },
    )
}

/// What the repository says of resources.
pub open spec fn wanted_resources(repo: RepoConfig) -> RepoResourceConfig {
    match repo.defaults.resources {
        Some(x) => x,
        None => RepoResourceConfig { memory: None, cpus: None },
    }
}

/// What the repository says of the rollout.
pub open spec fn wanted_deploy(repo: RepoConfig) -> RepoDeployConfig {
    match repo.deploy {
        Some(x) => x,
        None => RepoDeployConfig { strategy: None, drain_timeout: None, timeout: None },
    }
}

/// A value, if there is something to hold it against.
pub open spec fn beside<A, B>(theirs: Option<A>, ours: Option<B>) -> Option<B> {
    if theirs is Some {
        ours
    } else {
        None
    }
}

/// A port as a whole number.
pub open spec fn wide(port: Option<u16>) -> Option<u64> {
    match port {
        Some(p) => Some(p as u64),
        None => None,
    }
}

/// A count as a whole number.
pub open spec fn wide_count(n: Option<u32>) -> Option<u64> {
    match n {
        Some(p) => Some(p as u64),
        None => None,
    }
}

/// Whether a value is what the repository wants.
pub open spec fn says_repo(v: JsonView, repo: RepoConfig) -> bool {
    &&& says_text(v, outer("image"@), repo.app.image)
    &&& says_text(v, outer("domain"@), repo.routing.domain)
    &&& says_number(v, outer("port"@), wide(repo.routing.port))
    &&& says_text(v, inner("health"@, "path"@), repo.health.path)
    &&& says_span(v, inner("health"@, "interval_secs"@), repo.health.interval)
    &&& says_span(v, inner("health"@, "timeout_secs"@), repo.health.timeout)
    &&& says_number(v, inner("health"@, "retries"@), wide_count(repo.health.retries))
    &&& says_span(v, inner("health"@, "start_period_secs"@), repo.health.start_period)
    &&& says_text(v, inner("resources"@, "memory"@), wanted_resources(repo).memory)
    &&& says_text(v, inner("resources"@, "cpus"@), wanted_resources(repo).cpus)
    &&& says_text(v, inner("deploy"@, "strategy"@), wanted_deploy(repo).strategy)
    &&& says_span(v, inner("deploy"@, "drain_timeout_secs"@), wanted_deploy(repo).drain_timeout)
    &&& says_span(v, inner("deploy"@, "timeout_secs"@), wanted_deploy(repo).timeout)
    &&& says_env(v, repo.env@)
    &&& found(v, outer("volumes"@)) matches Some(JsonView::Array(a)) && {
        &&& a.len() == repo.volumes@.len()
        &&& forall|i: int|
            0 <= i < a.len() ==> says_volume(#[trigger] a[i], repo.volumes@[i].mount_path@, repo.volumes@[i].read_only)
    }
}

/// Whether a value is what the server has of that which the repository sets.
pub open spec fn says_server(v: JsonView, repo: RepoConfig, server: AppResponse) -> bool {
    &&& says_text(v, outer("image"@), beside(repo.app.image, Some(server.image)))
    &&& says_text(v, outer("domain"@), beside(repo.routing.domain, server_domain(server)))
    &&& says_number(v, outer("port"@), wide(beside(repo.routing.port, server_port(server))))
    &&& says_text(v, inner("health"@, "path"@), beside(repo.health.path, server.health.path))
    &&& says_span(v, inner("health"@, "interval_secs"@), beside(repo.health.interval, Some(server.health.interval)))
    &&& says_span(v, inner("health"@, "timeout_secs"@), beside(repo.health.timeout, Some(server.health.timeout)))
    &&& says_number(
        v,
        inner("health"@, "retries"@),
        wide_count(beside(repo.health.retries, Some(server.health.retries))),
    )
    &&& says_span(
        v,
        inner("health"@, "start_period_secs"@),
        beside(repo.health.start_period, Some(server.health.start_period)),
    )
    &&& says_text(v, inner("resources"@, "memory"@), beside(wanted_resources(repo).memory, server.resources.memory))
    &&& says_text(v, inner("resources"@, "cpus"@), beside(wanted_resources(repo).cpus, server.resources.cpus))
    &&& says_text(v, inner("deploy"@, "strategy"@), beside(wanted_deploy(repo).strategy, Some(server.deploy.strategy)))
    &&& says_span(
        v,
        inner("deploy"@, "drain_timeout_secs"@),
        beside(wanted_deploy(repo).drain_timeout, Some(server.deploy.drain_timeout)),
    )
    &&& says_span(v, inner("deploy"@, "timeout_secs"@), beside(wanted_deploy(repo).timeout, server.deploy.timeout))
    &&& says_env(v, server.env@)
    &&& found(v, outer("volumes"@)) matches Some(JsonView::Array(a)) && {
        &&& a.len() == server.volumes@.len()
        &&& forall|i: int|
            0 <= i < a.len() ==> says_volume(
                #[trigger] a[i],
                server.volumes@[i].mount_path@,
                server.volumes@[i].read_only,
            )
    }
}

/// The server's domain; an empty one counts as none.
pub open spec fn server_domain(server: AppResponse) -> Option<String> {
    if server.domain@.len() == 0 {
        None
    } else {
        Some(server.domain)
    }
}

/// The server's port; 0 counts as none.
pub open spec fn server_port(server: AppResponse) -> Option<u16> {
    if server.port == 0 {
        None
    } else {
        Some(server.port)
    }
}

/// Whether a value is a volume.
pub open spec fn says_volume(v: JsonView, mount_path: Seq<char>, read_only: bool) -> bool {
    v matches JsonView::Object(m) && {
        &&& m.contains_key("mount_path"@) && m["mount_path"@] == JsonView::Str(mount_path)
        &&& m.contains_key("read_only"@) && m["read_only"@] == JsonView::Bool(read_only)
    }
}

/// The value of a variable: what is listed for it last.
pub open spec fn variable(env: Seq<(String, String)>, key: Seq<char>) -> Option<Seq<char>>
    decreases env.len(),
{
    if env.len() == 0 {
        None
    } else if env.last().0@ == key {
        Some(env.last().1@)
    } else {
        variable(env.drop_last(), key)
    }
}

/// Whether a value holds variables under `env`, and no others.
pub open spec fn says_env(v: JsonView, env: Seq<(String, String)>) -> bool {
    &&& found(v, outer("env"@)) matches Some(JsonView::Object(_))
    &&& forall|key: Seq<char>|
        found(v, #[trigger] inner("env"@, key)) == (match variable(env, key) {
            Some(text) => Some(JsonView::Str(text)),
            None => None,
        })
}

// ── Reading the fields ──────────────────────────────────────────────────────

proof fn at_one(v: JsonView, a: Seq<char>)
    requires
        v is Object,
    ensures
        found(v, outer(a)) == (if v->Object_0.contains_key(a) {
            Some(v->Object_0[a])
        } else {
            None
        }),
        object_at(v, outer(a).take(0)),
{
    assert(outer(a).skip(1) =~= seq![]);
    assert(outer(a).take(0) =~= seq![]);
    if v->Object_0.contains_key(a) {
        assert(found(v->Object_0[a], outer(a).skip(1)) == Some(v->Object_0[a]));
    }
}

proof fn at_two(v: JsonView, a: Seq<char>, b: Seq<char>)
    requires
        v is Object && v->Object_0.contains_key(a) && v->Object_0[a] is Object,
    ensures
        found(v, inner(a, b)) == (if v->Object_0[a]->Object_0.contains_key(b) {
            Some(v->Object_0[a]->Object_0[b])
        } else {
            None
        }),
        object_at(v, inner(a, b).take(0)),
        object_at(v, inner(a, b).take(1)),
{
    at_one(v, a);
    at_one(v->Object_0[a], b);
    assert(inner(a, b).skip(1) =~= outer(b));
    assert(inner(a, b).take(0) =~= seq![]);
    assert(inner(a, b).take(1) =~= outer(a));
}

proof fn object_reads(env: Seq<(String, String)>, key: Seq<char>)
    ensures
        ({
            let m = object_of(env.map_values(|p: (String, String)| (p.0@, JsonView::Str(p.1@))));
            &&& m.contains_key(key) <==> variable(env, key) is Some
            &&& m.contains_key(key) ==> m[key] == JsonView::Str(variable(env, key)->0)
        }),
    decreases env.len(),
{
    let all = env.map_values(|p: (String, String)| (p.0@, JsonView::Str(p.1@)));
    if env.len() > 0 {
        object_reads(env.drop_last(), key);
        assert(all.drop_last() =~= env.drop_last().map_values(|p: (String, String)| (p.0@, JsonView::Str(p.1@))));
        assert(all.last() == (env.last().0@, JsonView::Str(env.last().1@)));
    }
}

proof fn env_reads(v: JsonView, p: Pushable)
    requires
        v == p@,
    ensures
        says_env(v, p.env@),
{
    fields_read_back(p);
    at_one(v, "env"@);
    assert forall|key: Seq<char>|
        found(v, #[trigger] inner("env"@, key)) == (match variable(p.env@, key) {
            Some(text) => Some(JsonView::Str(text)),
            None => None,
        }) by {
        at_two(v, "env"@, key);
        object_reads(p.env@, key);
    }
}

proof fn volumes_read(v: JsonView, p: Pushable)
    requires
        v == p@,
    ensures
        found(v, outer("volumes"@)) matches Some(JsonView::Array(a)) && a.len() == p.volumes@.len() && forall|i: int|
            0 <= i < a.len() ==> says_volume(#[trigger] a[i], p.volumes@[i].mount_path@, p.volumes@[i].read_only),
{
    fields_read_back(p);
    at_one(v, "volumes"@);
    reveal_strlit("mount_path");
    reveal_strlit("read_only");
    assert("mount_path"@.len() == 10 && "read_only"@.len() == 9);
    let a = p.volumes@.map_values(|v: PushableVolume| volume_view(v.mount_path@, v.read_only));
    assert forall|i: int| 0 <= i < a.len() implies says_volume(
        #[trigger] a[i],
        p.volumes@[i].mount_path@,
        p.volumes@[i].read_only,
    ) by {
        assert(a[i] == volume_view(p.volumes@[i].mount_path@, p.volumes@[i].read_only));
    }
}

/// The places of all fields.
proof fn places(p: Pushable)
    ensures
        p@ is Object,
        found(p@, outer("image"@)) == Some(p@->Object_0["image"@]),
        found(p@, outer("domain"@)) == Some(p@->Object_0["domain"@]),
        found(p@, outer("port"@)) == Some(p@->Object_0["port"@]),
        found(p@, inner("health"@, "path"@)) == Some(p@->Object_0["health"@]->Object_0["path"@]),
        found(p@, inner("health"@, "interval_secs"@)) == Some(p@->Object_0["health"@]->Object_0["interval_secs"@]),
        found(p@, inner("health"@, "timeout_secs"@)) == Some(p@->Object_0["health"@]->Object_0["timeout_secs"@]),
        found(p@, inner("health"@, "retries"@)) == Some(p@->Object_0["health"@]->Object_0["retries"@]),
        found(p@, inner("health"@, "start_period_secs"@)) == Some(
            p@->Object_0["health"@]->Object_0["start_period_secs"@],
        ),
        found(p@, inner("resources"@, "memory"@)) == Some(p@->Object_0["resources"@]->Object_0["memory"@]),
        found(p@, inner("resources"@, "cpus"@)) == Some(p@->Object_0["resources"@]->Object_0["cpus"@]),
        found(p@, inner("deploy"@, "strategy"@)) == Some(p@->Object_0["deploy"@]->Object_0["strategy"@]),
        found(p@, inner("deploy"@, "drain_timeout_secs"@)) == Some(
            p@->Object_0["deploy"@]->Object_0["drain_timeout_secs"@],
        ),
        found(p@, inner("deploy"@, "timeout_secs"@)) == Some(p@->Object_0["deploy"@]->Object_0["timeout_secs"@]),
        forall|a: Seq<char>| object_at(p@, #[trigger] outer(a).take(0)),
        forall|b: Seq<char>|
            #![trigger inner("health"@, b)]
            object_at(p@, inner("health"@, b).take(0)) && object_at(p@, inner("health"@, b).take(1)),
        forall|b: Seq<char>|
            #![trigger inner("resources"@, b)]
            object_at(p@, inner("resources"@, b).take(0)) && object_at(p@, inner("resources"@, b).take(1)),
        forall|b: Seq<char>|
            #![trigger inner("deploy"@, b)]
            object_at(p@, inner("deploy"@, b).take(0)) && object_at(p@, inner("deploy"@, b).take(1)),
        forall|b: Seq<char>|
            #![trigger inner("env"@, b)]
            object_at(p@, inner("env"@, b).take(0)) && object_at(p@, inner("env"@, b).take(1)),
{
    fields_read_back(p);
    at_one(p@, "image"@);
    at_one(p@, "domain"@);
    at_one(p@, "port"@);
    at_two(p@, "health"@, "path"@);
    at_two(p@, "health"@, "interval_secs"@);
    at_two(p@, "health"@, "timeout_secs"@);
    at_two(p@, "health"@, "retries"@);
    at_two(p@, "health"@, "start_period_secs"@);
    at_two(p@, "resources"@, "memory"@);
    at_two(p@, "resources"@, "cpus"@);
    at_two(p@, "deploy"@, "strategy"@);
    at_two(p@, "deploy"@, "drain_timeout_secs"@);
    at_two(p@, "deploy"@, "timeout_secs"@);
    assert forall|a: Seq<char>| object_at(p@, #[trigger] outer(a).take(0)) by {
        at_one(p@, a);
    }
    assert forall|b: Seq<char>|
        #![trigger inner("health"@, b)]
        object_at(p@, inner("health"@, b).take(0)) && object_at(p@, inner("health"@, b).take(1)) by {
        at_two(p@, "health"@, b);
    }
    assert forall|b: Seq<char>|
        #![trigger inner("resources"@, b)]
        object_at(p@, inner("resources"@, b).take(0)) && object_at(p@, inner("resources"@, b).take(1)) by {
        at_two(p@, "resources"@, b);
    }
    assert forall|b: Seq<char>|
        #![trigger inner("deploy"@, b)]
        object_at(p@, inner("deploy"@, b).take(0)) && object_at(p@, inner("deploy"@, b).take(1)) by {
        at_two(p@, "deploy"@, b);
    }
    assert forall|b: Seq<char>|
        #![trigger inner("env"@, b)]
        object_at(p@, inner("env"@, b).take(0)) && object_at(p@, inner("env"@, b).take(1)) by {
        at_two(p@, "env"@, b);
    }
}

proof fn repo_is_said(repo: RepoConfig, p: Pushable)
    requires
        repo_fields(p, repo),
    ensures
        says_repo(p@, repo),
{
    fields_read_back(p);
    places(p);
    env_reads(p@, p);
    volumes_read(p@, p);
}

proof fn server_is_said(repo: RepoConfig, server: AppResponse, repo_p: Pushable, server_p: Pushable)
    requires
        repo_fields(repo_p, repo),
        server_fields(server_p, server),
    ensures
        says_server(normalized(repo_p, server_p)@, repo, server),
{
    let p = normalized(repo_p, server_p);
    fields_read_back(p);
    places(p);
    env_reads(p@, p);
    volumes_read(p@, p);
}

// ── Laws ────────────────────────────────────────────────────────────────────

/// The operations of a diff turn what the server has, of all that the repository
/// sets, into what the repository wants; there are none exactly if these are the
/// same, and each lies where they differ.
pub proof fn operations_bring_what_the_repository_wants(d: ApplyDiff, repo: RepoConfig, server: AppResponse) -> (r: (
    JsonView,
    JsonView,
))
    requires
        is_diff(d, repo, server),
    ensures
        says_server(r.0, repo, server),
        says_repo(r.1, repo),
        patches(r.0, op_views(d.ops@), r.1),
        d.changed <==> r.0 != r.1,
        d.app == repo.app.name,
        d.changed <==> d.ops@.len() > 0,
        forall|i: int| 0 <= i < d.ops@.len() ==> lies_in_difference(r.0, r.1, (#[trigger] d.ops@[i])@),
{
    let (repo_p, server_p) = choose|repo_p: Pushable, server_p: Pushable|
        repo_fields(repo_p, repo) && server_fields(server_p, server) && #[trigger] diff_between(
            d,
            repo,
            repo_p,
            server_p,
        );
    repo_is_said(repo, repo_p);
    server_is_said(repo, server, repo_p, server_p);
    (normalized(repo_p, server_p)@, repo_p@)
}

/// What is to be known of a field that differs, to have an operation for it.
proof fn op_for(l: JsonView, r: JsonView, d: ApplyDiff, steps: Seq<Seq<char>>)
    requires
        patches(l, op_views(d.ops@), r),
        forall|i: int| 0 <= i < d.ops@.len() ==> lies_in_difference(l, r, (#[trigger] d.ops@[i])@),
        found(l, steps) != found(r, steps),
        is_leaf(found(l, steps)),
        is_leaf(found(r, steps)),
        forall|m: int| 0 <= m < steps.len() ==> object_at(l, #[trigger] steps.take(m)) && object_at(r, steps.take(m)),
    ensures
        has_op(d, steps),
{
    let ops = op_views(d.ops@);
    assert forall|i: int| 0 <= i < ops.len() implies lies_in_difference(l, r, #[trigger] ops[i]) by {
        assert(ops[i] == d.ops@[i]@);
    }
    what_differs_has_an_operation(l, r, ops, steps);
    let i = choose|i: int| 0 <= i < ops.len() && (#[trigger] ops[i]).path() == path_text(steps);
    assert(d.ops@[i]@.path() == path_text(steps));
}

proof fn op_for_outer(l: Pushable, r: Pushable, d: ApplyDiff, a: Seq<char>)
    requires
        patches(l@, op_views(d.ops@), r@),
        forall|i: int| 0 <= i < d.ops@.len() ==> lies_in_difference(l@, r@, (#[trigger] d.ops@[i])@),
        found(l@, outer(a)) != found(r@, outer(a)),
        is_leaf(found(l@, outer(a))),
        is_leaf(found(r@, outer(a))),
    ensures
        has_op(d, outer(a)),
{
    places(l);
    places(r);
    let steps = outer(a);
    assert forall|m: int| 0 <= m < steps.len() implies object_at(l@, #[trigger] steps.take(m)) && object_at(
        r@,
        steps.take(m),
    ) by {
        assert(m == 0);
    }
    op_for(l@, r@, d, steps);
}

proof fn op_for_inner(l: Pushable, r: Pushable, d: ApplyDiff, a: Seq<char>, b: Seq<char>)
    requires
        a == "health"@ || a == "resources"@ || a == "deploy"@ || a == "env"@,
        patches(l@, op_views(d.ops@), r@),
        forall|i: int| 0 <= i < d.ops@.len() ==> lies_in_difference(l@, r@, (#[trigger] d.ops@[i])@),
        found(l@, inner(a, b)) != found(r@, inner(a, b)),
        is_leaf(found(l@, inner(a, b))),
        is_leaf(found(r@, inner(a, b))),
    ensures
        has_op(d, inner(a, b)),
{
    places(l);
    places(r);
    let steps = inner(a, b);
    assert forall|m: int| 0 <= m < steps.len() implies object_at(l@, #[trigger] steps.take(m)) && object_at(
        r@,
        steps.take(m),
    ) by {
        assert(m == 0 || m == 1);
    }
    op_for(l@, r@, d, steps);
}

/// Whether a text that the repository sets is another one on the server, or none.
pub open spec fn text_differs(repo: Option<String>, server: Option<String>) -> bool {
    repo is Some && opt_text(repo) != opt_text(server)
}

/// Whether a span of time that the repository sets is none on the server, or
/// another one, of those that JSON numbers tell apart.
pub open spec fn span_differs(repo: Option<Duration>, server: Option<Duration>) -> bool {
    &&& repo is Some
    &&& server matches Some(b) ==> is_distinct(repo->0) && is_distinct(b) && (repo->0.secs() != b.secs()
        || repo->0.nanos() != b.nanos())
}

/// Every setting of the repository that the server has otherwise, or has not, is a
/// change, with an operation at its very place.
pub proof fn a_setting_that_differs_has_an_operation(d: ApplyDiff, repo: RepoConfig, server: AppResponse)
    requires
        is_diff(d, repo, server),
    ensures
        text_differs(repo.app.image, Some(server.image)) ==> d.changed && has_op(d, outer("image"@)),
        text_differs(repo.routing.domain, server_domain(server)) ==> d.changed && has_op(d, outer("domain"@)),
        repo.routing.port is Some && repo.routing.port != server_port(server) ==> d.changed && has_op(
            d,
            outer("port"@),
        ),
        text_differs(repo.health.path, server.health.path) ==> d.changed && has_op(d, inner("health"@, "path"@)),
        span_differs(repo.health.interval, Some(server.health.interval)) ==> d.changed && has_op(
            d,
            inner("health"@, "interval_secs"@),
        ),
        span_differs(repo.health.timeout, Some(server.health.timeout)) ==> d.changed && has_op(
            d,
            inner("health"@, "timeout_secs"@),
        ),
        repo.health.retries is Some && repo.health.retries != Some(server.health.retries) ==> d.changed && has_op(
            d,
            inner("health"@, "retries"@),
        ),
        span_differs(repo.health.start_period, Some(server.health.start_period)) ==> d.changed && has_op(
            d,
            inner("health"@, "start_period_secs"@),
        ),
        text_differs(wanted_resources(repo).memory, server.resources.memory) ==> d.changed && has_op(
            d,
            inner("resources"@, "memory"@),
        ),
        text_differs(wanted_resources(repo).cpus, server.resources.cpus) ==> d.changed && has_op(
            d,
            inner("resources"@, "cpus"@),
        ),
        text_differs(wanted_deploy(repo).strategy, Some(server.deploy.strategy)) ==> d.changed && has_op(
            d,
            inner("deploy"@, "strategy"@),
        ),
        span_differs(wanted_deploy(repo).drain_timeout, Some(server.deploy.drain_timeout)) ==> d.changed && has_op(
            d,
            inner("deploy"@, "drain_timeout_secs"@),
        ),
        span_differs(wanted_deploy(repo).timeout, server.deploy.timeout) ==> d.changed && has_op(
            d,
            inner("deploy"@, "timeout_secs"@),
        ),
        forall|key: Seq<char>| #[trigger]
            variable(repo.env@, key) != variable(server.env@, key) ==> d.changed && has_op(d, inner("env"@, key)),
        repo.volumes@.len() != server.volumes@.len() ==> d.changed,
        forall|i: int|
            0 <= i < repo.volumes@.len() && i < server.volumes@.len() && ((#[trigger] repo.volumes@[i]).mount_path@
                != server.volumes@[i].mount_path@ || repo.volumes@[i].read_only != server.volumes@[i].read_only)
                ==> d.changed,
{
    let (repo_p, server_p) = choose|repo_p: Pushable, server_p: Pushable|
        repo_fields(repo_p, repo) && server_fields(server_p, server) && #[trigger] diff_between(
            d,
            repo,
            repo_p,
            server_p,
        );
    let n = normalized(repo_p, server_p);
    repo_is_said(repo, repo_p);
    server_is_said(repo, server, repo_p, server_p);
    if text_differs(repo.app.image, Some(server.image)) {
        op_for_outer(n, repo_p, d, "image"@);
    }
    if text_differs(repo.routing.domain, server_domain(server)) {
        op_for_outer(n, repo_p, d, "domain"@);
    }
    if repo.routing.port is Some && repo.routing.port != server_port(server) {
        op_for_outer(n, repo_p, d, "port"@);
    }
    if text_differs(repo.health.path, server.health.path) {
        op_for_inner(n, repo_p, d, "health"@, "path"@);
    }
    if span_differs(repo.health.interval, Some(server.health.interval)) {
        op_for_inner(n, repo_p, d, "health"@, "interval_secs"@);
    }
    if span_differs(repo.health.timeout, Some(server.health.timeout)) {
        op_for_inner(n, repo_p, d, "health"@, "timeout_secs"@);
    }
    if repo.health.retries is Some && repo.health.retries != Some(server.health.retries) {
        op_for_inner(n, repo_p, d, "health"@, "retries"@);
    }
    if span_differs(repo.health.start_period, Some(server.health.start_period)) {
        op_for_inner(n, repo_p, d, "health"@, "start_period_secs"@);
    }
    if text_differs(wanted_resources(repo).memory, server.resources.memory) {
        op_for_inner(n, repo_p, d, "resources"@, "memory"@);
    }
    if text_differs(wanted_resources(repo).cpus, server.resources.cpus) {
        op_for_inner(n, repo_p, d, "resources"@, "cpus"@);
    }
    if text_differs(wanted_deploy(repo).strategy, Some(server.deploy.strategy)) {
        op_for_inner(n, repo_p, d, "deploy"@, "strategy"@);
    }
    if span_differs(wanted_deploy(repo).drain_timeout, Some(server.deploy.drain_timeout)) {
        op_for_inner(n, repo_p, d, "deploy"@, "drain_timeout_secs"@);
    }
    if span_differs(wanted_deploy(repo).timeout, server.deploy.timeout) {
        op_for_inner(n, repo_p, d, "deploy"@, "timeout_secs"@);
    }
    assert forall|key: Seq<char>| #[trigger]
        variable(repo.env@, key) != variable(server.env@, key) implies d.changed && has_op(d, inner("env"@, key)) by {
        assert(found(n@, inner("env"@, key)) != found(repo_p@, inner("env"@, key)));
        op_for_inner(n, repo_p, d, "env"@, key);
    }
    assert forall|i: int|
        0 <= i < repo.volumes@.len() && i < server.volumes@.len() && ((#[trigger] repo.volumes@[i]).mount_path@
            != server.volumes@[i].mount_path@ || repo.volumes@[i].read_only != server.volumes@[i].read_only) implies d.changed by {
        let a = found(n@, outer("volumes"@))->0->Array_0;
        let b = found(repo_p@, outer("volumes"@))->0->Array_0;
        if repo.volumes@.len() == server.volumes@.len() {
            assert(says_volume(a[i], server.volumes@[i].mount_path@, server.volumes@[i].read_only));
            assert(says_volume(b[i], repo.volumes@[i].mount_path@, repo.volumes@[i].read_only));
        }
    }
}

/// What the repository leaves open is left to the server: no operation names it.
pub proof fn what_is_left_open_has_no_operation(d: ApplyDiff, repo: RepoConfig, server: AppResponse, i: int)
    requires
        is_diff(d, repo, server),
        0 <= i < d.ops@.len(),
    ensures
        wanted_resources(repo).memory is None ==> d.ops@[i]@.path() != path_text(inner("resources"@, "memory"@)),
        wanted_resources(repo).cpus is None ==> d.ops@[i]@.path() != path_text(inner("resources"@, "cpus"@)),
        repo.app.image is None ==> d.ops@[i]@.path() != path_text(outer("image"@)),
        repo.routing.domain is None ==> d.ops@[i]@.path() != path_text(outer("domain"@)),
        repo.routing.port is None ==> d.ops@[i]@.path() != path_text(outer("port"@)),
        repo.health.path is None ==> d.ops@[i]@.path() != path_text(inner("health"@, "path"@)),
        repo.health.retries is None ==> d.ops@[i]@.path() != path_text(inner("health"@, "retries"@)),
        repo.health.interval is None ==> d.ops@[i]@.path() != path_text(inner("health"@, "interval_secs"@)),
        repo.health.timeout is None ==> d.ops@[i]@.path() != path_text(inner("health"@, "timeout_secs"@)),
        repo.health.start_period is None ==> d.ops@[i]@.path() != path_text(inner("health"@, "start_period_secs"@)),
        wanted_deploy(repo).strategy is None ==> d.ops@[i]@.path() != path_text(inner("deploy"@, "strategy"@)),
        wanted_deploy(repo).drain_timeout is None ==> d.ops@[i]@.path() != path_text(
            inner("deploy"@, "drain_timeout_secs"@),
        ),
        wanted_deploy(repo).timeout is None ==> d.ops@[i]@.path() != path_text(inner("deploy"@, "timeout_secs"@)),
{
    let (repo_p, server_p) = choose|repo_p: Pushable, server_p: Pushable|
        repo_fields(repo_p, repo) && server_fields(server_p, server) && #[trigger] diff_between(
            d,
            repo,
            repo_p,
            server_p,
        );
    no_operation_touches_what_is_unset(d, repo, repo_p, server_p, i);
}

// ── Requests ────────────────────────────────────────────────────────────────

/// Whether a part of a value is a text if there is one, and is missing else.
pub open spec fn carries_text(v: JsonView, steps: Seq<Seq<char>>, text: Option<String>) -> bool {
    found(v, steps) == (match text {
        Some(t) => Some(JsonView::Str(t@)),
        None => None,
    })
}

/// Whether a part of a value is a whole number if there is one, and is missing else.
pub open spec fn carries_number(v: JsonView, steps: Seq<Seq<char>>, number: Option<u64>) -> bool {
    found(v, steps) == (match number {
        Some(n) => Some(JsonView::Number(json_unsigned(n))),
        None => None,
    })
}

/// Whether a part of a value is a span of time in seconds if there is one, and is
/// missing else.
pub open spec fn carries_span(v: JsonView, steps: Seq<Seq<char>>, span: Option<Duration>) -> bool {
    found(v, steps) == (match span {
        Some(d) => Some(JsonView::Number(json_seconds(d.secs(), d.nanos()))),
        None => None,
    })
}

/// Whether a request carries what the repository sets of port, health, resources and
/// rollout, and nothing of what it leaves open.
pub open spec fn carries_settings(v: JsonView, repo: RepoConfig) -> bool {
    &&& carries_number(v, outer("port"@), wide(repo.routing.port))
    &&& carries_text(v, inner("health"@, "path"@), repo.health.path)
    &&& carries_span(v, inner("health"@, "interval"@), repo.health.interval)
    &&& carries_span(v, inner("health"@, "timeout"@), repo.health.timeout)
    &&& carries_number(v, inner("health"@, "retries"@), wide_count(repo.health.retries))
    &&& carries_span(v, inner("health"@, "start_period"@), repo.health.start_period)
    &&& carries_text(v, inner("resources"@, "memory"@), wanted_resources(repo).memory)
    &&& carries_text(v, inner("resources"@, "cpus"@), wanted_resources(repo).cpus)
    &&& carries_text(v, inner("deploy"@, "strategy"@), wanted_deploy(repo).strategy)
    &&& carries_span(v, inner("deploy"@, "drain_timeout"@), wanted_deploy(repo).drain_timeout)
    &&& carries_span(v, inner("deploy"@, "timeout"@), wanted_deploy(repo).timeout)
}

/// Whether a request carries the repository's volumes.
pub open spec fn carries_volumes(v: JsonView, repo: RepoConfig) -> bool {
    found(v, outer("volumes"@)) matches Some(JsonView::Array(a)) && {
        &&& a.len() == repo.volumes@.len()
        &&& forall|i: int|
            0 <= i < a.len() ==> says_volume(#[trigger] a[i], repo.volumes@[i].mount_path@, repo.volumes@[i].read_only)
    }
}

proof fn at_path(v: JsonView, a: Seq<char>, b: Seq<char>)
    ensures
        found(v, outer(a)) == child(v, a),
        found(v, inner(a, b)) == (match child(v, a) {
            Some(c) => child(c, b),
            None => None,
        }),
{
    assert(outer(a).skip(1) =~= seq![]);
    assert(outer(b).skip(1) =~= seq![]);
    assert(inner(a, b).skip(1) =~= outer(b));
    if child(v, a) is Some {
        let c = child(v, a)->0;
        assert(found(c, seq![]) == Some(c));
        assert(found(c, outer(b)) == (match child(c, b) {
            Some(d) => found(d, outer(b).skip(1)),
            None => None,
        }));
        if child(c, b) is Some {
            assert(found(child(c, b)->0, seq![]) == child(c, b));
        }
    }
}

proof fn request_words()
    ensures
        "port"@.len() == 4,
        "health"@.len() == 6,
        "resources"@.len() == 9,
        "deploy"@.len() == 6,
        "health"@[0] == 'h',
        "deploy"@[0] == 'd',
        "domain"@[0] == 'd',
        "domain"@[1] == 'o',
        "deploy"@[1] == 'e',
        "domain"@.len() == 6,
        "image"@.len() == 5,
        "name"@.len() == 4,
        "name"@[0] == 'n',
        "port"@[0] == 'p',
        "env"@.len() == 3,
        "volumes"@.len() == 7,
        "path"@.len() == 4,
        "interval"@.len() == 8,
        "timeout"@.len() == 7,
        "retries"@.len() == 7,
        "timeout"@[0] == 't',
        "retries"@[0] == 'r',
        "start_period"@.len() == 12,
        "memory"@.len() == 6,
        "cpus"@.len() == 4,
        "strategy"@.len() == 8,
        "drain_timeout"@.len() == 13,
{
    reveal_strlit("port");
    reveal_strlit("health");
    reveal_strlit("resources");
    reveal_strlit("deploy");
    reveal_strlit("domain");
    reveal_strlit("image");
    reveal_strlit("name");
    reveal_strlit("env");
    reveal_strlit("volumes");
    reveal_strlit("path");
    reveal_strlit("interval");
    reveal_strlit("timeout");
    reveal_strlit("retries");
    reveal_strlit("start_period");
    reveal_strlit("memory");
    reveal_strlit("cpus");
    reveal_strlit("strategy");
    reveal_strlit("drain_timeout");
}

/// What a request carries of the parts that both requests have, as long as nothing
/// else is put in their place.
proof fn settings_are_carried(m: Map<Seq<char>, JsonView>, v: JsonView, repo: RepoConfig)
    requires
        !m.contains_key("port"@) && !m.contains_key("health"@) && !m.contains_key("resources"@) && !m.contains_key(
            "deploy"@,
        ),
        v is Object,
        child(v, "port"@) == child(JsonView::Object(common_part(m, repo)), "port"@),
        child(v, "health"@) == child(JsonView::Object(common_part(m, repo)), "health"@),
        child(v, "resources"@) == child(JsonView::Object(common_part(m, repo)), "resources"@),
        child(v, "deploy"@) == child(JsonView::Object(common_part(m, repo)), "deploy"@),
    ensures
        carries_settings(v, repo),
{
    request_words();
    at_path(v, "port"@, seq![]);
    at_path(v, "health"@, "path"@);
    at_path(v, "health"@, "interval"@);
    at_path(v, "health"@, "timeout"@);
    at_path(v, "health"@, "retries"@);
    at_path(v, "health"@, "start_period"@);
    at_path(v, "resources"@, "memory"@);
    at_path(v, "resources"@, "cpus"@);
    at_path(v, "deploy"@, "strategy"@);
    at_path(v, "deploy"@, "drain_timeout"@);
    at_path(v, "deploy"@, "timeout"@);
}

proof fn request_env(v: JsonView, repo: RepoConfig)
    requires
        v is Object,
        child(v, "env"@) == Some(env_view(repo.env@)),
    ensures
        says_env(v, repo.env@),
{
    at_path(v, "env"@, seq![]);
    assert forall|key: Seq<char>|
        found(v, #[trigger] inner("env"@, key)) == (match variable(repo.env@, key) {
            Some(text) => Some(JsonView::Str(text)),
            None => None,
        }) by {
        at_path(v, "env"@, key);
        object_reads(repo.env@, key);
    }
}

proof fn request_volumes(v: JsonView, repo: RepoConfig)
    requires
        v is Object,
        child(v, "volumes"@) == Some(volumes_part(repo.volumes@)),
    ensures
        carries_volumes(v, repo),
{
    at_path(v, "volumes"@, seq![]);
    reveal_strlit("mount_path");
    reveal_strlit("read_only");
    assert("mount_path"@.len() == 10 && "read_only"@.len() == 9);
    let a = volumes_part(repo.volumes@)->Array_0;
    assert forall|i: int| 0 <= i < a.len() implies says_volume(
        #[trigger] a[i],
        repo.volumes@[i].mount_path@,
        repo.volumes@[i].read_only,
    ) by {
        assert(a[i] == volume_view(repo.volumes@[i].mount_path@, repo.volumes@[i].read_only));
    }
}

/// The request that updates an app carries every setting of the repository, and
/// nothing of what it leaves open; variables and volumes are always there, all of
/// them.
pub proof fn an_update_carries_every_setting(repo: RepoConfig)
    ensures
        carries_text(update_view(repo), outer("image"@), repo.app.image),
        carries_text(update_view(repo), outer("domain"@), repo.routing.domain),
        carries_settings(update_view(repo), repo),
        says_env(update_view(repo), repo.env@),
        carries_volumes(update_view(repo), repo),
{
    request_words();
    let v = update_view(repo);
    at_path(v, "image"@, seq![]);
    at_path(v, "domain"@, seq![]);
    let m = with_opt(
        with_opt(Map::empty(), "image"@, str_of(repo.app.image)),
        "domain"@,
        str_of(repo.routing.domain),
    );
    settings_are_carried(m, v, repo);
    request_env(v, repo);
    request_volumes(v, repo);
}

/// The request that creates an app carries its name, image and domain, every setting
/// of the repository, and its variables and volumes if it has any.
pub proof fn a_creation_carries_every_setting(repo: RepoConfig, image: Seq<char>, domain: Seq<char>)
    ensures
        found(create_view(repo, image, domain), outer("name"@)) == Some(JsonView::Str(repo.app.name@)),
        found(create_view(repo, image, domain), outer("image"@)) == Some(JsonView::Str(image)),
        found(create_view(repo, image, domain), outer("domain"@)) == Some(JsonView::Str(domain)),
        carries_settings(create_view(repo, image, domain), repo),
        repo.env@.len() > 0 ==> says_env(create_view(repo, image, domain), repo.env@),
        repo.volumes@.len() > 0 ==> carries_volumes(create_view(repo, image, domain), repo),
{
    request_words();
    let v = create_view(repo, image, domain);
    at_path(v, "name"@, seq![]);
    at_path(v, "image"@, seq![]);
    at_path(v, "domain"@, seq![]);
    let m = Map::empty().insert("name"@, JsonView::Str(repo.app.name@)).insert("image"@, JsonView::Str(image)).insert(
        "domain"@,
        JsonView::Str(domain),
    );
    settings_are_carried(m, v, repo);
    if repo.env@.len() > 0 {
        request_env(v, repo);
    }
    if repo.volumes@.len() > 0 {
        request_volumes(v, repo);
    }
}

// ── What is shown ───────────────────────────────────────────────────────────

/// The value of a variable is never shown, and any other value is: paths that
/// only begin like the environment's are not taken for it.
pub proof fn only_variables_are_hidden(key: Seq<char>, value: JsonView, path: Seq<char>)
    requires
        path.len() >= 4 && path.take(4) == "/env"@ ==> path.len() > 4 && path[4] != '/',
    ensures
        hidden(OpView::Add { path: "/env/"@ + key, value }) == (OpView::Add {
            path: "/env/"@ + key,
            value: JsonView::Str("(redacted)"@),
        }),
        hidden(OpView::Replace { path: "/env/"@ + key, value }) == (OpView::Replace {
            path: "/env/"@ + key,
            value: JsonView::Str("(redacted)"@),
        }),
        hidden(OpView::Add { path: "/env"@, value }) == (OpView::Add {
            path: "/env"@,
            value: JsonView::Str("(redacted)"@),
        }),
        hidden(OpView::Replace { path: "/env"@, value }) == (OpView::Replace {
            path: "/env"@,
            value: JsonView::Str("(redacted)"@),
        }),
        hidden(OpView::Add { path, value }) == (OpView::Add { path, value }),
        hidden(OpView::Replace { path, value }) == (OpView::Replace { path, value }),
{
    reveal_strlit("/env/");
    reveal_strlit("/env");
    let own = "/env/"@ + key;
    assert(own.subrange(0, 5) =~= "/env/"@);
    if starts_with(path, "/env/"@) {
        assert(path.subrange(0, 5) == "/env/"@);
        assert(path.subrange(0, 5)[4] == '/');
        assert(path[4] == '/');
        assert(path.take(4) =~= "/env/"@.take(4));
        assert("/env/"@.take(4) =~= "/env"@);
    }
    if path == "/env"@ {
        assert(path.take(4) =~= "/env"@);
    }
}

proof fn lines_go_on(ops: Seq<OpView>, i: int)
    requires
        0 <= i < ops.len(),
    ensures
        op_line(ops[i]) matches Some(l) ==> op_lines(ops).contains(l),
        removed_key(ops[i]) matches Some(k) ==> removed_lines(ops).contains("  - "@ + k),
    decreases ops.len(),
{
    let init = ops.drop_last();
    if i == ops.len() - 1 {
        assert(ops[i] == ops.last());
        if op_line(ops[i]) is Some {
            assert(op_lines(ops)[op_lines(init).len() as int] == op_line(ops[i])->0);
        }
        if removed_key(ops[i]) is Some {
            assert(removed_lines(ops)[removed_lines(init).len() as int] == "  - "@ + removed_key(ops[i])->0);
        }
    } else {
        assert(init[i] == ops[i]);
        lines_go_on(init, i);
        if op_line(ops[i]) is Some {
            let l = op_line(ops[i])->0;
            let k = choose|k: int| 0 <= k < op_lines(init).len() && op_lines(init)[k] == l;
            assert(op_lines(ops)[k] == l);
        }
        if removed_key(ops[i]) is Some {
            let l = "  - "@ + removed_key(ops[i])->0;
            let k = choose|k: int| 0 <= k < removed_lines(init).len() && removed_lines(init)[k] == l;
            assert(removed_lines(ops)[k] == l);
        }
    }
}

/// Every operation of a diff is among its lines: what is set with its place and
/// its value, what goes away with its place, and a variable that goes away by
/// its name.
pub proof fn every_operation_is_shown(ops: Seq<OpView>, i: int, path: Seq<char>, value: JsonView, key: Seq<char>)
    requires
        0 <= i < ops.len(),
    ensures
        ops[i] == (OpView::Add { path, value }) ==> op_lines(ops).contains("+ "@ + path + " = "@ + json_text(value)),
        ops[i] == (OpView::Replace { path, value }) ==> op_lines(ops).contains(
            "~ "@ + path + " = "@ + json_text(value),
        ),
        ops[i] == (OpView::Remove { path }) && !starts_with(path, "/env/"@) ==> op_lines(ops).contains("- "@ + path),
        ops[i] == (OpView::Remove { path: "/env/"@ + key }) ==> removed_lines(ops).contains("  - "@ + key),
{
    lines_go_on(ops, i);
    reveal_strlit("/env/");
    let own = "/env/"@ + key;
    assert(own.subrange(0, 5) =~= "/env/"@);
    assert(own.skip(5) =~= key);
}

proof fn a_line_is_in_its_text(parts: Seq<Seq<char>>, sep: Seq<char>, i: int)
    requires
        0 <= i < parts.len(),
    ensures
        exists|front: Seq<char>, back: Seq<char>| #[trigger] stands_in(join(parts, sep), front, parts[i], back),
    decreases parts.len(),
{
    let none: Seq<char> = seq![];
    if parts.len() == 1 {
        assert(join(parts, sep) =~= none + parts[i] + none);
        assert(stands_in(join(parts, sep), none, parts[i], none));
    } else {
        let init = parts.drop_last();
        if i == parts.len() - 1 {
            let front = join(init, sep) + sep;
            assert(join(parts, sep) =~= front + parts[i] + none);
            assert(stands_in(join(parts, sep), front, parts[i], none));
        } else {
            assert(init[i] == parts[i]);
            a_line_is_in_its_text(init, sep, i);
            let (front, back) = choose|front: Seq<char>, back: Seq<char>| #[trigger]
                stands_in(join(init, sep), front, init[i], back);
            let more = back + sep + parts.last();
            assert(join(parts, sep) =~= front + parts[i] + more);
            assert(stands_in(join(parts, sep), front, parts[i], more));
        }
    }
}

/// The text of a diff with changes holds every line of it, and those of the
/// variables that go away; without changes it says that there are none.
pub proof fn every_line_is_in_the_text(ops: Seq<OpView>, line: Seq<char>)
    requires
        op_lines(ops).contains(line) || removed_lines(ops).contains(line),
    ensures
        exists|front: Seq<char>, back: Seq<char>| #[trigger] stands_in(diff_text(true, ops), front, line, back),
        diff_text(false, ops) == "no changes \u{2014} up to date"@,
{
    let shown = op_lines(ops);
    let gone = removed_lines(ops);
    let parts = if gone.len() == 0 {
        shown
    } else {
        shown.push(seq![]).push("will remove env vars (not in slip.toml):"@) + gone
    };
    assert(diff_text(true, ops) == join(parts, "\n"@));
    let at: int = if shown.contains(line) {
        choose|k: int| 0 <= k < shown.len() && shown[k] == line
    } else {
        shown.len() as int + 2 + choose|k: int| 0 <= k < gone.len() && gone[k] == line
    };
    assert(0 <= at < parts.len() && parts[at] == line);
    a_line_is_in_its_text(parts, "\n"@, at);
    let (front, back) = choose|front: Seq<char>, back: Seq<char>| #[trigger]
        stands_in(join(parts, "\n"@), front, parts[at], back);
    assert(stands_in(diff_text(true, ops), front, line, back));
}

} // verus!
