//! Combining what a repository declares with what the server has set.
//!
//! The server wins wherever it says something; the repository fills the gaps.

use crate::config::{
    route_entry_view, AppConfig, Duplicate, HealthConfig, PreviewConfig, RepoConfig,
    RepoRouteEntry, RepoRouteView, RepoVolume, ResourceConfig, RouteEntry, VolumeConfig,
};
use crate::error::ConfigError;
use crate::text::{decimal, decimal_text, opt_text, same};
use vstd::prelude::*;
use vstd::string::*;

verus! {

/// A route with everything settled.
#[derive(Debug)]
pub struct MergedRoute {
    /// The public hostname, from the server.
    pub hostname: String,
    /// The port, from the repository, else from the server.
    pub port: u16,
    /// The container the route leads to, from the repository.
    pub container: Option<String>,
    /// `http` or `worker`.
    pub kind: String,
}

/// A settled route as a mathematical value.
pub ghost struct MergedRouteView {
    pub hostname: Seq<char>,
    pub port: u16,
    pub container: Option<Seq<char>>,
    pub kind: Seq<char>,
}

impl View for MergedRoute {
    type V = MergedRouteView;

    open spec fn view(&self) -> MergedRouteView {
        MergedRouteView {
            hostname: self.hostname@,
            port: self.port,
            container: opt_text(self.container),
            kind: self.kind@,
        }
    }
}

/// A volume with everything settled.
#[derive(Debug)]
pub struct MergedVolume {
    /// The directory on the host, from the server.
    pub host_path: String,
    /// The directory inside the container.
    pub mount_path: String,
    pub read_only: bool,
}

/// A settled volume as a mathematical value.
pub ghost struct MergedVolumeView {
    pub host_path: Seq<char>,
    pub mount_path: Seq<char>,
    pub read_only: bool,
}

impl View for MergedVolume {
    type V = MergedVolumeView;

    open spec fn view(&self) -> MergedVolumeView {
        MergedVolumeView {
            host_path: self.host_path@,
            mount_path: self.mount_path@,
            read_only: self.read_only,
        }
    }
}

impl Duplicate for MergedVolume {
    open spec fn alike(&self, other: &Self) -> bool {
        *self == *other
    }

    fn duplicate(&self) -> (r: Self) {
        MergedVolume {
            host_path: self.host_path.clone(),
            mount_path: self.mount_path.clone(),
            read_only: self.read_only,
        }
    }
}

/// Server and repository configuration combined.
#[derive(Debug)]
pub struct MergedConfig {
    pub app: AppConfig,
    /// `container`, `pod` or `worker`.
    pub kind: String,
    /// Where the image holds the pod manifest.
    pub manifest: Option<String>,
    pub health_container: Option<String>,
    pub routing_container: Option<String>,
    pub routes: Vec<MergedRoute>,
    pub preview: Option<PreviewConfig>,
    pub volumes: Vec<MergedVolume>,
}

/// What the routes of a list hold.
pub open spec fn route_views(v: Seq<MergedRoute>) -> Seq<MergedRouteView> {
    v.map_values(|r: MergedRoute| r@)
}

/// What the volumes of a list hold.
pub open spec fn volume_views(v: Seq<MergedVolume>) -> Seq<MergedVolumeView> {
    v.map_values(|r: MergedVolume| r@)
}

/// The first of two that is set.
pub open spec fn or_else(first: Option<String>, second: Option<String>) -> Option<String> {
    if first is Some {
        first
    } else {
        second
    }
}

/// The server's configuration with the repository's health path and resource
/// defaults in the places the server left open.
pub open spec fn overlaid(server: AppConfig, repo: RepoConfig) -> AppConfig {
    AppConfig {
        health: HealthConfig { path: or_else(server.health.path, repo.health.path), ..server.health },
        resources: match repo.defaults.resources {
            Some(d) => ResourceConfig {
                memory: or_else(server.resources.memory, d.memory),
                cpus: or_else(server.resources.cpus, d.cpus),
            },
            None => server.resources,
        },
        ..server
    }
}

/// The server's volume for a mount path: the last one listed.
pub open spec fn server_volume(server: Seq<VolumeConfig>, path: Seq<char>) -> Option<VolumeConfig>
    decreases server.len(),
{
    if server.len() == 0 {
        None
    } else if server.last().mount_path@ == path {
        Some(server.last())
    } else {
        server_volume(server.drop_last(), path)
    }
}

/// The repository's volumes with their host paths, in order; or the first
/// mount path that the server knows no host path for.
pub open spec fn declared_volumes(server: Seq<VolumeConfig>, repo: Seq<RepoVolume>) -> Result<
    Seq<MergedVolumeView>,
    Seq<char>,
>
    decreases repo.len(),
{
    if repo.len() == 0 {
        Ok(seq![])
    } else {
        match declared_volumes(server, repo.drop_last()) {
            Err(path) => Err(path),
            Ok(done) => match server_volume(server, repo.last().mount_path@) {
                None => Err(repo.last().mount_path@),
                Some(v) => Ok(
                    done.push(
                        MergedVolumeView {
                            host_path: v.host_path@,
                            mount_path: repo.last().mount_path@,
                            read_only: v.read_only || repo.last().read_only,
                        },
                    ),
                ),
            },
        }
    }
}

/// Whether the repository declares a mount path.
pub open spec fn declares(repo: Seq<RepoVolume>, path: Seq<char>) -> bool {
    exists|i: int| 0 <= i < repo.len() && (#[trigger] repo[i]).mount_path@ == path
}

/// The server's volumes that the repository does not declare, in order.
pub open spec fn undeclared_volumes(server: Seq<VolumeConfig>, repo: Seq<RepoVolume>) -> Seq<MergedVolumeView>
    decreases server.len(),
{
    if server.len() == 0 {
        seq![]
    } else {
        let done = undeclared_volumes(server.drop_last(), repo);
        let v = server.last();
        if declares(repo, v.mount_path@) {
            done
        } else {
            done.push(
                MergedVolumeView {
                    host_path: v.host_path@,
                    mount_path: v.mount_path@,
                    read_only: v.read_only,
                },
            )
        }
    }
}

/// One route of the server alone.
pub open spec fn server_route(sr: (Seq<char>, Option<u16>)) -> MergedRouteView {
    MergedRouteView {
        hostname: sr.0,
        port: match sr.1 {
            Some(p) => p,
            None => 0,
        },
        container: None,
        kind: "http"@,
    }
}

/// One route of the server with its counterpart from the repository.
pub open spec fn paired_route(sr: (Seq<char>, Option<u16>), rr: RepoRouteView) -> MergedRouteView {
    MergedRouteView {
        hostname: sr.0,
        port: match (rr.port, sr.1) {
            (Some(p), _) => p,
            (None, Some(p)) => p,
            (None, None) => 0,
        },
        container: rr.container,
        kind: rr.kind,
    }
}

/// The settled routes, or the message of what does not fit.
pub open spec fn merged_routes(
    server: Seq<(Seq<char>, Option<u16>)>,
    repo: Seq<RepoRouteView>,
) -> Result<Seq<MergedRouteView>, Seq<char>> {
    if repo.len() == 0 {
        Ok(server.map_values(|sr: (Seq<char>, Option<u16>)| server_route(sr)))
    } else if server.len() == 0 {
        Err("repo declares "@ + decimal(repo.len()) + " route(s) but server config has no hostnames"@)
    } else if server.len() != repo.len() {
        Err(
            "route count mismatch: server has "@ + decimal(server.len()) + " route(s), repo has "@
                + decimal(repo.len()) + " route(s)"@,
        )
    } else {
        Ok(Seq::new(server.len(), |i: int| paired_route(server[i], repo[i])))
    }
}

fn find_server_volume<'a>(server: &'a Vec<VolumeConfig>, path: &str) -> (r: Option<&'a VolumeConfig>)
    ensures
        server_volume(server@, path@) == (match r {
            Some(v) => Some(*v),
            None => None,
        }),
{
    let mut i: usize = server.len();
    assert(server@.take(i as int) =~= server@);
    while i > 0
        invariant
            i <= server@.len(),
            server_volume(server@, path@) == server_volume(server@.take(i as int), path@),
        decreases i,
    {
        let v = &server[i - 1];
        assert(server@.take(i as int).last() == *v);
        if same(v.mount_path.as_str(), path) {
            return Some(v);
        }
        assert(server@.take(i as int).drop_last() =~= server@.take(i - 1));
        i = i - 1;
    }
    None
}

fn declares_mount(repo: &Vec<RepoVolume>, path: &str) -> (r: bool)
    ensures
        r == declares(repo@, path@),
{
    let mut i: usize = 0;
    while i < repo.len()
        invariant
            i <= repo@.len(),
            forall|k: int| 0 <= k < i ==> (#[trigger] repo@[k]).mount_path@ != path@,
        decreases repo@.len() - i,
    {
        if same(repo[i].mount_path.as_str(), path) {
            return true;
        }
        i = i + 1;
    }
    false
}

proof fn declared_error_stays(server: Seq<VolumeConfig>, repo: Seq<RepoVolume>, n: int)
    requires
        0 <= n <= repo.len(),
        declared_volumes(server, repo.take(n)) is Err,
    ensures
        declared_volumes(server, repo) == declared_volumes(server, repo.take(n)),
    decreases repo.len() - n,
{
    if n < repo.len() {
        assert(repo.take(n + 1).drop_last() =~= repo.take(n));
        declared_error_stays(server, repo, n + 1);
    } else {
        assert(repo.take(n) =~= repo);
    }
}

fn merge_volumes(server: &Vec<VolumeConfig>, repo: &Vec<RepoVolume>) -> (r: Result<Vec<MergedVolume>, String>)
    ensures
        match r {
            Ok(v) => declared_volumes(server@, repo@) is Ok && volume_views(v@) == declared_volumes(
                server@,
                repo@,
            )->Ok_0 + undeclared_volumes(server@, repo@),
            Err(path) => declared_volumes(server@, repo@) == Err::<Seq<MergedVolumeView>, Seq<char>>(path@),
        },
{
    let mut out: Vec<MergedVolume> = Vec::new();
    let mut i: usize = 0;
    assert(volume_views(out@) =~= seq![]);
    while i < repo.len()
        invariant
            i <= repo@.len(),
            declared_volumes(server@, repo@.take(i as int)) == Ok::<Seq<MergedVolumeView>, Seq<char>>(
                volume_views(out@),
            ),
        decreases repo@.len() - i,
    {
        let rv = &repo[i];
        assert(repo@.take(i + 1).drop_last() =~= repo@.take(i as int));
        assert(repo@.take(i + 1).last() == *rv);
        match find_server_volume(server, rv.mount_path.as_str()) {
            Some(sv) => {
                let ghost before = volume_views(out@);
                let m = MergedVolume {
                    host_path: sv.host_path.clone(),
                    mount_path: rv.mount_path.clone(),
                    read_only: sv.read_only || rv.read_only,
                };
                out.push(m);
                assert(volume_views(out@) =~= before.push(m@));
            },
            None => {
                proof {
                    declared_error_stays(server@, repo@, i + 1);
                }
                return Err(rv.mount_path.clone());
            },
        }
        i = i + 1;
    }
    assert(repo@.take(repo@.len() as int) =~= repo@);
    let ghost declared = volume_views(out@);
    let mut j: usize = 0;
    assert(declared + undeclared_volumes(server@.take(0), repo@) =~= declared);
    while j < server.len()
        invariant
            j <= server@.len(),
            volume_views(out@) == declared + undeclared_volumes(server@.take(j as int), repo@),
        decreases server@.len() - j,
    {
        let sv = &server[j];
        assert(server@.take(j + 1).drop_last() =~= server@.take(j as int));
        assert(server@.take(j + 1).last() == *sv);
        if !declares_mount(repo, sv.mount_path.as_str()) {
            let ghost before = volume_views(out@);
            let m = MergedVolume {
                host_path: sv.host_path.clone(),
                mount_path: sv.mount_path.clone(),
                read_only: sv.read_only,
            };
            out.push(m);
            assert(volume_views(out@) =~= before.push(m@));
            assert(before.push(m@) =~= declared + undeclared_volumes(server@.take(j as int), repo@).push(m@));
        }
        j = j + 1;
    }
    assert(server@.take(server@.len() as int) =~= server@);
    Ok(out)
}

fn merge_routes(server: &Vec<RouteEntry>, repo: &Vec<RepoRouteEntry>) -> (r: Result<Vec<MergedRoute>, String>)
    ensures
        merged_routes(
            server@.map_values(|e: RouteEntry| route_entry_view(e)),
            repo@.map_values(|e: RepoRouteEntry| e@),
        ) == (match r {
            Ok(v) => Ok::<Seq<MergedRouteView>, Seq<char>>(route_views(v@)),
            Err(e) => Err(e@),
        }),
{
    let ghost sv = server@.map_values(|e: RouteEntry| route_entry_view(e));
    let ghost rv = repo@.map_values(|e: RepoRouteEntry| e@);
    if repo.len() > 0 && server.len() == 0 {
        return Err(
            "repo declares ".to_owned().concat(decimal_text(repo.len() as u64).as_str()).concat(
                " route(s) but server config has no hostnames",
            ),
        );
    }
    if repo.len() > 0 && server.len() != repo.len() {
        return Err(
            "route count mismatch: server has ".to_owned().concat(
                decimal_text(server.len() as u64).as_str(),
            ).concat(" route(s), repo has ").concat(decimal_text(repo.len() as u64).as_str()).concat(
                " route(s)",
            ),
        );
    }
    let mut out: Vec<MergedRoute> = Vec::new();
    let mut i: usize = 0;
    while i < server.len()
        invariant
            i <= server@.len(),
            repo@.len() == 0 || repo@.len() == server@.len(),
            sv == server@.map_values(|e: RouteEntry| route_entry_view(e)),
            rv == repo@.map_values(|e: RepoRouteEntry| e@),
            out@.len() == i,
            forall|k: int|
                0 <= k < i ==> (#[trigger] out@[k])@ == if repo@.len() == 0 {
                    server_route(sv[k])
                } else {
                    paired_route(sv[k], rv[k])
                },
        decreases server@.len() - i,
    {
        let sr = &server[i];
        let fallback: u16 = match sr.port {
            Some(p) => p,
            None => 0,
        };
        if repo.len() == 0 {
            out.push(
                MergedRoute {
                    hostname: sr.hostname.clone(),
                    port: fallback,
                    container: None,
                    kind: "http".to_owned(),
                },
            );
        } else {
            let rr = &repo[i];
            let port: u16 = match rr.port {
                Some(p) => p,
                None => fallback,
            };
            out.push(
                MergedRoute {
                    hostname: sr.hostname.clone(),
                    port,
                    container: rr.container.clone(),
                    kind: rr.kind.clone(),
                },
            );
        }
        i = i + 1;
    }
    assert(route_views(out@) =~= merged_routes(sv, rv)->Ok_0);
    Ok(out)
}

/// Combines the server's configuration of an app with the repository's.
///
/// A declared volume without a host path is an error, and so are routes of the
/// repository that do not pair up with the server's hostnames; a missing host
/// path is reported first.
pub fn merge_config(server: &AppConfig, repo: &RepoConfig) -> (r: Result<MergedConfig, ConfigError>)
    ensures
        match r {
            Ok(m) => {
                &&& declared_volumes(server.volumes@, repo.volumes@) is Ok
                &&& merged_routes(server.routing.routes_in_force(), repo.routing.routes_in_force()) is Ok
                &&& m.app.alike(&overlaid(*server, *repo))
                &&& m.kind == repo.app.kind
                &&& m.manifest == repo.app.manifest
                &&& m.health_container == repo.health.container
                &&& m.routing_container == repo.routing.container
                &&& route_views(m.routes@) == merged_routes(
                    server.routing.routes_in_force(),
                    repo.routing.routes_in_force(),
                )->Ok_0
                &&& m.preview == repo.preview
                &&& volume_views(m.volumes@) == declared_volumes(server.volumes@, repo.volumes@)->Ok_0
                    + undeclared_volumes(server.volumes@, repo.volumes@)
            },
            Err(ConfigError::VolumeMissingHostPath { mount_path }) => declared_volumes(
                server.volumes@,
                repo.volumes@,
            ) == Err::<Seq<MergedVolumeView>, Seq<char>>(mount_path@),
            Err(ConfigError::Merge(message)) => {
                &&& declared_volumes(server.volumes@, repo.volumes@) is Ok
                &&& merged_routes(server.routing.routes_in_force(), repo.routing.routes_in_force()) == Err::<
                    Seq<MergedRouteView>,
                    Seq<char>,
                >(message@)
            },
            Err(_) => false,
        },
{
    let mut app = server.duplicate();
    if app.health.path.is_none() {
        app.health.path = repo.health.path.clone();
    }
    match &repo.defaults.resources {
        Some(d) => {
            if app.resources.memory.is_none() {
                app.resources.memory = d.memory.clone();
            }
            if app.resources.cpus.is_none() {
                app.resources.cpus = d.cpus.clone();
            }
        },
        None => {},
    }
    let volumes = match merge_volumes(&server.volumes, &repo.volumes) {
        Ok(v) => v,
        Err(mount_path) => {
            return Err(ConfigError::VolumeMissingHostPath { mount_path });
        },
    };
    let server_routes = server.routing.effective_routes();
    let repo_routes = repo.routing.effective_routes();
    let routes = match merge_routes(&server_routes, &repo_routes) {
        Ok(v) => v,
        Err(message) => {
            return Err(ConfigError::Merge(message));
        },
    };
    Ok(
        MergedConfig {
            app,
            kind: repo.app.kind.clone(),
            manifest: repo.app.manifest.clone(),
            health_container: repo.health.container.clone(),
            routing_container: repo.routing.container.clone(),
            routes,
            preview: match &repo.preview {
                Some(p) => Some(p.duplicate()),
                None => None,
            },
            volumes,
        },
    )
}

// ── Laws ────────────────────────────────────────────────────────────────────

/// What the server sets stays; the repository fills only what the server left
/// open.
pub proof fn the_server_wins(server: AppConfig, repo: RepoConfig)
    ensures
        server.health.path is Some ==> overlaid(server, repo).health.path == server.health.path,
        server.health.path is None ==> overlaid(server, repo).health.path == repo.health.path,
        server.resources.memory is Some ==> overlaid(server, repo).resources.memory == server.resources.memory,
        server.resources.cpus is Some ==> overlaid(server, repo).resources.cpus == server.resources.cpus,
        repo.defaults.resources matches Some(d) ==> {
            &&& server.resources.memory is None ==> overlaid(server, repo).resources.memory == d.memory
            &&& server.resources.cpus is None ==> overlaid(server, repo).resources.cpus == d.cpus
        },
        repo.defaults.resources is None ==> overlaid(server, repo).resources == server.resources,
        overlaid(server, repo).health.interval == server.health.interval,
        overlaid(server, repo).health.timeout == server.health.timeout,
        overlaid(server, repo).health.retries == server.health.retries,
        overlaid(server, repo).health.start_period == server.health.start_period,
        overlaid(server, repo).health.expect_status == server.health.expect_status,
        overlaid(server, repo).app == server.app,
        overlaid(server, repo).routing == server.routing,
        overlaid(server, repo).deploy == server.deploy,
        overlaid(server, repo).env == server.env,
        overlaid(server, repo).env_file == server.env_file,
        overlaid(server, repo).network == server.network,
        overlaid(server, repo).preview == server.preview,
        overlaid(server, repo).volumes == server.volumes,
{
}

/// Routes are settled exactly if the repository has none or as many as the
/// server.
pub proof fn routes_must_pair_up(server: Seq<(Seq<char>, Option<u16>)>, repo: Seq<RepoRouteView>)
    ensures
        merged_routes(server, repo) is Ok <==> repo.len() == 0 || repo.len() == server.len(),
{
}

/// A settled route goes where the repository sends it, and to the server's port
/// where the repository names none; without routes of the repository every
/// route is the server's, over plain HTTP and to no container in particular.
pub proof fn a_route_goes_where_the_repository_sends_it(
    server: Seq<(Seq<char>, Option<u16>)>,
    repo: Seq<RepoRouteView>,
    i: int,
)
    requires
        merged_routes(server, repo) is Ok,
        0 <= i < server.len(),
    ensures
        ({
            let route = merged_routes(server, repo)->Ok_0[i];
            &&& repo.len() > 0 ==> route.container == repo[i].container && route.kind == repo[i].kind
            &&& repo.len() == 0 ==> route.container is None && route.kind == "http"@
            &&& repo.len() == 0 || repo[i].port is None ==> {
                &&& server[i].1 is Some ==> Some(route.port) == server[i].1
                &&& server[i].1 is None ==> route.port == 0
            }
        }),
{
}

/// Of the server's volumes at one mount path the last one counts.
pub proof fn the_last_volume_counts(server: Seq<VolumeConfig>, path: Seq<char>, i: int)
    requires
        0 <= i < server.len(),
        server[i].mount_path@ == path,
        forall|j: int| i < j < server.len() ==> (#[trigger] server[j]).mount_path@ != path,
    ensures
        server_volume(server, path) == Some(server[i]),
    decreases server.len(),
{
    if i < server.len() - 1 {
        let init = server.drop_last();
        assert(server[server.len() - 1] == server.last());
        assert forall|j: int| i < j < init.len() implies (#[trigger] init[j]).mount_path@ != path by {
            assert(init[j] == server[j]);
        }
        the_last_volume_counts(init, path, i);
    }
}

proof fn no_volume_there(server: Seq<VolumeConfig>, path: Seq<char>)
    ensures
        server_volume(server, path) is None <==> forall|i: int|
            0 <= i < server.len() ==> (#[trigger] server[i]).mount_path@ != path,
    decreases server.len(),
{
    if server.len() > 0 {
        let init = server.drop_last();
        no_volume_there(init, path);
        assert(server[server.len() - 1] == server.last());
        assert forall|i: int| 0 <= i < init.len() implies #[trigger] init[i] == server[i] by {}
        if forall|i: int| 0 <= i < server.len() ==> (#[trigger] server[i]).mount_path@ != path {
            assert forall|i: int| 0 <= i < init.len() implies (#[trigger] init[i]).mount_path@ != path by {
                assert(init[i] == server[i]);
            }
        }
        if server_volume(server, path) is None {
            assert forall|i: int| 0 <= i < server.len() implies (#[trigger] server[i]).mount_path@ != path by {
                if i < init.len() {
                    assert(init[i] == server[i]);
                }
            }
        }
    }
}

/// Whether the server has a volume at a mount path.
pub open spec fn has_volume(server: Seq<VolumeConfig>, path: Seq<char>) -> bool {
    exists|i: int| 0 <= i < server.len() && (#[trigger] server[i]).mount_path@ == path
}

/// Volumes are settled exactly if the server has one at every declared mount
/// path; else the first declared path without one is what is reported.
pub proof fn every_declared_mount_needs_a_volume(server: Seq<VolumeConfig>, repo: Seq<RepoVolume>)
    ensures
        match declared_volumes(server, repo) {
            Ok(_) => forall|i: int| 0 <= i < repo.len() ==> has_volume(server, (#[trigger] repo[i]).mount_path@),
            Err(path) => exists|i: int|
                0 <= i < repo.len() && (#[trigger] repo[i]).mount_path@ == path && !has_volume(server, path) && (
                forall|j: int| 0 <= j < i ==> has_volume(server, (#[trigger] repo[j]).mount_path@)),
        },
    decreases repo.len(),
{
    if repo.len() > 0 {
        let init = repo.drop_last();
        let last = repo.last();
        every_declared_mount_needs_a_volume(server, init);
        no_volume_there(server, last.mount_path@);
        assert forall|i: int| 0 <= i < init.len() implies #[trigger] repo[i] == init[i] by {}
        assert(repo[repo.len() - 1] == last);
        match declared_volumes(server, init) {
            Ok(_) => {
                assert forall|j: int| 0 <= j < repo.len() - 1 implies has_volume(
                    server,
                    (#[trigger] repo[j]).mount_path@,
                ) by {
                    assert(has_volume(server, init[j].mount_path@));
                }
            },
            Err(path) => {
                let i = choose|i: int|
                    0 <= i < init.len() && (#[trigger] init[i]).mount_path@ == path && !has_volume(server, path) && (
                    forall|j: int| 0 <= j < i ==> has_volume(server, (#[trigger] init[j]).mount_path@));
                assert(repo[i].mount_path@ == path);
                assert forall|j: int| 0 <= j < i implies has_volume(server, (#[trigger] repo[j]).mount_path@) by {
                    assert(has_volume(server, init[j].mount_path@));
                }
            },
        }
    }
}

/// Every settled route has the server's hostname; its port is the repository's
/// where the repository gives one.
pub proof fn every_hostname_is_the_servers(server: Seq<(Seq<char>, Option<u16>)>, repo: Seq<RepoRouteView>)
    requires
        merged_routes(server, repo) is Ok,
    ensures
        merged_routes(server, repo)->Ok_0.len() == server.len(),
        forall|i: int|
            0 <= i < server.len() ==> (#[trigger] merged_routes(server, repo)->Ok_0[i]).hostname == server[i].0,
        forall|i: int|
            0 <= i < repo.len() && repo[i].port is Some ==> Some(
                (#[trigger] merged_routes(server, repo)->Ok_0[i]).port,
            ) == repo[i].port,
{
}

/// Whether a mount is a declared one under the server's host path, read-only
/// if either side says so.
pub open spec fn is_declared(server: Seq<VolumeConfig>, r: RepoVolume, v: MergedVolumeView) -> bool {
    match server_volume(server, r.mount_path@) {
        Some(s) => v == MergedVolumeView {
            host_path: s.host_path@,
            mount_path: r.mount_path@,
            read_only: s.read_only || r.read_only,
        },
        None => false,
    }
}

/// Every declared mount is kept, under the server's host path, and is
/// read-only if either side says so.
pub proof fn every_declared_mount_is_kept(server: Seq<VolumeConfig>, repo: Seq<RepoVolume>)
    requires
        declared_volumes(server, repo) is Ok,
    ensures
        declared_volumes(server, repo)->Ok_0.len() == repo.len(),
        forall|i: int|
            0 <= i < repo.len() ==> is_declared(
                server,
                repo[i],
                #[trigger] declared_volumes(server, repo)->Ok_0[i],
            ),
    decreases repo.len(),
{
    if repo.len() > 0 {
        let init = repo.drop_last();
        let all = declared_volumes(server, repo)->Ok_0;
        every_declared_mount_is_kept(server, init);
        assert forall|i: int| 0 <= i < repo.len() implies is_declared(server, repo[i], #[trigger] all[i]) by {
            if i < init.len() {
                assert(all[i] == declared_volumes(server, init)->Ok_0[i]);
                assert(init[i] == repo[i]);
            }
        }
    }
}

/// Every mount of the server that the repository does not declare is kept as
/// the server has it, and no other is added.
pub proof fn every_other_mount_is_the_servers(server: Seq<VolumeConfig>, repo: Seq<RepoVolume>, v: MergedVolumeView)
    ensures
        undeclared_volumes(server, repo).contains(v) <==> exists|i: int|
            0 <= i < server.len() && is_undeclared(#[trigger] server[i], repo, v),
    decreases server.len(),
{
    if server.len() > 0 {
        let init = server.drop_last();
        let done = undeclared_volumes(init, repo);
        let all = undeclared_volumes(server, repo);
        every_other_mount_is_the_servers(init, repo, v);
        if all.contains(v) {
            let k = choose|k: int| 0 <= k < all.len() && all[k] == v;
            if k < done.len() {
                assert(done[k] == v);
                assert(done.contains(v));
                let i = choose|i: int| 0 <= i < init.len() && is_undeclared(#[trigger] init[i], repo, v);
                assert(is_undeclared(server[i], repo, v));
            } else {
                assert(is_undeclared(server[server.len() - 1], repo, v));
            }
        }
        if exists|i: int| 0 <= i < server.len() && is_undeclared(#[trigger] server[i], repo, v) {
            let i = choose|i: int| 0 <= i < server.len() && is_undeclared(#[trigger] server[i], repo, v);
            if i < init.len() {
                assert(is_undeclared(init[i], repo, v));
                let k = choose|k: int| 0 <= k < done.len() && done[k] == v;
                assert(all[k] == v);
            } else {
                assert(all[all.len() - 1] == v);
            }
        }
    }
}

/// Whether a mount is one of the server's that the repository does not
/// declare.
pub open spec fn is_undeclared(s: VolumeConfig, repo: Seq<RepoVolume>, v: MergedVolumeView) -> bool {
    &&& !declares(repo, s.mount_path@)
    &&& v == MergedVolumeView { host_path: s.host_path@, mount_path: s.mount_path@, read_only: s.read_only }
}

} // verus!
