//! The table of the previews that are known.
//!
//! The table is a `dashmap::DashMap` from the keys of previews to what is known
//! of them. It is reached through an exclusive reference throughout: what lies
//! behind a shared one may change from one look to the next.

use crate::config::{AppConfig, Duplicate, ServerPreviewConfig};
use crate::deploy::AppStatus;
use crate::preview::{
    collect_expired_at, domain_in_force, expired, is_expired, key_for, pair_views, preview_key, update_preview_status,
    with_status, DeployError, PreviewDeployContext, PreviewState,
};
use crate::preview_rollout::{begins, follows, lacks_domain, PreviewAction, PreviewEvent, PreviewRollout, PreviewTurn};
use crate::registry::RegistryCredentials;
use crate::rollout::is_suffix;
use crate::time::{utc_now, Timestamp};
use dashmap::DashMap;
use vstd::prelude::*;
use vstd::string::*;

verus! {

/// A map of `dashmap`.
#[verifier::external_type_specification]
#[verifier::external_body]
#[verifier::reject_recursive_types(K)]
#[verifier::reject_recursive_types(V)]
#[verifier::reject_recursive_types(S)]
pub struct ExDashMap<K, V, S>(dashmap::DashMap<K, V, S>);

/// What a table holds.
pub uninterp spec fn table_of(table: dashmap::DashMap<String, PreviewState>) -> Map<Seq<char>, PreviewState>;

/// What a table holds under a key.
pub open spec fn entry_of(table: Map<Seq<char>, PreviewState>, key: Seq<char>) -> Option<PreviewState> {
    if table.contains_key(key) {
        Some(table[key])
    } else {
        None
    }
}

/// A table with an entry under a key, or with none.
pub open spec fn with_entry(
    table: Map<Seq<char>, PreviewState>,
    key: Seq<char>,
    entry: Option<PreviewState>,
) -> Map<Seq<char>, PreviewState> {
    match entry {
        Some(p) => table.insert(key, p),
        None => table.remove(key),
    }
}

/// Whether a list holds every entry of a table once, in some order.
pub open spec fn is_listing(list: Seq<(String, PreviewState)>, table: Map<Seq<char>, PreviewState>) -> bool {
    &&& forall|i: int|
        0 <= i < list.len() ==> table.contains_key((#[trigger] list[i]).0@) && table[list[i].0@] == list[i].1
    &&& forall|i: int, j: int| 0 <= i < j < list.len() ==> (#[trigger] list[i]).0@ != (#[trigger] list[j]).0@
    &&& forall|k: Seq<char>| #[trigger]
        table.contains_key(k) ==> exists|i: int| 0 <= i < list.len() && (#[trigger] list[i]).0@ == k
}

/// The previews of a list of entries.
pub open spec fn states_of(list: Seq<(String, PreviewState)>) -> Seq<PreviewState> {
    list.map_values(|e: (String, PreviewState)| e.1)
}

/// `DashMap::get` finds the value under a key, which is copied out.
#[verifier::external_body]
fn look_up(table: &mut DashMap<String, PreviewState>, key: &str) -> (r: Option<PreviewState>)
    ensures
        r == entry_of(table_of(*old(table)), key@),
        table_of(*final(table)) == table_of(*old(table)),
{
    table.get(key).map(|p| p.value().duplicate())
}

/// `DashMap::remove` takes the entry under a key out of the map; the value is
/// kept.
#[verifier::external_body]
fn take_out(table: &mut DashMap<String, PreviewState>, key: &str) -> (r: Option<PreviewState>)
    ensures
        r == entry_of(table_of(*old(table)), key@),
        table_of(*final(table)) == table_of(*old(table)).remove(key@),
{
    table.remove(key).map(|e| e.1)
}

/// `DashMap::insert` sets the value under a key and gives back the one that was
/// there.
#[verifier::external_body]
fn put_in(table: &mut DashMap<String, PreviewState>, key: String, p: PreviewState) -> (r: Option<PreviewState>)
    ensures
        r == entry_of(table_of(*old(table)), key@),
        table_of(*final(table)) == table_of(*old(table)).insert(key@, p),
{
    table.insert(key, p)
}

/// `DashMap::iter` walks over every entry once, in an order of its own; keys and
/// values are copied out.
#[verifier::external_body]
fn list_out(table: &mut DashMap<String, PreviewState>) -> (r: Vec<(String, PreviewState)>)
    ensures
        is_listing(r@, table_of(*old(table))),
        table_of(*final(table)) == table_of(*old(table)),
{
    table.iter().map(|e| (e.key().clone(), e.value().duplicate())).collect()
}

/// What is known of a preview.
pub fn find_preview(table: &mut DashMap<String, PreviewState>, app: &str, preview_id: &str) -> (r: Option<PreviewState>)
    ensures
        r == entry_of(table_of(*old(table)), preview_key(app@, preview_id@)),
        table_of(*final(table)) == table_of(*old(table)),
{
    let key = key_for(app, preview_id);
    look_up(table, key.as_str())
}

/// Lists every preview that is known.
pub fn list_previews(table: &mut DashMap<String, PreviewState>) -> (r: Vec<PreviewState>)
    ensures
        exists|list: Seq<(String, PreviewState)>| #[trigger]
            is_listing(list, table_of(*old(table))) && r@ == states_of(list),
        table_of(*final(table)) == table_of(*old(table)),
{
    let list = list_out(table);
    let ghost all = list@;
    let mut out: Vec<PreviewState> = Vec::new();
    let mut i: usize = 0;
    while i < list.len()
        invariant
            i <= list@.len(),
            all == list@,
            out@.len() == i,
            forall|k: int| 0 <= k < i ==> #[trigger] out@[k] == all[k].1,
        decreases list@.len() - i,
    {
        out.push(list[i].1.duplicate());
        i = i + 1;
    }
    assert(out@ =~= states_of(all));
    out
}

/// Lists app and id of every preview that has ended by now.
pub fn collect_expired_previews(table: &mut DashMap<String, PreviewState>) -> (r: Vec<(String, String)>)
    ensures
        exists|list: Seq<(String, PreviewState)>, now: Timestamp|
            is_listing(list, table_of(*old(table))) && now.wf() && pair_views(r@) == #[trigger] expired(
                states_of(list),
                now,
            ),
        table_of(*final(table)) == table_of(*old(table)),
{
    let list = list_previews(table);
    let now = utc_now();
    collect_expired_at(&list, now)
}

/// A preview whose app is not configured has failed.
pub fn reject_unknown(table: &mut DashMap<String, PreviewState>, ctx: &PreviewDeployContext)
    ensures
        table_of(*final(table)) == with_entry(
            table_of(*old(table)),
            preview_key(ctx.app_name@, ctx.preview_id@),
            with_status(
                entry_of(table_of(*old(table)), preview_key(ctx.app_name@, ctx.preview_id@)),
                AppStatus::Failed,
            ),
        ),
{
    let key = key_for(ctx.app_name.as_str(), ctx.preview_id.as_str());
    let mut entry = take_out(table, key.as_str());
    update_preview_status(&mut entry, AppStatus::Failed);
    put_back(table, key, entry);
}

fn put_back(table: &mut DashMap<String, PreviewState>, key: String, entry: Option<PreviewState>)
    requires
        !table_of(*old(table)).contains_key(key@),
    ensures
        table_of(*final(table)) == with_entry(table_of(*old(table)), key@, entry),
{
    match entry {
        Some(p) => {
            let _ = put_in(table, key, p);
        },
        None => {
            assert(table_of(*table).remove(key@) =~= table_of(*table));
        },
    }
}

/// Begins the deploy of a preview: its entry in the table is replaced, and no
/// other.
pub fn begin_deploy(
    table: &mut DashMap<String, PreviewState>,
    ctx: PreviewDeployContext,
    server: Option<ServerPreviewConfig>,
    config: AppConfig,
    storage_path: String,
    credentials: Option<RegistryCredentials>,
) -> (r: Result<(PreviewRollout, PreviewAction), DeployError>)
    ensures
        match r {
            Ok((m, action)) => {
                let key = preview_key(ctx.app_name@, ctx.preview_id@);
                let after = entry_of(table_of(*final(table)), key);
                &&& m.wf()
                &&& begins(
                    ctx,
                    server,
                    config,
                    storage_path,
                    credentials,
                    entry_of(table_of(*old(table)), key),
                    m.deployed_at,
                    m,
                    action,
                    after,
                )
                &&& table_of(*final(table)) == with_entry(table_of(*old(table)), key, after)
            },
            Err(e) => {
                &&& domain_in_force(server, config.preview) is None
                &&& lacks_domain(e)
                &&& table_of(*final(table)) == table_of(*old(table))
            },
        },
{
    let key = key_for(ctx.app_name.as_str(), ctx.preview_id.as_str());
    let ghost before = table_of(*table);
    let mut entry = take_out(table, key.as_str());
    let r = PreviewRollout::begin(ctx, server, config, storage_path, credentials, &mut entry);
    let ghost after = entry;
    let ghost k = key@;
    put_back(table, key, entry);
    assert(table_of(*table) =~= with_entry(before, k, after));
    assert(after == entry_of(before, k) ==> table_of(*table) =~= before);
    r
}

/// Hands an outcome to the deploy of a preview. The preview's entry in the
/// table follows, and no other.
pub fn step_deploy(
    table: &mut DashMap<String, PreviewState>,
    machine: &mut PreviewRollout,
    event: PreviewEvent,
) -> (action: PreviewAction)
    requires
        old(machine).awaits(event),
    ensures
        ({
            let key = preview_key(old(machine).ctx.app_name@, old(machine).ctx.preview_id@);
            let after = entry_of(table_of(*final(table)), key);
            &&& exists|suffix: Seq<char>|
                is_suffix(suffix) && #[trigger] follows(
                    PreviewTurn {
                        pre: *old(machine),
                        post: *final(machine),
                        pre_entry: entry_of(table_of(*old(table)), key),
                        post_entry: after,
                        action,
                    },
                    event,
                    suffix,
                )
            &&& table_of(*final(table)) == with_entry(table_of(*old(table)), key, after)
        }),
{
    let key = key_for(machine.ctx.app_name.as_str(), machine.ctx.preview_id.as_str());
    let ghost before = table_of(*table);
    let mut entry = take_out(table, key.as_str());
    let action = machine.step(event, &mut entry);
    let ghost after = entry;
    let ghost k = key@;
    put_back(table, key, entry);
    assert(table_of(*table) =~= with_entry(before, k, after));
    action
}

/// Forgets what is known of a preview.
pub fn forget_preview(table: &mut DashMap<String, PreviewState>, key: &str)
    ensures
        table_of(*final(table)) == table_of(*old(table)).remove(key@),
{
    let _ = take_out(table, key);
}

// ── Laws ────────────────────────────────────────────────────────────────────

/// Setting or dropping one entry leaves every other as it was.
pub proof fn other_previews_stay(
    table: Map<Seq<char>, PreviewState>,
    key: Seq<char>,
    entry: Option<PreviewState>,
    other: Seq<char>,
)
    requires
        other != key,
    ensures
        entry_of(with_entry(table, key, entry), other) == entry_of(table, other),
        entry_of(with_entry(table, key, entry), key) == entry,
{
}

/// However the table is walked, exactly the previews that have ended are found
/// to have.
pub proof fn exactly_the_expired_are_found(
    list: Seq<(String, PreviewState)>,
    table: Map<Seq<char>, PreviewState>,
    now: Timestamp,
    app: Seq<char>,
    id: Seq<char>,
)
    requires
        is_listing(list, table),
    ensures
        expired(states_of(list), now).contains((app, id)) <==> exists|k: Seq<char>| #[trigger]
            table.contains_key(k) && is_named(table[k], app, id) && is_expired(table[k], now),
{
    let states = states_of(list);
    expired_iff(states, now, app, id);
    if expired(states, now).contains((app, id)) {
        let i = choose|i: int|
            0 <= i < states.len() && is_named(#[trigger] states[i], app, id) && is_expired(states[i], now);
        assert(table.contains_key(list[i].0@));
    }
    if exists|k: Seq<char>| #[trigger]
        table.contains_key(k) && is_named(table[k], app, id) && is_expired(table[k], now) {
        let k = choose|k: Seq<char>| #[trigger]
            table.contains_key(k) && is_named(table[k], app, id) && is_expired(table[k], now);
        let i = choose|i: int| 0 <= i < list.len() && (#[trigger] list[i]).0@ == k;
        assert(states[i] == table[k]);
    }
}

/// Whether a preview has an app and an id.
pub open spec fn is_named(p: PreviewState, app: Seq<char>, id: Seq<char>) -> bool {
    p.app@ == app && p.preview_id@ == id
}

proof fn expired_iff(states: Seq<PreviewState>, now: Timestamp, app: Seq<char>, id: Seq<char>)
    ensures
        expired(states, now).contains((app, id)) <==> exists|i: int|
            0 <= i < states.len() && is_named(#[trigger] states[i], app, id) && is_expired(states[i], now),
    decreases states.len(),
{
    if states.len() > 0 {
        let init = states.drop_last();
        let before = expired(init, now);
        let all = expired(states, now);
        expired_iff(init, now, app, id);
        if all.contains((app, id)) {
            let k = choose|k: int| 0 <= k < all.len() && all[k] == (app, id);
            if k < before.len() {
                assert(before[k] == (app, id));
                let i = choose|i: int|
                    0 <= i < init.len() && is_named(#[trigger] init[i], app, id) && is_expired(init[i], now);
                assert(is_named(states[i], app, id));
            } else {
                assert(is_named(states[states.len() - 1], app, id));
            }
        }
        if exists|i: int|
            0 <= i < states.len() && is_named(#[trigger] states[i], app, id) && is_expired(states[i], now) {
            let i = choose|i: int|
                0 <= i < states.len() && is_named(#[trigger] states[i], app, id) && is_expired(states[i], now);
            if i < init.len() {
                assert(is_named(init[i], app, id));
                let k = choose|k: int| 0 <= k < before.len() && before[k] == (app, id);
                assert(all[k] == (app, id));
            } else {
                assert(all[all.len() - 1] == (app, id));
            }
        }
    }
}

} // verus!
