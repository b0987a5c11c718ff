//! What rendering a manifest keeps and what it guarantees.

use crate::manifest::{
    appended, base_image, cut_tail, env_injected, field_is, has_volume, is_alnum, items_at, label, label_char,
    list_at, mount_entry, mounted, mounts_at, mounts_in, named, names, new_env, on_containers, on_list, on_lists,
    overridden, port_zeroed, ports_zeroed, primary_set, rendered_doc, runs_image, set_list, tag_resolved,
    volume_added, volume_entry, volume_name, volumes_added, with_list, without_slashes, RenderContext,
};
use crate::merge::{volume_views, MergedVolumeView};
use crate::text::{byte_len, has_text, replaced};
use crate::yaml::{yaml_number, YamlView};
use vstd::prelude::*;
use vstd::string::*;

verus! {

/// Whether a list of `after` begins with the items it has in `before`.
pub open spec fn grows(before: YamlView, after: YamlView, key: Seq<char>) -> bool {
    items_at(before, key).is_prefix_of(items_at(after, key))
}

/// Whether a container keeps what it says of every key but some, and loses no
/// variable and no mount.
pub open spec fn keeps(before: YamlView, after: YamlView, but: Set<Seq<char>>) -> bool {
    &&& forall|k: Seq<char>| !but.contains(k) ==> #[trigger] after.get(k) == before.get(k)
    &&& grows(before, after, "env"@)
    &&& grows(before, after, "volumeMounts"@)
}

/// Whether a container list keeps its containers.
pub open spec fn list_keeps(
    before: Option<Seq<YamlView>>,
    after: Option<Seq<YamlView>>,
    but: Set<Seq<char>>,
) -> bool {
    match (before, after) {
        (Some(b), Some(a)) => a.len() == b.len() && forall|i: int|
            0 <= i < b.len() ==> keeps(b[i], #[trigger] a[i], but),
        (None, None) => true,
        _ => false,
    }
}

/// Whether a document keeps its containers, every volume of the pod, and
/// everything outside them.
pub open spec fn doc_keeps(before: YamlView, after: YamlView, but: Set<Seq<char>>) -> bool {
    &&& list_keeps(list_at(before, "containers"@), list_at(after, "containers"@), but)
    &&& list_keeps(list_at(before, "initContainers"@), list_at(after, "initContainers"@), but)
    &&& volumes_of(before).is_prefix_of(volumes_of(after))
    &&& forall|k: Seq<char>| k != "spec"@ ==> #[trigger] after.get(k) == before.get(k)
    &&& before.get("spec"@) is Some == after.get("spec"@) is Some
    &&& before.get("spec"@) matches Some(s) ==> forall|k: Seq<char>|
        k != "containers"@ && k != "initContainers"@ && k != "volumes"@ ==> #[trigger] after.get(
            "spec"@,
        )->0.get(k) == s.get(k)
}

/// The volumes of the pod.
pub open spec fn volumes_of(doc: YamlView) -> Seq<YamlView> {
    match list_at(doc, "volumes"@) {
        Some(items) => items,
        None => seq![],
    }
}

/// The keys of a container that rendering may change.
pub open spec fn changed_keys() -> Set<Seq<char>> {
    set!["image"@, "ports"@, "env"@, "volumeMounts"@]
}

/// The keys of a container that the steps after the ports may change.
pub open spec fn late_keys() -> Set<Seq<char>> {
    set!["env"@, "volumeMounts"@]
}

/// Whether every port of a container that is a mapping says `hostPort: 0`.
pub open spec fn zero_ports(c: YamlView) -> bool {
    forall|i: int|
        0 <= i < items_at(c, "ports"@).len() && items_at(c, "ports"@)[i].is_mapping() ==> (#[trigger] items_at(
            c,
            "ports"@,
        )[i]).get("hostPort"@) == Some(YamlView::Number(yaml_number(0)))
}

/// Whether every container of a list has only zero ports.
pub open spec fn list_zero_ports(list: Option<Seq<YamlView>>) -> bool {
    list matches Some(items) ==> forall|i: int| 0 <= i < items.len() ==> zero_ports(#[trigger] items[i])
}

proof fn keys_differ()
    ensures
        "containers"@ != "initContainers"@,
        "containers"@ != "volumes"@,
        "initContainers"@ != "volumes"@,
        "spec"@ != "metadata"@,
        "env"@ != "image"@,
        "env"@ != "ports"@,
        "env"@ != "volumeMounts"@,
        "volumeMounts"@ != "image"@,
        "volumeMounts"@ != "ports"@,
        "image"@ != "ports"@,
{
    reveal_strlit("containers");
    reveal_strlit("initContainers");
    reveal_strlit("volumes");
    reveal_strlit("spec");
    reveal_strlit("metadata");
    reveal_strlit("env");
    reveal_strlit("image");
    reveal_strlit("ports");
    reveal_strlit("volumeMounts");
    assert("containers"@.len() == 10 && "initContainers"@.len() == 14 && "volumes"@.len() == 7);
    assert("spec"@.len() == 4 && "metadata"@.len() == 8 && "env"@.len() == 3 && "volumeMounts"@.len() == 12);
    assert("image"@[0] == 'i' && "ports"@[0] == 'p');
    assert("image"@.len() == 5 && "ports"@.len() == 5);
}

proof fn keeps_itself(c: YamlView, but: Set<Seq<char>>)
    ensures
        keeps(c, c, but),
{
    assert(items_at(c, "env"@).subrange(0, items_at(c, "env"@).len() as int) =~= items_at(c, "env"@));
    assert(items_at(c, "volumeMounts"@).subrange(0, items_at(c, "volumeMounts"@).len() as int)
        =~= items_at(c, "volumeMounts"@));
}

proof fn prefix_chain(a: Seq<YamlView>, b: Seq<YamlView>, c: Seq<YamlView>)
    requires
        a.is_prefix_of(b),
        b.is_prefix_of(c),
    ensures
        a.is_prefix_of(c),
{
    assert forall|i: int| 0 <= i < a.len() implies a[i] == c[i] by {
        assert(a[i] == b.subrange(0, a.len() as int)[i]);
        assert(b[i] == c.subrange(0, b.len() as int)[i]);
    }
    assert(a =~= c.subrange(0, a.len() as int));
}

proof fn keeps_chain(a: YamlView, b: YamlView, c: YamlView, but: Set<Seq<char>>)
    requires
        keeps(a, b, but),
        keeps(b, c, but),
    ensures
        keeps(a, c, but),
{
    prefix_chain(items_at(a, "env"@), items_at(b, "env"@), items_at(c, "env"@));
    prefix_chain(items_at(a, "volumeMounts"@), items_at(b, "volumeMounts"@), items_at(c, "volumeMounts"@));
    assert forall|k: Seq<char>| !but.contains(k) implies #[trigger] c.get(k) == a.get(k) by {
        assert(b.get(k) == a.get(k));
    }
}

proof fn list_chain(
    a: Option<Seq<YamlView>>,
    b: Option<Seq<YamlView>>,
    c: Option<Seq<YamlView>>,
    but: Set<Seq<char>>,
)
    requires
        list_keeps(a, b, but),
        list_keeps(b, c, but),
    ensures
        list_keeps(a, c, but),
{
    if a is Some {
        assert forall|i: int| 0 <= i < a->0.len() implies keeps(a->0[i], #[trigger] c->0[i], but) by {
            assert(keeps(a->0[i], b->0[i], but));
            keeps_chain(a->0[i], b->0[i], c->0[i], but);
        }
    }
}

proof fn doc_chain(a: YamlView, b: YamlView, c: YamlView, but: Set<Seq<char>>)
    requires
        doc_keeps(a, b, but),
        doc_keeps(b, c, but),
    ensures
        doc_keeps(a, c, but),
{
    list_chain(list_at(a, "containers"@), list_at(b, "containers"@), list_at(c, "containers"@), but);
    list_chain(list_at(a, "initContainers"@), list_at(b, "initContainers"@), list_at(c, "initContainers"@), but);
    prefix_chain(volumes_of(a), volumes_of(b), volumes_of(c));
    assert forall|k: Seq<char>| k != "spec"@ implies #[trigger] c.get(k) == a.get(k) by {
        assert(b.get(k) == a.get(k));
    }
    if a.get("spec"@) is Some {
        assert forall|k: Seq<char>|
            k != "containers"@ && k != "initContainers"@ && k != "volumes"@ implies #[trigger] c.get(
            "spec"@,
        )->0.get(k) == a.get("spec"@)->0.get(k) by {
            assert(b.get("spec"@)->0.get(k) == a.get("spec"@)->0.get(k));
        }
    }
}

proof fn list_keeps_itself(l: Option<Seq<YamlView>>, but: Set<Seq<char>>)
    ensures
        list_keeps(l, l, but),
{
    if l is Some {
        assert forall|i: int| 0 <= i < l->0.len() implies keeps(l->0[i], #[trigger] l->0[i], but) by {
            keeps_itself(l->0[i], but);
        }
    }
}

proof fn doc_keeps_itself(d: YamlView, but: Set<Seq<char>>)
    ensures
        doc_keeps(d, d, but),
{
    list_keeps_itself(list_at(d, "containers"@), but);
    list_keeps_itself(list_at(d, "initContainers"@), but);
    assert(volumes_of(d).subrange(0, volumes_of(d).len() as int) =~= volumes_of(d));
}

/// What a changed list leaves as it was.
proof fn set_list_frame(doc: YamlView, key: Seq<char>, items: Seq<YamlView>)
    requires
        list_at(doc, key) is Some,
    ensures
        list_at(set_list(doc, key, items), key) == Some(items),
        forall|k: Seq<char>| k != key ==> #[trigger] list_at(set_list(doc, key, items), k) == list_at(doc, k),
        forall|k: Seq<char>| k != "spec"@ ==> #[trigger] set_list(doc, key, items).get(k) == doc.get(k),
        set_list(doc, key, items).get("spec"@) is Some,
        forall|k: Seq<char>|
            k != key ==> #[trigger] set_list(doc, key, items).get("spec"@)->0.get(k) == doc.get("spec"@)->0.get(k),
{
    let s = doc.get("spec"@)->0;
    let l = s.get(key)->0;
    let s2 = s.put(key, l.with_items(items));
    let d2 = set_list(doc, key, items);
    doc.get_put("spec"@, s2, seq![]);
    s.get_put(key, l.with_items(items), seq![]);
    l.items_set(items);
    assert(d2.get("spec"@) == Some(s2));
    assert forall|k: Seq<char>| k != key implies #[trigger] s2.get(k) == s.get(k) by {
        s.get_put(key, l.with_items(items), k);
    }
    assert forall|k: Seq<char>| k != key implies #[trigger] list_at(d2, k) == list_at(doc, k) by {
        assert(s2.get(k) == s.get(k));
    }
    assert forall|k: Seq<char>| k != "spec"@ implies #[trigger] d2.get(k) == doc.get(k) by {
        doc.get_put("spec"@, s2, k);
    }
}

/// A change to one container list that keeps its containers keeps the
/// document.
proof fn on_list_keeps(
    doc: YamlView,
    key: Seq<char>,
    f: spec_fn(Seq<YamlView>) -> Seq<YamlView>,
    but: Set<Seq<char>>,
)
    requires
        key == "containers"@ || key == "initContainers"@,
        list_at(doc, key) matches Some(items) ==> list_keeps(Some(items), Some(f(items)), but),
    ensures
        doc_keeps(doc, on_list(doc, key, f), but),
        list_at(on_list(doc, key, f), key) == (match list_at(doc, key) {
            Some(items) => Some(f(items)),
            None => None,
        }),
        forall|k: Seq<char>| k != key ==> #[trigger] list_at(on_list(doc, key, f), k) == list_at(doc, k),
{
    keys_differ();
    doc_keeps_itself(doc, but);
    match list_at(doc, key) {
        Some(items) => {
            set_list_frame(doc, key, f(items));
            let after = set_list(doc, key, f(items));
            assert(list_at(after, "volumes"@) == list_at(doc, "volumes"@));
            if key == "containers"@ {
                assert(list_at(after, "initContainers"@) == list_at(doc, "initContainers"@));
            } else {
                assert(list_at(after, "containers"@) == list_at(doc, "containers"@));
            }
        },
        None => {},
    }
}

/// A change to both container lists that keeps their containers keeps the
/// document.
proof fn on_lists_keeps(doc: YamlView, f: spec_fn(Seq<YamlView>) -> Seq<YamlView>, but: Set<Seq<char>>)
    requires
        forall|items: Seq<YamlView>| list_keeps(Some(items), Some(#[trigger] f(items)), but),
    ensures
        doc_keeps(doc, on_lists(doc, f), but),
        list_at(on_lists(doc, f), "containers"@) == (match list_at(doc, "containers"@) {
            Some(items) => Some(f(items)),
            None => None,
        }),
        list_at(on_lists(doc, f), "initContainers"@) == (match list_at(doc, "initContainers"@) {
            Some(items) => Some(f(items)),
            None => None,
        }),
        list_at(on_lists(doc, f), "volumes"@) == list_at(doc, "volumes"@),
{
    keys_differ();
    let mid = on_list(doc, "containers"@, f);
    on_list_keeps(doc, "containers"@, f, but);
    on_list_keeps(mid, "initContainers"@, f, but);
    doc_chain(doc, mid, on_lists(doc, f), but);
    assert(list_at(mid, "initContainers"@) == list_at(doc, "initContainers"@));
    assert(list_at(mid, "volumes"@) == list_at(doc, "volumes"@));
}

proof fn on_containers_keeps(doc: YamlView, f: spec_fn(YamlView) -> YamlView, but: Set<Seq<char>>)
    requires
        forall|c: YamlView| keeps(c, #[trigger] f(c), but),
    ensures
        doc_keeps(doc, on_containers(doc, f), but),
        list_at(on_containers(doc, f), "containers"@) == (match list_at(doc, "containers"@) {
            Some(items) => Some(items.map_values(f)),
            None => None,
        }),
        list_at(on_containers(doc, f), "initContainers"@) == (match list_at(doc, "initContainers"@) {
            Some(items) => Some(items.map_values(f)),
            None => None,
        }),
        list_at(on_containers(doc, f), "volumes"@) == list_at(doc, "volumes"@),
{
    let g = |items: Seq<YamlView>| items.map_values(f);
    assert forall|items: Seq<YamlView>| list_keeps(Some(items), Some(#[trigger] g(items)), but) by {
        assert forall|i: int| 0 <= i < items.len() implies keeps(items[i], #[trigger] g(items)[i], but) by {
            assert(keeps(items[i], f(items[i]), but));
        }
    }
    on_lists_keeps(doc, g, but);
}

/// Setting a key that may change keeps a container.
proof fn put_keeps(c: YamlView, key: Seq<char>, value: YamlView, but: Set<Seq<char>>)
    requires
        but.contains(key),
        key != "env"@,
        key != "volumeMounts"@,
    ensures
        keeps(c, c.put(key, value), but),
{
    let after = c.put(key, value);
    assert forall|k: Seq<char>| !but.contains(k) implies #[trigger] after.get(k) == c.get(k) by {
        c.get_put(key, value, k);
    }
    c.get_put(key, value, "env"@);
    c.get_put(key, value, "volumeMounts"@);
    keeps_itself(c, but);
}

/// Appending to a list keeps a container, and the list has the entries then.
proof fn append_keeps(c: YamlView, key: Seq<char>, entries: Seq<YamlView>, but: Set<Seq<char>>)
    requires
        but.contains(key),
        key == "env"@ || key == "volumeMounts"@,
    ensures
        keeps(c, appended(with_list(c, key), key, entries), but),
        c.is_mapping() && (c.get(key) is None || c.get(key)->0.items() is Some) ==> items_at(
            appended(with_list(c, key), key, entries),
            key,
        ) == items_at(c, key) + entries,
{
    keys_differ();
    let empty = YamlView::Sequence(seq![]);
    let mid = with_list(c, key);
    let after = appended(mid, key, entries);
    keeps_itself(c, but);
    assert forall|k: Seq<char>| k != key implies #[trigger] mid.get(k) == c.get(k) by {
        c.get_put(key, empty, k);
    }
    c.get_put(key, empty, seq![]);
    assert(items_at(mid, key) =~= items_at(c, key));
    match mid.get(key) {
        Some(l) => match l.items() {
            Some(items) => {
                let v = l.with_items(items + entries);
                mid.get_put(key, v, seq![]);
                l.items_set(items + entries);
                assert(items_at(after, key) == items + entries);
                assert((items + entries).subrange(0, items.len() as int) =~= items);
                assert forall|k: Seq<char>| k != key implies #[trigger] after.get(k) == mid.get(k) by {
                    mid.get_put(key, v, k);
                }
            },
            None => {},
        },
        None => {},
    }
    assert forall|k: Seq<char>| !but.contains(k) implies #[trigger] after.get(k) == c.get(k) by {
        assert(mid.get(k) == c.get(k));
        if mid.get(key) is Some && mid.get(key)->0.items() is Some {
            assert(after.get(k) == mid.get(k));
        }
    }
    assert(grows(c, after, key));
    let other = if key == "env"@ {
        "volumeMounts"@
    } else {
        "env"@
    };
    assert(mid.get(other) == c.get(other));
    assert(after.get(other) == c.get(other));
    assert(items_at(after, other) == items_at(c, other));
}

proof fn steps_keep(ctx: RenderContext)
    ensures
        forall|c: YamlView| keeps(c, #[trigger] tag_resolved(c, ctx.tag@), changed_keys()),
        forall|c: YamlView| keeps(c, #[trigger] overridden(c, ctx.image_overrides@), changed_keys()),
        forall|c: YamlView| keeps(c, #[trigger] ports_zeroed(c), changed_keys()),
        forall|c: YamlView| keeps(c, #[trigger] env_injected(c, ctx.env_vars@), late_keys()),
{
    keys_differ();
    let but = changed_keys();
    assert forall|c: YamlView| keeps(c, #[trigger] tag_resolved(c, ctx.tag@), but) by {
        keeps_itself(c, but);
        if c.get("image"@) is Some && c.get("image"@)->0.text() is Some {
            put_keeps(
                c,
                "image"@,
                YamlView::Str(replaced(c.get("image"@)->0.text()->0, "${tag}"@, ctx.tag@)),
                but,
            );
        }
    }
    assert forall|c: YamlView| keeps(c, #[trigger] overridden(c, ctx.image_overrides@), but) by {
        keeps_itself(c, but);
        if c.get("name"@) is Some && c.get("name"@)->0.text() is Some {
            match crate::manifest::lookup(ctx.image_overrides@, c.get("name"@)->0.text()->0) {
                Some(image) => put_keeps(c, "image"@, YamlView::Str(image), but),
                None => {},
            }
        }
    }
    assert forall|c: YamlView| keeps(c, #[trigger] ports_zeroed(c), but) by {
        keeps_itself(c, but);
        if c.get("ports"@) is Some && c.get("ports"@)->0.items() is Some {
            let v = c.get("ports"@)->0;
            put_keeps(
                c,
                "ports"@,
                v.with_items(v.items()->0.map_values(|p: YamlView| port_zeroed(p))),
                but,
            );
        }
    }
    assert forall|c: YamlView| keeps(c, #[trigger] env_injected(c, ctx.env_vars@), late_keys()) by {
        append_keeps(c, "env"@, new_env(items_at(c, "env"@), ctx.env_vars@), late_keys());
    }
}

proof fn primary_keeps(items: Seq<YamlView>, image: Seq<char>, tag: Seq<char>)
    ensures
        list_keeps(Some(items), Some(primary_set(items, image, tag)), changed_keys()),
    decreases items.len(),
{
    keys_differ();
    let but = changed_keys();
    let after = primary_set(items, image, tag);
    if items.len() > 0 {
        put_keeps(items[0], "image"@, YamlView::Str(image + ":"@ + tag), but);
        keeps_itself(items[0], but);
        if runs_image(items[0], image) {
            assert forall|i: int| 0 <= i < items.len() implies keeps(items[i], #[trigger] after[i], but) by {
                keeps_itself(items[i], but);
            }
        } else {
            let rest = items.skip(1);
            primary_keeps(rest, image, tag);
            assert forall|i: int| 0 <= i < items.len() implies keeps(items[i], #[trigger] after[i], but) by {
                if i > 0 {
                    assert(after[i] == primary_set(rest, image, tag)[i - 1]);
                    assert(items[i] == rest[i - 1]);
                    assert(keeps(rest[i - 1], primary_set(rest, image, tag)[i - 1], but));
                }
            }
        }
    }
}

proof fn widen(before: YamlView, after: YamlView)
    requires
        doc_keeps(before, after, late_keys()),
    ensures
        doc_keeps(before, after, changed_keys()),
{
    assert forall|k: Seq<char>| #[trigger] late_keys().contains(k) implies changed_keys().contains(k) by {}
    assert forall|a: YamlView, b: YamlView| #[trigger] keeps(a, b, late_keys()) implies keeps(a, b, changed_keys()) by {}
    let (b1, a1) = (list_at(before, "containers"@), list_at(after, "containers"@));
    let (b2, a2) = (list_at(before, "initContainers"@), list_at(after, "initContainers"@));
    if b1 is Some {
        assert forall|i: int| 0 <= i < b1->0.len() implies keeps(b1->0[i], #[trigger] a1->0[i], changed_keys()) by {
            assert(keeps(b1->0[i], a1->0[i], late_keys()));
        }
    }
    if b2 is Some {
        assert forall|i: int| 0 <= i < b2->0.len() implies keeps(b2->0[i], #[trigger] a2->0[i], changed_keys()) by {
            assert(keeps(b2->0[i], a2->0[i], late_keys()));
        }
    }
}

proof fn volume_keeps(doc: YamlView, name: Seq<char>, v: MergedVolumeView)
    ensures
        doc_keeps(doc, volume_added(doc, name, v), late_keys()),
{
    keys_differ();
    let but = late_keys();
    let empty = YamlView::Sequence(seq![]);
    let entry = volume_entry(name, v.host_path);
    let ready = match doc.get("spec"@) {
        Some(s) => doc.put("spec"@, with_list(s, "volumes"@)),
        None => doc,
    };
    doc_keeps_itself(doc, but);
    assert(doc_keeps(doc, ready, but)) by {
        match doc.get("spec"@) {
            Some(s) => {
                let s2 = with_list(s, "volumes"@);
                assert forall|k: Seq<char>| k != "volumes"@ implies #[trigger] s2.get(k) == s.get(k) by {
                    s.get_put("volumes"@, empty, k);
                }
                s.get_put("volumes"@, empty, seq![]);
                doc.get_put("spec"@, s2, seq![]);
                assert forall|k: Seq<char>| k != "spec"@ implies #[trigger] ready.get(k) == doc.get(k) by {
                    doc.get_put("spec"@, s2, k);
                }
                assert(s2.get("containers"@) == s.get("containers"@));
                assert(s2.get("initContainers"@) == s.get("initContainers"@));
                assert(volumes_of(ready) =~= volumes_of(doc));
            },
            None => {},
        }
    }
    let g = |items: Seq<YamlView>| items.push(entry);
    let listed = on_list(ready, "volumes"@, g);
    doc_keeps_itself(ready, but);
    assert(doc_keeps(ready, listed, but)) by {
        match list_at(ready, "volumes"@) {
            Some(items) => {
                set_list_frame(ready, "volumes"@, g(items));
                assert(list_at(listed, "containers"@) == list_at(ready, "containers"@));
                assert(list_at(listed, "initContainers"@) == list_at(ready, "initContainers"@));
                assert(items.push(entry).subrange(0, items.len() as int) =~= items);
            },
            None => {},
        }
    }
    let m = mount_entry(name, v.mount_path, v.read_only);
    let f = |c: YamlView| mounted(c, m);
    assert forall|c: YamlView| keeps(c, #[trigger] f(c), but) by {
        append_keeps(c, "volumeMounts"@, seq![m], but);
    }
    on_containers_keeps(listed, f, but);
    doc_chain(doc, ready, listed, but);
    doc_chain(doc, listed, volume_added(doc, name, v), but);
}

/// Adding volumes loses nothing of the manifest: variables, mounts and volumes
/// that it has stay, in their order, and other keys are as they were.
pub proof fn adding_volumes_keeps(doc: YamlView, app: Seq<char>, volumes: Seq<MergedVolumeView>)
    ensures
        doc_keeps(doc, volumes_added(doc, app, volumes), late_keys()),
    decreases volumes.len(),
{
    if volumes.len() == 0 {
        doc_keeps_itself(doc, late_keys());
    } else {
        adding_volumes_keeps(doc, app, volumes.drop_last());
        let before = volumes_added(doc, app, volumes.drop_last());
        let v = volumes.last();
        volume_keeps(before, volume_name(app, v.mount_path), v);
        doc_chain(
            doc,
            before,
            volume_added(before, volume_name(app, v.mount_path), v),
            late_keys(),
        );
    }
}

proof fn ports_become_zero(c: YamlView)
    ensures
        zero_ports(ports_zeroed(c)),
{
    if c.get("ports"@) is Some && c.get("ports"@)->0.items() is Some {
        let v = c.get("ports"@)->0;
        let ports = v.items()->0;
        let zeroed = ports.map_values(|p: YamlView| port_zeroed(p));
        c.get_put("ports"@, v.with_items(zeroed), seq![]);
        v.items_set(zeroed);
        assert(items_at(ports_zeroed(c), "ports"@) == zeroed);
        assert forall|i: int| 0 <= i < zeroed.len() && zeroed[i].is_mapping() implies (#[trigger] zeroed[i]).get(
            "hostPort"@,
        ) == Some(YamlView::Number(yaml_number(0))) by {
            ports[i].get_put("hostPort"@, YamlView::Number(yaml_number(0)), seq![]);
        }
    }
}

proof fn late_steps_keep_zero(before: Option<Seq<YamlView>>, after: Option<Seq<YamlView>>)
    requires
        list_zero_ports(before),
        list_keeps(before, after, late_keys()),
    ensures
        list_zero_ports(after),
{
    keys_differ();
    if after is Some {
        assert forall|i: int| 0 <= i < after->0.len() implies zero_ports(#[trigger] after->0[i]) by {
            assert(keeps(before->0[i], after->0[i], late_keys()));
            assert(!late_keys().contains("ports"@));
            assert(after->0[i].get("ports"@) == before->0[i].get("ports"@));
            assert(items_at(after->0[i], "ports"@) == items_at(before->0[i], "ports"@));
            assert(zero_ports(before->0[i]));
        }
    }
}

/// What rendering guarantees. The pod is called by its name, a hyphen and the
/// suffix, in at most 63 bytes. Every other key outside `spec` is as it was.
/// Each container list has its containers in their order, and of each of them
/// only image, ports, variables and mounts may differ; no variable, mount or
/// volume that the manifest has is lost. Every port says `hostPort: 0`.
pub proof fn rendering_keeps_the_manifest(doc: YamlView, ctx: RenderContext)
    ensures
        rendered_doc(doc, ctx) matches Ok(done) ==> {
            &&& done.get("metadata"@) is Some
            &&& done.get("metadata"@)->0.get("name"@) == Some(
                YamlView::Str(doc.get("metadata"@)->0.get("name"@)->0.text()->0 + "-"@ + ctx.pod_suffix@),
            )
            &&& byte_len(done.get("metadata"@)->0.get("name"@)->0.text()->0) <= 63
            &&& forall|k: Seq<char>|
                k != "name"@ ==> #[trigger] done.get("metadata"@)->0.get(k) == doc.get("metadata"@)->0.get(k)
            &&& forall|k: Seq<char>|
                k != "metadata"@ && k != "spec"@ ==> #[trigger] done.get(k) == doc.get(k)
            &&& list_keeps(list_at(doc, "containers"@), list_at(done, "containers"@), changed_keys())
            &&& list_keeps(list_at(doc, "initContainers"@), list_at(done, "initContainers"@), changed_keys())
            &&& volumes_of(doc).is_prefix_of(volumes_of(done))
            &&& list_zero_ports(list_at(done, "containers"@))
            &&& list_zero_ports(list_at(done, "initContainers"@))
        },
{
    keys_differ();
    steps_keep(ctx);
    let but = changed_keys();
    match named(doc, ctx.pod_suffix@) {
        Err(_) => {},
        Ok(d1) => {
            let m = doc.get("metadata"@)->0;
            let name = YamlView::Str(m.get("name"@)->0.text()->0 + "-"@ + ctx.pod_suffix@);
            let m2 = m.put("name"@, name);
            doc.get_put("metadata"@, m2, "spec"@);
            m.get_put("name"@, name, seq![]);
            assert(d1.get("metadata"@) == Some(m2));
            assert forall|k: Seq<char>| k != "name"@ implies #[trigger] m2.get(k) == m.get(k) by {
                m.get_put("name"@, name, k);
            }
            assert forall|k: Seq<char>| k != "metadata"@ implies #[trigger] d1.get(k) == doc.get(k) by {
                doc.get_put("metadata"@, m2, k);
            }
            assert(list_at(d1, "containers"@) == list_at(doc, "containers"@));
            assert(list_at(d1, "initContainers"@) == list_at(doc, "initContainers"@));
            assert(list_at(d1, "volumes"@) == list_at(doc, "volumes"@));

            let f2 = |c: YamlView| tag_resolved(c, ctx.tag@);
            let d2 = on_containers(d1, f2);
            on_containers_keeps(d1, f2, but);
            let f3 = |items: Seq<YamlView>| primary_set(items, ctx.primary_image@, ctx.tag@);
            let d3 = on_lists(d2, f3);
            assert forall|items: Seq<YamlView>| list_keeps(Some(items), Some(#[trigger] f3(items)), but) by {
                primary_keeps(items, ctx.primary_image@, ctx.tag@);
            }
            on_lists_keeps(d2, f3, but);
            let f4 = |c: YamlView| overridden(c, ctx.image_overrides@);
            let d4 = if ctx.image_overrides@.len() == 0 {
                d3
            } else {
                on_containers(d3, f4)
            };
            on_containers_keeps(d3, f4, but);
            doc_keeps_itself(d3, but);
            let f5 = |c: YamlView| ports_zeroed(c);
            let d5 = on_containers(d4, f5);
            on_containers_keeps(d4, f5, but);
            assert(list_zero_ports(list_at(d5, "containers"@)) && list_zero_ports(list_at(d5, "initContainers"@))) by {
                assert forall|c: YamlView| zero_ports(#[trigger] f5(c)) by {
                    ports_become_zero(c);
                }
            }
            let f6 = |c: YamlView| env_injected(c, ctx.env_vars@);
            let d6 = if ctx.env_vars@.len() == 0 {
                d5
            } else {
                on_containers(d5, f6)
            };
            on_containers_keeps(d5, f6, late_keys());
            doc_keeps_itself(d5, late_keys());
            let done = volumes_added(d6, ctx.app_name@, volume_views(ctx.volumes@));
            adding_volumes_keeps(d6, ctx.app_name@, volume_views(ctx.volumes@));
            doc_chain(d5, d6, done, late_keys());
            late_steps_keep_zero(list_at(d5, "containers"@), list_at(done, "containers"@));
            late_steps_keep_zero(list_at(d5, "initContainers"@), list_at(done, "initContainers"@));
            widen(d5, done);
            doc_chain(d1, d2, d3, but);
            doc_chain(d1, d3, d4, but);
            doc_chain(d1, d4, d5, but);
            doc_chain(d1, d5, done, but);
            assert(done.get("metadata"@) == d1.get("metadata"@));
            assert forall|k: Seq<char>| k != "metadata"@ && k != "spec"@ implies #[trigger] done.get(k) == doc.get(k) by {
                assert(d1.get(k) == doc.get(k));
            }
        },
    }
}

/// Every variable handed in is named afterwards in each container that can
/// have variables, whether it was there before or was added.
pub proof fn every_variable_is_named(c: YamlView, vars: Seq<String>, i: int)
    requires
        c.is_mapping(),
        c.get("env"@) is None || c.get("env"@)->0.items() is Some,
        0 <= i < vars.len(),
    ensures
        names(items_at(env_injected(c, vars), "env"@), crate::manifest::env_pair(vars[i]@).0),
{
    keys_differ();
    let existing = items_at(c, "env"@);
    let fresh = new_env(existing, vars);
    let key = crate::manifest::env_pair(vars[i]@).0;
    append_keeps(c, "env"@, fresh, late_keys());
    let all = existing + fresh;
    assert(items_at(env_injected(c, vars), "env"@) == all);
    if names(existing, key) {
        let j = choose|j: int| 0 <= j < existing.len() && #[trigger] field_is(existing[j], "name"@, key);
        assert(all[j] == existing[j]);
        assert(field_is(all[j], "name"@, key));
    } else {
        let j = fresh_entry(existing, vars, i);
        assert(all[existing.len() + j] == fresh[j]);
        assert(field_is(all[existing.len() + j], "name"@, key));
    }
}

proof fn fresh_entry(existing: Seq<YamlView>, vars: Seq<String>, i: int) -> (j: int)
    requires
        0 <= i < vars.len(),
        !names(existing, crate::manifest::env_pair(vars[i]@).0),
    ensures
        0 <= j < new_env(existing, vars).len(),
        field_is(new_env(existing, vars)[j], "name"@, crate::manifest::env_pair(vars[i]@).0),
    decreases vars.len(),
{
    if i == vars.len() - 1 {
        let pair = crate::manifest::env_pair(vars[i]@);
        let entry = crate::manifest::env_entry(pair);
        reveal_with_fuel(YamlView::index_of, 2);
        assert(entry.get("name"@) == Some(YamlView::Str(pair.0)));
        new_env(existing, vars).len() - 1
    } else {
        let j = fresh_entry(existing, vars.drop_last(), i);
        assert(vars.drop_last()[i] == vars[i]);
        j
    }
}

// ── Volume names ────────────────────────────────────────────────────────────

/// Whether a character may stand in a DNS label: a small letter, a digit or a
/// hyphen.
pub open spec fn in_label(c: char) -> bool {
    ('a' <= c && c <= 'z') || ('0' <= c && c <= '9') || c == '-'
}

proof fn label_holds(s: Seq<char>)
    ensures
        forall|i: int| 0 <= i < label(s).len() ==> in_label(#[trigger] label(s)[i]),
        forall|i: int| 0 < i < label(s).len() ==> !(label(s)[i - 1] == '-' && #[trigger] label(s)[i] == '-'),
    decreases s.len(),
{
    if s.len() > 0 {
        label_holds(s.drop_last());
        let before = label(s.drop_last());
        assert(label(s) == before || (label_char(s.last()) is Some && label(s) == before.push(
            label_char(s.last())->0,
        )));
    }
}

proof fn cut_keeps(s: Seq<char>)
    requires
        s.len() > 0,
        is_alnum(s[0]),
    ensures
        0 < cut_tail(s).len() <= s.len(),
        is_alnum(cut_tail(s).last()),
        forall|i: int| 0 <= i < cut_tail(s).len() ==> #[trigger] cut_tail(s)[i] == s[i],
    decreases s.len(),
{
    if s.len() > 1 && !is_alnum(s.last()) {
        cut_keeps(s.drop_last());
    }
}

/// The name of a volume is fit for a DNS label: it has at most 63 characters,
/// each a small letter, a digit or a hyphen, and one that had to be cut ends
/// with a letter or digit. The app's name has to be fit for that itself.
pub proof fn volume_names_are_labels(app: Seq<char>, mount_path: Seq<char>)
    requires
        forall|i: int| 0 <= i < app.len() ==> in_label(#[trigger] app[i]),
    ensures
        volume_name(app, mount_path).len() <= 63,
        forall|i: int|
            0 <= i < volume_name(app, mount_path).len() ==> in_label(#[trigger] volume_name(app, mount_path)[i]),
        volume_name(app, mount_path) != "slip-"@ + app + "-"@ + label(without_slashes(mount_path)) ==> is_alnum(
            volume_name(app, mount_path).last(),
        ),
{
    reveal_strlit("slip-");
    reveal_strlit("-");
    let tail = label(without_slashes(mount_path));
    let name = "slip-"@ + app + "-"@ + tail;
    label_holds(without_slashes(mount_path));
    assert forall|i: int| 0 <= i < name.len() implies in_label(#[trigger] name[i]) by {
        if 5 <= i < 5 + app.len() {
            assert(name[i] == app[i - 5]);
        } else if i >= 6 + app.len() {
            assert(name[i] == tail[i - 6 - app.len()]);
        }
    }
    ascii_bytes(name);
    if byte_len(name) > 63 {
        cut_keeps(name.take(63));
    }
}

/// A text of characters that DNS labels have takes one byte for each.
proof fn ascii_bytes(s: Seq<char>)
    requires
        forall|i: int| 0 <= i < s.len() ==> in_label(#[trigger] s[i]),
    ensures
        byte_len(s) == s.len(),
{
    assert(vstd::utf8::is_ascii_chars(s));
    vstd::utf8::is_ascii_chars_encode_utf8(s);
}

// ── What rendering adds ─────────────────────────────────────────────────────

/// Setting a key of a mapping leaves it a mapping.
proof fn put_stays(c: YamlView, key: Seq<char>, value: YamlView)
    ensures
        c.put(key, value).is_mapping() == c.is_mapping(),
    decreases c,
{
    match c {
        YamlView::Tagged(_, y) => put_stays(*y, key, value),
        _ => {},
    }
}

/// Which container is set to a tag of an image: the first one that runs it.
proof fn primary_item(items: Seq<YamlView>, image: Seq<char>, tag: Seq<char>, i: int)
    requires
        0 <= i < items.len(),
    ensures
        primary_set(items, image, tag).len() == items.len(),
        primary_set(items, image, tag)[i] == if runs_image(items[i], image) && forall|k: int|
            0 <= k < i ==> !runs_image(#[trigger] items[k], image) {
            items[i].put("image"@, YamlView::Str(image + ":"@ + tag))
        } else {
            items[i]
        },
    decreases items.len(),
{
    primary_keeps(items, image, tag);
    if !runs_image(items[0], image) {
        let rest = items.skip(1);
        if i > 0 {
            primary_item(rest, image, tag, i - 1);
            assert(rest[i - 1] == items[i]);
            assert((forall|k: int| 0 <= k < i ==> !runs_image(#[trigger] items[k], image)) <==> (forall|k: int|
                0 <= k < i - 1 ==> !runs_image(#[trigger] rest[k], image))) by {
                assert forall|k: int| 0 <= k < i - 1 implies #[trigger] rest[k] == items[k + 1] by {}
                if forall|k: int| 0 <= k < i - 1 ==> !runs_image(#[trigger] rest[k], image) {
                    assert forall|k: int| 0 <= k < i implies !runs_image(#[trigger] items[k], image) by {
                        if k > 0 {
                            assert(rest[k - 1] == items[k]);
                        }
                    }
                }
            }
        }
    } else if i > 0 {
        assert(!(forall|k: int| 0 <= k < i ==> !runs_image(#[trigger] items[k], image))) by {
            assert(runs_image(items[0], image));
        }
    }
}

/// The document after all changes but the volumes.
spec fn without_volumes(doc: YamlView, ctx: RenderContext) -> YamlView {
    let d1 = named(doc, ctx.pod_suffix@)->Ok_0;
    let d2 = on_containers(d1, |c: YamlView| tag_resolved(c, ctx.tag@));
    let d3 = on_lists(d2, |items: Seq<YamlView>| primary_set(items, ctx.primary_image@, ctx.tag@));
    let d4 = if ctx.image_overrides@.len() == 0 {
        d3
    } else {
        on_containers(d3, |c: YamlView| overridden(c, ctx.image_overrides@))
    };
    let d5 = on_containers(d4, |c: YamlView| ports_zeroed(c));
    if ctx.env_vars@.len() == 0 {
        d5
    } else {
        on_containers(d5, |c: YamlView| env_injected(c, ctx.env_vars@))
    }
}

/// A container after all changes but the volumes: `c` as it came, `p` with its tag
/// resolved and set, `e` after all.
spec fn comes_to(c: YamlView, p: YamlView, e: YamlView, ctx: RenderContext) -> bool {
    let o = if ctx.image_overrides@.len() == 0 {
        p
    } else {
        overridden(p, ctx.image_overrides@)
    };
    e == if ctx.env_vars@.len() == 0 {
        ports_zeroed(o)
    } else {
        env_injected(ports_zeroed(o), ctx.env_vars@)
    }
}

/// What a list comes to after all changes but the volumes.
proof fn lists_come_to(doc: YamlView, ctx: RenderContext)
    requires
        named(doc, ctx.pod_suffix@) is Ok,
    ensures
        ({
            let d6 = without_volumes(doc, ctx);
            &&& list_at(d6, "volumes"@) == list_at(doc, "volumes"@)
            &&& list_comes_to(list_at(doc, "containers"@), list_at(d6, "containers"@), ctx)
            &&& list_comes_to(list_at(doc, "initContainers"@), list_at(d6, "initContainers"@), ctx)
            &&& doc.get("spec"@) is Some <==> d6.get("spec"@) is Some
            &&& doc.get("spec"@) is Some ==> d6.get("spec"@)->0.get("volumes"@) == doc.get("spec"@)->0.get("volumes"@)
            &&& doc.get("spec"@) is Some ==> d6.get("spec"@)->0.is_mapping() == doc.get("spec"@)->0.is_mapping()
        }),
{
    keys_differ();
    steps_keep(ctx);
    let but = changed_keys();
    let d1 = named(doc, ctx.pod_suffix@)->Ok_0;
    let m = doc.get("metadata"@)->0;
    let name = YamlView::Str(m.get("name"@)->0.text()->0 + "-"@ + ctx.pod_suffix@);
    doc.get_put("metadata"@, m.put("name"@, name), "spec"@);
    assert(d1.get("spec"@) == doc.get("spec"@));
    let f2 = |c: YamlView| tag_resolved(c, ctx.tag@);
    let d2 = on_containers(d1, f2);
    on_containers_keeps(d1, f2, but);
    spec_stays(d1, |items: Seq<YamlView>| items.map_values(f2));
    let f3 = |items: Seq<YamlView>| primary_set(items, ctx.primary_image@, ctx.tag@);
    let d3 = on_lists(d2, f3);
    assert forall|items: Seq<YamlView>| list_keeps(Some(items), Some(#[trigger] f3(items)), but) by {
        primary_keeps(items, ctx.primary_image@, ctx.tag@);
    }
    on_lists_keeps(d2, f3, but);
    spec_stays(d2, f3);
    let f4 = |c: YamlView| overridden(c, ctx.image_overrides@);
    let d4 = if ctx.image_overrides@.len() == 0 {
        d3
    } else {
        on_containers(d3, f4)
    };
    on_containers_keeps(d3, f4, but);
    spec_stays(d3, |items: Seq<YamlView>| items.map_values(f4));
    let f5 = |c: YamlView| ports_zeroed(c);
    let d5 = on_containers(d4, f5);
    on_containers_keeps(d4, f5, but);
    spec_stays(d4, |items: Seq<YamlView>| items.map_values(f5));
    let f6 = |c: YamlView| env_injected(c, ctx.env_vars@);
    on_containers_keeps(d5, f6, late_keys());
    spec_stays(d5, |items: Seq<YamlView>| items.map_values(f6));
}

/// What the items of a list come to.
spec fn list_comes_to(before: Option<Seq<YamlView>>, after: Option<Seq<YamlView>>, ctx: RenderContext) -> bool {
    match (before, after) {
        (Some(b), Some(a)) => {
            let resolved = b.map_values(|c: YamlView| tag_resolved(c, ctx.tag@));
            let set = primary_set(resolved, ctx.primary_image@, ctx.tag@);
            &&& a.len() == set.len()
            &&& forall|i: int| 0 <= i < a.len() ==> comes_to(b[i], set[i], #[trigger] a[i], ctx)
        },
        (None, None) => true,
        _ => false,
    }
}

/// Changing container lists leaves the volumes of the pod alone.
proof fn spec_stays(doc: YamlView, f: spec_fn(Seq<YamlView>) -> Seq<YamlView>)
    ensures
        doc.get("spec"@) is Some <==> on_lists(doc, f).get("spec"@) is Some,
        doc.get("spec"@) is Some ==> {
            &&& on_lists(doc, f).get("spec"@)->0.get("volumes"@) == doc.get("spec"@)->0.get("volumes"@)
            &&& on_lists(doc, f).get("spec"@)->0.is_mapping() == doc.get("spec"@)->0.is_mapping()
        },
{
    keys_differ();
    one_list_stays(doc, "containers"@, f);
    one_list_stays(on_list(doc, "containers"@, f), "initContainers"@, f);
}

proof fn one_list_stays(doc: YamlView, key: Seq<char>, f: spec_fn(Seq<YamlView>) -> Seq<YamlView>)
    requires
        key != "volumes"@,
    ensures
        doc.get("spec"@) is Some <==> on_list(doc, key, f).get("spec"@) is Some,
        doc.get("spec"@) is Some ==> {
            &&& on_list(doc, key, f).get("spec"@)->0.get("volumes"@) == doc.get("spec"@)->0.get("volumes"@)
            &&& on_list(doc, key, f).get("spec"@)->0.is_mapping() == doc.get("spec"@)->0.is_mapping()
        },
{
    if list_at(doc, key) is Some {
        let items = f(list_at(doc, key)->0);
        set_list_frame(doc, key, items);
        let s = doc.get("spec"@)->0;
        let l = s.get(key)->0;
        put_stays(s, key, l.with_items(items));
        doc.get_put("spec"@, s.put(key, l.with_items(items)), seq![]);
        assert(set_list(doc, key, items).get("spec"@)->0.get("volumes"@) == s.get("volumes"@));
    }
}

/// Whether the pod can have volumes.
pub open spec fn takes_volumes(doc: YamlView) -> bool {
    &&& doc.get("spec"@) matches Some(s) && s.is_mapping() && (s.get("volumes"@) matches Some(l) ==> l.items() is Some)
}

/// Whether a container can have entries under a key.
pub open spec fn takes(c: YamlView, key: Seq<char>) -> bool {
    c.is_mapping() && (c.get(key) matches Some(l) ==> l.items() is Some)
}

/// Whether a pod has a volume of a name that is a path of the host.
pub open spec fn has_host_volume(doc: YamlView, name: Seq<char>, host_path: Seq<char>) -> bool {
    exists|j: int|
        0 <= j < volumes_of(doc).len() && {
            let v = #[trigger] volumes_of(doc)[j];
            &&& v.get("name"@) == Some(YamlView::Str(name))
            &&& v.get("hostPath"@) is Some
            &&& v.get("hostPath"@)->0.get("path"@) == Some(YamlView::Str(host_path))
        }
}

/// Whether a container mounts a volume at a path, in a mode.
pub open spec fn has_mount(c: YamlView, name: Seq<char>, path: Seq<char>, read_only: bool) -> bool {
    exists|j: int|
        0 <= j < items_at(c, "volumeMounts"@).len() && {
            let m = #[trigger] items_at(c, "volumeMounts"@)[j];
            &&& m.get("name"@) == Some(YamlView::Str(name))
            &&& m.get("mountPath"@) == Some(YamlView::Str(path))
            &&& m.get("readOnly"@) == Some(YamlView::Bool(read_only))
        }
}

/// Whether every container of a list that can have mounts has one.
pub open spec fn list_mounts(
    before: Option<Seq<YamlView>>,
    after: Option<Seq<YamlView>>,
    name: Seq<char>,
    path: Seq<char>,
    read_only: bool,
) -> bool {
    before matches Some(b) ==> after is Some && after->0.len() == b.len() && forall|i: int|
        0 <= i < b.len() && takes(b[i], "volumeMounts"@) ==> has_mount(#[trigger] after->0[i], name, path, read_only)
}

proof fn entries_read(name: Seq<char>, v: MergedVolumeView)
    ensures
        volume_entry(name, v.host_path).get("name"@) == Some(YamlView::Str(name)),
        volume_entry(name, v.host_path).get("hostPath"@) is Some,
        volume_entry(name, v.host_path).get("hostPath"@)->0.get("path"@) == Some(YamlView::Str(v.host_path)),
        mount_entry(name, v.mount_path, v.read_only).get("name"@) == Some(YamlView::Str(name)),
        mount_entry(name, v.mount_path, v.read_only).get("mountPath"@) == Some(YamlView::Str(v.mount_path)),
        mount_entry(name, v.mount_path, v.read_only).get("readOnly"@) == Some(YamlView::Bool(v.read_only)),
{
    reveal_strlit("name");
    reveal_strlit("hostPath");
    reveal_strlit("path");
    reveal_strlit("mountPath");
    reveal_strlit("readOnly");
    assert("name"@.len() == 4 && "hostPath"@.len() == 8 && "path"@.len() == 4 && "mountPath"@.len() == 9);
    assert("readOnly"@.len() == 8);
    let e = volume_entry(name, v.host_path)->Mapping_0;
    let h = e[1].1->Mapping_0;
    let m = mount_entry(name, v.mount_path, v.read_only)->Mapping_0;
    reveal_with_fuel(YamlView::index_of, 4);
    assert(e.skip(1)[0] == e[1]);
    assert(m.skip(1)[0] == m[1]);
    assert(m.skip(1).skip(1)[0] == m[2]);
}

/// A volume that is added is there, and is mounted wherever it can be.
proof fn volume_is_added(doc: YamlView, name: Seq<char>, v: MergedVolumeView)
    ensures
        ({
            let done = volume_added(doc, name, v);
            &&& takes_volumes(doc) ==> has_host_volume(done, name, v.host_path) && takes_volumes(done)
            &&& list_mounts(
                list_at(doc, "containers"@),
                list_at(done, "containers"@),
                name,
                v.mount_path,
                v.read_only,
            )
            &&& list_mounts(
                list_at(doc, "initContainers"@),
                list_at(done, "initContainers"@),
                name,
                v.mount_path,
                v.read_only,
            )
            &&& list_takes(list_at(doc, "containers"@), list_at(done, "containers"@))
            &&& list_takes(list_at(doc, "initContainers"@), list_at(done, "initContainers"@))
        }),
{
    keys_differ();
    entries_read(name, v);
    let but = late_keys();
    let empty = YamlView::Sequence(seq![]);
    let entry = volume_entry(name, v.host_path);
    let ready = match doc.get("spec"@) {
        Some(s) => doc.put("spec"@, with_list(s, "volumes"@)),
        None => doc,
    };
    if doc.get("spec"@) is Some {
        let s = doc.get("spec"@)->0;
        let s2 = with_list(s, "volumes"@);
        put_stays(s, "volumes"@, empty);
        s.get_put("volumes"@, empty, "containers"@);
        s.get_put("volumes"@, empty, "initContainers"@);
        doc.get_put("spec"@, s2, seq![]);
        assert(ready.get("spec"@) == Some(s2));
        assert(list_at(ready, "containers"@) == list_at(doc, "containers"@));
        assert(list_at(ready, "initContainers"@) == list_at(doc, "initContainers"@));
        assert(takes_volumes(doc) ==> takes_volumes(ready) && list_at(ready, "volumes"@) is Some);
    }
    let g = |items: Seq<YamlView>| items.push(entry);
    let listed = on_list(ready, "volumes"@, g);
    if list_at(ready, "volumes"@) is Some {
        let items = list_at(ready, "volumes"@)->0;
        set_list_frame(ready, "volumes"@, g(items));
        assert(list_at(listed, "containers"@) == list_at(ready, "containers"@));
        assert(list_at(listed, "initContainers"@) == list_at(ready, "initContainers"@));
        assert(volumes_of(listed)[items.len() as int] == entry);
        let s2 = ready.get("spec"@)->0;
        let l = s2.get("volumes"@)->0;
        put_stays(s2, "volumes"@, l.with_items(g(items)));
        ready.get_put("spec"@, s2.put("volumes"@, l.with_items(g(items))), seq![]);
        s2.get_put("volumes"@, l.with_items(g(items)), seq![]);
        l.items_set(g(items));
        assert(takes_volumes(ready) ==> takes_volumes(listed));
    }
    let m = mount_entry(name, v.mount_path, v.read_only);
    let f = |c: YamlView| mounted(c, m);
    assert forall|c: YamlView| keeps(c, #[trigger] f(c), but) by {
        append_keeps(c, "volumeMounts"@, seq![m], but);
    }
    on_containers_keeps(listed, f, but);
    spec_stays(listed, |items: Seq<YamlView>| items.map_values(f));
    let done = volume_added(doc, name, v);
    assert(volumes_of(done) == volumes_of(listed));
    assert forall|c: YamlView| takes(c, "volumeMounts"@) implies has_mount(#[trigger] f(c), name, v.mount_path, v.read_only)
        && takes(f(c), "volumeMounts"@) by {
        append_keeps(c, "volumeMounts"@, seq![m], but);
        let all = items_at(f(c), "volumeMounts"@);
        assert(all == items_at(c, "volumeMounts"@) + seq![m]);
        assert(all[all.len() - 1] == m);
        mounting_stays(c, m);
    }
    if takes_volumes(doc) {
        let j = volumes_of(listed).len() - 1;
        assert(volumes_of(done)[j] == entry);
    }
}

proof fn mounting_stays(c: YamlView, m: YamlView)
    requires
        takes(c, "volumeMounts"@),
    ensures
        takes(mounted(c, m), "volumeMounts"@),
{
    let key = "volumeMounts"@;
    let empty = YamlView::Sequence(seq![]);
    let mid = with_list(c, key);
    put_stays(c, key, empty);
    c.get_put(key, empty, seq![]);
    let l = mid.get(key)->0;
    let items = l.items()->0;
    put_stays(mid, key, l.with_items(items + seq![m]));
    mid.get_put(key, l.with_items(items + seq![m]), seq![]);
    l.items_set(items + seq![m]);
}

/// Whether every container of a list that can have mounts still can.
spec fn list_takes(before: Option<Seq<YamlView>>, after: Option<Seq<YamlView>>) -> bool {
    before matches Some(b) ==> after is Some && after->0.len() == b.len() && forall|i: int|
        0 <= i < b.len() && takes(b[i], "volumeMounts"@) ==> takes(#[trigger] after->0[i], "volumeMounts"@)
}

/// Whether a document mounts a volume everywhere.
spec fn mounts_everywhere(doc: YamlView, done: YamlView, name: Seq<char>, v: MergedVolumeView) -> bool {
    &&& takes_volumes(doc) ==> has_host_volume(done, name, v.host_path)
    &&& list_mounts(list_at(doc, "containers"@), list_at(done, "containers"@), name, v.mount_path, v.read_only)
    &&& list_mounts(list_at(doc, "initContainers"@), list_at(done, "initContainers"@), name, v.mount_path, v.read_only)
}

proof fn prefix_has(a: Seq<YamlView>, b: Seq<YamlView>, j: int)
    requires
        a.is_prefix_of(b),
        0 <= j < a.len(),
    ensures
        j < b.len(),
        b[j] == a[j],
{
    assert(b.subrange(0, a.len() as int)[j] == b[j]);
}

proof fn list_mounts_stay(
    given: Option<Seq<YamlView>>,
    before: Option<Seq<YamlView>>,
    after: Option<Seq<YamlView>>,
    name: Seq<char>,
    v: MergedVolumeView,
)
    requires
        list_mounts(given, before, name, v.mount_path, v.read_only),
        list_keeps(before, after, late_keys()),
    ensures
        list_mounts(given, after, name, v.mount_path, v.read_only),
{
    if given is Some {
        let a = after->0;
        let b = before->0;
        assert forall|i: int| 0 <= i < given->0.len() && takes(given->0[i], "volumeMounts"@) implies has_mount(
            #[trigger] a[i],
            name,
            v.mount_path,
            v.read_only,
        ) by {
            assert(has_mount(b[i], name, v.mount_path, v.read_only));
            assert(keeps(b[i], a[i], late_keys()));
            let from = items_at(b[i], "volumeMounts"@);
            let j = choose|j: int|
                0 <= j < from.len() && {
                    let m = #[trigger] from[j];
                    &&& m.get("name"@) == Some(YamlView::Str(name))
                    &&& m.get("mountPath"@) == Some(YamlView::Str(v.mount_path))
                    &&& m.get("readOnly"@) == Some(YamlView::Bool(v.read_only))
                };
            prefix_has(from, items_at(a[i], "volumeMounts"@), j);
            assert(items_at(a[i], "volumeMounts"@)[j] == from[j]);
        }
    }
}

/// Every volume that the manifest leaves room for is added.
proof fn volumes_are_added(given: YamlView, app: Seq<char>, volumes: Seq<MergedVolumeView>, n: int)
    requires
        0 <= n < volumes.len(),
    ensures
        takes_volumes(given) ==> takes_volumes(volumes_added(given, app, volumes)),
        list_takes(list_at(given, "containers"@), list_at(volumes_added(given, app, volumes), "containers"@)),
        list_takes(list_at(given, "initContainers"@), list_at(volumes_added(given, app, volumes), "initContainers"@)),
        !has_volume(given, volume_name(app, volumes[n].mount_path)) && !mounts_at(given, volumes[n].mount_path)
            ==> mounts_everywhere(
            given,
            volumes_added(given, app, volumes),
            volume_name(app, volumes[n].mount_path),
            volumes[n],
        ),
    decreases volumes.len(),
{
    let init = volumes.drop_last();
    let before = volumes_added(given, app, init);
    let last = volumes.last();
    let name = volume_name(app, last.mount_path);
    let done = volumes_added(given, app, volumes);
    if init.len() > 0 {
        volumes_are_added(given, app, init, 0);
    } else {
        assert(before == given);
    }
    volume_is_added(before, name, last);
    volume_keeps(before, name, last);
    doc_keeps_itself(before, late_keys());
    assert(doc_keeps(before, done, late_keys()));
    if n < volumes.len() - 1 {
        volumes_are_added(given, app, init, n);
        assert(init[n] == volumes[n]);
        let w = volumes[n];
        let other = volume_name(app, w.mount_path);
        if !has_volume(given, other) && !mounts_at(given, w.mount_path) {
            list_mounts_stay(list_at(given, "containers"@), list_at(before, "containers"@), list_at(done, "containers"@), other, w);
            list_mounts_stay(
                list_at(given, "initContainers"@),
                list_at(before, "initContainers"@),
                list_at(done, "initContainers"@),
                other,
                w,
            );
            if takes_volumes(given) {
                let from = volumes_of(before);
                let j = choose|j: int|
                    0 <= j < from.len() && {
                        let x = #[trigger] from[j];
                        &&& x.get("name"@) == Some(YamlView::Str(other))
                        &&& x.get("hostPath"@) is Some
                        &&& x.get("hostPath"@)->0.get("path"@) == Some(YamlView::Str(w.host_path))
                    };
                prefix_has(from, volumes_of(done), j);
                assert(volumes_of(done)[j] == from[j]);
            }
        }
    } else if !has_volume(given, name) && !mounts_at(given, last.mount_path) {
        assert(done == volume_added(before, name, last));
        lists_stay_mountable(given, before, done, name, last);
    }
}

proof fn lists_stay_mountable(given: YamlView, before: YamlView, done: YamlView, name: Seq<char>, v: MergedVolumeView)
    requires
        list_takes(list_at(given, "containers"@), list_at(before, "containers"@)),
        list_takes(list_at(given, "initContainers"@), list_at(before, "initContainers"@)),
        list_mounts(list_at(before, "containers"@), list_at(done, "containers"@), name, v.mount_path, v.read_only),
        list_mounts(list_at(before, "initContainers"@), list_at(done, "initContainers"@), name, v.mount_path, v.read_only),
    ensures
        list_mounts(list_at(given, "containers"@), list_at(done, "containers"@), name, v.mount_path, v.read_only),
        list_mounts(list_at(given, "initContainers"@), list_at(done, "initContainers"@), name, v.mount_path, v.read_only),
{
    let (g1, b1, a1) = (list_at(given, "containers"@), list_at(before, "containers"@), list_at(done, "containers"@));
    if g1 is Some {
        assert forall|i: int| 0 <= i < g1->0.len() && takes(g1->0[i], "volumeMounts"@) implies has_mount(
            #[trigger] a1->0[i],
            name,
            v.mount_path,
            v.read_only,
        ) by {
            assert(takes(b1->0[i], "volumeMounts"@));
        }
    }
    let (g2, b2, a2) = (
        list_at(given, "initContainers"@),
        list_at(before, "initContainers"@),
        list_at(done, "initContainers"@),
    );
    if g2 is Some {
        assert forall|i: int| 0 <= i < g2->0.len() && takes(g2->0[i], "volumeMounts"@) implies has_mount(
            #[trigger] a2->0[i],
            name,
            v.mount_path,
            v.read_only,
        ) by {
            assert(takes(b2->0[i], "volumeMounts"@));
        }
    }
}

/// What a container keeps through all changes but the volumes.
proof fn container_comes_to(items: Seq<YamlView>, i: int, e: YamlView, ctx: RenderContext)
    requires
        0 <= i < items.len(),
        comes_to(
            items[i],
            primary_set(
                items.map_values(|c: YamlView| tag_resolved(c, ctx.tag@)),
                ctx.primary_image@,
                ctx.tag@,
            )[i],
            e,
            ctx,
        ),
    ensures
        ({
            let c = items[i];
            let resolved = items.map_values(|c: YamlView| tag_resolved(c, ctx.tag@));
            let p = primary_set(resolved, ctx.primary_image@, ctx.tag@)[i];
            let o = if ctx.image_overrides@.len() == 0 {
                p
            } else {
                overridden(p, ctx.image_overrides@)
            };
            &&& e.is_mapping() == c.is_mapping()
            &&& e.get("volumeMounts"@) == c.get("volumeMounts"@)
            &&& p.get("name"@) == c.get("name"@)
            &&& p.is_mapping() == c.is_mapping()
            &&& e.get("image"@) == o.get("image"@)
            &&& e.get("ports"@) == ports_zeroed(o).get("ports"@)
            &&& o.get("ports"@) == c.get("ports"@)
            &&& o.is_mapping() == c.is_mapping()
            &&& takes(c, "env"@) ==> items_at(e, "env"@) == items_at(c, "env"@) + new_env(
                items_at(c, "env"@),
                ctx.env_vars@,
            )
        }),
{
    keys_differ();
    reveal_strlit("name");
    reveal_strlit("image");
    reveal_strlit("ports");
    reveal_strlit("env");
    reveal_strlit("volumeMounts");
    assert("name"@.len() == 4);
    let c = items[i];
    let resolved = items.map_values(|c: YamlView| tag_resolved(c, ctx.tag@));
    let r = tag_resolved(c, ctx.tag@);
    assert(resolved[i] == r);
    if c.get("image"@) is Some && c.get("image"@)->0.text() is Some {
        let v = YamlView::Str(replaced(c.get("image"@)->0.text()->0, "${tag}"@, ctx.tag@));
        c.get_put("image"@, v, "volumeMounts"@);
        c.get_put("image"@, v, "name"@);
        c.get_put("image"@, v, "env"@);
        c.get_put("image"@, v, "ports"@);
    }
    primary_item(resolved, ctx.primary_image@, ctx.tag@, i);
    let p = primary_set(resolved, ctx.primary_image@, ctx.tag@)[i];
    let w = YamlView::Str(ctx.primary_image@ + ":"@ + ctx.tag@);
    r.get_put("image"@, w, "volumeMounts"@);
    r.get_put("image"@, w, "name"@);
    r.get_put("image"@, w, "env"@);
    r.get_put("image"@, w, "ports"@);
    let o = if ctx.image_overrides@.len() == 0 {
        p
    } else {
        overridden(p, ctx.image_overrides@)
    };
    if p.get("name"@) is Some && p.get("name"@)->0.text() is Some {
        match crate::manifest::lookup(ctx.image_overrides@, p.get("name"@)->0.text()->0) {
            Some(image) => {
                p.get_put("image"@, YamlView::Str(image), "volumeMounts"@);
                p.get_put("image"@, YamlView::Str(image), "env"@);
                p.get_put("image"@, YamlView::Str(image), "ports"@);
            },
            None => {},
        }
    }
    let z = ports_zeroed(o);
    if o.get("ports"@) is Some && o.get("ports"@)->0.items() is Some {
        let v = o.get("ports"@)->0;
        let w = v.with_items(v.items()->0.map_values(|p: YamlView| port_zeroed(p)));
        o.get_put("ports"@, w, "volumeMounts"@);
        o.get_put("ports"@, w, "env"@);
        o.get_put("ports"@, w, "image"@);
    }
    assert(z.get("env"@) == c.get("env"@));
    assert(z.get("volumeMounts"@) == c.get("volumeMounts"@));
    if ctx.env_vars@.len() > 0 {
        append_keeps(z, "env"@, new_env(items_at(z, "env"@), ctx.env_vars@), set!["env"@]);
        assert(!set!["env"@].contains("volumeMounts"@));
        assert(!set!["env"@].contains("image"@));
        assert(!set!["env"@].contains("ports"@));
        appending_stays(z, "env"@, new_env(items_at(z, "env"@), ctx.env_vars@));
    } else {
        assert(items_at(c, "env"@) + new_env(items_at(c, "env"@), ctx.env_vars@) =~= items_at(c, "env"@));
    }
}

proof fn appending_stays(c: YamlView, key: Seq<char>, entries: Seq<YamlView>)
    ensures
        appended(with_list(c, key), key, entries).is_mapping() == c.is_mapping(),
{
    let mid = with_list(c, key);
    put_stays(c, key, YamlView::Sequence(seq![]));
    if mid.get(key) is Some && mid.get(key)->0.items() is Some {
        let l = mid.get(key)->0;
        put_stays(mid, key, l.with_items(l.items()->0 + entries));
    }
}

/// What a list says of mounts stays through all changes but the volumes.
proof fn mounts_stay(before: Option<Seq<YamlView>>, after: Option<Seq<YamlView>>, ctx: RenderContext, path: Seq<char>)
    requires
        list_comes_to(before, after, ctx),
    ensures
        (before is Some && mounts_in(before->0, path)) == (after is Some && mounts_in(after->0, path)),
        before is Some ==> after->0.len() == before->0.len() && forall|i: int|
            0 <= i < before->0.len() ==> (#[trigger] after->0[i]).is_mapping() == before->0[i].is_mapping()
                && after->0[i].get("volumeMounts"@) == before->0[i].get("volumeMounts"@),
{
    if before is Some {
        let b = before->0;
        let a = after->0;
        let resolved = b.map_values(|c: YamlView| tag_resolved(c, ctx.tag@));
        primary_keeps(resolved, ctx.primary_image@, ctx.tag@);
        assert(a.len() == b.len());
        assert forall|i: int| 0 <= i < b.len() implies (#[trigger] a[i]).is_mapping() == b[i].is_mapping() && a[i].get(
            "volumeMounts"@,
        ) == b[i].get("volumeMounts"@) by {
            container_comes_to(b, i, a[i], ctx);
        }
        assert forall|i: int| 0 <= i < b.len() implies items_at(#[trigger] a[i], "volumeMounts"@) == items_at(
            b[i],
            "volumeMounts"@,
        ) by {}
        if mounts_in(b, path) {
            let (i, j) = choose|i: int, j: int|
                0 <= i < b.len() && 0 <= j < items_at(b[i], "volumeMounts"@).len() && #[trigger] field_is(
                    items_at(b[i], "volumeMounts"@)[j],
                    "mountPath"@,
                    path,
                );
            assert(items_at(a[i], "volumeMounts"@) == items_at(b[i], "volumeMounts"@));
            assert(field_is(items_at(a[i], "volumeMounts"@)[j], "mountPath"@, path));
        }
        if mounts_in(a, path) {
            let (i, j) = choose|i: int, j: int|
                0 <= i < a.len() && 0 <= j < items_at(a[i], "volumeMounts"@).len() && #[trigger] field_is(
                    items_at(a[i], "volumeMounts"@)[j],
                    "mountPath"@,
                    path,
                );
            assert(items_at(a[i], "volumeMounts"@) == items_at(b[i], "volumeMounts"@));
            assert(field_is(items_at(b[i], "volumeMounts"@)[j], "mountPath"@, path));
        }
    }
}

/// Every volume whose name and mount path the manifest does not use itself is a
/// volume of the rendered pod with its host path, and every container has it
/// mounted at its mount path in its mode, as far as pod and containers can have
/// volumes and mounts.
pub proof fn rendering_mounts_every_volume(doc: YamlView, ctx: RenderContext, n: int)
    requires
        rendered_doc(doc, ctx) is Ok,
        0 <= n < ctx.volumes@.len(),
        !(exists|j: int|
            0 <= j < volumes_of(doc).len() && #[trigger] field_is(
                volumes_of(doc)[j],
                "name"@,
                volume_name(ctx.app_name@, ctx.volumes@[n].mount_path@),
            )),
        !mounts_at(doc, ctx.volumes@[n].mount_path@),
    ensures
        ({
            let done = rendered_doc(doc, ctx)->Ok_0;
            let v = ctx.volumes@[n];
            let name = volume_name(ctx.app_name@, v.mount_path@);
            &&& takes_volumes(doc) ==> has_host_volume(done, name, v.host_path@)
            &&& list_mounts(
                list_at(doc, "containers"@),
                list_at(done, "containers"@),
                name,
                v.mount_path@,
                v.read_only,
            )
            &&& list_mounts(
                list_at(doc, "initContainers"@),
                list_at(done, "initContainers"@),
                name,
                v.mount_path@,
                v.read_only,
            )
        }),
{
    let d6 = without_volumes(doc, ctx);
    let views = volume_views(ctx.volumes@);
    let v = views[n];
    let name = volume_name(ctx.app_name@, v.mount_path);
    lists_come_to(doc, ctx);
    mounts_stay(list_at(doc, "containers"@), list_at(d6, "containers"@), ctx, v.mount_path);
    mounts_stay(list_at(doc, "initContainers"@), list_at(d6, "initContainers"@), ctx, v.mount_path);
    if has_volume(d6, name) {
        let list = list_at(d6, "volumes"@)->0;
        let j = choose|j: int| 0 <= j < list.len() && #[trigger] field_is(list[j], "name"@, name);
        assert(volumes_of(doc) == list);
        assert(field_is(volumes_of(doc)[j], "name"@, name));
    }
    assert(!mounts_at(d6, v.mount_path));
    volumes_are_added(d6, ctx.app_name@, views, n);
    let done = volumes_added(d6, ctx.app_name@, views);
    assert(rendered_doc(doc, ctx) == Ok::<YamlView, crate::manifest::ManifestErrorView>(done));
    assert(takes_volumes(doc) ==> takes_volumes(d6));
    let (b1, m1, a1) = (list_at(doc, "containers"@), list_at(d6, "containers"@), list_at(done, "containers"@));
    if b1 is Some {
        assert forall|i: int| 0 <= i < b1->0.len() && takes(b1->0[i], "volumeMounts"@) implies has_mount(
            #[trigger] a1->0[i],
            name,
            v.mount_path,
            v.read_only,
        ) by {
            assert(m1->0[i].get("volumeMounts"@) == b1->0[i].get("volumeMounts"@));
            assert(takes(m1->0[i], "volumeMounts"@));
        }
    }
    let (b2, m2, a2) = (
        list_at(doc, "initContainers"@),
        list_at(d6, "initContainers"@),
        list_at(done, "initContainers"@),
    );
    if b2 is Some {
        assert forall|i: int| 0 <= i < b2->0.len() && takes(b2->0[i], "volumeMounts"@) implies has_mount(
            #[trigger] a2->0[i],
            name,
            v.mount_path,
            v.read_only,
        ) by {
            assert(m2->0[i].get("volumeMounts"@) == b2->0[i].get("volumeMounts"@));
            assert(takes(m2->0[i], "volumeMounts"@));
        }
    }
}

/// What a container of the rendered document comes from.
proof fn container_of(doc: YamlView, ctx: RenderContext, key: Seq<char>, i: int) -> (e: YamlView)
    requires
        rendered_doc(doc, ctx) is Ok,
        key == "containers"@ || key == "initContainers"@,
        list_at(doc, key) is Some,
        0 <= i < list_at(doc, key)->0.len(),
    ensures
        list_at(rendered_doc(doc, ctx)->Ok_0, key) is Some,
        list_at(rendered_doc(doc, ctx)->Ok_0, key)->0.len() == list_at(doc, key)->0.len(),
        keeps(e, list_at(rendered_doc(doc, ctx)->Ok_0, key)->0[i], late_keys()),
        comes_to(
            list_at(doc, key)->0[i],
            primary_set(
                list_at(doc, key)->0.map_values(|c: YamlView| tag_resolved(c, ctx.tag@)),
                ctx.primary_image@,
                ctx.tag@,
            )[i],
            e,
            ctx,
        ),
{
    let d6 = without_volumes(doc, ctx);
    let views = volume_views(ctx.volumes@);
    lists_come_to(doc, ctx);
    adding_volumes_keeps(d6, ctx.app_name@, views);
    let b = list_at(doc, key)->0;
    let resolved = b.map_values(|c: YamlView| tag_resolved(c, ctx.tag@));
    primary_keeps(resolved, ctx.primary_image@, ctx.tag@);
    let e = list_at(d6, key)->0[i];
    assert(keeps(e, list_at(volumes_added(d6, ctx.app_name@, views), key)->0[i], late_keys()));
    e
}

/// Every variable handed in is one of the rendered container: it is named there, and
/// has the value handed in unless the manifest names it itself.
pub proof fn rendering_sets_every_variable(
    doc: YamlView,
    ctx: RenderContext,
    key: Seq<char>,
    i: int,
    n: int,
    name: Seq<char>,
    value: Seq<char>,
)
    requires
        rendered_doc(doc, ctx) is Ok,
        key == "containers"@ || key == "initContainers"@,
        list_at(doc, key) is Some,
        0 <= i < list_at(doc, key)->0.len(),
        takes(list_at(doc, key)->0[i], "env"@),
        0 <= n < ctx.env_vars@.len(),
        ctx.env_vars@[n]@ == name + seq!['='] + value,
        !name.contains('='),
    ensures
        ({
            let c = list_at(doc, key)->0[i];
            let done = list_at(rendered_doc(doc, ctx)->Ok_0, key)->0[i];
            &&& exists|j: int|
                0 <= j < items_at(done, "env"@).len() && #[trigger] field_is(items_at(done, "env"@)[j], "name"@, name)
            &&& !(exists|j: int|
                0 <= j < items_at(c, "env"@).len() && #[trigger] field_is(items_at(c, "env"@)[j], "name"@, name))
                ==> exists|j: int|
                0 <= j < items_at(done, "env"@).len() && #[trigger] field_is(items_at(done, "env"@)[j], "name"@, name)
                    && field_is(items_at(done, "env"@)[j], "value"@, value)
        }),
{
    let e = container_of(doc, ctx, key, i);
    let items = list_at(doc, key)->0;
    let c = items[i];
    let done = list_at(rendered_doc(doc, ctx)->Ok_0, key)->0[i];
    container_comes_to(items, i, e, ctx);
    variable_splits(ctx.env_vars@[n]@, name, value);
    let existing = items_at(c, "env"@);
    let fresh = new_env(existing, ctx.env_vars@);
    let all = existing + fresh;
    assert(items_at(e, "env"@) == all);
    if names(existing, name) {
        let j = choose|j: int| 0 <= j < existing.len() && #[trigger] field_is(existing[j], "name"@, name);
        assert(all[j] == existing[j]);
        prefix_has(all, items_at(done, "env"@), j);
        assert(field_is(items_at(done, "env"@)[j], "name"@, name));
    } else {
        let k = fresh_pair(existing, ctx.env_vars@, n);
        let j = existing.len() + k;
        assert(all[j] == fresh[k]);
        prefix_has(all, items_at(done, "env"@), j);
        assert(field_is(items_at(done, "env"@)[j], "name"@, name));
        assert(field_is(items_at(done, "env"@)[j], "value"@, value));
    }
}

proof fn variable_splits(kv: Seq<char>, name: Seq<char>, value: Seq<char>)
    requires
        kv == name + seq!['='] + value,
        !name.contains('='),
    ensures
        crate::manifest::env_pair(kv) == (name, value),
{
    let at = name.len() as int;
    assert(kv[at] == '=');
    assert forall|k: int| 0 <= k < at implies kv[k] != '=' by {
        assert(name[k] == kv[k]);
        assert(name.contains(name[k]));
    }
    kv.index_of_first_ensures('=');
    assert(kv.contains('='));
    assert(kv.index_of_first('=') == Some(at));
    assert(kv.take(at) =~= name);
    assert(kv.skip(at + 1) =~= value);
}

proof fn fresh_pair(existing: Seq<YamlView>, vars: Seq<String>, i: int) -> (j: int)
    requires
        0 <= i < vars.len(),
        !names(existing, crate::manifest::env_pair(vars[i]@).0),
    ensures
        0 <= j < new_env(existing, vars).len(),
        field_is(new_env(existing, vars)[j], "name"@, crate::manifest::env_pair(vars[i]@).0),
        field_is(new_env(existing, vars)[j], "value"@, crate::manifest::env_pair(vars[i]@).1),
    decreases vars.len(),
{
    if i == vars.len() - 1 {
        let pair = crate::manifest::env_pair(vars[i]@);
        let entry = crate::manifest::env_entry(pair);
        reveal_strlit("name");
        reveal_strlit("value");
        assert("name"@.len() == 4 && "value"@.len() == 5);
        reveal_with_fuel(YamlView::index_of, 3);
        let m = entry->Mapping_0;
        assert(m.skip(1)[0] == m[1]);
        assert(entry.get("name"@) == Some(YamlView::Str(pair.0)));
        assert(entry.get("value"@) == Some(YamlView::Str(pair.1)));
        new_env(existing, vars).len() - 1
    } else {
        let j = fresh_pair(existing, vars.drop_last(), i);
        assert(vars.drop_last()[i] == vars[i]);
        j
    }
}

/// The image of a container, if it is a text.
pub open spec fn image_of(c: YamlView) -> Option<Seq<char>> {
    match c.get("image"@) {
        Some(v) => v.text(),
        None => None,
    }
}

/// The name of a container, if it is a text.
pub open spec fn name_of(c: YamlView) -> Option<Seq<char>> {
    match c.get("name"@) {
        Some(v) => v.text(),
        None => None,
    }
}

/// Whether an override names a container.
pub open spec fn is_overridden(c: YamlView, overrides: Seq<(String, String)>) -> bool {
    exists|p: int| 0 <= p < overrides.len() && Some((#[trigger] overrides[p]).0@) == name_of(c)
}

proof fn lookup_finds(pairs: Seq<(String, String)>, key: Seq<char>, p: int)
    requires
        0 <= p < pairs.len(),
        pairs[p].0@ == key,
        forall|q: int| 0 <= q < p ==> (#[trigger] pairs[q]).0@ != key,
    ensures
        crate::manifest::lookup(pairs, key) == Some(pairs[p].1@),
    decreases p,
{
    if p > 0 {
        let rest = pairs.skip(1);
        assert(pairs[0].0@ != key);
        assert forall|q: int| 0 <= q < p - 1 implies (#[trigger] rest[q]).0@ != key by {
            assert(rest[q] == pairs[q + 1]);
        }
        lookup_finds(rest, key, p - 1);
    }
}

proof fn lookup_fails(pairs: Seq<(String, String)>, key: Seq<char>)
    requires
        forall|q: int| 0 <= q < pairs.len() ==> (#[trigger] pairs[q]).0@ != key,
    ensures
        crate::manifest::lookup(pairs, key) is None,
    decreases pairs.len(),
{
    if pairs.len() > 0 {
        let rest = pairs.skip(1);
        assert(pairs[0].0@ != key);
        assert forall|q: int| 0 <= q < rest.len() implies (#[trigger] rest[q]).0@ != key by {
            assert(rest[q] == pairs[q + 1]);
        }
        lookup_fails(rest, key);
    }
}

/// A container that has an image and that an override names runs the image that the
/// first such override gives.
pub proof fn rendering_overrides_images(doc: YamlView, ctx: RenderContext, key: Seq<char>, i: int, p: int)
    requires
        rendered_doc(doc, ctx) is Ok,
        key == "containers"@ || key == "initContainers"@,
        list_at(doc, key) is Some,
        0 <= i < list_at(doc, key)->0.len(),
        list_at(doc, key)->0[i].get("image"@) is Some,
        0 <= p < ctx.image_overrides@.len(),
        name_of(list_at(doc, key)->0[i]) == Some(ctx.image_overrides@[p].0@),
        forall|q: int| 0 <= q < p ==> (#[trigger] ctx.image_overrides@[q]).0@ != ctx.image_overrides@[p].0@,
    ensures
        image_of(list_at(rendered_doc(doc, ctx)->Ok_0, key)->0[i]) == Some(ctx.image_overrides@[p].1@),
{
    keys_differ();
    let e = container_of(doc, ctx, key, i);
    let items = list_at(doc, key)->0;
    let c = items[i];
    let done = list_at(rendered_doc(doc, ctx)->Ok_0, key)->0[i];
    container_comes_to(items, i, e, ctx);
    lookup_finds(ctx.image_overrides@, ctx.image_overrides@[p].0@, p);
    assert(!late_keys().contains("image"@));
    assert(done.get("image"@) == e.get("image"@));
    let resolved = items.map_values(|c: YamlView| tag_resolved(c, ctx.tag@));
    let set = primary_set(resolved, ctx.primary_image@, ctx.tag@)[i];
    image_is_set(items, i, ctx);
    set.get_put("image"@, YamlView::Str(ctx.image_overrides@[p].1@), seq![]);
}

/// What the image of a container is once the tag is resolved and set.
proof fn image_is_set(items: Seq<YamlView>, i: int, ctx: RenderContext)
    requires
        0 <= i < items.len(),
    ensures
        ({
            let c = items[i];
            let resolved = items.map_values(|c: YamlView| tag_resolved(c, ctx.tag@));
            let p = primary_set(resolved, ctx.primary_image@, ctx.tag@)[i];
            let text = |c: YamlView|
                match image_of(c) {
                    Some(s) => if has_text(s, "${tag}"@) {
                        Some(replaced(s, "${tag}"@, ctx.tag@))
                    } else {
                        Some(s)
                    },
                    None => None,
                };
            &&& c.get("image"@) is Some ==> p.get("image"@) is Some
            &&& c.get("image"@) is Some ==> c.is_mapping()
            &&& image_of(p) == if text(c) is Some && base_image(text(c)->0) == ctx.primary_image@ && forall|k: int|
                0 <= k < i ==> !(text(#[trigger] items[k]) is Some && base_image(text(items[k])->0)
                    == ctx.primary_image@) {
                Some(ctx.primary_image@ + ":"@ + ctx.tag@)
            } else {
                text(c)
            }
        }),
{
    let text = |c: YamlView|
        match image_of(c) {
            Some(s) => if has_text(s, "${tag}"@) {
                Some(replaced(s, "${tag}"@, ctx.tag@))
            } else {
                Some(s)
            },
            None => None,
        };
    let resolved = items.map_values(|c: YamlView| tag_resolved(c, ctx.tag@));
    assert forall|k: int| 0 <= k < items.len() implies image_of(#[trigger] resolved[k]) == text(items[k]) && (
    items[k].get("image"@) is Some ==> resolved[k].get("image"@) is Some) && resolved[k].is_mapping()
        == items[k].is_mapping() by {
        let c = items[k];
        if c.get("image"@) is Some && c.get("image"@)->0.text() is Some {
            c.get_put(
                "image"@,
                YamlView::Str(replaced(c.get("image"@)->0.text()->0, "${tag}"@, ctx.tag@)),
                seq![],
            );
        }
    }
    assert forall|k: int| 0 <= k < items.len() implies runs_image(#[trigger] resolved[k], ctx.primary_image@) == (text(
        items[k],
    ) is Some && base_image(text(items[k])->0) == ctx.primary_image@) by {
        assert(image_of(resolved[k]) == text(items[k]));
    }
    primary_item(resolved, ctx.primary_image@, ctx.tag@, i);
    resolved[i].get_put("image"@, YamlView::Str(ctx.primary_image@ + ":"@ + ctx.tag@), seq![]);
    assert((forall|k: int| 0 <= k < i ==> !runs_image(#[trigger] resolved[k], ctx.primary_image@)) <==> (forall|k: int|
        0 <= k < i ==> !(text(#[trigger] items[k]) is Some && base_image(text(items[k])->0) == ctx.primary_image@)))
        by {
        if forall|k: int| 0 <= k < i ==> !runs_image(#[trigger] resolved[k], ctx.primary_image@) {
            assert forall|k: int| 0 <= k < i implies !(text(#[trigger] items[k]) is Some && base_image(
                text(items[k])->0,
            ) == ctx.primary_image@) by {
                assert(!runs_image(resolved[k], ctx.primary_image@));
            }
        }
    }
}

/// A container that no override names runs its image with `${tag}` replaced by the
/// deployed tag. The first one in its list that runs the primary image in any tag
/// runs the deployed tag of it instead.
pub proof fn rendering_sets_the_tag(doc: YamlView, ctx: RenderContext, key: Seq<char>, i: int, image: Seq<char>)
    requires
        rendered_doc(doc, ctx) is Ok,
        key == "containers"@ || key == "initContainers"@,
        list_at(doc, key) is Some,
        0 <= i < list_at(doc, key)->0.len(),
        !is_overridden(list_at(doc, key)->0[i], ctx.image_overrides@),
        image_of(list_at(doc, key)->0[i]) == Some(image),
    ensures
        ({
            let items = list_at(doc, key)->0;
            let done = image_of(list_at(rendered_doc(doc, ctx)->Ok_0, key)->0[i]);
            &&& has_text(image, "${tag}"@) && base_image(replaced(image, "${tag}"@, ctx.tag@)) != ctx.primary_image@
                ==> done == Some(replaced(image, "${tag}"@, ctx.tag@))
            &&& !has_text(image, "${tag}"@) && base_image(image) != ctx.primary_image@ ==> done == Some(image)
            &&& !has_text(image, "${tag}"@) && base_image(image) == ctx.primary_image@ && (forall|k: int|
                0 <= k < i ==> (image_of(#[trigger] items[k]) matches Some(other) ==> !has_text(other, "${tag}"@)
                    && base_image(other) != ctx.primary_image@)) ==> done == Some(ctx.primary_image@ + ":"@ + ctx.tag@)
        }),
{
    keys_differ();
    let e = container_of(doc, ctx, key, i);
    let items = list_at(doc, key)->0;
    let c = items[i];
    let done = list_at(rendered_doc(doc, ctx)->Ok_0, key)->0[i];
    container_comes_to(items, i, e, ctx);
    image_is_set(items, i, ctx);
    assert(!late_keys().contains("image"@));
    assert(done.get("image"@) == e.get("image"@));
    let resolved = items.map_values(|c: YamlView| tag_resolved(c, ctx.tag@));
    let set = primary_set(resolved, ctx.primary_image@, ctx.tag@)[i];
    if name_of(set) is Some {
        assert forall|q: int| 0 <= q < ctx.image_overrides@.len() implies (#[trigger] ctx.image_overrides@[q]).0@
            != name_of(set)->0 by {}
        lookup_fails(ctx.image_overrides@, name_of(set)->0);
    }
    assert(image_of(e) == image_of(set));
}

/// A container has the ports it had, each with all it said but for the host port.
pub proof fn rendering_keeps_the_ports(doc: YamlView, ctx: RenderContext, key: Seq<char>, i: int)
    requires
        rendered_doc(doc, ctx) is Ok,
        key == "containers"@ || key == "initContainers"@,
        list_at(doc, key) is Some,
        0 <= i < list_at(doc, key)->0.len(),
    ensures
        ({
            let before = items_at(list_at(doc, key)->0[i], "ports"@);
            let after = items_at(list_at(rendered_doc(doc, ctx)->Ok_0, key)->0[i], "ports"@);
            &&& after.len() == before.len()
            &&& forall|j: int, k: Seq<char>|
                0 <= j < before.len() && k != "hostPort"@ ==> #[trigger] after[j].get(k) == before[j].get(k)
        }),
{
    keys_differ();
    let e = container_of(doc, ctx, key, i);
    let items = list_at(doc, key)->0;
    let done = list_at(rendered_doc(doc, ctx)->Ok_0, key)->0[i];
    container_comes_to(items, i, e, ctx);
    assert(!late_keys().contains("ports"@));
    assert(done.get("ports"@) == e.get("ports"@));
    let resolved = items.map_values(|c: YamlView| tag_resolved(c, ctx.tag@));
    let set = primary_set(resolved, ctx.primary_image@, ctx.tag@)[i];
    let o = if ctx.image_overrides@.len() == 0 {
        set
    } else {
        overridden(set, ctx.image_overrides@)
    };
    if o.get("ports"@) is Some && o.get("ports"@)->0.items() is Some {
        let v = o.get("ports"@)->0;
        let ports = v.items()->0;
        let zeroed = ports.map_values(|p: YamlView| port_zeroed(p));
        o.get_put("ports"@, v.with_items(zeroed), seq![]);
        v.items_set(zeroed);
        assert(o.is_mapping());
        assert forall|j: int, k: Seq<char>| 0 <= j < ports.len() && k != "hostPort"@ implies #[trigger] zeroed[j].get(k)
            == ports[j].get(k) by {
            ports[j].get_put("hostPort"@, YamlView::Number(yaml_number(0)), k);
        }
    }
}

/// An image without its tag is its name: what precedes the last path segment,
/// and that segment up to its colon.
pub proof fn an_image_without_its_tag(dir: Seq<char>, base: Seq<char>, tag: Seq<char>)
    requires
        dir.len() > 0 ==> dir.last() == '/',
        !base.contains('/') && !base.contains(':'),
        !tag.contains('/'),
    ensures
        base_image(dir + base) == dir + base,
        base_image(dir + base + seq![':'] + tag) == dir + base,
{
    let name = dir + base;
    let tagged = name + seq![':'] + tag;
    let rest = base + seq![':'] + tag;
    let at: int = dir.len() as int;
    assert(tagged =~= dir + rest);
    assert(!rest.contains('/')) by {
        if rest.contains('/') {
            let i = choose|i: int| 0 <= i < rest.len() && rest[i] == '/';
            if i < base.len() {
                assert(base[i] == '/');
            } else {
                assert(tag[i - base.len() - 1] == '/');
            }
        }
    }
    last_segment(dir, base);
    last_segment(dir, rest);
    base.index_of_first_ensures(':');
    rest.index_of_first_ensures(':');
    assert(rest[base.len() as int] == ':');
    assert(rest.contains(':'));
    let c = rest.index_of_first(':')->0;
    if c < base.len() {
        assert(base[c] == ':');
        assert(base.contains(':'));
    }
    assert(c <= base.len()) by {
        if c > base.len() {
            assert(rest[base.len() as int] != ':');
        }
    }
    assert(tagged.take(at + c) =~= name);
}

proof fn last_segment(dir: Seq<char>, rest: Seq<char>)
    requires
        dir.len() > 0 ==> dir.last() == '/',
        !rest.contains('/'),
    ensures
        (dir + rest).index_of_last('/') == (if dir.len() > 0 {
            Some(dir.len() - 1)
        } else {
            None
        }),
        (dir + rest).skip(dir.len() as int) == rest,
{
    let s = dir + rest;
    assert(s.skip(dir.len() as int) =~= rest);
    s.index_of_last_ensures('/');
    if dir.len() > 0 {
        let front = dir.drop_last();
        assert(s =~= front.push('/') + rest);
        crate::text::last_place(front, '/', rest);
    } else {
        assert(s =~= rest);
    }
}

} // verus!
