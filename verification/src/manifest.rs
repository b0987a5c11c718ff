//! Pod manifests as they are handed to `podman kube play`.
//!
//! A manifest from an image goes through seven changes, in this order: the pod
//! gets a versioned name, `${tag}` in images is resolved, the primary image
//! gets the deployed tag, sidecar images are overridden, every host port
//! becomes 0, environment variables are added, and host volumes are mounted.
//! Nothing that the manifest says of variables and volumes is overwritten.

use crate::merge::{MergedVolume, MergedVolumeView};
use crate::text::{
    byte_len, count_bytes, find, from_chars, has_text, holds, lower_char, lower_one, replace, replaced, rfind, same,
    to_chars,
};
use crate::yaml::{models, pair_models, yaml_number, yaml_parsed, yaml_printed, Key, KeyView, Yaml, YamlView};
use vstd::prelude::*;
use vstd::string::*;

verus! {

/// What a manifest is rendered with.
#[derive(Debug)]
pub struct RenderContext {
    pub app_name: String,
    pub tag: String,
    pub primary_image: String,
    pub pod_suffix: String,
    /// `KEY=VALUE` entries.
    pub env_vars: Vec<String>,
    /// Images by container name, each name once.
    pub image_overrides: Vec<(String, String)>,
    pub volumes: Vec<MergedVolume>,
}

/// Why a manifest cannot be rendered.
#[derive(Debug)]
pub enum ManifestError {
    InvalidYaml(String),
    MissingField(String),
    NameTooLong { name: String, len: usize },
}

/// An error as a mathematical value.
pub ghost enum ManifestErrorView {
    InvalidYaml(Seq<char>),
    MissingField(Seq<char>),
    NameTooLong { name: Seq<char>, len: nat },
}

impl View for ManifestError {
    type V = ManifestErrorView;

    open spec fn view(&self) -> ManifestErrorView {
        match self {
            ManifestError::InvalidYaml(e) => ManifestErrorView::InvalidYaml(e@),
            ManifestError::MissingField(f) => ManifestErrorView::MissingField(f@),
            ManifestError::NameTooLong { name, len } => ManifestErrorView::NameTooLong { name: name@, len: *len as nat },
        }
    }
}

impl ManifestErrorView {
    /// The message.
    pub open spec fn text(self) -> Seq<char> {
        match self {
            ManifestErrorView::InvalidYaml(e) => "invalid YAML: "@ + e,
            ManifestErrorView::MissingField(f) => "manifest missing required field: "@ + f,
            ManifestErrorView::NameTooLong { name, len } => "pod name too long after suffix: "@ + name + " ("@
                + crate::text::decimal(len) + " chars, max 63)"@,
        }
    }
}

impl ManifestError {
    /// The message.
    pub fn message(&self) -> (r: String)
        ensures
            r@ == self@.text(),
    {
        match self {
            ManifestError::InvalidYaml(e) => "invalid YAML: ".to_owned().concat(e.as_str()),
            ManifestError::MissingField(f) => "manifest missing required field: ".to_owned().concat(f.as_str()),
            ManifestError::NameTooLong { name, len } => "pod name too long after suffix: ".to_owned().concat(
                name.as_str(),
            ).concat(" (").concat(crate::text::decimal_text(*len as u64).as_str()).concat(" chars, max 63)"),
        }
    }
}

// ── Container lists ─────────────────────────────────────────────────────────

/// A list under `spec`.
pub open spec fn list_at(doc: YamlView, key: Seq<char>) -> Option<Seq<YamlView>> {
    match doc.get("spec"@) {
        Some(s) => match s.get(key) {
            Some(l) => l.items(),
            None => None,
        },
        None => None,
    }
}

/// A document with other items in a list under `spec`.
pub open spec fn set_list(doc: YamlView, key: Seq<char>, items: Seq<YamlView>) -> YamlView {
    match doc.get("spec"@) {
        Some(s) => match s.get(key) {
            Some(l) => doc.put("spec"@, s.put(key, l.with_items(items))),
            None => doc,
        },
        None => doc,
    }
}

/// A document with a list under `spec` changed, if it has that list.
pub open spec fn on_list(
    doc: YamlView,
    key: Seq<char>,
    f: spec_fn(Seq<YamlView>) -> Seq<YamlView>,
) -> YamlView {
    match list_at(doc, key) {
        Some(items) => set_list(doc, key, f(items)),
        None => doc,
    }
}

/// A document with both container lists changed.
pub open spec fn on_lists(doc: YamlView, f: spec_fn(Seq<YamlView>) -> Seq<YamlView>) -> YamlView {
    on_list(on_list(doc, "containers"@, f), "initContainers"@, f)
}

/// A document with every container changed.
pub open spec fn on_containers(doc: YamlView, f: spec_fn(YamlView) -> YamlView) -> YamlView {
    on_lists(doc, |items: Seq<YamlView>| items.map_values(f))
}

fn list_of<'a>(doc: &'a Yaml, key: &str) -> (r: Option<&'a Vec<Yaml>>)
    ensures
        list_at(doc@, key@) == (match r {
            Some(v) => Some(models(v@)),
            None => None,
        }),
{
    match doc.get("spec") {
        Some(s) => match s.get(key) {
            Some(l) => l.as_sequence(),
            None => None,
        },
        None => None,
    }
}

fn put_list(doc: &mut Yaml, key: &str, items: Vec<Yaml>)
    ensures
        final(doc)@ == set_list(old(doc)@, key@, models(items@)),
        old(doc)@.wf() && (forall|i: int| 0 <= i < items@.len() ==> (#[trigger] items@[i])@.wf()) ==> final(doc)@.wf(),
{
    let (mut s, mut l) = match doc.get("spec") {
        Some(s) => match s.get(key) {
            Some(l) => (s.copy(), l.copy()),
            None => {
                return ;
            },
        },
        None => {
            return ;
        },
    };
    proof {
        if doc@.wf() && (forall|i: int| 0 <= i < items@.len() ==> (#[trigger] items@[i])@.wf()) {
            doc@.get_wf("spec"@);
            s@.get_wf(key@);
            assert forall|i: int| 0 <= i < models(items@).len() implies (#[trigger] models(items@)[i]).wf() by {
                assert(items@[i]@.wf());
            }
            l@.with_items_wf(models(items@));
            s@.put_wf(key@, l@.with_items(models(items@)));
            doc@.put_wf("spec"@, s@.put(key@, l@.with_items(models(items@))));
        }
    }
    l.set_items(items);
    s.put(key, l);
    doc.put("spec", s);
}

/// A change made to every container.
pub trait ContainerEdit: Sized {
    /// The container after the change.
    spec fn edited(&self, c: YamlView) -> YamlView;

    /// Makes the change.
    fn edit(&self, c: &Yaml) -> (r: Yaml)
        ensures
            r@ == self.edited(c@),
            c@.wf() ==> r@.wf(),
    ;
}

fn edit_list<E: ContainerEdit>(items: &Vec<Yaml>, e: &E) -> (r: Vec<Yaml>)
    ensures
        models(r@) == models(items@).map_values(|c: YamlView| e.edited(c)),
        (forall|i: int| 0 <= i < items@.len() ==> (#[trigger] items@[i])@.wf()) ==> forall|i: int|
            0 <= i < r@.len() ==> (#[trigger] r@[i])@.wf(),
{
    let mut out: Vec<Yaml> = Vec::new();
    let mut i: usize = 0;
    while i < items.len()
        invariant
            i <= items@.len(),
            out@.len() == i,
            forall|k: int| 0 <= k < i ==> (#[trigger] out@[k])@ == e.edited(items@[k]@),
            forall|k: int| 0 <= k < i && items@[k]@.wf() ==> (#[trigger] out@[k])@.wf(),
        decreases items@.len() - i,
    {
        let c = e.edit(&items[i]);
        out.push(c);
        i = i + 1;
    }
    assert(models(out@) =~= models(items@).map_values(|c: YamlView| e.edited(c)));
    out
}

proof fn lists_wf(doc: YamlView, key: Seq<char>)
    requires
        doc.wf(),
    ensures
        list_at(doc, key) matches Some(s) ==> forall|i: int| 0 <= i < s.len() ==> (#[trigger] s[i]).wf(),
{
    doc.get_wf("spec"@);
    match doc.get("spec"@) {
        Some(s) => {
            s.get_wf(key);
            match s.get(key) {
                Some(l) => l.items_wf(),
                None => {},
            }
        },
        None => {},
    }
}

fn edit_one_list<E: ContainerEdit>(doc: &mut Yaml, key: &str, e: &E)
    ensures
        final(doc)@ == on_list(
            old(doc)@,
            key@,
            |items: Seq<YamlView>| items.map_values(|c: YamlView| e.edited(c)),
        ),
        old(doc)@.wf() ==> final(doc)@.wf(),
{
    let edited: Vec<Yaml> = match list_of(doc, key) {
        Some(items) => {
            proof {
                if doc@.wf() {
                    lists_wf(doc@, key@);
                    assert forall|i: int| 0 <= i < items@.len() implies (#[trigger] items@[i])@.wf() by {
                        assert(models(items@)[i].wf());
                    }
                }
            }
            edit_list(items, e)
        },
        None => {
            return ;
        },
    };
    put_list(doc, key, edited);
}

fn edit_containers<E: ContainerEdit>(doc: &mut Yaml, e: &E)
    ensures
        final(doc)@ == on_containers(old(doc)@, |c: YamlView| e.edited(c)),
        old(doc)@.wf() ==> final(doc)@.wf(),
{
    edit_one_list(doc, "containers", e);
    edit_one_list(doc, "initContainers", e);
}

// ── The pod's name ──────────────────────────────────────────────────────────

/// The document with `-` and the suffix behind the pod's name, which may have
/// 63 bytes at most.
pub open spec fn named(doc: YamlView, suffix: Seq<char>) -> Result<YamlView, ManifestErrorView> {
    match doc.get("metadata"@) {
        Some(m) => match m.get("name"@) {
            Some(n) => match n.text() {
                Some(base) => {
                    let name = base + "-"@ + suffix;
                    if byte_len(name) > 63 {
                        Err(ManifestErrorView::NameTooLong { name, len: byte_len(name) })
                    } else {
                        Ok(doc.put("metadata"@, m.put("name"@, YamlView::Str(name))))
                    }
                },
                None => Err(ManifestErrorView::MissingField("metadata.name (must be a string)"@)),
            },
            None => Err(ManifestErrorView::MissingField("metadata.name"@)),
        },
        None => Err(ManifestErrorView::MissingField("metadata.name"@)),
    }
}

/// Gives the pod its versioned name.
pub fn set_versioned_name(doc: &mut Yaml, pod_suffix: &str) -> (r: Result<(), ManifestError>)
    ensures
        match r {
            Ok(_) => named(old(doc)@, pod_suffix@) == Ok::<YamlView, ManifestErrorView>(final(doc)@),
            Err(e) => named(old(doc)@, pod_suffix@) == Err::<YamlView, ManifestErrorView>(e@) && final(doc)@
                == old(doc)@,
        },
        old(doc)@.wf() ==> final(doc)@.wf(),
{
    let (mut meta, base) = match doc.get("metadata") {
        Some(m) => match m.get("name") {
            Some(n) => match n.as_str() {
                Some(s) => (m.copy(), s.clone()),
                None => {
                    return Err(ManifestError::MissingField("metadata.name (must be a string)".to_owned()));
                },
            },
            None => {
                return Err(ManifestError::MissingField("metadata.name".to_owned()));
            },
        },
        None => {
            return Err(ManifestError::MissingField("metadata.name".to_owned()));
        },
    };
    let name = base.concat("-").concat(pod_suffix);
    let len: usize = count_bytes(name.as_str());
    if len > 63 {
        return Err(ManifestError::NameTooLong { name, len });
    }
    proof {
        if doc@.wf() {
            doc@.get_wf("metadata"@);
            meta@.put_wf("name"@, YamlView::Str(name@));
            doc@.put_wf("metadata"@, meta@.put("name"@, YamlView::Str(name@)));
        }
    }
    meta.put("name", Yaml::Str(name));
    doc.put("metadata", meta);
    Ok(())
}

// ── Images ──────────────────────────────────────────────────────────────────

/// A container with `${tag}` in its image replaced.
pub open spec fn tag_resolved(c: YamlView, tag: Seq<char>) -> YamlView {
    match c.get("image"@) {
        Some(v) => match v.text() {
            Some(s) => if has_text(s, "${tag}"@) {
                c.put("image"@, YamlView::Str(replaced(s, "${tag}"@, tag)))
            } else {
                c
            },
            None => c,
        },
        None => c,
    }
}

/// Resolves `${tag}` in images.
pub struct ResolveTag<'a> {
    pub tag: &'a str,
}

impl<'a> ContainerEdit for ResolveTag<'a> {
    open spec fn edited(&self, c: YamlView) -> YamlView {
        tag_resolved(c, self.tag@)
    }

    fn edit(&self, c: &Yaml) -> (r: Yaml) {
        let mut out = c.copy();
        match c.get("image") {
            Some(v) => match v.as_str() {
                Some(s) => {
                    if holds(s.as_str(), "${tag}") {
                        proof {
                            reveal_strlit("${tag}");
                            if c@.wf() {
                                c@.put_wf("image"@, YamlView::Str(replaced(s@, "${tag}"@, self.tag@)));
                            }
                        }
                        out.put("image", Yaml::Str(replace(s.as_str(), "${tag}", self.tag)));
                    }
                },
                None => {},
            },
            None => {},
        }
        out
    }
}

/// Replaces `${tag}` in the image of every container.
pub fn resolve_tag_placeholders(doc: &mut Yaml, tag: &str)
    ensures
        final(doc)@ == on_containers(old(doc)@, |c: YamlView| tag_resolved(c, tag@)),
        old(doc)@.wf() ==> final(doc)@.wf(),
{
    let e = ResolveTag { tag };
    assert((|c: YamlView| e.edited(c)) =~= (|c: YamlView| tag_resolved(c, tag@)));
    edit_containers(doc, &e);
}

/// An image without the tag behind its last segment.
pub open spec fn base_image(image: Seq<char>) -> Seq<char> {
    let start = match image.index_of_last('/') {
        Some(p) => p + 1,
        None => 0,
    };
    match image.skip(start).index_of_first(':') {
        Some(c) => image.take(start + c),
        None => image,
    }
}

/// Takes the tag off an image.
pub fn image_base(image: &str) -> (r: String)
    ensures
        r@ == base_image(image@),
{
    let v = to_chars(image);
    let n: usize = v.len();
    let start: usize = match rfind(&v, '/') {
        Some(p) => p + 1,
        None => 0,
    };
    let tail_text = from_chars(&v, start, v.len());
    let tail = to_chars(tail_text.as_str());
    assert(tail@ =~= image@.skip(start as int));
    match find(&tail, ':') {
        Some(c) => {
            assert(v@.subrange(0, start + c) =~= image@.take(start + c));
            from_chars(&v, 0, start + c)
        },
        None => {
            assert(v@.subrange(0, v@.len() as int) =~= image@);
            from_chars(&v, 0, v.len())
        },
    }
}

/// Whether a container runs an image, whatever the tag.
pub open spec fn runs_image(c: YamlView, image: Seq<char>) -> bool {
    match c.get("image"@) {
        Some(v) => match v.text() {
            Some(s) => base_image(s) == image,
            None => false,
        },
        None => false,
    }
}

/// A list with the first container that runs an image set to a tag of it.
pub open spec fn primary_set(items: Seq<YamlView>, image: Seq<char>, tag: Seq<char>) -> Seq<YamlView>
    decreases items.len(),
{
    if items.len() == 0 {
        items
    } else if runs_image(items[0], image) {
        items.update(0, items[0].put("image"@, YamlView::Str(image + ":"@ + tag)))
    } else {
        seq![items[0]] + primary_set(items.skip(1), image, tag)
    }
}

proof fn primary_set_at(items: Seq<YamlView>, image: Seq<char>, tag: Seq<char>, i: int)
    requires
        0 <= i <= items.len(),
        forall|k: int| 0 <= k < i ==> !runs_image(#[trigger] items[k], image),
        i < items.len() ==> runs_image(items[i], image),
    ensures
        primary_set(items, image, tag) == if i < items.len() {
            items.update(i, items[i].put("image"@, YamlView::Str(image + ":"@ + tag)))
        } else {
            items
        },
    decreases i,
{
    if i > 0 {
        let rest = items.skip(1);
        assert forall|k: int| 0 <= k < i - 1 implies !runs_image(#[trigger] rest[k], image) by {
            assert(rest[k] == items[k + 1]);
        }
        primary_set_at(rest, image, tag, i - 1);
        assert(!runs_image(items[0], image));
        assert(primary_set(items, image, tag) =~= if i < items.len() {
            items.update(i, items[i].put("image"@, YamlView::Str(image + ":"@ + tag)))
        } else {
            items
        });
    }
}

fn does_run(c: &Yaml, image: &str) -> (r: bool)
    ensures
        r == runs_image(c@, image@),
{
    match c.get("image") {
        Some(v) => match v.as_str() {
            Some(s) => same(image_base(s.as_str()).as_str(), image),
            None => false,
        },
        None => false,
    }
}

fn set_primary(items: &Vec<Yaml>, image: &str, tag: &str) -> (r: Vec<Yaml>)
    ensures
        models(r@) == primary_set(models(items@), image@, tag@),
        (forall|i: int| 0 <= i < items@.len() ==> (#[trigger] items@[i])@.wf()) ==> forall|i: int|
            0 <= i < r@.len() ==> (#[trigger] r@[i])@.wf(),
{
    let mut out: Vec<Yaml> = Vec::new();
    let mut first: Option<usize> = None;
    let ghost all = models(items@);
    let ghost image_text = YamlView::Str(image@ + ":"@ + tag@);
    let mut i: usize = 0;
    while i < items.len()
        invariant
            i <= items@.len(),
            all == models(items@),
            image_text == YamlView::Str(image@ + ":"@ + tag@),
            out@.len() == i,
            first matches Some(f) ==> f < i && runs_image(all[f as int], image@),
            forall|k: int|
                0 <= k < (match first {
                    Some(f) => f,
                    None => i,
                }) ==> !runs_image(#[trigger] all[k], image@),
            forall|k: int|
                0 <= k < i ==> (#[trigger] out@[k])@ == if first == Some(k as usize) {
                    all[k].put("image"@, image_text)
                } else {
                    all[k]
                },
            forall|k: int| 0 <= k < i && items@[k]@.wf() ==> (#[trigger] out@[k])@.wf(),
        decreases items@.len() - i,
    {
        let mut c = items[i].copy();
        assert(all[i as int] == c@);
        if first.is_none() && does_run(&c, image) {
            proof {
                if c@.wf() {
                    c@.put_wf("image"@, image_text);
                }
            }
            c.put("image", Yaml::Str(image.to_owned().concat(":").concat(tag)));
            first = Some(i);
        }
        out.push(c);
        i = i + 1;
    }
    proof {
        match first {
            Some(f) => primary_set_at(all, image@, tag@, f as int),
            None => primary_set_at(all, image@, tag@, all.len() as int),
        }
        assert(models(out@) =~= primary_set(all, image@, tag@));
    }
    out
}

fn set_primary_in(doc: &mut Yaml, key: &str, image: &str, tag: &str)
    ensures
        final(doc)@ == on_list(
            old(doc)@,
            key@,
            |items: Seq<YamlView>| primary_set(items, image@, tag@),
        ),
        old(doc)@.wf() ==> final(doc)@.wf(),
{
    let edited: Vec<Yaml> = match list_of(doc, key) {
        Some(items) => {
            proof {
                if doc@.wf() {
                    lists_wf(doc@, key@);
                    assert forall|i: int| 0 <= i < items@.len() implies (#[trigger] items@[i])@.wf() by {
                        assert(models(items@)[i].wf());
                    }
                }
            }
            set_primary(items, image, tag)
        },
        None => {
            return ;
        },
    };
    put_list(doc, key, edited);
}

/// Sets the deployed tag on the first container of each list that runs the
/// primary image.
pub fn update_primary_image(doc: &mut Yaml, primary_image: &str, tag: &str)
    ensures
        final(doc)@ == on_lists(
            old(doc)@,
            |items: Seq<YamlView>| primary_set(items, primary_image@, tag@),
        ),
        old(doc)@.wf() ==> final(doc)@.wf(),
{
    set_primary_in(doc, "containers", primary_image, tag);
    set_primary_in(doc, "initContainers", primary_image, tag);
}

/// The value of a key in a list of pairs.
pub open spec fn lookup(pairs: Seq<(String, String)>, key: Seq<char>) -> Option<Seq<char>>
    decreases pairs.len(),
{
    if pairs.len() == 0 {
        None
    } else if pairs[0].0@ == key {
        Some(pairs[0].1@)
    } else {
        lookup(pairs.skip(1), key)
    }
}

fn find_pair<'a>(pairs: &'a Vec<(String, String)>, key: &str) -> (r: Option<&'a String>)
    ensures
        lookup(pairs@, key@) == (match r {
            Some(s) => Some(s@),
            None => None,
        }),
{
    let mut i: usize = 0;
    assert(pairs@.skip(0) =~= pairs@);
    while i < pairs.len()
        invariant
            i <= pairs@.len(),
            lookup(pairs@, key@) == lookup(pairs@.skip(i as int), key@),
        decreases pairs@.len() - i,
    {
        if same(pairs[i].0.as_str(), key) {
            return Some(&pairs[i].1);
        }
        assert(pairs@.skip(i as int).skip(1) =~= pairs@.skip(i + 1));
        i = i + 1;
    }
    None
}

/// A container with the image that an override gives for its name.
pub open spec fn overridden(c: YamlView, overrides: Seq<(String, String)>) -> YamlView {
    match c.get("name"@) {
        Some(n) => match n.text() {
            Some(name) => match lookup(overrides, name) {
                Some(image) => if c.get("image"@) is Some {
                    c.put("image"@, YamlView::Str(image))
                } else {
                    c
                },
                None => c,
            },
            None => c,
        },
        None => c,
    }
}

/// Overrides images by container name.
pub struct OverrideImage<'a> {
    pub overrides: &'a Vec<(String, String)>,
}

impl<'a> ContainerEdit for OverrideImage<'a> {
    open spec fn edited(&self, c: YamlView) -> YamlView {
        overridden(c, self.overrides@)
    }

    fn edit(&self, c: &Yaml) -> (r: Yaml) {
        let mut out = c.copy();
        match c.get("name") {
            Some(n) => match n.as_str() {
                Some(name) => match find_pair(self.overrides, name.as_str()) {
                    Some(image) => {
                        if c.get("image").is_some() {
                            proof {
                                if c@.wf() {
                                    c@.put_wf("image"@, YamlView::Str(image@));
                                }
                            }
                            out.put("image", Yaml::Str(image.clone()));
                        }
                    },
                    None => {},
                },
                None => {},
            },
            None => {},
        }
        out
    }
}

/// Sets the image of every container that an override names.
pub fn apply_sidecar_overrides(doc: &mut Yaml, overrides: &Vec<(String, String)>)
    ensures
        final(doc)@ == if overrides@.len() == 0 {
            old(doc)@
        } else {
            on_containers(old(doc)@, |c: YamlView| overridden(c, overrides@))
        },
        old(doc)@.wf() ==> final(doc)@.wf(),
{
    if overrides.len() == 0 {
        return ;
    }
    let e = OverrideImage { overrides };
    assert((|c: YamlView| e.edited(c)) =~= (|c: YamlView| overridden(c, overrides@)));
    edit_containers(doc, &e);
}

// ── Host ports ──────────────────────────────────────────────────────────────

/// A port with `hostPort: 0`.
pub open spec fn port_zeroed(p: YamlView) -> YamlView {
    p.put("hostPort"@, YamlView::Number(yaml_number(0)))
}

/// A container with `hostPort: 0` on each of its ports.
pub open spec fn ports_zeroed(c: YamlView) -> YamlView {
    match c.get("ports"@) {
        Some(v) => match v.items() {
            Some(ports) => c.put("ports"@, v.with_items(ports.map_values(|p: YamlView| port_zeroed(p)))),
            None => c,
        },
        None => c,
    }
}

/// Leaves every host port to the runtime.
pub struct ZeroPorts {}

impl ContainerEdit for ZeroPorts {
    open spec fn edited(&self, c: YamlView) -> YamlView {
        ports_zeroed(c)
    }

    fn edit(&self, c: &Yaml) -> (r: Yaml) {
        let mut out = c.copy();
        match c.get("ports") {
            Some(v) => match v.as_sequence() {
                Some(ports) => {
                    let mut zeroed: Vec<Yaml> = Vec::new();
                    let ghost all = models(ports@);
                    proof {
                        if c@.wf() {
                            c@.get_wf("ports"@);
                            v@.items_wf();
                            assert forall|k: int| 0 <= k < all.len() implies (#[trigger] all[k]).wf() by {
                                assert(v@.items()->0[k].wf());
                            }
                        }
                    }
                    let mut i: usize = 0;
                    while i < ports.len()
                        invariant
                            i <= ports@.len(),
                            all == models(ports@),
                            c@.wf() ==> forall|k: int| 0 <= k < all.len() ==> (#[trigger] all[k]).wf(),
                            zeroed@.len() == i,
                            forall|k: int| 0 <= k < i ==> (#[trigger] zeroed@[k])@ == port_zeroed(all[k]),
                            c@.wf() ==> forall|k: int| 0 <= k < i ==> (#[trigger] zeroed@[k])@.wf(),
                        decreases ports@.len() - i,
                    {
                        let mut p = ports[i].copy();
                        assert(all[i as int] == p@);
                        proof {
                            if c@.wf() {
                                p@.put_wf("hostPort"@, YamlView::Number(yaml_number(0)));
                            }
                        }
                        p.put("hostPort", Yaml::unsigned(0));
                        zeroed.push(p);
                        i = i + 1;
                    }
                    assert(models(zeroed@) =~= all.map_values(|p: YamlView| port_zeroed(p)));
                    proof {
                        if c@.wf() {
                            assert forall|k: int| 0 <= k < models(zeroed@).len() implies (#[trigger] models(zeroed@)[k]).wf() by {
                                assert(zeroed@[k]@.wf());
                            }
                            v@.with_items_wf(models(zeroed@));
                            c@.put_wf("ports"@, v@.with_items(models(zeroed@)));
                        }
                    }
                    let mut w = v.copy();
                    w.set_items(zeroed);
                    out.put("ports", w);
                },
                None => {},
            },
            None => {},
        }
        out
    }
}

/// Sets `hostPort: 0` on every port of every container.
pub fn set_host_ports_zero(doc: &mut Yaml)
    ensures
        final(doc)@ == on_containers(old(doc)@, |c: YamlView| ports_zeroed(c)),
        old(doc)@.wf() ==> final(doc)@.wf(),
{
    let e = ZeroPorts {  };
    assert((|c: YamlView| e.edited(c)) =~= (|c: YamlView| ports_zeroed(c)));
    edit_containers(doc, &e);
}

// ── Environment variables ───────────────────────────────────────────────────

/// The key and value of a `KEY=VALUE` entry.
pub open spec fn env_pair(kv: Seq<char>) -> (Seq<char>, Seq<char>) {
    match kv.index_of_first('=') {
        Some(i) => (kv.take(i), kv.skip(i + 1)),
        None => (kv, seq![]),
    }
}

/// Splits a `KEY=VALUE` entry.
pub fn split_env(kv: &str) -> (r: (String, String))
    ensures
        (r.0@, r.1@) == env_pair(kv@),
{
    let v = to_chars(kv);
    match find(&v, '=') {
        Some(i) => {
            assert(v@.subrange(0, i as int) =~= kv@.take(i as int));
            assert(v@.subrange(i + 1, v@.len() as int) =~= kv@.skip(i + 1));
            let n: usize = v.len();
            (from_chars(&v, 0, i), from_chars(&v, i + 1, n))
        },
        None => (kv.to_owned(), String::new()),
    }
}

/// Whether a list has an entry with a name.
pub open spec fn names(entries: Seq<YamlView>, name: Seq<char>) -> bool {
    exists|i: int| 0 <= i < entries.len() && #[trigger] field_is(entries[i], "name"@, name)
}

/// Whether a field of an entry is a text.
pub open spec fn field_is(entry: YamlView, field: Seq<char>, text: Seq<char>) -> bool {
    match entry.get(field) {
        Some(v) => v.text() == Some(text),
        None => false,
    }
}

fn field_has(entry: &Yaml, field: &str, text: &str) -> (r: bool)
    ensures
        r == field_is(entry@, field@, text@),
{
    match entry.get(field) {
        Some(v) => match v.as_str() {
            Some(s) => same(s.as_str(), text),
            None => false,
        },
        None => false,
    }
}

fn any_named(entries: &Vec<Yaml>, name: &str) -> (r: bool)
    ensures
        r == names(models(entries@), name@),
{
    let ghost all = models(entries@);
    let mut i: usize = 0;
    while i < entries.len()
        invariant
            i <= entries@.len(),
            all == models(entries@),
            forall|k: int| 0 <= k < i ==> !#[trigger] field_is(all[k], "name"@, name@),
        decreases entries@.len() - i,
    {
        assert(all[i as int] == entries@[i as int]@);
        if field_has(&entries[i], "name", name) {
            assert(field_is(all[i as int], "name"@, name@));
            return true;
        }
        i = i + 1;
    }
    false
}

/// The manifest entry of a variable.
pub open spec fn env_entry(pair: (Seq<char>, Seq<char>)) -> YamlView {
    YamlView::Mapping(
        seq![
            (KeyView::Str("name"@), YamlView::Str(pair.0)),
            (KeyView::Str("value"@), YamlView::Str(pair.1)),
        ],
    )
}

/// The entries of the variables that a list does not name yet, in order.
pub open spec fn new_env(existing: Seq<YamlView>, vars: Seq<String>) -> Seq<YamlView>
    decreases vars.len(),
{
    if vars.len() == 0 {
        seq![]
    } else {
        let before = new_env(existing, vars.drop_last());
        let pair = env_pair(vars.last()@);
        if names(existing, pair.0) {
            before
        } else {
            before.push(env_entry(pair))
        }
    }
}

/// A container with an empty list under a key that it lacks.
pub open spec fn with_list(c: YamlView, key: Seq<char>) -> YamlView {
    if c.get(key) is None && c.is_mapping() {
        c.put(key, YamlView::Sequence(seq![]))
    } else {
        c
    }
}

/// A container with entries behind those of a list, if it has that list.
pub open spec fn appended(c: YamlView, key: Seq<char>, entries: Seq<YamlView>) -> YamlView {
    match c.get(key) {
        Some(l) => match l.items() {
            Some(items) => c.put(key, l.with_items(items + entries)),
            None => c,
        },
        None => c,
    }
}

/// The items of a list, none if there is no such list.
pub open spec fn items_at(c: YamlView, key: Seq<char>) -> Seq<YamlView> {
    match c.get(key) {
        Some(l) => match l.items() {
            Some(items) => items,
            None => seq![],
        },
        None => seq![],
    }
}

/// A container with the variables that its `env` does not name yet.
pub open spec fn env_injected(c: YamlView, vars: Seq<String>) -> YamlView {
    appended(with_list(c, "env"@), "env"@, new_env(items_at(c, "env"@), vars))
}

fn append_entries(c: &Yaml, key: &str, entries: Vec<Yaml>) -> (r: Yaml)
    ensures
        r@ == appended(with_list(c@, key@), key@, models(entries@)),
        c@.wf() && (forall|i: int| 0 <= i < entries@.len() ==> (#[trigger] entries@[i])@.wf()) ==> r@.wf(),
{
    let ghost extra = models(entries@);
    let ghost fine = c@.wf() && (forall|i: int| 0 <= i < entries@.len() ==> (#[trigger] entries@[i])@.wf());
    let mut out = c.copy();
    let empty = Yaml::Sequence(Vec::new());
    proof {
        empty.unfold();
        assert(models(empty->Sequence_0@) =~= seq![]);
        if fine {
            assert(empty@.wf());
            c@.put_wf(key@, empty@);
            assert forall|i: int| 0 <= i < extra.len() implies (#[trigger] extra[i]).wf() by {
                assert(entries@[i]@.wf());
            }
        }
    }
    if c.get(key).is_none() && c.mapping() {
        out.put(key, empty);
    }
    assert(out@ == with_list(c@, key@));
    assert(fine ==> out@.wf());
    let (mut list, mut items) = match out.get(key) {
        Some(l) => match l.as_sequence() {
            Some(items) => {
                let all = copy_items(items);
                (l.copy(), all)
            },
            None => {
                return out;
            },
        },
        None => {
            return out;
        },
    };
    let ghost before = models(items@);
    let mut entries = entries;
    items.append(&mut entries);
    assert(models(items@) =~= before + extra);
    proof {
        if fine {
            out@.get_wf(key@);
            list@.items_wf();
            assert forall|i: int| 0 <= i < models(items@).len() implies (#[trigger] models(items@)[i]).wf() by {
                if i < before.len() {
                    assert(before[i].wf());
                } else {
                    assert(extra[i - before.len()].wf());
                }
            }
            list@.with_items_wf(before + extra);
            out@.put_wf(key@, list@.with_items(before + extra));
        }
    }
    list.set_items(items);
    out.put(key, list);
    out
}

fn copy_items(v: &Vec<Yaml>) -> (r: Vec<Yaml>)
    ensures
        models(r@) == models(v@),
{
    let mut out: Vec<Yaml> = Vec::new();
    let mut i: usize = 0;
    while i < v.len()
        invariant
            i <= v@.len(),
            out@.len() == i,
            forall|k: int| 0 <= k < i ==> (#[trigger] out@[k])@ == v@[k]@,
        decreases v@.len() - i,
    {
        let c = v[i].copy();
        out.push(c);
        i = i + 1;
    }
    assert(models(out@) =~= models(v@));
    out
}

fn str_entry(key: &str, value: &str) -> (r: (Key, Yaml))
    ensures
        (r.0@, r.1@) == (KeyView::Str(key@), YamlView::Str(value@)),
{
    (Key::Str(key.to_owned()), Yaml::Str(value.to_owned()))
}

fn build_env_entry(key: &str, value: &str) -> (r: Yaml)
    ensures
        r@ == env_entry((key@, value@)),
        r@.wf(),
{
    let mut m: Vec<(Key, Yaml)> = Vec::new();
    m.push(str_entry("name", key));
    m.push(str_entry("value", value));
    let r = Yaml::Mapping(m);
    proof {
        reveal_strlit("name");
        reveal_strlit("value");
        r.unfold();
        assert(pair_models(m@) =~= env_entry((key@, value@))->Mapping_0);
        assert("name"@.len() != "value"@.len());
        reveal_with_fuel(YamlView::wf, 3);
    }
    r
}

/// Adds variables to containers that do not name them yet.
pub struct InjectEnv<'a> {
    pub vars: &'a Vec<String>,
}

impl<'a> ContainerEdit for InjectEnv<'a> {
    open spec fn edited(&self, c: YamlView) -> YamlView {
        env_injected(c, self.vars@)
    }

    fn edit(&self, c: &Yaml) -> (r: Yaml) {
        let none: Vec<Yaml> = Vec::new();
        let existing: &Vec<Yaml> = match c.get("env") {
            Some(l) => match l.as_sequence() {
                Some(items) => items,
                None => &none,
            },
            None => &none,
        };
        assert(models(none@) =~= seq![]);
        assert(models(existing@) == items_at(c@, "env"@));
        let mut fresh: Vec<Yaml> = Vec::new();
        let mut i: usize = 0;
        assert(models(fresh@) =~= seq![]);
        while i < self.vars.len()
            invariant
                i <= self.vars@.len(),
                models(existing@) == items_at(c@, "env"@),
                models(fresh@) == new_env(models(existing@), self.vars@.take(i as int)),
                forall|k: int| 0 <= k < fresh@.len() ==> (#[trigger] fresh@[k])@.wf(),
            decreases self.vars@.len() - i,
        {
            let (key, value) = split_env(self.vars[i].as_str());
            assert(self.vars@.take(i + 1).drop_last() =~= self.vars@.take(i as int));
            assert(self.vars@.take(i + 1).last() == self.vars@[i as int]);
            if !any_named(existing, key.as_str()) {
                let ghost before = models(fresh@);
                let entry = build_env_entry(key.as_str(), value.as_str());
                fresh.push(entry);
                assert(models(fresh@) =~= before.push(entry@));
            }
            i = i + 1;
        }
        assert(self.vars@.take(i as int) =~= self.vars@);
        append_entries(c, "env", fresh)
    }
}

/// Adds the variables to every container that does not name them yet.
pub fn inject_env_vars(doc: &mut Yaml, env_vars: &Vec<String>)
    ensures
        final(doc)@ == if env_vars@.len() == 0 {
            old(doc)@
        } else {
            on_containers(old(doc)@, |c: YamlView| env_injected(c, env_vars@))
        },
        old(doc)@.wf() ==> final(doc)@.wf(),
{
    if env_vars.len() == 0 {
        return ;
    }
    let e = InjectEnv { vars: env_vars };
    assert((|c: YamlView| e.edited(c)) =~= (|c: YamlView| env_injected(c, env_vars@)));
    edit_containers(doc, &e);
}

// ── Volumes ─────────────────────────────────────────────────────────────────

/// Whether a character is an ASCII letter or digit.
pub open spec fn is_alnum(c: char) -> bool {
    ('a' <= c && c <= 'z') || ('A' <= c && c <= 'Z') || ('0' <= c && c <= '9')
}

fn alnum(c: char) -> (r: bool)
    ensures
        r == is_alnum(c),
{
    ('a' <= c && c <= 'z') || ('A' <= c && c <= 'Z') || ('0' <= c && c <= '9')
}

/// A text without the slashes at its front.
pub open spec fn without_slashes(s: Seq<char>) -> Seq<char>
    decreases s.len(),
{
    if s.len() > 0 && s[0] == '/' {
        without_slashes(s.skip(1))
    } else {
        s
    }
}

/// A character as volume names have it: a small letter, a digit or a hyphen,
/// which stands for a slash too. There is none for any other character.
pub open spec fn label_char(c: char) -> Option<char> {
    if is_alnum(c) {
        Some(lower_char(c))
    } else if c == '-' || c == '/' {
        Some('-')
    } else {
        None
    }
}

/// A path as volume names have it: slashes become hyphens, what no DNS label
/// has is left out, and no two hyphens stand in a row.
pub open spec fn label(s: Seq<char>) -> Seq<char>
    decreases s.len(),
{
    if s.len() == 0 {
        s
    } else {
        let before = label(s.drop_last());
        match label_char(s.last()) {
            None => before,
            Some(c) => if c == '-' && before.len() > 0 && before.last() == '-' {
                before
            } else {
                before.push(c)
            },
        }
    }
}

/// A text without what follows its last letter or digit, but for its first
/// character.
pub open spec fn cut_tail(s: Seq<char>) -> Seq<char>
    decreases s.len(),
{
    if s.len() > 1 && !is_alnum(s.last()) {
        cut_tail(s.drop_last())
    } else {
        s
    }
}

/// The name of the volume for a mount path of an app. What takes more than 63
/// bytes is cut to 63 characters, and further to its last letter or digit.
pub open spec fn volume_name(app: Seq<char>, mount_path: Seq<char>) -> Seq<char> {
    let name = "slip-"@ + app + "-"@ + label(without_slashes(mount_path));
    if byte_len(name) <= 63 {
        name
    } else {
        cut_tail(
            if name.len() <= 63 {
                name
            } else {
                name.take(63)
            },
        )
    }
}

/// Names the volume for a mount path.
pub fn sanitize_volume_name(app_name: &str, mount_path: &str) -> (r: String)
    ensures
        r@ == volume_name(app_name@, mount_path@),
{
    let path = to_chars(mount_path);
    let mut i: usize = 0;
    assert(mount_path@.skip(0) =~= mount_path@);
    while i < path.len() && path[i] == '/'
        invariant
            i <= path@.len(),
            path@ == mount_path@,
            without_slashes(mount_path@) == without_slashes(mount_path@.skip(i as int)),
        decreases path@.len() - i,
    {
        assert(mount_path@.skip(i as int).skip(1) =~= mount_path@.skip(i + 1));
        i = i + 1;
    }
    let ghost tail = mount_path@.skip(i as int);
    assert(without_slashes(mount_path@) == tail);
    let mut out: Vec<char> = Vec::new();
    let mut j: usize = i;
    while j < path.len()
        invariant
            i <= j <= path@.len(),
            path@ == mount_path@,
            tail == mount_path@.skip(i as int),
            out@ == label(tail.take(j - i)),
        decreases path@.len() - j,
    {
        let c0: char = path[j];
        assert(tail.take(j - i + 1).drop_last() =~= tail.take(j - i));
        assert(tail.take(j - i + 1).last() == c0);
        if alnum(c0) {
            out.push(lower_one(c0));
        } else if (c0 == '-' || c0 == '/') && !(out.len() > 0 && out[out.len() - 1] == '-') {
            out.push('-');
        }
        j = j + 1;
    }
    assert(tail.take(j - i) =~= tail);
    let cleaned = from_chars(&out, 0, out.len());
    assert(cleaned@ =~= out@);
    let name = "slip-".to_owned().concat(app_name).concat("-").concat(cleaned.as_str());
    if count_bytes(name.as_str()) <= 63 {
        return name;
    }
    let chars = to_chars(name.as_str());
    let mut n: usize = if chars.len() <= 63 {
        chars.len()
    } else {
        63
    };
    let ghost start = if name@.len() <= 63 {
        name@
    } else {
        name@.take(63)
    };
    assert(name@.take(n as int) =~= start);
    while n > 1 && !alnum(chars[n - 1])
        invariant
            n <= chars@.len(),
            chars@ == name@,
            cut_tail(name@.take(n as int)) == cut_tail(start),
        decreases n,
    {
        assert(name@.take(n as int).drop_last() =~= name@.take(n - 1));
        n = n - 1;
    }
    assert(name@.subrange(0, n as int) =~= name@.take(n as int));
    from_chars(&chars, 0, n)
}

/// The manifest entry of a volume.
pub open spec fn volume_entry(name: Seq<char>, host_path: Seq<char>) -> YamlView {
    YamlView::Mapping(
        seq![
            (KeyView::Str("name"@), YamlView::Str(name)),
            (
                KeyView::Str("hostPath"@),
                YamlView::Mapping(
                    seq![
                        (KeyView::Str("path"@), YamlView::Str(host_path)),
                        (KeyView::Str("type"@), YamlView::Str("DirectoryOrCreate"@)),
                    ],
                ),
            ),
        ],
    )
}

/// The entry that mounts a volume into a container.
pub open spec fn mount_entry(name: Seq<char>, mount_path: Seq<char>, read_only: bool) -> YamlView {
    YamlView::Mapping(
        seq![
            (KeyView::Str("name"@), YamlView::Str(name)),
            (KeyView::Str("mountPath"@), YamlView::Str(mount_path)),
            (KeyView::Str("readOnly"@), YamlView::Bool(read_only)),
        ],
    )
}

fn build_volume_entry(name: &str, host_path: &str) -> (r: Yaml)
    ensures
        r@ == volume_entry(name@, host_path@),
        r@.wf(),
{
    let mut h: Vec<(Key, Yaml)> = Vec::new();
    h.push(str_entry("path", host_path));
    h.push(str_entry("type", "DirectoryOrCreate"));
    let host = Yaml::Mapping(h);
    let mut m: Vec<(Key, Yaml)> = Vec::new();
    m.push(str_entry("name", name));
    proof {
        reveal_strlit("path");
        reveal_strlit("type");
        host.unfold();
        assert(pair_models(h@) =~= volume_entry(name@, host_path@)->Mapping_0[1].1->Mapping_0);
        assert("path"@[0] != "type"@[0]);
        reveal_with_fuel(YamlView::wf, 3);
        assert(host@.wf());
    }
    m.push((Key::Str("hostPath".to_owned()), host));
    let r = Yaml::Mapping(m);
    proof {
        reveal_strlit("name");
        reveal_strlit("hostPath");
        r.unfold();
        assert(pair_models(m@) =~= volume_entry(name@, host_path@)->Mapping_0);
        assert("name"@.len() != "hostPath"@.len());
        reveal_with_fuel(YamlView::wf, 3);
    }
    r
}

fn build_mount_entry(name: &str, mount_path: &str, read_only: bool) -> (r: Yaml)
    ensures
        r@ == mount_entry(name@, mount_path@, read_only),
        r@.wf(),
{
    let mut m: Vec<(Key, Yaml)> = Vec::new();
    m.push(str_entry("name", name));
    m.push(str_entry("mountPath", mount_path));
    m.push((Key::Str("readOnly".to_owned()), Yaml::Bool(read_only)));
    let r = Yaml::Mapping(m);
    proof {
        reveal_strlit("name");
        reveal_strlit("mountPath");
        reveal_strlit("readOnly");
        r.unfold();
        assert(pair_models(m@) =~= mount_entry(name@, mount_path@, read_only)->Mapping_0);
        assert("name"@.len() == 4 && "mountPath"@.len() == 9 && "readOnly"@.len() == 8);
        reveal_with_fuel(YamlView::wf, 3);
    }
    r
}

/// A container with a volume mounted.
pub open spec fn mounted(c: YamlView, entry: YamlView) -> YamlView {
    appended(with_list(c, "volumeMounts"@), "volumeMounts"@, seq![entry])
}

/// Mounts a volume.
pub struct AddMount<'a> {
    pub name: &'a str,
    pub volume: &'a MergedVolume,
}

impl<'a> ContainerEdit for AddMount<'a> {
    open spec fn edited(&self, c: YamlView) -> YamlView {
        mounted(c, mount_entry(self.name@, self.volume.mount_path@, self.volume.read_only))
    }

    fn edit(&self, c: &Yaml) -> (r: Yaml) {
        let mut entries: Vec<Yaml> = Vec::new();
        let entry = build_mount_entry(self.name, self.volume.mount_path.as_str(), self.volume.read_only);
        entries.push(entry);
        assert(models(entries@) =~= seq![entry@]);
        append_entries(c, "volumeMounts", entries)
    }
}

/// Whether some container of a list mounts something at a path.
pub open spec fn mounts_in(items: Seq<YamlView>, path: Seq<char>) -> bool {
    exists|i: int, j: int|
        0 <= i < items.len() && 0 <= j < items_at(items[i], "volumeMounts"@).len() && #[trigger] field_is(
            items_at(items[i], "volumeMounts"@)[j],
            "mountPath"@,
            path,
        )
}

/// Whether some container mounts something at a path.
pub open spec fn mounts_at(doc: YamlView, path: Seq<char>) -> bool {
    ||| (list_at(doc, "containers"@) matches Some(items) && mounts_in(items, path))
    ||| (list_at(doc, "initContainers"@) matches Some(items) && mounts_in(items, path))
}

/// Whether the pod has a volume of a name.
pub open spec fn has_volume(doc: YamlView, name: Seq<char>) -> bool {
    list_at(doc, "volumes"@) matches Some(items) && names(items, name)
}

fn mounts_path(items: &Vec<Yaml>, path: &str) -> (r: bool)
    ensures
        r == mounts_in(models(items@), path@),
{
    let ghost all = models(items@);
    let mut i: usize = 0;
    while i < items.len()
        invariant
            i <= items@.len(),
            all == models(items@),
            forall|k: int, j: int|
                0 <= k < i && 0 <= j < items_at(all[k], "volumeMounts"@).len() ==> !#[trigger] field_is(
                    items_at(all[k], "volumeMounts"@)[j],
                    "mountPath"@,
                    path@,
                ),
        decreases items@.len() - i,
    {
        assert(all[i as int] == items@[i as int]@);
        match items[i].get("volumeMounts") {
            Some(l) => match l.as_sequence() {
                Some(mounts) => {
                    let ghost at_i = items_at(all[i as int], "volumeMounts"@);
                    let mut j: usize = 0;
                    while j < mounts.len()
                        invariant
                            j <= mounts@.len(),
                            i < all.len(),
                            all == models(items@),
                            at_i == models(mounts@),
                            at_i == items_at(all[i as int], "volumeMounts"@),
                            forall|k: int| 0 <= k < j ==> !#[trigger] field_is(at_i[k], "mountPath"@, path@),
                        decreases mounts@.len() - j,
                    {
                        assert(at_i[j as int] == mounts@[j as int]@);
                        if field_has(&mounts[j], "mountPath", path) {
                            assert(field_is(items_at(all[i as int], "volumeMounts"@)[j as int], "mountPath"@, path@));
                            return true;
                        }
                        j = j + 1;
                    }
                },
                None => {},
            },
            None => {},
        }
        i = i + 1;
    }
    false
}

/// The document with one volume added to the pod and mounted everywhere.
pub open spec fn volume_added(doc: YamlView, name: Seq<char>, v: MergedVolumeView) -> YamlView {
    let ready = match doc.get("spec"@) {
        Some(s) => doc.put("spec"@, with_list(s, "volumes"@)),
        None => doc,
    };
    let listed = on_list(ready, "volumes"@, |items: Seq<YamlView>| items.push(volume_entry(name, v.host_path)));
    on_containers(listed, |c: YamlView| mounted(c, mount_entry(name, v.mount_path, v.read_only)))
}

/// The document with those volumes added whose name and mount path the
/// manifest, as it came, does not use.
pub open spec fn volumes_added(
    given: YamlView,
    app: Seq<char>,
    volumes: Seq<MergedVolumeView>,
) -> YamlView
    decreases volumes.len(),
{
    if volumes.len() == 0 {
        given
    } else {
        let before = volumes_added(given, app, volumes.drop_last());
        let v = volumes.last();
        let name = volume_name(app, v.mount_path);
        if has_volume(given, name) || mounts_at(given, v.mount_path) {
            before
        } else {
            volume_added(before, name, v)
        }
    }
}

fn add_volume(doc: &mut Yaml, name: &str, vol: &MergedVolume)
    ensures
        final(doc)@ == volume_added(old(doc)@, name@, vol@),
        old(doc)@.wf() ==> final(doc)@.wf(),
{
    let ghost start = doc@;
    let ready: Option<Yaml> = match doc.get("spec") {
        Some(s) => {
            let mut s2 = s.copy();
            let empty = Yaml::Sequence(Vec::new());
            proof {
                empty.unfold();
                assert(models(empty->Sequence_0@) =~= seq![]);
                if start.wf() {
                    start.get_wf("spec"@);
                    assert(empty@.wf());
                    s2@.put_wf("volumes"@, empty@);
                }
            }
            if s.get("volumes").is_none() && s.mapping() {
                s2.put("volumes", empty);
            }
            Some(s2)
        },
        None => None,
    };
    match ready {
        Some(s2) => {
            proof {
                if start.wf() {
                    start.put_wf("spec"@, s2@);
                }
            }
            doc.put("spec", s2);
        },
        None => {},
    }
    let ghost ready_doc = doc@;
    let entries: Option<Vec<Yaml>> = match list_of(doc, "volumes") {
        Some(items) => {
            let mut all = copy_items(items);
            let entry = build_volume_entry(name, vol.host_path.as_str());
            let ghost before = models(all@);
            all.push(entry);
            assert(models(all@) =~= before.push(entry@));
            proof {
                if ready_doc.wf() {
                    lists_wf(ready_doc, "volumes"@);
                    assert forall|i: int| 0 <= i < all@.len() implies (#[trigger] all@[i])@.wf() by {
                        if i < before.len() {
                            assert(before[i].wf());
                            assert(models(all@)[i] == before[i]);
                        }
                    }
                }
            }
            Some(all)
        },
        None => None,
    };
    match entries {
        Some(all) => {
            put_list(doc, "volumes", all);
        },
        None => {},
    }
    let e = AddMount { name, volume: vol };
    assert((|c: YamlView| e.edited(c)) =~= (|c: YamlView|
        mounted(c, mount_entry(name@, vol@.mount_path, vol@.read_only))));
    edit_containers(doc, &e);
}

/// Adds host volumes to the pod and mounts them into every container, but for
/// those whose name or mount path the manifest uses already.
pub fn inject_volumes(doc: &mut Yaml, ctx: &RenderContext)
    ensures
        final(doc)@ == volumes_added(old(doc)@, ctx.app_name@, crate::merge::volume_views(ctx.volumes@)),
        old(doc)@.wf() ==> final(doc)@.wf(),
{
    let given = doc.copy();
    let ghost views = crate::merge::volume_views(ctx.volumes@);
    let mut i: usize = 0;
    while i < ctx.volumes.len()
        invariant
            i <= ctx.volumes@.len(),
            views == crate::merge::volume_views(ctx.volumes@),
            given@ == old(doc)@,
            doc@ == volumes_added(given@, ctx.app_name@, views.take(i as int)),
            given@.wf() ==> doc@.wf(),
        decreases ctx.volumes@.len() - i,
    {
        let vol = &ctx.volumes[i];
        assert(views.take(i + 1).drop_last() =~= views.take(i as int));
        assert(views.take(i + 1).last() == vol@);
        let name = sanitize_volume_name(ctx.app_name.as_str(), vol.mount_path.as_str());
        let taken: bool = match list_of(&given, "volumes") {
            Some(items) => any_named(items, name.as_str()),
            None => false,
        };
        let mounted_main: bool = match list_of(&given, "containers") {
            Some(items) => mounts_path(items, vol.mount_path.as_str()),
            None => false,
        };
        let mounted_init: bool = match list_of(&given, "initContainers") {
            Some(items) => mounts_path(items, vol.mount_path.as_str()),
            None => false,
        };
        if !taken && !mounted_main && !mounted_init {
            add_volume(doc, name.as_str(), vol);
        }
        i = i + 1;
    }
    assert(views.take(i as int) =~= views);
}

// ── Rendering ───────────────────────────────────────────────────────────────

/// The document after the seven changes.
pub open spec fn rendered_doc(doc: YamlView, ctx: RenderContext) -> Result<YamlView, ManifestErrorView> {
    match named(doc, ctx.pod_suffix@) {
        Err(e) => Err(e),
        Ok(d1) => {
            let d2 = on_containers(d1, |c: YamlView| tag_resolved(c, ctx.tag@));
            let d3 = on_lists(d2, |items: Seq<YamlView>| primary_set(items, ctx.primary_image@, ctx.tag@));
            let d4 = if ctx.image_overrides@.len() == 0 {
                d3
            } else {
                on_containers(d3, |c: YamlView| overridden(c, ctx.image_overrides@))
            };
            let d5 = on_containers(d4, |c: YamlView| ports_zeroed(c));
            let d6 = if ctx.env_vars@.len() == 0 {
                d5
            } else {
                on_containers(d5, |c: YamlView| env_injected(c, ctx.env_vars@))
            };
            Ok(volumes_added(d6, ctx.app_name@, crate::merge::volume_views(ctx.volumes@)))
        },
    }
}

/// The rendered text of a manifest, or what is wrong with it.
pub open spec fn rendered(raw: Seq<u8>, ctx: RenderContext) -> Result<Seq<char>, ManifestErrorView> {
    match yaml_parsed(raw) {
        Err(e) => Err(ManifestErrorView::InvalidYaml(e)),
        Ok(doc) => match rendered_doc(doc, ctx) {
            Err(e) => Err(e),
            Ok(done) => match yaml_printed(done) {
                Ok(text) => Ok(text),
                Err(e) => Err(ManifestErrorView::InvalidYaml(e)),
            },
        },
    }
}

/// Makes the seven changes to a document.
pub fn render_document(doc: &mut Yaml, ctx: &RenderContext) -> (r: Result<(), ManifestError>)
    ensures
        match r {
            Ok(_) => rendered_doc(old(doc)@, *ctx) == Ok::<YamlView, ManifestErrorView>(final(doc)@),
            Err(e) => rendered_doc(old(doc)@, *ctx) == Err::<YamlView, ManifestErrorView>(e@) && final(doc)@
                == old(doc)@,
        },
        old(doc)@.wf() ==> final(doc)@.wf(),
{
    match set_versioned_name(doc, ctx.pod_suffix.as_str()) {
        Ok(_) => {},
        Err(e) => {
            return Err(e);
        },
    }
    resolve_tag_placeholders(doc, ctx.tag.as_str());
    update_primary_image(doc, ctx.primary_image.as_str(), ctx.tag.as_str());
    apply_sidecar_overrides(doc, &ctx.image_overrides);
    set_host_ports_zero(doc);
    inject_env_vars(doc, &ctx.env_vars);
    inject_volumes(doc, ctx);
    Ok(())
}

/// Renders a manifest: reads it, makes the seven changes, and writes it.
pub fn render_manifest(raw_yaml: &[u8], ctx: &RenderContext) -> (r: Result<String, ManifestError>)
    ensures
        rendered(raw_yaml@, *ctx) == (match r {
            Ok(text) => Ok::<Seq<char>, ManifestErrorView>(text@),
            Err(e) => Err(e@),
        }),
{
    let mut doc = match Yaml::parse(raw_yaml) {
        Ok(d) => d,
        Err(e) => {
            return Err(ManifestError::InvalidYaml(e));
        },
    };
    match render_document(&mut doc, ctx) {
        Ok(_) => {},
        Err(e) => {
            return Err(e);
        },
    }
    match doc.print() {
        Ok(text) => Ok(text),
        Err(e) => Err(ManifestError::InvalidYaml(e)),
    }
}

} // verus!
