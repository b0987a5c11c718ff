//! Which registry credential the pull of an image uses.
//!
//! A registry matches an image when its url is a path-segment prefix of the
//! image's `host/path`; the match with the most path segments wins. A url that
//! is a host alone matches every image on that host, and `host` and `host:443`
//! are different hosts.

use crate::config::SlipConfig;
use crate::text::{at, find, from_chars, opt_text, rfind, same, to_chars};
use vstd::prelude::*;
use vstd::string::*;

verus! {

/// Where a credential comes from: the server's configuration or the secret
/// store.
#[derive(Clone, Copy, Debug, PartialEq, Eq, Structural)]
pub enum RegistryCredSource {
    Toml,
    Store,
}

/// A registry with the credential in force for it.
#[derive(Debug)]
pub struct ResolvedRegistry {
    pub url: String,
    pub username: Option<String>,
    pub password: String,
    pub source: RegistryCredSource,
}

/// A registry as a mathematical value.
pub ghost struct RegistryView {
    pub url: Seq<char>,
    pub username: Option<Seq<char>>,
    pub password: Seq<char>,
    pub source: RegistryCredSource,
}

impl View for ResolvedRegistry {
    type V = RegistryView;

    open spec fn view(&self) -> RegistryView {
        RegistryView {
            url: self.url@,
            username: opt_text(self.username),
            password: self.password@,
            source: self.source,
        }
    }
}

/// The user and password a pull is made with.
#[derive(Debug)]
pub struct RegistryCredentials {
    pub username: String,
    pub password: String,
}

/// Credentials as a mathematical value: user and password.
pub open spec fn credentials_view(c: Option<RegistryCredentials>) -> Option<(Seq<char>, Seq<char>)> {
    match c {
        Some(x) => Some((x.username@, x.password@)),
        None => None,
    }
}

/// A credential that the secret store holds.
#[derive(Debug)]
pub struct StoreCredential {
    pub url: String,
    pub username: Option<String>,
    pub password: String,
}

/// What the registries of a list hold.
pub open spec fn registry_views(v: Seq<ResolvedRegistry>) -> Seq<RegistryView> {
    v.map_values(|r: ResolvedRegistry| r@)
}

/// The stored credentials as registries, in order.
pub open spec fn from_store(store: Seq<StoreCredential>) -> Seq<RegistryView> {
    store.map_values(
        |c: StoreCredential|
            RegistryView {
                url: c.url@,
                username: opt_text(c.username),
                password: c.password@,
                source: RegistryCredSource::Store,
            },
    )
}

/// Whether a table has an entry for a url.
pub open spec fn lists(table: Seq<RegistryView>, url: Seq<char>) -> bool {
    exists|i: int| 0 <= i < table.len() && (#[trigger] table[i]).url == url
}

/// A table with the declared registries behind it that have a token and whose
/// url it does not list yet.
pub open spec fn with_declared(
    table: Seq<RegistryView>,
    declared: Seq<crate::config::RegistryEntry>,
) -> Seq<RegistryView>
    decreases declared.len(),
{
    if declared.len() == 0 {
        table
    } else {
        let before = with_declared(table, declared.drop_last());
        let e = declared.last();
        match e.token {
            Some(token) => if lists(before, e.url@) {
                before
            } else {
                before.push(
                    RegistryView {
                        url: e.url@,
                        username: opt_text(e.username),
                        password: token@,
                        source: RegistryCredSource::Toml,
                    },
                )
            },
            None => before,
        }
    }
}

fn has_url(table: &Vec<ResolvedRegistry>, url: &str) -> (r: bool)
    ensures
        r == lists(registry_views(table@), url@),
{
    let mut i: usize = 0;
    while i < table.len()
        invariant
            i <= table@.len(),
            forall|k: int| 0 <= k < i ==> (#[trigger] registry_views(table@)[k]).url != url@,
        decreases table@.len() - i,
    {
        if same(table[i].url.as_str(), url) {
            assert(registry_views(table@)[i as int].url == url@);
            return true;
        }
        i = i + 1;
    }
    false
}

/// The registries in force: every stored credential, then the declared
/// registries that no earlier entry shadows.
pub fn merged_registry_table(config: &SlipConfig, store: &Vec<StoreCredential>) -> (r: Vec<ResolvedRegistry>)
    ensures
        registry_views(r@) == with_declared(from_store(store@), config.registries@),
{
    let mut out: Vec<ResolvedRegistry> = Vec::new();
    let mut i: usize = 0;
    while i < store.len()
        invariant
            i <= store@.len(),
            registry_views(out@) =~= from_store(store@.take(i as int)),
        decreases store@.len() - i,
    {
        let ghost before = registry_views(out@);
        let entry = ResolvedRegistry {
            url: store[i].url.clone(),
            username: store[i].username.clone(),
            password: store[i].password.clone(),
            source: RegistryCredSource::Store,
        };
        out.push(entry);
        i = i + 1;
        assert(registry_views(out@) =~= before.push(entry@));
        assert(from_store(store@.take(i as int)) =~= from_store(store@.take(i - 1)).push(entry@));
    }
    assert(store@.take(i as int) =~= store@);
    let mut j: usize = 0;
    while j < config.registries.len()
        invariant
            j <= config.registries@.len(),
            registry_views(out@) == with_declared(from_store(store@), config.registries@.take(j as int)),
        decreases config.registries@.len() - j,
    {
        let e = &config.registries[j];
        assert(config.registries@.take(j + 1).drop_last() =~= config.registries@.take(j as int));
        if !has_url(&out, e.url.as_str()) {
            match &e.token {
                Some(token) => {
                    let ghost before = registry_views(out@);
                    let entry = ResolvedRegistry {
                        url: e.url.clone(),
                        username: e.username.clone(),
                        password: token.clone(),
                        source: RegistryCredSource::Toml,
                    };
                    out.push(entry);
                    assert(registry_views(out@) =~= before.push(entry@));
                },
                None => {},
            }
        }
        j = j + 1;
    }
    assert(config.registries@.take(j as int) =~= config.registries@);
    out
}

// ── Image references ────────────────────────────────────────────────────────

/// A reference without its digest.
pub open spec fn without_digest(image: Seq<char>) -> Seq<char> {
    match image.index_of_last('@') {
        Some(i) => image.take(i),
        None => image,
    }
}

/// A reference without its tag: a colon before the last slash belongs to a
/// port.
pub open spec fn without_tag(image: Seq<char>) -> Seq<char> {
    match (image.index_of_last(':'), image.index_of_last('/')) {
        (Some(c), Some(s)) => if c > s {
            image.take(c)
        } else {
            image
        },
        (Some(c), None) => image.take(c),
        (None, _) => image,
    }
}

/// Whether the first segment of a reference names a host.
pub open spec fn is_host(segment: Seq<char>) -> bool {
    segment.contains('.') || segment.contains(':') || segment == "localhost"@
}

/// The host of an image and its full `host/path`. Names without a host belong
/// to Docker Hub, those of a single segment to its library.
pub open spec fn image_place(image: Seq<char>) -> (Seq<char>, Seq<char>) {
    let name = without_tag(without_digest(image));
    match name.index_of_first('/') {
        Some(i) => if is_host(name.take(i)) {
            (name.take(i), name)
        } else {
            ("docker.io"@, "docker.io/"@ + name)
        },
        None => ("docker.io"@, "docker.io/library/"@ + name),
    }
}

/// Splits an image reference into its host and its full `host/path`, without
/// tag and digest.
pub fn normalize_image_ref(image_ref: &str) -> (r: (String, String))
    ensures
        (r.0@, r.1@) == image_place(image_ref@),
{
    let all = to_chars(image_ref);
    let plain: Vec<char> = match rfind(&all, '@') {
        Some(i) => {
            let mut v = all;
            v.truncate(i);
            v
        },
        None => all,
    };
    assert(plain@ =~= without_digest(image_ref@));
    let colon = rfind(&plain, ':');
    let slash = rfind(&plain, '/');
    let cut: Option<usize> = match (colon, slash) {
        (Some(c), Some(s)) => if c > s {
            Some(c)
        } else {
            None
        },
        (Some(c), None) => Some(c),
        (None, _) => None,
    };
    let name: Vec<char> = match cut {
        Some(i) => {
            let mut v = plain;
            v.truncate(i);
            v
        },
        None => plain,
    };
    assert(name@ =~= without_tag(without_digest(image_ref@)));
    let full = from_chars(&name, 0, name.len());
    assert(full@ =~= name@);
    match find(&name, '/') {
        Some(i) => {
            let host = from_chars(&name, 0, i);
            assert(host@ =~= name@.take(i as int));
            let host_chars = to_chars(host.as_str());
            proof {
                host@.index_of_first_ensures('.');
                host@.index_of_first_ensures(':');
            }
            if find(&host_chars, '.').is_some() || find(&host_chars, ':').is_some() || same(
                host.as_str(),
                "localhost",
            ) {
                (host, full)
            } else {
                ("docker.io".to_owned(), "docker.io/".to_owned().concat(full.as_str()))
            }
        },
        None => ("docker.io".to_owned(), "docker.io/library/".to_owned().concat(full.as_str())),
    }
}

// ── Matching ────────────────────────────────────────────────────────────────

/// Whether `url` is `full` itself or ends where a path segment of it ends.
pub open spec fn segment_prefix(url: Seq<char>, full: Seq<char>) -> bool {
    crate::text::starts_with(full, url) && (url.len() == full.len() || full[url.len() as int] == '/')
}

/// How many path segments a url has.
pub open spec fn segment_count(url: Seq<char>) -> nat
    decreases url.len(),
{
    if url.len() == 0 {
        1
    } else {
        segment_count(url.drop_last()) + if url.last() == '/' {
            1nat
        } else {
            0
        }
    }
}

/// The first registry with the most path segments among those that match.
pub open spec fn best_match(regs: Seq<RegistryView>, full: Seq<char>) -> Option<int>
    decreases regs.len(),
{
    if regs.len() == 0 {
        None
    } else {
        let before = best_match(regs.drop_last(), full);
        if segment_prefix(regs.last().url, full) && match before {
            Some(i) => segment_count(regs.last().url) > segment_count(regs[i].url),
            None => true,
        } {
            Some(regs.len() - 1)
        } else {
            before
        }
    }
}

/// The credentials for an image, if a registry matches it.
pub open spec fn credential_for(image: Seq<char>, regs: Seq<RegistryView>) -> Option<(Seq<char>, Seq<char>)> {
    match best_match(regs, image_place(image).1) {
        Some(i) => Some(
            (
                match regs[i].username {
                    Some(u) => u,
                    None => "slip"@,
                },
                regs[i].password,
            ),
        ),
        None => None,
    }
}

/// The best match matches, no match has more segments, and none before it has
/// as many; there is one as soon as any registry matches.
pub proof fn best_match_is_longest(regs: Seq<RegistryView>, full: Seq<char>)
    ensures
        match best_match(regs, full) {
            Some(i) => {
                &&& 0 <= i < regs.len()
                &&& segment_prefix(regs[i].url, full)
                &&& forall|j: int|
                    0 <= j < regs.len() && segment_prefix(#[trigger] regs[j].url, full) ==> segment_count(
                        regs[j].url,
                    ) <= segment_count(regs[i].url)
                &&& forall|j: int|
                    0 <= j < i && segment_prefix(#[trigger] regs[j].url, full) ==> segment_count(regs[j].url)
                        < segment_count(regs[i].url)
            },
            None => forall|j: int| 0 <= j < regs.len() ==> !segment_prefix(#[trigger] regs[j].url, full),
        },
    decreases regs.len(),
{
    if regs.len() > 0 {
        let init = regs.drop_last();
        best_match_is_longest(init, full);
        assert forall|j: int| 0 <= j < regs.len() - 1 implies init[j] == #[trigger] regs[j] by {}
    }
}

/// A longer text has no fewer segments, and more if a slash follows the part.
proof fn segments_grow(s: Seq<char>, n: int)
    requires
        0 <= n <= s.len(),
    ensures
        segment_count(s.take(n)) <= segment_count(s),
        n < s.len() && s[n] == '/' ==> segment_count(s.take(n)) < segment_count(s),
    decreases s.len() - n,
{
    if n == s.len() {
        assert(s.take(n) =~= s);
    } else {
        segments_grow(s, n + 1);
        assert(s.take(n + 1).drop_last() =~= s.take(n));
        assert(s.take(n + 1).last() == s[n]);
    }
}

/// Two urls that match one image with equally many segments are the same url,
/// so the winner never depends on how ties are broken between urls.
pub proof fn equal_matches_are_one_url(a: Seq<char>, b: Seq<char>, full: Seq<char>)
    requires
        segment_prefix(a, full),
        segment_prefix(b, full),
        segment_count(a) == segment_count(b),
    ensures
        a == b,
{
    assert(a =~= full.take(a.len() as int)) by {
        assert(full.subrange(0, a.len() as int) =~= full.take(a.len() as int));
    }
    assert(b =~= full.take(b.len() as int)) by {
        assert(full.subrange(0, b.len() as int) =~= full.take(b.len() as int));
    }
    if a.len() < b.len() {
        segments_grow(b, a.len() as int);
        assert(b.take(a.len() as int) =~= a);
        assert(b[a.len() as int] == full[a.len() as int]);
    } else if b.len() < a.len() {
        segments_grow(a, b.len() as int);
        assert(a.take(b.len() as int) =~= b);
        assert(a[b.len() as int] == full[b.len() as int]);
    }
}

/// A registry that names a host alone matches every image on that host.
pub proof fn host_matches_its_images(image: Seq<char>, url: Seq<char>)
    requires
        url == image_place(image).0,
    ensures
        segment_prefix(url, image_place(image).1),
{
    let name = without_tag(without_digest(image));
    let full = image_place(image).1;
    name.index_of_first_ensures('/');
    reveal_strlit("docker.io");
    reveal_strlit("docker.io/");
    reveal_strlit("docker.io/library/");
    assert(full.subrange(0, url.len() as int) =~= url);
}

/// Stored credentials shadow declared ones: a url that the store has stands in
/// the table with the store's credential, and with no declared one.
pub proof fn store_shadows_declared(
    store: Seq<StoreCredential>,
    declared: Seq<crate::config::RegistryEntry>,
    i: int,
)
    ensures
        ({
            let table = with_declared(from_store(store), declared);
            &&& from_store(store).len() <= table.len()
            &&& table.take(store.len() as int) == from_store(store)
            &&& forall|k: int|
                0 <= i < table.len() && table[i].source == RegistryCredSource::Toml && 0 <= k < store.len()
                    ==> table[i].url != (#[trigger] store[k]).url@
        }),
    decreases declared.len(),
{
    let table = with_declared(from_store(store), declared);
    if declared.len() == 0 {
        assert(table.take(store.len() as int) =~= from_store(store));
    } else {
        let before = with_declared(from_store(store), declared.drop_last());
        store_shadows_declared(store, declared.drop_last(), i);
        assert(table.take(store.len() as int) =~= before.take(store.len() as int));
        if 0 <= i < table.len() && table[i].source == RegistryCredSource::Toml {
            assert forall|k: int| 0 <= k < store.len() implies table[i].url != (#[trigger] store[k]).url@ by {
                assert(before.take(store.len() as int)[k].url == store[k].url@);
                assert(before[k].url == store[k].url@);
            }
        }
    }
}

/// The credentials for the pull of an image. A registry without a user name is
/// used as `slip`.
pub fn resolve_registry_credential(
    image_ref: &str,
    registries: &Vec<ResolvedRegistry>,
) -> (r: Option<RegistryCredentials>)
    ensures
        credentials_view(r) == credential_for(image_ref@, registry_views(registries@)),
{
    let (_host, full) = normalize_image_ref(image_ref);
    let full_chars = to_chars(full.as_str());
    let ghost regs = registry_views(registries@);
    let mut best: Option<(usize, usize)> = None;
    let mut i: usize = 0;
    while i < registries.len()
        invariant
            i <= registries@.len(),
            full_chars@ == full@,
            regs == registry_views(registries@),
            match best {
                Some(b) => b.0 < i && best_match(regs.take(i as int), full@) == Some(b.0 as int) && b.1
                    + 1 == segment_count(regs[b.0 as int].url),
                None => best_match(regs.take(i as int), full@) is None,
            },
        decreases registries@.len() - i,
    {
        let url = to_chars(registries[i].url.as_str());
        assert(regs.take(i + 1).drop_last() =~= regs.take(i as int));
        assert(regs.take(i + 1).last() == regs[i as int]);
        if at(&full_chars, &url, 0) && (url.len() == full_chars.len() || full_chars[url.len()] == '/') {
            let count: usize = count_slashes(&url);
            let wins: bool = match best {
                Some((_, c)) => count > c,
                None => true,
            };
            if wins {
                best = Some((i, count));
            }
        }
        i = i + 1;
    }
    assert(regs.take(i as int) =~= regs);
    match best {
        Some((b, _)) => Some(
            RegistryCredentials {
                username: match &registries[b].username {
                    Some(u) => u.clone(),
                    None => "slip".to_owned(),
                },
                password: registries[b].password.clone(),
            },
        ),
        None => None,
    }
}

fn count_slashes(url: &Vec<char>) -> (r: usize)
    ensures
        r + 1 == segment_count(url@),
{
    let mut n: usize = 0;
    let mut i: usize = 0;
    while i < url.len()
        invariant
            i <= url@.len(),
            n <= i,
            n + 1 == segment_count(url@.take(i as int)),
        decreases url@.len() - i,
    {
        assert(url@.take(i + 1).drop_last() =~= url@.take(i as int));
        if url[i] == '/' {
            n = n + 1;
        }
        i = i + 1;
    }
    assert(url@.take(i as int) =~= url@);
    n
}

/// Where the characters stand at which a reference is split: a name whose last
/// segment holds no colon has none behind its last slash, and neither has a
/// slash behind the colon of its tag.
pub proof fn name_ends(dir: Seq<char>, base: Seq<char>, tag: Seq<char>)
    requires
        dir.len() > 0 ==> dir.last() == '/',
        !dir.contains('@'),
        !base.contains('/') && !base.contains(':') && !base.contains('@'),
        !tag.contains('/') && !tag.contains(':') && !tag.contains('@'),
    ensures
        (dir + base).index_of_last('@') is None,
        (dir + base + seq![':'] + tag).index_of_last('@') is None,
        (dir + base).index_of_last(':') matches Some(c) ==> ((dir + base).index_of_last('/') matches Some(s) && c < s),
        (dir + base + seq![':'] + tag).index_of_last('/') matches Some(s) ==> s < (dir + base).len(),
{
    let name = dir + base;
    let tagged = name + seq![':'] + tag;
    name.index_of_last_ensures('@');
    name.index_of_last_ensures(':');
    name.index_of_last_ensures('/');
    tagged.index_of_last_ensures('@');
    tagged.index_of_last_ensures('/');
    assert(!name.contains('@')) by {
        if name.contains('@') {
            let i = choose|i: int| 0 <= i < name.len() && name[i] == '@';
            if i < dir.len() {
                assert(dir[i] == '@');
            } else {
                assert(base[i - dir.len()] == '@');
            }
        }
    }
    assert(!tagged.contains('@')) by {
        if tagged.contains('@') {
            let i = choose|i: int| 0 <= i < tagged.len() && tagged[i] == '@';
            if i < name.len() {
                assert(name[i] == '@');
            } else {
                assert(tag[i - name.len() - 1] == '@');
            }
        }
    }
    if let Some(c) = name.index_of_last(':') {
        if c >= dir.len() {
            assert(base[c - dir.len()] == ':');
        }
        assert(dir.len() > 0);
        assert(name[dir.len() - 1] == '/');
        assert(name.contains('/'));
        let s = name.index_of_last('/')->0;
        if s < dir.len() - 1 {
            assert(name[dir.len() - 1] != '/');
        }
        if c == dir.len() - 1 {
            assert(name[c] == '/');
        }
    }
    if let Some(s) = tagged.index_of_last('/') {
        if s > name.len() {
            assert(tag[s - name.len() - 1] == '/');
        }
    }
}

/// Neither tag nor digest is part of an image's place, while the port of a host
/// is. A name is what precedes the last path segment, and that segment.
pub proof fn a_place_has_no_tag(dir: Seq<char>, base: Seq<char>, tag: Seq<char>, digest: Seq<char>)
    requires
        dir.len() > 0 ==> dir.last() == '/',
        !dir.contains('@'),
        !base.contains('/') && !base.contains(':') && !base.contains('@'),
        !tag.contains('/') && !tag.contains(':') && !tag.contains('@'),
        !digest.contains('@'),
    ensures
        image_place(dir + base + seq![':'] + tag) == image_place(dir + base),
        image_place(dir + base + seq!['@'] + digest) == image_place(dir + base),
        image_place(dir + base + seq![':'] + tag + seq!['@'] + digest) == image_place(dir + base),
        dir.len() == 0 ==> image_place(dir + base) == ("docker.io"@, "docker.io/library/"@ + base),
{
    let name = dir + base;
    let tagged = name + seq![':'] + tag;
    name_ends(dir, base, tag);
    assert(without_tag(without_digest(name)) == name);
    assert(tagged =~= name.push(':') + tag);
    crate::text::last_place(name, ':', tag);
    assert(tagged.take(name.len() as int) =~= name);
    let pinned = name + seq!['@'] + digest;
    assert(pinned =~= name.push('@') + digest);
    crate::text::last_place(name, '@', digest);
    assert(pinned.take(name.len() as int) =~= name);
    let both = tagged + seq!['@'] + digest;
    assert(both =~= tagged.push('@') + digest);
    crate::text::last_place(tagged, '@', digest);
    assert(both.take(tagged.len() as int) =~= tagged);
    if dir.len() == 0 {
        assert(name =~= base);
        name.index_of_first_ensures('/');
    }
}

/// An image lies on the host that its first segment names, where that has a
/// dot or a port or is `localhost`, and else on Docker Hub.
pub proof fn an_image_lies_on_its_host(host: Seq<char>, dir: Seq<char>, base: Seq<char>)
    requires
        dir.len() > 0 ==> dir.last() == '/',
        !host.contains('/') && !host.contains('@') && !dir.contains('@'),
        !base.contains('/') && !base.contains(':') && !base.contains('@'),
    ensures
        ({
            let path = dir + base;
            let place = image_place(host + seq!['/'] + path);
            if host.contains('.') || host.contains(':') || host == "localhost"@ {
                place == (host, host + seq!['/'] + path)
            } else {
                place == ("docker.io"@, "docker.io/"@ + host + seq!['/'] + path)
            }
        }),
{
    let front = host + seq!['/'] + dir;
    let name = host + seq!['/'] + (dir + base);
    assert(front + base =~= name);
    assert(front.last() == '/') by {
        if dir.len() == 0 {
            assert(front[host.len() as int] == '/');
        } else {
            assert(front[front.len() - 1] == dir[dir.len() - 1]);
        }
    }
    assert(!front.contains('@')) by {
        if front.contains('@') {
            let i = choose|i: int| 0 <= i < front.len() && front[i] == '@';
            if i < host.len() {
                assert(host[i] == '@');
            } else if i > host.len() {
                assert(dir[i - host.len() - 1] == '@');
            }
        }
    }
    let none: Seq<char> = seq![];
    name_ends(front, base, none);
    assert(without_tag(without_digest(name)) == name);
    name.index_of_first_ensures('/');
    assert(name[host.len() as int] == '/');
    assert(name.contains('/'));
    let i = name.index_of_first('/')->0;
    if i < host.len() {
        assert(host[i] == '/');
        assert(host.contains('/'));
    }
    assert(i == host.len()) by {
        if i > host.len() {
            assert(name[host.len() as int] != '/');
        }
    }
    assert(name.take(i) =~= host);
    assert("docker.io/"@ + name =~= "docker.io/"@ + host + seq!['/'] + (dir + base));
}

/// A registry matches what lies at its url or under it, and nothing whose name
/// only begins alike.
pub proof fn a_match_ends_with_a_segment(url: Seq<char>, rest: Seq<char>)
    ensures
        segment_prefix(url, url),
        segment_prefix(url, url + seq!['/'] + rest),
        rest.len() > 0 && rest[0] != '/' ==> !segment_prefix(url, url + rest),
{
    assert(url.subrange(0, url.len() as int) =~= url);
    let under = url + seq!['/'] + rest;
    assert(under.subrange(0, url.len() as int) =~= url);
    assert(under[url.len() as int] == '/');
    if rest.len() > 0 {
        assert((url + rest)[url.len() as int] == rest[0]);
    }
}

/// A url under another one has more segments.
pub proof fn a_longer_url_has_more_segments(url: Seq<char>, rest: Seq<char>)
    ensures
        segment_count(url) < segment_count(url + seq!['/'] + rest),
{
    let s = url + seq!['/'] + rest;
    segments_grow(s, url.len() as int);
    assert(s.take(url.len() as int) =~= url);
}

/// A pull is made as the user of the registry that matches the image with the
/// most segments, as `slip` where that one names no user, and with no
/// credentials if none matches.
pub proof fn the_closest_registry_is_used(image: Seq<char>, regs: Seq<RegistryView>, i: int)
    ensures
        (forall|j: int| 0 <= j < regs.len() ==> !segment_prefix(#[trigger] regs[j].url, image_place(image).1))
            ==> credential_for(image, regs) is None,
        0 <= i < regs.len() && segment_prefix(regs[i].url, image_place(image).1) && (forall|j: int|
            0 <= j < regs.len() && j != i && segment_prefix(#[trigger] regs[j].url, image_place(image).1)
                ==> segment_count(regs[j].url) < segment_count(regs[i].url)) ==> {
            &&& credential_for(image, regs) is Some
            &&& (credential_for(image, regs)->0).1 == regs[i].password
            &&& regs[i].username is Some ==> Some((credential_for(image, regs)->0).0) == regs[i].username
            &&& regs[i].username is None ==> (credential_for(image, regs)->0).0 == "slip"@
        },
{
    best_match_is_longest(regs, image_place(image).1);
}

/// Whether a table's entry is what a declaration with a token says.
pub open spec fn is_entry(v: RegistryView, e: crate::config::RegistryEntry) -> bool {
    &&& e.token matches Some(token) && v.password == token@
    &&& v.url == e.url@
    &&& v.username == opt_text(e.username)
    &&& v.source == RegistryCredSource::Toml
}

/// Every declared registry with a token is listed, and what stands behind the
/// stored credentials are declarations.
pub proof fn declared_registries_are_listed(
    store: Seq<StoreCredential>,
    declared: Seq<crate::config::RegistryEntry>,
)
    ensures
        ({
            let table = with_declared(from_store(store), declared);
            &&& forall|d: int|
                0 <= d < declared.len() && (#[trigger] declared[d]).token is Some ==> lists(table, declared[d].url@)
            &&& forall|i: int|
                store.len() <= i < table.len() ==> exists|d: int|
                    0 <= d < declared.len() && is_entry(#[trigger] table[i], #[trigger] declared[d])
        }),
    decreases declared.len(),
{
    let table = with_declared(from_store(store), declared);
    if declared.len() > 0 {
        let init = declared.drop_last();
        let before = with_declared(from_store(store), init);
        declared_registries_are_listed(store, init);
        assert(declared[declared.len() - 1] == declared.last());
        assert(before.len() <= table.len());
        assert forall|i: int| 0 <= i < before.len() implies #[trigger] table[i] == before[i] by {}
        assert forall|d: int| 0 <= d < declared.len() && (#[trigger] declared[d]).token is Some implies lists(
            table,
            declared[d].url@,
        ) by {
            if d < init.len() {
                assert(init[d] == declared[d]);
                let i = choose|i: int| 0 <= i < before.len() && (#[trigger] before[i]).url == declared[d].url@;
                assert(table[i].url == declared[d].url@);
            } else if lists(before, declared[d].url@) {
                let i = choose|i: int| 0 <= i < before.len() && (#[trigger] before[i]).url == declared[d].url@;
                assert(table[i].url == declared[d].url@);
            } else {
                assert(table[table.len() - 1].url == declared[d].url@);
            }
        }
        assert forall|i: int| store.len() <= i < table.len() implies exists|d: int|
            0 <= d < declared.len() && is_entry(#[trigger] table[i], #[trigger] declared[d]) by {
            if i < before.len() {
                let d = choose|d: int| 0 <= d < init.len() && is_entry(before[i], #[trigger] init[d]);
                assert(is_entry(table[i], declared[d]));
            } else {
                assert(is_entry(table[i], declared[declared.len() - 1]));
            }
        }
    }
}

} // verus!
