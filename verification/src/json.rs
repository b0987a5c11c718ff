//! JSON values as trees of plain values.

use crate::time::Duration;
use vstd::prelude::*;
use vstd::string::*;

verus! {

/// A JSON value of `serde_json`.
#[verifier::external_type_specification]
#[verifier::external_body]
pub struct ExValue(serde_json::Value);

/// A JSON number of `serde_json`.
#[verifier::external_type_specification]
#[verifier::external_body]
pub struct ExNumber(serde_json::Number);

/// A JSON value under construction. Where a key stands twice in an object, the
/// later entry counts.
#[derive(Debug)]
pub enum Json {
    Null,
    Bool(bool),
    Number(serde_json::Number),
    Str(String),
    Array(Vec<Json>),
    Object(Vec<(String, Json)>),
}

/// A JSON value as a mathematical value.
pub enum JsonView {
    Null,
    Bool(bool),
    Number(serde_json::Number),
    Str(Seq<char>),
    Array(Seq<JsonView>),
    Object(Map<Seq<char>, JsonView>),
}

/// The object that entries make up, a later one over an earlier one.
pub open spec fn object_of(entries: Seq<(Seq<char>, JsonView)>) -> Map<Seq<char>, JsonView>
    decreases entries.len(),
{
    if entries.len() == 0 {
        Map::empty()
    } else {
        object_of(entries.drop_last()).insert(entries.last().0, entries.last().1)
    }
}

impl Json {
    /// The value as a mathematical value.
    pub open spec fn model(self) -> JsonView
        decreases self, 1int,
    {
        match self {
            Json::Null => JsonView::Null,
            Json::Bool(b) => JsonView::Bool(b),
            Json::Number(n) => JsonView::Number(n),
            Json::Str(s) => JsonView::Str(s@),
            Json::Array(v) => JsonView::Array(
                Seq::new(
                    v@.len(),
                    |i: int|
                        if 0 <= i < v@.len() {
                            v@[i].model()
                        } else {
                            JsonView::Null
                        },
                ),
            ),
            Json::Object(_) => JsonView::Object(object_of(self.entries())),
        }
    }

    /// The entries of an object, in order.
    pub open spec fn entries(self) -> Seq<(Seq<char>, JsonView)>
        decreases self, 0int,
    {
        match self {
            Json::Object(m) => Seq::new(
                m@.len(),
                |i: int|
                    if 0 <= i < m@.len() {
                        (m@[i].0@, m@[i].1.model())
                    } else {
                        (seq![], JsonView::Null)
                    },
            ),
            _ => seq![],
        }
    }
}

impl View for Json {
    type V = JsonView;

    open spec fn view(&self) -> JsonView {
        self.model()
    }
}

/// What the values of a list hold.
pub open spec fn models(v: Seq<Json>) -> Seq<JsonView> {
    v.map_values(|j: Json| j@)
}

/// What the entries of an object hold.
pub open spec fn entry_models(v: Seq<(String, Json)>) -> Seq<(Seq<char>, JsonView)> {
    v.map_values(|p: (String, Json)| (p.0@, p.1@))
}

/// How an array reads as a mathematical value.
proof fn array_model(v: Vec<Json>)
    ensures
        Json::Array(v)@ == JsonView::Array(models(v@)),
{
    assert(Json::Array(v)@->Array_0 =~= models(v@));
}

/// How an object reads as a mathematical value.
proof fn object_model(m: Vec<(String, Json)>)
    ensures
        Json::Object(m)@ == JsonView::Object(object_of(entry_models(m@))),
{
    assert(Json::Object(m).entries() =~= entry_models(m@));
}

impl Json {
    /// An array or object reads as its contents.
    pub proof fn unfold(self)
        ensures
            match self {
                Json::Array(v) => self@ == JsonView::Array(models(v@)),
                Json::Object(m) => self@ == JsonView::Object(object_of(entry_models(m@))),
                _ => true,
            },
    {
        match self {
            Json::Array(v) => array_model(v),
            Json::Object(m) => object_model(m),
            _ => {},
        }
    }
}

// ── Outside values ──────────────────────────────────────────────────────────

/// What a `serde_json::Value` holds.
pub uninterp spec fn json_of(v: serde_json::Value) -> JsonView;

/// What `serde_json::Number::from` makes of an unsigned integer.
pub uninterp spec fn json_unsigned(n: u64) -> serde_json::Number;

/// The JSON number for a span of time, in seconds.
pub uninterp spec fn json_seconds(secs: u64, nanos: u32) -> serde_json::Number;

/// What `serde_json::Value`'s `to_string` writes.
pub uninterp spec fn json_text(v: JsonView) -> Seq<char>;

/// One level of a JSON value.
pub enum Node {
    Null,
    Bool(bool),
    Number(serde_json::Number),
    Str(String),
    Array(Vec<serde_json::Value>),
    Object(Vec<(String, serde_json::Value)>),
}

/// What the values of a list hold.
pub open spec fn values_of(v: Seq<serde_json::Value>) -> Seq<JsonView> {
    v.map_values(|x: serde_json::Value| json_of(x))
}

/// What the entries of an object hold.
pub open spec fn entries_of(v: Seq<(String, serde_json::Value)>) -> Seq<(Seq<char>, JsonView)> {
    v.map_values(|p: (String, serde_json::Value)| (p.0@, json_of(p.1)))
}

/// What one level holds.
pub open spec fn node_of(node: Node) -> JsonView {
    match node {
        Node::Null => JsonView::Null,
        Node::Bool(b) => JsonView::Bool(b),
        Node::Number(n) => JsonView::Number(n),
        Node::Str(s) => JsonView::Str(s@),
        Node::Array(v) => JsonView::Array(values_of(v@)),
        Node::Object(m) => JsonView::Object(object_of(entries_of(m@))),
    }
}

/// Builds a `serde_json::Value` of one level, variant by variant. A
/// `serde_json::Map` collected from entries holds the last one of each key.
#[verifier::external_body]
fn close_value(node: Node) -> (r: serde_json::Value)
    ensures
        json_of(r) == node_of(node),
{
    match node {
        Node::Null => serde_json::Value::Null,
        Node::Bool(b) => serde_json::Value::Bool(b),
        Node::Number(n) => serde_json::Value::Number(n),
        Node::Str(s) => serde_json::Value::String(s),
        Node::Array(v) => serde_json::Value::Array(v),
        Node::Object(m) => serde_json::Value::Object(m.into_iter().collect()),
    }
}

/// `serde_json::Number::from` turns an unsigned integer into a JSON number,
/// named `json_unsigned`. Different integers give different numbers.
#[verifier::external_body]
fn number_from(n: u64) -> (r: serde_json::Number)
    ensures
        r == json_unsigned(n),
        forall|m: u64| #[trigger] json_unsigned(m) == r ==> m == n,
{
    serde_json::Number::from(n)
}

/// `serde_json::Number::from_f64` of a span's seconds, which
/// `std::time::Duration::as_secs_f64` gives. They are finite, so there always
/// is such a number; it is named `json_seconds`. Whole seconds below 2^53 are
/// floating-point numbers. Below 2^22 seconds these lie less than half a
/// nanosecond apart. So different spans of these two sorts give different numbers;
/// of other spans this is not said.
#[verifier::external_body]
fn number_of_seconds(secs: u64, nanos: u32) -> (r: Option<serde_json::Number>)
    requires
        nanos < 1_000_000_000,
    ensures
        r == Some(json_seconds(secs, nanos)),
        is_exact(secs, nanos) ==> forall|s: u64, n: u32|
            is_exact(s, n) && Some(#[trigger] json_seconds(s, n)) == r ==> s == secs && n == nanos,
{
    serde_json::Number::from_f64(std::time::Duration::new(secs, nanos).as_secs_f64())
}

/// `serde_json::Value`'s `to_string` writes a value compactly. What it writes
/// is named `json_text`.
#[verifier::external_body]
fn value_text(v: &serde_json::Value) -> (r: String)
    ensures
        r@ == json_text(json_of(*v)),
{
    v.to_string()
}

/// `serde_json::Value`'s `clone` gives the same value.
pub assume_specification[ <serde_json::Value as Clone>::clone ](v: &serde_json::Value) -> (r: serde_json::Value)
    ensures
        r == *v,
;

/// `serde_json::Number`'s `clone` gives the same number.
pub assume_specification[ <serde_json::Number as Clone>::clone ](n: &serde_json::Number) -> (r: serde_json::Number)
    ensures
        r == *n,
;

/// Writes a value compactly.
pub fn print(v: &serde_json::Value) -> (r: String)
    ensures
        r@ == json_text(json_of(*v)),
{
    value_text(v)
}

impl Json {
    /// A text.
    pub fn text(s: &str) -> (r: Json)
        ensures
            r@ == JsonView::Str(s@),
    {
        Json::Str(s.to_owned())
    }

    /// An unsigned number.
    pub fn unsigned(n: u64) -> (r: Json)
        ensures
            r@ == JsonView::Number(json_unsigned(n)),
            forall|m: u64| #[trigger] json_unsigned(m) == json_unsigned(n) ==> m == n,
    {
        Json::Number(number_from(n))
    }

    /// A span of time in seconds.
    pub fn seconds(d: Duration) -> (r: Json)
        ensures
            r@ == seconds_view(d),
            d.nanos() < 1_000_000_000,
            told_apart(d),
    {
        match number_of_seconds(d.as_secs(), d.subsec_nanos()) {
            Some(n) => Json::Number(n),
            None => Json::Null,
        }
    }

    /// An object without entries.
    pub fn object() -> (r: Json)
        ensures
            r is Object,
            r@ == JsonView::Object(Map::empty()),
    {
        let r = Json::Object(Vec::new());
        proof {
            r.unfold();
            assert(entry_models(r->Object_0@) =~= seq![]);
        }
        r
    }

    /// Sets a key of an object.
    pub fn set(&mut self, key: &str, value: Json)
        requires
            *old(self) is Object,
        ensures
            *final(self) is Object,
            final(self)@ == JsonView::Object(old(self)@->Object_0.insert(key@, value@)),
    {
        proof {
            self.unfold();
        }
        match self {
            Json::Object(m) => {
                let ghost before = entry_models(m@);
                m.push((key.to_owned(), value));
                assert(entry_models(m@) =~= before.push((key@, value@)));
                assert(entry_models(m@).drop_last() =~= before);
                proof {
                    Json::Object(*m).unfold();
                }
            },
            _ => {},
        }
    }

    /// The value as `serde_json` has it.
    pub fn to_value(&self) -> (r: serde_json::Value)
        ensures
            json_of(r) == self@,
        decreases self,
    {
        proof {
            self.unfold();
        }
        match self {
            Json::Null => close_value(Node::Null),
            Json::Bool(b) => close_value(Node::Bool(*b)),
            Json::Number(n) => close_value(Node::Number(n.clone())),
            Json::Str(s) => close_value(Node::Str(s.clone())),
            Json::Array(v) => {
                let mut out: Vec<serde_json::Value> = Vec::new();
                let mut i: usize = 0;
                while i < v.len()
                    invariant
                        i <= v@.len(),
                        out@.len() == i,
                        forall|k: int| 0 <= k < i ==> json_of(#[trigger] out@[k]) == v@[k]@,
                        decreases_to!(self => v@),
                    decreases v@.len() - i,
                {
                    let x = v[i].to_value();
                    out.push(x);
                    i = i + 1;
                }
                assert(values_of(out@) =~= models(v@));
                close_value(Node::Array(out))
            },
            Json::Object(m) => {
                let mut out: Vec<(String, serde_json::Value)> = Vec::new();
                let mut i: usize = 0;
                while i < m.len()
                    invariant
                        i <= m@.len(),
                        out@.len() == i,
                        forall|k: int|
                            0 <= k < i ==> (#[trigger] out@[k]).0@ == m@[k].0@ && json_of(out@[k].1) == m@[k].1@,
                        decreases_to!(self => m@),
                    decreases m@.len() - i,
                {
                    let x = m[i].1.to_value();
                    out.push((m[i].0.clone(), x));
                    i = i + 1;
                }
                assert(entries_of(out@) =~= entry_models(m@));
                close_value(Node::Object(out))
            },
        }
    }
}

/// A span of time as a JSON number of seconds.
pub open spec fn seconds_view(d: Duration) -> JsonView {
    JsonView::Number(json_seconds(d.secs(), d.nanos()))
}

/// Whether seconds and nanoseconds are a span that floating-point numbers tell
/// from every other such span: one of less than 2^22 seconds, or of whole seconds
/// below 2^53.
pub open spec fn is_exact(secs: u64, nanos: u32) -> bool {
    nanos < 1_000_000_000 && (secs < 0x40_0000 || nanos == 0 && secs < 0x20_0000_0000_0000)
}

/// Whether a span is one that floating-point numbers tell from every other such
/// span.
pub open spec fn is_distinct(d: Duration) -> bool {
    is_exact(d.secs(), d.nanos())
}

/// Whether a span, if it can be told from others, has a number that no other such
/// span has.
pub open spec fn told_apart(d: Duration) -> bool {
    is_distinct(d) ==> forall|other: Duration|
        is_distinct(other) && #[trigger] seconds_view(other) == seconds_view(d) ==> other.secs() == d.secs()
            && other.nanos() == d.nanos()
}

// ── Sorted keys ─────────────────────────────────────────────────────────────

/// Whether one text comes before another: at the first character in which they
/// differ, or as a shorter beginning of it.
pub open spec fn before(a: Seq<char>, b: Seq<char>) -> bool
    decreases a.len(),
{
    if b.len() == 0 {
        false
    } else if a.len() == 0 {
        true
    } else if a[0] != b[0] {
        a[0] < b[0]
    } else {
        before(a.skip(1), b.skip(1))
    }
}

proof fn not_before_itself(a: Seq<char>)
    ensures
        !before(a, a),
    decreases a.len(),
{
    if a.len() > 0 {
        not_before_itself(a.skip(1));
    }
}

/// Of two different texts exactly one comes first, and what comes before what
/// comes before a text comes before that text.
proof fn before_is_an_order(a: Seq<char>, b: Seq<char>, c: Seq<char>)
    ensures
        !before(a, a),
        before(a, b) ==> !before(b, a),
        a != b ==> before(a, b) || before(b, a),
        before(a, b) && before(b, c) ==> before(a, c),
    decreases a.len() + b.len() + c.len(),
{
    not_before_itself(a);
    if a.len() > 0 && b.len() > 0 && a[0] == b[0] {
        before_is_an_order(a.skip(1), b.skip(1), seq![]);
        if a.skip(1) == b.skip(1) {
            assert(a =~= seq![a[0]] + a.skip(1));
            assert(b =~= seq![b[0]] + b.skip(1));
        }
        if c.len() > 0 {
            before_is_an_order(a.skip(1), b.skip(1), c.skip(1));
        }
    }
    if a.len() == 0 && b.len() == 0 {
        assert(a =~= b);
    }
}

/// Whether the keys of entries ascend.
pub open spec fn ascending(entries: Seq<(Seq<char>, JsonView)>) -> bool {
    forall|i: int, j: int|
        0 <= i < j < entries.len() ==> before((#[trigger] entries[i]).0, (#[trigger] entries[j]).0)
}

fn comes_before(a: &str, b: &str) -> (r: bool)
    ensures
        r == before(a@, b@),
{
    let x = crate::text::to_chars(a);
    let y = crate::text::to_chars(b);
    let mut i: usize = 0;
    assert(a@.skip(0) =~= a@);
    assert(b@.skip(0) =~= b@);
    loop
        invariant
            i <= x@.len(),
            i <= y@.len(),
            x@ == a@,
            y@ == b@,
            before(a@, b@) == before(a@.skip(i as int), b@.skip(i as int)),
        decreases x@.len() - i,
    {
        if i == y.len() {
            return false;
        }
        if i == x.len() {
            return true;
        }
        if x[i] != y[i] {
            return x[i] < y[i];
        }
        assert(a@.skip(i as int).skip(1) =~= a@.skip(i + 1));
        assert(b@.skip(i as int).skip(1) =~= b@.skip(i + 1));
        i = i + 1;
    }
}

/// What an object has for a key, if its entries ascend.
proof fn object_has(entries: Seq<(Seq<char>, JsonView)>, i: int)
    requires
        0 <= i < entries.len(),
        ascending(entries),
    ensures
        object_of(entries).contains_key(entries[i].0),
        object_of(entries)[entries[i].0] == entries[i].1,
    decreases entries.len(),
{
    if i < entries.len() - 1 {
        let init = entries.drop_last();
        assert(init[i] == entries[i]);
        assert forall|j: int, k: int| 0 <= j < k < init.len() implies before((#[trigger] init[j]).0, (#[trigger] init[k]).0) by {
            assert(init[j] == entries[j] && init[k] == entries[k]);
        }
        object_has(init, i);
        before_is_an_order(entries[i].0, entries.last().0, seq![]);
    }
}

/// A key of an object stands among its entries.
proof fn object_key_stands(entries: Seq<(Seq<char>, JsonView)>, key: Seq<char>)
    ensures
        object_of(entries).contains_key(key) <==> exists|i: int| 0 <= i < entries.len() && (#[trigger] entries[i]).0 == key,
    decreases entries.len(),
{
    if entries.len() > 0 {
        let init = entries.drop_last();
        object_key_stands(init, key);
        if object_of(entries).contains_key(key) {
            if key == entries.last().0 {
                assert(entries[entries.len() - 1].0 == key);
            } else {
                let i = choose|i: int| 0 <= i < init.len() && (#[trigger] init[i]).0 == key;
                assert(entries[i].0 == key);
            }
        }
        if exists|i: int| 0 <= i < entries.len() && (#[trigger] entries[i]).0 == key {
            let i = choose|i: int| 0 <= i < entries.len() && (#[trigger] entries[i]).0 == key;
            if i < init.len() {
                assert(init[i].0 == key);
            }
        }
    }
}

/// Two ascending lists of entries that hold the same entries, but for one key
/// that the second sets, make up objects that differ in that key alone.
proof fn setting_a_key(
    old_entries: Seq<(Seq<char>, JsonView)>,
    new_entries: Seq<(Seq<char>, JsonView)>,
    key: Seq<char>,
    value: JsonView,
)
    requires
        ascending(old_entries),
        ascending(new_entries),
        exists|i: int| 0 <= i < new_entries.len() && #[trigger] new_entries[i] == (key, value),
        forall|i: int|
            0 <= i < old_entries.len() && (#[trigger] old_entries[i]).0 != key ==> exists|j: int|
                0 <= j < new_entries.len() && #[trigger] new_entries[j] == old_entries[i],
        forall|j: int|
            0 <= j < new_entries.len() && (#[trigger] new_entries[j]).0 != key ==> exists|i: int|
                0 <= i < old_entries.len() && #[trigger] old_entries[i] == new_entries[j],
    ensures
        object_of(new_entries) == object_of(old_entries).insert(key, value),
{
    let a = object_of(new_entries);
    let b = object_of(old_entries).insert(key, value);
    let p = choose|i: int| 0 <= i < new_entries.len() && #[trigger] new_entries[i] == (key, value);
    object_has(new_entries, p);
    assert forall|k: Seq<char>| #[trigger] a.contains_key(k) == b.contains_key(k) && (a.contains_key(k) ==> a[k] == b[k]) by {
        object_key_stands(new_entries, k);
        object_key_stands(old_entries, k);
        if k != key {
            if a.contains_key(k) {
                let j = choose|j: int| 0 <= j < new_entries.len() && (#[trigger] new_entries[j]).0 == k;
                let i = choose|i: int| 0 <= i < old_entries.len() && #[trigger] old_entries[i] == new_entries[j];
                object_has(new_entries, j);
                object_has(old_entries, i);
            }
            if b.contains_key(k) {
                let i = choose|i: int| 0 <= i < old_entries.len() && (#[trigger] old_entries[i]).0 == k;
                let j = choose|j: int| 0 <= j < new_entries.len() && #[trigger] new_entries[j] == old_entries[i];
                assert(new_entries[j].0 == k);
            }
        }
    }
    assert(a =~= b);
}

/// Replacing the value of a key sets that key.
proof fn updating_sets(given: Seq<(Seq<char>, JsonView)>, i: int, name: Seq<char>, v: JsonView)
    requires
        ascending(given),
        0 <= i < given.len(),
        given[i].0 == name,
    ensures
        ascending(given.update(i, (name, v))),
        object_of(given.update(i, (name, v))) == object_of(given).insert(name, v),
{
    let done = given.update(i, (name, v));
    assert forall|j: int, k: int| 0 <= j < k < done.len() implies before((#[trigger] done[j]).0, (#[trigger] done[k]).0) by {
        assert(before(given[j].0, given[k].0));
    }
    assert(done[i] == (name, v));
    assert forall|k: int| 0 <= k < given.len() && (#[trigger] given[k]).0 != name implies exists|j: int|
        0 <= j < done.len() && #[trigger] done[j] == given[k] by {
        assert(done[k] == given[k]);
    }
    assert forall|j: int| 0 <= j < done.len() && (#[trigger] done[j]).0 != name implies exists|k: int|
        0 <= k < given.len() && #[trigger] given[k] == done[j] by {
        assert(given[j] == done[j]);
    }
    setting_a_key(given, done, name, v);
}

/// Entries stay in ascending order with a new key in its place.
#[verifier::spinoff_prover]
#[verifier::rlimit(50)]
proof fn inserting_ascends(given: Seq<(Seq<char>, JsonView)>, i: int, name: Seq<char>, v: JsonView)
    requires
        ascending(given),
        0 <= i <= given.len(),
        forall|k: int| 0 <= k < i ==> before((#[trigger] given[k]).0, name),
        i < given.len() ==> before(name, given[i].0),
    ensures
        ascending(given.insert(i, (name, v))),
{
    let done = given.insert(i, (name, v));
    assert forall|j: int, k: int| 0 <= j < k < done.len() implies before((#[trigger] done[j]).0, (#[trigger] done[k]).0) by {
        let j0 = if j < i {
            j
        } else {
            j - 1
        };
        let k0 = if k < i {
            k
        } else {
            k - 1
        };
        if j == i {
            if k0 > i {
                assert(before(given[i].0, given[k0].0));
                before_is_an_order(name, given[i].0, given[k0].0);
            }
        } else if k == i {
            assert(before(given[j0].0, name));
        } else {
            assert(before(given[j0].0, given[k0].0));
        }
    }
}

/// Inserting a new key in its place sets that key.
#[verifier::spinoff_prover]
#[verifier::rlimit(50)]
proof fn inserting_sets(given: Seq<(Seq<char>, JsonView)>, i: int, name: Seq<char>, v: JsonView)
    requires
        ascending(given),
        0 <= i <= given.len(),
        forall|k: int| 0 <= k < i ==> before((#[trigger] given[k]).0, name),
        i < given.len() ==> before(name, given[i].0),
    ensures
        ascending(given.insert(i, (name, v))),
        object_of(given.insert(i, (name, v))) == object_of(given).insert(name, v),
{
    let done = given.insert(i, (name, v));
    inserting_ascends(given, i, name, v);
    assert(done[i] == (name, v));
    assert forall|k: int| 0 <= k < given.len() && (#[trigger] given[k]).0 != name implies exists|j: int|
        0 <= j < done.len() && #[trigger] done[j] == given[k] by {
        if k < i {
            assert(done[k] == given[k]);
        } else {
            assert(done[k + 1] == given[k]);
        }
    }
    assert forall|j: int| 0 <= j < done.len() && (#[trigger] done[j]).0 != name implies exists|k: int|
        0 <= k < given.len() && #[trigger] given[k] == done[j] by {
        if j < i {
            assert(given[j] == done[j]);
        } else {
            assert(given[j - 1] == done[j]);
        }
    }
    setting_a_key(given, done, name, v);
}

fn put_ascending(entries: &mut Vec<(String, Json)>, key: String, value: Json)
    requires
        ascending(entry_models(old(entries)@)),
        forall|k: int| 0 <= k < old(entries)@.len() ==> (#[trigger] old(entries)@[k]).1.sorted(),
        value.sorted(),
    ensures
        ascending(entry_models(final(entries)@)),
        forall|k: int| 0 <= k < final(entries)@.len() ==> (#[trigger] final(entries)@[k]).1.sorted(),
        object_of(entry_models(final(entries)@)) == object_of(entry_models(old(entries)@)).insert(key@, value@),
{
    let ghost given = entry_models(entries@);
    let mut i: usize = 0;
    while i < entries.len() && comes_before(entries[i].0.as_str(), key.as_str())
        invariant
            i <= entries@.len(),
            given == entry_models(entries@),
            forall|k: int| 0 <= k < entries@.len() ==> (#[trigger] entries@[k]).1.sorted(),
            forall|k: int| 0 <= k < i ==> before((#[trigger] given[k]).0, key@),
        decreases entries@.len() - i,
    {
        assert(given[i as int].0 == entries@[i as int].0@);
        i = i + 1;
    }
    let ghost v = value@;
    let ghost name = key@;
    assert(i < entries@.len() ==> given[i as int].0 == entries@[i as int].0@);
    if i < entries.len() && crate::text::same(entries[i].0.as_str(), key.as_str()) {
        entries[i].1 = value;
        assert(entry_models(entries@) =~= given.update(i as int, (name, v)));
        proof {
            updating_sets(given, i as int, name, v);
        }
    } else {
        proof {
            if i < entries@.len() {
                before_is_an_order(given[i as int].0, name, seq![]);
            }
            inserting_sets(given, i as int, name, v);
        }
        entries.insert(i, (key, value));
        assert(entry_models(entries@) =~= given.insert(i as int, (name, v)));
    }
}

impl Json {
    /// Whether the keys of every object in it ascend.
    pub open spec fn sorted(self) -> bool
        decreases self,
    {
        match self {
            Json::Array(v) => forall|i: int| 0 <= i < v@.len() ==> (#[trigger] v@[i]).sorted(),
            Json::Object(m) => ascending(entry_models(m@)) && forall|i: int|
                0 <= i < m@.len() ==> (#[trigger] m@[i]).1.sorted(),
            _ => true,
        }
    }
}

/// The same value with the keys of every object in ascending order.
pub fn sort_value(v: &Json) -> (r: Json)
    ensures
        r@ == v@,
        r.sorted(),
    decreases v,
{
    proof {
        v.unfold();
    }
    match v {
        Json::Null => Json::Null,
        Json::Bool(b) => Json::Bool(*b),
        Json::Number(n) => Json::Number(n.clone()),
        Json::Str(s) => Json::Str(s.clone()),
        Json::Array(items) => {
            let mut out: Vec<Json> = Vec::new();
            let mut i: usize = 0;
            while i < items.len()
                invariant
                    i <= items@.len(),
                    out@.len() == i,
                    forall|k: int| 0 <= k < i ==> (#[trigger] out@[k])@ == items@[k]@ && out@[k].sorted(),
                    decreases_to!(v => items@),
                decreases items@.len() - i,
            {
                let x = sort_value(&items[i]);
                out.push(x);
                i = i + 1;
            }
            assert(models(out@) =~= models(items@));
            let r = Json::Array(out);
            proof {
                r.unfold();
            }
            r
        },
        Json::Object(m) => {
            let mut out: Vec<(String, Json)> = Vec::new();
            let ghost all = entry_models(m@);
            let mut i: usize = 0;
            assert(entry_models(out@) =~= all.take(0));
            while i < m.len()
                invariant
                    i <= m@.len(),
                    all == entry_models(m@),
                    ascending(entry_models(out@)),
                    object_of(entry_models(out@)) == object_of(all.take(i as int)),
                    forall|k: int| 0 <= k < out@.len() ==> (#[trigger] out@[k]).1.sorted(),
                    decreases_to!(v => m@),
                decreases m@.len() - i,
            {
                let x = sort_value(&m[i].1);
                assert(all.take(i + 1).drop_last() =~= all.take(i as int));
                assert(all.take(i + 1).last() == (m@[i as int].0@, x@));
                put_ascending(&mut out, m[i].0.clone(), x);
                i = i + 1;
            }
            assert(all.take(i as int) =~= all);
            let r = Json::Object(out);
            proof {
                r.unfold();
            }
            r
        },
    }
}

} // verus!
