//! YAML documents as trees of plain values.

use vstd::prelude::*;
use vstd::string::*;
use crate::text::same;

verus! {

/// A parsed YAML value of `serde_yaml`.
#[verifier::external_type_specification]
#[verifier::external_body]
pub struct ExValue(serde_yaml::Value);

/// A YAML number of `serde_yaml`.
#[verifier::external_type_specification]
#[verifier::external_body]
pub struct ExNumber(serde_yaml::Number);

/// A YAML tag of `serde_yaml`.
#[verifier::external_type_specification]
#[verifier::external_body]
pub struct ExTag(serde_yaml::value::Tag);

/// A key of a mapping: a string, or any other value, kept as it is.
#[derive(Debug)]
pub enum Key {
    Str(String),
    Other(serde_yaml::Value),
}

/// A YAML document.
#[derive(Debug)]
pub enum Yaml {
    Null,
    Bool(bool),
    Number(serde_yaml::Number),
    Str(String),
    Sequence(Vec<Yaml>),
    Mapping(Vec<(Key, Yaml)>),
    Tagged(serde_yaml::value::Tag, Box<Yaml>),
}

/// A key as a mathematical value.
pub enum KeyView {
    Str(Seq<char>),
    Other(serde_yaml::Value),
}

/// A document as a mathematical value.
pub enum YamlView {
    Null,
    Bool(bool),
    Number(serde_yaml::Number),
    Str(Seq<char>),
    Sequence(Seq<YamlView>),
    Mapping(Seq<(KeyView, YamlView)>),
    Tagged(serde_yaml::value::Tag, Box<YamlView>),
}

impl View for Key {
    type V = KeyView;

    open spec fn view(&self) -> KeyView {
        match self {
            Key::Str(s) => KeyView::Str(s@),
            Key::Other(v) => KeyView::Other(*v),
        }
    }
}

impl Yaml {
    /// The document as a mathematical value.
    pub open spec fn model(self) -> YamlView
        decreases self,
    {
        match self {
            Yaml::Null => YamlView::Null,
            Yaml::Bool(b) => YamlView::Bool(b),
            Yaml::Number(n) => YamlView::Number(n),
            Yaml::Str(s) => YamlView::Str(s@),
            Yaml::Sequence(v) => YamlView::Sequence(
                Seq::new(
                    v@.len(),
                    |i: int|
                        if 0 <= i < v@.len() {
                            v@[i].model()
                        } else {
                            YamlView::Null
                        },
                ),
            ),
            Yaml::Mapping(m) => YamlView::Mapping(
                Seq::new(
                    m@.len(),
                    |i: int|
                        if 0 <= i < m@.len() {
                            (m@[i].0@, m@[i].1.model())
                        } else {
                            (KeyView::Str(seq![]), YamlView::Null)
                        },
                ),
            ),
            Yaml::Tagged(t, y) => YamlView::Tagged(t, Box::new((*y).model())),
        }
    }
}

impl View for Yaml {
    type V = YamlView;

    open spec fn view(&self) -> YamlView {
        self.model()
    }
}

/// What the documents of a list hold.
pub open spec fn models(v: Seq<Yaml>) -> Seq<YamlView> {
    v.map_values(|y: Yaml| y@)
}

/// What the pairs of a mapping hold.
pub open spec fn pair_models(v: Seq<(Key, Yaml)>) -> Seq<(KeyView, YamlView)> {
    v.map_values(|p: (Key, Yaml)| (p.0@, p.1@))
}

impl YamlView {
    /// Where a string key stands among the pairs of a mapping.
    pub open spec fn index_of(pairs: Seq<(KeyView, YamlView)>, key: Seq<char>) -> Option<int>
        decreases pairs.len(),
    {
        if pairs.len() == 0 {
            None
        } else if pairs[0].0 == KeyView::Str(key) {
            Some(0)
        } else {
            match YamlView::index_of(pairs.skip(1), key) {
                Some(i) => Some(i + 1),
                None => None,
            }
        }
    }

    /// The value under its tags.
    pub open spec fn untagged(self) -> YamlView
        decreases self,
    {
        match self {
            YamlView::Tagged(_, y) => y.untagged(),
            _ => self,
        }
    }

    /// The value of a string key, if this is a mapping that has it.
    pub open spec fn get(self, key: Seq<char>) -> Option<YamlView> {
        match self.untagged() {
            YamlView::Mapping(pairs) => match YamlView::index_of(pairs, key) {
                Some(i) => Some(pairs[i].1),
                None => None,
            },
            _ => None,
        }
    }

    /// The text, if this is a string.
    pub open spec fn text(self) -> Option<Seq<char>> {
        match self.untagged() {
            YamlView::Str(s) => Some(s),
            _ => None,
        }
    }

    /// The items, if this is a sequence.
    pub open spec fn items(self) -> Option<Seq<YamlView>> {
        match self.untagged() {
            YamlView::Sequence(s) => Some(s),
            _ => None,
        }
    }

    /// Whether this is a mapping.
    pub open spec fn is_mapping(self) -> bool {
        self.untagged() is Mapping
    }

    /// This mapping with a key set: in its place if it is there, else at the
    /// end. Anything but a mapping stays as it is.
    pub open spec fn put(self, key: Seq<char>, value: YamlView) -> YamlView
        decreases self,
    {
        match self {
            YamlView::Tagged(t, y) => YamlView::Tagged(t, Box::new(y.put(key, value))),
            YamlView::Mapping(pairs) => match YamlView::index_of(pairs, key) {
                Some(i) => YamlView::Mapping(pairs.update(i, (pairs[i].0, value))),
                None => YamlView::Mapping(pairs.push((KeyView::Str(key), value))),
            },
            _ => self,
        }
    }

    /// This sequence with other items. Anything but a sequence stays as it is.
    pub open spec fn with_items(self, items: Seq<YamlView>) -> YamlView
        decreases self,
    {
        match self {
            YamlView::Tagged(t, y) => YamlView::Tagged(t, Box::new(y.with_items(items))),
            YamlView::Sequence(_) => YamlView::Sequence(items),
            _ => self,
        }
    }
}

/// The place of a key is one where it stands.
pub proof fn index_of_found(pairs: Seq<(KeyView, YamlView)>, key: Seq<char>)
    ensures
        match YamlView::index_of(pairs, key) {
            Some(i) => 0 <= i < pairs.len() && pairs[i].0 == KeyView::Str(key) && forall|j: int|
                0 <= j < i ==> (#[trigger] pairs[j]).0 != KeyView::Str(key),
            None => forall|j: int| 0 <= j < pairs.len() ==> (#[trigger] pairs[j]).0 != KeyView::Str(key),
        },
    decreases pairs.len(),
{
    if pairs.len() > 0 && pairs[0].0 != KeyView::Str(key) {
        let rest = pairs.skip(1);
        index_of_found(rest, key);
        assert forall|j: int| 0 < j < pairs.len() implies rest[j - 1] == #[trigger] pairs[j] by {}
    }
}

/// A place where a key stands first is the place of the key.
proof fn index_of_is(pairs: Seq<(KeyView, YamlView)>, key: Seq<char>, i: int)
    requires
        0 <= i <= pairs.len(),
        i < pairs.len() ==> pairs[i].0 == KeyView::Str(key),
        forall|j: int| 0 <= j < i ==> (#[trigger] pairs[j]).0 != KeyView::Str(key),
    ensures
        YamlView::index_of(pairs, key) == if i < pairs.len() {
            Some(i)
        } else {
            None
        },
{
    index_of_found(pairs, key);
}

fn find_key(pairs: &Vec<(Key, Yaml)>, key: &str) -> (r: Option<usize>)
    ensures
        YamlView::index_of(pair_models(pairs@), key@) == (match r {
            Some(i) => Some(i as int),
            None => None,
        }),
        r matches Some(i) ==> i < pairs@.len(),
{
    let ghost models = pair_models(pairs@);
    let mut i: usize = 0;
    while i < pairs.len()
        invariant
            i <= pairs@.len(),
            models == pair_models(pairs@),
            forall|j: int| 0 <= j < i ==> (#[trigger] models[j]).0 != KeyView::Str(key@),
        decreases pairs@.len() - i,
    {
        match &pairs[i].0 {
            Key::Str(s) => {
                if same(s.as_str(), key) {
                    proof {
                        assert(models[i as int].0 == KeyView::Str(key@));
                        index_of_is(models, key@, i as int);
                    }
                    return Some(i);
                }
            },
            Key::Other(_) => {},
        }
        assert(models[i as int].0 == pairs@[i as int].0@);
        i = i + 1;
    }
    proof {
        index_of_is(models, key@, i as int);
    }
    None
}

/// How a sequence reads as a mathematical value.
proof fn sequence_model(v: Vec<Yaml>)
    ensures
        Yaml::Sequence(v)@ == YamlView::Sequence(models(v@)),
{
    assert(Yaml::Sequence(v)@->Sequence_0 =~= models(v@));
}

/// How a mapping reads as a mathematical value.
proof fn mapping_model(v: Vec<(Key, Yaml)>)
    ensures
        Yaml::Mapping(v)@ == YamlView::Mapping(pair_models(v@)),
{
    assert(Yaml::Mapping(v)@->Mapping_0 =~= pair_models(v@));
}

impl Yaml {
    /// A mapping or sequence reads as its contents.
    pub proof fn unfold(self)
        ensures
            match self {
                Yaml::Sequence(v) => self@ == YamlView::Sequence(models(v@)),
                Yaml::Mapping(m) => self@ == YamlView::Mapping(pair_models(m@)),
                _ => true,
            },
    {
        match self {
            Yaml::Sequence(v) => sequence_model(v),
            Yaml::Mapping(m) => mapping_model(m),
            _ => {},
        }
    }

    /// The value of a string key, if this is a mapping that has it.
    pub fn get(&self, key: &str) -> (r: Option<&Yaml>)
        ensures
            self@.get(key@) == (match r {
                Some(y) => Some(y@),
                None => None,
            }),
        decreases self,
    {
        proof {
            self.unfold();
        }
        match self {
            Yaml::Tagged(_, y) => y.get(key),
            Yaml::Mapping(pairs) => match find_key(pairs, key) {
                Some(i) => Some(&pairs[i].1),
                None => None,
            },
            _ => None,
        }
    }

    /// The text, if this is a string.
    pub fn as_str(&self) -> (r: Option<&String>)
        ensures
            self@.text() == (match r {
                Some(s) => Some(s@),
                None => None,
            }),
        decreases self,
    {
        match self {
            Yaml::Tagged(_, y) => y.as_str(),
            Yaml::Str(s) => Some(s),
            _ => None,
        }
    }

    /// The truth value, if this is one.
    pub fn as_bool(&self) -> (r: Option<bool>)
        ensures
            r == (match self@.untagged() {
                YamlView::Bool(b) => Some(b),
                _ => None,
            }),
        decreases self,
    {
        match self {
            Yaml::Tagged(_, y) => y.as_bool(),
            Yaml::Bool(b) => Some(*b),
            _ => None,
        }
    }

    /// The items, if this is a sequence.
    pub fn as_sequence(&self) -> (r: Option<&Vec<Yaml>>)
        ensures
            self@.items() == (match r {
                Some(v) => Some(models(v@)),
                None => None,
            }),
        decreases self,
    {
        proof {
            self.unfold();
        }
        match self {
            Yaml::Tagged(_, y) => y.as_sequence(),
            Yaml::Sequence(v) => Some(v),
            _ => None,
        }
    }

    /// Tests for a mapping.
    pub fn mapping(&self) -> (r: bool)
        ensures
            r == self@.is_mapping(),
        decreases self,
    {
        match self {
            Yaml::Tagged(_, y) => y.mapping(),
            Yaml::Mapping(_) => true,
            _ => false,
        }
    }

    /// Sets a key of a mapping.
    pub fn put(&mut self, key: &str, value: Yaml)
        ensures
            final(self)@ == old(self)@.put(key@, value@),
        decreases old(self)@,
    {
        proof {
            self.unfold();
        }
        match self {
            Yaml::Tagged(_, y) => {
                y.put(key, value);
            },
            Yaml::Mapping(pairs) => {
                let ghost before = pair_models(pairs@);
                match find_key(pairs, key) {
                    Some(i) => {
                        pairs[i].1 = value;
                        assert(pair_models(pairs@) =~= before.update(i as int, (before[i as int].0, value@)));
                        proof {
                            mapping_model(*pairs);
                        }
                    },
                    None => {
                        pairs.push((Key::Str(key.to_owned()), value));
                        assert(pair_models(pairs@) =~= before.push((KeyView::Str(key@), value@)));
                        proof {
                            mapping_model(*pairs);
                        }
                    },
                }
            },
            _ => {},
        }
    }

    /// Sets the items of a sequence.
    pub fn set_items(&mut self, items: Vec<Yaml>)
        ensures
            final(self)@ == old(self)@.with_items(models(items@)),
        decreases old(self)@,
    {
        proof {
            self.unfold();
            sequence_model(items);
        }
        match self {
            Yaml::Tagged(_, y) => {
                y.set_items(items);
            },
            Yaml::Sequence(v) => {
                *v = items;
            },
            _ => {},
        }
    }
}

// ── Well-formed documents ───────────────────────────────────────────────────

/// What `serde_yaml::Value`'s `==` says of two values.
pub uninterp spec fn yaml_same(a: serde_yaml::Value, b: serde_yaml::Value) -> bool;

/// Whether two keys are different keys of a mapping.
pub open spec fn apart(a: KeyView, b: KeyView) -> bool {
    match (a, b) {
        (KeyView::Str(x), KeyView::Str(y)) => x != y,
        (KeyView::Other(x), KeyView::Other(y)) => !yaml_same(x, y),
        _ => true,
    }
}

/// Whether a key that is kept as it is holds no string.
pub open spec fn key_wf(k: KeyView) -> bool {
    k matches KeyView::Other(v) ==> !(yaml_of(v) is Str)
}

/// Whether no key occurs twice.
pub open spec fn unique_keys(pairs: Seq<(KeyView, YamlView)>) -> bool {
    &&& forall|i: int, j: int|
        0 <= i < j < pairs.len() ==> apart((#[trigger] pairs[i]).0, (#[trigger] pairs[j]).0)
    &&& forall|i: int| 0 <= i < pairs.len() ==> key_wf((#[trigger] pairs[i]).0)
}

impl YamlView {
    /// Whether no mapping anywhere in the document has a key twice.
    pub open spec fn wf(self) -> bool
        decreases self,
    {
        match self {
            YamlView::Sequence(s) => forall|i: int| 0 <= i < s.len() ==> (#[trigger] s[i]).wf(),
            YamlView::Mapping(p) => unique_keys(p) && forall|i: int|
                0 <= i < p.len() ==> (#[trigger] p[i]).1.wf(),
            YamlView::Tagged(_, y) => y.wf(),
            _ => true,
        }
    }

    /// What stands under the tags of a well-formed value is well-formed.
    pub proof fn untagged_wf(self)
        requires
            self.wf(),
        ensures
            self.untagged().wf(),
        decreases self,
    {
        match self {
            YamlView::Tagged(_, y) => y.untagged_wf(),
            _ => {},
        }
    }

    /// Setting a key keeps a document well-formed.
    pub proof fn put_wf(self, key: Seq<char>, value: YamlView)
        requires
            self.wf(),
            value.wf(),
        ensures
            self.put(key, value).wf(),
        decreases self,
    {
        match self {
            YamlView::Tagged(_, y) => y.put_wf(key, value),
            YamlView::Mapping(pairs) => {
                index_of_found(pairs, key);
                let after = self.put(key, value)->Mapping_0;
                assert forall|i: int, j: int| 0 <= i < j < after.len() implies apart(
                    (#[trigger] after[i]).0,
                    (#[trigger] after[j]).0,
                ) by {
                    if j < pairs.len() {
                        assert(apart(pairs[i].0, pairs[j].0));
                    } else {
                        assert(pairs[i].0 != KeyView::Str(key));
                    }
                }
                assert forall|i: int| 0 <= i < after.len() implies key_wf((#[trigger] after[i]).0) && after[i].1.wf() by {
                    if i < pairs.len() {
                        assert(key_wf(pairs[i].0));
                        assert(pairs[i].1.wf());
                    }
                }
            },
            _ => {},
        }
    }

    /// Other well-formed items keep a document well-formed.
    pub proof fn with_items_wf(self, items: Seq<YamlView>)
        requires
            self.wf(),
            forall|i: int| 0 <= i < items.len() ==> (#[trigger] items[i]).wf(),
        ensures
            self.with_items(items).wf(),
        decreases self,
    {
        match self {
            YamlView::Tagged(_, y) => y.with_items_wf(items),
            _ => {},
        }
    }

    /// The value of a key is well-formed.
    pub proof fn get_wf(self, key: Seq<char>)
        requires
            self.wf(),
        ensures
            self.get(key) matches Some(v) ==> v.wf(),
    {
        self.untagged_wf();
        match self.untagged() {
            YamlView::Mapping(pairs) => {
                index_of_found(pairs, key);
            },
            _ => {},
        }
    }

    /// The items of a sequence are well-formed.
    pub proof fn items_wf(self)
        requires
            self.wf(),
        ensures
            self.items() matches Some(s) ==> forall|i: int| 0 <= i < s.len() ==> (#[trigger] s[i]).wf(),
    {
        self.untagged_wf();
    }

    // ── What setting a key does ─────────────────────────────────────────────

    /// Setting a key changes the value under the tags alone.
    proof fn put_untagged(self, key: Seq<char>, value: YamlView)
        ensures
            self.put(key, value).untagged() == self.untagged().put(key, value),
        decreases self,
    {
        match self {
            YamlView::Tagged(_, y) => y.put_untagged(key, value),
            _ => {},
        }
    }

    /// A mapping gives back what was set, and keeps the values of other keys.
    pub proof fn get_put(self, key: Seq<char>, value: YamlView, other: Seq<char>)
        ensures
            self.is_mapping() ==> self.put(key, value).get(key) == Some(value),
            other != key ==> self.put(key, value).get(other) == self.get(other),
            self.put(key, value).is_mapping() == self.is_mapping(),
    {
        self.put_untagged(key, value);
        match self.untagged() {
            YamlView::Mapping(pairs) => {
                let after = self.untagged().put(key, value)->Mapping_0;
                index_of_found(pairs, key);
                index_of_found(after, key);
                index_of_found(pairs, other);
                index_of_found(after, other);
                match YamlView::index_of(pairs, key) {
                    Some(i) => {
                        index_of_is(after, key, i);
                        if other != key {
                            match YamlView::index_of(pairs, other) {
                                Some(j) => index_of_is(after, other, j),
                                None => index_of_is(after, other, after.len() as int),
                            }
                        }
                    },
                    None => {
                        index_of_is(after, key, pairs.len() as int);
                        if other != key {
                            match YamlView::index_of(pairs, other) {
                                Some(j) => index_of_is(after, other, j),
                                None => index_of_is(after, other, after.len() as int),
                            }
                        }
                    },
                }
            },
            _ => {
                self.untagged_plain();
            },
        }
    }

    proof fn untagged_plain(self)
        ensures
            !(self.untagged() is Tagged),
        decreases self,
    {
        match self {
            YamlView::Tagged(_, y) => y.untagged_plain(),
            _ => {},
        }
    }

    /// A sequence has the items that were set.
    pub proof fn items_set(self, items: Seq<YamlView>)
        ensures
            self.items() is Some ==> self.with_items(items).items() == Some(items),
        decreases self,
    {
        match self {
            YamlView::Tagged(_, y) => y.items_set(items),
            _ => {},
        }
    }
}

// ── Reading and writing ─────────────────────────────────────────────────────

/// What a `serde_yaml::Value` holds.
pub uninterp spec fn yaml_of(v: serde_yaml::Value) -> YamlView;

/// What `serde_yaml::from_slice` makes of a text: a document or a message.
pub uninterp spec fn yaml_parsed(raw: Seq<u8>) -> Result<YamlView, Seq<char>>;

/// What `serde_yaml::to_string` writes for a document: a text or a message.
pub uninterp spec fn yaml_printed(doc: YamlView) -> Result<Seq<char>, Seq<char>>;

/// What `serde_yaml::Number::from` makes of an unsigned integer.
pub uninterp spec fn yaml_number(n: u64) -> serde_yaml::Number;

/// One level of a `serde_yaml::Value`.
pub enum Node {
    Null,
    Bool(bool),
    Number(serde_yaml::Number),
    Str(String),
    Sequence(Vec<serde_yaml::Value>),
    Mapping(Vec<(serde_yaml::Value, serde_yaml::Value)>),
    Tagged(serde_yaml::value::Tag, serde_yaml::Value),
}

/// What a value holds as a key.
pub open spec fn key_of(v: serde_yaml::Value) -> KeyView {
    match yaml_of(v) {
        YamlView::Str(s) => KeyView::Str(s),
        _ => KeyView::Other(v),
    }
}

/// What the values of a list hold.
pub open spec fn values_of(v: Seq<serde_yaml::Value>) -> Seq<YamlView> {
    v.map_values(|x: serde_yaml::Value| yaml_of(x))
}

/// What the entries of a mapping hold.
pub open spec fn entries_of(v: Seq<(serde_yaml::Value, serde_yaml::Value)>) -> Seq<(KeyView, YamlView)> {
    v.map_values(|p: (serde_yaml::Value, serde_yaml::Value)| (key_of(p.0), yaml_of(p.1)))
}

/// What one level holds.
pub open spec fn node_of(node: Node) -> YamlView {
    match node {
        Node::Null => YamlView::Null,
        Node::Bool(b) => YamlView::Bool(b),
        Node::Number(n) => YamlView::Number(n),
        Node::Str(s) => YamlView::Str(s@),
        Node::Sequence(v) => YamlView::Sequence(values_of(v@)),
        Node::Mapping(m) => YamlView::Mapping(entries_of(m@)),
        Node::Tagged(t, v) => YamlView::Tagged(t, Box::new(yaml_of(v))),
    }
}

/// `serde_yaml::from_slice` reads a document from bytes. What it makes of them
/// depends on them alone and is named `yaml_parsed`; an error is its message.
#[verifier::external_body]
fn read_value(raw: &[u8]) -> (r: Result<serde_yaml::Value, String>)
    ensures
        yaml_parsed(raw@) == (match r {
            Ok(v) => Ok::<YamlView, Seq<char>>(yaml_of(v)),
            Err(e) => Err(e@),
        }),
{
    serde_yaml::from_slice(raw).map_err(|e| e.to_string())
}

/// `serde_yaml::to_string` writes a document. What it writes depends on what
/// the document holds alone and is named `yaml_printed`; an error is its
/// message.
#[verifier::external_body]
fn write_value(v: &serde_yaml::Value) -> (r: Result<String, String>)
    ensures
        yaml_printed(yaml_of(*v)) == (match r {
            Ok(s) => Ok::<Seq<char>, Seq<char>>(s@),
            Err(e) => Err(e@),
        }),
{
    serde_yaml::to_string(v).map_err(|e| e.to_string())
}

/// Takes one level off a `serde_yaml::Value`, variant by variant. The entries
/// of a `serde_yaml::Mapping` come in its order, and no key of it equals
/// another.
#[verifier::external_body]
fn open_value(v: serde_yaml::Value) -> (r: Node)
    ensures
        node_of(r) == yaml_of(v),
        r matches Node::Mapping(m) ==> forall|i: int, j: int|
            0 <= i < j < m@.len() ==> !yaml_same((#[trigger] m@[i]).0, (#[trigger] m@[j]).0),
        r matches Node::Mapping(m) ==> unique_keys(entries_of(m@)),
{
    match v {
        serde_yaml::Value::Null => Node::Null,
        serde_yaml::Value::Bool(b) => Node::Bool(b),
        serde_yaml::Value::Number(n) => Node::Number(n),
        serde_yaml::Value::String(s) => Node::Str(s),
        serde_yaml::Value::Sequence(s) => Node::Sequence(s),
        serde_yaml::Value::Mapping(m) => Node::Mapping(m.into_iter().collect()),
        serde_yaml::Value::Tagged(t) => Node::Tagged(t.tag, t.value),
    }
}

/// Builds a `serde_yaml::Value` of one level, variant by variant. A
/// `serde_yaml::Mapping` collected from entries with different keys holds them
/// in their order.
#[verifier::external_body]
fn close_value(node: Node) -> (r: serde_yaml::Value)
    requires
        node matches Node::Mapping(m) ==> unique_keys(entries_of(m@)),
    ensures
        yaml_of(r) == node_of(node),
{
    match node {
        Node::Null => serde_yaml::Value::Null,
        Node::Bool(b) => serde_yaml::Value::Bool(b),
        Node::Number(n) => serde_yaml::Value::Number(n),
        Node::Str(s) => serde_yaml::Value::String(s),
        Node::Sequence(s) => serde_yaml::Value::Sequence(s),
        Node::Mapping(m) => serde_yaml::Value::Mapping(m.into_iter().collect()),
        Node::Tagged(tag, value) => serde_yaml::Value::Tagged(
            Box::new(serde_yaml::value::TaggedValue { tag, value }),
        ),
    }
}

/// The string of a `serde_yaml::Value::String`. A value of any other variant,
/// a tagged string among them, has none.
#[verifier::external_body]
fn plain_text(v: &serde_yaml::Value) -> (r: Option<String>)
    ensures
        r == None::<String> <==> !(yaml_of(*v) is Str),
        r matches Some(s) ==> yaml_of(*v) == YamlView::Str(s@),
{
    match v {
        serde_yaml::Value::String(s) => Some(s.clone()),
        _ => None,
    }
}

/// `serde_yaml::Number::from` turns an unsigned integer into a YAML number,
/// named `yaml_number`.
#[verifier::external_body]
fn number_from(n: u64) -> (r: serde_yaml::Number)
    ensures
        r == yaml_number(n),
{
    serde_yaml::Number::from(n)
}

/// `serde_yaml::Number`'s `clone` gives the same number.
pub assume_specification[ <serde_yaml::Number as Clone>::clone ](n: &serde_yaml::Number) -> (r: serde_yaml::Number)
    ensures
        r == *n,
;

/// `serde_yaml::value::Tag`'s `clone` gives the same tag.
pub assume_specification[ <serde_yaml::value::Tag as Clone>::clone ](t: &serde_yaml::value::Tag) -> (r: serde_yaml::value::Tag)
    ensures
        r == *t,
;

/// `serde_yaml::Value`'s `clone` gives the same value.
pub assume_specification[ <serde_yaml::Value as Clone>::clone ](v: &serde_yaml::Value) -> (r: serde_yaml::Value)
    ensures
        r == *v,
;

fn from_value(v: serde_yaml::Value) -> (r: Yaml)
    ensures
        r@ == yaml_of(v),
        r@.wf(),
    decreases yaml_of(v),
{
    let ghost whole = yaml_of(v);
    match open_value(v) {
        Node::Null => Yaml::Null,
        Node::Bool(b) => Yaml::Bool(b),
        Node::Number(n) => Yaml::Number(n),
        Node::Str(s) => Yaml::Str(s),
        Node::Sequence(values) => {
            let mut out: Vec<Yaml> = Vec::new();
            let mut i: usize = 0;
            while i < values.len()
                invariant
                    i <= values@.len(),
                    whole == YamlView::Sequence(values_of(values@)),
                    whole == yaml_of(v),
                    models(out@) == values_of(values@).take(i as int),
                    forall|k: int| 0 <= k < i ==> (#[trigger] out@[k])@.wf(),
                decreases values@.len() - i,
            {
                let ghost before = models(out@);
                let x = values[i].clone();
                assert(values_of(values@)[i as int] == yaml_of(x));
                assert(decreases_to!(whole => whole->Sequence_0));
                assert(decreases_to!(whole => whole->Sequence_0[i as int]));
                let y = from_value(x);
                out.push(y);
                i = i + 1;
                assert(models(out@) =~= before.push(y@));
                assert(values_of(values@).take(i as int) =~= values_of(values@).take(i - 1).push(y@));
            }
            assert(values_of(values@).take(i as int) =~= values_of(values@));
            proof {
                sequence_model(out);
                assert forall|k: int| 0 <= k < models(out@).len() implies (#[trigger] models(out@)[k]).wf() by {
                    assert(out@[k]@.wf());
                }
            }
            Yaml::Sequence(out)
        },
        Node::Mapping(values) => {
            let mut out: Vec<(Key, Yaml)> = Vec::new();
            let mut i: usize = 0;
            while i < values.len()
                invariant
                    i <= values@.len(),
                    whole == YamlView::Mapping(entries_of(values@)),
                    whole == yaml_of(v),
                    pair_models(out@) == entries_of(values@).take(i as int),
                    forall|k: int| 0 <= k < i ==> (#[trigger] out@[k]).1@.wf(),
                decreases values@.len() - i,
            {
                let ghost before = pair_models(out@);
                let k = values[i].0.clone();
                let x = values[i].1.clone();
                assert(entries_of(values@)[i as int] == (key_of(k), yaml_of(x)));
                let key = match plain_text(&k) {
                    Some(s) => Key::Str(s),
                    None => Key::Other(k),
                };
                assert(key@ == key_of(k));
                assert(decreases_to!(whole => whole->Mapping_0));
                assert(decreases_to!(whole => whole->Mapping_0[i as int].1));
                let y = from_value(x);
                out.push((key, y));
                i = i + 1;
                assert(pair_models(out@) =~= before.push((key@, y@)));
                assert(entries_of(values@).take(i as int) =~= entries_of(values@).take(i - 1).push((key@, y@)));
            }
            assert(entries_of(values@).take(i as int) =~= entries_of(values@));
            proof {
                mapping_model(out);
                assert forall|k: int| 0 <= k < pair_models(out@).len() implies (#[trigger] pair_models(out@)[k]).1.wf() by {
                    assert(out@[k].1@.wf());
                }
            }
            Yaml::Mapping(out)
        },
        Node::Tagged(t, x) => {
            assert(decreases_to!(whole => *whole->Tagged_1));
            Yaml::Tagged(t, Box::new(from_value(x)))
        },
    }
}

fn to_value(y: &Yaml) -> (r: serde_yaml::Value)
    requires
        y@.wf(),
    ensures
        yaml_of(r) == y@,
    decreases y,
{
    proof {
        y.unfold();
    }
    match y {
        Yaml::Null => close_value(Node::Null),
        Yaml::Bool(b) => close_value(Node::Bool(*b)),
        Yaml::Number(n) => close_value(Node::Number(n.clone())),
        Yaml::Str(s) => close_value(Node::Str(s.clone())),
        Yaml::Sequence(v) => {
            let mut out: Vec<serde_yaml::Value> = Vec::new();
            let mut i: usize = 0;
            assert(y@.wf() && y@->Sequence_0 == models(v@));
            while i < v.len()
                invariant
                    i <= v@.len(),
                    forall|k: int| 0 <= k < v@.len() ==> (#[trigger] models(v@)[k]).wf(),
                    values_of(out@) == models(v@).take(i as int),
                    decreases_to!(y => v@),
                decreases v@.len() - i,
            {
                let ghost before = values_of(out@);
                assert(models(v@)[i as int] == v@[i as int]@);
                let x = to_value(&v[i]);
                out.push(x);
                i = i + 1;
                assert(values_of(out@) =~= before.push(yaml_of(x)));
                assert(models(v@).take(i as int) =~= models(v@).take(i - 1).push(yaml_of(x)));
            }
            assert(models(v@).take(i as int) =~= models(v@));
            close_value(Node::Sequence(out))
        },
        Yaml::Mapping(v) => {
            let mut out: Vec<(serde_yaml::Value, serde_yaml::Value)> = Vec::new();
            let mut i: usize = 0;
            while i < v.len()
                invariant
                    i <= v@.len(),
                    unique_keys(pair_models(v@)),
                    forall|k: int| 0 <= k < v@.len() ==> (#[trigger] pair_models(v@)[k]).1.wf(),
                    entries_of(out@) == pair_models(v@).take(i as int),
                    decreases_to!(y => v@),
                decreases v@.len() - i,
            {
                let ghost before = entries_of(out@);
                let ghost pair = pair_models(v@)[i as int];
                assert(pair == (v@[i as int].0@, v@[i as int].1@));
                assert(key_wf(pair.0));
                let k = match &v[i].0 {
                    Key::Str(s) => close_value(Node::Str(s.clone())),
                    Key::Other(x) => x.clone(),
                };
                assert(key_of(k) == pair.0);
                let x = to_value(&v[i].1);
                out.push((k, x));
                i = i + 1;
                assert(entries_of(out@) =~= before.push(pair));
                assert(pair_models(v@).take(i as int) =~= pair_models(v@).take(i - 1).push(pair));
            }
            assert(pair_models(v@).take(i as int) =~= pair_models(v@));
            close_value(Node::Mapping(out))
        },
        Yaml::Tagged(t, x) => close_value(Node::Tagged(t.clone(), to_value(x))),
    }
}

impl Yaml {
    /// Reads a document.
    pub fn parse(raw: &[u8]) -> (r: Result<Yaml, String>)
        ensures
            match r {
                Ok(y) => yaml_parsed(raw@) == Ok::<YamlView, Seq<char>>(y@) && y@.wf(),
                Err(e) => yaml_parsed(raw@) == Err::<YamlView, Seq<char>>(e@),
            },
    {
        match read_value(raw) {
            Ok(v) => Ok(from_value(v)),
            Err(e) => Err(e),
        }
    }

    /// Writes a document.
    pub fn print(&self) -> (r: Result<String, String>)
        requires
            self@.wf(),
        ensures
            yaml_printed(self@) == (match r {
                Ok(s) => Ok::<Seq<char>, Seq<char>>(s@),
                Err(e) => Err(e@),
            }),
    {
        let v = to_value(self);
        write_value(&v)
    }

    /// An unsigned number.
    pub fn unsigned(n: u64) -> (r: Yaml)
        ensures
            r@ == YamlView::Number(yaml_number(n)),
    {
        Yaml::Number(number_from(n))
    }

    /// A copy.
    pub fn copy(&self) -> (r: Yaml)
        ensures
            r@ == self@,
        decreases self,
    {
        proof {
            self.unfold();
        }
        match self {
            Yaml::Null => Yaml::Null,
            Yaml::Bool(b) => Yaml::Bool(*b),
            Yaml::Number(n) => Yaml::Number(n.clone()),
            Yaml::Str(s) => Yaml::Str(s.clone()),
            Yaml::Sequence(v) => {
                let mut out: Vec<Yaml> = Vec::new();
                let mut i: usize = 0;
                while i < v.len()
                    invariant
                        i <= v@.len(),
                        out@.len() == i,
                        forall|k: int| 0 <= k < i ==> (#[trigger] out@[k])@ == v@[k]@,
                        decreases_to!(self => v@),
                    decreases v@.len() - i,
                {
                    let c = v[i].copy();
                    out.push(c);
                    i = i + 1;
                }
                assert(models(out@) =~= models(v@));
                proof {
                    sequence_model(out);
                }
                Yaml::Sequence(out)
            },
            Yaml::Mapping(v) => {
                let mut out: Vec<(Key, Yaml)> = Vec::new();
                let mut i: usize = 0;
                while i < v.len()
                    invariant
                        i <= v@.len(),
                        out@.len() == i,
                        forall|k: int|
                            0 <= k < i ==> (#[trigger] out@[k]).0@ == v@[k].0@ && out@[k].1@ == v@[k].1@,
                        decreases_to!(self => v@),
                    decreases v@.len() - i,
                {
                    let k = match &v[i].0 {
                        Key::Str(s) => Key::Str(s.clone()),
                        Key::Other(x) => Key::Other(x.clone()),
                    };
                    let c = v[i].1.copy();
                    out.push((k, c));
                    i = i + 1;
                }
                assert(pair_models(out@) =~= pair_models(v@));
                proof {
                    mapping_model(out);
                }
                Yaml::Mapping(out)
            },
            Yaml::Tagged(t, y) => Yaml::Tagged(t.clone(), Box::new(y.copy())),
        }
    }
}

} // verus!
