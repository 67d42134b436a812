//! YAML documents, as far as the catalog needs them.

use vstd::prelude::*;

use crate::json::opt_view;
use crate::text::{same_text, views};

verus! {

/// `serde_yaml::Value`, an outside type.
#[verifier::external_type_specification]
#[verifier::external_body]
pub struct ExYamlValue(serde_yaml::Value);

/// A YAML value.
#[derive(Debug)]
pub enum Yaml {
    /// A string.
    Text(String),
    /// A sequence.
    List(Vec<Yaml>),
    /// A mapping, in its order.
    Mapping(Vec<(Yaml, Yaml)>),
    /// A value with a tag; the tag does not matter.
    Tagged(Box<Yaml>),
    /// A number, a truth value or a null.
    Other,
}

/// A YAML value as mathematics sees it.
pub enum YamlView {
    Text(Seq<char>),
    List(Seq<YamlView>),
    Mapping(Seq<(YamlView, YamlView)>),
    Tagged(Box<YamlView>),
    Other,
}

impl Yaml {
    /// The value without its representation.
    pub open spec fn model(self) -> YamlView
        decreases self,
    {
        match self {
            Yaml::Text(s) => YamlView::Text(s@),
            Yaml::List(v) => YamlView::List(
                Seq::new(
                    v@.len(),
                    |i: int|
                        if 0 <= i < v@.len() {
                            v@[i].model()
                        } else {
                            YamlView::Other
                        },
                ),
            ),
            Yaml::Mapping(v) => YamlView::Mapping(
                Seq::new(
                    v@.len(),
                    |i: int|
                        if 0 <= i < v@.len() {
                            (v@[i].0.model(), v@[i].1.model())
                        } else {
                            (YamlView::Other, YamlView::Other)
                        },
                ),
            ),
            Yaml::Tagged(b) => YamlView::Tagged(Box::new((*b).model())),
            Yaml::Other => YamlView::Other,
        }
    }
}

impl View for Yaml {
    type V = YamlView;

    open spec fn view(&self) -> YamlView {
        self.model()
    }
}

/// The view of a sequence holds the views of its items.
proof fn lemma_list_view(v: Vec<Yaml>)
    ensures
        Yaml::List(v)@ == YamlView::List(views(v@)),
{
    assert(Yaml::List(v)@->List_0 =~= views(v@));
}

/// The view of a mapping holds the views of its entries.
proof fn lemma_mapping_view(v: Vec<(Yaml, Yaml)>)
    ensures
        Yaml::Mapping(v)@ == YamlView::Mapping(views(v@)),
{
    assert(Yaml::Mapping(v)@->Mapping_0 =~= views(v@));
}

/// A value without its tags.
pub open spec fn untagged(v: YamlView) -> YamlView
    decreases v,
{
    match v {
        YamlView::Tagged(b) => untagged(*b),
        _ => v,
    }
}

/// The value under a string key.
pub open spec fn entry(entries: Seq<(YamlView, YamlView)>, key: Seq<char>) -> Option<YamlView>
    decreases entries.len(),
{
    if entries.len() == 0 {
        None
    } else if entries[0].0 == YamlView::Text(key) {
        Some(entries[0].1)
    } else {
        entry(entries.skip(1), key)
    }
}

/// The entries of a mapping.
pub open spec fn mapping_of(v: YamlView) -> Option<Seq<(YamlView, YamlView)>> {
    match untagged(v) {
        YamlView::Mapping(m) => Some(m),
        _ => None,
    }
}

/// The items of a sequence.
pub open spec fn list_of(v: YamlView) -> Option<Seq<YamlView>> {
    match untagged(v) {
        YamlView::List(l) => Some(l),
        _ => None,
    }
}

/// The text of a string.
pub open spec fn text_of(v: YamlView) -> Option<Seq<char>> {
    match untagged(v) {
        YamlView::Text(s) => Some(s),
        _ => None,
    }
}

/// What stands under a string key of a mapping.
pub open spec fn child(v: YamlView, key: Seq<char>) -> Option<YamlView> {
    match mapping_of(v) {
        Some(m) => entry(m, key),
        None => None,
    }
}

/// What stands under a string key, if there is a value.
pub open spec fn child_of(v: Option<YamlView>, key: Seq<char>) -> Option<YamlView> {
    match v {
        Some(v) => child(v, key),
        None => None,
    }
}

/// The text under a string key of a mapping.
pub open spec fn child_text(v: YamlView, key: Seq<char>) -> Option<Seq<char>> {
    match child(v, key) {
        Some(c) => text_of(c),
        None => None,
    }
}

/// What stands in a mapping is one of its entries.
proof fn lemma_entry_at(entries: Seq<(YamlView, YamlView)>, key: Seq<char>) -> (i: int)
    requires
        entry(entries, key) is Some,
    ensures
        0 <= i < entries.len(),
        entries[i].1 == entry(entries, key)->0,
    decreases entries.len(),
{
    if entries[0].0 == YamlView::Text(key) {
        0
    } else {
        let k = lemma_entry_at(entries.skip(1), key);
        assert(entries.skip(1)[k] == entries[k + 1]);
        k + 1
    }
}

proof fn lemma_untagged_smaller(v: YamlView)
    ensures
        v is Tagged ==> decreases_to!(v => untagged(v)),
    decreases v,
{
    if v is Tagged {
        let inner = *v->Tagged_0;
        lemma_untagged_smaller(inner);
        if inner is Tagged {
            assert(untagged(v) == untagged(inner));
        } else {
            assert(untagged(v) == inner);
        }
    }
}

/// What stands in a mapping is smaller than the mapping.
pub proof fn lemma_child_smaller(v: YamlView, key: Seq<char>)
    requires
        child(v, key) is Some,
    ensures
        decreases_to!(v => child(v, key)->0),
{
    let u = untagged(v);
    lemma_untagged_smaller(v);
    let m = u->Mapping_0;
    let i = lemma_entry_at(m, key);
    assert(decreases_to!(u => m));
    assert(decreases_to!(m => m[i]));
    assert(decreases_to!(m[i] => m[i].1));
}

impl Yaml {
    /// The value without its tags.
    fn untag(&self) -> (r: &Yaml)
        ensures
            r@ == untagged(self@),
            !(r is Tagged),
        decreases self,
    {
        match self {
            Yaml::Tagged(b) => (&**b).untag(),
            _ => self,
        }
    }

    /// The text of a string.
    pub fn as_str(&self) -> (r: Option<&str>)
        ensures
            opt_view(r) == text_of(self@),
    {
        match self.untag() {
            Yaml::Text(s) => Some(s.as_str()),
            _ => None,
        }
    }

    /// The items of a sequence.
    pub fn as_list(&self) -> (r: Option<&Vec<Yaml>>)
        ensures
            match r {
                Some(l) => list_of(self@) == Some(views(l@)),
                None => list_of(self@) is None,
            },
    {
        match self.untag() {
            Yaml::List(l) => {
                proof {
                    lemma_list_view(*l);
                }
                Some(l)
            },
            _ => None,
        }
    }

    /// The entries of a mapping.
    pub fn as_mapping(&self) -> (r: Option<&Vec<(Yaml, Yaml)>>)
        ensures
            match r {
                Some(m) => mapping_of(self@) == Some(views(m@)),
                None => mapping_of(self@) is None,
            },
    {
        match self.untag() {
            Yaml::Mapping(m) => {
                proof {
                    lemma_mapping_view(*m);
                }
                Some(m)
            },
            _ => None,
        }
    }

    /// What stands under a string key of a mapping.
    pub fn get(&self, key: &str) -> (r: Option<&Yaml>)
        ensures
            opt_view(r) == child(self@, key@),
    {
        match self.as_mapping() {
            Some(m) => find_entry(m, key),
            None => None,
        }
    }

    /// The text under a string key of a mapping.
    pub fn get_str(&self, key: &str) -> (r: Option<&str>)
        ensures
            opt_view(r) == child_text(self@, key@),
    {
        match self.get(key) {
            Some(v) => v.as_str(),
            None => None,
        }
    }
}

/// What stands in a mapping under a string key.
pub fn find_entry<'a>(entries: &'a Vec<(Yaml, Yaml)>, key: &str) -> (r: Option<&'a Yaml>)
    ensures
        opt_view(r) == entry(views(entries@), key@),
{
    let ghost all = views(entries@);
    let mut i: usize = 0;
    proof {
        assert(all.skip(0) =~= all);
    }
    while i < entries.len()
        invariant
            i <= entries@.len(),
            all == views(entries@),
            entry(all, key@) == entry(all.skip(i as int), key@),
        decreases entries.len() - i,
    {
        proof {
            assert(all.skip(i as int).skip(1) =~= all.skip(i + 1));
            assert(all.skip(i as int)[0] == entries@[i as int]@);
        }
        match &entries[i].0 {
            Yaml::Text(s) => {
                if same_text(s.as_str(), key) {
                    return Some(&entries[i].1);
                }
            },
            _ => {},
        }
        i += 1;
    }
    None
}

// ---- text ----

/// What `serde_yaml::from_str` makes of a text: the value that it writes down,
/// or the words with which it is refused.
pub uninterp spec fn yaml_of_text(text: Seq<char>) -> Result<YamlView, Seq<char>>;

/// A value of `serde_yaml` as one of the library: the variants one for one, with
/// a single variant for null, booleans and numbers, of which nothing is read.
#[verifier::external_body]
fn from_yaml_value(v: serde_yaml::Value) -> (r: Yaml)
{
    match v {
        serde_yaml::Value::Null => Yaml::Other,
        serde_yaml::Value::Bool(_) => Yaml::Other,
        serde_yaml::Value::Number(_) => Yaml::Other,
        serde_yaml::Value::String(s) => Yaml::Text(s),
        serde_yaml::Value::Sequence(s) => Yaml::List(s.into_iter().map(from_yaml_value).collect()),
        serde_yaml::Value::Mapping(m) => Yaml::Mapping(m.into_iter().map(|(k, v)| (from_yaml_value(k), from_yaml_value(v))).collect()),
        serde_yaml::Value::Tagged(t) => Yaml::Tagged(Box::new(from_yaml_value(t.value))),
    }
}

/// `serde_yaml::from_str`, into a value: the outcome depends on the text alone.
#[verifier::external_body]
fn read_yaml(text: &str) -> (r: Result<Yaml, String>)
    ensures
        r is Ok <==> yaml_of_text(text@) is Ok,
        r is Ok ==> r->Ok_0@ == yaml_of_text(text@)->Ok_0,
        r is Err ==> r->Err_0@ == yaml_of_text(text@)->Err_0,
{
    match serde_yaml::from_str(text) {
        Ok(v) => Ok(from_yaml_value(v)),
        Err(e) => Err(e.to_string()),
    }
}

impl Yaml {
    /// The value that the text writes down, or why it is refused.
    pub fn parse(text: &str) -> (r: Result<Yaml, String>)
        ensures
            r is Ok <==> yaml_of_text(text@) is Ok,
            r is Ok ==> r->Ok_0@ == yaml_of_text(text@)->Ok_0,
            r is Err ==> r->Err_0@ == yaml_of_text(text@)->Err_0,
    {
        read_yaml(text)
    }
}

} // verus!
