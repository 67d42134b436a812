//! JSON values: what a server answers, what a request carries and what a
//! command prints.

use vstd::prelude::*;

use crate::text::{same_text, views};

verus! {

/// A number of `serde_json`. Only the fractional ones are carried as they are;
/// integers are held as integers.
#[verifier::external_type_specification]
#[verifier::external_body]
pub struct ExNumber(serde_json::Number);

/// A value of `serde_json`, on its way between text and the library's own type.
#[verifier::external_type_specification]
#[verifier::external_body]
pub struct ExValue(serde_json::Value);

/// `serde_json::Number::clone`: the clone is the same number.
pub assume_specification[ <serde_json::Number as Clone>::clone ](
    n: &serde_json::Number,
) -> (r: serde_json::Number)
    ensures
        r == *n,
;

/// A JSON value.
#[derive(Debug, PartialEq)]
pub enum Json {
    /// `null`.
    Null,
    /// `true` or `false`.
    Bool(bool),
    /// An integer that is not negative.
    Uint(u64),
    /// An integer, as a rule a negative one.
    Int(i64),
    /// Any other number.
    Float(serde_json::Number),
    /// A string.
    Str(String),
    /// An array.
    Array(Vec<Json>),
    /// An object: its members, each with its key.
    Object(Vec<(String, Json)>),
}

/// A JSON value as mathematics sees it.
pub enum JsonView {
    /// `null`.
    Null,
    /// `true` or `false`.
    Bool(bool),
    /// An integer.
    Number(int),
    /// Any other number.
    Float(serde_json::Number),
    /// A string.
    Str(Seq<char>),
    /// An array.
    Array(Seq<JsonView>),
    /// An object.
    Object(Seq<(Seq<char>, JsonView)>),
}

impl Json {
    /// The value without its representation.
    pub open spec fn model(self) -> JsonView
        decreases self,
    {
        match self {
            Json::Null => JsonView::Null,
            Json::Bool(b) => JsonView::Bool(b),
            Json::Uint(n) => JsonView::Number(n as int),
            Json::Int(n) => JsonView::Number(n as int),
            Json::Float(n) => JsonView::Float(n),
            Json::Str(s) => JsonView::Str(s@),
            Json::Array(v) => JsonView::Array(
                Seq::new(
                    v@.len(),
                    |i: int|
                        if 0 <= i < v@.len() {
                            v@[i].model()
                        } else {
                            JsonView::Null
                        },
                ),
            ),
            Json::Object(v) => JsonView::Object(
                Seq::new(
                    v@.len(),
                    |i: int|
                        if 0 <= i < v@.len() {
                            (v@[i].0@, v@[i].1.model())
                        } else {
                            (Seq::empty(), JsonView::Null)
                        },
                ),
            ),
        }
    }
}

impl View for Json {
    type V = JsonView;

    open spec fn view(&self) -> JsonView {
        self.model()
    }
}

/// The members of an object without any.
pub open spec fn no_members() -> Seq<(Seq<char>, JsonView)> {
    Seq::empty()
}

/// The members of an object, by their views.
pub open spec fn member_views(s: Seq<(String, Json)>) -> Seq<(Seq<char>, JsonView)> {
    Seq::new(s.len(), |i: int| (s[i].0@, s[i].1@))
}

/// The view of an array holds the views of its items.
pub proof fn lemma_array_view(v: Vec<Json>)
    ensures
        Json::Array(v)@ == JsonView::Array(views(v@)),
{
    assert(Json::Array(v)@->Array_0 =~= views(v@));
}

/// The view of an object holds the views of its members.
pub proof fn lemma_object_view(v: Vec<(String, Json)>)
    ensures
        Json::Object(v)@ == JsonView::Object(member_views(v@)),
{
    assert(Json::Object(v)@->Object_0 =~= member_views(v@));
}

/// The value of the first member with the key, if there is one.
pub open spec fn member(members: Seq<(Seq<char>, JsonView)>, key: Seq<char>) -> Option<JsonView>
    decreases members.len(),
{
    if members.len() == 0 {
        None
    } else if members[0].0 == key {
        Some(members[0].1)
    } else {
        member(members.skip(1), key)
    }
}

/// A member put behind the others is found unless one of them has its key.
pub proof fn lemma_member_push(
    members: Seq<(Seq<char>, JsonView)>,
    last: (Seq<char>, JsonView),
    key: Seq<char>,
)
    ensures
        member(members.push(last), key) == match member(members, key) {
            Some(v) => Some(v),
            None => if last.0 == key {
                Some(last.1)
            } else {
                None
            },
        },
    decreases members.len(),
{
    reveal_with_fuel(member, 2);
    let all = members.push(last);
    if members.len() == 0 {
        assert(all.skip(1) =~= members);
    } else {
        lemma_member_push(members.skip(1), last, key);
        assert(all.skip(1) =~= members.skip(1).push(last));
        assert(all[0] == members[0]);
    }
}

/// What stands under the key in a value; nothing unless it is an object.
pub open spec fn field(v: JsonView, key: Seq<char>) -> Option<JsonView> {
    match v {
        JsonView::Object(members) => member(members, key),
        _ => None,
    }
}

/// The text of a value that is a string.
pub open spec fn str_of(v: Option<JsonView>) -> Option<Seq<char>> {
    match v {
        Some(JsonView::Str(s)) => Some(s),
        _ => None,
    }
}

/// The items of a value that is an array.
pub open spec fn array_of(v: Option<JsonView>) -> Option<Seq<JsonView>> {
    match v {
        Some(JsonView::Array(s)) => Some(s),
        _ => None,
    }
}

/// The items of a value that is an array; none for any other.
pub open spec fn items_of(v: Option<JsonView>) -> Seq<JsonView> {
    match array_of(v) {
        Some(s) => s,
        None => Seq::empty(),
    }
}

/// The string under the key, if a string stands there.
pub open spec fn str_field(v: JsonView, key: Seq<char>) -> Option<Seq<char>> {
    str_of(field(v, key))
}

/// The string under the key; empty if no string stands there.
pub open spec fn str_field_or_empty(v: JsonView, key: Seq<char>) -> Seq<char> {
    match str_field(v, key) {
        Some(s) => s,
        None => Seq::empty(),
    }
}

/// The view of an optional value.
pub open spec fn opt_view<T: View>(o: Option<T>) -> Option<T::V> {
    match o {
        Some(x) => Some(x@),
        None => None,
    }
}

impl Json {
    /// What stands under the key; nothing unless this is an object.
    pub fn get(&self, key: &str) -> (r: Option<&Json>)
        ensures
            r is Some <==> field(self@, key@) is Some,
            r is Some ==> r->0@ == field(self@, key@)->0,
    {
        match self {
            Json::Object(v) => {
                proof {
                    lemma_object_view(*v);
                }
                let ghost all = member_views(v@);
                let mut i: usize = 0;
                assert(all.skip(0) =~= all);
                while i < v.len()
                    invariant
                        i <= v@.len(),
                        all == member_views(v@),
                        self@ == JsonView::Object(all),
                        member(all, key@) == member(all.skip(i as int), key@),
                    decreases v.len() - i,
                {
                    proof {
                        assert(all.skip(i as int).skip(1) =~= all.skip(i + 1));
                        assert(all.skip(i as int)[0] == (v@[i as int].0@, v@[i as int].1@));
                    }
                    if same_text(v[i].0.as_str(), key) {
                        return Some(&v[i].1);
                    }
                    i += 1;
                }
                None
            },
            _ => None,
        }
    }

    /// The text, if this is a string.
    pub fn as_str(&self) -> (r: Option<&str>)
        ensures
            opt_view(r) == str_of(Some(self@)),
    {
        match self {
            Json::Str(s) => Some(s.as_str()),
            _ => None,
        }
    }

    /// The items, if this is an array.
    pub fn as_array(&self) -> (r: Option<&Vec<Json>>)
        ensures
            r is Some <==> self@ is Array,
            r is Some ==> self@ == JsonView::Array(views(r->0@)),
    {
        match self {
            Json::Array(v) => {
                proof {
                    lemma_array_view(*v);
                }
                Some(v)
            },
            _ => None,
        }
    }

    /// Whether this is `null`.
    pub fn is_null(&self) -> (r: bool)
        ensures
            r == (self@ is Null),
    {
        matches!(self, Json::Null)
    }

    /// Whether this is an object.
    pub fn is_object(&self) -> (r: bool)
        ensures
            r == (self@ is Object),
    {
        matches!(self, Json::Object(_))
    }

    /// The string under the key, if a string stands there.
    pub fn get_str(&self, key: &str) -> (r: Option<&str>)
        ensures
            opt_view(r) == str_field(self@, key@),
    {
        match self.get(key) {
            Some(v) => v.as_str(),
            None => None,
        }
    }

    /// A string.
    pub fn text(s: &str) -> (r: Json)
        ensures
            r@ == JsonView::Str(s@),
    {
        Json::Str(s.to_owned())
    }

    /// A number.
    pub fn uint(n: u64) -> (r: Json)
        ensures
            r@ == JsonView::Number(n as int),
    {
        Json::Uint(n)
    }

    /// A number that can be negative.
    pub fn signed(n: i64) -> (r: Json)
        ensures
            r@ == JsonView::Number(n as int),
    {
        if n >= 0 {
            Json::Uint(n as u64)
        } else {
            Json::Int(n)
        }
    }

    /// A truth value.
    pub fn boolean(b: bool) -> (r: Json)
        ensures
            r@ == JsonView::Bool(b),
    {
        Json::Bool(b)
    }

    /// An array.
    pub fn array(items: Vec<Json>) -> (r: Json)
        ensures
            r@ == JsonView::Array(views(items@)),
    {
        proof {
            lemma_array_view(items);
        }
        Json::Array(items)
    }

    /// An array of strings.
    pub fn texts(items: &Vec<String>) -> (r: Json)
        ensures
            r@ == texts_view(views(items@)),
    {
        let mut out: Vec<Json> = Vec::new();
        let mut i: usize = 0;
        while i < items.len()
            invariant
                i <= items@.len(),
                out@.len() == i,
                forall|k: int| 0 <= k < i ==> (#[trigger] out@[k])@ == JsonView::Str(items@[k]@),
            decreases items.len() - i,
        {
            out.push(Json::Str(items[i].clone()));
            i += 1;
        }
        proof {
            lemma_array_view(out);
            assert(views(out@) =~= texts_view(views(items@))->Array_0);
        }
        Json::Array(out)
    }
}

/// An array of strings.
pub open spec fn texts_view(items: Seq<Seq<char>>) -> JsonView {
    JsonView::Array(Seq::new(items.len(), |i: int| JsonView::Str(items[i])))
}

impl Clone for Json {
    fn clone(&self) -> (r: Self)
        ensures
            r@ == self@,
        decreases self,
    {
        match self {
            Json::Null => Json::Null,
            Json::Bool(b) => Json::Bool(*b),
            Json::Uint(n) => Json::Uint(*n),
            Json::Int(n) => Json::Int(*n),
            Json::Float(n) => Json::Float(n.clone()),
            Json::Str(s) => Json::Str(s.clone()),
            Json::Array(v) => {
                let mut out: Vec<Json> = Vec::new();
                let mut i: usize = 0;
                while i < v.len()
                    invariant
                        i <= v.len(),
                        out@.len() == i,
                        forall|k: int| 0 <= k < i ==> (#[trigger] out@[k])@ == v@[k]@,
                        decreases_to!(self => v),
                    decreases v.len() - i,
                {
                    out.push(v[i].clone());
                    i += 1;
                }
                let r = Json::Array(out);
                assert(r@->Array_0 =~= self@->Array_0);
                r
            },
            Json::Object(v) => {
                let mut out: Vec<(String, Json)> = Vec::new();
                let mut i: usize = 0;
                while i < v.len()
                    invariant
                        i <= v.len(),
                        out@.len() == i,
                        forall|k: int|
                            0 <= k < i ==> (#[trigger] out@[k]).0@ == v@[k].0@ && out@[k].1@
                                == v@[k].1@,
                        decreases_to!(self => v),
                    decreases v.len() - i,
                {
                    out.push((v[i].0.clone(), v[i].1.clone()));
                    i += 1;
                }
                let r = Json::Object(out);
                assert(r@->Object_0 =~= self@->Object_0);
                r
            },
        }
    }
}

/// An object that is being put together, member by member.
pub struct Members {
    members: Vec<(String, Json)>,
}

impl View for Members {
    type V = Seq<(Seq<char>, JsonView)>;

    closed spec fn view(&self) -> Seq<(Seq<char>, JsonView)> {
        member_views(self.members@)
    }
}

impl Members {
    /// No member yet.
    pub fn new() -> (r: Members)
        ensures
            r@ == Seq::<(Seq<char>, JsonView)>::empty(),
    {
        let r = Members { members: Vec::new() };
        assert(r@ =~= Seq::<(Seq<char>, JsonView)>::empty());
        r
    }

    /// One member more.
    pub fn put(&mut self, key: &str, value: Json)
        ensures
            final(self)@ == old(self)@.push((key@, value@)),
    {
        let ghost before = self.members@;
        self.members.push((key.to_owned(), value));
        proof {
            assert(self@ =~= member_views(before).push((key@, value@)));
        }
    }

    /// The object.
    pub fn object(self) -> (r: Json)
        ensures
            r@ == JsonView::Object(self@),
    {
        proof {
            lemma_object_view(self.members);
        }
        Json::Object(self.members)
    }
}

// ---- text ----

/// What `serde_json::from_str` makes of a text: the value that it writes down,
/// or the words with which it is refused.
pub uninterp spec fn json_of_text(text: Seq<char>) -> Result<JsonView, Seq<char>>;

/// The compact text that `serde_json` gives a value.
pub uninterp spec fn text_of_json(v: JsonView) -> Seq<char>;

/// The text over several lines that `serde_json` gives a value.
pub uninterp spec fn pretty_of_json(v: JsonView) -> Seq<char>;

/// The value of `serde_json` as the library's own: the variants one for one, a
/// number by the kind of number that it is.
#[verifier::external_body]
fn from_value(v: serde_json::Value) -> (r: Json)
{
    match v {
        serde_json::Value::Null => Json::Null,
        serde_json::Value::Bool(b) => Json::Bool(b),
        serde_json::Value::Number(n) => match (n.as_u64(), n.as_i64()) {
            (Some(u), _) => Json::Uint(u),
            (None, Some(i)) => Json::Int(i),
            (None, None) => Json::Float(n),
        },
        serde_json::Value::String(s) => Json::Str(s),
        serde_json::Value::Array(a) => Json::Array(a.into_iter().map(from_value).collect()),
        serde_json::Value::Object(m) => Json::Object(m.into_iter().map(|(k, v)| (k, from_value(v))).collect()),
    }
}

/// The library's own value as one of `serde_json`: the variants one for one.
#[verifier::external_body]
fn to_value(v: &Json) -> (r: serde_json::Value)
{
    match v {
        Json::Null => serde_json::Value::Null,
        Json::Bool(b) => serde_json::Value::from(*b),
        Json::Uint(n) => serde_json::Value::from(*n),
        Json::Int(n) => serde_json::Value::from(*n),
        Json::Float(n) => serde_json::Value::Number(n.clone()),
        Json::Str(s) => serde_json::Value::from(s.as_str()),
        Json::Array(a) => serde_json::Value::Array(a.iter().map(to_value).collect()),
        Json::Object(m) => serde_json::Value::Object(m.iter().map(|(k, v)| (k.clone(), to_value(v))).collect()),
    }
}

/// `serde_json::from_str`, into a value: the outcome depends on the text alone.
#[verifier::external_body]
fn read_json(text: &str) -> (r: Result<Json, String>)
    ensures
        r is Ok <==> json_of_text(text@) is Ok,
        r is Ok ==> r->Ok_0@ == json_of_text(text@)->Ok_0,
        r is Err ==> r->Err_0@ == json_of_text(text@)->Err_0,
{
    match serde_json::from_str(text) {
        Ok(v) => Ok(from_value(v)),
        Err(e) => Err(e.to_string()),
    }
}

/// The `Display` of `serde_json::Value`: the text depends on the value alone.
#[verifier::external_body]
fn write_json(v: &Json) -> (r: String)
    ensures
        r@ == text_of_json(v@),
{
    to_value(v).to_string()
}

/// The alternate `Display` of `serde_json::Value`: the text depends on the value
/// alone.
#[verifier::external_body]
fn write_pretty(v: &Json) -> (r: String)
    ensures
        r@ == pretty_of_json(v@),
{
    format!("{:#}", to_value(v))
}

impl Json {
    /// The value that the text writes down, or why it is refused.
    pub fn parse(text: &str) -> (r: Result<Json, String>)
        ensures
            r is Ok <==> json_of_text(text@) is Ok,
            r is Ok ==> r->Ok_0@ == json_of_text(text@)->Ok_0,
            r is Err ==> r->Err_0@ == json_of_text(text@)->Err_0,
    {
        read_json(text)
    }

    /// The compact text of the value.
    pub fn compact(&self) -> (r: String)
        ensures
            r@ == text_of_json(self@),
    {
        write_json(self)
    }

    /// The text of the value over several lines.
    pub fn pretty(&self) -> (r: String)
        ensures
            r@ == pretty_of_json(self@),
    {
        write_pretty(self)
    }
}

} // verus!
