//! JSON values as the protocol sees them.
//!
//! [`Json`] is what the library reads and builds; [`JsonView`] is the value it
//! stands for, with objects as maps. Reading and writing the text form is the
//! work of `serde_json`.

use vstd::prelude::*;

use crate::outside::{
    json_from_value, json_of_text, json_text, read_value, value_from_json, write_value,
};
use crate::text::str_eq;

verus! {

/// A JSON value. A number that is not an integer in the range of `u64` is kept
/// as `Number(None)`: nothing in the protocol reads one.
#[derive(Debug)]
pub enum Json {
    Null,
    Bool(bool),
    Number(Option<u64>),
    Str(String),
    Array(Vec<Json>),
    /// Members in the order they were added; a later one replaces an earlier
    /// one with the same name.
    Object(Vec<(String, Json)>),
}

/// The value a [`Json`] stands for.
pub enum JsonView {
    Null,
    Bool(bool),
    Number(Option<u64>),
    Str(Seq<char>),
    Array(Seq<JsonView>),
    Object(Map<Seq<char>, JsonView>),
}

impl View for Json {
    type V = JsonView;

    open spec fn view(&self) -> JsonView {
        json_view(*self)
    }
}

/// The value of one [`Json`].
pub open spec fn json_view(j: Json) -> JsonView
    decreases j,
{
    match j {
        Json::Null => JsonView::Null,
        Json::Bool(b) => JsonView::Bool(b),
        Json::Number(n) => JsonView::Number(n),
        Json::Str(s) => JsonView::Str(s@),
        Json::Array(items) => JsonView::Array(items_view(items@)),
        Json::Object(members) => JsonView::Object(members_view(members@)),
    }
}

/// The values of the items of an array.
pub open spec fn items_view(s: Seq<Json>) -> Seq<JsonView>
    decreases s,
{
    if s.len() == 0 {
        Seq::empty()
    } else {
        items_view(s.drop_last()).push(json_view(s.last()))
    }
}

/// The members of an object as a map.
pub open spec fn members_view(s: Seq<(String, Json)>) -> Map<Seq<char>, JsonView>
    decreases s,
{
    if s.len() == 0 {
        Map::empty()
    } else {
        members_view(s.drop_last()).insert(s.last().0@, json_view(s.last().1))
    }
}

impl JsonView {
    /// The member called `key`, where this is an object that has one.
    pub open spec fn member(self, key: Seq<char>) -> Option<JsonView> {
        match self {
            JsonView::Object(m) => if m.contains_key(key) {
                Some(m[key])
            } else {
                None
            },
            _ => None,
        }
    }

    /// This object with the member `key` set to `v`.
    pub open spec fn with(self, key: Seq<char>, v: JsonView) -> JsonView {
        match self {
            JsonView::Object(m) => JsonView::Object(m.insert(key, v)),
            other => other,
        }
    }

    /// The text of a string.
    pub open spec fn text(self) -> Option<Seq<char>> {
        match self {
            JsonView::Str(s) => Some(s),
            _ => None,
        }
    }

    /// The value of a number that is a `u64`.
    pub open spec fn uint(self) -> Option<u64> {
        match self {
            JsonView::Number(n) => n,
            _ => None,
        }
    }

    /// The value of a boolean.
    pub open spec fn boolean(self) -> Option<bool> {
        match self {
            JsonView::Bool(b) => Some(b),
            _ => None,
        }
    }

    /// The items of an array.
    pub open spec fn items(self) -> Option<Seq<JsonView>> {
        match self {
            JsonView::Array(s) => Some(s),
            _ => None,
        }
    }

    /// The string in the member `key`.
    pub open spec fn text_at(self, key: Seq<char>) -> Option<Seq<char>> {
        match self.member(key) {
            Some(v) => v.text(),
            None => None,
        }
    }

    /// The `u64` in the member `key`.
    pub open spec fn uint_at(self, key: Seq<char>) -> Option<u64> {
        match self.member(key) {
            Some(v) => v.uint(),
            None => None,
        }
    }

    /// The boolean in the member `key`.
    pub open spec fn boolean_at(self, key: Seq<char>) -> Option<bool> {
        match self.member(key) {
            Some(v) => v.boolean(),
            None => None,
        }
    }

    /// The array in the member `key`.
    pub open spec fn items_at(self, key: Seq<char>) -> Option<Seq<JsonView>> {
        match self.member(key) {
            Some(v) => v.items(),
            None => None,
        }
    }
}

/// Whether a value can be written out: no deeper than `depth` levels of arrays
/// and objects, and with numbers that are all in the range of `u64`.
pub open spec fn writable(j: JsonView, depth: nat) -> bool
    decreases depth,
{
    match j {
        JsonView::Number(n) => n is Some,
        JsonView::Array(s) => depth > 0 && forall|i: int|
            0 <= i < s.len() ==> writable(#[trigger] s[i], (depth - 1) as nat),
        JsonView::Object(m) => depth > 0 && forall|k: Seq<char>|
            #[trigger] m.contains_key(k) ==> writable(m[k], (depth - 1) as nat),
        _ => true,
    }
}

/// Whether no member, down to `depth` levels, has a name that begins with a
/// dollar sign. `serde_json` gives some such names a meaning of their own.
pub open spec fn plain(j: JsonView, depth: nat) -> bool
    decreases depth,
{
    match j {
        JsonView::Array(s) => depth > 0 && forall|i: int|
            0 <= i < s.len() ==> plain(#[trigger] s[i], (depth - 1) as nat),
        JsonView::Object(m) => depth > 0 && forall|k: Seq<char>|
            #[trigger] m.contains_key(k) ==> !(k.len() > 0 && k[0] == '$') && plain(
                m[k],
                (depth - 1) as nat,
            ),
        _ => true,
    }
}

/// Whether the text of a value reads back as the value, unless the name of a
/// member begins with a dollar sign.
pub open spec fn legible(j: JsonView) -> bool {
    plain(j, 64) ==> json_of_text(json_text(j)) == Some(j)
}

/// The object without members.
pub open spec fn empty_object() -> JsonView {
    JsonView::Object(Map::empty())
}

/// A number.
pub open spec fn number(n: int) -> JsonView {
    JsonView::Number(Some(n as u64))
}

/// A number, or `null` for none.
pub open spec fn number_or_null(n: Option<u64>) -> JsonView {
    match n {
        Some(n) => JsonView::Number(Some(n)),
        None => JsonView::Null,
    }
}

/// A string, or `null` for none.
pub open spec fn text_or_null(s: Option<Seq<char>>) -> JsonView {
    match s {
        Some(s) => JsonView::Str(s),
        None => JsonView::Null,
    }
}

pub proof fn lemma_items_view(s: Seq<Json>)
    ensures
        items_view(s).len() == s.len(),
        forall|i: int| 0 <= i < s.len() ==> #[trigger] items_view(s)[i] == json_view(s[i]),
    decreases s.len(),
{
    if s.len() > 0 {
        lemma_items_view(s.drop_last());
        assert forall|i: int| 0 <= i < s.len() implies #[trigger] items_view(s)[i] == json_view(
            s[i],
        ) by {
            if i < s.len() - 1 {
                assert(items_view(s.drop_last())[i] == json_view(s.drop_last()[i]));
            }
        }
    }
}

pub proof fn lemma_items_push(s: Seq<Json>, j: Json)
    ensures
        items_view(s.push(j)) == items_view(s).push(json_view(j)),
{
    assert(s.push(j).drop_last() == s);
}

proof fn lemma_members_push(s: Seq<(String, Json)>, m: (String, Json))
    ensures
        members_view(s.push(m)) == members_view(s).insert(m.0@, json_view(m.1)),
{
    assert(s.push(m).drop_last() == s);
}

/// Members after the last one called `key` do not hide it.
proof fn lemma_members_get(s: Seq<(String, Json)>, key: Seq<char>, i: int)
    requires
        -1 <= i < s.len(),
        i >= 0 ==> s[i].0@ == key,
        forall|k: int| i < k < s.len() ==> #[trigger] s[k].0@ != key,
    ensures
        members_view(s).contains_key(key) == (i >= 0),
        i >= 0 ==> members_view(s)[key] == json_view(s[i].1),
    decreases s.len(),
{
    if s.len() > 0 && i < s.len() - 1 {
        let t = s.drop_last();
        assert forall|k: int| i < k < t.len() implies #[trigger] t[k].0@ != key by {
            assert(s[k].0@ != key);
        }
        lemma_members_get(t, key, i);
        assert(s[s.len() - 1].0@ != key);
    }
}

impl Json {
    /// Reads a JSON text; `None` where it is not one.
    pub fn parse(text: &str) -> (r: Option<Json>)
        ensures
            match r {
                Some(j) => json_of_text(text@) == Some(j@),
                None => json_of_text(text@) is None,
            },
    {
        match read_value(text) {
            Ok(v) => Some(json_from_value(v)),
            Err(_) => None,
        }
    }

    /// Writes the value as JSON text. Unless the name of a member begins with a
    /// dollar sign, the text reads back as the same value.
    pub fn to_text(&self) -> (r: String)
        requires
            writable(self@, 64),
        ensures
            r@ == json_text(self@),
            legible(self@),
    {
        let v: serde_json::Value = value_from_json(self);
        write_value(&v)
    }

    /// The object without members.
    pub fn object() -> (r: Json)
        ensures
            r@ == empty_object(),
    {
        let members: Vec<(String, Json)> = Vec::new();
        Json::Object(members)
    }

    /// A number.
    pub fn number(n: u64) -> (r: Json)
        ensures
            r@ == number(n as int),
    {
        Json::Number(Some(n))
    }

    /// A number, or `null` for none.
    pub fn number_or_null(n: Option<u64>) -> (r: Json)
        ensures
            r@ == number_or_null(n),
    {
        match n {
            Some(n) => Json::Number(Some(n)),
            None => Json::Null,
        }
    }

    /// A string.
    pub fn text(s: &str) -> (r: Json)
        ensures
            r@ == JsonView::Str(s@),
    {
        Json::Str(s.to_owned())
    }

    /// This object with the member `key` set to `v`; any other value as it is.
    pub fn with(self, key: &str, v: Json) -> (r: Json)
        ensures
            r@ == self@.with(key@, v@),
    {
        match self {
            Json::Object(members) => {
                let mut members = members;
                let member: (String, Json) = (key.to_owned(), v);
                proof {
                    lemma_members_push(members@, member);
                }
                members.push(member);
                Json::Object(members)
            },
            other => other,
        }
    }

    /// The member called `key`, where this is an object that has one.
    pub fn get(&self, key: &str) -> (r: Option<&Json>)
        ensures
            match r {
                Some(v) => self@.member(key@) == Some(v@),
                None => self@.member(key@) is None,
            },
    {
        match self {
            Json::Object(members) => {
                let mut i: usize = members.len();
                while i > 0
                    invariant
                        i <= members@.len(),
                        self@ == JsonView::Object(members_view(members@)),
                        forall|k: int|
                            i <= k < members@.len() ==> #[trigger] members@[k].0@ != key@,
                    decreases i,
                {
                    if str_eq(members[i - 1].0.as_str(), key) {
                        proof {
                            lemma_members_get(members@, key@, i - 1);
                        }
                        return Some(&members[i - 1].1);
                    }
                    i -= 1;
                }
                proof {
                    lemma_members_get(members@, key@, -1);
                }
                None
            },
            _ => None,
        }
    }

    /// The text of a string.
    pub fn as_str(&self) -> (r: Option<&str>)
        ensures
            match r {
                Some(s) => self@.text() == Some(s@),
                None => self@.text() is None,
            },
    {
        match self {
            Json::Str(s) => Some(s.as_str()),
            _ => None,
        }
    }

    /// The value of a number that is a `u64`.
    pub fn as_u64(&self) -> (r: Option<u64>)
        ensures
            r == self@.uint(),
    {
        match self {
            Json::Number(n) => *n,
            _ => None,
        }
    }

    /// The value of a boolean.
    pub fn as_bool(&self) -> (r: Option<bool>)
        ensures
            r == self@.boolean(),
    {
        match self {
            Json::Bool(b) => Some(*b),
            _ => None,
        }
    }

    /// The items of an array.
    pub fn as_array(&self) -> (r: Option<&Vec<Json>>)
        ensures
            match r {
                Some(items) => self@.items() == Some(items_view(items@)),
                None => self@.items() is None,
            },
    {
        match self {
            Json::Array(items) => Some(items),
            _ => None,
        }
    }

    /// The string in the member `key`.
    pub fn str_at(&self, key: &str) -> (r: Option<&str>)
        ensures
            match r {
                Some(s) => self@.text_at(key@) == Some(s@),
                None => self@.text_at(key@) is None,
            },
    {
        match self.get(key) {
            Some(v) => v.as_str(),
            None => None,
        }
    }

    /// The `u64` in the member `key`.
    pub fn u64_at(&self, key: &str) -> (r: Option<u64>)
        ensures
            r == self@.uint_at(key@),
    {
        match self.get(key) {
            Some(v) => v.as_u64(),
            None => None,
        }
    }

    /// The boolean in the member `key`.
    pub fn bool_at(&self, key: &str) -> (r: Option<bool>)
        ensures
            r == self@.boolean_at(key@),
    {
        match self.get(key) {
            Some(v) => v.as_bool(),
            None => None,
        }
    }
}

} // verus!
