//! JSON values as the command bridge reads and builds them.

use vstd::prelude::*;

use crate::text::{owned, same_text};

verus! {

/// A JSON number: a whole number, or the bits of an IEEE 754 double.
#[derive(Debug, Clone, Copy, PartialEq, Eq, Structural)]
pub enum Number {
    Unsigned(u64),
    Signed(i64),
    Float(u64),
}

/// A JSON value. The fields of an object stand in the order in which they were
/// put in.
#[derive(Debug)]
pub enum Json {
    Null,
    Bool(bool),
    Number(Number),
    Text(String),
    Array(Vec<Json>),
    Object(Vec<(String, Json)>),
}

/// What a [`Json`] holds.
pub enum JsonView {
    Null,
    Bool(bool),
    Number(Number),
    Text(Seq<char>),
    Array(Seq<JsonView>),
    Object(Seq<(Seq<char>, JsonView)>),
}

/// The value that `j` stands for.
pub open spec fn json_view(j: Json) -> JsonView
    decreases j,
{
    match j {
        Json::Null => JsonView::Null,
        Json::Bool(b) => JsonView::Bool(b),
        Json::Number(n) => JsonView::Number(n),
        Json::Text(s) => JsonView::Text(s@),
        Json::Array(items) => JsonView::Array(
            Seq::new(
                items@.len(),
                |i: int|
                    if 0 <= i < items@.len() {
                        json_view(items@[i])
                    } else {
                        JsonView::Null
                    },
            ),
        ),
        Json::Object(fields) => JsonView::Object(
            Seq::new(
                fields@.len(),
                |i: int|
                    if 0 <= i < fields@.len() {
                        (fields@[i].0@, json_view(fields@[i].1))
                    } else {
                        (Seq::empty(), JsonView::Null)
                    },
            ),
        ),
    }
}

impl DeepView for Json {
    type V = JsonView;

    open spec fn deep_view(&self) -> JsonView {
        json_view(*self)
    }
}

impl View for Json {
    type V = JsonView;

    open spec fn view(&self) -> JsonView {
        json_view(*self)
    }
}

/// The values that a list of JSON values stands for.
pub open spec fn json_views(items: Seq<Json>) -> Seq<JsonView> {
    Seq::new(items.len(), |i: int| items[i]@)
}

/// The value of the first of `fields` that is named `key`.
pub open spec fn field_of(fields: Seq<(Seq<char>, JsonView)>, key: Seq<char>) -> Option<JsonView>
    decreases fields.len(),
{
    if fields.len() == 0 {
        None
    } else if fields[0].0 == key {
        Some(fields[0].1)
    } else {
        field_of(fields.subrange(1, fields.len() as int), key)
    }
}

impl JsonView {
    /// An object without fields.
    pub open spec fn object() -> JsonView {
        JsonView::Object(Seq::empty())
    }

    /// This object with one more field.
    pub open spec fn with(self, key: Seq<char>, value: JsonView) -> JsonView {
        JsonView::Object(self->Object_0.push((key, value)))
    }

    /// The field `key`, where this is an object that has one.
    pub open spec fn get(self, key: Seq<char>) -> Option<JsonView> {
        match self {
            JsonView::Object(fields) => field_of(fields, key),
            _ => None,
        }
    }

    /// The field `key`, or null.
    pub open spec fn pick(self, key: Seq<char>) -> JsonView {
        match self.get(key) {
            Some(value) => value,
            None => JsonView::Null,
        }
    }

    /// The text, where this is one.
    pub open spec fn as_str(self) -> Option<Seq<char>> {
        match self {
            JsonView::Text(s) => Some(s),
            _ => None,
        }
    }

    /// The whole number, where this is one in the range of `i64`.
    pub open spec fn as_i64(self) -> Option<i64> {
        match self {
            JsonView::Number(Number::Unsigned(n)) => if n <= i64::MAX {
                Some(n as i64)
            } else {
                None
            },
            JsonView::Number(Number::Signed(n)) => Some(n),
            _ => None,
        }
    }

    /// The number, where this is one.
    pub open spec fn as_number(self) -> Option<Number> {
        match self {
            JsonView::Number(n) => Some(n),
            _ => None,
        }
    }

    /// The item at `index`, where this is an array that has one.
    pub open spec fn item(self, index: int) -> Option<JsonView> {
        match self {
            JsonView::Array(items) => if 0 <= index < items.len() {
                Some(items[index])
            } else {
                None
            },
            _ => None,
        }
    }
}

/// A whole number as a JSON number.
pub open spec fn whole(n: int) -> JsonView {
    JsonView::Number(
        if n >= 0 {
            Number::Unsigned(n as u64)
        } else {
            Number::Signed(n as i64)
        },
    )
}

/// A text, or null where there is none.
pub open spec fn text_or_null(text: Option<Seq<char>>) -> JsonView {
    match text {
        Some(s) => JsonView::Text(s),
        None => JsonView::Null,
    }
}

proof fn lemma_field_of_from(fields: Seq<(Seq<char>, JsonView)>, key: Seq<char>, i: int)
    requires
        0 <= i <= fields.len(),
        forall|k: int| 0 <= k < i ==> (#[trigger] fields[k]).0 != key,
    ensures
        field_of(fields, key) == field_of(fields.subrange(i, fields.len() as int), key),
    decreases i,
{
    if i == 0 {
        assert(fields.subrange(0, fields.len() as int) =~= fields);
    } else {
        let rest = fields.subrange(1, fields.len() as int);
        assert(fields[0].0 != key);
        lemma_field_of_from(rest, key, i - 1);
        assert(rest.subrange(i - 1, rest.len() as int) =~= fields.subrange(i, fields.len() as int));
    }
}

proof fn lemma_field_of_pushed(
    fields: Seq<(Seq<char>, JsonView)>,
    key: Seq<char>,
    value: JsonView,
    other: Seq<char>,
)
    ensures
        field_of(fields.push((key, value)), other) == match field_of(fields, other) {
            Some(found) => Some(found),
            None => if other == key {
                Some(value)
            } else {
                None
            },
        },
    decreases fields.len(),
{
    let more = fields.push((key, value));
    let rest = more.subrange(1, more.len() as int);
    if fields.len() == 0 {
        assert(field_of(rest, other) is None);
    } else {
        lemma_field_of_pushed(fields.subrange(1, fields.len() as int), key, value, other);
        assert(rest =~= fields.subrange(1, fields.len() as int).push((key, value)));
    }
}

/// A field that is put into an object is found there again, and so are those that were
/// in it before.
pub proof fn fields_are_found_again(object: JsonView, key: Seq<char>, value: JsonView)
    requires
        object is Object,
    ensures
        forall|other: Seq<char>| #[trigger]
            object.with(key, value).get(other) == match object.get(other) {
                Some(found) => Some(found),
                None => if other == key {
                    Some(value)
                } else {
                    None
                },
            },
{
    assert forall|other: Seq<char>| #[trigger] object.with(key, value).get(other) == match object.get(
        other,
    ) {
        Some(found) => Some(found),
        None => if other == key {
            Some(value)
        } else {
            None
        },
    } by {
        lemma_field_of_pushed(object->Object_0, key, value, other);
    }
}

impl Clone for Json {
    fn clone(&self) -> (copy: Self)
        ensures
            copy@ == self@,
        decreases self,
    {
        match self {
            Json::Null => Json::Null,
            Json::Bool(b) => Json::Bool(*b),
            Json::Number(n) => Json::Number(*n),
            Json::Text(s) => Json::Text(s.clone()),
            Json::Array(items) => {
                let mut out: Vec<Json> = Vec::new();
                let mut i: usize = 0;
                while i < items.len()
                    invariant
                        *self == Json::Array(*items),
                        i <= items@.len(),
                        out@.len() == i,
                        forall|k: int| 0 <= k < i ==> (#[trigger] out@[k])@ == items@[k]@,
                    decreases items@.len() - i,
                {
                    proof {
                        assert(decreases_to!(*self => self->Array_0));
                        assert(decreases_to!(*items => items@));
                        assert(decreases_to!(items@ => items@[i as int]));
                    }
                    out.push(items[i].clone());
                    i += 1;
                }
                let copy = Json::Array(out);
                assert(copy@->Array_0 =~= self@->Array_0);
                copy
            },
            Json::Object(fields) => {
                let mut out: Vec<(String, Json)> = Vec::new();
                let mut i: usize = 0;
                while i < fields.len()
                    invariant
                        *self == Json::Object(*fields),
                        i <= fields@.len(),
                        out@.len() == i,
                        forall|k: int|
                            0 <= k < i ==> (#[trigger] out@[k]).0@ == fields@[k].0@ && out@[k].1@
                                == fields@[k].1@,
                    decreases fields@.len() - i,
                {
                    proof {
                        assert(decreases_to!(*self => self->Object_0));
                        assert(decreases_to!(*fields => fields@));
                        assert(decreases_to!(fields@ => fields@[i as int]));
                        assert(decreases_to!(fields@[i as int] => fields@[i as int].1));
                    }
                    let name = fields[i].0.clone();
                    let value = fields[i].1.clone();
                    out.push((name, value));
                    i += 1;
                }
                let copy = Json::Object(out);
                assert(copy@->Object_0 =~= self@->Object_0);
                copy
            },
        }
    }
}

impl Json {
    /// An object without fields.
    pub fn object() -> (out: Json)
        ensures
            out@ == JsonView::object(),
    {
        let out = Json::Object(Vec::new());
        assert(out@->Object_0 =~= Seq::empty());
        out
    }

    /// This object with one more field.
    pub fn with(self, key: &str, value: Json) -> (out: Json)
        requires
            self@ is Object,
        ensures
            out@ == self@.with(key@, value@),
    {
        match self {
            Json::Object(fields) => {
                let mut fields = fields;
                fields.push((owned(key), value));
                let out = Json::Object(fields);
                assert(out@->Object_0 =~= self@->Object_0.push((key@, value@)));
                out
            },
            other => other,
        }
    }

    /// A text value.
    pub fn text(s: &str) -> (out: Json)
        ensures
            out@ == JsonView::Text(s@),
    {
        Json::Text(owned(s))
    }

    /// A whole number.
    pub fn integer(n: i64) -> (out: Json)
        ensures
            out@ == whole(n as int),
    {
        if n >= 0 {
            Json::Number(Number::Unsigned(n as u64))
        } else {
            Json::Number(Number::Signed(n))
        }
    }

    /// A whole number that is not negative.
    pub fn count(n: u64) -> (out: Json)
        ensures
            out@ == whole(n as int),
    {
        Json::Number(Number::Unsigned(n))
    }

    /// A text value, or null where there is none.
    pub fn optional(s: Option<String>) -> (out: Json)
        ensures
            out@ == text_or_null(
                match s {
                    Some(t) => Some(t@),
                    None => None,
                },
            ),
    {
        match s {
            Some(t) => Json::Text(t),
            None => Json::Null,
        }
    }

    /// A list of values.
    pub fn array(items: Vec<Json>) -> (out: Json)
        ensures
            out@ == JsonView::Array(json_views(items@)),
    {
        let out = Json::Array(items);
        assert(out@->Array_0 =~= json_views(items@));
        out
    }

    /// The field `key`, where this is an object that has one.
    pub fn get(&self, key: &str) -> (found: Option<&Json>)
        ensures
            match found {
                Some(value) => self@.get(key@) == Some(value@),
                None => self@.get(key@) is None,
            },
    {
        match self {
            Json::Object(fields) => {
                let ghost views = self@->Object_0;
                let mut i: usize = 0;
                while i < fields.len()
                    invariant
                        *self == Json::Object(*fields),
                        views == self@->Object_0,
                        i <= fields@.len(),
                        forall|k: int| 0 <= k < i ==> (#[trigger] views[k]).0 != key@,
                    decreases fields@.len() - i,
                {
                    assert(views[i as int] == (fields@[i as int].0@, fields@[i as int].1@));
                    if same_text(fields[i].0.as_str(), key) {
                        proof {
                            lemma_field_of_from(views, key@, i as int);
                            assert(views.subrange(i as int, views.len() as int)[0] == views[i as int]);
                        }
                        return Some(&fields[i].1);
                    }
                    i += 1;
                }
                proof {
                    lemma_field_of_from(views, key@, i as int);
                }
                None
            },
            _ => None,
        }
    }

    /// A copy of the field `key`, or null.
    pub fn pick(&self, key: &str) -> (value: Json)
        ensures
            value@ == self@.pick(key@),
    {
        match self.get(key) {
            Some(value) => value.clone(),
            None => Json::Null,
        }
    }

    /// The item at `index`, where this is an array that has one.
    pub fn item(&self, index: usize) -> (found: Option<&Json>)
        ensures
            match found {
                Some(value) => self@.item(index as int) == Some(value@),
                None => self@.item(index as int) is None,
            },
    {
        match self {
            Json::Array(items) => if index < items.len() {
                Some(&items[index])
            } else {
                None
            },
            _ => None,
        }
    }

    /// A copy of the text, where this is one.
    pub fn as_str(&self) -> (text: Option<String>)
        ensures
            match text {
                Some(s) => self@.as_str() == Some(s@),
                None => self@.as_str() is None,
            },
    {
        match self {
            Json::Text(s) => Some(s.clone()),
            _ => None,
        }
    }

    /// The whole number, where this is one in the range of `i64`.
    pub fn as_i64(&self) -> (n: Option<i64>)
        ensures
            n == self@.as_i64(),
    {
        match self {
            Json::Number(Number::Unsigned(n)) => if *n <= i64::MAX as u64 {
                Some(*n as i64)
            } else {
                None
            },
            Json::Number(Number::Signed(n)) => Some(*n),
            _ => None,
        }
    }

    /// The number, where this is one.
    pub fn as_number(&self) -> (n: Option<Number>)
        ensures
            n == self@.as_number(),
    {
        match self {
            Json::Number(n) => Some(*n),
            _ => None,
        }
    }

    /// Whether this is null.
    pub fn is_null(&self) -> (r: bool)
        ensures
            r == (self@ is Null),
    {
        match self {
            Json::Null => true,
            _ => false,
        }
    }
}

/// A whole number is read back as it was written.
pub proof fn whole_numbers_read_back(n: i64)
    ensures
        whole(n as int).as_i64() == Some(n),
        n >= 0 ==> whole(n as int) == JsonView::Number(Number::Unsigned(n as u64)),
{
}

/// A field that is not there reads as null, and so does every field of what is no object.
pub proof fn missing_fields_read_as_null(value: JsonView, key: Seq<char>)
    ensures
        value.get(key) is None ==> value.pick(key) is Null,
        value.get(key) matches Some(v) ==> value.pick(key) == v,
        !(value is Object) ==> value.get(key) is None,
        value.pick(key).as_str() is Some <==> (value.get(key) matches Some(JsonView::Text(_))),
{
}

/// The first field of a name counts.
pub proof fn the_first_field_of_a_name_counts(
    fields: Seq<(Seq<char>, JsonView)>,
    at: int,
)
    requires
        0 <= at < fields.len(),
        forall|k: int| 0 <= k < at ==> (#[trigger] fields[k]).0 != fields[at].0,
    ensures
        JsonView::Object(fields).get(fields[at].0) == Some(fields[at].1),
{
    lemma_field_of_from(fields, fields[at].0, at);
}

/// Whole numbers are read where they fit, and doubles are not read as whole.
pub proof fn whole_numbers_are_read_where_they_fit(u: u64, i: i64, bits: u64)
    ensures
        JsonView::Number(Number::Unsigned(u)).as_i64() matches Some(n) ==> n == u,
        JsonView::Number(Number::Unsigned(u)).as_i64() is Some <==> u <= 0x7fff_ffff_ffff_ffff,
        JsonView::Number(Number::Signed(i)).as_i64() == Some(i),
        JsonView::Number(Number::Float(bits)).as_i64() is None,
        JsonView::Number(Number::Float(bits)).as_number() == Some(Number::Float(bits)),
        JsonView::Number(Number::Unsigned(u)).as_number() == Some(Number::Unsigned(u)),
        JsonView::Number(Number::Signed(i)).as_number() == Some(Number::Signed(i)),
{
}

} // verus!
