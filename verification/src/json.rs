use vstd::prelude::*;

use crate::order::text_equal;

verus! {

/// A JSON value as the keymap logic sees it.
///
/// Numbers are held as their JSON text. An object is a list of entries; when a
/// key occurs more than once, the first entry with that key is the one that
/// counts. `Raw` holds JSON text that is spliced into the document as it
/// stands (the arguments of an action).
#[derive(Debug, PartialEq)]
pub enum Json {
    Null,
    Bool(bool),
    Number(String),
    Str(String),
    Array(Vec<Json>),
    Object(Vec<(String, Json)>),
    Raw(String),
}

/// The mathematical value of a [`Json`]: texts become character sequences.
pub enum JsonView {
    Null,
    Bool(bool),
    Number(Seq<char>),
    Str(Seq<char>),
    Array(Seq<JsonView>),
    Object(Seq<(Seq<char>, JsonView)>),
    Raw(Seq<char>),
}

pub open spec fn json_view(j: Json) -> JsonView
    decreases j,
{
    match j {
        Json::Null => JsonView::Null,
        Json::Bool(b) => JsonView::Bool(b),
        Json::Number(t) => JsonView::Number(t@),
        Json::Str(t) => JsonView::Str(t@),
        Json::Array(items) => JsonView::Array(
            Seq::new(
                items@.len(),
                |i: int|
                    if 0 <= i < items@.len() {
                        json_view(items@[i])
                    } else {
                        JsonView::Null
                    },
            ),
        ),
        Json::Object(entries) => JsonView::Object(
            Seq::new(
                entries@.len(),
                |i: int|
                    if 0 <= i < entries@.len() {
                        (entries@[i].0@, json_view(entries@[i].1))
                    } else {
                        (Seq::empty(), JsonView::Null)
                    },
            ),
        ),
        Json::Raw(t) => JsonView::Raw(t@),
    }
}

impl View for Json {
    type V = JsonView;

    open spec fn view(&self) -> JsonView {
        json_view(*self)
    }
}

/// The views of a list of values.
pub open spec fn views(s: Seq<Json>) -> Seq<JsonView> {
    s.map_values(|j: Json| j@)
}

/// The value of the first entry whose key is `key`, if any.
pub open spec fn lookup(entries: Seq<(Seq<char>, JsonView)>, key: Seq<char>) -> Option<JsonView>
    decreases entries.len(),
{
    if entries.len() == 0 {
        None
    } else if entries[0].0 == key {
        Some(entries[0].1)
    } else {
        lookup(entries.drop_first(), key)
    }
}

/// The entries of an object's view, one by one.
pub proof fn lemma_object_view(entries: Vec<(String, Json)>)
    ensures
        Json::Object(entries)@ matches JsonView::Object(es) && es.len() == entries@.len() && (
        forall|i: int|
            0 <= i < entries@.len() ==> #[trigger] es[i] == (entries@[i].0@, entries@[i].1@)),
{
}

/// The items of an array's view, one by one.
pub proof fn lemma_array_view(items: Vec<Json>)
    ensures
        Json::Array(items)@ == JsonView::Array(views(items@)),
{
    let s = Seq::new(
        items@.len(),
        |i: int|
            if 0 <= i < items@.len() {
                json_view(items@[i])
            } else {
                JsonView::Null
            },
    );
    assert forall|i: int| 0 <= i < items@.len() implies s[i] == views(items@)[i] by {
        assert(views(items@)[i] == items@[i]@);
    }
    assert(s =~= views(items@));
    let v = Json::Array(items)@;
    if let JsonView::Array(s2) = v {
        assert forall|i: int| 0 <= i < items@.len() implies s2[i] == views(items@)[i] by {
            assert(views(items@)[i] == items@[i]@);
        }
        assert(s2 =~= views(items@));
    }
}

impl Json {
    /// A copy of the value, item by item.
    pub fn deep_copy(&self) -> (r: Json)
        ensures
            r@ == self@,
        decreases self,
    {
        match self {
            Json::Null => Json::Null,
            Json::Bool(b) => Json::Bool(*b),
            Json::Number(t) => Json::Number(t.clone()),
            Json::Str(t) => Json::Str(t.clone()),
            Json::Raw(t) => Json::Raw(t.clone()),
            Json::Array(items) => {
                let mut out: Vec<Json> = Vec::new();
                let mut i: usize = 0;
                while i < items.len()
                    invariant
                        *self == Json::Array(*items),
                        i <= items@.len(),
                        views(out@) == views(items@).take(i as int),
                    decreases items@.len() - i,
                {
                    proof {
                        assert(decreases_to!(*self => self->Array_0));
                        assert(decreases_to!(*items => items@));
                        assert(decreases_to!(items@ => items@[i as int]));
                        assert(decreases_to!(*self => items@[i as int]));
                    }
                    let c = items[i].deep_copy();
                    let ghost before = out@;
                    out.push(c);
                    assert(views(out@) =~= views(before).push(c@));
                    assert(views(items@).take(i + 1) =~= views(items@).take(i as int).push(items@[i as int]@));
                    i += 1;
                }
                proof {
                    lemma_array_view(*items);
                    lemma_array_view(out);
                    assert(views(items@).take(i as int) =~= views(items@));
                }
                Json::Array(out)
            },
            Json::Object(entries) => {
                let mut out: Vec<(String, Json)> = Vec::new();
                let mut i: usize = 0;
                while i < entries.len()
                    invariant
                        *self == Json::Object(*entries),
                        i <= entries@.len(),
                        out@.len() == i,
                        forall|j: int|
                            0 <= j < i ==> #[trigger] out@[j].0@ == entries@[j].0@ && out@[j].1@
                                == entries@[j].1@,
                    decreases entries@.len() - i,
                {
                    let k = entries[i].0.clone();
                    proof {
                        assert(decreases_to!(*self => self->Object_0));
                        assert(decreases_to!(*entries => entries@));
                        assert(decreases_to!(entries@ => entries@[i as int]));
                        assert(decreases_to!(entries@[i as int] => entries@[i as int].1));
                        assert(decreases_to!(*self => entries@[i as int].1));
                    }
                    let v = entries[i].1.deep_copy();
                    out.push((k, v));
                    i += 1;
                }
                proof {
                    lemma_object_view(*entries);
                    lemma_object_view(out);
                    let a = Json::Object(out)@;
                    let b = self@;
                    if let JsonView::Object(ea) = a {
                        if let JsonView::Object(eb) = b {
                            assert(ea =~= eb);
                        }
                    }
                }
                Json::Object(out)
            },
        }
    }

    /// Whether the value is an array.
    pub fn is_array(&self) -> (r: bool)
        ensures
            r == (self@ is Array),
    {
        match self {
            Json::Array(_) => true,
            _ => false,
        }
    }

    /// The items of an array, or `None` for any other value.
    pub fn as_array(&self) -> (r: Option<&Vec<Json>>)
        ensures
            match self@ {
                JsonView::Array(items) => r matches Some(v) && views(v@) == items,
                _ => r is None,
            },
    {
        match self {
            Json::Array(items) => {
                proof {
                    lemma_array_view(*items);
                }
                Some(items)
            },
            _ => None,
        }
    }

    /// The entries of an object, or `None` for any other value.
    pub fn as_object(&self) -> (r: Option<&Vec<(String, Json)>>)
        ensures
            self@ is Object <==> r is Some,
            r matches Some(es) ==> *self == Json::Object(*es),
    {
        match self {
            Json::Object(entries) => Some(entries),
            _ => None,
        }
    }

    /// The text of a string value, or `None` for any other value.
    pub fn as_str(&self) -> (r: Option<&str>)
        ensures
            match self@ {
                JsonView::Str(t) => r matches Some(s) && s@ == t,
                _ => r is None,
            },
    {
        match self {
            Json::Str(t) => Some(t.as_str()),
            _ => None,
        }
    }

    /// The JSON text of a number, or `None` for any other value.
    pub fn as_number_text(&self) -> (r: Option<&str>)
        ensures
            match self@ {
                JsonView::Number(t) => r matches Some(s) && s@ == t,
                _ => r is None,
            },
    {
        match self {
            Json::Number(t) => Some(t.as_str()),
            _ => None,
        }
    }

    /// The value of the first entry with the given key, when the value is an
    /// object that has one; `None` otherwise.
    pub fn get(&self, key: &str) -> (r: Option<&Json>)
        ensures
            match self@ {
                JsonView::Object(es) => match lookup(es, key@) {
                    Some(v) => r matches Some(x) && x@ == v,
                    None => r is None,
                },
                _ => r is None,
            },
    {
        match self {
            Json::Object(entries) => {
                let ghost es = match self@ {
                    JsonView::Object(es) => es,
                    _ => Seq::empty(),
                };
                proof {
                    lemma_object_view(*entries);
                    assert(es.skip(0) =~= es);
                }
                let mut i: usize = 0;
                while i < entries.len()
                    invariant
                        i <= entries@.len(),
                        es.len() == entries@.len(),
                        forall|j: int|
                            0 <= j < entries@.len() ==> #[trigger] es[j] == (
                            entries@[j].0@,
                            entries@[j].1@,
                        ),
                        lookup(es.skip(i as int), key@) == lookup(es, key@),
                        self@ == JsonView::Object(es),
                    decreases entries@.len() - i,
                {
                    assert(es.skip(i as int)[0] == es[i as int]);
                    assert(es[i as int] == (entries@[i as int].0@, entries@[i as int].1@));
                    if text_equal(entries[i].0.as_str(), key) {
                        assert(lookup(es.skip(i as int), key@) == Some(entries@[i as int].1@));
                        assert(self@ == JsonView::Object(es));
                        assert(lookup(es, key@) == Some(entries@[i as int].1@));
                        return Some(&entries[i].1);
                    }
                    assert(es.skip(i as int).drop_first() =~= es.skip(i + 1));
                    i += 1;
                }
                None
            },
            _ => None,
        }
    }
}

} // verus!
