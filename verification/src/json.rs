use vstd::prelude::*;
use crate::text::{chars_of, seq_eq};

verus! {

/// A JSON document. Numbers are kept as their decimal text.
#[derive(Debug)]
pub enum JsonValue {
    Null,
    Bool(bool),
    Number(String),
    Str(String),
    Array(Vec<JsonValue>),
    Object(Vec<(String, JsonValue)>),
}

/// The mathematical value of a JSON document.
pub enum JsonView {
    Null,
    Bool(bool),
    Number(Seq<char>),
    Str(Seq<char>),
    Array(Seq<JsonView>),
    Object(Seq<(Seq<char>, JsonView)>),
}

/// The value of a JSON document.
pub open spec fn json_view(v: JsonValue) -> JsonView
    decreases v, 0nat,
{
    match v {
        JsonValue::Null => JsonView::Null,
        JsonValue::Bool(b) => JsonView::Bool(b),
        JsonValue::Number(n) => JsonView::Number(n@),
        JsonValue::Str(s) => JsonView::Str(s@),
        JsonValue::Array(items) => JsonView::Array(json_views(items@)),
        JsonValue::Object(fields) => JsonView::Object(field_views(fields@)),
    }
}

/// The values of a list of JSON documents.
pub open spec fn json_views(items: Seq<JsonValue>) -> Seq<JsonView>
    decreases items, items.len(),
{
    if items.len() == 0 {
        Seq::empty()
    } else {
        json_views(items.drop_last()).push(json_view(items.last()))
    }
}

/// The values of the members of a JSON object.
pub open spec fn field_views(fields: Seq<(String, JsonValue)>) -> Seq<(Seq<char>, JsonView)>
    decreases fields, fields.len(),
{
    if fields.len() == 0 {
        Seq::empty()
    } else {
        field_views(fields.drop_last()).push((fields.last().0@, json_view(fields.last().1)))
    }
}

impl View for JsonValue {
    type V = JsonView;

    open spec fn view(&self) -> JsonView {
        json_view(*self)
    }
}

/// `json_views` works element by element.
pub proof fn lemma_json_views(items: Seq<JsonValue>)
    ensures
        json_views(items).len() == items.len(),
        forall|i: int| 0 <= i < items.len() ==> #[trigger] json_views(items)[i] == json_view(items[i]),
    decreases items.len(),
{
    if items.len() > 0 {
        lemma_json_views(items.drop_last());
    }
}

/// `field_views` works member by member.
pub proof fn lemma_field_views(fields: Seq<(String, JsonValue)>)
    ensures
        field_views(fields).len() == fields.len(),
        forall|i: int| 0 <= i < fields.len() ==> #[trigger] field_views(fields)[i] == (fields[i].0@, json_view(fields[i].1)),
    decreases fields.len(),
{
    if fields.len() > 0 {
        lemma_field_views(fields.drop_last());
    }
}

/// The value stored under `key` among `fields` (the first one, if the key repeats).
pub open spec fn field_of(fields: Seq<(Seq<char>, JsonView)>, key: Seq<char>) -> Option<JsonView>
    decreases fields.len(),
{
    if fields.len() == 0 {
        None
    } else if fields[0].0 == key {
        Some(fields[0].1)
    } else {
        field_of(fields.drop_first(), key)
    }
}

impl JsonView {
    /// The text of a JSON string, if this is one.
    pub open spec fn str_view(self) -> Option<Seq<char>> {
        match self {
            JsonView::Str(s) => Some(s),
            _ => None,
        }
    }

    /// The member `key` of a JSON object; `None` for a missing key or a non-object.
    pub open spec fn get(self, key: Seq<char>) -> Option<JsonView> {
        match self {
            JsonView::Object(fields) => field_of(fields, key),
            _ => None,
        }
    }

    /// The text of the string member `key`, if there is one.
    pub open spec fn get_str(self, key: Seq<char>) -> Option<Seq<char>> {
        match self.get(key) {
            Some(v) => v.str_view(),
            None => None,
        }
    }

    /// Whether `key` names a member of this object.
    pub open spec fn has_key(self, key: Seq<char>) -> bool {
        self.get(key) is Some
    }
}

impl JsonValue {
    /// Looks up the text of the string member `key`.
    pub fn get_str(&self, key: &str) -> (r: Option<String>)
        ensures
            r matches Some(s) ==> self@.get_str(key@) == Some(s@),
            r is None ==> self@.get_str(key@) is None,
    {
        match self {
            JsonValue::Object(fields) => {
                let k = chars_of(key);
                let n = fields.len();
                let ghost fv = field_views(fields@);
                proof {
                    lemma_field_views(fields@);
                    assert(fv.skip(0) == fv);
                }
                for i in 0..n
                    invariant
                        n == fields@.len(),
                        k@ == key@,
                        fv == field_views(fields@),
                        fv.len() == n,
                        forall|j: int| 0 <= j < n ==> #[trigger] fv[j] == (fields@[j].0@, json_view(fields@[j].1)),
                        self@.get(key@) == field_of(fv.skip(i as int), key@),
                {
                    proof {
                        assert(fv.skip(i as int).drop_first() == fv.skip(i + 1));
                        assert(fv.skip(i as int)[0] == fv[i as int]);
                    }
                    let name = chars_of(fields[i].0.as_str());
                    if seq_eq(&name, &k) {
                        return match &fields[i].1 {
                            JsonValue::Str(s) => Some(s.clone()),
                            _ => None,
                        };
                    }
                }
                None
            },
            _ => None,
        }
    }
}

/// `fields` without any member named `key`.
pub open spec fn without_field(fields: Seq<(Seq<char>, JsonView)>, key: Seq<char>) -> Seq<(Seq<char>, JsonView)> {
    fields.filter(not_named(key))
}

/// The test that keeps the members not named `key`.
pub open spec fn not_named(key: Seq<char>) -> spec_fn((Seq<char>, JsonView)) -> bool {
    |f: (Seq<char>, JsonView)| f.0 != key
}

/// A JSON value without any member named `key` (values other than objects are unchanged).
pub open spec fn json_without(v: JsonView, key: Seq<char>) -> JsonView {
    match v {
        JsonView::Object(fields) => JsonView::Object(without_field(fields, key)),
        _ => v,
    }
}

proof fn lemma_filter_push<A>(s: Seq<A>, x: A, pred: spec_fn(A) -> bool)
    ensures
        s.push(x).filter(pred) == if pred(x) {
            s.filter(pred).push(x)
        } else {
            s.filter(pred)
        },
{
    reveal(Seq::filter);
    assert(s.push(x).drop_last() == s);
}

proof fn lemma_field_of_push_absent(fields: Seq<(Seq<char>, JsonView)>, f: (Seq<char>, JsonView), key: Seq<char>)
    requires
        field_of(fields, key) is None,
        f.0 != key,
    ensures
        field_of(fields.push(f), key) is None,
    decreases fields.len(),
{
    if fields.len() > 0 {
        assert(fields.push(f).drop_first() == fields.drop_first().push(f));
        lemma_field_of_push_absent(fields.drop_first(), f, key);
    } else {
        assert(fields.push(f).drop_first() == fields);
    }
}

proof fn lemma_field_of_filter(fields: Seq<(Seq<char>, JsonView)>, key: Seq<char>)
    ensures
        field_of(without_field(fields, key), key) is None,
    decreases fields.len(),
{
    reveal(Seq::filter);
    let pred = not_named(key);
    if fields.len() > 0 {
        lemma_field_of_filter(fields.drop_last(), key);
        let rest = fields.drop_last().filter(pred);
        assert(fields.drop_last().push(fields.last()) == fields);
        lemma_filter_push(fields.drop_last(), fields.last(), pred);
        if pred(fields.last()) {
            lemma_field_of_push_absent(rest, fields.last(), key);
        }
    } else {
        assert(fields.filter(pred).len() == 0);
    }
}

/// Removes every member named `key` from an object; other values are returned unchanged.
pub fn remove_key(value: JsonValue, key: &str) -> (r: JsonValue)
    ensures
        r@ == json_without(value@, key@),
        !r@.has_key(key@),
{
    match value {
        JsonValue::Object(fields) => {
            let k = chars_of(key);
            let ghost pred = not_named(key@);
            let ghost all = fields@;
            let mut out: Vec<(String, JsonValue)> = Vec::new();
            for f in it: fields.into_iter()
                invariant
                    k@ == key@,
                    pred == not_named(key@),
                    it.seq() == all,
                    field_views(out@) == field_views(all.take(it.index() as int)).filter(pred),
            {
                let ghost idx = it.index();
                let ghost prev = all.take(idx as int);
                proof {
                    assert(f == all[idx as int]);
                    assert(all.take(idx + 1) == prev.push(f));
                    assert(all.take(idx + 1).drop_last() == prev);
                    lemma_filter_push(field_views(prev), (f.0@, json_view(f.1)), pred);
                }
                let name = chars_of(f.0.as_str());
                if !seq_eq(&name, &k) {
                    let ghost before = out@;
                    out.push(f);
                    assert(out@.drop_last() == before);
                }
            }
            proof {
                assert(all.take(all.len() as int) == all);
                lemma_field_of_filter(field_views(all), key@);
            }
            JsonValue::Object(out)
        },
        other => other,
    }
}

/// A copy of a JSON value.
pub fn clone_json(v: &JsonValue) -> (r: JsonValue)
    ensures
        r@ == v@,
    decreases v,
{
    match v {
        JsonValue::Null => JsonValue::Null,
        JsonValue::Bool(b) => JsonValue::Bool(*b),
        JsonValue::Number(n) => JsonValue::Number(n.clone()),
        JsonValue::Str(s) => JsonValue::Str(s.clone()),
        JsonValue::Array(items) => {
            let mut out: Vec<JsonValue> = Vec::new();
            let n = items.len();
            for i in 0..n
                invariant
                    n == items@.len(),
                    *v == JsonValue::Array(*items),
                    json_views(out@) == json_views(items@.take(i as int)),
            {
                assert(decreases_to!(*v => (*v)->Array_0));
                assert(decreases_to!(*items => items[i as int]));
                assert(decreases_to!(*v => items[i as int]));
                let c = clone_json(&items[i]);
                let ghost before = out@;
                out.push(c);
                proof {
                    assert(out@.drop_last() == before);
                    assert(items@.take(i + 1).drop_last() == items@.take(i as int));
                }
            }
            assert(items@.take(n as int) == items@);
            JsonValue::Array(out)
        },
        JsonValue::Object(fields) => {
            let mut out: Vec<(String, JsonValue)> = Vec::new();
            let n = fields.len();
            for i in 0..n
                invariant
                    n == fields@.len(),
                    *v == JsonValue::Object(*fields),
                    field_views(out@) == field_views(fields@.take(i as int)),
            {
                assert(decreases_to!(*v => (*v)->Object_0));
                assert(decreases_to!(*fields => fields[i as int]));
                assert(decreases_to!(fields[i as int] => fields[i as int].1));
                assert(decreases_to!(*v => fields[i as int].1));
                let c = clone_json(&fields[i].1);
                let f = (fields[i].0.clone(), c);
                let ghost before = out@;
                out.push(f);
                proof {
                    assert(out@.drop_last() == before);
                    assert(fields@.take(i + 1).drop_last() == fields@.take(i as int));
                }
            }
            assert(fields@.take(n as int) == fields@);
            JsonValue::Object(out)
        },
    }
}

/// A JSON object with the given members, in order.
pub fn object(fields: Vec<(String, JsonValue)>) -> (r: JsonValue)
    ensures
        r@ == JsonView::Object(field_views(fields@)),
{
    JsonValue::Object(fields)
}

/// A JSON string.
pub fn string_json(s: &str) -> (r: JsonValue)
    ensures
        r@ == JsonView::Str(s@),
{
    JsonValue::Str(s.to_owned())
}

/// A JSON number, written in decimal.
pub fn number_json(n: u64) -> (r: JsonValue)
    ensures
        r@ == JsonView::Number(crate::text::decimal(n as nat)),
{
    JsonValue::Number(crate::text::u64_to_decimal(n))
}

/// A member of a JSON object.
pub fn member(key: &str, value: JsonValue) -> (r: (String, JsonValue))
    ensures
        r.0@ == key@,
        r.1 == value,
{
    (key.to_owned(), value)
}

} // verus!

verus! {

/// Filtering a sequence with one more element.
pub proof fn lemma_filter_push_pub<A>(s: Seq<A>, x: A, pred: spec_fn(A) -> bool)
    ensures
        s.push(x).filter(pred) == if pred(x) {
            s.filter(pred).push(x)
        } else {
            s.filter(pred)
        },
{
    lemma_filter_push(s, x, pred);
}

} // verus!
