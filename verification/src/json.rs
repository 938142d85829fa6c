//! A JSON document value, its mathematical model, and the navigation and
//! construction operations the inventory logic uses.
use vstd::prelude::*;
use vstd::string::*;

use crate::text::{push_char, str_eq};

verus! {

/// A JSON value. Numbers keep the exact text they were written with; object
/// members keep the order in which they were written or inserted.
#[derive(Debug)]
pub enum JsonValue {
    Null,
    Bool(bool),
    Number(String),
    Str(String),
    Array(Vec<JsonValue>),
    Object(Vec<(String, JsonValue)>),
}

/// The mathematical model of a JSON value.
pub enum Json {
    Null,
    Bool(bool),
    Number(Seq<char>),
    Str(Seq<char>),
    Array(Seq<Json>),
    Object(Seq<(Seq<char>, Json)>),
}

/// The model of a JSON value.
pub open spec fn json_view(v: JsonValue) -> Json
    decreases v,
{
    match v {
        JsonValue::Null => Json::Null,
        JsonValue::Bool(b) => Json::Bool(b),
        JsonValue::Number(n) => Json::Number(n@),
        JsonValue::Str(s) => Json::Str(s@),
        JsonValue::Array(items) => Json::Array(items_view(items@)),
        JsonValue::Object(entries) => Json::Object(entries_view(entries@)),
    }
}

/// The models of a sequence of JSON values.
pub open spec fn items_view(items: Seq<JsonValue>) -> Seq<Json>
    decreases items,
{
    if items.len() == 0 {
        Seq::empty()
    } else {
        items_view(items.drop_last()).push(json_view(items.last()))
    }
}

/// The models of a sequence of object members.
pub open spec fn entries_view(entries: Seq<(String, JsonValue)>) -> Seq<(Seq<char>, Json)>
    decreases entries,
{
    if entries.len() == 0 {
        Seq::empty()
    } else {
        entries_view(entries.drop_last()).push(
            (entries.last().0@, json_view(entries.last().1)),
        )
    }
}

impl View for JsonValue {
    type V = Json;

    open spec fn view(&self) -> Json {
        json_view(*self)
    }
}

/// `items_view(s)` has one model per element of `s`.
pub broadcast proof fn lemma_items_view_len(s: Seq<JsonValue>)
    ensures
        #[trigger] items_view(s).len() == s.len(),
    decreases s.len(),
{
    if s.len() > 0 {
        lemma_items_view_len(s.drop_last());
    }
}

/// Each element of `items_view(s)` is the model of the element of `s` at the same index.
pub broadcast proof fn lemma_items_view_index(s: Seq<JsonValue>, i: int)
    requires
        0 <= i < s.len(),
    ensures
        #[trigger] items_view(s)[i] == json_view(s[i]),
    decreases s.len(),
{
    lemma_items_view_len(s.drop_last());
    if i < s.len() - 1 {
        lemma_items_view_index(s.drop_last(), i);
        assert(s.drop_last()[i] == s[i]);
    }
}

/// `entries_view(s)` has one model per member of `s`.
pub broadcast proof fn lemma_entries_view_len(s: Seq<(String, JsonValue)>)
    ensures
        #[trigger] entries_view(s).len() == s.len(),
    decreases s.len(),
{
    if s.len() > 0 {
        lemma_entries_view_len(s.drop_last());
    }
}

/// Each element of `entries_view(s)` is the model of the member of `s` at the same index.
pub broadcast proof fn lemma_entries_view_index(s: Seq<(String, JsonValue)>, i: int)
    requires
        0 <= i < s.len(),
    ensures
        #[trigger] entries_view(s)[i] == (s[i].0@, json_view(s[i].1)),
    decreases s.len(),
{
    lemma_entries_view_len(s.drop_last());
    if i < s.len() - 1 {
        lemma_entries_view_index(s.drop_last(), i);
        assert(s.drop_last()[i] == s[i]);
    }
}

pub broadcast group group_json_view {
    lemma_items_view_len,
    lemma_items_view_index,
    lemma_entries_view_len,
    lemma_entries_view_index,
}

/// The value of the first member of `entries` whose key is `key`.
pub open spec fn lookup(entries: Seq<(Seq<char>, Json)>, key: Seq<char>) -> Option<Json>
    decreases entries.len(),
{
    if entries.len() == 0 {
        None
    } else if entries[0].0 == key {
        Some(entries[0].1)
    } else {
        lookup(entries.drop_first(), key)
    }
}

/// The member `key` of an object; `None` for anything else or a missing key.
pub open spec fn json_get(j: Json, key: Seq<char>) -> Option<Json> {
    match j {
        Json::Object(entries) => lookup(entries, key),
        _ => None,
    }
}

/// Follows a path of object keys from `j`.
pub open spec fn json_pointer(j: Json, path: Seq<Seq<char>>) -> Option<Json>
    decreases path.len(),
{
    if path.len() == 0 {
        Some(j)
    } else {
        match json_get(j, path[0]) {
            Some(next) => json_pointer(next, path.drop_first()),
            None => None,
        }
    }
}

/// The text of a JSON string value.
pub open spec fn json_str(j: Option<Json>) -> Option<Seq<char>> {
    match j {
        Some(Json::Str(s)) => Some(s),
        _ => None,
    }
}

/// The value of a JSON boolean.
pub open spec fn json_bool(j: Option<Json>) -> Option<bool> {
    match j {
        Some(Json::Bool(b)) => Some(b),
        _ => None,
    }
}

/// The elements of a JSON array.
pub open spec fn json_array(j: Option<Json>) -> Option<Seq<Json>> {
    match j {
        Some(Json::Array(items)) => Some(items),
        _ => None,
    }
}

/// The members of a JSON object.
pub open spec fn json_members(j: Option<Json>) -> Option<Seq<(Seq<char>, Json)>> {
    match j {
        Some(Json::Object(entries)) => Some(entries),
        _ => None,
    }
}

/// `j` itself, or JSON null when absent.
pub open spec fn or_null(j: Option<Json>) -> Json {
    match j {
        Some(v) => v,
        None => Json::Null,
    }
}

pub proof fn lemma_lookup_found(entries: Seq<(Seq<char>, Json)>, key: Seq<char>, i: int)
    requires
        0 <= i < entries.len(),
        entries[i].0 == key,
        forall|j: int| 0 <= j < i ==> entries[j].0 != key,
    ensures
        lookup(entries, key) == Some(entries[i].1),
    decreases i,
{
    if i > 0 {
        let t = entries.drop_first();
        assert forall|j: int| 0 <= j < i - 1 implies t[j].0 != key by {
            assert(t[j] == entries[j + 1]);
        }
        lemma_lookup_found(t, key, i - 1);
    }
}

pub proof fn lemma_lookup_missing(entries: Seq<(Seq<char>, Json)>, key: Seq<char>)
    requires
        forall|j: int| 0 <= j < entries.len() ==> entries[j].0 != key,
    ensures
        lookup(entries, key) == None::<Json>,
    decreases entries.len(),
{
    if entries.len() > 0 {
        let t = entries.drop_first();
        assert forall|j: int| 0 <= j < t.len() implies t[j].0 != key by {
            assert(t[j] == entries[j + 1]);
        }
        lemma_lookup_missing(t, key);
    }
}

/// The index of the first member of `entries` with key `key`.
pub fn find_member(entries: &Vec<(String, JsonValue)>, key: &str) -> (r: Option<usize>)
    ensures
        match r {
            Some(i) => i < entries@.len() && entries@[i as int].0@ == key@ && forall|j: int|
                0 <= j < i ==> entries@[j].0@ != key@,
            None => forall|j: int| 0 <= j < entries@.len() ==> entries@[j].0@ != key@,
        },
{
    let mut i: usize = 0;
    while i < entries.len()
        invariant
            i <= entries@.len(),
            forall|j: int| 0 <= j < i ==> entries@[j].0@ != key@,
        decreases entries@.len() - i,
    {
        if str_eq(entries[i].0.as_str(), key) {
            return Some(i);
        }
        i += 1;
    }
    None
}

impl JsonValue {
    /// The member `key` of this value when it is an object.
    pub fn get(&self, key: &str) -> (r: Option<&JsonValue>)
        ensures
            match r {
                Some(v) => json_get(self@, key@) == Some(v@),
                None => json_get(self@, key@) is None,
            },
    {
        broadcast use group_json_view;

            match self {
            JsonValue::Object(entries) => {
                let found = find_member(entries, key);
                proof {
                    let ev = entries_view(entries@);
                    match found {
                        Some(i) => {
                            assert forall|j: int| 0 <= j < i implies ev[j].0 != key@ by {
                                assert(ev[j].0 == entries@[j].0@);
                            }
                            lemma_lookup_found(ev, key@, i as int);
                        },
                        None => {
                            assert forall|j: int| 0 <= j < ev.len() implies ev[j].0 != key@ by {
                                assert(ev[j].0 == entries@[j].0@);
                            }
                            lemma_lookup_missing(ev, key@);
                        },
                    }
                }
                match found {
                    Some(i) => Some(&entries[i].1),
                    None => None,
                }
            },
            _ => None,
        }
    }

    /// The text of this value when it is a string.
    pub fn as_str(&self) -> (r: Option<&String>)
        ensures
            match r {
                Some(s) => self@ == Json::Str(s@),
                None => !(self@ is Str),
            },
    {
        match self {
            JsonValue::Str(s) => Some(s),
            _ => None,
        }
    }

    /// The value of this value when it is a boolean.
    pub fn as_bool(&self) -> (r: Option<bool>)
        ensures
            r == json_bool(Some(self@)),
    {
        match self {
            JsonValue::Bool(b) => Some(*b),
            _ => None,
        }
    }

    /// The elements of this value when it is an array.
    pub fn as_array(&self) -> (r: Option<&Vec<JsonValue>>)
        ensures
            match r {
                Some(items) => self@ == Json::Array(items_view(items@)),
                None => !(self@ is Array),
            },
    {
        match self {
            JsonValue::Array(items) => Some(items),
            _ => None,
        }
    }

    /// The members of this value when it is an object.
    pub fn as_object(&self) -> (r: Option<&Vec<(String, JsonValue)>>)
        ensures
            match r {
                Some(entries) => self@ == Json::Object(entries_view(entries@)),
                None => !(self@ is Object),
            },
    {
        match self {
            JsonValue::Object(entries) => Some(entries),
            _ => None,
        }
    }

    /// Whether this value is JSON null.
    pub fn is_null(&self) -> (r: bool)
        ensures
            r == (self@ is Null),
    {
        match self {
            JsonValue::Null => true,
            _ => false,
        }
    }

    /// Follows a path of object keys from this value.
    pub fn pointer(&self, path: &[&str]) -> (r: Option<&JsonValue>)
        ensures
            match r {
                Some(v) => json_pointer(self@, path@.map_values(|p: &str| p@)) == Some(v@),
                None => json_pointer(self@, path@.map_values(|p: &str| p@)) is None,
            },
    {
        let ghost keys = path@.map_values(|p: &str| p@);
        let mut current: &JsonValue = self;
        let mut i: usize = 0;
        assert(keys.subrange(0, keys.len() as int) =~= keys);
        while i < path.len()
            invariant
                i <= path@.len(),
                keys == path@.map_values(|p: &str| p@),
                json_pointer(self@, keys) == json_pointer(current@, keys.subrange(i as int, keys.len() as int)),
            decreases path@.len() - i,
        {
            let ghost rest = keys.subrange(i as int, keys.len() as int);
            assert(rest.drop_first() =~= keys.subrange(i + 1, keys.len() as int));
            assert(rest[0] == path@[i as int]@);
            match current.get(path[i]) {
                Some(next) => {
                    current = next;
                },
                None => {
                    return None;
                },
            }
            i += 1;
        }
        assert(keys.subrange(i as int, keys.len() as int) =~= Seq::<Seq<char>>::empty());
        Some(current)
    }

    /// The text of the member `key` when it is a string.
    pub fn get_str(&self, key: &str) -> (r: Option<&String>)
        ensures
            match r {
                Some(s) => json_str(json_get(self@, key@)) == Some(s@),
                None => json_str(json_get(self@, key@)) is None,
            },
    {
        match self.get(key) {
            Some(v) => v.as_str(),
            None => None,
        }
    }

    /// The text at a path when it is a string.
    pub fn pointer_str(&self, path: &[&str]) -> (r: Option<&String>)
        ensures
            match r {
                Some(s) => json_str(json_pointer(self@, path@.map_values(|p: &str| p@))) == Some(
                    s@,
                ),
                None => json_str(json_pointer(self@, path@.map_values(|p: &str| p@))) is None,
            },
    {
        match self.pointer(path) {
            Some(v) => v.as_str(),
            None => None,
        }
    }
}

/// A copy of a JSON value.
pub fn clone_json(v: &JsonValue) -> (r: JsonValue)
    ensures
        r@ == v@,
    decreases v,
{
    broadcast use group_json_view;

    match v {
        JsonValue::Null => JsonValue::Null,
        JsonValue::Bool(b) => JsonValue::Bool(*b),
        JsonValue::Number(n) => JsonValue::Number(n.clone()),
        JsonValue::Str(s) => JsonValue::Str(s.clone()),
        JsonValue::Array(items) => {
            let mut out: Vec<JsonValue> = Vec::new();
            let mut i: usize = 0;
            while i < items.len()
                invariant
                    *v == JsonValue::Array(*items),
                    i <= items@.len(),
                    out@.len() == i,
                    forall|j: int| 0 <= j < i ==> json_view(#[trigger] out@[j]) == json_view(items@[j]),
                decreases items@.len() - i,
            {
                assert(decreases_to!(items => items@));
                assert(decreases_to!(items@ => items@[i as int]));
                assert(decreases_to!(*v => (*v)->Array_0));
                let c = clone_json(&items[i]);
                out.push(c);
                i += 1;
            }
            assert(items_view(out@) =~= items_view(items@));
            JsonValue::Array(out)
        },
        JsonValue::Object(entries) => {
            let mut out: Vec<(String, JsonValue)> = Vec::new();
            let mut i: usize = 0;
            while i < entries.len()
                invariant
                    *v == JsonValue::Object(*entries),
                    i <= entries@.len(),
                    out@.len() == i,
                    forall|j: int|
                        0 <= j < i ==> (#[trigger] out@[j]).0@ == entries@[j].0@ && json_view(
                            out@[j].1,
                        ) == json_view(entries@[j].1),
                decreases entries@.len() - i,
            {
                assert(decreases_to!(entries => entries@));
                assert(decreases_to!(entries@ => entries@[i as int]));
                assert(decreases_to!(entries@[i as int] => entries@[i as int].1));
                assert(decreases_to!(*v => (*v)->Object_0));
                let c = clone_json(&entries[i].1);
                out.push((entries[i].0.clone(), c));
                i += 1;
            }
            assert(entries_view(out@) =~= entries_view(entries@));
            JsonValue::Object(out)
        },
    }
}

impl Clone for JsonValue {
    /// A copy with the same model.
    fn clone(&self) -> (r: Self)
        ensures
            r@ == self@,
    {
        clone_json(self)
    }
}

/// A copy of a list of object members.
pub fn clone_entries(entries: &Vec<(String, JsonValue)>) -> (r: Vec<(String, JsonValue)>)
    ensures
        entries_view(r@) == entries_view(entries@),
{
    broadcast use group_json_view;

    let mut out: Vec<(String, JsonValue)> = Vec::new();
    let mut i: usize = 0;
    while i < entries.len()
        invariant
            i <= entries@.len(),
            out@.len() == i,
            forall|j: int|
                0 <= j < i ==> (#[trigger] out@[j]).0@ == entries@[j].0@ && out@[j].1@
                    == entries@[j].1@,
        decreases entries@.len() - i,
    {
        out.push((entries[i].0.clone(), clone_json(&entries[i].1)));
        i += 1;
    }
    assert(entries_view(out@) =~= entries_view(entries@));
    out
}

/// A copy of a list of strings.
pub fn clone_strings(v: &Vec<String>) -> (r: Vec<String>)
    ensures
        r.deep_view() == v.deep_view(),
{
    let mut out: Vec<String> = Vec::new();
    let mut i: usize = 0;
    while i < v.len()
        invariant
            i <= v@.len(),
            out@.len() == i,
            forall|j: int| 0 <= j < i ==> #[trigger] out@[j]@ == v@[j]@,
        decreases v@.len() - i,
    {
        out.push(v[i].clone());
        i += 1;
    }
    assert(out.deep_view() =~= v.deep_view());
    out
}

/// A JSON string holding a copy of `s`.
pub fn json_string(s: &str) -> (r: JsonValue)
    ensures
        r@ == Json::Str(s@),
{
    JsonValue::Str(s.to_owned())
}

/// A JSON string for `Some(s)`, JSON null for `None`.
pub fn json_opt_string(s: Option<&String>) -> (r: JsonValue)
    ensures
        r@ == (match s {
            Some(t) => Json::Str(t@),
            None => Json::Null,
        }),
{
    match s {
        Some(t) => JsonValue::Str(t.clone()),
        None => JsonValue::Null,
    }
}

/// A JSON array of strings.
pub fn json_string_array(items: &Vec<String>) -> (r: JsonValue)
    ensures
        r@ == Json::Array(Seq::new(items@.len(), |i: int| Json::Str(items@[i]@))),
{
    broadcast use group_json_view;

    let mut out: Vec<JsonValue> = Vec::new();
    let mut i: usize = 0;
    while i < items.len()
        invariant
            i <= items@.len(),
            out@.len() == i,
            forall|j: int| 0 <= j < i ==> json_view(#[trigger] out@[j]) == Json::Str(items@[j]@),
        decreases items@.len() - i,
    {
        out.push(JsonValue::Str(items[i].clone()));
        i += 1;
    }
    assert(items_view(out@) =~= Seq::new(items@.len(), |i: int| Json::Str(items@[i]@)));
    JsonValue::Array(out)
}

/// Whether the member `field` of `value` is an array holding the string `needle`.
pub open spec fn array_contains_spec(value: Json, field: Seq<char>, needle: Seq<char>) -> bool {
    match json_array(json_get(value, field)) {
        Some(items) => exists|i: int| 0 <= i < items.len() && items[i] == Json::Str(needle),
        None => false,
    }
}

/// Whether the member `field` of `value` is an array holding the string `needle`.
pub fn array_contains(value: &JsonValue, field: &str, needle: &str) -> (r: bool)
    ensures
        r == array_contains_spec(value@, field@, needle@),
{
    broadcast use group_json_view;

    match value.get(field) {
        Some(v) => match v.as_array() {
            Some(items) => {
                let ghost iv = items_view(items@);
                let mut i: usize = 0;
                while i < items.len()
                    invariant
                        i <= items@.len(),
                        iv == items_view(items@),
                        json_array(json_get(value@, field@)) == Some(iv),
                        iv.len() == items@.len(),
                        forall|j: int| 0 <= j < i ==> iv[j] != Json::Str(needle@),
                    decreases items@.len() - i,
                {
                    proof { lemma_items_view_index(items@, i as int); }
                    assert(iv[i as int] == items@[i as int]@);
                    match items[i].as_str() {
                        Some(s) => {
                            if str_eq(s.as_str(), needle) {
                                assert(iv[i as int] == Json::Str(needle@));
                                return true;
                            }
                        },
                        None => {},
                    }
                    i += 1;
                }
                false
            },
            None => false,
        },
        None => false,
    }
}

/// The members of `entries` whose values are not null, in order.
pub open spec fn non_null_members(entries: Seq<(Seq<char>, Json)>) -> Seq<(Seq<char>, Json)>
    decreases entries.len(),
{
    if entries.len() == 0 {
        Seq::empty()
    } else {
        let prev = non_null_members(entries.drop_last());
        if entries.last().1 is Null {
            prev
        } else {
            prev.push(entries.last())
        }
    }
}

/// The model of a list of `(key, value)` pairs.
pub open spec fn pairs_model(entries: Seq<(&str, JsonValue)>) -> Seq<(Seq<char>, Json)> {
    entries.map_values(|e: (&str, JsonValue)| (e.0@, e.1@))
}

/// Builds an object from `entries`, leaving out the members whose value is null.
pub fn json_object(entries: Vec<(&str, JsonValue)>) -> (r: JsonValue)
    ensures
        r@ == Json::Object(non_null_members(pairs_model(entries@))),
{
    broadcast use group_json_view;

    let ghost model = pairs_model(entries@);
    let mut out: Vec<(String, JsonValue)> = Vec::new();
    let mut i: usize = 0;
    while i < entries.len()
        invariant
            i <= entries@.len(),
            model == pairs_model(entries@),
            model.len() == entries@.len(),
            entries_view(out@) == non_null_members(model.take(i as int)),
        decreases entries@.len() - i,
    {
        assert(model.take(i + 1).drop_last() =~= model.take(i as int));
        assert(model.take(i + 1).last() == model[i as int]);
        if !entries[i].1.is_null() {
            let value = clone_json(&entries[i].1);
            let ghost before = out@;
            out.push((entries[i].0.to_owned(), value));
            assert(out@.drop_last() =~= before);
        }
        i += 1;
    }
    assert(model.take(i as int) =~= model);
    JsonValue::Object(out)
}


/// A JSON string for a present text, JSON null for an absent one.
pub open spec fn opt_text(o: Option<String>) -> Json {
    match o {
        Some(s) => Json::Str(s@),
        None => Json::Null,
    }
}

/// A JSON boolean for a present flag, JSON null for an absent one.
pub open spec fn opt_flag(o: Option<bool>) -> Json {
    match o {
        Some(b) => Json::Bool(b),
        None => Json::Null,
    }
}

/// The decimal text of an integer, with a leading `-` when negative.
pub open spec fn int_text(n: int) -> Seq<char> {
    if n < 0 {
        seq!['-'] + crate::text::decimal_spec((-n) as nat)
    } else {
        crate::text::decimal_spec(n as nat)
    }
}

/// A JSON number for a present integer, JSON null for an absent one.
pub open spec fn opt_number(o: Option<i32>) -> Json {
    match o {
        Some(n) => Json::Number(int_text(n as int)),
        None => Json::Null,
    }
}

/// A JSON string for a present text, JSON null for an absent one.
pub fn opt_str_json(o: &Option<String>) -> (r: JsonValue)
    ensures
        r@ == opt_text(*o),
{
    match o {
        Some(s) => JsonValue::Str(s.clone()),
        None => JsonValue::Null,
    }
}

/// A JSON boolean for a present flag, JSON null for an absent one.
pub fn opt_bool_json(o: Option<bool>) -> (r: JsonValue)
    ensures
        r@ == opt_flag(o),
{
    match o {
        Some(b) => JsonValue::Bool(b),
        None => JsonValue::Null,
    }
}

/// A JSON number for an integer.
pub fn int_json(n: i64) -> (r: JsonValue)
    ensures
        r@ == Json::Number(int_text(n as int)),
{
    JsonValue::Number(int_string(n))
}

/// The decimal text of an integer.
pub fn int_string(n: i64) -> (text: String)
    ensures
        text@ == int_text(n as int),
{
    let mut text = String::new();
    if n < 0 {
        push_char(&mut text, '-');
        let magnitude: u64 = if n == i64::MIN {
            9223372036854775808u64
        } else {
            (0 - n) as u64
        };
        crate::text::push_decimal(&mut text, magnitude);
        assert(text@ =~= int_text(n as int));
    } else {
        crate::text::push_decimal(&mut text, n as u64);
        assert(text@ =~= int_text(n as int));
    }
    text
}

/// A JSON number for a present integer, JSON null for an absent one.
pub fn opt_i32_json(o: Option<i32>) -> (r: JsonValue)
    ensures
        r@ == opt_number(o),
{
    match o {
        Some(n) => int_json(n as i64),
        None => JsonValue::Null,
    }
}

/// The JSON array of the texts of `v`.
pub open spec fn text_array(v: Seq<String>) -> Json {
    Json::Array(Seq::new(v.len(), |i: int| Json::Str(v[i]@)))
}

/// An object built from literal keys, leaving out null members.
pub open spec fn object_of(members: Seq<(Seq<char>, Json)>) -> Json {
    Json::Object(non_null_members(members))
}


/// Builds an object from `entries`, keeping every member, null ones too.
pub fn json_record(entries: Vec<(&str, JsonValue)>) -> (r: JsonValue)
    ensures
        r@ == Json::Object(pairs_model(entries@)),
{
    broadcast use group_json_view;

    let ghost model = pairs_model(entries@);
    let mut out: Vec<(String, JsonValue)> = Vec::new();
    let mut i: usize = 0;
    while i < entries.len()
        invariant
            i <= entries@.len(),
            model == pairs_model(entries@),
            model.len() == entries@.len(),
            entries_view(out@) == model.take(i as int),
        decreases entries@.len() - i,
    {
        let value = clone_json(&entries[i].1);
        let ghost before = out@;
        out.push((entries[i].0.to_owned(), value));
        assert(out@.drop_last() =~= before);
        assert(model.take(i + 1) =~= model.take(i as int).push(model[i as int]));
        i += 1;
    }
    assert(model.take(i as int) =~= model);
    JsonValue::Object(out)
}

/// A JSON string for `Some(s)`, JSON null for `None`.
pub open spec fn opt_seq_text(o: Option<Seq<char>>) -> Json {
    match o {
        Some(s) => Json::Str(s),
        None => Json::Null,
    }
}

/// `entries` with `(key, value)` set: the first member with that key takes
/// the value, or the member is appended when there is none.
pub open spec fn set_member(entries: Seq<(Seq<char>, Json)>, key: Seq<char>, value: Json) -> Seq<(Seq<char>, Json)>
    decreases entries.len(),
{
    if entries.len() == 0 {
        seq![(key, value)]
    } else if entries[0].0 == key {
        entries.update(0, (key, value))
    } else {
        seq![entries[0]] + set_member(entries.drop_first(), key, value)
    }
}

/// `base` with each member of `overlay` set in turn.
pub open spec fn overlay_members(base: Seq<(Seq<char>, Json)>, overlay: Seq<(Seq<char>, Json)>) -> Seq<(Seq<char>, Json)>
    decreases overlay.len(),
{
    if overlay.len() == 0 {
        base
    } else {
        let prev = overlay_members(base, overlay.drop_last());
        set_member(prev, overlay.last().0, overlay.last().1)
    }
}

/// Two objects merged with the overlay's members winning; anything that
/// is not a pair of objects leaves `base` unchanged.
pub open spec fn merge_json_spec(base: Json, overlay: Json) -> Json {
    match (base, overlay) {
        (Json::Object(b), Json::Object(o)) => Json::Object(overlay_members(b, o)),
        _ => base,
    }
}

fn set_member_exec(entries: &mut Vec<(String, JsonValue)>, key: String, value: JsonValue)
    ensures
        entries_view(final(entries)@) == set_member(entries_view(old(entries)@), key@, value@),
{
    broadcast use group_json_view;

    let found = find_member(entries, key.as_str());
    let ghost ev = entries_view(old(entries)@);
    proof {
        lemma_entries_view_len(entries@);
        match found {
            Some(i) => {
                assert forall|j: int| 0 <= j < i implies ev[j].0 != key@ by {
                    lemma_entries_view_index(entries@, j);
                }
                lemma_entries_view_index(entries@, i as int);
                lemma_set_member_found(ev, key@, value@, i as int);
            },
            None => {
                assert forall|j: int| 0 <= j < ev.len() implies ev[j].0 != key@ by {
                    lemma_entries_view_index(entries@, j);
                }
                lemma_set_member_missing(ev, key@, value@);
            },
        }
    }
    match found {
        Some(i) => {
            let ghost before = entries@;
            entries.set(i, (key, value));
            assert(entries_view(entries@) =~= ev.update(i as int, (key@, value@))) by {
                assert forall|j: int| 0 <= j < entries@.len() implies entries_view(entries@)[j] == ev.update(i as int, (key@, value@))[j] by {
                    lemma_entries_view_index(entries@, j);
                    lemma_entries_view_index(before, j);
                }
            }
        },
        None => {
            let ghost before = entries@;
            entries.push((key, value));
            assert(entries@.drop_last() =~= before);
        },
    }
}

proof fn lemma_set_member_found(ev: Seq<(Seq<char>, Json)>, key: Seq<char>, value: Json, i: int)
    requires
        0 <= i < ev.len(),
        ev[i].0 == key,
        forall|j: int| 0 <= j < i ==> ev[j].0 != key,
    ensures
        set_member(ev, key, value) == ev.update(i, (key, value)),
    decreases ev.len(),
{
    if ev[0].0 != key {
        let rest = ev.drop_first();
        assert forall|j: int| 0 <= j < i - 1 implies rest[j].0 != key by {
            assert(rest[j] == ev[j + 1]);
        }
        lemma_set_member_found(rest, key, value, i - 1);
        assert(seq![ev[0]] + rest.update(i - 1, (key, value)) =~= ev.update(i, (key, value)));
    }
}

proof fn lemma_set_member_missing(ev: Seq<(Seq<char>, Json)>, key: Seq<char>, value: Json)
    requires
        forall|j: int| 0 <= j < ev.len() ==> ev[j].0 != key,
    ensures
        set_member(ev, key, value) == ev.push((key, value)),
    decreases ev.len(),
{
    if ev.len() > 0 {
        let rest = ev.drop_first();
        assert forall|j: int| 0 <= j < rest.len() implies rest[j].0 != key by {
            assert(rest[j] == ev[j + 1]);
        }
        lemma_set_member_missing(rest, key, value);
        assert(seq![ev[0]] + rest.push((key, value)) =~= ev.push((key, value)));
    } else {
        assert(seq![(key, value)] =~= ev.push((key, value)));
    }
}

/// After a member is set, looking it up gives its new value.
pub proof fn lemma_set_member_lookup(entries: Seq<(Seq<char>, Json)>, key: Seq<char>, value: Json)
    ensures
        lookup(set_member(entries, key, value), key) == Some(value),
    decreases entries.len(),
{
    if entries.len() > 0 && entries[0].0 != key {
        let rest = entries.drop_first();
        lemma_set_member_lookup(rest, key, value);
        assert((seq![entries[0]] + set_member(rest, key, value)).drop_first() =~= set_member(
            rest,
            key,
            value,
        ));
    }
}

/// Merging an object into another gives the last overlay member the last word.
pub proof fn lemma_merge_last_member(base: Seq<(Seq<char>, Json)>, overlay: Seq<(Seq<char>, Json)>)
    requires
        overlay.len() > 0,
    ensures
        json_get(merge_json_spec(Json::Object(base), Json::Object(overlay)), overlay.last().0) == Some(
            overlay.last().1,
        ),
{
    lemma_set_member_lookup(overlay_members(base, overlay.drop_last()), overlay.last().0, overlay.last().1);
}

/// Merges two objects, the overlay's members winning.
pub fn merge_json(base: JsonValue, overlay: &JsonValue) -> (r: JsonValue)
    ensures
        r@ == merge_json_spec(base@, overlay@),
{
    broadcast use group_json_view;

    match base {
        JsonValue::Object(mut entries) => match overlay {
            JsonValue::Object(more) => {
                let ghost b0 = entries_view(entries@);
                let ghost ov = entries_view(more@);
                let mut i: usize = 0;
                while i < more.len()
                    invariant
                        i <= more@.len(),
                        ov == entries_view(more@),
                        ov.len() == more@.len(),
                        entries_view(entries@) == overlay_members(b0, ov.take(i as int)),
                    decreases more@.len() - i,
                {
                    assert(ov.take(i + 1).drop_last() =~= ov.take(i as int));
                    proof {
                        lemma_entries_view_index(more@, i as int);
                    }
                    let value = clone_json(&more[i].1);
                    set_member_exec(&mut entries, more[i].0.clone(), value);
                    i += 1;
                }
                assert(ov.take(i as int) =~= ov);
                JsonValue::Object(entries)
            },
            _ => JsonValue::Object(entries),
        },
        other => other,
    }
}

/// `serde_json::Value`, the JSON value serde_json writes.
#[verifier::external_type_specification]
#[verifier::external_body]
pub struct ExSerdeValue(serde_json::Value);

/// The compact text `serde_json::to_string` writes for a JSON value. With
/// serde_json's default map, object members come out sorted by key, a key
/// given twice once with its last value, and strings escaped as serde_json
/// escapes them; none of this is stated here.
pub uninterp spec fn json_text_of(j: Json) -> Seq<char>;

/// The value as a `serde_json::Value`: each variant to its serde_json
/// variant, a number through serde_json's own number parser (text that does
/// not parse stays a string).
#[verifier::external_body]
fn serde_value(v: &JsonValue) -> serde_json::Value {
    match v {
        JsonValue::Null => serde_json::Value::Null,
        JsonValue::Bool(b) => serde_json::Value::Bool(*b),
        JsonValue::Number(n) => serde_json::from_str(n).map(serde_json::Value::Number).unwrap_or_else(|_| serde_json::Value::String(n.clone())),
        JsonValue::Str(s) => serde_json::Value::String(s.clone()),
        JsonValue::Array(items) => serde_json::Value::Array(items.iter().map(serde_value).collect()),
        JsonValue::Object(members) => serde_json::Value::Object(members.iter().map(|(k, m)| (k.clone(), serde_value(m))).collect()),
    }
}

/// `serde_json::to_string` of the value: its compact JSON text, a function
/// of the value alone, named `json_text_of`. Writing a `serde_json::Value`
/// to a string does not fail; `null` stands in should it ever do.
#[verifier::external_body]
pub fn json_text(v: &JsonValue) -> (r: String)
    ensures
        r@ == json_text_of(v@),
{
    serde_json::to_string(&serde_value(v)).unwrap_or_else(|_| "null".to_string())
}

} // verus!
