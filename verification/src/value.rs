//! JSON documents and their mathematical model.
use crate::text::{same, str_view};
use vstd::prelude::*;

verus! {

/// A JSON number. Integers keep their value; any other number keeps its decimal text.
#[derive(Debug)]
pub enum Number {
    PosInt(u64),
    NegInt(i64),
    Float(String),
}

/// A JSON document.
#[derive(Debug)]
pub enum Value {
    Null,
    Bool(bool),
    Number(Number),
    String(String),
    Array(Vec<Value>),
    Object(Object),
}

/// The members of a JSON object.
#[derive(Debug)]
pub struct Object {
    entries: Vec<(String, Value)>,
}

/// The model of a [`Number`].
#[verifier::ext_equal]
pub enum JsonNumber {
    PosInt(u64),
    NegInt(i64),
    Float(Seq<char>),
}

/// The model of a [`Value`]. The members of an object have no order.
#[verifier::ext_equal]
pub enum Json {
    Null,
    Bool(bool),
    Number(JsonNumber),
    String(Seq<char>),
    Array(Seq<Json>),
    Object(Map<Seq<char>, Json>),
}

impl Number {
    pub open spec fn view(&self) -> JsonNumber {
        match self {
            Number::PosInt(n) => JsonNumber::PosInt(*n),
            Number::NegInt(n) => JsonNumber::NegInt(*n),
            Number::Float(text) => JsonNumber::Float(text@),
        }
    }
}

impl Value {
    pub open spec fn view(&self) -> Json
        decreases self,
    {
        match self {
            Value::Null => Json::Null,
            Value::Bool(b) => Json::Bool(*b),
            Value::Number(n) => Json::Number(n@),
            Value::String(s) => Json::String(s@),
            Value::Array(items) => Json::Array(items_view(items@)),
            Value::Object(object) => Json::Object(object.view()),
        }
    }
}

/// The model of each item.
pub open spec fn items_view(items: Seq<Value>) -> Seq<Json>
    decreases items,
{
    Seq::new(items.len(), |i: int| if 0 <= i < items.len() { items[i].view() } else { Json::Null })
}

impl Object {
    pub closed spec fn view(&self) -> Map<Seq<char>, Json>
        decreases self,
    {
        members(self.entries@)
    }
}

/// The members that entries make; a later entry replaces an earlier one of the same key.
spec fn members(entries: Seq<(String, Value)>) -> Map<Seq<char>, Json>
    decreases entries,
{
    if entries.len() == 0 {
        Map::empty()
    } else {
        members(entries.drop_last()).insert(entries.last().0@, entries.last().1.view())
    }
}

/// Whether no two entries have the same key.
spec fn distinct(entries: Seq<(String, Value)>) -> bool {
    forall|i: int, j: int|
        0 <= i < j < entries.len() ==> (#[trigger] entries[i]).0@ != (#[trigger] entries[j]).0@
}

impl Object {
    #[verifier::type_invariant]
    spec fn has_each_key_once(&self) -> bool {
        distinct(self.entries@)
    }
}

impl Clone for Number {
    fn clone(&self) -> (copy: Self)
        ensures
            copy@ == self@,
    {
        match self {
            Number::PosInt(n) => Number::PosInt(*n),
            Number::NegInt(n) => Number::NegInt(*n),
            Number::Float(text) => Number::Float(text.clone()),
        }
    }
}

impl Clone for Value {
    fn clone(&self) -> (copy: Self)
        ensures
            copy@ == self@,
        decreases self,
    {
        match self {
            Value::Null => Value::Null,
            Value::Bool(b) => Value::Bool(*b),
            Value::Number(n) => Value::Number(n.clone()),
            Value::String(s) => Value::String(s.clone()),
            Value::Array(items) => {
                let mut out: Vec<Value> = Vec::new();
                for i in 0..items.len()
                    invariant
                        *self == Value::Array(*items),
                        out.len() == i,
                        forall|j: int| 0 <= j < i ==> (#[trigger] out[j])@ == items[j]@,
                {
                    proof {
                        assert(decreases_to!(*self => self->Array_0@));
                        assert(decreases_to!(items@ => items@[i as int]));
                    }
                    out.push(items[i].clone());
                }
                assert(items_view(out@) =~= items_view(items@));
                Value::Array(out)
            },
            Value::Object(object) => Value::Object(object.clone()),
        }
    }
}

impl Clone for Object {
    fn clone(&self) -> (copy: Self)
        ensures
            copy@ == self@,
        decreases self,
    {
        let mut entries: Vec<(String, Value)> = Vec::new();
        proof {
            use_type_invariant(self);
        }
        for i in 0..self.entries.len()
            invariant
                entries.len() == i,
                forall|j: int| 0 <= j < i ==> (#[trigger] entries[j]).0@ == self.entries[j].0@,
                members(entries@) == members(self.entries@.take(i as int)),
        {
            let ghost before = entries@;
            entries.push((self.entries[i].0.clone(), self.entries[i].1.clone()));
            assert(entries@.drop_last() == before);
            assert(self.entries@.take(i + 1).drop_last() == self.entries@.take(i as int));
        }
        assert(self.entries@.take(self.entries.len() as int) == self.entries@);
        Object { entries }
    }
}

impl Json {
    /// The member `key` of an object.
    pub open spec fn field(self, key: Seq<char>) -> Option<Json> {
        match self {
            Json::Object(m) => if m.contains_key(key) {
                Some(m[key])
            } else {
                None
            },
            _ => None,
        }
    }

    /// The characters of a string.
    pub open spec fn as_str(self) -> Option<Seq<char>> {
        match self {
            Json::String(s) => Some(s),
            _ => None,
        }
    }

    /// The value of a boolean.
    pub open spec fn as_bool(self) -> Option<bool> {
        match self {
            Json::Bool(b) => Some(b),
            _ => None,
        }
    }

    /// The value of a non-negative integer.
    pub open spec fn as_u64(self) -> Option<u64> {
        match self {
            Json::Number(JsonNumber::PosInt(n)) => Some(n),
            _ => None,
        }
    }

    /// The items of an array.
    pub open spec fn as_array(self) -> Option<Seq<Json>> {
        match self {
            Json::Array(items) => Some(items),
            _ => None,
        }
    }

    /// The member `key`, where it is a string.
    pub open spec fn text(self, key: Seq<char>) -> Option<Seq<char>> {
        match self.field(key) {
            Some(v) => v.as_str(),
            None => None,
        }
    }

    /// The member `key`, where it is a boolean.
    pub open spec fn flag(self, key: Seq<char>) -> Option<bool> {
        match self.field(key) {
            Some(v) => v.as_bool(),
            None => None,
        }
    }

    /// The member `key`, where it is an array.
    pub open spec fn items(self, key: Seq<char>) -> Option<Seq<Json>> {
        match self.field(key) {
            Some(v) => v.as_array(),
            None => None,
        }
    }

    /// The member `inner` of the member `outer`.
    pub open spec fn nested(self, outer: Seq<char>, inner: Seq<char>) -> Option<Json> {
        match self.field(outer) {
            Some(v) => v.field(inner),
            None => None,
        }
    }

    /// An object with the member `key` set to `value`; any other document is left as it is.
    pub open spec fn with(self, key: Seq<char>, value: Json) -> Json {
        match self {
            Json::Object(m) => Json::Object(m.insert(key, value)),
            _ => self,
        }
    }

    /// An object without the member `key`; any other document is left as it is.
    pub open spec fn without(self, key: Seq<char>) -> Json {
        match self {
            Json::Object(m) => Json::Object(m.remove(key)),
            _ => self,
        }
    }
}

/// `found`, or `default` where nothing was found.
pub open spec fn or_else<T>(found: Option<T>, default: T) -> T {
    match found {
        Some(v) => v,
        None => default,
    }
}

/// The view of an optional document.
pub open spec fn value_view(v: Option<&Value>) -> Option<Json> {
    match v {
        Some(v) => Some(v@),
        None => None,
    }
}

/// The view of an optional document that is owned.
pub open spec fn owned_view(v: Option<Value>) -> Option<Json> {
    match v {
        Some(v) => Some(v@),
        None => None,
    }
}

/// The members that a list of pairs makes; a later pair replaces an earlier one of the same key.
pub open spec fn members_of(pairs: Seq<(Seq<char>, Json)>) -> Map<Seq<char>, Json>
    decreases pairs.len(),
{
    if pairs.len() == 0 {
        Map::empty()
    } else {
        members_of(pairs.drop_last()).insert(pairs.last().0, pairs.last().1)
    }
}

spec fn entry_views(entries: Seq<(String, Value)>) -> Seq<(Seq<char>, Json)> {
    entries.map_values(|e: (String, Value)| (e.0@, e.1@))
}

proof fn lemma_members_of_entries(entries: Seq<(String, Value)>)
    ensures
        members(entries) == members_of(entry_views(entries)),
    decreases entries.len(),
{
    if entries.len() > 0 {
        lemma_members_of_entries(entries.drop_last());
        assert(entry_views(entries).drop_last() == entry_views(entries.drop_last()));
    }
}

/// A key that no entry has is no member.
proof fn lemma_absent(entries: Seq<(String, Value)>, key: Seq<char>)
    requires
        forall|i: int| 0 <= i < entries.len() ==> (#[trigger] entries[i]).0@ != key,
    ensures
        !members(entries).contains_key(key),
    decreases entries.len(),
{
    if entries.len() > 0 {
        lemma_absent(entries.drop_last(), key);
    }
}

/// Entries of different keys are as many members.
proof fn lemma_member_count(entries: Seq<(String, Value)>)
    requires
        distinct(entries),
    ensures
        members(entries).dom().finite(),
        members(entries).len() == entries.len(),
    decreases entries.len(),
{
    if entries.len() > 0 {
        let rest = entries.drop_last();
        lemma_member_count(rest);
        assert forall|i: int| 0 <= i < rest.len() implies (#[trigger] rest[i]).0@
            != entries.last().0@ by {
            assert(entries[i].0@ != entries[entries.len() - 1].0@);
        }
        lemma_absent(rest, entries.last().0@);
        assert(members(entries).dom() =~= members(rest).dom().insert(entries.last().0@));
    }
}

/// The last entry of a key gives the member, and setting it sets the member.
proof fn lemma_last_entry(entries: Seq<(String, Value)>, at: int, entry: (String, Value))
    requires
        0 <= at < entries.len(),
        forall|i: int| at < i < entries.len() ==> (#[trigger] entries[i]).0@ != entries[at].0@,
        entry.0@ == entries[at].0@,
    ensures
        members(entries).contains_key(entries[at].0@),
        members(entries)[entries[at].0@] == entries[at].1@,
        members(entries.update(at, entry)) == members(entries).insert(entry.0@, entry.1@),
    decreases entries.len(),
{
    let changed = entries.update(at, entry);
    if at < entries.len() - 1 {
        lemma_last_entry(entries.drop_last(), at, entry);
        assert(changed.drop_last() == entries.drop_last().update(at, entry));
        assert(entries.last().0@ != entries[at].0@);
        assert(members(changed) =~= members(entries).insert(entry.0@, entry.1@));
    } else {
        assert(changed.drop_last() == entries.drop_last());
        assert(members(changed) =~= members(entries).insert(entry.0@, entry.1@));
    }
}

impl Object {
    /// The members in the order in which they were first set.
    pub closed spec fn pairs(&self) -> Seq<(Seq<char>, Json)> {
        entry_views(self.entries@)
    }

    /// The members are those that the pairs make.
    pub proof fn pairs_make_members(&self)
        ensures
            self@ == members_of(self.pairs()),
    {
        lemma_members_of_entries(self.entries@);
    }

    /// An object without members.
    pub fn new() -> (object: Self)
        ensures
            object@ == Map::<Seq<char>, Json>::empty(),
    {
        Object { entries: Vec::new() }
    }

    /// How many members there are; each of them is one pair.
    pub fn len(&self) -> (len: usize)
        ensures
            len == self.pairs().len(),
            self@.dom().finite(),
            len == self@.len(),
    {
        proof {
            use_type_invariant(self);
            lemma_member_count(self.entries@);
        }
        self.entries.len()
    }

    /// Whether there are no members.
    pub fn is_empty(&self) -> (empty: bool)
        ensures
            empty == (self@ == Map::<Seq<char>, Json>::empty()),
    {
        if self.entries.len() == 0 {
            true
        } else {
            proof {
                assert(self@.contains_key(self.entries@.last().0@));
            }
            false
        }
    }

    /// The key of a pair.
    pub fn key_at(&self, i: usize) -> (key: &str)
        requires
            i < self.pairs().len(),
        ensures
            key@ == self.pairs()[i as int].0,
    {
        self.entries[i].0.as_str()
    }

    /// The value of a pair.
    pub fn value_at(&self, i: usize) -> (value: &Value)
        requires
            i < self.pairs().len(),
        ensures
            value@ == self.pairs()[i as int].1,
    {
        &self.entries[i].1
    }

    fn position(&self, key: &str) -> (at: Option<usize>)
        ensures
            match at {
                Some(i) => {
                    &&& i < self.entries.len()
                    &&& self.entries[i as int].0@ == key@
                    &&& forall|j: int| i < j < self.entries.len() ==> (#[trigger] self.entries[j]).0@
                        != key@
                    &&& self@.contains_key(key@)
                    &&& self@[key@] == self.entries[i as int].1@
                },
                None => {
                    &&& !self@.contains_key(key@)
                    &&& forall|j: int| 0 <= j < self.entries.len() ==> (#[trigger] self.entries[j]).0@
                        != key@
                },
            },
    {
        let mut i: usize = self.entries.len();
        while i > 0
            invariant
                i <= self.entries.len(),
                forall|j: int| i <= j < self.entries.len() ==> (#[trigger] self.entries[j]).0@ != key@,
            decreases i,
        {
            i = i - 1;
            if same(self.entries[i].0.as_str(), key) {
                proof {
                    lemma_last_entry(self.entries@, i as int, self.entries@[i as int]);
                }
                return Some(i);
            }
        }
        proof {
            lemma_absent(self.entries@, key@);
        }
        None
    }

    /// The member `key`.
    pub fn get(&self, key: &str) -> (value: Option<&Value>)
        ensures
            value_view(value) == Json::Object(self@).field(key@),
    {
        match self.position(key) {
            Some(i) => Some(&self.entries[i].1),
            None => None,
        }
    }

    /// Sets the member `key`.
    pub fn insert(&mut self, key: &str, value: Value)
        ensures
            final(self)@ == old(self)@.insert(key@, value@),
    {
        proof {
            use_type_invariant(&*self);
        }
        let at = self.position(key);
        let mut entries: Vec<(String, Value)> = Vec::new();
        std::mem::swap(&mut entries, &mut self.entries);
        let ghost before = entries@;
        match at {
            Some(i) => {
                let entry = (key.to_string(), value);
                proof {
                    lemma_last_entry(before, i as int, entry);
                }
                entries.set(i, entry);
            },
            None => {
                entries.push((key.to_string(), value));
                assert(entries@.drop_last() == before);
            },
        }
        self.entries = entries;
    }

    /// Takes the member `key` out.
    pub fn remove(&mut self, key: &str)
        ensures
            final(self)@ == old(self)@.remove(key@),
    {
        let mut kept: Vec<(String, Value)> = Vec::new();
        proof {
            use_type_invariant(&*self);
        }
        for i in 0..self.entries.len()
            invariant
                distinct(self.entries@),
                distinct(kept@),
                forall|j: int|
                    0 <= j < kept.len() ==> exists|k: int|
                        0 <= k < i && (#[trigger] kept[j]).0@ == (#[trigger] self.entries[k]).0@,
                members(kept@) == members(self.entries@.take(i as int)).remove(key@),
        {
            let ghost before = kept@;
            assert(self.entries@.take(i + 1).drop_last() == self.entries@.take(i as int));
            if !same(self.entries[i].0.as_str(), key) {
                kept.push((self.entries[i].0.clone(), self.entries[i].1.clone()));
                assert(kept@.drop_last() == before);
            }
            assert(members(kept@) =~= members(self.entries@.take(i + 1)).remove(key@));
        }
        assert(self.entries@.take(self.entries.len() as int) == self.entries@);
        self.entries = kept;
    }
}

impl Value {
    /// The member `key` of an object.
    pub fn get(&self, key: &str) -> (value: Option<&Value>)
        ensures
            value_view(value) == self@.field(key@),
    {
        match self {
            Value::Object(object) => object.get(key),
            _ => None,
        }
    }

    /// The characters of a string.
    pub fn as_str(&self) -> (s: Option<&str>)
        ensures
            str_view(s) == self@.as_str(),
    {
        match self {
            Value::String(s) => Some(s.as_str()),
            _ => None,
        }
    }

    /// The value of a boolean.
    pub fn as_bool(&self) -> (b: Option<bool>)
        ensures
            b == self@.as_bool(),
    {
        match self {
            Value::Bool(b) => Some(*b),
            _ => None,
        }
    }

    /// The value of a non-negative integer.
    pub fn as_u64(&self) -> (n: Option<u64>)
        ensures
            n == self@.as_u64(),
    {
        match self {
            Value::Number(Number::PosInt(n)) => Some(*n),
            _ => None,
        }
    }

    /// The items of an array.
    pub fn as_array(&self) -> (items: Option<&Vec<Value>>)
        ensures
            array_view(items) == self@.as_array(),
    {
        match self {
            Value::Array(items) => Some(items),
            _ => None,
        }
    }

    /// The members of an object.
    pub fn as_object(&self) -> (object: Option<&Object>)
        ensures
            match object {
                Some(o) => self@ == Json::Object(o@),
                None => !(self@ is Object),
            },
    {
        match self {
            Value::Object(object) => Some(object),
            _ => None,
        }
    }

    /// Whether this is null.
    pub fn is_null(&self) -> (yes: bool)
        ensures
            yes == (self@ == Json::Null),
    {
        match self {
            Value::Null => true,
            _ => false,
        }
    }

    /// The member `key`, where it is a string.
    pub fn text(&self, key: &str) -> (s: Option<&str>)
        ensures
            str_view(s) == self@.text(key@),
    {
        match self.get(key) {
            Some(v) => v.as_str(),
            None => None,
        }
    }

    /// The member `key`, where it is a boolean.
    pub fn flag(&self, key: &str) -> (b: Option<bool>)
        ensures
            b == self@.flag(key@),
    {
        match self.get(key) {
            Some(v) => v.as_bool(),
            None => None,
        }
    }

    /// The member `key`, where it is an array.
    pub fn items(&self, key: &str) -> (items: Option<&Vec<Value>>)
        ensures
            array_view(items) == self@.items(key@),
    {
        match self.get(key) {
            Some(v) => v.as_array(),
            None => None,
        }
    }

    /// The member `inner` of the member `outer`.
    pub fn nested(&self, outer: &str, inner: &str) -> (value: Option<&Value>)
        ensures
            value_view(value) == self@.nested(outer@, inner@),
    {
        match self.get(outer) {
            Some(v) => v.get(inner),
            None => None,
        }
    }

    /// Sets the member `key` of an object; any other document is left as it is.
    pub fn set(&mut self, key: &str, value: Value)
        ensures
            final(self)@ == old(self)@.with(key@, value@),
    {
        match self {
            Value::Object(object) => {
                object.insert(key, value);
            },
            _ => {},
        }
    }

    /// Takes the member `key` out of an object; any other document is left as it is.
    pub fn unset(&mut self, key: &str)
        ensures
            final(self)@ == old(self)@.without(key@),
    {
        match self {
            Value::Object(object) => {
                object.remove(key);
            },
            _ => {},
        }
    }
}

/// The view of optional items.
pub open spec fn array_view(items: Option<&Vec<Value>>) -> Option<Seq<Json>> {
    match items {
        Some(items) => Some(items_view(items@)),
        None => None,
    }
}

/// The characters of each string.
pub open spec fn string_views(strings: Seq<String>) -> Seq<Seq<char>> {
    strings.map_values(|s: String| s@)
}

/// An array of strings.
pub open spec fn json_strings(strings: Seq<Seq<char>>) -> Json {
    Json::Array(strings.map_values(|s: Seq<char>| Json::String(s)))
}

/// The strings among the items, in their order.
pub open spec fn strings_among(items: Seq<Json>) -> Seq<Seq<char>>
    decreases items.len(),
{
    if items.len() == 0 {
        Seq::empty()
    } else {
        match items.last().as_str() {
            Some(s) => strings_among(items.drop_last()).push(s),
            None => strings_among(items.drop_last()),
        }
    }
}

/// A string document.
pub fn string_value(s: &str) -> (value: Value)
    ensures
        value@ == Json::String(s@),
{
    Value::String(s.to_string())
}

/// An array document without items.
pub fn empty_array() -> (value: Value)
    ensures
        value@ == Json::Array(Seq::empty()),
{
    let items: Vec<Value> = Vec::new();
    assert(items_view(items@) =~= Seq::<Json>::empty());
    Value::Array(items)
}

/// An array document of strings.
pub fn strings_value(strings: &Vec<String>) -> (value: Value)
    ensures
        value@ == json_strings(string_views(strings@)),
{
    let mut items: Vec<Value> = Vec::new();
    for i in 0..strings.len()
        invariant
            items.len() == i,
            forall|j: int| 0 <= j < i ==> (#[trigger] items[j])@ == Json::String(strings[j]@),
    {
        items.push(string_value(strings[i].as_str()));
    }
    let value = Value::Array(items);
    assert(items_view(items@) =~= json_strings(string_views(strings@))->Array_0);
    value
}

/// The strings among the items, in their order.
pub fn strings_in(items: &Vec<Value>) -> (strings: Vec<String>)
    ensures
        string_views(strings@) == strings_among(items_view(items@)),
{
    let mut strings: Vec<String> = Vec::new();
    let ghost all = items_view(items@);
    for i in 0..items.len()
        invariant
            all == items_view(items@),
            string_views(strings@) == strings_among(all.take(i as int)),
    {
        assert(all.take(i + 1).drop_last() == all.take(i as int));
        assert(all.take(i + 1).last() == items@[i as int]@);
        if let Some(s) = items[i].as_str() {
            let ghost before = strings@;
            strings.push(s.to_string());
            assert(string_views(strings@) =~= string_views(before).push(s@));
        }
    }
    assert(all.take(all.len() as int) == all);
    strings
}

} // verus!
