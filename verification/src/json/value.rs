//! JSON values and objects.
use vstd::prelude::*;

use crate::json::model::Json;
use crate::json::number::JsonNumber;
use crate::json::outside;
use crate::text;

verus! {

/// A JSON value.
#[derive(Debug)]
pub enum JsonValue {
    Null,
    Bool(bool),
    Number(JsonNumber),
    String(String),
    Array(Vec<JsonValue>),
    Object(JsonObject),
}

/// The members of a JSON object, in the order of their keys, each key once.
#[derive(Debug)]
pub struct JsonObject {
    members: Vec<(String, JsonValue)>,
}

impl View for JsonValue {
    type V = Json;

    open spec fn view(&self) -> Json
        decreases self,
    {
        match self {
            JsonValue::Null => Json::Null,
            JsonValue::Bool(b) => Json::Bool(*b),
            JsonValue::Number(n) => Json::Number(n@),
            JsonValue::String(s) => Json::String(s@),
            JsonValue::Array(items) => Json::Array(shown(items@)),
            JsonValue::Object(object) => Json::Object(object.view()),
        }
    }
}

/// What each of the values is.
pub open spec fn shown(items: Seq<JsonValue>) -> Seq<Json>
    decreases items,
{
    Seq::new(
        items.len(),
        |i: int|
            if 0 <= i < items.len() {
                items[i].view()
            } else {
                arbitrary()
            },
    )
}

impl View for JsonObject {
    type V = Seq<(Seq<char>, Json)>;

    closed spec fn view(&self) -> Seq<(Seq<char>, Json)>
        decreases self,
    {
        Seq::new(
            self.members@.len(),
            |i: int|
                if 0 <= i < self.members@.len() {
                    (self.members@[i].0@, self.members@[i].1.view())
                } else {
                    arbitrary()
                },
        )
    }
}

impl JsonObject {
    #[verifier::type_invariant]
    spec fn valid(self) -> bool {
        crate::json::model::sorted(self@)
    }

    /// An object without members.
    pub fn new() -> (r: JsonObject)
        ensures
            r@ == Seq::<(Seq<char>, Json)>::empty(),
    {
        let members: Vec<(String, JsonValue)> = Vec::new();
        assert((JsonObject { members })@ =~= Seq::<(Seq<char>, Json)>::empty());
        JsonObject { members }
    }

    /// The number of members.
    pub fn len(&self) -> (r: usize)
        ensures
            r == self@.len(),
            crate::json::model::sorted(self@),
    {
        proof {
            use_type_invariant(self);
        }
        self.members.len()
    }

    /// The key of the member at `i`, counted in the order of the keys.
    pub fn key_at(&self, i: usize) -> (r: &String)
        requires
            i < self@.len(),
        ensures
            r@ == self@[i as int].0,
    {
        &self.members[i].0
    }

    /// The value of the member at `i`, counted in the order of the keys.
    pub fn value_at(&self, i: usize) -> (r: &JsonValue)
        requires
            i < self@.len(),
        ensures
            r@ == self@[i as int].1,
    {
        &self.members[i].1
    }

    /// The value of the member `key`.
    pub fn get(&self, key: &str) -> (r: Option<&JsonValue>)
        ensures
            match r {
                Some(value) => crate::json::model::member(self@, key@) == Some(value@),
                None => crate::json::model::member(self@, key@) is None,
            },
    {
        proof {
            use_type_invariant(self);
        }
        let mut i: usize = 0;
        while i < self.members.len()
            invariant
                i <= self.members.len(),
                crate::json::model::sorted(self@),
                forall|j: int| 0 <= j < i ==> (#[trigger] self@[j]).0 != key@,
            decreases self.members.len() - i,
        {
            if text::same_text(self.members[i].0.as_str(), key) {
                proof {
                    assert(self@[i as int].0 == key@);
                    crate::json::model::lemma_member_at(self@, i as int);
                }
                return Some(&self.members[i].1);
            }
            i = i + 1;
        }
        proof {
            crate::json::model::lemma_member_absent(self@, key@);
        }
        None
    }

    /// Whether there is a member `key`.
    pub fn contains_key(&self, key: &str) -> (r: bool)
        ensures
            r == (crate::json::model::member(self@, key@) is Some),
    {
        self.get(key).is_some()
    }

    /// Sets the member `key` to `value`.
    pub fn insert(&mut self, key: String, value: JsonValue)
        ensures
            final(self)@ == crate::json::model::with_member(old(self)@, key@, value@),
            crate::json::model::sorted(final(self)@),
    {
        proof {
            use_type_invariant(&*self);
        }
        let ghost before = self@;
        let mut i: usize = 0;
        while i < self.members.len() && text::comes_before(self.members[i].0.as_str(), key.as_str())
            invariant
                i <= self.members.len(),
                self@ == before,
                forall|j: int| 0 <= j < i ==> text::precedes((#[trigger] before[j]).0, key@),
            decreases self.members.len() - i,
        {
            assert(before[i as int].0 == self.members@[i as int].0@);
            i = i + 1;
        }
        let replaces = i < self.members.len() && text::same_text(
            self.members[i].0.as_str(),
            key.as_str(),
        );
        let mut members: Vec<(String, JsonValue)> = Vec::new();
        std::mem::swap(&mut self.members, &mut members);
        proof {
            if i < before.len() {
                text::lemma_precedes_total(before[i as int].0, key@);
            }
            if replaces {
                assert(before[i as int].0 == key@);
            }
            crate::json::model::lemma_with_member_at(before, i as int, key@, value@);
        }
        if replaces {
            members.set(i, (key, value));
        } else {
            members.insert(i, (key, value));
        }
        assert((JsonObject { members })@ =~= crate::json::model::with_member(before, key@, value@));
        *self = JsonObject { members };
    }
}

impl JsonValue {
    /// The value of the member `key` of an object; nothing of any other value.
    pub fn get(&self, key: &str) -> (r: Option<&JsonValue>)
        ensures
            match r {
                Some(value) => self@.get(key@) == Some(value@),
                None => self@.get(key@) is None,
            },
    {
        match self {
            JsonValue::Object(object) => object.get(key),
            _ => None,
        }
    }

    /// The members, where the value is an object.
    pub fn as_object(&self) -> (r: Option<&JsonObject>)
        ensures
            match r {
                Some(object) => self@ == Json::Object(object@) && crate::json::model::sorted(
                    object@,
                ),
                None => !(self@ is Object),
            },
    {
        match self {
            JsonValue::Object(object) => {
                proof {
                    use_type_invariant(object);
                }
                Some(object)
            },
            _ => None,
        }
    }

    /// The string, where the value is one.
    pub fn as_str(&self) -> (r: Option<&str>)
        ensures
            match r {
                Some(s) => self@ == Json::String(s@),
                None => !(self@ is String),
            },
    {
        match self {
            JsonValue::String(s) => Some(s.as_str()),
            _ => None,
        }
    }

    /// Whether two values are equal: alike in shape, with equal scalars.
    pub fn same(&self, other: &JsonValue) -> (r: bool)
        ensures
            r == self@.same(other@),
        decreases self,
    {
        match (self, other) {
            (JsonValue::Null, JsonValue::Null) => true,
            (JsonValue::Bool(a), JsonValue::Bool(b)) => *a == *b,
            (JsonValue::Number(a), JsonValue::Number(b)) => a.same(b),
            (JsonValue::String(a), JsonValue::String(b)) => text::same_text(
                a.as_str(),
                b.as_str(),
            ),
            (JsonValue::Array(a), JsonValue::Array(b)) => {
                let ghost (x, y) = (shown(a@), shown(b@));
                assert(self@ == Json::Array(x) && other@ == Json::Array(y));
                if a.len() != b.len() {
                    return false;
                }
                let mut i: usize = 0;
                while i < a.len()
                    invariant
                        i <= a.len(),
                        a.len() == b.len(),
                        x == shown(a@),
                        y == shown(b@),
                        self@ == Json::Array(x),
                        other@ == Json::Array(y),
                        forall|j: int| 0 <= j < i ==> (#[trigger] x[j]).same(y[j]),
                        decreases_to!(self => a),
                    decreases a.len() - i,
                {
                    if !a[i].same(&b[i]) {
                        assert(!x[i as int].same(y[i as int]));
                        return false;
                    }
                    i = i + 1;
                }
                true
            },
            (JsonValue::Object(a), JsonValue::Object(b)) => a.same(b),
            _ => false,
        }
    }

    /// The value that `serde_json` holds.
    pub fn from_serde_json(value: serde_json::Value) -> (r: JsonValue)
        ensures
            r@ == outside::contents(value),
        decreases outside::contents(value),
    {
        match outside::take_apart(value) {
            outside::Parts::Null => JsonValue::Null,
            outside::Parts::Bool(b) => JsonValue::Bool(b),
            outside::Parts::Number(number) => JsonValue::Number(
                JsonNumber::from_serde_json(number),
            ),
            outside::Parts::String(s) => JsonValue::String(s),
            outside::Parts::Array(parts) => {
                let ghost held = parts@;
                let ghost json = outside::contents(value);
                let mut items: Vec<JsonValue> = Vec::new();
                for part in iter: parts
                    invariant
                        iter.seq() == held,
                        json == outside::contents(value),
                        json == Json::Array(
                            Seq::new(held.len(), |i: int| outside::contents(held[i])),
                        ),
                        items@.len() == iter.index(),
                        forall|i: int|
                            0 <= i < items@.len() ==> (#[trigger] items@[i])@ == outside::contents(
                                held[i],
                            ),
                {
                    assert(json->Array_0[iter.index() as int] == outside::contents(part));
                    items.push(JsonValue::from_serde_json(part));
                }
                assert(shown(items@) =~= json->Array_0);
                JsonValue::Array(items)
            },
            outside::Parts::Object(parts) => {
                let ghost held = parts@;
                let ghost json = outside::contents(value);
                let mut members: Vec<(String, JsonValue)> = Vec::new();
                for part in iter: parts
                    invariant
                        iter.seq() == held,
                        json == outside::contents(value),
                        json == Json::Object(
                            Seq::new(
                                held.len(),
                                |i: int| (held[i].0@, outside::contents(held[i].1)),
                            ),
                        ),
                        members@.len() == iter.index(),
                        forall|i: int|
                            0 <= i < members@.len() ==> (#[trigger] members@[i]).0@ == held[i].0@
                                && members@[i].1@ == outside::contents(held[i].1),
                {
                    let (key, member) = part;
                    assert(json->Object_0[iter.index() as int].1 == outside::contents(member));
                    members.push((key, JsonValue::from_serde_json(member)));
                }
                assert((JsonObject { members })@ =~= json->Object_0);
                assert(crate::json::model::sorted(json->Object_0)) by {
                    assert forall|i: int, j: int|
                        0 <= i < j < held.len() implies crate::text::precedes(
                        #[trigger] json->Object_0[i].0,
                        #[trigger] json->Object_0[j].0,
                    ) by {
                        let _ = (held[i].0@, held[j].0@);
                    }
                }
                JsonValue::Object(JsonObject { members })
            },
        }
    }

    /// The value as `serde_json` holds it.
    pub fn to_serde_json(&self) -> (r: serde_json::Value)
        ensures
            outside::contents(r) == self@,
        decreases self,
    {
        match self {
            JsonValue::Null => outside::null_value(),
            JsonValue::Bool(b) => outside::bool_value(*b),
            JsonValue::Number(n) => n.to_serde_json(),
            JsonValue::String(s) => outside::string_value(s.clone()),
            JsonValue::Array(items) => {
                let mut built: Vec<serde_json::Value> = Vec::new();
                let mut i: usize = 0;
                while i < items.len()
                    invariant
                        i <= items.len(),
                        built@.len() == i,
                        forall|j: int|
                            0 <= j < i ==> outside::contents(#[trigger] built@[j]) == items@[j]@,
                        decreases_to!(self => items),
                    decreases items.len() - i,
                {
                    built.push(items[i].to_serde_json());
                    i = i + 1;
                }
                let r = outside::array_value(built);
                assert(outside::contents(r)->Array_0 =~= shown(items@));
                r
            },
            JsonValue::Object(object) => object.to_serde_json(),
        }
    }

    /// The value's compact JSON text, as `serde_json` writes it.
    pub fn to_string(&self) -> (r: String)
        ensures
            r@ == outside::json_text(self@),
    {
        outside::display(&self.to_serde_json())
    }

    /// The value's text for messages, as `serde_json` gives it for debugging.
    pub fn to_debug_string(&self) -> (r: String)
        ensures
            r@ == outside::json_debug_text(self@),
    {
        outside::debug(&self.to_serde_json())
    }
}

impl JsonObject {
    /// Whether two objects have the same keys with equal values.
    pub fn same(&self, other: &JsonObject) -> (r: bool)
        ensures
            r == Json::Object(self@).same(Json::Object(other@)),
        decreases self,
    {
        if self.members.len() != other.members.len() {
            return false;
        }
        let mut i: usize = 0;
        while i < self.members.len()
            invariant
                i <= self.members.len(),
                self.members.len() == other.members.len(),
                forall|j: int|
                    0 <= j < i ==> (#[trigger] self@[j]).0 == other@[j].0 && self@[j].1.same(
                        other@[j].1,
                    ),
            decreases self.members.len() - i,
        {
            if !text::same_text(self.members[i].0.as_str(), other.members[i].0.as_str())
                || !self.members[i].1.same(&other.members[i].1) {
                assert(!(self@[i as int].0 == other@[i as int].0 && self@[i as int].1.same(
                    other@[i as int].1,
                )));
                return false;
            }
            i = i + 1;
        }
        true
    }

    fn to_serde_json(&self) -> (r: serde_json::Value)
        ensures
            outside::contents(r) == Json::Object(self@),
        decreases self,
    {
        proof {
            use_type_invariant(self);
        }
        let mut built: Vec<(String, serde_json::Value)> = Vec::new();
        let mut i: usize = 0;
        while i < self.members.len()
            invariant
                i <= self.members.len(),
                built@.len() == i,
                forall|j: int|
                    0 <= j < i ==> (#[trigger] built@[j]).0@ == self@[j].0 && outside::contents(
                        built@[j].1,
                    ) == self@[j].1,
            decreases self.members.len() - i,
        {
            built.push((self.members[i].0.clone(), self.members[i].1.to_serde_json()));
            i = i + 1;
        }
        assert forall|a: int, b: int| 0 <= a < b < built@.len() implies crate::text::precedes(
            #[trigger] built@[a].0@,
            #[trigger] built@[b].0@,
        ) by {
            let _ = (self@[a].0, self@[b].0);
        }
        let r = outside::object_value(built);
        assert(outside::contents(r)->Object_0 =~= self@);
        r
    }
}

impl Clone for JsonValue {
    fn clone(&self) -> (r: JsonValue)
        ensures
            r@ == self@,
        decreases self,
    {
        match self {
            JsonValue::Null => JsonValue::Null,
            JsonValue::Bool(b) => JsonValue::Bool(*b),
            JsonValue::Number(n) => JsonValue::Number(n.clone()),
            JsonValue::String(s) => JsonValue::String(s.clone()),
            JsonValue::Array(items) => {
                let mut copied: Vec<JsonValue> = Vec::new();
                let mut i: usize = 0;
                while i < items.len()
                    invariant
                        i <= items.len(),
                        copied@.len() == i,
                        forall|j: int| 0 <= j < i ==> (#[trigger] copied@[j])@ == items@[j]@,
                        decreases_to!(self => items),
                    decreases items.len() - i,
                {
                    copied.push(items[i].clone());
                    i = i + 1;
                }
                let r = JsonValue::Array(copied);
                assert(shown(copied@) =~= shown(items@));
                r
            },
            JsonValue::Object(object) => JsonValue::Object(object.clone()),
        }
    }
}

impl Clone for JsonObject {
    fn clone(&self) -> (r: JsonObject)
        ensures
            r@ == self@,
        decreases self,
    {
        proof {
            use_type_invariant(self);
        }
        let mut members: Vec<(String, JsonValue)> = Vec::new();
        let mut i: usize = 0;
        while i < self.members.len()
            invariant
                i <= self.members.len(),
                members@.len() == i,
                forall|j: int|
                    0 <= j < i ==> (#[trigger] members@[j]).0@ == self@[j].0 && members@[j].1@
                        == self@[j].1,
            decreases self.members.len() - i,
        {
            members.push((self.members[i].0.clone(), self.members[i].1.clone()));
            i = i + 1;
        }
        assert((JsonObject { members })@ =~= self@);
        JsonObject { members }
    }
}

} // verus!
