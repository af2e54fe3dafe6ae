//! A plain model of JSON values as they travel through events and configuration.
use vstd::prelude::*;
use crate::text::str_eq;

verus! {

/// A JSON number, kept exactly as the JSON data model distinguishes it.
#[derive(Clone, Copy, PartialEq, Eq, Debug)]
pub enum JsonNumber {
    /// A non-negative integer.
    PosInt(u64),
    /// A negative integer.
    NegInt(i64),
    /// A floating-point number, held as the bits of its IEEE-754 double.
    Float(u64),
}

/// A JSON value.
#[derive(Debug)]
pub enum JsonValue {
    Null,
    Bool(bool),
    Number(JsonNumber),
    Str(String),
    Array(Vec<JsonValue>),
    /// Members in document order; keys are unique.
    Object(Vec<(String, JsonValue)>),
}

/// The mathematical content of a [`JsonValue`].
pub enum JsonView {
    Null,
    Bool(bool),
    Number(JsonNumber),
    Str(Seq<char>),
    Array(Seq<JsonView>),
    Object(Seq<(Seq<char>, JsonView)>),
}

pub open spec fn json_view(v: JsonValue) -> JsonView
    decreases v, 0nat,
{
    match v {
        JsonValue::Null => JsonView::Null,
        JsonValue::Bool(b) => JsonView::Bool(b),
        JsonValue::Number(n) => JsonView::Number(n),
        JsonValue::Str(s) => JsonView::Str(s@),
        JsonValue::Array(a) => JsonView::Array(json_array_view(a@, a@.len())),
        JsonValue::Object(o) => JsonView::Object(json_object_view(o@, o@.len())),
    }
}

pub open spec fn json_array_view(s: Seq<JsonValue>, n: nat) -> Seq<JsonView>
    decreases s, n,
{
    if n == 0 || n > s.len() {
        Seq::empty()
    } else {
        json_array_view(s, (n - 1) as nat).push(json_view(s[n - 1]))
    }
}

pub open spec fn json_object_view(s: Seq<(String, JsonValue)>, n: nat) -> Seq<(Seq<char>, JsonView)>
    decreases s, n,
{
    if n == 0 || n > s.len() {
        Seq::empty()
    } else {
        json_object_view(s, (n - 1) as nat).push((s[n - 1].0@, json_view(s[n - 1].1)))
    }
}


impl JsonValue {
    /// The mathematical content of this value.
    pub open spec fn view(&self) -> JsonView {
        json_view(*self)
    }

    /// Copies the value.
    #[verifier::loop_isolation(false)]
    pub fn deep_clone(&self) -> (res: JsonValue)
        ensures
            json_view(res) == json_view(*self),
        decreases *self, 1nat,
    {
        match self {
            JsonValue::Null => JsonValue::Null,
            JsonValue::Bool(b) => JsonValue::Bool(*b),
            JsonValue::Number(n) => JsonValue::Number(*n),
            JsonValue::Str(s) => JsonValue::Str(s.clone()),
            JsonValue::Array(a) => {
                let mut out: Vec<JsonValue> = Vec::new();
                let mut i: usize = 0;
                while i < a.len()
                    invariant
                        i <= a.len(),
                        out@.len() == i,
                        json_array_view(out@, i as nat) == json_array_view(a@, i as nat),
                        forall|k: int| 0 <= k < i ==> json_view(#[trigger] out@[k]) == json_view(a@[k]),
                    decreases a.len() - i,
                {
                    proof {
                        assert(decreases_to!(*self => self->Array_0));
                        assert(self->Array_0 == *a);
                        assert(decreases_to!(*a => a@));
                        assert(decreases_to!(a@ => a@[i as int]));
                    }
                    let c = a[i].deep_clone();
                    let ghost prev = out@;
                    out.push(c);
                    proof {
                        lemma_array_view_prefix(prev, out@, i as nat);
                        lemma_array_view_prefix(a@, a@, i as nat);
                    }
                    i = i + 1;
                }
                JsonValue::Array(out)
            },
            JsonValue::Object(o) => {
                proof {
                    assert(decreases_to!(*self => self->Object_0));
                    assert(self->Object_0 == *o);
                }
                JsonValue::Object(clone_members_of(self, o))
            },
        }
    }
}

/// Copies a list of object members.
pub fn clone_members(o: &Vec<(String, JsonValue)>) -> (out: Vec<(String, JsonValue)>)
    ensures
        json_object_view(out@, out@.len()) == json_object_view(o@, o@.len()),
        out@.len() == o@.len(),
{
    let mut out: Vec<(String, JsonValue)> = Vec::new();
    let mut i: usize = 0;
    while i < o.len()
        invariant
            i <= o.len(),
            out@.len() == i,
            json_object_view(out@, i as nat) == json_object_view(o@, i as nat),
        decreases o.len() - i,
    {
        let k = o[i].0.clone();
        let v = o[i].1.deep_clone();
        let ghost prev = out@;
        out.push((k, v));
        proof {
            lemma_object_view_prefix(prev, out@, i as nat);
        }
        i = i + 1;
    }
    proof { lemma_object_view_len(out@, out@.len()); lemma_object_view_len(o@, o@.len()); }
    out
}

/// Copies the members of an object value.
#[verifier::loop_isolation(false)]
fn clone_members_of(parent: &JsonValue, o: &Vec<(String, JsonValue)>) -> (out: Vec<(String, JsonValue)>)
    requires
        decreases_to!(*parent => *o),
    ensures
        json_object_view(out@, out@.len()) == json_object_view(o@, o@.len()),
        out@.len() == o@.len(),
    decreases *parent, 0nat,
{
                let mut out: Vec<(String, JsonValue)> = Vec::new();
                let mut i: usize = 0;
                while i < o.len()
                    invariant
                        i <= o.len(),
                        out@.len() == i,
                        json_object_view(out@, i as nat) == json_object_view(o@, i as nat),
                    decreases o.len() - i,
                {
                    let k = o[i].0.clone();
                    proof {
                        assert(decreases_to!(*o => o@));
                        assert(decreases_to!(o@ => o@[i as int]));
                        assert(decreases_to!(o@[i as int] => o@[i as int].1));
                    }
                    let v = o[i].1.deep_clone();
                    let ghost prev = out@;
                    out.push((k, v));
                    proof {
                        lemma_object_view_prefix(prev, out@, i as nat);
                    }
                    i = i + 1;
                }
                proof { lemma_object_view_len(out@, out@.len()); lemma_object_view_len(o@, o@.len()); }
                out
}

impl JsonValue {
    /// The string held by this value, if it is a string.
    pub fn as_str(&self) -> (res: Option<&String>)
        ensures
            match json_view(*self) {
                JsonView::Str(s) => res is Some && res->0@ == s,
                _ => res is None,
            },
    {
        match self {
            JsonValue::Str(s) => Some(s),
            _ => None,
        }
    }

    /// The boolean held by this value, if it is a boolean.
    pub fn as_bool(&self) -> (res: Option<bool>)
        ensures
            res == json_as_bool(json_view(*self)),
    {
        match self {
            JsonValue::Bool(b) => Some(*b),
            _ => None,
        }
    }

    /// The value as an unsigned 64-bit integer, if it is a non-negative integer number.
    pub fn as_u64(&self) -> (res: Option<u64>)
        ensures
            res == json_as_u64(json_view(*self)),
    {
        match self {
            JsonValue::Number(JsonNumber::PosInt(n)) => Some(*n),
            _ => None,
        }
    }

    /// Whether this value is an object.
    pub fn is_object(&self) -> (res: bool)
        ensures
            res == (json_view(*self) is Object),
    {
        match self {
            JsonValue::Object(_) => true,
            _ => false,
        }
    }

    /// The member called `key`, if this value is an object that has one.
    #[verifier::loop_isolation(false)]
    pub fn get(&self, key: &str) -> (res: Option<&JsonValue>)
        ensures
            match json_get(json_view(*self), key@) {
                Some(v) => res is Some && json_view(*res->0) == v,
                None => res is None,
            },
    {
        match self {
            JsonValue::Object(o) => {
                let ghost members = json_object_view(o@, o@.len());
                proof { lemma_object_view_len(o@, o@.len()); }
                let mut i: usize = 0;
                while i < o.len()
                    invariant
                        i <= o.len(),
                        members == json_object_view(o@, o@.len()),
                        members.len() == o@.len(),
                        forall|k: int| 0 <= k < i ==> (#[trigger] members[k]).0 != key@,
                    decreases o.len() - i,
                {
                    proof { lemma_object_view_index(o@, i as int); }
                    if str_eq(o[i].0.as_str(), key) {
                        proof {
                            lemma_first_match(members, key@, i as int);
                            assert(json_view(*self) == JsonView::Object(members));
                            assert(members[i as int].1 == json_view(o@[i as int].1));
                        }
                        return Some(&o[i].1);
                    }
                    i = i + 1;
                }
                proof { lemma_no_match(members, key@); }
                None
            },
            _ => None,
        }
    }
}

/// The boolean of a boolean value.
pub open spec fn json_as_bool(v: JsonView) -> Option<bool> {
    match v {
        JsonView::Bool(b) => Some(b),
        _ => None,
    }
}

/// The integer of a non-negative integer number.
pub open spec fn json_as_u64(v: JsonView) -> Option<u64> {
    match v {
        JsonView::Number(JsonNumber::PosInt(n)) => Some(n),
        _ => None,
    }
}

/// The string of a string value.
pub open spec fn json_as_str(v: JsonView) -> Option<Seq<char>> {
    match v {
        JsonView::Str(s) => Some(s),
        _ => None,
    }
}

/// Index of the first member named `key`, searching from `from`.
pub open spec fn first_member_index(members: Seq<(Seq<char>, JsonView)>, key: Seq<char>) -> Option<int> {
    if exists|i: int| 0 <= i < members.len() && members[i].0 == key {
        Some(choose|i: int| 0 <= i < members.len() && members[i].0 == key
            && forall|j: int| 0 <= j < i ==> members[j].0 != key)
    } else {
        None
    }
}

/// Member lookup: the first member of an object with the given key; `None` for any other value.
pub open spec fn json_get(v: JsonView, key: Seq<char>) -> Option<JsonView> {
    match v {
        JsonView::Object(members) => match first_member_index(members, key) {
            Some(i) => Some(members[i].1),
            None => None,
        },
        _ => None,
    }
}

proof fn lemma_first_match(members: Seq<(Seq<char>, JsonView)>, key: Seq<char>, i: int)
    requires
        0 <= i < members.len(),
        members[i].0 == key,
        forall|j: int| 0 <= j < i ==> members[j].0 != key,
    ensures
        first_member_index(members, key) == Some(i),
{
    let c = choose|c: int| 0 <= c < members.len() && members[c].0 == key
        && forall|j: int| 0 <= j < c ==> members[j].0 != key;
    assert(0 <= c < members.len() && members[c].0 == key && forall|j: int| 0 <= j < c ==> members[j].0 != key);
    if c < i {
        assert(members[c].0 != key);
    }
    if c > i {
        assert(members[i].0 != key);
    }
}

proof fn lemma_no_match(members: Seq<(Seq<char>, JsonView)>, key: Seq<char>)
    requires
        forall|k: int| 0 <= k < members.len() ==> (#[trigger] members[k]).0 != key,
    ensures
        first_member_index(members, key) is None,
{
}

proof fn lemma_array_view_prefix(a: Seq<JsonValue>, b: Seq<JsonValue>, n: nat)
    requires
        n <= a.len(),
        n <= b.len(),
        forall|k: int| 0 <= k < n ==> a[k] == b[k],
    ensures
        json_array_view(a, n) == json_array_view(b, n),
    decreases n,
{
    if n > 0 {
        lemma_array_view_prefix(a, b, (n - 1) as nat);
    }
}

proof fn lemma_object_view_prefix(a: Seq<(String, JsonValue)>, b: Seq<(String, JsonValue)>, n: nat)
    requires
        n <= a.len(),
        n <= b.len(),
        forall|k: int| 0 <= k < n ==> a[k] == b[k],
    ensures
        json_object_view(a, n) == json_object_view(b, n),
    decreases n,
{
    if n > 0 {
        lemma_object_view_prefix(a, b, (n - 1) as nat);
    }
}

/// The `i`th member of an object's view is the view of its `i`th member.
pub proof fn lemma_object_view_index(s: Seq<(String, JsonValue)>, i: int)
    requires
        0 <= i < s.len(),
    ensures
        json_object_view(s, s.len()).len() == s.len(),
        json_object_view(s, s.len())[i] == (s[i].0@, json_view(s[i].1)),
{
    lemma_object_view_len_index(s, s.len(), i);
}

proof fn lemma_object_view_len(s: Seq<(String, JsonValue)>, n: nat)
    requires
        n <= s.len(),
    ensures
        json_object_view(s, n).len() == n,
    decreases n,
{
    if n > 0 {
        lemma_object_view_len(s, (n - 1) as nat);
    }
}

proof fn lemma_object_view_len_index(s: Seq<(String, JsonValue)>, n: nat, i: int)
    requires
        n <= s.len(),
        0 <= i < n,
    ensures
        json_object_view(s, n).len() == n,
        json_object_view(s, n)[i] == (s[i].0@, json_view(s[i].1)),
    decreases n,
{
    lemma_object_view_len(s, (n - 1) as nat);
    if i < n - 1 {
        lemma_object_view_len_index(s, (n - 1) as nat, i);
    }
}


proof fn lemma_array_view_len(s: Seq<JsonValue>, n: nat)
    requires
        n <= s.len(),
    ensures
        json_array_view(s, n).len() == n,
    decreases n,
{
    if n > 0 {
        lemma_array_view_len(s, (n - 1) as nat);
    }
}

proof fn lemma_array_view_len_index(s: Seq<JsonValue>, n: nat, i: int)
    requires
        n <= s.len(),
        0 <= i < n,
    ensures
        json_array_view(s, n).len() == n,
        json_array_view(s, n)[i] == json_view(s[i]),
    decreases n,
{
    lemma_array_view_len(s, (n - 1) as nat);
    if i < n - 1 {
        lemma_array_view_len_index(s, (n - 1) as nat, i);
    }
}

/// The view of an array has one element per element, each the view of its counterpart.
pub proof fn lemma_array_view(s: Seq<JsonValue>)
    ensures
        json_array_view(s, s.len()).len() == s.len(),
        forall|i: int| 0 <= i < s.len() ==> #[trigger] json_array_view(s, s.len())[i] == json_view(s[i]),
{
    lemma_array_view_len(s, s.len());
    assert forall|i: int| 0 <= i < s.len() implies #[trigger] json_array_view(s, s.len())[i] == json_view(s[i]) by {
        lemma_array_view_len_index(s, s.len(), i);
    }
}

/// The view of an object has one member per member, each the view of its counterpart.
pub proof fn lemma_object_view(s: Seq<(String, JsonValue)>)
    ensures
        json_object_view(s, s.len()).len() == s.len(),
        forall|i: int| 0 <= i < s.len() ==> #[trigger] json_object_view(s, s.len())[i] == (s[i].0@, json_view(s[i].1)),
{
    lemma_object_view_len(s, s.len());
    assert forall|i: int| 0 <= i < s.len() implies #[trigger] json_object_view(s, s.len())[i] == (s[i].0@, json_view(s[i].1)) by {
        lemma_object_view_len_index(s, s.len(), i);
    }
}

} // verus!
