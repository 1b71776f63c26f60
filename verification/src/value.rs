//! The JSON-like values that travel through XML-RPC calls and command output.

use vstd::prelude::*;

verus! {

/// A value as the API exchanges it.
///
/// Numbers that are not 64-bit integers are kept as the decimal text that
/// stands for them (`Double`); objects keep their members in order, with
/// each key at most once once built by this library.
#[derive(Debug, PartialEq)]
pub enum Value {
    Null,
    Bool(bool),
    Int(i64),
    Double(String),
    Str(String),
    Array(Vec<Value>),
    Object(Vec<(String, Value)>),
}

/// The mathematical model of a [`Value`].
pub enum Json {
    Null,
    Bool(bool),
    Int(i64),
    Double(Seq<char>),
    Str(Seq<char>),
    Array(Seq<Json>),
    Object(Seq<(Seq<char>, Json)>),
}

impl View for Value {
    type V = Json;

    open spec fn view(&self) -> Json {
        json_of(*self)
    }
}

/// The model of a value, member by member and item by item.
pub open spec fn json_of(v: Value) -> Json
    decreases v,
{
        match v {
            Value::Null => Json::Null,
            Value::Bool(b) => Json::Bool(b),
            Value::Int(i) => Json::Int(i),
            Value::Double(t) => Json::Double(t@),
            Value::Str(s) => Json::Str(s@),
            Value::Array(items) => Json::Array(
                Seq::new(
                    items.len() as nat,
                    |i: int|
                        if 0 <= i < items.len() {
                            proof {
                                vstd::std_specs::vec::axiom_vec_index_decreases(items, i);
                            }
                            json_of(items[i])
                        } else {
                            Json::Null
                        },
                ),
            ),
            Value::Object(members) => Json::Object(
                Seq::new(
                    members.len() as nat,
                    |i: int|
                        if 0 <= i < members.len() {
                            proof {
                                vstd::std_specs::vec::axiom_vec_index_decreases(members, i);
                            }
                            (members[i].0@, json_of(members[i].1))
                        } else {
                            (Seq::empty(), Json::Null)
                        },
                ),
            ),
        }
}

/// The models of a sequence of values.
pub open spec fn views(s: Seq<Value>) -> Seq<Json> {
    s.map_values(|v: Value| v@)
}

/// The models of the members of an object.
pub open spec fn member_views(ms: Seq<(String, Value)>) -> Seq<(Seq<char>, Json)> {
    ms.map_values(|m: (String, Value)| (m.0@, m.1@))
}

pub proof fn lemma_array_view(items: Vec<Value>)
    ensures
        Value::Array(items)@ == Json::Array(views(items@)),
{
    assert(Value::Array(items)@->Array_0 =~= views(items@));
}

pub proof fn lemma_object_view(members: Vec<(String, Value)>)
    ensures
        Value::Object(members)@ == Json::Object(member_views(members@)),
{
    assert(Value::Object(members)@->Object_0 =~= member_views(members@));
}

impl Value {
    /// A copy of the value, item by item and member by member.
    pub fn copy(&self) -> (r: Value)
        ensures
            r@ == self@,
        decreases self,
    {
        match self {
            Value::Null => Value::Null,
            Value::Bool(b) => Value::Bool(*b),
            Value::Int(i) => Value::Int(*i),
            Value::Double(t) => Value::Double(t.clone()),
            Value::Str(s) => Value::Str(s.clone()),
            Value::Array(arr) => {
                let mut items: Vec<Value> = Vec::new();
                let mut i: usize = 0;
                while i < arr.len()
                    invariant
                        i <= arr.len(),
                        items.len() == i,
                        forall|k: int| 0 <= k < i ==> (#[trigger] items[k])@ == arr[k]@,
                        *self == Value::Array(*arr),
                        self@ == json_of(*self),
                    decreases arr.len() - i,
                {
                    proof {
                        vstd::std_specs::vec::axiom_vec_index_decreases(*arr, i as int);
                    }
                    let c = arr[i].copy();
                    items.push(c);
                    i = i + 1;
                }
                proof {
                    assert(Value::Array(items)@->Array_0 =~= self@->Array_0);
                }
                Value::Array(items)
            },
            Value::Object(map) => {
                let mut members: Vec<(String, Value)> = Vec::new();
                let mut i: usize = 0;
                while i < map.len()
                    invariant
                        i <= map.len(),
                        members.len() == i,
                        forall|k: int|
                            0 <= k < i ==> (#[trigger] members[k]).0@ == map[k].0@ && members[k].1@
                                == map[k].1@,
                        *self == Value::Object(*map),
                        self@ == json_of(*self),
                    decreases map.len() - i,
                {
                    proof {
                        vstd::std_specs::vec::axiom_vec_index_decreases(*map, i as int);
                    }
                    let c = map[i].1.copy();
                    members.push((map[i].0.clone(), c));
                    i = i + 1;
                }
                proof {
                    assert(Value::Object(members)@->Object_0 =~= self@->Object_0);
                }
                Value::Object(members)
            },
        }
    }
}

/// Whether an object has a member of this name.
pub open spec fn has_key(ms: Seq<(Seq<char>, Json)>, k: Seq<char>) -> bool {
    exists|i: int| 0 <= i < ms.len() && #[trigger] ms[i].0 == k
}

/// `i` is the position of the first member named `k`.
pub open spec fn is_first_key(ms: Seq<(Seq<char>, Json)>, k: Seq<char>, i: int) -> bool {
    &&& 0 <= i < ms.len()
    &&& ms[i].0 == k
    &&& forall|j: int| 0 <= j < i ==> (#[trigger] ms[j]).0 != k
}

/// The position of the first member named `k`.
pub open spec fn key_index(ms: Seq<(Seq<char>, Json)>, k: Seq<char>) -> int {
    choose|i: int| is_first_key(ms, k, i)
}

/// The value of the member named `k`, if there is one.
pub open spec fn lookup(ms: Seq<(Seq<char>, Json)>, k: Seq<char>) -> Option<Json> {
    if has_key(ms, k) {
        Some(ms[key_index(ms, k)].1)
    } else {
        None
    }
}

/// Sets the member named `k`: its value is replaced in place when it is
/// there, otherwise the member is added at the end.
pub open spec fn insert_member(ms: Seq<(Seq<char>, Json)>, k: Seq<char>, v: Json) -> Seq<
    (Seq<char>, Json),
> {
    if has_key(ms, k) {
        ms.update(key_index(ms, k), (k, v))
    } else {
        ms.push((k, v))
    }
}

/// No two members share a name.
pub open spec fn distinct_keys(ms: Seq<(Seq<char>, Json)>) -> bool {
    forall|i: int, j: int| 0 <= i < ms.len() && 0 <= j < ms.len() && i != j ==> (#[trigger] ms[i]).0 != (#[trigger] ms[j]).0
}

/// Setting a member keeps the names distinct; afterwards the name has the
/// value set, and every other name keeps its value.
pub proof fn setting_a_member(ms: Seq<(Seq<char>, Json)>, k: Seq<char>, v: Json)
    requires
        distinct_keys(ms),
    ensures
        distinct_keys(insert_member(ms, k, v)),
        lookup(insert_member(ms, k, v), k) == Some(v),
        forall|k2: Seq<char>| k2 != k ==> #[trigger] lookup(insert_member(ms, k, v), k2) == lookup(ms, k2),
{
    let r = insert_member(ms, k, v);
    if has_key(ms, k) {
        let i = key_index(ms, k);
        let w = choose|w: int| 0 <= w < ms.len() && #[trigger] ms[w].0 == k;
        assert(is_first_key(ms, k, w)) by {
            assert forall|j: int| 0 <= j < w implies (#[trigger] ms[j]).0 != k by {
                if ms[j].0 == k {
                    assert(ms[j].0 == ms[w].0);
                }
            }
        }
        lemma_first_key(ms, k, w);
        assert(r == ms.update(i, (k, v)));
        assert forall|a: int, b: int| 0 <= a < r.len() && 0 <= b < r.len() && a != b implies (#[trigger] r[a]).0 != (#[trigger] r[b]).0 by {
            if a == i {
                assert(r[b].0 == ms[b].0);
            } else if b == i {
                assert(r[a].0 == ms[a].0);
            } else {
                assert(r[a] == ms[a] && r[b] == ms[b]);
            }
        }
        lemma_first_key_unique(r, k, i);
        assert forall|k2: Seq<char>| k2 != k implies #[trigger] lookup(r, k2) == lookup(ms, k2) by {
            lemma_lookup_same(ms, r, k2, i);
        }
    } else {
        assert(r == ms.push((k, v)));
        assert forall|a: int, b: int| 0 <= a < r.len() && 0 <= b < r.len() && a != b implies (#[trigger] r[a]).0 != (#[trigger] r[b]).0 by {
            if a == ms.len() {
                assert(ms[b].0 != k);
            } else if b == ms.len() {
                assert(ms[a].0 != k);
            } else {
                assert(r[a] == ms[a] && r[b] == ms[b]);
            }
        }
        lemma_first_key_unique(r, k, ms.len() as int);
        assert forall|k2: Seq<char>| k2 != k implies #[trigger] lookup(r, k2) == lookup(ms, k2) by {
            lemma_lookup_same(ms, r, k2, ms.len() as int);
        }
    }
}

proof fn lemma_first_key_unique(ms: Seq<(Seq<char>, Json)>, k: Seq<char>, i: int)
    requires
        distinct_keys(ms),
        0 <= i < ms.len(),
        ms[i].0 == k,
    ensures
        lookup(ms, k) == Some(ms[i].1),
{
    assert(is_first_key(ms, k, i)) by {
        assert forall|j: int| 0 <= j < i implies (#[trigger] ms[j]).0 != k by {
            assert(ms[j].0 != ms[i].0);
        }
    }
    lemma_first_key(ms, k, i);
}

/// Two member lists that agree everywhere but at position `i` (where `r`
/// may also have one more member), and whose names agree everywhere else,
/// give every other name the same value.
proof fn lemma_lookup_same(ms: Seq<(Seq<char>, Json)>, r: Seq<(Seq<char>, Json)>, k2: Seq<char>, i: int)
    requires
        distinct_keys(ms),
        distinct_keys(r),
        0 <= i <= ms.len(),
        r.len() == ms.len() || (r.len() == ms.len() + 1 && i == ms.len()),
        forall|j: int| 0 <= j < ms.len() && j != i ==> #[trigger] r[j] == ms[j],
        i < r.len() && r[i].0 != k2,
        i < ms.len() ==> ms[i].0 == r[i].0,
    ensures
        lookup(r, k2) == lookup(ms, k2),
{
    if has_key(ms, k2) {
        let w = choose|w: int| 0 <= w < ms.len() && #[trigger] ms[w].0 == k2;
        assert(w != i);
        assert(r[w] == ms[w]);
        lemma_first_key_unique(ms, k2, w);
        lemma_first_key_unique(r, k2, w);
    } else if has_key(r, k2) {
        let w = choose|w: int| 0 <= w < r.len() && #[trigger] r[w].0 == k2;
        assert(w != i);
        assert(ms[w] == r[w]);
    }
}

pub proof fn lemma_first_key(ms: Seq<(Seq<char>, Json)>, k: Seq<char>, i: int)
    requires
        is_first_key(ms, k, i),
    ensures
        has_key(ms, k),
        key_index(ms, k) == i,
{
    assert(ms[i].0 == k);
    let c = key_index(ms, k);
    assert(is_first_key(ms, k, c));
    if c < i {
        assert(ms[c].0 != k);
    } else if i < c {
        assert(ms[i].0 != k);
    }
}

/// The position of the first member named `k`, if any.
pub fn find_member(members: &Vec<(String, Value)>, k: &String) -> (r: Option<usize>)
    ensures
        r matches Some(i) ==> is_first_key(member_views(members@), k@, i as int) && has_key(
            member_views(members@),
            k@,
        ) && key_index(member_views(members@), k@) == i,
        r is None ==> !has_key(member_views(members@), k@),
{
    let ghost ms = member_views(members@);
    let mut i: usize = 0;
    while i < members.len()
        invariant
            i <= members.len(),
            ms == member_views(members@),
            forall|j: int| 0 <= j < i ==> (#[trigger] ms[j]).0 != k@,
        decreases members.len() - i,
    {
        if members[i].0 == *k {
            proof {
                lemma_first_key(ms, k@, i as int);
            }
            return Some(i);
        }
        i = i + 1;
    }
    proof {
        if has_key(ms, k@) {
            let w = choose|w: int| 0 <= w < ms.len() && #[trigger] ms[w].0 == k@;
            assert(ms[w].0 != k@);
        }
    }
    None
}

/// Sets a member: replaces the value of the member named `k` in place, or
/// appends the member when there is none of that name.
pub fn set_member(members: &mut Vec<(String, Value)>, k: String, v: Value)
    ensures
        member_views(final(members)@) == insert_member(member_views(old(members)@), k@, v@),
{
    let found = find_member(members, &k);
    let ghost kv = k@;
    let ghost vv = v@;
    match found {
        Some(i) => {
            members.set(i, (k, v));
            proof {
                assert(member_views(members@) =~= member_views(old(members)@).update(i as int, (kv, vv)));
            }
        },
        None => {
            members.push((k, v));
            proof {
                assert(member_views(members@) =~= member_views(old(members)@).push((kv, vv)));
            }
        },
    }
}

} // verus!
