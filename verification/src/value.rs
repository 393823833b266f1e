//! The engine's own JSON value representation.
//!
//! The engine is deliberately independent of any particular JSON parser: a
//! host program converts whatever representation it parses into a
//! `JsonValue` before compiling or validating. `JVal` is the mathematical
//! model of a value, used by every contract in the crate.

use vstd::prelude::*;

verus! {

broadcast use vstd::std_specs::vec::axiom_vec_index_decreases, vstd::std_specs::vec::axiom_vec_decreases_to_view, vstd::seq::axiom_seq_index_decreases, vstd::seq::axiom_seq_subrange_decreases;

/// An owned JSON value. Numbers are held as signed 64-bit integers.
#[derive(Debug)]
pub enum JsonValue {
    Null,
    Bool(bool),
    Int(i64),
    Str(String),
    Arr(Vec<JsonValue>),
    Obj(Vec<(String, JsonValue)>),
}

/// The mathematical model of a `JsonValue`.
pub enum JVal {
    Null,
    Bool(bool),
    Int(int),
    Str(Seq<char>),
    Arr(Seq<JVal>),
    Obj(Seq<(Seq<char>, JVal)>),
}

/// The model of a value: the same shape, with sequences in place of vectors
/// and character sequences in place of strings.
pub open spec fn jv(v: JsonValue) -> JVal
    decreases v,
{
    match v {
        JsonValue::Null => JVal::Null,
        JsonValue::Bool(b) => JVal::Bool(b),
        JsonValue::Int(i) => JVal::Int(i as int),
        JsonValue::Str(s) => JVal::Str(s@),
        JsonValue::Arr(items) => JVal::Arr(jv_seq(items@)),
        JsonValue::Obj(fields) => JVal::Obj(jv_fields(fields@)),
    }
}

/// The models of the elements of an array.
pub open spec fn jv_seq(s: Seq<JsonValue>) -> Seq<JVal>
    decreases s,
{
    if s.len() == 0 {
        Seq::empty()
    } else {
        jv_seq(s.drop_last()).push(jv(s.last()))
    }
}

/// The models of the fields of an object, in declaration order.
pub open spec fn jv_fields(s: Seq<(String, JsonValue)>) -> Seq<(Seq<char>, JVal)>
    decreases s,
{
    if s.len() == 0 {
        Seq::empty()
    } else {
        jv_fields(s.drop_last()).push((s.last().0@, jv(s.last().1)))
    }
}

impl View for JsonValue {
    type V = JVal;

    open spec fn view(&self) -> JVal {
        jv(*self)
    }
}

/// `jv_seq` maps the model over the elements, index by index.
pub broadcast proof fn lemma_jv_seq(s: Seq<JsonValue>)
    ensures
        (#[trigger] jv_seq(s)).len() == s.len(),
        forall|i: int| 0 <= i < s.len() ==> jv_seq(s)[i] == jv(s[i]),
    decreases s.len(),
{
    if s.len() > 0 {
        lemma_jv_seq(s.drop_last());
    }
}

/// `jv_fields` maps the model over the fields, index by index.
pub broadcast proof fn lemma_jv_fields(s: Seq<(String, JsonValue)>)
    ensures
        (#[trigger] jv_fields(s)).len() == s.len(),
        forall|i: int| 0 <= i < s.len() ==> jv_fields(s)[i] == (s[i].0@, jv(s[i].1)),
    decreases s.len(),
{
    if s.len() > 0 {
        lemma_jv_fields(s.drop_last());
    }
}

/// The value of the first field named `key`, if any.
pub open spec fn lookup_fields(fields: Seq<(Seq<char>, JVal)>, key: Seq<char>) -> Option<JVal>
    decreases fields.len(),
{
    if fields.len() == 0 {
        None
    } else if fields[0].0 == key {
        Some(fields[0].1)
    } else {
        lookup_fields(fields.drop_first(), key)
    }
}

/// Field lookup on a value: `None` on anything but an object.
pub open spec fn get_of(v: JVal, key: Seq<char>) -> Option<JVal> {
    match v {
        JVal::Obj(fields) => lookup_fields(fields, key),
        _ => None,
    }
}

impl JsonValue {
    /// Looks a field up by key; `None` when `self` is not an object or has
    /// no field of that name.
    #[verifier::loop_isolation(false)]
    pub fn get<'a>(&'a self, key: &String) -> (r: Option<&'a JsonValue>)
        ensures
            match r {
                Some(f) => get_of(self@, key@) == Some(f@),
                None => get_of(self@, key@) is None,
            },
    {
        match self {
            JsonValue::Obj(fields) => {
                proof {
                    lemma_jv_fields(fields@);
                }
                let ghost m = jv_fields(fields@);
                proof {
                    assert(m.skip(0) =~= m);
                }
                let mut i: usize = 0;
                while i < fields.len()
                    invariant
                        0 <= i <= fields.len(),
                        m == jv_fields(fields@),
                        m.len() == fields@.len(),
                        lookup_fields(m, key@) == lookup_fields(m.skip(i as int), key@),
                    decreases fields.len() - i,
                {
                    proof {
                        lemma_jv_fields(fields@);
                        assert(m.skip(i as int).len() > 0);
                        assert(m.skip(i as int)[0] == m[i as int]);
                        assert(m.skip(i as int).drop_first() =~= m.skip(i + 1));
                    }
                    if fields[i].0.eq(key) {
                        assert(m[i as int].0 == key@);
                        return Some(&fields[i].1);
                    }
                    assert(m[i as int].0 != key@);
                    i = i + 1;
                }
                assert(m.skip(i as int) =~= Seq::empty());
                None
            },
            _ => None,
        }
    }

    /// An equal value with no sharing: every vector and string is copied.
    #[verifier::loop_isolation(false)]
    pub fn deep_copy(&self) -> (r: JsonValue)
        ensures
            r@ == self@,
        decreases *self,
    {
        match self {
            JsonValue::Null => JsonValue::Null,
            JsonValue::Bool(b) => JsonValue::Bool(*b),
            JsonValue::Int(i) => JsonValue::Int(*i),
            JsonValue::Str(s) => JsonValue::Str(s.clone()),
            JsonValue::Arr(items) => {
                let mut out: Vec<JsonValue> = Vec::new();
                let mut i: usize = 0;
                while i < items.len()
                    invariant
                        0 <= i <= items.len(),
                        out@.len() == i,
                        forall|j: int| 0 <= j < i ==> jv(out@[j]) == jv(items@[j]),
                    decreases items.len() - i,
                {
                    proof {
                        assert(decreases_to!(*self => (*self)->Arr_0));
                        assert(decreases_to!(*items => items@));
                        assert(decreases_to!(items@ => items@[i as int]));
                    }
                    let c = items[i].deep_copy();
                    out.push(c);
                    i = i + 1;
                }
                proof {
                    lemma_jv_seq(out@);
                    lemma_jv_seq(items@);
                    assert(jv_seq(out@) =~= jv_seq(items@));
                }
                JsonValue::Arr(out)
            },
            JsonValue::Obj(fields) => {
                let mut out: Vec<(String, JsonValue)> = Vec::new();
                let mut i: usize = 0;
                while i < fields.len()
                    invariant
                        0 <= i <= fields.len(),
                        out@.len() == i,
                        forall|j: int| #![trigger out@[j]]
                            0 <= j < i ==> out@[j].0@ == fields@[j].0@ && jv(out@[j].1) == jv(
                                fields@[j].1,
                            ),
                    decreases fields.len() - i,
                {
                    proof {
                        assert(decreases_to!(*self => (*self)->Obj_0));
                        assert(decreases_to!(*fields => fields@));
                        assert(decreases_to!(fields@ => fields@[i as int]));
                        assert(decreases_to!(fields@[i as int] => fields@[i as int].1));
                    }
                    let k = fields[i].0.clone();
                    let c = fields[i].1.deep_copy();
                    out.push((k, c));
                    i = i + 1;
                }
                proof {
                    lemma_jv_fields(out@);
                    lemma_jv_fields(fields@);
                    assert(jv_fields(out@) =~= jv_fields(fields@));
                }
                JsonValue::Obj(out)
            },
        }
    }
}

/// Structural equality of two values: the decidable form of model equality.
/// Object fields are compared in order, as a canonical serialization would
/// compare them.
#[verifier::loop_isolation(false)]
pub fn json_eq(a: &JsonValue, b: &JsonValue) -> (r: bool)
    ensures
        r == (a@ == b@),
    decreases *a,
{
    match (a, b) {
        (JsonValue::Null, JsonValue::Null) => true,
        (JsonValue::Bool(x), JsonValue::Bool(y)) => x == y,
        (JsonValue::Int(x), JsonValue::Int(y)) => x == y,
        (JsonValue::Str(x), JsonValue::Str(y)) => x.eq(y),
        (JsonValue::Arr(x), JsonValue::Arr(y)) => {
            proof {
                lemma_jv_seq(x@);
                lemma_jv_seq(y@);
            }
            if x.len() != y.len() {
                assert(jv_seq(x@).len() != jv_seq(y@).len());
                return false;
            }
            let mut i: usize = 0;
            while i < x.len()
                invariant
                    0 <= i <= x.len(),
                    x@.len() == y@.len(),
                    jv_seq(x@).len() == x@.len() && jv_seq(y@).len() == y@.len(),
                    forall|j: int| 0 <= j < x@.len() ==> jv_seq(x@)[j] == jv(x@[j]),
                    forall|j: int| 0 <= j < y@.len() ==> jv_seq(y@)[j] == jv(y@[j]),
                    forall|j: int| 0 <= j < i ==> jv(x@[j]) == jv(y@[j]),
                decreases x.len() - i,
            {
                proof {
                    assert(decreases_to!(*a => (*a)->Arr_0));
                    assert(decreases_to!(*x => x@));
                    assert(decreases_to!(x@ => x@[i as int]));
                }
                if !json_eq(&x[i], &y[i]) {
                    assert(jv_seq(x@)[i as int] != jv_seq(y@)[i as int]);
                    return false;
                }
                i = i + 1;
            }
            proof {
                assert(jv_seq(x@) =~= jv_seq(y@));
            }
            true
        },
        (JsonValue::Obj(x), JsonValue::Obj(y)) => {
            proof {
                lemma_jv_fields(x@);
                lemma_jv_fields(y@);
            }
            if x.len() != y.len() {
                assert(jv_fields(x@).len() != jv_fields(y@).len());
                return false;
            }
            let mut i: usize = 0;
            while i < x.len()
                invariant
                    0 <= i <= x.len(),
                    x@.len() == y@.len(),
                    jv_fields(x@).len() == x@.len() && jv_fields(y@).len() == y@.len(),
                    forall|j: int| 0 <= j < x@.len() ==> jv_fields(x@)[j] == (x@[j].0@, jv(x@[j].1)),
                    forall|j: int| 0 <= j < y@.len() ==> jv_fields(y@)[j] == (y@[j].0@, jv(y@[j].1)),
                    forall|j: int| #![trigger x@[j]]
                        0 <= j < i ==> x@[j].0@ == y@[j].0@ && jv(x@[j].1) == jv(y@[j].1),
                decreases x.len() - i,
            {
                if !x[i].0.eq(&y[i].0) {
                    assert(jv_fields(x@)[i as int].0 != jv_fields(y@)[i as int].0);
                    return false;
                }
                proof {
                    assert(decreases_to!(*a => (*a)->Obj_0));
                    assert(decreases_to!(*x => x@));
                    assert(decreases_to!(x@ => x@[i as int]));
                    assert(decreases_to!(x@[i as int] => x@[i as int].1));
                }
                if !json_eq(&x[i].1, &y[i].1) {
                    assert(jv_fields(x@)[i as int].1 != jv_fields(y@)[i as int].1);
                    return false;
                }
                i = i + 1;
            }
            proof {
                assert(jv_fields(x@) =~= jv_fields(y@));
            }
            true
        },
        _ => {
            assert(a@ != b@);
            false
        },
    }
}

} // verus!

verus! {

/// The character sequences of a vector of strings, index by index.
pub open spec fn str_views(s: Seq<String>) -> Seq<Seq<char>> {
    Seq::new(s.len(), |i: int| s[i]@)
}

/// A copy of a vector of strings.
pub fn clone_strings(v: &Vec<String>) -> (r: Vec<String>)
    ensures
        str_views(r@) == str_views(v@),
{
    let mut out: Vec<String> = Vec::new();
    let mut i: usize = 0;
    while i < v.len()
        invariant
            0 <= i <= v.len(),
            out@.len() == i,
            forall|j: int| 0 <= j < i ==> out@[j]@ == v@[j]@,
        decreases v.len() - i,
    {
        out.push(v[i].clone());
        i = i + 1;
    }
    proof {
        assert(str_views(out@) =~= str_views(v@));
    }
    out
}

} // verus!
