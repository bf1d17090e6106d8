//! JSON values as they appear in event and bucket data.

use vstd::prelude::*;

verus! {

broadcast use vstd::std_specs::vec::group_vec_axioms;

/// A JSON value.
///
/// Numbers keep the three forms that the wire format tells apart: a
/// non-negative integer, a negative integer, and a finite floating-point
/// number, the last held as its IEEE 754 bit pattern.
#[derive(Debug)]
pub enum JsonValue {
    Null,
    Bool(bool),
    PosInt(u64),
    NegInt(i64),
    Float(u64),
    Str(String),
    Array(Vec<JsonValue>),
    Object(Vec<(String, JsonValue)>),
}

/// Mask of every bit of an IEEE 754 double but the sign.
pub const MAGNITUDE_MASK: u64 = 0x7fff_ffff_ffff_ffff;

/// Two finite doubles, given by their bits, compare equal: the same bits,
/// or both a zero of either sign.
pub open spec fn float_bits_eq(a: u64, b: u64) -> bool {
    a == b || (a & MAGNITUDE_MASK == 0 && b & MAGNITUDE_MASK == 0)
}

/// Deep equality of JSON values: same variant, equal scalars, arrays equal
/// element by element, and objects equal as maps: the same keys, and under
/// each key deeply equal values. (An object's keys are unique.)
pub open spec fn json_eq(a: JsonValue, b: JsonValue) -> bool
    decreases a,
{
    match a {
        JsonValue::Null => b is Null,
        JsonValue::Bool(x) => b is Bool && b->Bool_0 == x,
        JsonValue::PosInt(x) => b is PosInt && b->PosInt_0 == x,
        JsonValue::NegInt(x) => b is NegInt && b->NegInt_0 == x,
        JsonValue::Float(x) => b is Float && float_bits_eq(x, b->Float_0),
        JsonValue::Str(x) => b is Str && b->Str_0@ == x@,
        JsonValue::Array(xs) => b is Array && xs@.len() == b->Array_0@.len() && forall|i: int|
            0 <= i < xs@.len() ==> json_eq(#[trigger] xs@[i], b->Array_0@[i]),
        JsonValue::Object(xs) => b is Object && (forall|i: int|
            0 <= i < xs@.len() ==> match lookup(b->Object_0@, (#[trigger] xs@[i]).0@) {
                Some(w) => json_eq(xs@[i].1, w),
                None => false,
            }) && (forall|j: int|
            0 <= j < b->Object_0@.len() ==> lookup(xs@, (#[trigger] b->Object_0@[j]).0@) is Some),
    }
}

/// The value stored under `key`: that of the first entry with this key.
pub open spec fn lookup(data: Seq<(String, JsonValue)>, key: Seq<char>) -> Option<JsonValue>
    decreases data.len(),
{
    if data.len() == 0 {
        None
    } else if data[0].0@ == key {
        Some(data[0].1)
    } else {
        lookup(data.drop_first(), key)
    }
}

/// Finds the value stored under `key` in `data`.
pub fn data_get<'a>(data: &'a Vec<(String, JsonValue)>, key: &String) -> (r: Option<&'a JsonValue>)
    ensures
        match r {
            Some(v) => lookup(data@, key@) == Some(*v),
            None => lookup(data@, key@) is None,
        },
{
    let mut i: usize = 0;
    assert(data@.subrange(0, data@.len() as int) =~= data@);
    while i < data.len()
        invariant
            i <= data.len(),
            lookup(data@, key@) == lookup(data@.subrange(i as int, data@.len() as int), key@),
        decreases data.len() - i,
    {
        let ghost rest = data@.subrange(i as int, data@.len() as int);
        assert(rest.drop_first() =~= data@.subrange(i + 1, data@.len() as int));
        if data[i].0 == *key {
            return Some(&data[i].1);
        }
        i += 1;
    }
    None
}


fn float_equal(a: u64, b: u64) -> (r: bool)
    ensures
        r == float_bits_eq(a, b),
{
    a == b || (a & MAGNITUDE_MASK == 0 && b & MAGNITUDE_MASK == 0)
}

/// Deep equality of two JSON values.
pub fn json_equal(a: &JsonValue, b: &JsonValue) -> (r: bool)
    ensures
        r == json_eq(*a, *b),
    decreases a,
{
    match a {
        JsonValue::Null => matches!(b, JsonValue::Null),
        JsonValue::Bool(x) => match b {
            JsonValue::Bool(y) => *x == *y,
            _ => false,
        },
        JsonValue::PosInt(x) => match b {
            JsonValue::PosInt(y) => *x == *y,
            _ => false,
        },
        JsonValue::NegInt(x) => match b {
            JsonValue::NegInt(y) => *x == *y,
            _ => false,
        },
        JsonValue::Float(x) => match b {
            JsonValue::Float(y) => float_equal(*x, *y),
            _ => false,
        },
        JsonValue::Str(x) => match b {
            JsonValue::Str(y) => *x == *y,
            _ => false,
        },
        JsonValue::Array(xs) => match b {
            JsonValue::Array(ys) => {
                if xs.len() != ys.len() {
                    return false;
                }
                let mut i: usize = 0;
                while i < xs.len()
                    invariant
                        i <= xs.len(),
                        xs.len() == ys.len(),
                        *a == JsonValue::Array(*xs),
                        *b == JsonValue::Array(*ys),
                        forall|j: int| 0 <= j < i ==> json_eq(#[trigger] xs@[j], ys@[j]),
                    decreases xs.len() - i,
                {
                    proof {
                        let ghost v = *xs;
                        assert(decreases_to!(*a => (*a)->Array_0));
                        assert(decreases_to!(v => v@));
                        assert(decreases_to!(v@ => v@[i as int]));
                    }
                    if !json_equal(&xs[i], &ys[i]) {
                        assert(!json_eq(xs@[i as int], ys@[i as int]));
                        return false;
                    }
                    i += 1;
                }
                true
            },
            _ => false,
        },
        JsonValue::Object(xs) => match b {
            JsonValue::Object(ys) => {
                let mut i: usize = 0;
                while i < xs.len()
                    invariant
                        i <= xs.len(),
                        *a == JsonValue::Object(*xs),
                        *b == JsonValue::Object(*ys),
                        forall|k: int|
                            0 <= k < i ==> match lookup(ys@, (#[trigger] xs@[k]).0@) {
                                Some(w) => json_eq(xs@[k].1, w),
                                None => false,
                            },
                    decreases xs.len() - i,
                {
                    proof {
                        let ghost v = *xs;
                        assert(decreases_to!(*a => (*a)->Object_0));
                        assert(decreases_to!(v => v@));
                        assert(decreases_to!(v@ => v@[i as int]));
                        assert(decreases_to!(v@[i as int] => v@[i as int].1));
                    }
                    match data_get(ys, &xs[i].0) {
                        Some(w) => {
                            if !json_equal(&xs[i].1, w) {
                                return false;
                            }
                        },
                        None => {
                            return false;
                        },
                    }
                    i += 1;
                }
                let mut j: usize = 0;
                while j < ys.len()
                    invariant
                        j <= ys.len(),
                        *a == JsonValue::Object(*xs),
                        *b == JsonValue::Object(*ys),
                        forall|k: int| 0 <= k < xs@.len() ==> match lookup(ys@, (#[trigger] xs@[k]).0@) {
                            Some(w) => json_eq(xs@[k].1, w),
                            None => false,
                        },
                        forall|k: int| 0 <= k < j ==> lookup(xs@, (#[trigger] ys@[k]).0@) is Some,
                    decreases ys.len() - j,
                {
                    if data_get(xs, &ys[j].0).is_none() {
                        assert(!(lookup(xs@, ys@[j as int].0@) is Some));
                        return false;
                    }
                    j += 1;
                }
                true
            },
            _ => false,
        },
    }
}

impl PartialEq for JsonValue {
    fn eq(&self, other: &JsonValue) -> (r: bool) {
        json_equal(self, other)
    }
}

impl vstd::std_specs::cmp::PartialEqSpecImpl for JsonValue {
    open spec fn obeys_eq_spec() -> bool {
        false
    }

    open spec fn eq_spec(&self, other: &JsonValue) -> bool {
        json_eq(*self, *other)
    }
}

} // verus!
