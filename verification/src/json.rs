//! The structured-value model: a JSON value with numbers kept as exact
//! decimals, together with its mathematical view and the basic operations on
//! object members.
use vstd::prelude::*;

verus! {

/// A JSON number as an exact decimal: the value is `m / 10^s`.
///
/// A well-formed number is normalized: at most 18 fractional digits, no
/// trailing zero in the fraction, and zero is always `(0, 0)`.
#[derive(Debug)]
pub struct JNum {
    pub m: i64,
    pub s: u32,
}

/// A structured value: the result of parsing a JSON document.
#[derive(Debug)]
pub enum Json {
    Null,
    Bool(bool),
    Num(JNum),
    Str(String),
    Arr(Vec<Json>),
    Obj(Vec<(String, Json)>),
}

/// The mathematical model of a structured value.
#[verifier::ext_equal]
pub enum JsonV {
    Null,
    Bool(bool),
    Num { m: int, s: nat },
    Str(Seq<char>),
    Arr(Seq<JsonV>),
    Obj(Seq<(Seq<char>, JsonV)>),
}

/// The views of the elements of an array.
pub open spec fn arr_view(s: Seq<Json>) -> Seq<JsonV>
    decreases s,
{
    Seq::new(
        s.len(),
        |i: int|
            {
                proof {
                    if 0 <= i < s.len() {
                        assert(decreases_to!(s => s[i]));
                    }
                }
                if 0 <= i < s.len() {
                    s[i]@
                } else {
                    JsonV::Null
                }
            },
    )
}

/// The views of the members of an object.
pub open spec fn obj_view(s: Seq<(String, Json)>) -> Seq<(Seq<char>, JsonV)>
    decreases s,
{
    Seq::new(
        s.len(),
        |i: int|
            {
                proof {
                    if 0 <= i < s.len() {
                        assert(decreases_to!(s => s[i]));
                        assert(decreases_to!(s[i] => s[i].1));
                    }
                }
                if 0 <= i < s.len() {
                    (s[i].0@, s[i].1@)
                } else {
                    (Seq::<char>::empty(), JsonV::Null)
                }
            },
    )
}

impl View for Json {
    type V = JsonV;

    open spec fn view(&self) -> JsonV
        decreases self,
    {
        match self {
            Json::Null => JsonV::Null,
            Json::Bool(b) => JsonV::Bool(*b),
            Json::Num(n) => JsonV::Num { m: n.m as int, s: n.s as nat },
            Json::Str(s) => JsonV::Str(s@),
            Json::Arr(a) => JsonV::Arr(arr_view(a@)),
            Json::Obj(o) => JsonV::Obj(obj_view(o@)),
        }
    }
}

/// Whether a decimal is normalized and within the supported range.
pub open spec fn num_wf(m: int, s: nat) -> bool {
    &&& i64::MIN <= m <= i64::MAX
    &&& s <= 18
    &&& s > 0 ==> m % 10 != 0
    &&& m == 0 ==> s == 0
}

/// Every element of an array is well-formed.
pub open spec fn wf_arr(a: Seq<JsonV>) -> bool
    decreases a,
{
    forall|i: int| 0 <= i < a.len() ==> wf(#[trigger] a[i])
}

/// Every member value of an object is well-formed.
pub open spec fn wf_obj_vals(o: Seq<(Seq<char>, JsonV)>) -> bool
    decreases o,
{
    forall|i: int| 0 <= i < o.len() ==> wf(#[trigger] o[i].1)
}

/// No two members of an object share a key.
pub open spec fn distinct_keys(o: Seq<(Seq<char>, JsonV)>) -> bool {
    forall|i: int, j: int| 0 <= i < j < o.len() ==> o[i].0 != o[j].0
}

/// Well-formedness of a value: numbers are normalized and object keys are
/// distinct.
pub open spec fn wf(v: JsonV) -> bool
    decreases v,
{
    match v {
        JsonV::Null => true,
        JsonV::Bool(_) => true,
        JsonV::Num { m, s } => num_wf(m, s),
        JsonV::Str(_) => true,
        JsonV::Arr(a) => wf_arr(a),
        JsonV::Obj(o) => wf_obj_vals(o) && distinct_keys(o),
    }
}

/// Index of the first member at or after `i` whose key is `k`, or the length
/// when there is none.
pub open spec fn key_index_from(ms: Seq<(Seq<char>, JsonV)>, k: Seq<char>, i: int) -> int
    decreases ms.len() - i,
{
    if i < 0 || i >= ms.len() {
        ms.len() as int
    } else if ms[i].0 == k {
        i
    } else {
        key_index_from(ms, k, i + 1)
    }
}

pub open spec fn key_index(ms: Seq<(Seq<char>, JsonV)>, k: Seq<char>) -> int {
    key_index_from(ms, k, 0)
}

/// The member named `k` of an object's member list, if any.
pub open spec fn obj_get_v(ms: Seq<(Seq<char>, JsonV)>, k: Seq<char>) -> Option<JsonV> {
    let j = key_index(ms, k);
    if j < ms.len() {
        Some(ms[j].1)
    } else {
        None
    }
}

/// The member named `k` of a value, when the value is an object.
pub open spec fn get_member(v: JsonV, k: Seq<char>) -> Option<JsonV> {
    match v {
        JsonV::Obj(ms) => obj_get_v(ms, k),
        _ => None,
    }
}

/// Member update: replaces the member named `k`, or appends one.
pub open spec fn obj_set_v(ms: Seq<(Seq<char>, JsonV)>, k: Seq<char>, v: JsonV) -> Seq<
    (Seq<char>, JsonV),
> {
    let j = key_index(ms, k);
    if j < ms.len() {
        ms.update(j, (k, v))
    } else {
        ms.push((k, v))
    }
}

pub proof fn lemma_key_index_bounds(ms: Seq<(Seq<char>, JsonV)>, k: Seq<char>, i: int)
    requires
        0 <= i <= ms.len(),
    ensures
        i <= key_index_from(ms, k, i) <= ms.len(),
        key_index_from(ms, k, i) < ms.len() ==> ms[key_index_from(ms, k, i)].0 == k,
        forall|j: int|
            i <= j < key_index_from(ms, k, i) ==> (#[trigger] ms[j]).0 != k,
    decreases ms.len() - i,
{
    if i < ms.len() && ms[i].0 != k {
        lemma_key_index_bounds(ms, k, i + 1);
    }
}

impl Json {
    /// The member of an object value under a given key.
    pub fn get<'a>(&'a self, k: &str) -> (r: Option<&'a Json>)
        ensures
            match r {
                Some(v) => get_member(self@, k@) == Some(v@),
                None => get_member(self@, k@) is None,
            },
    {
        match self {
            Json::Obj(ms) => obj_find(ms, k),
            _ => None,
        }
    }
}

/// First member of `ms` whose key equals `k`.
pub fn obj_find<'a>(ms: &'a Vec<(String, Json)>, k: &str) -> (r: Option<&'a Json>)
    ensures
        ({
            let msv = obj_view(ms@);
            match r {
                Some(v) => obj_get_v(msv, k@) == Some(v@),
                None => obj_get_v(msv, k@) is None,
            }
        }),
{
    let ghost msv = obj_view(ms@);
    let mut i: usize = 0;
    while i < ms.len()
        invariant
            0 <= i <= ms.len(),
            msv == obj_view(ms@),
            key_index_from(msv, k@, 0) == key_index_from(msv, k@, i as int),
        decreases ms.len() - i,
    {
        if crate::text::str_eq(ms[i].0.as_str(), k) {
            assert(key_index_from(msv, k@, i as int) == i);
            return Some(&ms[i].1);
        }
        assert(key_index_from(msv, k@, i as int) == key_index_from(msv, k@, i + 1));
        i = i + 1;
    }
    assert(key_index_from(msv, k@, i as int) == ms@.len());
    None
}

/// Structural equality of two values.
#[verifier::loop_isolation(false)]
pub fn json_eq(a: &Json, b: &Json) -> (r: bool)
    ensures
        r == (a@ == b@),
    decreases *a,
{
    match (a, b) {
        (Json::Null, Json::Null) => true,
        (Json::Bool(x), Json::Bool(y)) => x == y,
        (Json::Num(x), Json::Num(y)) => x.m == y.m && x.s == y.s,
        (Json::Str(x), Json::Str(y)) => crate::text::str_eq(x.as_str(), y.as_str()),
        (Json::Arr(x), Json::Arr(y)) => {
            proof {
                assert(a@ == JsonV::Arr(arr_view(x@)));
                assert(b@ == JsonV::Arr(arr_view(y@)));
            }
            if x.len() != y.len() {
                assert(a@->Arr_0.len() != b@->Arr_0.len());
                return false;
            }
            let mut i: usize = 0;
            while i < x.len()
                invariant
                    0 <= i <= x.len(),
                    forall|j: int| 0 <= j < i ==> x@[j]@ == y@[j]@,
                decreases x.len() - i,
            {
                if !json_eq(&x[i], &y[i]) {
                    assert(a@->Arr_0[i as int] != b@->Arr_0[i as int]);
                    return false;
                }
                i = i + 1;
            }
            proof {
                assert(a@->Arr_0 =~= b@->Arr_0);
            }
            true
        },
        (Json::Obj(x), Json::Obj(y)) => {
            proof {
                assert(a@ == JsonV::Obj(obj_view(x@)));
                assert(b@ == JsonV::Obj(obj_view(y@)));
            }
            if x.len() != y.len() {
                assert(a@->Obj_0.len() != b@->Obj_0.len());
                return false;
            }
            let mut i: usize = 0;
            while i < x.len()
                invariant
                    0 <= i <= x.len(),
                    forall|j: int| 0 <= j < i ==> x@[j].0@ == y@[j].0@ && x@[j].1@ == y@[j].1@,
                decreases x.len() - i,
            {
                if !crate::text::str_eq(x[i].0.as_str(), y[i].0.as_str()) {
                    assert(a@->Obj_0[i as int].0 != b@->Obj_0[i as int].0);
                    return false;
                }
                if !json_eq(&x[i].1, &y[i].1) {
                    assert(a@->Obj_0[i as int].1 != b@->Obj_0[i as int].1);
                    return false;
                }
                i = i + 1;
            }
            proof {
                assert(a@->Obj_0 =~= b@->Obj_0);
            }
            true
        },
        _ => {
            proof {
                assert(a@ != b@);
            }
            false
        },
    }
}

/// A deep copy of a value.
#[verifier::loop_isolation(false)]
pub fn json_clone(v: &Json) -> (r: Json)
    ensures
        r@ == v@,
    decreases *v,
{
    match v {
        Json::Null => Json::Null,
        Json::Bool(b) => Json::Bool(*b),
        Json::Num(n) => Json::Num(JNum { m: n.m, s: n.s }),
        Json::Str(s) => Json::Str(s.clone()),
        Json::Arr(a) => {
            let mut out: Vec<Json> = Vec::new();
            let mut i: usize = 0;
            while i < a.len()
                invariant
                    0 <= i <= a.len(),
                    out@.len() == i,
                    forall|j: int| 0 <= j < i ==> out@[j]@ == a@[j]@,
                decreases a.len() - i,
            {
                out.push(json_clone(&a[i]));
                i = i + 1;
            }
            let r = Json::Arr(out);
            proof {
                assert(r@->Arr_0 =~= v@->Arr_0);
            }
            r
        },
        Json::Obj(o) => {
            let mut out: Vec<(String, Json)> = Vec::new();
            let mut i: usize = 0;
            while i < o.len()
                invariant
                    0 <= i <= o.len(),
                    out@.len() == i,
                    forall|j: int| 0 <= j < i ==> out@[j].0@ == o@[j].0@ && out@[j].1@ == o@[j].1@,
                decreases o.len() - i,
            {
                out.push((o[i].0.clone(), json_clone(&o[i].1)));
                i = i + 1;
            }
            let r = Json::Obj(out);
            proof {
                assert(r@->Obj_0 =~= v@->Obj_0);
            }
            r
        },
    }
}

/// What well-formedness of an object value gives for its members.
pub proof fn lemma_wf_obj_elim(ms: Seq<(Seq<char>, JsonV)>)
    requires
        wf(JsonV::Obj(ms)),
    ensures
        forall|i: int| 0 <= i < ms.len() ==> wf(#[trigger] ms[i].1),
        forall|i: int, j: int| 0 <= i < j < ms.len() ==> ms[i].0 != ms[j].0,
{
    assert(wf(JsonV::Obj(ms)) == ((forall|i: int|
        0 <= i < ms.len() ==> wf(#[trigger] ms[i].1)) && (forall|i: int, j: int|
        0 <= i < j < ms.len() ==> ms[i].0 != ms[j].0)));
}

/// What establishes well-formedness of an object value.
pub proof fn lemma_wf_obj_intro(ms: Seq<(Seq<char>, JsonV)>)
    requires
        forall|i: int| 0 <= i < ms.len() ==> wf(#[trigger] ms[i].1),
        forall|i: int, j: int| 0 <= i < j < ms.len() ==> ms[i].0 != ms[j].0,
    ensures
        wf(JsonV::Obj(ms)),
{
}

/// What well-formedness of an array value gives for its elements.
pub proof fn lemma_wf_arr_elim(a: Seq<JsonV>)
    requires
        wf(JsonV::Arr(a)),
    ensures
        forall|i: int| 0 <= i < a.len() ==> wf(#[trigger] a[i]),
{
}

/// What establishes well-formedness of an array value.
pub proof fn lemma_wf_arr_intro(a: Seq<JsonV>)
    requires
        forall|i: int| 0 <= i < a.len() ==> wf(#[trigger] a[i]),
    ensures
        wf(JsonV::Arr(a)),
{
}

/// A well-formed number value is a normalized decimal.
pub proof fn lemma_wf_num_elim(m: int, s: nat)
    requires
        wf(JsonV::Num { m, s }),
    ensures
        num_wf(m, s),
{
}

/// A member of a well-formed value is well-formed.
pub proof fn lemma_wf_member(v: JsonV, k: Seq<char>)
    requires
        wf(v),
    ensures
        match get_member(v, k) {
            Some(m) => wf(m),
            None => true,
        },
{
    match v {
        JsonV::Obj(ms) => {
            lemma_wf_obj_elim(ms);
            lemma_key_index_bounds(ms, k, 0);
        },
        _ => {},
    }
}

} // verus!
