//! The schema validation engine: a recursive, fail-fast validator of an
//! argument bag against a JSON-Schema-like contract, with field-path
//! qualified messages. The executable validator is proved equal to a
//! specification-level one.
use vstd::prelude::*;
use crate::json::{Json, JsonV, get_member, obj_get_v};
use crate::num::{scaled, is_decimal_multiple, abs, dec_str, int_str, num_str};
use vstd::string::StrSliceExecFns;

verus! {

/// Depth allowed to the recursive validator; deeper nesting is a validation
/// failure, not a crash.
pub const VALIDATE_DEPTH: u32 = 128;

/// A member of a schema that is a number, as a decimal.
pub open spec fn get_num(sch: JsonV, k: Seq<char>) -> Option<(int, nat)> {
    match get_member(sch, k) {
        Some(JsonV::Num { m, s }) => Some((m, s)),
        _ => None,
    }
}

/// A member of a schema that is an integer-valued number.
pub open spec fn get_int(sch: JsonV, k: Seq<char>) -> Option<int> {
    match get_member(sch, k) {
        Some(JsonV::Num { m, s }) => if s == 0 {
            Some(m)
        } else {
            None
        },
        _ => None,
    }
}

/// A member of a schema that is a non-negative integer bound.
pub open spec fn get_nat(sch: JsonV, k: Seq<char>) -> Option<int> {
    match get_int(sch, k) {
        Some(m) => if m >= 0 {
            Some(m)
        } else {
            None
        },
        None => None,
    }
}

/// A member of a schema that is a string.
pub open spec fn get_str(sch: JsonV, k: Seq<char>) -> Option<Seq<char>> {
    match get_member(sch, k) {
        Some(JsonV::Str(s)) => Some(s),
        _ => None,
    }
}

/// A member of a schema that is an array.
pub open spec fn get_arr(sch: JsonV, k: Seq<char>) -> Option<Seq<JsonV>> {
    match get_member(sch, k) {
        Some(JsonV::Arr(a)) => Some(a),
        _ => None,
    }
}

/// Whether a member of a schema is literally `true`.
pub open spec fn get_true(sch: JsonV, k: Seq<char>) -> bool {
    get_member(sch, k) == Some(JsonV::Bool(true))
}

/// The string members of an enumeration list; other entries are ignored.
pub open spec fn str_values(evs: Seq<JsonV>, i: int) -> Seq<Seq<char>>
    decreases evs.len() - i,
{
    if 0 <= i < evs.len() {
        (match evs[i] {
            JsonV::Str(s) => seq![s],
            _ => Seq::<Seq<char>>::empty(),
        }) + str_values(evs, i + 1)
    } else {
        Seq::<Seq<char>>::empty()
    }
}

/// Whether `s` occurs in `vs`.
pub open spec fn str_in(vs: Seq<Seq<char>>, s: Seq<char>, i: int) -> bool
    decreases vs.len() - i,
{
    if 0 <= i < vs.len() {
        vs[i] == s || str_in(vs, s, i + 1)
    } else {
        false
    }
}

/// The entries of `vs` joined with a comma and a space.
pub open spec fn join_comma(vs: Seq<Seq<char>>, i: int) -> Seq<char>
    decreases vs.len() - i,
{
    if 0 <= i < vs.len() {
        vs[i] + (if i + 1 < vs.len() {
            ", "@ + join_comma(vs, i + 1)
        } else {
            Seq::<char>::empty()
        })
    } else {
        Seq::<char>::empty()
    }
}

/// Whether two structurally equal elements occur at distinct positions.
pub open spec fn has_dup(a: Seq<JsonV>) -> bool {
    exists|i: int, j: int| 0 <= i < j < a.len() && a[i] == a[j]
}

/// Whether an integer is an exact multiple of another.
pub open spec fn int_multiple(v: int, q: int) -> bool {
    abs(v) % abs(q) == 0
}

/// The field path of an array element.
pub open spec fn idx_field(f: Seq<char>, i: int) -> Seq<char> {
    f + "["@ + dec_str(i as nat) + "]"@
}

/// The field path of a nested object property.
pub open spec fn dot_field(f: Seq<char>, p: Seq<char>) -> Seq<char> {
    f + "."@ + p
}

/// Validation of one value against one schema node, dispatching on the
/// declared type tag. An absent or non-string tag accepts any value; an
/// unknown tag is itself an error.
pub open spec fn sv_value(f: Seq<char>, v: JsonV, sch: JsonV, d: nat) -> Result<(), Seq<char>>
    decreases d, 2int, 0int,
{
    if d == 0 {
        Err("Validation depth exceeded at '"@ + f + "'"@)
    } else {
        match get_str(sch, "type"@) {
            None => Ok(()),
            Some(tag) => {
                if tag == "string"@ {
                    sv_string(f, v, sch)
                } else if tag == "number"@ {
                    sv_number(f, v, sch)
                } else if tag == "integer"@ {
                    sv_integer(f, v, sch)
                } else if tag == "boolean"@ {
                    sv_boolean(f, v)
                } else if tag == "array"@ {
                    sv_array(f, v, sch, d)
                } else if tag == "object"@ {
                    sv_object(f, v, sch, d)
                } else if tag == "null"@ {
                    if v is Null {
                        Ok(())
                    } else {
                        Err("Argument '"@ + f + "' must be null"@)
                    }
                } else {
                    Err("Unknown type '"@ + tag + "' in schema for '"@ + f + "'"@)
                }
            },
        }
    }
}

/// String checks: enumeration membership and length bounds. A `pattern`
/// keyword is accepted but not enforced.
pub open spec fn sv_string(f: Seq<char>, v: JsonV, sch: JsonV) -> Result<(), Seq<char>> {
    match v {
        JsonV::Str(s) => {
            let enum_err = {
                match get_arr(sch, "enum"@) {
                    Some(evs) => {
                        let valid = str_values(evs, 0);
                        if !str_in(valid, s, 0) {
                            Some(
                                "Argument '"@ + f + "' must be one of: "@ + join_comma(valid, 0)
                                    + ". Got: '"@ + s + "'"@,
                            )
                        } else {
                            None
                        }
                    },
                    None => None,
                }
            };
            match enum_err {
                Some(m) => Err(m),
                None => {
                    if get_nat(sch, "minLength"@) matches Some(n) && s.len() < n {
                        Err(
                            "Argument '"@ + f + "' must be at least "@ + dec_str(
                                get_nat(sch, "minLength"@)->Some_0 as nat,
                            ) + " characters long"@,
                        )
                    } else if get_nat(sch, "maxLength"@) matches Some(n) && s.len() > n {
                        Err(
                            "Argument '"@ + f + "' must be at most "@ + dec_str(
                                get_nat(sch, "maxLength"@)->Some_0 as nat,
                            ) + " characters long"@,
                        )
                    } else {
                        Ok(())
                    }
                },
            }
        },
        _ => Err("Argument '"@ + f + "' must be a string"@),
    }
}

/// Numeric checks: inclusive and exclusive bounds, and exact decimal
/// multiple-of.
pub open spec fn sv_number(f: Seq<char>, v: JsonV, sch: JsonV) -> Result<(), Seq<char>> {
    match v {
        JsonV::Num { m: vm, s: vs } => {
            if get_num(sch, "minimum"@) matches Some(b) && scaled(vm, vs) < scaled(b.0, b.1) {
                Err(
                    "Argument '"@ + f + "' must be >= "@ + num_str(
                        get_num(sch, "minimum"@)->Some_0.0,
                        get_num(sch, "minimum"@)->Some_0.1,
                    ),
                )
            } else if get_num(sch, "maximum"@) matches Some(b) && scaled(vm, vs) > scaled(
                b.0,
                b.1,
            ) {
                Err(
                    "Argument '"@ + f + "' must be <= "@ + num_str(
                        get_num(sch, "maximum"@)->Some_0.0,
                        get_num(sch, "maximum"@)->Some_0.1,
                    ),
                )
            } else if get_num(sch, "exclusiveMinimum"@) matches Some(b) && scaled(vm, vs)
                <= scaled(b.0, b.1) {
                Err(
                    "Argument '"@ + f + "' must be > "@ + num_str(
                        get_num(sch, "exclusiveMinimum"@)->Some_0.0,
                        get_num(sch, "exclusiveMinimum"@)->Some_0.1,
                    ),
                )
            } else if get_num(sch, "exclusiveMaximum"@) matches Some(b) && scaled(vm, vs)
                >= scaled(b.0, b.1) {
                Err(
                    "Argument '"@ + f + "' must be < "@ + num_str(
                        get_num(sch, "exclusiveMaximum"@)->Some_0.0,
                        get_num(sch, "exclusiveMaximum"@)->Some_0.1,
                    ),
                )
            } else if get_num(sch, "multipleOf"@) matches Some(q) && q.0 != 0
                && !is_decimal_multiple(vm, vs, q.0, q.1) {
                Err(
                    "Argument '"@ + f + "' must be a multiple of "@ + num_str(
                        get_num(sch, "multipleOf"@)->Some_0.0,
                        get_num(sch, "multipleOf"@)->Some_0.1,
                    ),
                )
            } else {
                Ok(())
            }
        },
        _ => Err("Argument '"@ + f + "' must be a number"@),
    }
}

/// Integer checks: the value must be integer-valued, with integer bounds and
/// multiple-of.
pub open spec fn sv_integer(f: Seq<char>, v: JsonV, sch: JsonV) -> Result<(), Seq<char>> {
    if v matches JsonV::Num { m, s } && s == 0 {
        let iv = v->m;
        if get_int(sch, "minimum"@) matches Some(n) && iv < n {
            Err("Argument '"@ + f + "' must be >= "@ + int_str(get_int(sch, "minimum"@)->Some_0))
        } else if get_int(sch, "maximum"@) matches Some(n) && iv > n {
            Err("Argument '"@ + f + "' must be <= "@ + int_str(get_int(sch, "maximum"@)->Some_0))
        } else if get_int(sch, "multipleOf"@) matches Some(q) && q != 0 && !int_multiple(iv, q) {
            Err(
                "Argument '"@ + f + "' must be a multiple of "@ + int_str(
                    get_int(sch, "multipleOf"@)->Some_0,
                ),
            )
        } else {
            Ok(())
        }
    } else {
        Err("Argument '"@ + f + "' must be an integer"@)
    }
}

pub open spec fn sv_boolean(f: Seq<char>, v: JsonV) -> Result<(), Seq<char>> {
    if v is Bool {
        Ok(())
    } else {
        Err("Argument '"@ + f + "' must be a boolean"@)
    }
}

/// Array checks: length bounds, uniqueness, and element validation against
/// an `items` schema with indexed field paths.
pub open spec fn sv_array(f: Seq<char>, v: JsonV, sch: JsonV, d: nat) -> Result<(), Seq<char>>
    decreases d, 1int, 0int,
{
    match v {
        JsonV::Arr(a) => {
            if get_nat(sch, "minItems"@) matches Some(n) && a.len() < n {
                Err(
                    "Argument '"@ + f + "' must have at least "@ + dec_str(
                        get_nat(sch, "minItems"@)->Some_0 as nat,
                    ) + " items"@,
                )
            } else if get_nat(sch, "maxItems"@) matches Some(n) && a.len() > n {
                Err(
                    "Argument '"@ + f + "' must have at most "@ + dec_str(
                        get_nat(sch, "maxItems"@)->Some_0 as nat,
                    ) + " items"@,
                )
            } else if get_true(sch, "uniqueItems"@) && has_dup(a) {
                Err("Argument '"@ + f + "' must have unique items"@)
            } else {
                match get_member(sch, "items"@) {
                    Some(isch) => sv_items(f, a, 0, isch, d),
                    None => Ok(()),
                }
            }
        },
        _ => Err("Argument '"@ + f + "' must be an array"@),
    }
}

/// Element-by-element validation of an array.
pub open spec fn sv_items(f: Seq<char>, a: Seq<JsonV>, i: int, isch: JsonV, d: nat) -> Result<
    (),
    Seq<char>,
>
    decreases d, 0int, a.len() - i,
{
    if 0 <= i < a.len() {
        if d == 0 {
            Err("Validation depth exceeded at '"@ + f + "'"@)
        } else {
            match sv_value(idx_field(f, i), a[i], isch, (d - 1) as nat) {
                Ok(()) => sv_items(f, a, i + 1, isch, d),
                Err(m) => Err(m),
            }
        }
    } else {
        Ok(())
    }
}

/// Object checks: size bounds, required members, and nested property
/// validation with dotted field paths.
pub open spec fn sv_object(f: Seq<char>, v: JsonV, sch: JsonV, d: nat) -> Result<(), Seq<char>>
    decreases d, 1int, 0int,
{
    match v {
        JsonV::Obj(o) => {
            if get_nat(sch, "minProperties"@) matches Some(n) && o.len() < n {
                Err(
                    "Argument '"@ + f + "' must have at least "@ + dec_str(
                        get_nat(sch, "minProperties"@)->Some_0 as nat,
                    ) + " properties"@,
                )
            } else if get_nat(sch, "maxProperties"@) matches Some(n) && o.len() > n {
                Err(
                    "Argument '"@ + f + "' must have at most "@ + dec_str(
                        get_nat(sch, "maxProperties"@)->Some_0 as nat,
                    ) + " properties"@,
                )
            } else {
                let req_res = match get_arr(sch, "required"@) {
                    Some(reqs) => sv_required_of(f, reqs, 0, o),
                    None => Ok(()),
                };
                match req_res {
                    Err(m) => Err(m),
                    Ok(()) => match get_member(sch, "properties"@) {
                        Some(JsonV::Obj(props)) => sv_props(f, o, 0, props, d),
                        _ => Ok(()),
                    },
                }
            }
        },
        _ => Err("Argument '"@ + f + "' must be an object"@),
    }
}

/// Required members of a nested object.
pub open spec fn sv_required_of(
    f: Seq<char>,
    reqs: Seq<JsonV>,
    i: int,
    o: Seq<(Seq<char>, JsonV)>,
) -> Result<(), Seq<char>>
    decreases reqs.len() - i,
{
    if 0 <= i < reqs.len() {
        match reqs[i] {
            JsonV::Str(name) => {
                if obj_get_v(o, name) is Some {
                    sv_required_of(f, reqs, i + 1, o)
                } else {
                    Err("Object '"@ + f + "' is missing required property '"@ + name + "'"@)
                }
            },
            _ => Err("Required field name must be a string"@),
        }
    } else {
        Ok(())
    }
}

/// Member-by-member validation of a nested object's properties.
pub open spec fn sv_props(
    f: Seq<char>,
    o: Seq<(Seq<char>, JsonV)>,
    i: int,
    props: Seq<(Seq<char>, JsonV)>,
    d: nat,
) -> Result<(), Seq<char>>
    decreases d, 0int, o.len() - i,
{
    if 0 <= i < o.len() {
        if d == 0 {
            Err("Validation depth exceeded at '"@ + f + "'"@)
        } else {
            match obj_get_v(props, o[i].0) {
                Some(psch) => match sv_value(dot_field(f, o[i].0), o[i].1, psch, (d - 1) as nat) {
                    Ok(()) => sv_props(f, o, i + 1, props, d),
                    Err(m) => Err(m),
                },
                None => sv_props(f, o, i + 1, props, d),
            }
        }
    } else {
        Ok(())
    }
}

/// Required names at the top level of the argument bag.
pub open spec fn sv_required_top(
    reqs: Seq<JsonV>,
    i: int,
    o: Seq<(Seq<char>, JsonV)>,
) -> Result<(), Seq<char>>
    decreases reqs.len() - i,
{
    if 0 <= i < reqs.len() {
        match reqs[i] {
            JsonV::Str(name) => {
                if obj_get_v(o, name) is Some {
                    sv_required_top(reqs, i + 1, o)
                } else {
                    Err("Missing required argument: "@ + name)
                }
            },
            _ => Err("Required field name must be a string"@),
        }
    } else {
        Ok(())
    }
}

/// Validation of each argument that the schema's properties name; arguments
/// not named there are permitted and ignored.
pub open spec fn sv_args_props(
    o: Seq<(Seq<char>, JsonV)>,
    i: int,
    props: Seq<(Seq<char>, JsonV)>,
) -> Result<(), Seq<char>>
    decreases o.len() - i,
{
    if 0 <= i < o.len() {
        match obj_get_v(props, o[i].0) {
            Some(psch) => match sv_value(o[i].0, o[i].1, psch, VALIDATE_DEPTH as nat) {
                Ok(()) => sv_args_props(o, i + 1, props),
                Err(m) => Err(m),
            },
            None => sv_args_props(o, i + 1, props),
        }
    } else {
        Ok(())
    }
}

/// Validation of an argument bag against an object-typed schema: required
/// names first, then each argument named under the schema's properties.
pub open spec fn sv_args(args: JsonV, sch: JsonV) -> Result<(), Seq<char>> {
    match args {
        JsonV::Obj(o) => {
            let req_res = match get_arr(sch, "required"@) {
                Some(reqs) => sv_required_top(reqs, 0, o),
                None => Ok(()),
            };
            match req_res {
                Err(m) => Err(m),
                Ok(()) => match get_member(sch, "properties"@) {
                    Some(JsonV::Obj(props)) => sv_args_props(o, 0, props),
                    _ => Ok(()),
                },
            }
        },
        _ => Err("Arguments must be an object"@),
    }
}

/// The views of a vector of strings.
pub open spec fn strings_view(vs: Seq<String>) -> Seq<Seq<char>> {
    Seq::new(
        vs.len(),
        |i: int|
            if 0 <= i < vs.len() {
                vs[i]@
            } else {
                Seq::<char>::empty()
            },
    )
}

/// Message of three parts.
fn msg3(a: &str, b: &str, c: &str) -> (r: String)
    ensures
        r@ == a@ + b@ + c@,
{
    let mut s = a.to_owned();
    s.append(b);
    s.append(c);
    proof {
        assert(s@ =~= a@ + b@ + c@);
    }
    s
}

/// Message of five parts.
fn msg5(a: &str, b: &str, c: &str, d: &str, e: &str) -> (r: String)
    ensures
        r@ == a@ + b@ + c@ + d@ + e@,
{
    let mut s = a.to_owned();
    s.append(b);
    s.append(c);
    s.append(d);
    s.append(e);
    proof {
        assert(s@ =~= a@ + b@ + c@ + d@ + e@);
    }
    s
}

/// A schema member that is a number.
fn eget_num(sch: &Json, k: &str) -> (r: Option<crate::json::JNum>)
    ensures
        match r {
            Some(n) => get_num(sch@, k@) == Some((n.m as int, n.s as nat)),
            None => get_num(sch@, k@) is None,
        },
{
    match sch.get(k) {
        Some(j) => match j {
            Json::Num(n) => Some(crate::json::JNum { m: n.m, s: n.s }),
            _ => None,
        },
        None => None,
    }
}

/// A schema member that is an integer-valued number.
fn eget_int(sch: &Json, k: &str) -> (r: Option<i64>)
    ensures
        match r {
            Some(n) => get_int(sch@, k@) == Some(n as int),
            None => get_int(sch@, k@) is None,
        },
{
    match eget_num(sch, k) {
        Some(n) => if n.s == 0 {
            Some(n.m)
        } else {
            None
        },
        None => None,
    }
}

/// A schema member that is a non-negative integer bound.
fn eget_nat(sch: &Json, k: &str) -> (r: Option<u64>)
    ensures
        match r {
            Some(n) => get_nat(sch@, k@) == Some(n as int),
            None => get_nat(sch@, k@) is None,
        },
{
    match eget_int(sch, k) {
        Some(n) => if n >= 0 {
            Some(n as u64)
        } else {
            None
        },
        None => None,
    }
}

/// A schema member that is a string.
fn eget_str<'a>(sch: &'a Json, k: &str) -> (r: Option<&'a String>)
    ensures
        match r {
            Some(s) => get_str(sch@, k@) == Some(s@),
            None => get_str(sch@, k@) is None,
        },
{
    match sch.get(k) {
        Some(j) => match j {
            Json::Str(s) => Some(s),
            _ => None,
        },
        None => None,
    }
}

/// A schema member that is an array.
fn eget_arr<'a>(sch: &'a Json, k: &str) -> (r: Option<&'a Vec<Json>>)
    ensures
        match r {
            Some(a) => get_arr(sch@, k@) == Some(crate::json::arr_view(a@)),
            None => get_arr(sch@, k@) is None,
        },
{
    match sch.get(k) {
        Some(j) => match j {
            Json::Arr(a) => Some(a),
            _ => None,
        },
        None => None,
    }
}

/// Whether a schema member is literally `true`.
fn eget_true(sch: &Json, k: &str) -> (r: bool)
    ensures
        r == get_true(sch@, k@),
{
    match sch.get(k) {
        Some(j) => match j {
            Json::Bool(b) => *b,
            _ => false,
        },
        None => false,
    }
}

/// String validation.
#[verifier::loop_isolation(false)]
#[verifier::rlimit(100)]
pub fn validate_string(field_name: &str, value: &Json, schema: &Json) -> (r: Result<(), String>)
    ensures
        match r {
            Ok(_) => sv_string(field_name@, value@, schema@) is Ok,
            Err(m) => sv_string(field_name@, value@, schema@) == Err::<(), Seq<char>>(m@),
        },
{
    let s: &String = match value {
        Json::Str(s) => s,
        _ => {
            return Err(msg3("Argument '", field_name, "' must be a string"));
        },
    };
    proof {
        assert(value@ == JsonV::Str(s@));
    }
    let blen: u64 = s.as_str().unicode_len() as u64;
    proof {
        assert(blen as int == s@.len());
    }
    if let Some(evs) = eget_arr(schema, "enum") {
        let ghost av = crate::json::arr_view(evs@);
        let mut valid: Vec<String> = Vec::new();
        let mut i: usize = 0;
        while i < evs.len()
            invariant
                0 <= i <= evs.len(),
                str_values(av, 0) == strings_view(valid@) + str_values(av, i as int),
            decreases evs.len() - i,
        {
            let ghost before = strings_view(valid@);
            match &evs[i] {
                Json::Str(e) => {
                    valid.push(e.clone());
                    proof {
                        assert(av[i as int] == evs@[i as int]@);
                        assert(strings_view(valid@) =~= before + seq![evs@[i as int].view()->Str_0]);
                        assert(str_values(av, 0) =~= strings_view(valid@) + str_values(
                            av,
                            i + 1,
                        ));
                    }
                },
                _ => {
                    proof {
                        assert(av[i as int] == evs@[i as int]@);
                        assert(str_values(av, 0) =~= strings_view(valid@) + str_values(
                            av,
                            i + 1,
                        ));
                    }
                },
            }
            i = i + 1;
        }
        let ghost vfull = str_values(av, 0);
        proof {
            assert(str_values(av, evs@.len() as int) == Seq::<Seq<char>>::empty());
            assert(vfull =~= strings_view(valid@));
        }
        // membership
        let mut found = false;
        let mut j: usize = 0;
        while j < valid.len()
            invariant
                0 <= j <= valid.len(),
                vfull == strings_view(valid@),
                !found ==> str_in(vfull, s@, 0) == str_in(vfull, s@, j as int),
                found ==> str_in(vfull, s@, 0),
            decreases valid.len() - j,
        {
            if crate::text::str_eq(valid[j].as_str(), s.as_str()) {
                proof {
                    assert(vfull[j as int] == s@);
                }
                found = true;
            }
            proof {
                assert(vfull[j as int] == valid@[j as int]@);
            }
            j = j + 1;
        }
        if !found {
            proof {
                assert(!str_in(vfull, s@, 0));
            }
            // join the allowed values
            let mut joined = String::new();
            let mut x: usize = 0;
            while x < valid.len()
                invariant
                    0 <= x <= valid.len(),
                    vfull == strings_view(valid@),
                    x < valid.len() ==> join_comma(vfull, 0) == joined@ + join_comma(
                        vfull,
                        x as int,
                    ),
                    x == valid.len() ==> join_comma(vfull, 0) == joined@,
                decreases valid.len() - x,
            {
                joined.append(valid[x].as_str());
                if x + 1 < valid.len() {
                    joined.append(", ");
                    proof {
                        assert(vfull[x as int] == valid@[x as int]@);
                        assert(join_comma(vfull, 0) =~= joined@ + join_comma(vfull, x + 1));
                    }
                } else {
                    proof {
                        assert(vfull[x as int] == valid@[x as int]@);
                        assert(join_comma(vfull, x + 1) == Seq::<char>::empty());
                        assert(join_comma(vfull, 0) =~= joined@);
                    }
                }
                x = x + 1;
            }
            proof {
                if valid.len() == 0 {
                    assert(join_comma(vfull, 0) =~= joined@);
                }
            }
            let mut m = msg3("Argument '", field_name, "' must be one of: ");
            m.append(joined.as_str());
            m.append(". Got: '");
            m.append(s.as_str());
            m.append("'");
            proof {
                assert(m@ =~= "Argument '"@ + field_name@ + "' must be one of: "@ + join_comma(
                    vfull,
                    0,
                ) + ". Got: '"@ + s@ + "'"@);
            }
            return Err(m);
        }
    }
    if let Some(n) = eget_nat(schema, "minLength") {
        if blen < n {
            let mut m = msg3("Argument '", field_name, "' must be at least ");
            m.append(crate::num::fmt_u64(n).as_str());
            m.append(" characters long");
            proof {
                assert(m@ =~= "Argument '"@ + field_name@ + "' must be at least "@ + dec_str(
                    n as nat,
                ) + " characters long"@);
            }
            return Err(m);
        }
    }
    if let Some(n) = eget_nat(schema, "maxLength") {
        if blen > n {
            let mut m = msg3("Argument '", field_name, "' must be at most ");
            m.append(crate::num::fmt_u64(n).as_str());
            m.append(" characters long");
            proof {
                assert(m@ =~= "Argument '"@ + field_name@ + "' must be at most "@ + dec_str(
                    n as nat,
                ) + " characters long"@);
            }
            return Err(m);
        }
    }
    Ok(())
}

/// Numeric validation.
#[verifier::loop_isolation(false)]
#[verifier::rlimit(100)]
pub fn validate_number(field_name: &str, value: &Json, schema: &Json) -> (r: Result<(), String>)
    requires
        crate::json::wf(value@),
        crate::json::wf(schema@),
    ensures
        match r {
            Ok(_) => sv_number(field_name@, value@, schema@) is Ok,
            Err(m) => sv_number(field_name@, value@, schema@) == Err::<(), Seq<char>>(m@),
        },
{
    let v: &crate::json::JNum = match value {
        Json::Num(n) => n,
        _ => {
            return Err(msg3("Argument '", field_name, "' must be a number"));
        },
    };
    proof {
        crate::json::lemma_wf_num_elim(v.m as int, v.s as nat);
        crate::json::lemma_wf_member(schema@, "minimum"@);
        crate::json::lemma_wf_member(schema@, "maximum"@);
        crate::json::lemma_wf_member(schema@, "exclusiveMinimum"@);
        crate::json::lemma_wf_member(schema@, "exclusiveMaximum"@);
        crate::json::lemma_wf_member(schema@, "multipleOf"@);
    }
    let sv = crate::num::scaled_i128(v);
    if let Some(b) = eget_num(schema, "minimum") {
        proof {
            crate::json::lemma_wf_num_elim(b.m as int, b.s as nat);
        }
        if sv < crate::num::scaled_i128(&b) {
            let mut m = msg3("Argument '", field_name, "' must be >= ");
            m.append(crate::num::fmt_num(&b).as_str());
            proof {
                assert(m@ =~= "Argument '"@ + field_name@ + "' must be >= "@ + num_str(
                    b.m as int,
                    b.s as nat,
                ));
            }
            return Err(m);
        }
    }
    if let Some(b) = eget_num(schema, "maximum") {
        proof {
            crate::json::lemma_wf_num_elim(b.m as int, b.s as nat);
        }
        if sv > crate::num::scaled_i128(&b) {
            let mut m = msg3("Argument '", field_name, "' must be <= ");
            m.append(crate::num::fmt_num(&b).as_str());
            proof {
                assert(m@ =~= "Argument '"@ + field_name@ + "' must be <= "@ + num_str(
                    b.m as int,
                    b.s as nat,
                ));
            }
            return Err(m);
        }
    }
    if let Some(b) = eget_num(schema, "exclusiveMinimum") {
        proof {
            crate::json::lemma_wf_num_elim(b.m as int, b.s as nat);
        }
        if sv <= crate::num::scaled_i128(&b) {
            let mut m = msg3("Argument '", field_name, "' must be > ");
            m.append(crate::num::fmt_num(&b).as_str());
            proof {
                assert(m@ =~= "Argument '"@ + field_name@ + "' must be > "@ + num_str(
                    b.m as int,
                    b.s as nat,
                ));
            }
            return Err(m);
        }
    }
    if let Some(b) = eget_num(schema, "exclusiveMaximum") {
        proof {
            crate::json::lemma_wf_num_elim(b.m as int, b.s as nat);
        }
        if sv >= crate::num::scaled_i128(&b) {
            let mut m = msg3("Argument '", field_name, "' must be < ");
            m.append(crate::num::fmt_num(&b).as_str());
            proof {
                assert(m@ =~= "Argument '"@ + field_name@ + "' must be < "@ + num_str(
                    b.m as int,
                    b.s as nat,
                ));
            }
            return Err(m);
        }
    }
    if let Some(q) = eget_num(schema, "multipleOf") {
        proof {
            crate::json::lemma_wf_num_elim(q.m as int, q.s as nat);
        }
        if q.m != 0 && !crate::num::num_multiple_of(v, &q) {
            let mut m = msg3("Argument '", field_name, "' must be a multiple of ");
            m.append(crate::num::fmt_num(&q).as_str());
            proof {
                assert(m@ =~= "Argument '"@ + field_name@ + "' must be a multiple of "@
                    + num_str(q.m as int, q.s as nat));
            }
            return Err(m);
        }
    }
    Ok(())
}

/// Integer validation.
#[verifier::rlimit(60)]
pub fn validate_integer(field_name: &str, value: &Json, schema: &Json) -> (r: Result<
    (),
    String,
>)
    ensures
        match r {
            Ok(_) => sv_integer(field_name@, value@, schema@) is Ok,
            Err(m) => sv_integer(field_name@, value@, schema@) == Err::<(), Seq<char>>(m@),
        },
{
    let iv: i64 = match value {
        Json::Num(n) => {
            if n.s == 0 {
                n.m
            } else {
                return Err(msg3("Argument '", field_name, "' must be an integer"));
            }
        },
        _ => {
            return Err(msg3("Argument '", field_name, "' must be an integer"));
        },
    };
    if let Some(n) = eget_int(schema, "minimum") {
        if iv < n {
            let mut m = msg3("Argument '", field_name, "' must be >= ");
            m.append(crate::num::fmt_i64(n).as_str());
            proof {
                assert(m@ =~= "Argument '"@ + field_name@ + "' must be >= "@ + int_str(n as int));
            }
            return Err(m);
        }
    }
    if let Some(n) = eget_int(schema, "maximum") {
        if iv > n {
            let mut m = msg3("Argument '", field_name, "' must be <= ");
            m.append(crate::num::fmt_i64(n).as_str());
            proof {
                assert(m@ =~= "Argument '"@ + field_name@ + "' must be <= "@ + int_str(n as int));
            }
            return Err(m);
        }
    }
    if let Some(q) = eget_int(schema, "multipleOf") {
        if q != 0 {
            let av: u64 = if iv >= 0 {
                iv as u64
            } else {
                (-(iv as i128)) as u64
            };
            let qv: u64 = if q >= 0 {
                q as u64
            } else {
                (-(q as i128)) as u64
            };
            if av % qv != 0 {
                let mut m = msg3("Argument '", field_name, "' must be a multiple of ");
                m.append(crate::num::fmt_i64(q).as_str());
                proof {
                    assert(m@ =~= "Argument '"@ + field_name@ + "' must be a multiple of "@
                        + int_str(q as int));
                }
                return Err(m);
            }
        }
    }
    Ok(())
}

/// Boolean validation.
pub fn validate_boolean(field_name: &str, value: &Json) -> (r: Result<(), String>)
    ensures
        match r {
            Ok(_) => sv_boolean(field_name@, value@) is Ok,
            Err(m) => sv_boolean(field_name@, value@) == Err::<(), Seq<char>>(m@),
        },
{
    match value {
        Json::Bool(_) => Ok(()),
        _ => Err(msg3("Argument '", field_name, "' must be a boolean")),
    }
}

/// Array validation.
#[verifier::loop_isolation(false)]
#[verifier::rlimit(100)]
pub fn validate_array(field_name: &str, value: &Json, schema: &Json, d: u32) -> (r: Result<
    (),
    String,
>)
    requires
        crate::json::wf(value@),
        crate::json::wf(schema@),
        d >= 1,
    ensures
        match r {
            Ok(_) => sv_array(field_name@, value@, schema@, d as nat) is Ok,
            Err(m) => sv_array(field_name@, value@, schema@, d as nat) == Err::<(), Seq<char>>(
                m@,
            ),
        },
    decreases d, 1int, 0int,
{
    let a: &Vec<Json> = match value {
        Json::Arr(a) => a,
        _ => {
            return Err(msg3("Argument '", field_name, "' must be an array"));
        },
    };
    let ghost av = crate::json::arr_view(a@);
    proof {
        assert(value@ == JsonV::Arr(av));
        crate::json::lemma_wf_arr_elim(av);
        crate::json::lemma_wf_member(schema@, "items"@);
    }
    if let Some(n) = eget_nat(schema, "minItems") {
        if (a.len() as u64) < n {
            let mut m = msg3("Argument '", field_name, "' must have at least ");
            m.append(crate::num::fmt_u64(n).as_str());
            m.append(" items");
            proof {
                assert(m@ =~= "Argument '"@ + field_name@ + "' must have at least "@ + dec_str(
                    n as nat,
                ) + " items"@);
            }
            return Err(m);
        }
    }
    if let Some(n) = eget_nat(schema, "maxItems") {
        if (a.len() as u64) > n {
            let mut m = msg3("Argument '", field_name, "' must have at most ");
            m.append(crate::num::fmt_u64(n).as_str());
            m.append(" items");
            proof {
                assert(m@ =~= "Argument '"@ + field_name@ + "' must have at most "@ + dec_str(
                    n as nat,
                ) + " items"@);
            }
            return Err(m);
        }
    }
    if eget_true(schema, "uniqueItems") {
        let mut i: usize = 0;
        while i < a.len()
            invariant
                0 <= i <= a.len(),
                forall|x: int, y: int| 0 <= x < y < av.len() && x < i ==> av[x] != av[y],
            decreases a.len() - i,
        {
            let mut j: usize = i + 1;
            while j < a.len()
                invariant
                    i < j <= a.len(),
                    forall|y: int| i < y < j ==> av[i as int] != av[y],
                decreases a.len() - j,
            {
                if crate::json::json_eq(&a[i], &a[j]) {
                    proof {
                        assert(av[i as int] == av[j as int]);
                        assert(has_dup(av));
                    }
                    return Err(msg3("Argument '", field_name, "' must have unique items"));
                }
                proof {
                    assert(av[j as int] == a@[j as int]@);
                }
                j = j + 1;
            }
            i = i + 1;
        }
        proof {
            assert(!has_dup(av));
        }
    }
    match schema.get("items") {
        Some(isch) => {
            let mut i: usize = 0;
            while i < a.len()
                invariant
                    0 <= i <= a.len(),
                    sv_items(field_name@, av, 0, isch@, d as nat) == sv_items(
                        field_name@,
                        av,
                        i as int,
                        isch@,
                        d as nat,
                    ),
                decreases a.len() - i,
            {
                let mut name = field_name.to_owned();
                name.append("[");
                name.append(crate::num::fmt_u64(i as u64).as_str());
                name.append("]");
                proof {
                    assert(name@ =~= idx_field(field_name@, i as int));
                    assert(av[i as int] == a@[i as int]@);
                }
                match validate_value(name.as_str(), &a[i], isch, d - 1) {
                    Ok(_) => {},
                    Err(m) => {
                        return Err(m);
                    },
                }
                i = i + 1;
            }
            Ok(())
        },
        None => Ok(()),
    }
}

/// Object validation.
#[verifier::loop_isolation(false)]
#[verifier::rlimit(100)]
pub fn validate_object(field_name: &str, value: &Json, schema: &Json, d: u32) -> (r: Result<
    (),
    String,
>)
    requires
        crate::json::wf(value@),
        crate::json::wf(schema@),
        d >= 1,
    ensures
        match r {
            Ok(_) => sv_object(field_name@, value@, schema@, d as nat) is Ok,
            Err(m) => sv_object(field_name@, value@, schema@, d as nat) == Err::<(), Seq<char>>(
                m@,
            ),
        },
    decreases d, 1int, 0int,
{
    let o: &Vec<(String, Json)> = match value {
        Json::Obj(o) => o,
        _ => {
            return Err(msg3("Argument '", field_name, "' must be an object"));
        },
    };
    let ghost ov = crate::json::obj_view(o@);
    proof {
        assert(value@ == JsonV::Obj(ov));
        crate::json::lemma_wf_obj_elim(ov);
        crate::json::lemma_wf_member(schema@, "properties"@);
    }
    if let Some(n) = eget_nat(schema, "minProperties") {
        if (o.len() as u64) < n {
            let mut m = msg3("Argument '", field_name, "' must have at least ");
            m.append(crate::num::fmt_u64(n).as_str());
            m.append(" properties");
            proof {
                assert(m@ =~= "Argument '"@ + field_name@ + "' must have at least "@ + dec_str(
                    n as nat,
                ) + " properties"@);
            }
            return Err(m);
        }
    }
    if let Some(n) = eget_nat(schema, "maxProperties") {
        if (o.len() as u64) > n {
            let mut m = msg3("Argument '", field_name, "' must have at most ");
            m.append(crate::num::fmt_u64(n).as_str());
            m.append(" properties");
            proof {
                assert(m@ =~= "Argument '"@ + field_name@ + "' must have at most "@ + dec_str(
                    n as nat,
                ) + " properties"@);
            }
            return Err(m);
        }
    }
    if let Some(reqs) = eget_arr(schema, "required") {
        let ghost rv = crate::json::arr_view(reqs@);
        let mut i: usize = 0;
        while i < reqs.len()
            invariant
                0 <= i <= reqs.len(),
                sv_required_of(field_name@, rv, 0, ov) == sv_required_of(
                    field_name@,
                    rv,
                    i as int,
                    ov,
                ),
            decreases reqs.len() - i,
        {
            proof {
                assert(rv[i as int] == reqs@[i as int]@);
            }
            match &reqs[i] {
                Json::Str(name) => {
                    match crate::json::obj_find(o, name.as_str()) {
                        Some(_) => {},
                        None => {
                            return Err(
                                msg5(
                                    "Object '",
                                    field_name,
                                    "' is missing required property '",
                                    name.as_str(),
                                    "'",
                                ),
                            );
                        },
                    }
                },
                _ => {
                    return Err("Required field name must be a string".to_owned());
                },
            }
            i = i + 1;
        }
    }
    match schema.get("properties") {
        Some(p) => {
            match p {
                Json::Obj(props) => {
                    let ghost pv = crate::json::obj_view(props@);
                    proof {
                        assert(p@ == JsonV::Obj(pv));
                    }
                    let mut i: usize = 0;
                    while i < o.len()
                        invariant
                            0 <= i <= o.len(),
                            sv_props(field_name@, ov, 0, pv, d as nat) == sv_props(
                                field_name@,
                                ov,
                                i as int,
                                pv,
                                d as nat,
                            ),
                        decreases o.len() - i,
                    {
                        proof {
                            assert(ov[i as int] == (o@[i as int].0@, o@[i as int].1@));
                        }
                        match crate::json::obj_find(props, o[i].0.as_str()) {
                            Some(psch) => {
                                proof {
                                    crate::json::lemma_wf_member(JsonV::Obj(pv), o@[i as int].0@);
                                }
                                let mut name = field_name.to_owned();
                                name.append(".");
                                name.append(o[i].0.as_str());
                                proof {
                                    assert(name@ =~= dot_field(field_name@, o@[i as int].0@));
                                }
                                match validate_value(name.as_str(), &o[i].1, psch, d - 1) {
                                    Ok(_) => {},
                                    Err(m) => {
                                        return Err(m);
                                    },
                                }
                            },
                            None => {},
                        }
                        i = i + 1;
                    }
                    Ok(())
                },
                _ => Ok(()),
            }
        },
        None => Ok(()),
    }
}

/// Validation of one value against one schema node.
#[verifier::rlimit(60)]
pub fn validate_value(field_name: &str, value: &Json, schema: &Json, d: u32) -> (r: Result<
    (),
    String,
>)
    requires
        crate::json::wf(value@),
        crate::json::wf(schema@),
    ensures
        match r {
            Ok(_) => sv_value(field_name@, value@, schema@, d as nat) is Ok,
            Err(m) => sv_value(field_name@, value@, schema@, d as nat) == Err::<(), Seq<char>>(
                m@,
            ),
        },
    decreases d, 2int, 0int,
{
    if d == 0 {
        return Err(msg3("Validation depth exceeded at '", field_name, "'"));
    }
    let tag: &String = match eget_str(schema, "type") {
        Some(tag) => tag,
        None => {
            return Ok(());
        },
    };
    if crate::text::str_eq(tag.as_str(), "string") {
        validate_string(field_name, value, schema)
    } else if crate::text::str_eq(tag.as_str(), "number") {
        validate_number(field_name, value, schema)
    } else if crate::text::str_eq(tag.as_str(), "integer") {
        validate_integer(field_name, value, schema)
    } else if crate::text::str_eq(tag.as_str(), "boolean") {
        validate_boolean(field_name, value)
    } else if crate::text::str_eq(tag.as_str(), "array") {
        validate_array(field_name, value, schema, d)
    } else if crate::text::str_eq(tag.as_str(), "object") {
        validate_object(field_name, value, schema, d)
    } else if crate::text::str_eq(tag.as_str(), "null") {
        match value {
            Json::Null => Ok(()),
            _ => Err(msg3("Argument '", field_name, "' must be null")),
        }
    } else {
        Err(msg5("Unknown type '", tag.as_str(), "' in schema for '", field_name, "'"))
    }
}

/// Validation of an argument bag against an object-typed schema: every
/// required name must be present, and every argument named under the
/// schema's properties must conform; other arguments are permitted.
#[verifier::loop_isolation(false)]
#[verifier::rlimit(100)]
pub fn validate_arguments_value(arguments: &Json, schema: &Json) -> (r: Result<(), String>)
    requires
        crate::json::wf(arguments@),
        crate::json::wf(schema@),
    ensures
        match r {
            Ok(_) => sv_args(arguments@, schema@) is Ok,
            Err(m) => sv_args(arguments@, schema@) == Err::<(), Seq<char>>(m@),
        },
{
    let o: &Vec<(String, Json)> = match arguments {
        Json::Obj(o) => o,
        _ => {
            return Err("Arguments must be an object".to_owned());
        },
    };
    let ghost ov = crate::json::obj_view(o@);
    proof {
        assert(arguments@ == JsonV::Obj(ov));
        crate::json::lemma_wf_obj_elim(ov);
        crate::json::lemma_wf_member(schema@, "properties"@);
    }
    if let Some(reqs) = eget_arr(schema, "required") {
        let ghost rv = crate::json::arr_view(reqs@);
        let mut i: usize = 0;
        while i < reqs.len()
            invariant
                0 <= i <= reqs.len(),
                sv_required_top(rv, 0, ov) == sv_required_top(rv, i as int, ov),
            decreases reqs.len() - i,
        {
            proof {
                assert(rv[i as int] == reqs@[i as int]@);
            }
            match &reqs[i] {
                Json::Str(name) => {
                    match crate::json::obj_find(o, name.as_str()) {
                        Some(_) => {},
                        None => {
                            let mut m = "Missing required argument: ".to_owned();
                            m.append(name.as_str());
                            proof {
                                assert(m@ =~= "Missing required argument: "@ + name@);
                            }
                            return Err(m);
                        },
                    }
                },
                _ => {
                    return Err("Required field name must be a string".to_owned());
                },
            }
            i = i + 1;
        }
    }
    match schema.get("properties") {
        Some(p) => {
            match p {
                Json::Obj(props) => {
                    let ghost pv = crate::json::obj_view(props@);
                    proof {
                        assert(p@ == JsonV::Obj(pv));
                    }
                    let mut i: usize = 0;
                    while i < o.len()
                        invariant
                            0 <= i <= o.len(),
                            sv_args_props(ov, 0, pv) == sv_args_props(ov, i as int, pv),
                        decreases o.len() - i,
                    {
                        proof {
                            assert(ov[i as int] == (o@[i as int].0@, o@[i as int].1@));
                        }
                        match crate::json::obj_find(props, o[i].0.as_str()) {
                            Some(psch) => {
                                proof {
                                    crate::json::lemma_wf_member(JsonV::Obj(pv), o@[i as int].0@);
                                }
                                match validate_value(
                                    o[i].0.as_str(),
                                    &o[i].1,
                                    psch,
                                    VALIDATE_DEPTH,
                                ) {
                                    Ok(_) => {},
                                    Err(m) => {
                                        return Err(m);
                                    },
                                }
                            },
                            None => {},
                        }
                        i = i + 1;
                    }
                    Ok(())
                },
                _ => Ok(()),
            }
        },
        None => Ok(()),
    }
}

/// Validation entry point for a tool call's argument bag.
pub fn validate_arguments(arguments: &Json, schema: &Json) -> (r: Result<(), String>)
    requires
        crate::json::wf(arguments@),
        crate::json::wf(schema@),
    ensures
        match r {
            Ok(_) => sv_args(arguments@, schema@) is Ok,
            Err(m) => sv_args(arguments@, schema@) == Err::<(), Seq<char>>(m@),
        },
{
    validate_arguments_value(arguments, schema)
}

} // verus!
