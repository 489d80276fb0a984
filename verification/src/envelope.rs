//! The response and error builders: construction of protocol-conformant
//! success and error envelopes, with a fallback construction that can never
//! fail, so that a transmittable response always exists.
use vstd::prelude::*;
use crate::json::{Json, JsonV, JNum, get_member, wf};

verus! {

/// An identifier value, defaulting to null when absent.
pub open spec fn opt_id(id: Option<JsonV>) -> JsonV {
    match id {
        Some(v) => v,
        None => JsonV::Null,
    }
}

/// The success envelope: protocol tag, identifier, result.
pub open spec fn success_envelope(id: JsonV, result: JsonV) -> JsonV {
    JsonV::Obj(
        seq![
            ("jsonrpc"@, JsonV::Str("2.0"@)),
            ("id"@, id),
            ("result"@, result),
        ],
    )
}

/// The error envelope: protocol tag, identifier, error object with a numeric
/// code and a message.
pub open spec fn error_envelope(id: JsonV, code: int, message: Seq<char>) -> JsonV {
    JsonV::Obj(
        seq![
            ("jsonrpc"@, JsonV::Str("2.0"@)),
            ("id"@, id),
            (
                "error"@,
                JsonV::Obj(
                    seq![
                        ("code"@, JsonV::Num { m: code, s: 0 }),
                        ("message"@, JsonV::Str(message)),
                    ],
                ),
            ),
        ],
    )
}

/// Whether an identifier conforms to the wire shape of a response
/// identifier: a string, a number, or null.
pub open spec fn id_conforms(id: JsonV) -> bool {
    id is Null || id is Str || id is Num
}

/// A consumer reading an envelope back recovers the identifier and the
/// result it was built from.
pub proof fn lemma_success_round_trip(id: JsonV, result: JsonV)
    ensures
        get_member(success_envelope(id, result), "id"@) == Some(id),
        get_member(success_envelope(id, result), "result"@) == Some(result),
        get_member(success_envelope(id, result), "jsonrpc"@) == Some(JsonV::Str("2.0"@)),
    decreases 0int,
{
    reveal_strlit("jsonrpc");
    reveal_strlit("id");
    reveal_strlit("result");
    assert("jsonrpc"@.len() == 7);
    assert("id"@.len() == 2);
    assert("result"@.len() == 6);
    let ms = success_envelope(id, result)->Obj_0;
    assert(ms[0].0 != "id"@);
    assert(crate::json::key_index_from(ms, "id"@, 1) == 1);
    assert(crate::json::key_index_from(ms, "id"@, 0) == 1);
    assert(ms[0].0 != "result"@);
    assert(ms[1].0 != "result"@);
    assert(crate::json::key_index_from(ms, "result"@, 2) == 2);
    assert(crate::json::key_index_from(ms, "result"@, 1) == 2);
    assert(crate::json::key_index_from(ms, "result"@, 0) == 2);
    assert(crate::json::key_index_from(ms, "jsonrpc"@, 0) == 0);
}

/// An error envelope carries exactly the identifier, code and message it was
/// built from.
pub proof fn lemma_error_round_trip(id: JsonV, code: int, message: Seq<char>)
    ensures
        get_member(error_envelope(id, code, message), "id"@) == Some(id),
        get_member(error_envelope(id, code, message), "jsonrpc"@) == Some(JsonV::Str("2.0"@)),
        get_member(error_envelope(id, code, message), "error"@) matches Some(e) && get_member(
            e,
            "code"@,
        ) == Some(JsonV::Num { m: code, s: 0 }) && get_member(e, "message"@) == Some(
            JsonV::Str(message),
        ),
{
    reveal_strlit("jsonrpc");
    reveal_strlit("id");
    reveal_strlit("error");
    reveal_strlit("code");
    reveal_strlit("message");
    assert("jsonrpc"@.len() == 7);
    assert("id"@.len() == 2);
    assert("error"@.len() == 5);
    assert("code"@.len() == 4);
    assert("message"@.len() == 7);
    let ms = error_envelope(id, code, message)->Obj_0;
    assert(ms[0].0 != "id"@);
    assert(crate::json::key_index_from(ms, "id"@, 1) == 1);
    assert(crate::json::key_index_from(ms, "id"@, 0) == 1);
    assert(ms[0].0 != "error"@);
    assert(ms[1].0 != "error"@);
    assert(crate::json::key_index_from(ms, "error"@, 2) == 2);
    assert(crate::json::key_index_from(ms, "error"@, 1) == 2);
    assert(crate::json::key_index_from(ms, "error"@, 0) == 2);
    assert(crate::json::key_index_from(ms, "jsonrpc"@, 0) == 0);
    let es = ms[2].1->Obj_0;
    assert(crate::json::key_index_from(es, "code"@, 0) == 0);
    assert(es[0].0 != "message"@);
    assert(crate::json::key_index_from(es, "message"@, 1) == 1);
    assert(crate::json::key_index_from(es, "message"@, 0) == 1);
}

/// A success envelope over well-formed parts is well-formed.
pub proof fn lemma_success_wf(id: JsonV, result: JsonV)
    requires
        wf(id),
        wf(result),
    ensures
        wf(success_envelope(id, result)),
{
    reveal_strlit("jsonrpc");
    reveal_strlit("id");
    reveal_strlit("result");
    reveal_strlit("2.0");
    assert("jsonrpc"@.len() == 7);
    assert("id"@.len() == 2);
    assert("result"@.len() == 6);
    let ms = success_envelope(id, result)->Obj_0;
    assert forall|i: int| 0 <= i < ms.len() implies wf(#[trigger] ms[i].1) by {
        if i == 0 {
            assert(ms[0].1 == JsonV::Str("2.0"@));
        }
    }
    assert(crate::json::distinct_keys(ms));
    crate::json::lemma_wf_obj_intro(ms);
}

/// An error envelope over a well-formed identifier and a code in machine
/// range is well-formed.
pub proof fn lemma_error_wf(id: JsonV, code: int, message: Seq<char>)
    requires
        wf(id),
        i64::MIN <= code <= i64::MAX,
        code != 0,
    ensures
        wf(error_envelope(id, code, message)),
{
    reveal_strlit("jsonrpc");
    reveal_strlit("id");
    reveal_strlit("error");
    reveal_strlit("code");
    reveal_strlit("message");
    reveal_strlit("2.0");
    assert("jsonrpc"@.len() == 7);
    assert("id"@.len() == 2);
    assert("error"@.len() == 5);
    assert("code"@.len() == 4);
    assert("message"@.len() == 7);
    let env = error_envelope(id, code, message);
    let ms = env->Obj_0;
    let es = ms[2].1->Obj_0;
    assert forall|i: int| 0 <= i < es.len() implies wf(#[trigger] es[i].1) by {
        if i == 0 {
            assert(es[0].1 == JsonV::Num { m: code, s: 0 });
            assert(crate::json::num_wf(code, 0));
        }
    }
    assert(crate::json::distinct_keys(es));
    crate::json::lemma_wf_obj_intro(es);
    assert forall|i: int| 0 <= i < ms.len() implies wf(#[trigger] ms[i].1) by {
        if i == 0 {
            assert(ms[0].1 == JsonV::Str("2.0"@));
        }
    }
    assert(crate::json::distinct_keys(ms));
    crate::json::lemma_wf_obj_intro(ms);
}

/// The identifier carried by `id`, or an explicit null.
fn id_or_null(id: Option<Json>) -> (r: Json)
    ensures
        r@ == opt_id(match id {
            Some(ref j) => Some(j@),
            None => None,
        }),
{
    match id {
        Some(j) => j,
        None => Json::Null,
    }
}

/// Builds the success envelope, checking that the result conforms to the
/// expected output contract: a result must be a structured mapping. Returns
/// the reason when it does not.
pub fn create_success_response(id: Option<Json>, result: Json) -> (r: Result<Json, String>)
    ensures
        ({
            let idv = opt_id(match id {
                Some(ref j) => Some(j@),
                None => None,
            });
            match r {
                Ok(env) => result@ is Obj && env@ == success_envelope(idv, result@),
                Err(m) => !(result@ is Obj) && m@
                    == "Response does not match the response schema: result is not an object"@,
            }
        }),
{
    match result {
        Json::Obj(_) => {},
        _ => {
            return Err(
                "Response does not match the response schema: result is not an object".to_owned(),
            );
        },
    }
    let idj = id_or_null(id);
    let ghost idv = idj@;
    let ghost resv = result@;
    let mut members: Vec<(String, Json)> = Vec::new();
    members.push(("jsonrpc".to_owned(), Json::Str("2.0".to_owned())));
    members.push(("id".to_owned(), idj));
    members.push(("result".to_owned(), result));
    let env = Json::Obj(members);
    proof {
        assert(env@ == JsonV::Obj(crate::json::obj_view(members@)));
        assert(env@->Obj_0 =~= success_envelope(idv, resv)->Obj_0);
        assert(env@ =~= success_envelope(idv, resv));
    }
    Ok(env)
}

/// Builds the error envelope, checking that the identifier conforms to the
/// wire shape. Returns the reason when it does not.
pub fn create_error_response(id: Option<Json>, code: i64, message: &str) -> (r: Result<
    Json,
    String,
>)
    ensures
        ({
            let idv = opt_id(match id {
                Some(ref j) => Some(j@),
                None => None,
            });
            match r {
                Ok(env) => id_conforms(idv) && env@ == error_envelope(idv, code as int, message@),
                Err(m) => !id_conforms(idv) && m@
                    == "Error response does not match the response schema: invalid identifier"@,
            }
        }),
{
    let conforms = match id {
        None => true,
        Some(Json::Null) => true,
        Some(Json::Str(_)) => true,
        Some(Json::Num(_)) => true,
        _ => false,
    };
    if !conforms {
        return Err(
            "Error response does not match the response schema: invalid identifier".to_owned(),
        );
    }
    Ok(fallback_error_response(id, code, message))
}

/// The minimal hand-assembled error envelope: built from plain values alone,
/// so its construction can never fail, whatever the identifier is.
pub fn fallback_error_response(id: Option<Json>, code: i64, message: &str) -> (r: Json)
    ensures
        r@ == error_envelope(
            opt_id(match id {
                Some(ref j) => Some(j@),
                None => None,
            }),
            code as int,
            message@,
        ),
{
    let idj = id_or_null(id);
    let ghost idv = idj@;
    let mut err_members: Vec<(String, Json)> = Vec::new();
    err_members.push(("code".to_owned(), Json::Num(JNum { m: code, s: 0 })));
    err_members.push(("message".to_owned(), Json::Str(message.to_owned())));
    let err_obj = Json::Obj(err_members);
    proof {
        assert(err_obj@ == JsonV::Obj(crate::json::obj_view(err_members@)));
        assert(err_obj@->Obj_0 =~= seq![
            ("code"@, JsonV::Num { m: code as int, s: 0 }),
            ("message"@, JsonV::Str(message@)),
        ]);
    }
    let mut members: Vec<(String, Json)> = Vec::new();
    members.push(("jsonrpc".to_owned(), Json::Str("2.0".to_owned())));
    members.push(("id".to_owned(), idj));
    members.push(("error".to_owned(), err_obj));
    let env = Json::Obj(members);
    proof {
        assert(env@ == JsonV::Obj(crate::json::obj_view(members@)));
        assert(env@->Obj_0 =~= error_envelope(idv, code as int, message@)->Obj_0);
        assert(env@ =~= error_envelope(idv, code as int, message@));
    }
    env
}

/// Tries the checked error builder and falls back to the minimal one, so
/// that an error envelope is always produced; either way the envelope is
/// exactly the one described by the data model.
pub fn make_error_response_or_fallback(id: Option<Json>, code: i64, message: &str) -> (r: Json)
    ensures
        r@ == error_envelope(
            opt_id(match id {
                Some(ref j) => Some(j@),
                None => None,
            }),
            code as int,
            message@,
        ),
{
    let id2 = match &id {
        Some(j) => Some(crate::json::json_clone(j)),
        None => None,
    };
    match create_error_response(id2, code, message) {
        Ok(env) => env,
        Err(_) => fallback_error_response(id, code, message),
    }
}

} // verus!
