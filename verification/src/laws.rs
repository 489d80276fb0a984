//! The laws the pipeline obeys, stated and proved over the specification
//! functions that the executable functions are proved equal to.
use vstd::prelude::*;
use crate::json::{JsonV, get_member, obj_get_v};
use crate::num::scaled;
use crate::envelope::{opt_id, error_envelope, success_envelope};
use crate::schema::{sv_value, get_str, get_num, get_nat, get_arr, get_true, has_dup};
use crate::config::{McpServerConfigV, ToolWithActionV};
use crate::dispatch::{
    RpcOutcomeV,
    spec_process,
    req_id_of,
    list_result,
    tools_json,
    tool_public_json,
};

verus! {

/// The identifier a response must carry: the one the request carried,
/// extracted best-effort, or null when the body did not even parse.
pub open spec fn expected_id(body: Seq<char>) -> Option<JsonV> {
    match crate::parse::parse_json_spec(body) {
        None => None,
        Some(raw) => req_id_of(raw),
    }
}

/// For all requests, the identifier in the response exactly matches the
/// identifier in the request, including when it is absent (treated as null)
/// or is null explicitly; a prepared tool call carries it unchanged.
pub proof fn lemma_response_id_echoes(
    sid: Seq<char>,
    body: Seq<char>,
    pairs: Seq<(Seq<char>, Seq<char>)>,
)
    ensures
        match spec_process(sid, body, pairs) {
            RpcOutcomeV::Success(env) => get_member(env, "id"@) == Some(
                opt_id(expected_id(body)),
            ),
            RpcOutcomeV::Failure { envelope, .. } => get_member(envelope, "id"@) == Some(
                opt_id(expected_id(body)),
            ),
            RpcOutcomeV::NeedsAction { id, .. } => id == expected_id(body),
        },
{
    match crate::parse::parse_json_spec(body) {
        None => {
            crate::envelope::lemma_error_round_trip(
                opt_id(None),
                -32700,
                "Invalid JSON-RPC request: invalid JSON"@,
            );
        },
        Some(raw) => {
            let id = req_id_of(raw);
            match spec_process(sid, body, pairs) {
                RpcOutcomeV::Success(env) => {
                    crate::envelope::lemma_success_round_trip(
                        opt_id(id),
                        env->Obj_0[2].1,
                    );
                    assert(get_member(env, "id"@) == Some(opt_id(id)));
                },
                RpcOutcomeV::Failure { envelope, code, message } => {
                    crate::envelope::lemma_error_round_trip(opt_id(id), code, message);
                },
                RpcOutcomeV::NeedsAction { .. } => {},
            }
        },
    }
}

/// The length and the entries of the public tool list.
pub proof fn lemma_tools_json_index(ts: Seq<ToolWithActionV>, i: int)
    requires
        0 <= i <= ts.len(),
    ensures
        tools_json(ts, i).len() == ts.len() - i,
        forall|j: int|
            i <= j < ts.len() ==> tools_json(ts, i)[j - i] == tool_public_json(#[trigger] ts[j]),
    decreases ts.len() - i,
{
    if i < ts.len() {
        lemma_tools_json_index(ts, i + 1);
    }
}

/// A public tool entry never carries the action mapping identifier, and it
/// carries exactly the tool's name and input contract.
pub proof fn lemma_tool_entry_strips_action_id(t: ToolWithActionV)
    ensures
        get_member(tool_public_json(t), "action-id"@) is None,
        get_member(tool_public_json(t), "name"@) == Some(JsonV::Str(t.tool.name)),
        get_member(tool_public_json(t), "inputSchema"@) == Some(t.tool.input_schema),
{
    reveal_strlit("name");
    reveal_strlit("description");
    reveal_strlit("inputSchema");
    reveal_strlit("action-id");
    assert("name"@.len() == 4);
    assert("description"@.len() == 11);
    assert("inputSchema"@.len() == 11);
    assert("action-id"@.len() == 9);
    assert("description"@[0] == 'd' && "inputSchema"@[0] == 'i');
    let ms = tool_public_json(t)->Obj_0;
    match t.tool.description {
        Some(_) => {
            assert(crate::json::key_index_from(ms, "action-id"@, 3) == 3);
            assert(crate::json::key_index_from(ms, "action-id"@, 2) == 3);
            assert(crate::json::key_index_from(ms, "action-id"@, 1) == 3);
            assert(crate::json::key_index_from(ms, "action-id"@, 0) == 3);
            assert(crate::json::key_index_from(ms, "name"@, 0) == 0);
            assert(crate::json::key_index_from(ms, "inputSchema"@, 2) == 2);
            assert(crate::json::key_index_from(ms, "inputSchema"@, 1) == 2);
            assert(crate::json::key_index_from(ms, "inputSchema"@, 0) == 2);
        },
        None => {
            assert(crate::json::key_index_from(ms, "action-id"@, 2) == 2);
            assert(crate::json::key_index_from(ms, "action-id"@, 1) == 2);
            assert(crate::json::key_index_from(ms, "action-id"@, 0) == 2);
            assert(crate::json::key_index_from(ms, "name"@, 0) == 0);
            assert(crate::json::key_index_from(ms, "inputSchema"@, 1) == 1);
            assert(crate::json::key_index_from(ms, "inputSchema"@, 0) == 1);
        },
    }
}

/// The catalog never contains the internal action mapping identifier, for
/// any server configuration: its `tools` member lists one public entry per
/// tool, each without an `action-id` member and with the tool's own name and
/// input contract.
pub proof fn lemma_list_never_exposes_action_id(cfg: McpServerConfigV)
    ensures
        ({
            let ts = get_member(list_result(cfg), "tools"@);
            &&& ts matches Some(arr)
            &&& arr is Arr
            &&& arr->Arr_0.len() == cfg.tools.len()
            &&& forall|i: int|
                0 <= i < cfg.tools.len() ==> get_member(
                    #[trigger] arr->Arr_0[i],
                    "action-id"@,
                ) is None
            &&& forall|i: int|
                0 <= i < cfg.tools.len() ==> get_member(#[trigger] arr->Arr_0[i], "name"@)
                    == Some(JsonV::Str(cfg.tools[i].tool.name))
        }),
{
    reveal_strlit("tools");
    let ms = list_result(cfg)->Obj_0;
    assert(crate::json::key_index_from(ms, "tools"@, 0) == 0);
    lemma_tools_json_index(cfg.tools, 0);
    let arr = tools_json(cfg.tools, 0);
    assert forall|i: int|
        0 <= i < cfg.tools.len() implies get_member(#[trigger] arr[i], "action-id"@) is None
        && get_member(arr[i], "name"@) == Some(JsonV::Str(cfg.tools[i].tool.name)) by {
        assert(arr[i] == tool_public_json(cfg.tools[i]));
        lemma_tool_entry_strips_action_id(cfg.tools[i]);
    }
}

/// For every well-formed numeric schema that bounds a value inclusively
/// below and above, a numeric value below the minimum or above the maximum
/// is rejected, and a value between them (boundaries included) is accepted.
pub proof fn lemma_numeric_range(
    f: Seq<char>,
    vm: int,
    vs: nat,
    sch: JsonV,
    am: int,
    an: nat,
    bm: int,
    bn: nat,
    d: nat,
)
    requires
        get_str(sch, "type"@) == Some("number"@),
        get_num(sch, "minimum"@) == Some((am, an)),
        get_num(sch, "maximum"@) == Some((bm, bn)),
        get_num(sch, "exclusiveMinimum"@) is None,
        get_num(sch, "exclusiveMaximum"@) is None,
        get_num(sch, "multipleOf"@) is None,
        d >= 1,
    ensures
        sv_value(f, JsonV::Num { m: vm, s: vs }, sch, d) is Ok <==> (scaled(am, an) <= scaled(
            vm,
            vs,
        ) && scaled(vm, vs) <= scaled(bm, bn)),
{
    reveal_strlit("string");
    reveal_strlit("number");
    assert("string"@.len() == 6);
    assert("number"@.len() == 6);
    assert("string"@[0] == 's' && "number"@[0] == 'n');
    assert("number"@ != "string"@);
}

/// Acceptance under `multipleOf` is exact decimal divisibility, so a decimal
/// that is a true multiple is accepted however floating-point arithmetic
/// would round it.
pub proof fn lemma_multiple_of_exact(
    f: Seq<char>,
    vm: int,
    vs: nat,
    sch: JsonV,
    qm: int,
    qn: nat,
    d: nat,
)
    requires
        get_str(sch, "type"@) == Some("number"@),
        get_num(sch, "minimum"@) is None,
        get_num(sch, "maximum"@) is None,
        get_num(sch, "exclusiveMinimum"@) is None,
        get_num(sch, "exclusiveMaximum"@) is None,
        get_num(sch, "multipleOf"@) == Some((qm, qn)),
        qm != 0,
        d >= 1,
    ensures
        sv_value(f, JsonV::Num { m: vm, s: vs }, sch, d) is Ok <==> crate::num::is_decimal_multiple(
            vm,
            vs,
            qm,
            qn,
        ),
{
    reveal_strlit("string");
    reveal_strlit("number");
    assert("string"@.len() == 6);
    assert("number"@.len() == 6);
    assert("string"@[0] == 's' && "number"@[0] == 'n');
    assert("number"@ != "string"@);
}

/// With `uniqueItems` required, an array holding two structurally equal
/// elements is rejected, whatever their positions, with the uniqueness
/// message.
pub proof fn lemma_unique_items_rejects_duplicates(
    f: Seq<char>,
    a: Seq<JsonV>,
    sch: JsonV,
    i: int,
    j: int,
    d: nat,
)
    requires
        get_str(sch, "type"@) == Some("array"@),
        get_true(sch, "uniqueItems"@),
        get_nat(sch, "minItems"@) is None,
        get_nat(sch, "maxItems"@) is None,
        0 <= i < j < a.len(),
        a[i] == a[j],
        d >= 1,
    ensures
        sv_value(f, JsonV::Arr(a), sch, d) == Err::<(), Seq<char>>(
            "Argument '"@ + f + "' must have unique items"@,
        ),
{
    reveal_strlit("string");
    reveal_strlit("number");
    reveal_strlit("integer");
    reveal_strlit("boolean");
    reveal_strlit("array");
    assert("string"@.len() == 6);
    assert("number"@.len() == 6);
    assert("integer"@.len() == 7);
    assert("boolean"@.len() == 7);
    assert("array"@.len() == 5);
    assert("string"@[0] == 's' && "number"@[0] == 'n' && "array"@[0] == 'a');
    assert(has_dup(a));
}

/// Object validation recurses: when a nested object under property `p` lacks
/// a property `r` that its own schema requires, the failure is reported with
/// the dotted field path.
pub proof fn lemma_nested_required_dotted_path(
    f: Seq<char>,
    p: Seq<char>,
    r: Seq<char>,
    inner: Seq<(Seq<char>, JsonV)>,
    psch: JsonV,
    sch: JsonV,
    v: Seq<(Seq<char>, JsonV)>,
    d: nat,
)
    requires
        get_str(sch, "type"@) == Some("object"@),
        get_nat(sch, "minProperties"@) is None,
        get_nat(sch, "maxProperties"@) is None,
        get_arr(sch, "required"@) is None,
        get_member(sch, "properties"@) == Some(JsonV::Obj(seq![(p, psch)])),
        get_str(psch, "type"@) == Some("object"@),
        get_nat(psch, "minProperties"@) is None,
        get_nat(psch, "maxProperties"@) is None,
        get_arr(psch, "required"@) == Some(seq![JsonV::Str(r)]),
        v == seq![(p, JsonV::Obj(inner))],
        obj_get_v(inner, r) is None,
        d >= 2,
    ensures
        sv_value(f, JsonV::Obj(v), sch, d) == Err::<(), Seq<char>>(
            "Object '"@ + (f + "."@ + p) + "' is missing required property '"@ + r + "'"@,
        ),
{
    reveal_strlit("string");
    reveal_strlit("number");
    reveal_strlit("integer");
    reveal_strlit("boolean");
    reveal_strlit("array");
    reveal_strlit("object");
    assert("string"@.len() == 6);
    assert("number"@.len() == 6);
    assert("integer"@.len() == 7);
    assert("boolean"@.len() == 7);
    assert("array"@.len() == 5);
    assert("object"@.len() == 6);
    assert("string"@[0] == 's' && "number"@[0] == 'n' && "object"@[0] == 'o' && "array"@[0]
        == 'a' && "integer"@[0] == 'i' && "boolean"@[0] == 'b');
    let props = seq![(p, psch)];
    assert(crate::json::key_index_from(props, v[0].0, 0) == 0);
    assert(obj_get_v(props, v[0].0) == Some(psch));
    let dd = (d - 1) as nat;
    assert(sv_value(f, JsonV::Obj(v), sch, d) == crate::schema::sv_object(
        f,
        JsonV::Obj(v),
        sch,
        d,
    ));
    assert(crate::schema::sv_props(f, v, 0, props, d) == sv_value(
        f + "."@ + p,
        JsonV::Obj(inner),
        psch,
        dd,
    ));
    assert(sv_value(f + "."@ + p, JsonV::Obj(inner), psch, dd)
        == crate::schema::sv_required_of(f + "."@ + p, seq![JsonV::Str(r)], 0, inner));
}

/// Both envelope shapes echo their parts; reading a success envelope back
/// recovers the identifier and the result it was built from.
pub proof fn lemma_envelope_round_trip(id: JsonV, result: JsonV, code: int, message: Seq<char>)
    ensures
        get_member(success_envelope(id, result), "id"@) == Some(id),
        get_member(success_envelope(id, result), "result"@) == Some(result),
        get_member(error_envelope(id, code, message), "id"@) == Some(id),
{
    crate::envelope::lemma_success_round_trip(id, result);
    crate::envelope::lemma_error_round_trip(id, code, message);
}

/// Exactly one of result and error is present: a success envelope has no
/// error member, and an error envelope has no result member.
pub proof fn lemma_result_error_exclusive(id: JsonV, result: JsonV, code: int, message: Seq<char>)
    ensures
        get_member(success_envelope(id, result), "result"@) is Some,
        get_member(success_envelope(id, result), "error"@) is None,
        get_member(error_envelope(id, code, message), "error"@) is Some,
        get_member(error_envelope(id, code, message), "result"@) is None,
{
    reveal_strlit("jsonrpc");
    reveal_strlit("id");
    reveal_strlit("result");
    reveal_strlit("error");
    assert("jsonrpc"@.len() == 7);
    assert("id"@.len() == 2);
    assert("result"@.len() == 6);
    assert("error"@.len() == 5);
    crate::envelope::lemma_success_round_trip(id, result);
    crate::envelope::lemma_error_round_trip(id, code, message);
    let sm = success_envelope(id, result)->Obj_0;
    assert(crate::json::key_index_from(sm, "error"@, 3) == 3);
    assert(crate::json::key_index_from(sm, "error"@, 2) == 3);
    assert(crate::json::key_index_from(sm, "error"@, 1) == 3);
    assert(crate::json::key_index_from(sm, "error"@, 0) == 3);
    let em = error_envelope(id, code, message)->Obj_0;
    assert(crate::json::key_index_from(em, "result"@, 3) == 3);
    assert(crate::json::key_index_from(em, "result"@, 2) == 3);
    assert(crate::json::key_index_from(em, "result"@, 1) == 3);
    assert(crate::json::key_index_from(em, "result"@, 0) == 3);
}

/// Every failure path produces an error envelope conforming to the data
/// model, carrying its code and message; none leaves the pipeline without a
/// transmittable response.
pub proof fn lemma_every_failure_is_an_error_envelope(
    sid: Seq<char>,
    body: Seq<char>,
    pairs: Seq<(Seq<char>, Seq<char>)>,
)
    ensures
        match spec_process(sid, body, pairs) {
            RpcOutcomeV::Failure { envelope, code, message } => envelope == error_envelope(
                opt_id(expected_id(body)),
                code,
                message,
            ),
            RpcOutcomeV::Success(env) => env == success_envelope(
                opt_id(expected_id(body)),
                env->Obj_0[2].1,
            ),
            RpcOutcomeV::NeedsAction { .. } => true,
        },
{
}

} // verus!
