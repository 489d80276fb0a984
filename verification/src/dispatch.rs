//! The top-level request pipeline: parse the envelope, validate its shape
//! and protocol tag, load the server configuration, route by method, and
//! hand the outcome to the response builders. Every failure path yields an
//! error envelope; a tool call yields the prepared backend invocation.
use vstd::prelude::*;
use crate::json::{Json, JsonV, get_member, wf};
use crate::schema::{get_str, sv_args};
use crate::envelope::{success_envelope, error_envelope, opt_id, id_conforms};
use crate::config::{McpServerConfig, McpServerConfigV, ToolWithActionV, server_cfg_wf};
use crate::actions::{
    ActionPayload,
    ActionPayloadV,
    ActionResponse,
    ActionResponseV,
    ContentBlockV,
    action_output_spec,
    action_response_wf,
    blocks_view,
};

verus! {

/// What processing one request yields: a finished success envelope, a
/// finished error envelope, or a validated backend invocation that still has
/// to run.
#[derive(Debug)]
pub enum RpcOutcome {
    Success(Json),
    Failure { envelope: Json, code: i64, message: String },
    NeedsAction { id: Option<Json>, payload: ActionPayload },
}

#[verifier::ext_equal]
pub enum RpcOutcomeV {
    Success(JsonV),
    Failure { envelope: JsonV, code: int, message: Seq<char> },
    NeedsAction { id: Option<JsonV>, payload: ActionPayloadV },
}

impl View for RpcOutcome {
    type V = RpcOutcomeV;

    open spec fn view(&self) -> RpcOutcomeV {
        match self {
            RpcOutcome::Success(e) => RpcOutcomeV::Success(e@),
            RpcOutcome::Failure { envelope, code, message } => RpcOutcomeV::Failure {
                envelope: envelope@,
                code: *code as int,
                message: message@,
            },
            RpcOutcome::NeedsAction { id, payload } => RpcOutcomeV::NeedsAction {
                id: match id {
                    Some(j) => Some(j@),
                    None => None,
                },
                payload: payload@,
            },
        }
    }
}

/// A finished error outcome.
pub open spec fn failure_v(id: Option<JsonV>, code: int, message: Seq<char>) -> RpcOutcomeV {
    RpcOutcomeV::Failure {
        envelope: error_envelope(opt_id(id), code, message),
        code,
        message,
    }
}

/// The identifier a request carries, extracted best-effort.
pub open spec fn req_id_of(raw: JsonV) -> Option<JsonV> {
    get_member(raw, "id"@)
}

/// Whether a value has the request envelope shape: a mapping with a string
/// protocol tag, a string method, and an identifier that is absent, null, a
/// string or a number.
pub open spec fn envelope_shape_ok(raw: JsonV) -> bool {
    &&& raw is Obj
    &&& get_member(raw, "jsonrpc"@) matches Some(JsonV::Str(_))
    &&& get_member(raw, "method"@) matches Some(JsonV::Str(_))
    &&& match get_member(raw, "id"@) {
        None => true,
        Some(v) => id_conforms(v),
    }
}

/// Whether the protocol tag equals the required literal.
pub open spec fn version_ok(raw: JsonV) -> bool {
    get_member(raw, "jsonrpc"@) == Some(JsonV::Str("2.0"@))
}

/// The request's parameters, defaulting to an empty mapping.
pub open spec fn params_of(raw: JsonV) -> JsonV {
    match get_member(raw, "params"@) {
        Some(p) => p,
        None => JsonV::Obj(Seq::empty()),
    }
}

/// What `initialize` answers: the protocol version from the parameters or
/// the fixed default, the capabilities echoed, and static server identity.
pub open spec fn init_result(params: JsonV) -> JsonV {
    let pv = match get_str(params, "protocolVersion"@) {
        Some(s) => s,
        None => "2025-06-18"@,
    };
    let caps = match get_member(params, "capabilities"@) {
        Some(c) => c,
        None => JsonV::Obj(Seq::empty()),
    };
    JsonV::Obj(
        seq![
            ("protocolVersion"@, JsonV::Str(pv)),
            ("capabilities"@, caps),
            (
                "serverInfo"@,
                JsonV::Obj(
                    seq![
                        ("name"@, JsonV::Str("betty-mcp-server"@)),
                        ("version"@, JsonV::Str("0.1.0"@)),
                    ],
                ),
            ),
        ],
    )
}

/// The public shape of one tool: name, description when present, input
/// contract — and never the action mapping identifier.
pub open spec fn tool_public_json(t: ToolWithActionV) -> JsonV {
    match t.tool.description {
        Some(d) => JsonV::Obj(
            seq![
                ("name"@, JsonV::Str(t.tool.name)),
                ("description"@, JsonV::Str(d)),
                ("inputSchema"@, t.tool.input_schema),
            ],
        ),
        None => JsonV::Obj(
            seq![
                ("name"@, JsonV::Str(t.tool.name)),
                ("inputSchema"@, t.tool.input_schema),
            ],
        ),
    }
}

/// The public shapes of a tool list.
pub open spec fn tools_json(ts: Seq<ToolWithActionV>, i: int) -> Seq<JsonV>
    decreases ts.len() - i,
{
    if 0 <= i < ts.len() {
        seq![tool_public_json(ts[i])] + tools_json(ts, i + 1)
    } else {
        Seq::empty()
    }
}

/// What `tools/list` answers.
pub open spec fn list_result(cfg: McpServerConfigV) -> JsonV {
    JsonV::Obj(seq![("tools"@, JsonV::Arr(tools_json(cfg.tools, 0)))])
}

/// The first tool with a given name.
pub open spec fn find_tool(ts: Seq<ToolWithActionV>, name: Seq<char>, i: int) -> Option<
    ToolWithActionV,
>
    decreases ts.len() - i,
{
    if 0 <= i < ts.len() {
        if ts[i].tool.name == name {
            Some(ts[i])
        } else {
            find_tool(ts, name, i + 1)
        }
    } else {
        None
    }
}

/// What preparing a tool call yields: the call parameters must name a tool,
/// optional arguments must form a mapping and conform to the tool's input
/// contract; the result carries the action mapping identifier and the
/// argument bag, or an explicit null when none was supplied.
pub open spec fn prepare_call(params: JsonV, cfg: McpServerConfigV) -> Result<
    ActionPayloadV,
    Seq<char>,
> {
    match get_str(params, "name"@) {
        None => Err("Invalid tool call parameters: name must be a string"@),
        Some(name) => {
            let args_ok = match get_member(params, "arguments"@) {
                None => true,
                Some(a) => a is Obj,
            };
            if !args_ok {
                Err("Invalid tool call parameters: arguments must be an object"@)
            } else {
                match find_tool(cfg.tools, name, 0) {
                    None => Err("Tool '"@ + name + "' not found"@),
                    Some(t) => {
                        match get_member(params, "arguments"@) {
                            Some(args) => match sv_args(args, t.tool.input_schema) {
                                Err(m) => Err(m),
                                Ok(_) => Ok(
                                    ActionPayloadV { action_id: t.action_id, arguments: args },
                                ),
                            },
                            None => Ok(
                                ActionPayloadV {
                                    action_id: t.action_id,
                                    arguments: JsonV::Null,
                                },
                            ),
                        }
                    },
                }
            }
        },
    }
}

/// The whole pipeline, as a function of the server identity, the raw body
/// and the configuration store's pairs.
pub open spec fn spec_process(
    sid: Seq<char>,
    body: Seq<char>,
    pairs: Seq<(Seq<char>, Seq<char>)>,
) -> RpcOutcomeV {
    match crate::parse::parse_json_spec(body) {
        None => failure_v(None, -32700, "Invalid JSON-RPC request: invalid JSON"@),
        Some(raw) => {
            let id = req_id_of(raw);
            if !envelope_shape_ok(raw) {
                failure_v(id, -32600, "Invalid JSON-RPC request: invalid request envelope"@)
            } else if !version_ok(raw) {
                failure_v(id, -32600, "Invalid Request: jsonrpc must be '2.0'"@)
            } else {
                match crate::config::load_server_spec(pairs, sid) {
                    Err(e) => failure_v(id, -32000, "Failed to load server config: "@ + e),
                    Ok(cfg) => {
                        let method = get_str(raw, "method"@)->Some_0;
                        let params = params_of(raw);
                        if method == "initialize"@ {
                            RpcOutcomeV::Success(
                                success_envelope(opt_id(id), init_result(params)),
                            )
                        } else if method == "tools/list"@ {
                            RpcOutcomeV::Success(success_envelope(opt_id(id), list_result(cfg)))
                        } else if method == "tools/call"@ {
                            match prepare_call(params, cfg) {
                                Err(m) => failure_v(id, -32000, m),
                                Ok(p) => RpcOutcomeV::NeedsAction { id, payload: p },
                            }
                        } else {
                            failure_v(id, -32601, "Method not found: "@ + method)
                        }
                    },
                }
            }
        },
    }
}

/// One content block as a structured value.
pub open spec fn block_json(b: ContentBlockV) -> JsonV {
    match b {
        ContentBlockV::Text(s) => JsonV::Obj(
            seq![("type"@, JsonV::Str("text"@)), ("text"@, JsonV::Str(s))],
        ),
        ContentBlockV::Image { data, mime_type } => JsonV::Obj(
            seq![
                ("type"@, JsonV::Str("image"@)),
                ("data"@, JsonV::Str(data)),
                ("mimeType"@, JsonV::Str(mime_type)),
            ],
        ),
    }
}

/// A block list as structured values.
pub open spec fn blocks_json(bs: Seq<ContentBlockV>, i: int) -> Seq<JsonV>
    decreases bs.len() - i,
{
    if 0 <= i < bs.len() {
        seq![block_json(bs[i])] + blocks_json(bs, i + 1)
    } else {
        Seq::empty()
    }
}

/// The `tools/call` result: the content blocks, marked not-an-error.
pub open spec fn call_result_json(bs: Seq<ContentBlockV>) -> JsonV {
    JsonV::Obj(
        seq![
            ("content"@, JsonV::Arr(blocks_json(bs, 0))),
            ("isError"@, JsonV::Bool(false)),
        ],
    )
}

/// What finishing a tool call yields for each possible backend answer: a
/// reported failure becomes a domain error envelope; any result is
/// translated to content blocks and wrapped in a success envelope.
pub open spec fn spec_complete(id: Option<JsonV>, backend: Result<ActionResponseV, Seq<char>>)
    -> RpcOutcomeV {
    match backend {
        Err(m) => failure_v(id, -32000, m),
        Ok(resp) => RpcOutcomeV::Success(
            success_envelope(opt_id(id), call_result_json(action_output_spec(resp))),
        ),
    }
}

/// What `initialize` answers.
#[verifier::rlimit(100)]
pub fn handle_initialize(params: &Json) -> (r: Json)
    requires
        wf(params@),
    ensures
        r@ == init_result(params@),
        wf(r@),
        r@ is Obj,
{
    let pv: String = match params.get("protocolVersion") {
        Some(Json::Str(s)) => s.clone(),
        _ => "2025-06-18".to_owned(),
    };
    let caps: Json = match params.get("capabilities") {
        Some(c) => {
            proof {
                crate::json::lemma_wf_member(params@, "capabilities"@);
            }
            crate::json::json_clone(c)
        },
        None => {
            let e: Vec<(String, Json)> = Vec::new();
            proof {
                assert(crate::json::obj_view(e@) =~= Seq::<(Seq<char>, JsonV)>::empty());
            }
            let j = Json::Obj(e);
            proof {
                assert(j@ =~= JsonV::Obj(Seq::empty()));
            }
            j
        },
    };
    let ghost capsv = caps@;
    let mut info: Vec<(String, Json)> = Vec::new();
    info.push(("name".to_owned(), Json::Str("betty-mcp-server".to_owned())));
    info.push(("version".to_owned(), Json::Str("0.1.0".to_owned())));
    let info_obj = Json::Obj(info);
    proof {
        assert(info_obj@ == JsonV::Obj(crate::json::obj_view(info@)));
        assert(info_obj@->Obj_0 =~= init_result(params@)->Obj_0[2].1->Obj_0);
    }
    let mut members: Vec<(String, Json)> = Vec::new();
    members.push(("protocolVersion".to_owned(), Json::Str(pv)));
    members.push(("capabilities".to_owned(), caps));
    members.push(("serverInfo".to_owned(), info_obj));
    let r = Json::Obj(members);
    proof {
        assert(r@ == JsonV::Obj(crate::json::obj_view(members@)));
        assert(r@->Obj_0 =~= init_result(params@)->Obj_0);
        assert(r@ =~= init_result(params@));
        reveal_strlit("protocolVersion");
        reveal_strlit("capabilities");
        reveal_strlit("serverInfo");
        reveal_strlit("name");
        reveal_strlit("version");
        assert("protocolVersion"@.len() == 15);
        assert("capabilities"@.len() == 12);
        assert("serverInfo"@.len() == 10);
        assert("name"@.len() == 4);
        assert("version"@.len() == 7);
        let iv = info_obj@->Obj_0;
        assert(crate::json::distinct_keys(iv));
        assert forall|i: int| 0 <= i < iv.len() implies wf(#[trigger] iv[i].1) by {}
        crate::json::lemma_wf_obj_intro(iv);
        let mv = r@->Obj_0;
        assert(crate::json::distinct_keys(mv));
        assert forall|i: int| 0 <= i < mv.len() implies wf(#[trigger] mv[i].1) by {
            if i == 1 {
                assert(mv[1].1 == capsv);
            }
        }
        crate::json::lemma_wf_obj_intro(mv);
    }
    r
}

/// What `tools/list` answers: each tool definition mapped to its public
/// shape, the action mapping identifier stripped.
#[verifier::loop_isolation(false)]
#[verifier::rlimit(100)]
pub fn handle_list_tools(server_config: &McpServerConfig) -> (r: Json)
    requires
        server_cfg_wf(server_config@),
    ensures
        r@ == list_result(server_config@),
        wf(r@),
        r@ is Obj,
{
    let ghost tv = server_config@.tools;
    let mut out: Vec<Json> = Vec::new();
    let mut i: usize = 0;
    proof {
        reveal_strlit("name");
        reveal_strlit("description");
        reveal_strlit("inputSchema");
        assert("name"@.len() == 4);
        assert("description"@.len() == 11);
        assert("inputSchema"@.len() == 11);
        assert("description"@[0] == 'd' && "inputSchema"@[0] == 'i');
        assert("description"@ != "inputSchema"@);
    }
    while i < server_config.tools.len()
        invariant
            0 <= i <= server_config.tools.len(),
            tools_json(tv, 0) == crate::json::arr_view(out@) + tools_json(tv, i as int),
            forall|x: int|
                0 <= x < out@.len() ==> wf(#[trigger] crate::json::arr_view(out@)[x]),
        decreases server_config.tools.len() - i,
    {
        proof {
            assert(tv[i as int] == server_config.tools@[i as int]@);
        }
        let t = &server_config.tools[i];
        let mut members: Vec<(String, Json)> = Vec::new();
        members.push(("name".to_owned(), Json::Str(t.tool.name.clone())));
        match &t.tool.description {
            Some(d) => {
                members.push(("description".to_owned(), Json::Str(d.clone())));
            },
            None => {},
        }
        members.push(("inputSchema".to_owned(), crate::json::json_clone(&t.tool.input_schema)));
        let entry = Json::Obj(members);
        proof {
            assert(entry@ == JsonV::Obj(crate::json::obj_view(members@)));
            assert(entry@->Obj_0 =~= tool_public_json(tv[i as int])->Obj_0);
            assert(entry@ =~= tool_public_json(tv[i as int]));
            let ev = entry@->Obj_0;
            assert(crate::json::distinct_keys(ev));
            assert forall|x: int| 0 <= x < ev.len() implies wf(#[trigger] ev[x].1) by {
                assert(wf(tv[i as int].tool.input_schema));
            }
            crate::json::lemma_wf_obj_intro(ev);
        }
        let ghost before = crate::json::arr_view(out@);
        out.push(entry);
        proof {
            assert(crate::json::arr_view(out@) =~= before.push(out@[out@.len() - 1]@));
            assert(tools_json(tv, 0) =~= crate::json::arr_view(out@) + tools_json(tv, i + 1));
        }
        i = i + 1;
    }
    proof {
        assert(tools_json(tv, tv.len() as int) == Seq::<JsonV>::empty());
        assert(tools_json(tv, 0) =~= crate::json::arr_view(out@));
    }
    let arr = Json::Arr(out);
    proof {
        assert(arr@ == JsonV::Arr(tools_json(tv, 0)));
        crate::json::lemma_wf_arr_intro(arr@->Arr_0);
    }
    let mut members: Vec<(String, Json)> = Vec::new();
    members.push(("tools".to_owned(), arr));
    let r = Json::Obj(members);
    proof {
        reveal_strlit("tools");
        assert(r@ == JsonV::Obj(crate::json::obj_view(members@)));
        assert(r@->Obj_0 =~= list_result(server_config@)->Obj_0);
        assert(r@ =~= list_result(server_config@));
        let mv = r@->Obj_0;
        assert(crate::json::distinct_keys(mv));
        assert forall|x: int| 0 <= x < mv.len() implies wf(#[trigger] mv[x].1) by {}
        crate::json::lemma_wf_obj_intro(mv);
    }
    r
}

/// Prepares a tool call: parses the call parameters, resolves the tool by
/// exact name, validates the arguments against its input contract, and hands
/// back the action mapping identifier with the argument bag.
#[verifier::loop_isolation(false)]
#[verifier::rlimit(100)]
pub fn handle_call_tool(params: &Json, server_config: &McpServerConfig) -> (r: Result<
    ActionPayload,
    String,
>)
    requires
        wf(params@),
        server_cfg_wf(server_config@),
    ensures
        match r {
            Ok(p) => prepare_call(params@, server_config@) == Ok::<_, Seq<char>>(p@) && wf(
                p.arguments@,
            ),
            Err(m) => prepare_call(params@, server_config@) == Err::<ActionPayloadV, _>(m@),
        },
{
    let name: &String = match params.get("name") {
        Some(Json::Str(n)) => n,
        _ => {
            return Err("Invalid tool call parameters: name must be a string".to_owned());
        },
    };
    let args: Option<&Json> = match params.get("arguments") {
        Some(a) => {
            match a {
                Json::Obj(_) => {},
                _ => {
                    return Err(
                        "Invalid tool call parameters: arguments must be an object".to_owned(),
                    );
                },
            }
            proof {
                crate::json::lemma_wf_member(params@, "arguments"@);
            }
            Some(a)
        },
        None => None,
    };
    let ghost tv = server_config@.tools;
    let mut i: usize = 0;
    while i < server_config.tools.len()
        invariant
            0 <= i <= server_config.tools.len(),
            find_tool(tv, name@, 0) == find_tool(tv, name@, i as int),
        decreases server_config.tools.len() - i,
    {
        proof {
            assert(tv[i as int] == server_config.tools@[i as int]@);
        }
        let t = &server_config.tools[i];
        if crate::text::str_eq(t.tool.name.as_str(), name.as_str()) {
            match args {
                Some(a) => {
                    match crate::schema::validate_arguments(a, &t.tool.input_schema) {
                        Ok(_) => {},
                        Err(m) => {
                            return Err(m);
                        },
                    }
                    return Ok(
                        ActionPayload {
                            action_id: t.action_id.clone(),
                            arguments: crate::json::json_clone(a),
                        },
                    );
                },
                None => {
                    return Ok(
                        ActionPayload { action_id: t.action_id.clone(), arguments: Json::Null },
                    );
                },
            }
        }
        i = i + 1;
    }
    let mut m = "Tool '".to_owned();
    m.append(name.as_str());
    m.append("' not found");
    proof {
        assert(m@ =~= "Tool '"@ + name@ + "' not found"@);
    }
    Err(m)
}

/// Builds one error outcome.
fn fail(id: Option<Json>, code: i64, message: String) -> (r: RpcOutcome)
    requires
        code != 0,
        match id {
            Some(ref j) => wf(j@),
            None => true,
        },
    ensures
        r@ == failure_v(
            match id {
                Some(ref j) => Some(j@),
                None => None,
            },
            code as int,
            message@,
        ),
        r@ matches RpcOutcomeV::Failure { envelope, .. } && wf(envelope),
{
    let ghost idv = match id {
        Some(ref j) => Some(j@),
        None => None::<JsonV>,
    };
    let env = crate::envelope::make_error_response_or_fallback(id, code, message.as_str());
    proof {
        crate::envelope::lemma_error_wf(opt_id(idv), code as int, message@);
    }
    RpcOutcome::Failure { envelope: env, code, message }
}

/// The request-processing pipeline: parses and validates the envelope,
/// loads the server configuration, routes by method, and builds the
/// response. Every failure yields an error envelope; a validated tool call
/// yields the backend invocation that still has to run.
#[verifier::rlimit(100)]
pub fn process_rpc(server_id: &str, body: &str, config: &Vec<(String, String)>) -> (r:
    RpcOutcome)
    ensures
        r@ == spec_process(server_id@, body@, crate::config::pairs_view(config@)),
        r@ matches RpcOutcomeV::Success(e) ==> wf(e),
        r@ matches RpcOutcomeV::Failure { envelope, .. } ==> wf(envelope),
        r@ matches RpcOutcomeV::NeedsAction { id, payload } ==> wf(payload.arguments) && (
        id matches Some(i) ==> wf(i)),
{
    let raw: Json = match crate::parse::parse_json(body) {
        Some(v) => v,
        None => {
            return fail(None, -32700, "Invalid JSON-RPC request: invalid JSON".to_owned());
        },
    };
    let id: Option<Json> = match raw.get("id") {
        Some(j) => Some(crate::json::json_clone(j)),
        None => None,
    };
    proof {
        if raw@ is Obj {
            crate::json::lemma_wf_member(raw@, "id"@);
        }
    }
    let shape_ok: bool = {
        let is_obj = match &raw {
            Json::Obj(_) => true,
            _ => false,
        };
        let jr_ok = match raw.get("jsonrpc") {
            Some(Json::Str(_)) => true,
            _ => false,
        };
        let method_ok = match raw.get("method") {
            Some(Json::Str(_)) => true,
            _ => false,
        };
        let id_ok = match raw.get("id") {
            None => true,
            Some(Json::Null) => true,
            Some(Json::Str(_)) => true,
            Some(Json::Num(_)) => true,
            Some(_) => false,
        };
        is_obj && jr_ok && method_ok && id_ok
    };
    if !shape_ok {
        return fail(id, -32600, "Invalid JSON-RPC request: invalid request envelope".to_owned());
    }
    let version_good = match raw.get("jsonrpc") {
        Some(Json::Str(v)) => crate::text::str_eq(v.as_str(), "2.0"),
        _ => false,
    };
    if !version_good {
        return fail(id, -32600, "Invalid Request: jsonrpc must be '2.0'".to_owned());
    }
    let cfg: McpServerConfig = match crate::config::load_server_config(server_id, config) {
        Ok(c) => c,
        Err(e) => {
            let mut m = "Failed to load server config: ".to_owned();
            m.append(e.as_str());
            proof {
                assert(m@ =~= "Failed to load server config: "@ + e@);
            }
            return fail(id, -32000, m);
        },
    };
    let method: String = match raw.get("method") {
        Some(Json::Str(s)) => s.clone(),
        _ => {
            return fail(id, -32600, "Invalid JSON-RPC request: invalid request envelope".to_owned());
        },
    };
    let params: Json = match raw.get("params") {
        Some(p) => {
            proof {
                crate::json::lemma_wf_member(raw@, "params"@);
            }
            crate::json::json_clone(p)
        },
        None => {
            let e: Vec<(String, Json)> = Vec::new();
            proof {
                assert(crate::json::obj_view(e@) =~= Seq::<(Seq<char>, JsonV)>::empty());
            }
            let j = Json::Obj(e);
            proof {
                assert(j@ =~= JsonV::Obj(Seq::empty()));
                assert(crate::json::wf_obj_vals(Seq::<(Seq<char>, JsonV)>::empty()));
                assert(crate::json::distinct_keys(Seq::<(Seq<char>, JsonV)>::empty()));
                crate::json::lemma_wf_obj_intro(Seq::<(Seq<char>, JsonV)>::empty());
            }
            j
        },
    };
    proof {
        assert(params@ == params_of(raw@));
        assert(wf(params@));
    }
    if crate::text::str_eq(method.as_str(), "initialize") {
        let result = handle_initialize(&params);
        let ghost resv = result@;
        let ghost idv = match id {
            Some(ref j) => Some(j@),
            None => None::<JsonV>,
        };
        match crate::envelope::create_success_response(id, result) {
            Ok(env) => {
                proof {
                    crate::envelope::lemma_success_wf(opt_id(idv), resv);
                }
                RpcOutcome::Success(env)
            },
            Err(e) => {
                let mut m = "Failed to build response: ".to_owned();
                m.append(e.as_str());
                fail(None, -32603, m)
            },
        }
    } else if crate::text::str_eq(method.as_str(), "tools/list") {
        let result = handle_list_tools(&cfg);
        let ghost resv = result@;
        let ghost idv = match id {
            Some(ref j) => Some(j@),
            None => None::<JsonV>,
        };
        match crate::envelope::create_success_response(id, result) {
            Ok(env) => {
                proof {
                    crate::envelope::lemma_success_wf(opt_id(idv), resv);
                }
                RpcOutcome::Success(env)
            },
            Err(e) => {
                let mut m = "Failed to build response: ".to_owned();
                m.append(e.as_str());
                fail(None, -32603, m)
            },
        }
    } else if crate::text::str_eq(method.as_str(), "tools/call") {
        match handle_call_tool(&params, &cfg) {
            Ok(payload) => RpcOutcome::NeedsAction { id, payload },
            Err(m) => fail(id, -32000, m),
        }
    } else {
        let mut m = "Method not found: ".to_owned();
        m.append(method.as_str());
        proof {
            assert(m@ =~= "Method not found: "@ + method@);
        }
        fail(id, -32601, m)
    }
}

/// Finishes a tool call once the backend has answered: translates the
/// invocation result into content blocks and wraps them, or surfaces the
/// reported failure as a domain error.
#[verifier::loop_isolation(false)]
#[verifier::rlimit(100)]
pub fn complete_tool_call(id: Option<Json>, backend: Result<ActionResponse, String>) -> (r:
    RpcOutcome)
    requires
        match backend {
            Ok(ref a) => action_response_wf(a@),
            Err(_) => true,
        },
        match id {
            Some(ref j) => wf(j@),
            None => true,
        },
    ensures
        r@ == spec_complete(
            match id {
                Some(ref j) => Some(j@),
                None => None,
            },
            match backend {
                Ok(ref a) => Ok(a@),
                Err(ref m) => Err(m@),
            },
        ),
        r@ matches RpcOutcomeV::Success(e) ==> wf(e),
        r@ matches RpcOutcomeV::Failure { envelope, .. } ==> wf(envelope),
{
    let resp: ActionResponse = match backend {
        Err(m) => {
            return fail(id, -32000, m);
        },
        Ok(a) => a,
    };
    let ghost respv = resp@;
    let blocks: Vec<crate::actions::ContentBlock> = match crate::actions::parse_action_output(
        &resp,
    ) {
        Ok(bs) => bs,
        Err(_) => {
            proof {
                assert(false);
            }
            Vec::new()
        },
    };
    let ghost bv = blocks_view(blocks@);
    proof {
        reveal_strlit("type");
        reveal_strlit("text");
        reveal_strlit("data");
        reveal_strlit("mimeType");
        assert("type"@.len() == 4);
        assert("text"@.len() == 4);
        assert("data"@.len() == 4);
        assert("mimeType"@.len() == 8);
        assert("type"@[1] == 'y' && "text"@[1] == 'e' && "data"@[1] == 'a');
        assert("type"@ != "text"@ && "type"@ != "data"@ && "text"@ != "data"@);
    }
    let mut out: Vec<Json> = Vec::new();
    let mut i: usize = 0;
    while i < blocks.len()
        invariant
            0 <= i <= blocks.len(),
            blocks_json(bv, 0) == crate::json::arr_view(out@) + blocks_json(bv, i as int),
            forall|x: int|
                0 <= x < out@.len() ==> wf(#[trigger] crate::json::arr_view(out@)[x]),
        decreases blocks.len() - i,
    {
        proof {
            assert(bv[i as int] == blocks@[i as int]@);
        }
        let entry: Json = match &blocks[i] {
            crate::actions::ContentBlock::Text(s) => {
                let mut members: Vec<(String, Json)> = Vec::new();
                members.push(("type".to_owned(), Json::Str("text".to_owned())));
                members.push(("text".to_owned(), Json::Str(s.clone())));
                let e = Json::Obj(members);
                proof {
                    assert(e@ == JsonV::Obj(crate::json::obj_view(members@)));
                    assert(e@->Obj_0 =~= block_json(bv[i as int])->Obj_0);
                    assert(e@ =~= block_json(bv[i as int]));
                    assert(crate::json::distinct_keys(e@->Obj_0));
                    assert forall|x: int|
                        0 <= x < e@->Obj_0.len() implies wf(#[trigger] e@->Obj_0[x].1) by {}
                    crate::json::lemma_wf_obj_intro(e@->Obj_0);
                }
                e
            },
            crate::actions::ContentBlock::Image { data, mime_type } => {
                let mut members: Vec<(String, Json)> = Vec::new();
                members.push(("type".to_owned(), Json::Str("image".to_owned())));
                members.push(("data".to_owned(), Json::Str(data.clone())));
                members.push(("mimeType".to_owned(), Json::Str(mime_type.clone())));
                let e = Json::Obj(members);
                proof {
                    assert(e@ == JsonV::Obj(crate::json::obj_view(members@)));
                    assert(e@->Obj_0 =~= block_json(bv[i as int])->Obj_0);
                    assert(e@ =~= block_json(bv[i as int]));
                    assert(crate::json::distinct_keys(e@->Obj_0));
                    assert forall|x: int|
                        0 <= x < e@->Obj_0.len() implies wf(#[trigger] e@->Obj_0[x].1) by {}
                    crate::json::lemma_wf_obj_intro(e@->Obj_0);
                }
                e
            },
        };
        let ghost before = crate::json::arr_view(out@);
        out.push(entry);
        proof {
            assert(crate::json::arr_view(out@) =~= before.push(out@[out@.len() - 1]@));
            assert(blocks_json(bv, 0) =~= crate::json::arr_view(out@) + blocks_json(bv, i + 1));
        }
        i = i + 1;
    }
    proof {
        assert(blocks_json(bv, bv.len() as int) == Seq::<JsonV>::empty());
        assert(blocks_json(bv, 0) =~= crate::json::arr_view(out@));
    }
    let arr = Json::Arr(out);
    proof {
        assert(arr@ == JsonV::Arr(blocks_json(bv, 0)));
        crate::json::lemma_wf_arr_intro(arr@->Arr_0);
    }
    let mut members: Vec<(String, Json)> = Vec::new();
    members.push(("content".to_owned(), arr));
    members.push(("isError".to_owned(), Json::Bool(false)));
    let result = Json::Obj(members);
    proof {
        reveal_strlit("content");
        reveal_strlit("isError");
        assert("content"@.len() == 7);
        assert("isError"@.len() == 7);
        assert("content"@[0] == 'c' && "isError"@[0] == 'i');
        assert("content"@ != "isError"@);
        assert(result@ == JsonV::Obj(crate::json::obj_view(members@)));
        assert(result@->Obj_0 =~= call_result_json(bv)->Obj_0);
        assert(result@ =~= call_result_json(bv));
        assert(crate::json::distinct_keys(result@->Obj_0));
        assert forall|x: int|
            0 <= x < result@->Obj_0.len() implies wf(#[trigger] result@->Obj_0[x].1) by {}
        crate::json::lemma_wf_obj_intro(result@->Obj_0);
    }
    let ghost resv = result@;
    let ghost idv = match id {
        Some(ref j) => Some(j@),
        None => None::<JsonV>,
    };
    match crate::envelope::create_success_response(id, result) {
        Ok(env) => {
            proof {
                crate::envelope::lemma_success_wf(opt_id(idv), resv);
            }
            RpcOutcome::Success(env)
        },
        Err(e) => {
            let mut m = "Failed to build response: ".to_owned();
            m.append(e.as_str());
            fail(None, -32603, m)
        },
    }
}

} // verus!
