//! Server configuration: tool definitions keyed by a server identity, read
//! from the key/value pairs that a configuration store hands over.
use vstd::prelude::*;
use crate::json::{Json, JsonV, get_member, wf};
use crate::schema::{get_str, get_arr};

verus! {

/// A tool definition as exposed to callers: name, description, input
/// contract.
#[derive(Debug)]
pub struct ToolDef {
    pub name: String,
    pub description: Option<String>,
    pub input_schema: Json,
}

/// The mathematical model of a tool definition.
pub struct ToolDefV {
    pub name: Seq<char>,
    pub description: Option<Seq<char>>,
    pub input_schema: JsonV,
}

impl View for ToolDef {
    type V = ToolDefV;

    open spec fn view(&self) -> ToolDefV {
        ToolDefV {
            name: self.name@,
            description: match self.description {
                Some(ref d) => Some(d@),
                None => None,
            },
            input_schema: self.input_schema@,
        }
    }
}

/// A tool definition together with its internal action mapping identifier.
/// The identifier binds the tool to a backend operation and is never exposed
/// to callers.
#[derive(Debug)]
pub struct ToolWithAction {
    pub tool: ToolDef,
    pub action_id: String,
}

pub struct ToolWithActionV {
    pub tool: ToolDefV,
    pub action_id: Seq<char>,
}

impl View for ToolWithAction {
    type V = ToolWithActionV;

    open spec fn view(&self) -> ToolWithActionV {
        ToolWithActionV { tool: self.tool@, action_id: self.action_id@ }
    }
}

/// One server identity and its ordered tool definitions.
#[derive(Debug)]
pub struct McpServerConfig {
    pub id: String,
    pub tools: Vec<ToolWithAction>,
}

pub struct McpServerConfigV {
    pub id: Seq<char>,
    pub tools: Seq<ToolWithActionV>,
}

/// The views of a tool list.
pub open spec fn tools_view(ts: Seq<ToolWithAction>) -> Seq<ToolWithActionV> {
    Seq::new(
        ts.len(),
        |i: int|
            if 0 <= i < ts.len() {
                ts[i]@
            } else {
                ToolWithActionV {
                    tool: ToolDefV {
                        name: Seq::empty(),
                        description: None,
                        input_schema: JsonV::Null,
                    },
                    action_id: Seq::empty(),
                }
            },
    )
}

impl View for McpServerConfig {
    type V = McpServerConfigV;

    open spec fn view(&self) -> McpServerConfigV {
        McpServerConfigV { id: self.id@, tools: tools_view(self.tools@) }
    }
}

/// Every server configuration held by the store.
#[derive(Debug)]
pub struct McpServersConfig {
    pub mcp_servers: Vec<McpServerConfig>,
}

/// The views of a server list.
pub open spec fn servers_view(ss: Seq<McpServerConfig>) -> Seq<McpServerConfigV> {
    Seq::new(
        ss.len(),
        |i: int|
            if 0 <= i < ss.len() {
                ss[i]@
            } else {
                McpServerConfigV { id: Seq::empty(), tools: Seq::empty() }
            },
    )
}

impl View for McpServersConfig {
    type V = Seq<McpServerConfigV>;

    open spec fn view(&self) -> Seq<McpServerConfigV> {
        servers_view(self.mcp_servers@)
    }
}

/// The views of the configuration store's key/value pairs.
pub open spec fn pairs_view(ps: Seq<(String, String)>) -> Seq<(Seq<char>, Seq<char>)> {
    Seq::new(
        ps.len(),
        |i: int|
            if 0 <= i < ps.len() {
                (ps[i].0@, ps[i].1@)
            } else {
                (Seq::<char>::empty(), Seq::<char>::empty())
            },
    )
}

/// Every tool schema of a server configuration is well-formed.
pub open spec fn server_cfg_wf(c: McpServerConfigV) -> bool {
    forall|i: int| 0 <= i < c.tools.len() ==> wf(#[trigger] c.tools[i].tool.input_schema)
}

/// A tool definition read from its configuration value: `name` and
/// `action-id` must be strings, `inputSchema` an object, and `description`,
/// when present, a string.
pub open spec fn tool_from_json(v: JsonV) -> Option<ToolWithActionV> {
    match (get_str(v, "name"@), get_str(v, "action-id"@), get_member(v, "inputSchema"@)) {
        (Some(n), Some(a), Some(sch)) => {
            if !(sch is Obj) {
                None
            } else {
                match get_member(v, "description"@) {
                    Some(JsonV::Str(d)) => Some(
                        ToolWithActionV {
                            tool: ToolDefV { name: n, description: Some(d), input_schema: sch },
                            action_id: a,
                        },
                    ),
                    Some(_) => None,
                    None => Some(
                        ToolWithActionV {
                            tool: ToolDefV { name: n, description: None, input_schema: sch },
                            action_id: a,
                        },
                    ),
                }
            }
        },
        _ => None,
    }
}

/// A tool list read from its configuration values; every entry must parse.
pub open spec fn tools_from_json(a: Seq<JsonV>, i: int) -> Option<Seq<ToolWithActionV>>
    decreases a.len() - i,
{
    if 0 <= i < a.len() {
        match (tool_from_json(a[i]), tools_from_json(a, i + 1)) {
            (Some(t), Some(rest)) => Some(seq![t] + rest),
            _ => None,
        }
    } else {
        Some(Seq::empty())
    }
}

/// A server configuration read from its value: a string `id` and an array
/// of tools.
pub open spec fn server_from_json(v: JsonV) -> Option<McpServerConfigV> {
    match (get_str(v, "id"@), get_arr(v, "tools"@)) {
        (Some(id), Some(ts)) => match tools_from_json(ts, 0) {
            Some(tools) => Some(McpServerConfigV { id, tools }),
            None => None,
        },
        _ => None,
    }
}

/// A server list read from its configuration values.
pub open spec fn servers_from_json_list(a: Seq<JsonV>, i: int) -> Option<Seq<McpServerConfigV>>
    decreases a.len() - i,
{
    if 0 <= i < a.len() {
        match (server_from_json(a[i]), servers_from_json_list(a, i + 1)) {
            (Some(c), Some(rest)) => Some(seq![c] + rest),
            _ => None,
        }
    } else {
        Some(Seq::empty())
    }
}

/// The whole configuration document: an object whose `mcp-servers` member
/// lists the servers.
pub open spec fn servers_from_json(v: JsonV) -> Option<Seq<McpServerConfigV>> {
    match get_arr(v, "mcp-servers"@) {
        Some(a) => servers_from_json_list(a, 0),
        None => None,
    }
}

/// The first value stored under `k`, if any.
pub open spec fn find_pair(ps: Seq<(Seq<char>, Seq<char>)>, k: Seq<char>, i: int) -> Option<
    Seq<char>,
>
    decreases ps.len() - i,
{
    if 0 <= i < ps.len() {
        if ps[i].0 == k {
            Some(ps[i].1)
        } else {
            find_pair(ps, k, i + 1)
        }
    } else {
        None
    }
}

/// What loading the whole configuration from the store's pairs yields: the
/// value under the `mcp_servers` key, parsed and read as a server list.
pub open spec fn load_all_spec(ps: Seq<(Seq<char>, Seq<char>)>) -> Result<
    Seq<McpServerConfigV>,
    Seq<char>,
> {
    match find_pair(ps, "mcp_servers"@, 0) {
        None => Err("mcp_servers key not found in runtime configuration"@),
        Some(raw) => match crate::parse::parse_json_spec(raw) {
            None => Err("Failed to parse mcp_servers config: invalid JSON"@),
            Some(v) => match servers_from_json(v) {
                None => Err("Failed to parse mcp_servers config: invalid configuration shape"@),
                Some(list) => Ok(list),
            },
        },
    }
}

/// The first server with a given identity.
pub open spec fn find_server(list: Seq<McpServerConfigV>, sid: Seq<char>, i: int) -> Option<
    McpServerConfigV,
>
    decreases list.len() - i,
{
    if 0 <= i < list.len() {
        if list[i].id == sid {
            Some(list[i])
        } else {
            find_server(list, sid, i + 1)
        }
    } else {
        None
    }
}

/// What loading one server's configuration yields.
pub open spec fn load_server_spec(ps: Seq<(Seq<char>, Seq<char>)>, sid: Seq<char>) -> Result<
    McpServerConfigV,
    Seq<char>,
> {
    match load_all_spec(ps) {
        Err(e) => Err(e),
        Ok(list) => match find_server(list, sid, 0) {
            Some(c) => Ok(c),
            None => Err("MCP server '"@ + sid + "' not found in configuration"@),
        },
    }
}

/// Reads one tool definition from its configuration value.
fn tool_from_json_exec(v: &Json) -> (r: Option<ToolWithAction>)
    requires
        wf(v@),
    ensures
        match r {
            Some(t) => tool_from_json(v@) == Some(t@) && wf(t.tool.input_schema@),
            None => tool_from_json(v@) is None,
        },
{
    let name: String = match v.get("name") {
        Some(Json::Str(n)) => n.clone(),
        _ => {
            return None;
        },
    };
    let action_id: String = match v.get("action-id") {
        Some(Json::Str(a)) => a.clone(),
        _ => {
            return None;
        },
    };
    let sch: &Json = match v.get("inputSchema") {
        Some(s) => s,
        None => {
            return None;
        },
    };
    match sch {
        Json::Obj(_) => {},
        _ => {
            return None;
        },
    }
    proof {
        crate::json::lemma_wf_member(v@, "inputSchema"@);
    }
    let description: Option<String> = match v.get("description") {
        Some(Json::Str(d)) => Some(d.clone()),
        Some(_) => {
            return None;
        },
        None => None,
    };
    Some(
        ToolWithAction {
            tool: ToolDef { name, description, input_schema: crate::json::json_clone(sch) },
            action_id,
        },
    )
}

/// Reads the whole server list from the parsed configuration document.
#[verifier::loop_isolation(false)]
#[verifier::rlimit(60)]
fn servers_from_json_exec(v: &Json) -> (r: Option<McpServersConfig>)
    requires
        wf(v@),
    ensures
        match r {
            Some(cfg) => servers_from_json(v@) == Some(cfg@) && (forall|i: int|
                0 <= i < cfg@.len() ==> server_cfg_wf(#[trigger] cfg@[i])),
            None => servers_from_json(v@) is None,
        },
{
    let list: &Vec<Json> = match v.get("mcp-servers") {
        Some(Json::Arr(a)) => a,
        _ => {
            return None;
        },
    };
    proof {
        crate::json::lemma_wf_member(v@, "mcp-servers"@);
        crate::json::lemma_wf_arr_elim(crate::json::arr_view(list@));
    }
    let ghost lv = crate::json::arr_view(list@);
    let mut servers: Vec<McpServerConfig> = Vec::new();
    let mut i: usize = 0;
    while i < list.len()
        invariant
            0 <= i <= list.len(),
            servers_from_json_list(lv, 0) matches Some(full) ==> (servers_from_json_list(
                lv,
                i as int,
            ) matches Some(rest) && full == servers_view(servers@) + rest),
            servers_from_json_list(lv, 0) is Some <==> servers_from_json_list(
                lv,
                i as int,
            ) is Some,
            forall|x: int| 0 <= x < servers@.len() ==> server_cfg_wf(#[trigger] servers_view(
                servers@,
            )[x]),
        decreases list.len() - i,
    {
        proof {
            assert(lv[i as int] == list@[i as int]@);
        }
        let c = match server_from_json_exec(&list[i]) {
            Some(c) => c,
            None => {
                return None;
            },
        };
        let ghost before = servers_view(servers@);
        servers.push(c);
        proof {
            assert(servers_view(servers@) =~= before.push(servers@[servers@.len() - 1]@));
            assert(servers_from_json_list(lv, 0) matches Some(full) ==> full =~= servers_view(
                servers@,
            ) + servers_from_json_list(lv, i + 1)->Some_0);
        }
        i = i + 1;
    }
    proof {
        assert(servers_from_json_list(lv, list@.len() as int) == Some(
            Seq::<McpServerConfigV>::empty(),
        ));
        assert(servers_from_json_list(lv, 0) matches Some(full) ==> full =~= servers_view(
            servers@,
        ));
    }
    Some(McpServersConfig { mcp_servers: servers })
}

/// Reads one server's configuration from its value.
#[verifier::loop_isolation(false)]
#[verifier::rlimit(60)]
fn server_from_json_exec(v: &Json) -> (r: Option<McpServerConfig>)
    requires
        wf(v@),
    ensures
        match r {
            Some(c) => server_from_json(v@) == Some(c@) && server_cfg_wf(c@),
            None => server_from_json(v@) is None,
        },
{
    let id: String = match v.get("id") {
        Some(Json::Str(s)) => s.clone(),
        _ => {
            return None;
        },
    };
    let ts: &Vec<Json> = match v.get("tools") {
        Some(Json::Arr(a)) => a,
        _ => {
            return None;
        },
    };
    proof {
        crate::json::lemma_wf_member(v@, "tools"@);
        crate::json::lemma_wf_arr_elim(crate::json::arr_view(ts@));
    }
    let ghost tv = crate::json::arr_view(ts@);
    let mut tools: Vec<ToolWithAction> = Vec::new();
    let mut i: usize = 0;
    while i < ts.len()
        invariant
            0 <= i <= ts.len(),
            tools_from_json(tv, 0) matches Some(full) ==> (tools_from_json(tv, i as int)
                matches Some(rest) && full == tools_view(tools@) + rest),
            tools_from_json(tv, 0) is Some <==> tools_from_json(tv, i as int) is Some,
            forall|x: int|
                0 <= x < tools@.len() ==> wf(#[trigger] tools_view(tools@)[x].tool.input_schema),
        decreases ts.len() - i,
    {
        proof {
            assert(tv[i as int] == ts@[i as int]@);
        }
        let t = match tool_from_json_exec(&ts[i]) {
            Some(t) => t,
            None => {
                return None;
            },
        };
        let ghost before = tools_view(tools@);
        tools.push(t);
        proof {
            assert(tools_view(tools@) =~= before.push(tools@[tools@.len() - 1]@));
            assert(tools_from_json(tv, 0) matches Some(full) ==> full =~= tools_view(tools@)
                + tools_from_json(tv, i + 1)->Some_0);
        }
        i = i + 1;
    }
    proof {
        assert(tools_from_json(tv, ts@.len() as int) == Some(Seq::<ToolWithActionV>::empty()));
        assert(tools_from_json(tv, 0) matches Some(full) ==> full =~= tools_view(tools@));
    }
    Some(McpServerConfig { id, tools })
}

/// Loads every server configuration from the store's key/value pairs: the
/// `mcp_servers` key must be present and hold a parsable configuration.
#[verifier::loop_isolation(false)]
pub fn load_all_servers_config_from_runtime(config: &Vec<(String, String)>) -> (r: Result<
    McpServersConfig,
    String,
>)
    ensures
        match r {
            Ok(cfg) => load_all_spec(pairs_view(config@)) == Ok::<_, Seq<char>>(cfg@) && (
            forall|i: int| 0 <= i < cfg@.len() ==> server_cfg_wf(#[trigger] cfg@[i])),
            Err(m) => load_all_spec(pairs_view(config@)) == Err::<Seq<McpServerConfigV>, _>(m@),
        },
{
    let ghost pv = pairs_view(config@);
    let mut i: usize = 0;
    while i < config.len()
        invariant
            0 <= i <= config.len(),
            find_pair(pv, "mcp_servers"@, 0) == find_pair(pv, "mcp_servers"@, i as int),
        decreases config.len() - i,
    {
        proof {
            assert(pv[i as int] == (config@[i as int].0@, config@[i as int].1@));
        }
        if crate::text::str_eq(config[i].0.as_str(), "mcp_servers") {
            let parsed = match crate::parse::parse_json(config[i].1.as_str()) {
                Some(v) => v,
                None => {
                    return Err("Failed to parse mcp_servers config: invalid JSON".to_owned());
                },
            };
            match servers_from_json_exec(&parsed) {
                Some(cfg) => {
                    return Ok(cfg);
                },
                None => {
                    return Err(
                        "Failed to parse mcp_servers config: invalid configuration shape".to_owned(),
                    );
                },
            }
        }
        i = i + 1;
    }
    Err("mcp_servers key not found in runtime configuration".to_owned())
}

/// Loads the configuration of one server identity; a missing key, an
/// unparsable value or an unknown identity is an error.
#[verifier::loop_isolation(false)]
pub fn load_server_config(server_id: &str, config: &Vec<(String, String)>) -> (r: Result<
    McpServerConfig,
    String,
>)
    ensures
        match r {
            Ok(c) => load_server_spec(pairs_view(config@), server_id@) == Ok::<_, Seq<char>>(c@)
                && server_cfg_wf(c@),
            Err(m) => load_server_spec(pairs_view(config@), server_id@) == Err::<
                McpServerConfigV,
                _,
            >(m@),
        },
{
    let all = match load_all_servers_config_from_runtime(config) {
        Ok(a) => a,
        Err(m) => {
            return Err(m);
        },
    };
    let ghost lv = all@;
    let mut servers = all.mcp_servers;
    let ghost sv = servers@;
    let mut i: usize = 0;
    while i < servers.len()
        invariant
            0 <= i <= servers.len(),
            servers@ == sv,
            lv == servers_view(sv),
            find_server(lv, server_id@, 0) == find_server(lv, server_id@, i as int),
            forall|x: int| 0 <= x < lv.len() ==> server_cfg_wf(#[trigger] lv[x]),
        decreases servers.len() - i,
    {
        proof {
            assert(lv[i as int] == sv[i as int]@);
        }
        if crate::text::str_eq(servers[i].id.as_str(), server_id) {
            let c = servers.remove(i);
            proof {
                assert(c@ == lv[i as int]);
            }
            return Ok(c);
        }
        i = i + 1;
    }
    let mut m = "MCP server '".to_owned();
    m.append(server_id);
    m.append("' not found in configuration");
    proof {
        assert(m@ =~= "MCP server '"@ + server_id@ + "' not found in configuration"@);
    }
    Err(m)
}

/// Whether a server identity exists in the configuration; the lookup failure
/// or the missing identity is reported.
pub fn check_server_id_exists(server_id: &str, config: &Vec<(String, String)>) -> (r: Result<
    (),
    String,
>)
    ensures
        match r {
            Ok(_) => load_server_spec(pairs_view(config@), server_id@) is Ok,
            Err(m) => load_server_spec(pairs_view(config@), server_id@) == Err::<
                McpServerConfigV,
                _,
            >(m@),
        },
{
    match load_server_config(server_id, config) {
        Ok(_) => Ok(()),
        Err(m) => Err(m),
    }
}

} // verus!
