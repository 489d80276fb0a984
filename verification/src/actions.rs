//! Translation of an action backend's result into normalized content
//! blocks, and the payload handed to the backend.
use vstd::prelude::*;
use crate::json::{Json, JsonV, wf};
use crate::schema::{get_str, get_arr};
use crate::ser::ser;

verus! {

/// What one action invocation yielded: a success flag, an optional
/// structured payload, an optional error message.
#[derive(Debug)]
pub struct ActionResponse {
    pub success: bool,
    pub data: Option<Json>,
    pub error: Option<String>,
}

pub struct ActionResponseV {
    pub success: bool,
    pub data: Option<JsonV>,
    pub error: Option<Seq<char>>,
}

impl View for ActionResponse {
    type V = ActionResponseV;

    open spec fn view(&self) -> ActionResponseV {
        ActionResponseV {
            success: self.success,
            data: match self.data {
                Some(ref d) => Some(d@),
                None => None,
            },
            error: match self.error {
                Some(ref e) => Some(e@),
                None => None,
            },
        }
    }
}

/// Whether a response's payload is well-formed.
pub open spec fn action_response_wf(r: ActionResponseV) -> bool {
    match r.data {
        Some(d) => wf(d),
        None => true,
    }
}

/// What is sent to the action backend: the internal action mapping
/// identifier and the argument bag (or an explicit null).
#[derive(Debug)]
pub struct ActionPayload {
    pub action_id: String,
    pub arguments: Json,
}

pub struct ActionPayloadV {
    pub action_id: Seq<char>,
    pub arguments: JsonV,
}

impl View for ActionPayload {
    type V = ActionPayloadV;

    open spec fn view(&self) -> ActionPayloadV {
        ActionPayloadV { action_id: self.action_id@, arguments: self.arguments@ }
    }
}

/// A normalized unit of tool output: text, or an image with its payload and
/// MIME type.
#[derive(Debug)]
pub enum ContentBlock {
    Text(String),
    Image { data: String, mime_type: String },
}

#[verifier::ext_equal]
pub enum ContentBlockV {
    Text(Seq<char>),
    Image { data: Seq<char>, mime_type: Seq<char> },
}

impl View for ContentBlock {
    type V = ContentBlockV;

    open spec fn view(&self) -> ContentBlockV {
        match self {
            ContentBlock::Text(s) => ContentBlockV::Text(s@),
            ContentBlock::Image { data, mime_type } => ContentBlockV::Image {
                data: data@,
                mime_type: mime_type@,
            },
        }
    }
}

/// The views of a block list.
pub open spec fn blocks_view(bs: Seq<ContentBlock>) -> Seq<ContentBlockV> {
    Seq::new(
        bs.len(),
        |i: int|
            if 0 <= i < bs.len() {
                bs[i]@
            } else {
                ContentBlockV::Text(Seq::empty())
            },
    )
}

/// The blocks contributed by one element of a `content` array: a `text`
/// element needs a text field, an `image` element both a data payload and a
/// MIME type; anything else is skipped.
pub open spec fn content_item_blocks(item: JsonV) -> Seq<ContentBlockV> {
    match get_str(item, "type"@) {
        Some(t) => {
            if t == "text"@ {
                match get_str(item, "text"@) {
                    Some(txt) => seq![ContentBlockV::Text(txt)],
                    None => Seq::empty(),
                }
            } else if t == "image"@ {
                match (get_str(item, "data"@), get_str(item, "mimeType"@)) {
                    (Some(d), Some(m)) => seq![ContentBlockV::Image { data: d, mime_type: m }],
                    _ => Seq::empty(),
                }
            } else {
                Seq::empty()
            }
        },
        None => Seq::empty(),
    }
}

/// The blocks of a whole `content` array.
pub open spec fn content_array_blocks(a: Seq<JsonV>, i: int) -> Seq<ContentBlockV>
    decreases a.len() - i,
{
    if 0 <= i < a.len() {
        content_item_blocks(a[i]) + content_array_blocks(a, i + 1)
    } else {
        Seq::empty()
    }
}

/// The translation rule from an action result to content blocks: a failure
/// is one text block with the error; a bare string payload is one text
/// block; a mapping with a `text` member yields that text; a mapping with a
/// `content` array is translated element by element; anything else is
/// rendered whole; no payload at all yields a fixed completion notice.
pub open spec fn action_output_spec(r: ActionResponseV) -> Seq<ContentBlockV> {
    if !r.success {
        seq![
            ContentBlockV::Text(
                "Error: "@ + (match r.error {
                    Some(e) => e,
                    None => "Unknown error"@,
                }),
            ),
        ]
    } else {
        match r.data {
            None => seq![ContentBlockV::Text("Action completed successfully"@)],
            Some(d) => match d {
                JsonV::Str(s) => seq![ContentBlockV::Text(s)],
                _ => match get_str(d, "text"@) {
                    Some(t) => seq![ContentBlockV::Text(t)],
                    None => match get_arr(d, "content"@) {
                        Some(ca) => content_array_blocks(ca, 0),
                        None => seq![ContentBlockV::Text(ser(d, true, 0))],
                    },
                },
            },
        }
    }
}

/// Translates the elements of a `content` array, skipping partial or
/// unrecognized elements.
#[verifier::loop_isolation(false)]
#[verifier::rlimit(60)]
pub fn parse_content_array(content_array: &Vec<Json>) -> (r: Result<Vec<ContentBlock>, String>)
    ensures
        r matches Ok(bs) && blocks_view(bs@) == content_array_blocks(
            crate::json::arr_view(content_array@),
            0,
        ),
{
    let ghost av = crate::json::arr_view(content_array@);
    let mut blocks: Vec<ContentBlock> = Vec::new();
    let mut i: usize = 0;
    while i < content_array.len()
        invariant
            0 <= i <= content_array.len(),
            content_array_blocks(av, 0) == blocks_view(blocks@) + content_array_blocks(
                av,
                i as int,
            ),
        decreases content_array.len() - i,
    {
        proof {
            assert(av[i as int] == content_array@[i as int]@);
        }
        let item = &content_array[i];
        let ghost before = blocks_view(blocks@);
        match item.get("type") {
            Some(Json::Str(t)) => {
                if crate::text::str_eq(t.as_str(), "text") {
                    match item.get("text") {
                        Some(Json::Str(txt)) => {
                            blocks.push(ContentBlock::Text(txt.clone()));
                            proof {
                                assert(blocks_view(blocks@) =~= before + content_item_blocks(
                                    av[i as int],
                                ));
                            }
                        },
                        _ => {},
                    }
                } else if crate::text::str_eq(t.as_str(), "image") {
                    let d: Option<&String> = match item.get("data") {
                        Some(Json::Str(d)) => Some(d),
                        _ => None,
                    };
                    let m: Option<&String> = match item.get("mimeType") {
                        Some(Json::Str(m)) => Some(m),
                        _ => None,
                    };
                    match (d, m) {
                        (Some(d), Some(m)) => {
                            blocks.push(
                                ContentBlock::Image { data: d.clone(), mime_type: m.clone() },
                            );
                            proof {
                                assert(blocks_view(blocks@) =~= before + content_item_blocks(
                                    av[i as int],
                                ));
                            }
                        },
                        _ => {},
                    }
                }
            },
            _ => {},
        }
        proof {
            assert(content_array_blocks(av, 0) =~= blocks_view(blocks@) + content_array_blocks(
                av,
                i + 1,
            ));
        }
        i = i + 1;
    }
    proof {
        assert(content_array_blocks(av, content_array@.len() as int) == Seq::<
            ContentBlockV,
        >::empty());
        assert(content_array_blocks(av, 0) =~= blocks_view(blocks@));
    }
    Ok(blocks)
}

/// Translates an action invocation result into content blocks, by the
/// translation rule.
pub fn parse_action_output(action_response: &ActionResponse) -> (r: Result<
    Vec<ContentBlock>,
    String,
>)
    requires
        action_response_wf(action_response@),
    ensures
        r matches Ok(bs) && blocks_view(bs@) == action_output_spec(action_response@),
{
    if !action_response.success {
        let mut m = "Error: ".to_owned();
        match &action_response.error {
            Some(e) => {
                m.append(e.as_str());
                proof {
                    assert(m@ =~= "Error: "@ + action_response@.error->Some_0);
                }
            },
            None => {
                m.append("Unknown error");
                proof {
                    assert(m@ =~= "Error: "@ + "Unknown error"@);
                }
            },
        }
        let mut blocks: Vec<ContentBlock> = Vec::new();
        blocks.push(ContentBlock::Text(m));
        proof {
            assert(blocks_view(blocks@) =~= action_output_spec(action_response@));
        }
        return Ok(blocks);
    }
    let d: &Json = match &action_response.data {
        None => {
            let mut blocks: Vec<ContentBlock> = Vec::new();
            blocks.push(ContentBlock::Text("Action completed successfully".to_owned()));
            proof {
                assert(blocks_view(blocks@) =~= action_output_spec(action_response@));
            }
            return Ok(blocks);
        },
        Some(d) => d,
    };
    match d {
        Json::Str(s) => {
            let mut blocks: Vec<ContentBlock> = Vec::new();
            blocks.push(ContentBlock::Text(s.clone()));
            proof {
                assert(blocks_view(blocks@) =~= action_output_spec(action_response@));
            }
            Ok(blocks)
        },
        _ => {
            match d.get("text") {
                Some(Json::Str(t)) => {
                    let mut blocks: Vec<ContentBlock> = Vec::new();
                    blocks.push(ContentBlock::Text(t.clone()));
                    proof {
                        assert(blocks_view(blocks@) =~= action_output_spec(action_response@));
                    }
                    return Ok(blocks);
                },
                _ => {},
            }
            match d.get("content") {
                Some(Json::Arr(ca)) => {
                    let r = parse_content_array(ca);
                    proof {
                        match r {
                            Ok(ref bs) => {
                                assert(blocks_view(bs@) =~= action_output_spec(
                                    action_response@,
                                ));
                            },
                            Err(_) => {},
                        }
                    }
                    return r;
                },
                _ => {},
            }
            let text = crate::ser::json_to_string_pretty(d);
            let mut blocks: Vec<ContentBlock> = Vec::new();
            blocks.push(ContentBlock::Text(text));
            proof {
                assert(blocks_view(blocks@) =~= action_output_spec(action_response@));
            }
            Ok(blocks)
        },
    }
}

} // verus!
