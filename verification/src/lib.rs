//! A JSON-RPC tool gateway: it parses a request envelope, validates tool
//! arguments against a JSON-Schema-like contract, prepares calls to an action
//! backend, and builds well-formed success or error envelopes for every
//! failure mode. This crate holds the whole request-processing pipeline; the
//! host around it only moves bytes and runs the backend.
pub mod actions;
pub mod config;
pub mod dispatch;
pub mod envelope;
pub mod json;
pub mod laws;
pub mod num;
pub mod parse;
pub mod schema;
pub mod ser;
pub mod text;

use vstd::prelude::*;
use vstd::string::StrSliceExecFns;
use vstd::string::StringSliceAdditionalSpecFns;

verus! {

/// The character `c` lowered to its ASCII lowercase.
pub open spec fn ascii_lower_char(c: char) -> char {
    if 65 <= c as u32 && c as u32 <= 90 {
        ((c as u32 + 32) as u32) as char
    } else {
        c
    }
}

/// A string lowered character by character.
pub open spec fn ascii_lower(s: Seq<char>) -> Seq<char> {
    Seq::new(
        s.len(),
        |i: int|
            if 0 <= i < s.len() {
                ascii_lower_char(s[i])
            } else {
                ' '
            },
    )
}

/// Whether `needle` occurs contiguously inside `hay`.
pub open spec fn bytes_contains(hay: Seq<u8>, needle: Seq<u8>) -> bool {
    exists|i: int|
        0 <= i && i + needle.len() <= hay.len() && #[trigger] hay.subrange(i, i + needle.len())
            == needle
}

/// The views of header pairs.
pub open spec fn headers_view(hs: Seq<(String, Vec<u8>)>) -> Seq<(Seq<char>, Seq<u8>)> {
    Seq::new(
        hs.len(),
        |i: int|
            if 0 <= i < hs.len() {
                (hs[i].0@, hs[i].1@)
            } else {
                (Seq::<char>::empty(), Seq::<u8>::empty())
            },
    )
}

/// Whether one header names the JSON content type: its key lowers to
/// `content-type` and its value contains `application/json`.
pub open spec fn header_is_json(k: Seq<char>, v: Seq<u8>) -> bool {
    ascii_lower(k) == "content-type"@ && bytes_contains(v, "application/json".spec_bytes())
}

/// Whether some header names the JSON content type.
pub open spec fn has_json_content_type(hs: Seq<(Seq<char>, Seq<u8>)>) -> bool {
    exists|i: int| 0 <= i < hs.len() && header_is_json((#[trigger] hs[i]).0, hs[i].1)
}

/// ASCII lowering of one character.
fn lower_char(c: char) -> (r: char)
    ensures
        r == ascii_lower_char(c),
{
    let u = c as u32;
    if 65 <= u && u <= 90 {
        match crate::text::char_from_u32(u + 32) {
            Some(l) => {
                proof {
                    vstd::utf8::char_u32_cast(l, (u + 32) as u32);
                }
                l
            },
            None => {
                proof {
                    assert(false);
                }
                c
            },
        }
    } else {
        c
    }
}

/// Whether a header key names the content type, ignoring ASCII case.
fn key_is_content_type(k: &str) -> (r: bool)
    ensures
        r == (ascii_lower(k@) == "content-type"@),
{
    let t = crate::text::str_to_chars(k);
    let pat = crate::text::str_to_chars("content-type");
    proof {
        reveal_strlit("content-type");
    }
    if t.len() != pat.len() {
        proof {
            assert(ascii_lower(k@).len() != "content-type"@.len());
        }
        return false;
    }
    let mut i: usize = 0;
    while i < t.len()
        invariant
            0 <= i <= t.len(),
            t@ == k@,
            pat@ == "content-type"@,
            t@.len() == pat@.len(),
            forall|j: int| 0 <= j < i ==> ascii_lower(k@)[j] == "content-type"@[j],
        decreases t.len() - i,
    {
        if lower_char(t[i]) != pat[i] {
            proof {
                assert(ascii_lower(k@)[i as int] != "content-type"@[i as int]);
            }
            return false;
        }
        i = i + 1;
    }
    proof {
        assert(ascii_lower(k@) =~= "content-type"@);
    }
    true
}

/// Whether `needle` occurs inside `hay`.
#[verifier::loop_isolation(false)]
fn bytes_find(hay: &Vec<u8>, needle: &[u8]) -> (r: bool)
    requires
        needle@.len() >= 1,
    ensures
        r == bytes_contains(hay@, needle@),
{
    if hay.len() < needle.len() {
        proof {
            assert(!bytes_contains(hay@, needle@));
        }
        return false;
    }
    let mut i: usize = 0;
    while i <= hay.len() - needle.len()
        invariant
            0 <= i <= hay@.len() - needle@.len() + 1,
            forall|x: int|
                0 <= x < i ==> #[trigger] hay@.subrange(x, x + needle@.len()) != needle@,
        decreases hay.len() - i,
    {
        let mut j: usize = 0;
        let mut matched = true;
        while j < needle.len()
            invariant
                0 <= j <= needle@.len(),
                i + needle@.len() <= hay@.len(),
                matched ==> forall|y: int| 0 <= y < j ==> hay@[i + y] == needle@[y],
                !matched ==> hay@.subrange(i as int, i + needle@.len()) != needle@,
            decreases needle.len() - j,
        {
            if hay[i + j] != needle[j] {
                matched = false;
                proof {
                    let ghost jj = j as int;
                    assert(hay@.subrange(i as int, i + needle@.len())[jj] != needle@[jj]);
                    assert(hay@.subrange(i as int, i + needle@.len()) != needle@);
                }
                break ;
            }
            j = j + 1;
        }
        if matched {
            proof {
                assert(hay@.subrange(i as int, i + needle@.len()) =~= needle@);
                assert(bytes_contains(hay@, needle@));
            }
            return true;
        }
        proof {
            assert(hay@.subrange(i as int, i + needle@.len()) != needle@);
        }
        i = i + 1;
    }
    proof {
        assert forall|x: int|
            0 <= x && x + needle@.len() <= hay@.len() implies #[trigger] hay@.subrange(
            x,
            x + needle@.len(),
        ) != needle@ by {
            assert(x < i);
        }
    }
    false
}

/// Checks that some header declares the JSON content type; every request
/// must carry one.
pub fn validate_content_type(headers: &Vec<(String, Vec<u8>)>) -> (r: Result<(), String>)
    ensures
        match r {
            Ok(_) => has_json_content_type(headers_view(headers@)),
            Err(m) => !has_json_content_type(headers_view(headers@)) && m@
                == "Content-Type must be application/json"@,
        },
{
    let ghost hv = headers_view(headers@);
    let needle: &[u8] = "application/json".as_bytes();
    let mut i: usize = 0;
    proof {
        reveal_strlit("application/json");
        assert("application/json"@.len() == 16);
        vstd::string::is_ascii_spec_bytes("application/json");
        assert(needle@.len() >= 1);
    }
    while i < headers.len()
        invariant
            0 <= i <= headers.len(),
            hv == headers_view(headers@),
            needle@ == "application/json".spec_bytes(),
            needle@.len() >= 1,
            forall|x: int| 0 <= x < i ==> !header_is_json((#[trigger] hv[x]).0, hv[x].1),
        decreases headers.len() - i,
    {
        proof {
            assert(hv[i as int] == (headers@[i as int].0@, headers@[i as int].1@));
        }
        if key_is_content_type(headers[i].0.as_str()) {
            if bytes_find(&headers[i].1, needle) {
                proof {
                    assert(header_is_json(hv[i as int].0, hv[i as int].1));
                }
                return Ok(());
            }
        }
        i = i + 1;
    }
    proof {
        assert(!has_json_content_type(hv));
    }
    Err("Content-Type must be application/json".to_owned())
}

/// First index in `[i, end)` holding `c`, or `end`.
pub open spec fn char_index_upto(s: Seq<char>, c: char, i: int, end: int) -> int
    decreases end - i,
{
    if i < end && 0 <= i < s.len() {
        if s[i] == c {
            i
        } else {
            char_index_upto(s, c, i + 1, end)
        }
    } else {
        end
    }
}

/// What extracting the server identity from a path yields: the second path
/// segment must be `mcp`, and the third, cut at a query marker, must be
/// non-empty.
pub open spec fn extract_sid_spec(s: Seq<char>) -> Result<Seq<char>, Seq<char>> {
    let p1 = char_index_upto(s, '/', 0, s.len() as int);
    if p1 >= s.len() {
        Err("Invalid path format. Expected /mcp/{server-id}"@)
    } else {
        let p2 = char_index_upto(s, '/', p1 + 1, s.len() as int);
        if p2 >= s.len() {
            Err("Invalid path format. Expected /mcp/{server-id}"@)
        } else if s.subrange(p1 + 1, p2) != "mcp"@ {
            Err("Invalid path format. Expected /mcp/{server-id}"@)
        } else {
            let p3 = char_index_upto(s, '/', p2 + 1, s.len() as int);
            let q = char_index_upto(s, '?', p2 + 1, p3);
            if q == p2 + 1 {
                Err("Server ID cannot be empty. Expected /mcp/{server-id}"@)
            } else {
                Ok(s.subrange(p2 + 1, q))
            }
        }
    }
}

/// Scan for one character.
fn find_char(t: &Vec<char>, c: char, from: usize, end: usize) -> (r: usize)
    requires
        from <= end <= t.len(),
    ensures
        r == char_index_upto(t@, c, from as int, end as int),
        from <= r <= end,
{
    let mut i = from;
    while i < end && t[i] != c
        invariant
            from <= i <= end,
            end <= t.len(),
            char_index_upto(t@, c, from as int, end as int) == char_index_upto(
                t@,
                c,
                i as int,
                end as int,
            ),
        decreases end - i,
    {
        i = i + 1;
    }
    i
}

/// Extracts the server identity from a request path of the form
/// `/mcp/{server-id}`, dropping any query suffix.
#[verifier::loop_isolation(false)]
#[verifier::rlimit(60)]
pub fn extract_server_id_from_path(path: &str) -> (r: Result<String, String>)
    ensures
        match r {
            Ok(sid) => extract_sid_spec(path@) == Ok::<_, Seq<char>>(sid@),
            Err(m) => extract_sid_spec(path@) == Err::<Seq<char>, _>(m@),
        },
{
    let t = crate::text::str_to_chars(path);
    let p1 = find_char(&t, '/', 0, t.len());
    if p1 >= t.len() {
        return Err("Invalid path format. Expected /mcp/{server-id}".to_owned());
    }
    let p2 = find_char(&t, '/', p1 + 1, t.len());
    if p2 >= t.len() {
        return Err("Invalid path format. Expected /mcp/{server-id}".to_owned());
    }
    let mcp = crate::text::str_to_chars("mcp");
    proof {
        reveal_strlit("mcp");
        assert("mcp"@.len() == 3);
    }
    let seg_len = p2 - (p1 + 1);
    let mut mcp_ok = seg_len == 3;
    if mcp_ok {
        let mut j: usize = 0;
        while j < 3
            invariant
                0 <= j <= 3,
                seg_len == 3,
                mcp_ok ==> forall|y: int| 0 <= y < j ==> path@[p1 + 1 + y] == "mcp"@[y],
                !mcp_ok ==> path@.subrange(p1 + 1, p2 as int) != "mcp"@,
            decreases 3 - j,
        {
            if mcp_ok && t[p1 + 1 + j] != mcp[j] {
                mcp_ok = false;
                proof {
                    assert(path@.subrange(p1 + 1, p2 as int)[j as int] != "mcp"@[j as int]);
                    assert(path@.subrange(p1 + 1, p2 as int) != "mcp"@);
                }
            }
            j = j + 1;
        }
    }
    if !mcp_ok {
        proof {
            assert(path@.subrange(p1 + 1, p2 as int) != "mcp"@);
        }
        return Err("Invalid path format. Expected /mcp/{server-id}".to_owned());
    }
    proof {
        assert(path@.subrange(p1 + 1, p2 as int) =~= "mcp"@);
    }
    let p3 = find_char(&t, '/', p2 + 1, t.len());
    let q = find_char(&t, '?', p2 + 1, p3);
    if q == p2 + 1 {
        return Err("Server ID cannot be empty. Expected /mcp/{server-id}".to_owned());
    }
    let sid = path.substring_char(p2 + 1, q).to_owned();
    proof {
        assert(sid@ == path@.subrange(p2 + 1, q as int));
    }
    Ok(sid)
}

/// Decodes a request body read from the wire; it must be UTF-8.
pub fn read_request_body(buf: Vec<u8>) -> (r: Result<String, String>)
    ensures
        match r {
            Ok(s) => vstd::utf8::valid_utf8(buf@) && s@ == vstd::utf8::decode_utf8(buf@),
            Err(m) => !vstd::utf8::valid_utf8(buf@) && m@ == "Invalid UTF-8 in body"@,
        },
{
    match crate::text::string_from_utf8(buf) {
        Some(s) => Ok(s),
        None => Err("Invalid UTF-8 in body".to_owned()),
    }
}

/// The serialized error body a transport failure is answered with: a domain
/// error envelope with a null identifier.
pub fn transport_error_body(message: &str) -> (r: String)
    ensures
        r@ == crate::ser::ser(
            crate::envelope::error_envelope(crate::json::JsonV::Null, -32000, message@),
            false,
            0,
        ),
{
    let env = crate::envelope::fallback_error_response(None, -32000, message);
    proof {
        crate::envelope::lemma_error_wf(crate::json::JsonV::Null, -32000, message@);
    }
    crate::ser::json_to_string(&env)
}

} // verus!
