//! Rendering of structured values back to text, in a compact and in an
//! indented form, proved equal to a specification-level renderer.
use vstd::prelude::*;
use crate::json::{Json, JsonV};
use crate::num::num_str;

verus! {

/// One lowercase hexadecimal digit.
pub open spec fn hexdig(d: int) -> char {
    if d == 0 {
        '0'
    } else if d == 1 {
        '1'
    } else if d == 2 {
        '2'
    } else if d == 3 {
        '3'
    } else if d == 4 {
        '4'
    } else if d == 5 {
        '5'
    } else if d == 6 {
        '6'
    } else if d == 7 {
        '7'
    } else if d == 8 {
        '8'
    } else if d == 9 {
        '9'
    } else if d == 10 {
        'a'
    } else if d == 11 {
        'b'
    } else if d == 12 {
        'c'
    } else if d == 13 {
        'd'
    } else if d == 14 {
        'e'
    } else {
        'f'
    }
}

/// The rendering of one character inside a string literal.
pub open spec fn esc_char(c: char) -> Seq<char> {
    if c == '"' {
        seq!['\\', '"']
    } else if c == '\\' {
        seq!['\\', '\\']
    } else if c == '\n' {
        seq!['\\', 'n']
    } else if c == '\r' {
        seq!['\\', 'r']
    } else if c == '\t' {
        seq!['\\', 't']
    } else if c == '\u{0008}' {
        seq!['\\', 'b']
    } else if c == '\u{000C}' {
        seq!['\\', 'f']
    } else if (c as u32) < 0x20 {
        seq!['\\', 'u', '0', '0', hexdig(c as u32 as int / 16), hexdig(c as u32 as int % 16)]
    } else {
        seq![c]
    }
}

/// The rendering of the characters of a string from index `i` on.
pub open spec fn esc_str(s: Seq<char>, i: int) -> Seq<char>
    decreases s.len() - i,
{
    if 0 <= i < s.len() {
        esc_char(s[i]) + esc_str(s, i + 1)
    } else {
        Seq::empty()
    }
}

/// A string literal: quotes around the escaped contents.
pub open spec fn str_lit(s: Seq<char>) -> Seq<char> {
    seq!['"'] + esc_str(s, 0) + seq!['"']
}

/// Two spaces per indentation level.
pub open spec fn indent(n: nat) -> Seq<char>
    decreases n,
{
    if n == 0 {
        Seq::empty()
    } else {
        indent((n - 1) as nat) + seq![' ', ' ']
    }
}

/// The next indentation level, capped so that it always fits a machine word.
pub open spec fn lvl_succ(l: nat) -> nat {
    if l < 1_000_000_000 {
        (l + 1) as nat
    } else {
        l
    }
}

/// The rendering of a value. With `pretty`, arrays and objects spread over
/// lines indented two spaces per level; otherwise everything is on one line.
pub open spec fn ser(v: JsonV, pretty: bool, l: nat) -> Seq<char>
    decreases v, 0int,
{
    match v {
        JsonV::Null => seq!['n', 'u', 'l', 'l'],
        JsonV::Bool(b) => if b {
            seq!['t', 'r', 'u', 'e']
        } else {
            seq!['f', 'a', 'l', 's', 'e']
        },
        JsonV::Num { m, s } => num_str(m, s),
        JsonV::Str(s) => str_lit(s),
        JsonV::Arr(a) => if a.len() == 0 {
            seq!['[', ']']
        } else if pretty {
            seq!['['] + ser_items(a, 0, true, lvl_succ(l)) + seq!['\n'] + indent(l) + seq![']']
        } else {
            seq!['['] + ser_items(a, 0, false, l) + seq![']']
        },
        JsonV::Obj(o) => if o.len() == 0 {
            seq!['{', '}']
        } else if pretty {
            seq!['{'] + ser_members(o, 0, true, lvl_succ(l)) + seq!['\n'] + indent(l) + seq![
                '}',
            ]
        } else {
            seq!['{'] + ser_members(o, 0, false, l) + seq!['}']
        },
    }
}

/// The rendering of the elements of an array from index `i` on.
pub open spec fn ser_items(a: Seq<JsonV>, i: int, pretty: bool, l: nat) -> Seq<char>
    decreases a, a.len() - i,
{
    if 0 <= i < a.len() {
        let lead: Seq<char> = if pretty {
            seq!['\n'] + indent(l)
        } else {
            Seq::empty()
        };
        let rest: Seq<char> = if i + 1 < a.len() {
            seq![','] + ser_items(a, i + 1, pretty, l)
        } else {
            Seq::empty()
        };
        lead + ser(a[i], pretty, l) + rest
    } else {
        Seq::empty()
    }
}

/// The rendering of the members of an object from index `i` on.
pub open spec fn ser_members(o: Seq<(Seq<char>, JsonV)>, i: int, pretty: bool, l: nat) -> Seq<
    char,
>
    decreases o, o.len() - i,
{
    if 0 <= i < o.len() {
        let lead: Seq<char> = if pretty {
            seq!['\n'] + indent(l)
        } else {
            Seq::empty()
        };
        let sep: Seq<char> = if pretty {
            seq![':', ' ']
        } else {
            seq![':']
        };
        let rest: Seq<char> = if i + 1 < o.len() {
            seq![','] + ser_members(o, i + 1, pretty, l)
        } else {
            Seq::empty()
        };
        lead + str_lit(o[i].0) + sep + ser(o[i].1, pretty, l) + rest
    } else {
        Seq::empty()
    }
}

/// One lowercase hexadecimal digit as a string slice.
fn hexdig_str(d: u32) -> (r: &'static str)
    requires
        d < 16,
    ensures
        r@ == seq![hexdig(d as int)],
{
    proof {
        reveal_strlit("a");
        reveal_strlit("b");
        reveal_strlit("c");
        reveal_strlit("d");
        reveal_strlit("e");
        reveal_strlit("f");
    }
    if d < 10 {
        crate::num::digit_str(d as u64)
    } else {
        let r = if d == 10 {
            "a"
        } else if d == 11 {
            "b"
        } else if d == 12 {
            "c"
        } else if d == 13 {
            "d"
        } else if d == 14 {
            "e"
        } else {
            "f"
        };
        proof {
            assert(r@ =~= seq![hexdig(d as int)]);
        }
        r
    }
}

/// Appends the escaped form of one character.
fn write_esc_char(c: char, out: &mut String)
    ensures
        final(out)@ == old(out)@ + esc_char(c),
{
    let u = c as u32;
    if c == '"' {
        out.append("\\\"");
        proof {
            reveal_strlit("\\\"");
            assert(out@ =~= old(out)@ + esc_char(c));
        }
    } else if c == '\\' {
        out.append("\\\\");
        proof {
            reveal_strlit("\\\\");
            assert(out@ =~= old(out)@ + esc_char(c));
        }
    } else if c == '\n' {
        out.append("\\n");
        proof {
            reveal_strlit("\\n");
            assert(out@ =~= old(out)@ + esc_char(c));
        }
    } else if c == '\r' {
        out.append("\\r");
        proof {
            reveal_strlit("\\r");
            assert(out@ =~= old(out)@ + esc_char(c));
        }
    } else if c == '\t' {
        out.append("\\t");
        proof {
            reveal_strlit("\\t");
            assert(out@ =~= old(out)@ + esc_char(c));
        }
    } else if u == 0x8 {
        out.append("\\b");
        proof {
            reveal_strlit("\\b");
            assert(c == '\u{0008}') by {
                vstd::utf8::char_u32_cast(c, u);
            }
            assert(out@ =~= old(out)@ + esc_char(c));
        }
    } else if u == 0xC {
        out.append("\\f");
        proof {
            reveal_strlit("\\f");
            assert(c == '\u{000C}') by {
                vstd::utf8::char_u32_cast(c, u);
            }
            assert(out@ =~= old(out)@ + esc_char(c));
        }
    } else if u < 0x20 {
        out.append("\\u00");
        out.append(hexdig_str(u / 16));
        out.append(hexdig_str(u % 16));
        proof {
            reveal_strlit("\\u00");
            assert(out@ =~= old(out)@ + esc_char(c));
        }
    } else {
        crate::text::push_char(out, c);
        proof {
            assert(out@ =~= old(out)@ + esc_char(c));
        }
    }
}

/// Appends a string literal.
fn write_str_lit(s: &str, out: &mut String)
    ensures
        final(out)@ == old(out)@ + str_lit(s@),
{
    let t = crate::text::str_to_chars(s);
    proof {
        reveal_strlit("\"");
    }
    out.append("\"");
    let mut i: usize = 0;
    while i < t.len()
        invariant
            0 <= i <= t.len(),
            t@ == s@,
            out@ == old(out)@ + seq!['"'] + esc_str(s@, 0).subrange(
                0,
                (esc_str(s@, 0).len() - esc_str(s@, i as int).len()) as int,
            ),
            esc_str(s@, 0) == esc_str(s@, 0).subrange(
                0,
                (esc_str(s@, 0).len() - esc_str(s@, i as int).len()) as int,
            ) + esc_str(s@, i as int),
        decreases t.len() - i,
    {
        let ghost done = esc_str(s@, 0).subrange(
            0,
            (esc_str(s@, 0).len() - esc_str(s@, i as int).len()) as int,
        );
        write_esc_char(t[i], out);
        proof {
            assert(esc_str(s@, i as int) == esc_char(s@[i as int]) + esc_str(s@, i + 1));
            assert(done + esc_char(s@[i as int]) =~= esc_str(s@, 0).subrange(
                0,
                (esc_str(s@, 0).len() - esc_str(s@, i + 1).len()) as int,
            ));
            assert(esc_str(s@, 0) =~= esc_str(s@, 0).subrange(
                0,
                (esc_str(s@, 0).len() - esc_str(s@, i + 1).len()) as int,
            ) + esc_str(s@, i + 1));
        }
        i = i + 1;
    }
    out.append("\"");
    proof {
        assert(esc_str(s@, t@.len() as int) == Seq::<char>::empty());
        assert(out@ =~= old(out)@ + str_lit(s@));
    }
}

/// Appends two spaces per level.
fn write_indent(l: u64, out: &mut String)
    ensures
        final(out)@ == old(out)@ + indent(l as nat),
{
    let mut i: u64 = 0;
    while i < l
        invariant
            0 <= i <= l,
            out@ == old(out)@ + indent(i as nat),
        decreases l - i,
    {
        let ghost before = out@;
        out.append("  ");
        proof {
            reveal_strlit("  ");
            assert(out@ =~= old(out)@ + indent((i + 1) as nat));
        }
        i = i + 1;
    }
}

/// Appends the rendering of a value.
#[verifier::loop_isolation(false)]
#[verifier::rlimit(60)]
pub fn write_json(v: &Json, pretty: bool, l: u64, out: &mut String)
    requires
        l <= 1_000_000_000,
        crate::json::wf(v@),
    ensures
        final(out)@ == old(out)@ + ser(v@, pretty, l as nat),
    decreases *v, 0int,
{
    match v {
        Json::Null => {
            out.append("null");
            proof {
                reveal_strlit("null");
                assert(out@ =~= old(out)@ + ser(v@, pretty, l as nat));
            }
        },
        Json::Bool(b) => {
            if *b {
                out.append("true");
            } else {
                out.append("false");
            }
            proof {
                reveal_strlit("true");
                reveal_strlit("false");
                assert(out@ =~= old(out)@ + ser(v@, pretty, l as nat));
            }
        },
        Json::Num(n) => {
            proof {
                crate::json::lemma_wf_num_elim(n.m as int, n.s as nat);
            }
            out.append(crate::num::fmt_num(n).as_str());
            proof {
                assert(out@ =~= old(out)@ + ser(v@, pretty, l as nat));
            }
        },
        Json::Str(s) => {
            write_str_lit(s.as_str(), out);
            proof {
                assert(out@ =~= old(out)@ + ser(v@, pretty, l as nat));
            }
        },
        Json::Arr(a) => {
            write_arr(a, pretty, l, out);
            proof {
                assert(v@ == JsonV::Arr(crate::json::arr_view(a@)));
            }
        },
        Json::Obj(o) => {
            write_obj(o, pretty, l, out);
            proof {
                assert(v@ == JsonV::Obj(crate::json::obj_view(o@)));
            }
        },
    }
}

/// Appends the rendering of an array value.
#[verifier::loop_isolation(false)]
#[verifier::rlimit(100)]
fn write_arr(a: &Vec<Json>, pretty: bool, l: u64, out: &mut String)
    requires
        l <= 1_000_000_000,
        crate::json::wf(JsonV::Arr(crate::json::arr_view(a@))),
    ensures
        final(out)@ == old(out)@ + ser(
            JsonV::Arr(crate::json::arr_view(a@)),
            pretty,
            l as nat,
        ),
    decreases *a, 1int,
{
    let ghost av = crate::json::arr_view(a@);
    proof {
        crate::json::lemma_wf_arr_elim(av);
        reveal_strlit("[]");
        reveal_strlit("[");
        reveal_strlit("]");
        reveal_strlit(",");
        reveal_strlit("\n");
    }
    if a.len() == 0 {
        out.append("[]");
        proof {
            assert(out@ =~= old(out)@ + ser(JsonV::Arr(av), pretty, l as nat));
        }
        return ;
    }
    let il: u64 = if pretty && l < 1_000_000_000 {
        l + 1
    } else {
        l
    };
    proof {
        if pretty {
            assert(il as nat == lvl_succ(l as nat));
        }
    }
    out.append("[");
    let ghost base = out@;
    let mut i: usize = 0;
    while i < a.len()
        invariant
            0 <= i < a.len(),
            base + ser_items(av, 0, pretty, il as nat) == out@ + ser_items(
                av,
                i as int,
                pretty,
                il as nat,
            ),
        decreases a.len() - i,
    {
        if pretty {
            out.append("\n");
            write_indent(il, out);
        }
        proof {
            assert(av[i as int] == a@[i as int]@);
            assert(crate::json::wf(a@[i as int]@));
        }
        write_json(&a[i], pretty, il, out);
        if i + 1 < a.len() {
            out.append(",");
            proof {
                assert(base + ser_items(av, 0, pretty, il as nat) =~= out@ + ser_items(
                    av,
                    i + 1,
                    pretty,
                    il as nat,
                ));
            }
            i = i + 1;
        } else {
            proof {
                assert(ser_items(av, i + 1, pretty, il as nat) == Seq::<char>::empty());
                assert(base + ser_items(av, 0, pretty, il as nat) =~= out@);
            }
            break ;
        }
    }
    if pretty {
        out.append("\n");
        write_indent(l, out);
    }
    out.append("]");
    proof {
        assert(out@ =~= old(out)@ + ser(JsonV::Arr(av), pretty, l as nat));
    }
}

/// Appends the rendering of an object value.
#[verifier::loop_isolation(false)]
#[verifier::rlimit(100)]
fn write_obj(o: &Vec<(String, Json)>, pretty: bool, l: u64, out: &mut String)
    requires
        l <= 1_000_000_000,
        crate::json::wf(JsonV::Obj(crate::json::obj_view(o@))),
    ensures
        final(out)@ == old(out)@ + ser(
            JsonV::Obj(crate::json::obj_view(o@)),
            pretty,
            l as nat,
        ),
    decreases *o, 1int,
{
    let ghost ov = crate::json::obj_view(o@);
    proof {
        crate::json::lemma_wf_obj_elim(ov);
        reveal_strlit("{}");
        reveal_strlit("{");
        reveal_strlit("}");
        reveal_strlit(",");
        reveal_strlit("\n");
        reveal_strlit(":");
        reveal_strlit(": ");
    }
    if o.len() == 0 {
        out.append("{}");
        proof {
            assert(out@ =~= old(out)@ + ser(JsonV::Obj(ov), pretty, l as nat));
        }
        return ;
    }
    let il: u64 = if pretty && l < 1_000_000_000 {
        l + 1
    } else {
        l
    };
    proof {
        if pretty {
            assert(il as nat == lvl_succ(l as nat));
        }
    }
    out.append("{");
    let ghost base = out@;
    let mut i: usize = 0;
    while i < o.len()
        invariant
            0 <= i < o.len(),
            base + ser_members(ov, 0, pretty, il as nat) == out@ + ser_members(
                ov,
                i as int,
                pretty,
                il as nat,
            ),
        decreases o.len() - i,
    {
        if pretty {
            out.append("\n");
            write_indent(il, out);
        }
        proof {
            assert(ov[i as int] == (o@[i as int].0@, o@[i as int].1@));
        }
        write_str_lit(o[i].0.as_str(), out);
        if pretty {
            out.append(": ");
        } else {
            out.append(":");
        }
        proof {
            assert(crate::json::wf(o@[i as int].1@));
        }
        write_json(&o[i].1, pretty, il, out);
        if i + 1 < o.len() {
            out.append(",");
            proof {
                assert(base + ser_members(ov, 0, pretty, il as nat) =~= out@ + ser_members(
                    ov,
                    i + 1,
                    pretty,
                    il as nat,
                ));
            }
            i = i + 1;
        } else {
            proof {
                assert(ser_members(ov, i + 1, pretty, il as nat) == Seq::<char>::empty());
                assert(base + ser_members(ov, 0, pretty, il as nat) =~= out@);
            }
            break ;
        }
    }
    if pretty {
        out.append("\n");
        write_indent(l, out);
    }
    out.append("}");
    proof {
        assert(out@ =~= old(out)@ + ser(JsonV::Obj(ov), pretty, l as nat));
    }
}

/// The compact one-line rendering of a value.
pub fn json_to_string(v: &Json) -> (r: String)
    requires
        crate::json::wf(v@),
    ensures
        r@ == ser(v@, false, 0),
{
    let mut out = String::new();
    write_json(v, false, 0, &mut out);
    out
}

/// The indented rendering of a value.
pub fn json_to_string_pretty(v: &Json) -> (r: String)
    requires
        crate::json::wf(v@),
    ensures
        r@ == ser(v@, true, 0),
{
    let mut out = String::new();
    write_json(v, true, 0, &mut out);
    out
}

} // verus!
