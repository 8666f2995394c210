//! JSON rendering of string values: the exact escaping rules for a JSON
//! string literal, stated as a spec function and implemented against it.
//!
//! A character maps to itself, except: quote and backslash get a backslash
//! escape; backspace, tab, line feed, form feed and carriage return get
//! their short escapes; every other control character below U+0020 becomes
//! a `\u00XX` escape with lowercase hex digits. Nothing else is escaped.

use vstd::prelude::*;
use vstd::string::StrSliceExecFns;
use vstd::string::StringExecFns;

verus! {

/// One lowercase hexadecimal digit.
pub open spec fn hex_char(d: int) -> char {
    if d == 0 {
        '0'
    } else if d == 1 {
        '1'
    } else if d == 2 {
        '2'
    } else if d == 3 {
        '3'
    } else if d == 4 {
        '4'
    } else if d == 5 {
        '5'
    } else if d == 6 {
        '6'
    } else if d == 7 {
        '7'
    } else if d == 8 {
        '8'
    } else if d == 9 {
        '9'
    } else if d == 10 {
        'a'
    } else if d == 11 {
        'b'
    } else if d == 12 {
        'c'
    } else if d == 13 {
        'd'
    } else if d == 14 {
        'e'
    } else {
        'f'
    }
}

/// What one character contributes to a JSON string literal.
pub open spec fn json_escape_char(c: char) -> Seq<char> {
    if c == '"' {
        seq!['\\', '"']
    } else if c == '\\' {
        seq!['\\', '\\']
    } else if c == '\u{8}' {
        seq!['\\', 'b']
    } else if c == '\t' {
        seq!['\\', 't']
    } else if c == '\n' {
        seq!['\\', 'n']
    } else if c == '\u{c}' {
        seq!['\\', 'f']
    } else if c == '\r' {
        seq!['\\', 'r']
    } else if (c as int) < 32 {
        seq!['\\', 'u', '0', '0', hex_char((c as int) / 16), hex_char((c as int) % 16)]
    } else {
        seq![c]
    }
}

/// The escaped body of a JSON string literal.
pub open spec fn json_escaped(s: Seq<char>) -> Seq<char>
    decreases s.len(),
{
    if s.len() == 0 {
        Seq::empty()
    } else {
        json_escaped(s.drop_last()) + json_escape_char(s.last())
    }
}

/// The JSON string literal standing for `s`: quoted and escaped.
pub open spec fn json_string(s: Seq<char>) -> Seq<char> {
    seq!['"'] + json_escaped(s) + seq!['"']
}

fn hex_char_str(d: u32) -> (r: &'static str)
    requires
        d < 16,
    ensures
        r@ == seq![hex_char(d as int)],
{
    let r: &'static str = if d == 0 {
        "0"
    } else if d == 1 {
        "1"
    } else if d == 2 {
        "2"
    } else if d == 3 {
        "3"
    } else if d == 4 {
        "4"
    } else if d == 5 {
        "5"
    } else if d == 6 {
        "6"
    } else if d == 7 {
        "7"
    } else if d == 8 {
        "8"
    } else if d == 9 {
        "9"
    } else if d == 10 {
        "a"
    } else if d == 11 {
        "b"
    } else if d == 12 {
        "c"
    } else if d == 13 {
        "d"
    } else if d == 14 {
        "e"
    } else {
        "f"
    };
    proof {
        reveal_strlit("0");
        reveal_strlit("1");
        reveal_strlit("2");
        reveal_strlit("3");
        reveal_strlit("4");
        reveal_strlit("5");
        reveal_strlit("6");
        reveal_strlit("7");
        reveal_strlit("8");
        reveal_strlit("9");
        reveal_strlit("a");
        reveal_strlit("b");
        reveal_strlit("c");
        reveal_strlit("d");
        reveal_strlit("e");
        reveal_strlit("f");
        assert(r@ =~= seq![hex_char(d as int)]);
    }
    r
}

/// Appends what `c` contributes to a JSON string literal.
fn push_json_escape_char(c: char, out: &mut String)
    ensures
        final(out)@ == old(out)@ + json_escape_char(c),
{
    let u = c as u32;
    if c == '"' {
        out.append("\\\"");
        proof {
            reveal_strlit("\\\"");
            assert(old(out)@ + "\\\""@ =~= old(out)@ + json_escape_char(c));
        }
    } else if c == '\\' {
        out.append("\\\\");
        proof {
            reveal_strlit("\\\\");
            assert(old(out)@ + "\\\\"@ =~= old(out)@ + json_escape_char(c));
        }
    } else if u == 8 {
        out.append("\\b");
        proof {
            reveal_strlit("\\b");
            assert(old(out)@ + "\\b"@ =~= old(out)@ + json_escape_char(c));
        }
    } else if u == 9 {
        out.append("\\t");
        proof {
            reveal_strlit("\\t");
            assert(old(out)@ + "\\t"@ =~= old(out)@ + json_escape_char(c));
        }
    } else if u == 10 {
        out.append("\\n");
        proof {
            reveal_strlit("\\n");
            assert(old(out)@ + "\\n"@ =~= old(out)@ + json_escape_char(c));
        }
    } else if u == 12 {
        out.append("\\f");
        proof {
            reveal_strlit("\\f");
            assert(old(out)@ + "\\f"@ =~= old(out)@ + json_escape_char(c));
        }
    } else if u == 13 {
        out.append("\\r");
        proof {
            reveal_strlit("\\r");
            assert(old(out)@ + "\\r"@ =~= old(out)@ + json_escape_char(c));
        }
    } else if u < 32 {
        out.append("\\u00");
        out.append(hex_char_str(u / 16));
        out.append(hex_char_str(u % 16));
        proof {
            reveal_strlit("\\u00");
            assert(old(out)@ + "\\u00"@ + seq![hex_char((u as int) / 16)] + seq![
                hex_char((u as int) % 16)
            ] =~= old(out)@ + json_escape_char(c));
        }
    } else {
        crate::strutil::push_char(out, c);
        proof {
            assert(old(out)@ + seq![c] =~= old(out)@ + json_escape_char(c));
        }
    }
}

/// The JSON string literal standing for `s`.
pub fn json_encode_str(s: &str) -> (r: String)
    ensures
        r@ == json_string(s@),
{
    let mut out = String::new();
    out.append("\"");
    proof {
        reveal_strlit("\"");
        assert(out@ =~= seq!['"'] + json_escaped(s@.subrange(0, 0)));
    }
    let len = s.unicode_len();
    let mut i: usize = 0;
    while i < len
        invariant
            0 <= i <= len,
            len == s@.len(),
            out@ == seq!['"'] + json_escaped(s@.subrange(0, i as int)),
        decreases len - i,
    {
        let c = s.get_char(i);
        push_json_escape_char(c, &mut out);
        proof {
            assert(s@.subrange(0, i as int + 1).drop_last() =~= s@.subrange(0, i as int));
            assert(s@.subrange(0, i as int + 1).last() == s@[i as int]);
        }
        i += 1;
    }
    out.append("\"");
    proof {
        reveal_strlit("\"");
        assert(s@.subrange(0, len as int) =~= s@);
        assert(out@ =~= json_string(s@));
    }
    out
}

} // verus!
