use vstd::prelude::*;
use vstd::string::StrSliceExecFns;
use vstd::string::StringExecFns;

use crate::text::push_char;

verus! {

/// The lowercase hexadecimal digit for a value below sixteen.
pub open spec fn hex_digit(n: int) -> char {
    if n == 0 {
        '0'
    } else if n == 1 {
        '1'
    } else if n == 2 {
        '2'
    } else if n == 3 {
        '3'
    } else if n == 4 {
        '4'
    } else if n == 5 {
        '5'
    } else if n == 6 {
        '6'
    } else if n == 7 {
        '7'
    } else if n == 8 {
        '8'
    } else if n == 9 {
        '9'
    } else if n == 10 {
        'a'
    } else if n == 11 {
        'b'
    } else if n == 12 {
        'c'
    } else if n == 13 {
        'd'
    } else if n == 14 {
        'e'
    } else {
        'f'
    }
}

fn hex_digit_exec(n: u32) -> (c: char)
    requires
        n < 16,
    ensures
        c == hex_digit(n as int),
{
    if n == 0 {
        '0'
    } else if n == 1 {
        '1'
    } else if n == 2 {
        '2'
    } else if n == 3 {
        '3'
    } else if n == 4 {
        '4'
    } else if n == 5 {
        '5'
    } else if n == 6 {
        '6'
    } else if n == 7 {
        '7'
    } else if n == 8 {
        '8'
    } else if n == 9 {
        '9'
    } else if n == 10 {
        'a'
    } else if n == 11 {
        'b'
    } else if n == 12 {
        'c'
    } else if n == 13 {
        'd'
    } else if n == 14 {
        'e'
    } else {
        'f'
    }
}

/// How one character stands inside a JSON string literal: the quote and the
/// backslash are escaped, control characters take their short escape or the
/// four-digit form, everything else stands as itself.
pub open spec fn escaped_char(c: char) -> Seq<char> {
    if c == '"' {
        seq!['\\', '"']
    } else if c == '\\' {
        seq!['\\', '\\']
    } else if c as int == 8 {
        seq!['\\', 'b']
    } else if c as int == 9 {
        seq!['\\', 't']
    } else if c as int == 10 {
        seq!['\\', 'n']
    } else if c as int == 12 {
        seq!['\\', 'f']
    } else if c as int == 13 {
        seq!['\\', 'r']
    } else if (c as int) < 32 {
        seq!['\\', 'u', '0', '0', hex_digit(c as int / 16), hex_digit(c as int % 16)]
    } else {
        seq![c]
    }
}

/// The body of a JSON string literal holding the given text.
pub open spec fn escaped(s: Seq<char>) -> Seq<char>
    decreases s.len(),
{
    if s.len() == 0 {
        Seq::empty()
    } else {
        escaped_char(s[0]) + escaped(s.drop_first())
    }
}

proof fn lemma_escaped_push(s: Seq<char>, c: char)
    ensures
        escaped(s.push(c)) == escaped(s) + escaped_char(c),
    decreases s.len(),
{
    if s.len() == 0 {
        assert(s.push(c)[0] == c);
        assert(s.push(c).drop_first() =~= Seq::<char>::empty());
        assert(escaped(Seq::<char>::empty()) =~= Seq::<char>::empty());
        assert(escaped(s.push(c)) =~= escaped(s) + escaped_char(c));
    } else {
        assert(s.push(c)[0] == s[0]);
        assert(s.push(c).drop_first() =~= s.drop_first().push(c));
        lemma_escaped_push(s.drop_first(), c);
        assert(escaped(s.push(c)) =~= escaped(s) + escaped_char(c));
    }
}

/// Appends the escaped form of `s` to `out`.
fn push_escaped(out: &mut String, s: &str)
    ensures
        final(out)@ == old(out)@ + escaped(s@),
{
    let n = s.unicode_len();
    let mut i: usize = 0;
    proof {
        assert(s@.take(0) =~= Seq::<char>::empty());
        assert(out@ =~= old(out)@ + escaped(s@.take(0)));
    }
    while i < n
        invariant
            0 <= i <= n,
            n == s@.len(),
            out@ == old(out)@ + escaped(s@.take(i as int)),
        decreases n - i,
    {
        let c = s.get_char(i);
        let cu: u32 = c as u32;
        if cu == 34 {
            out.append("\\\"");
            proof {
                reveal_strlit("\\\"");
                assert(("\\\"")@ =~= escaped_char(c));
            }
        } else if cu == 92 {
            out.append("\\\\");
            proof {
                reveal_strlit("\\\\");
                assert(("\\\\")@ =~= escaped_char(c));
            }
        } else if cu == 8 {
            out.append("\\b");
            proof {
                reveal_strlit("\\b");
                assert(("\\b")@ =~= escaped_char(c));
            }
        } else if cu == 9 {
            out.append("\\t");
            proof {
                reveal_strlit("\\t");
                assert(("\\t")@ =~= escaped_char(c));
            }
        } else if cu == 10 {
            out.append("\\n");
            proof {
                reveal_strlit("\\n");
                assert(("\\n")@ =~= escaped_char(c));
            }
        } else if cu == 12 {
            out.append("\\f");
            proof {
                reveal_strlit("\\f");
                assert(("\\f")@ =~= escaped_char(c));
            }
        } else if cu == 13 {
            out.append("\\r");
            proof {
                reveal_strlit("\\r");
                assert(("\\r")@ =~= escaped_char(c));
            }
        } else if cu < 32 {
            out.append("\\u00");
            push_char(out, hex_digit_exec(cu / 16));
            push_char(out, hex_digit_exec(cu % 16));
            proof {
                reveal_strlit("\\u00");
                assert(("\\u00")@.push(hex_digit(c as int / 16)).push(
                    hex_digit(c as int % 16),
                ) =~= escaped_char(c));
            }
        } else {
            push_char(out, c);
            proof {
                assert(old(out)@ + escaped(s@.take(i as int)) + seq![c] =~= out@);
                assert(seq![c] =~= escaped_char(c));
            }
        }
        proof {
            assert(s@.take(i + 1) =~= s@.take(i as int).push(s@[i as int]));
            lemma_escaped_push(s@.take(i as int), s@[i as int]);
            assert(out@ =~= old(out)@ + escaped(s@.take(i + 1)));
        }
        i += 1;
    }
    proof {
        assert(s@.take(n as int) =~= s@);
    }
}

/// A JSON string literal holding the given text.
pub open spec fn quoted(t: Seq<char>) -> Seq<char> {
    seq!['"'] + escaped(t) + seq!['"']
}

/// Appends the JSON string literal holding `t` to `out`.
fn push_quoted(out: &mut String, t: &str)
    ensures
        final(out)@ == old(out)@ + quoted(t@),
{
    push_char(out, '"');
    push_escaped(out, t);
    push_char(out, '"');
    proof {
        assert(out@ =~= old(out)@ + quoted(t@));
    }
}

/// The JSON array body listing each token as a string literal, in order,
/// separated by commas.
pub open spec fn token_list(tokens: Seq<Seq<char>>) -> Seq<char>
    decreases tokens.len(),
{
    if tokens.len() == 0 {
        Seq::empty()
    } else if tokens.len() == 1 {
        quoted(tokens[0])
    } else {
        token_list(tokens.drop_last()) + seq![','] + quoted(tokens.last())
    }
}

/// The wire form of an instruction sequence: a tagged envelope that names the
/// owning variant beside the token list, so the payload can be validated
/// server-side against the endpoint that receives it.
pub open spec fn wire_body(tag: Seq<char>, tokens: Seq<Seq<char>>) -> Seq<char> {
    "{\"type\":\""@ + escaped(tag) + "\",\"value\":{\"program_code\":["@ + token_list(tokens)
        + "]}}"@
}

/// Builds the wire form of `program_code` under the variant tag `tag`.
pub fn render_wire_body(tag: &str, program_code: &Vec<String>) -> (r: String)
    ensures
        r@ == wire_body(tag@, program_code.deep_view()),
{
    let ghost tokens = program_code.deep_view();
    let mut out = "{\"type\":\"".to_owned();
    push_escaped(&mut out, tag);
    out.append("\",\"value\":{\"program_code\":[");
    let n = program_code.len();
    proof {
        assert(tokens.take(0) =~= Seq::<Seq<char>>::empty());
        assert(out@ =~= "{\"type\":\""@ + escaped(tag@) + "\",\"value\":{\"program_code\":["@
            + token_list(tokens.take(0)));
    }
    let mut i: usize = 0;
    while i < n
        invariant
            0 <= i <= n,
            n == tokens.len(),
            tokens == program_code.deep_view(),
            out@ == "{\"type\":\""@ + escaped(tag@) + "\",\"value\":{\"program_code\":["@
                + token_list(tokens.take(i as int)),
        decreases n - i,
    {
        if i > 0 {
            out.append(",");
            proof {
                reveal_strlit(",");
                assert((",")@ =~= seq![',']);
            }
        }
        push_quoted(&mut out, program_code[i].as_str());
        proof {
            assert(tokens[i as int] == program_code@[i as int]@);
            assert(tokens.take(i + 1).drop_last() =~= tokens.take(i as int));
            assert(tokens.take(i + 1).last() == tokens[i as int]);
            if i == 0 {
                assert(token_list(tokens.take(1)) =~= quoted(tokens[0]));
            }
            assert(out@ =~= "{\"type\":\""@ + escaped(tag@) + "\",\"value\":{\"program_code\":["@
                + token_list(tokens.take(i + 1)));
        }
        i += 1;
    }
    out.append("]}}");
    proof {
        assert(tokens.take(n as int) =~= tokens);
        assert(out@ =~= wire_body(tag@, tokens));
    }
    out
}

} // verus!
