//! The two identifier grammars: the current (v2) one and the legacy (v1) one.
//!
//! An identifier token is either *bare* (no quotes, restricted characters) or
//! *quoted* (`"..."` with backslash escapes). The two grammar generations
//! share this shape but differ in which characters a bare token may contain
//! and which escape sequences a quoted token accepts; every function here
//! takes a `legacy` flag selecting the generation.
//!
//! The whole input text must form exactly one token: trailing or leading
//! garbage makes the parse fail.

use vstd::prelude::*;

verus! {

/// Decimal digits; a bare token must not start with one, so that an
/// identifier can never be confused with a numeric literal.
pub open spec fn is_digit(c: char) -> bool {
    0x30 <= c as u32 && c as u32 <= 0x39
}

/// A leading sign followed by a digit would also look like a number.
pub open spec fn is_sign(c: char) -> bool {
    c == '+' || c == '-'
}

/// Punctuation the current (v2) grammar reserves, illegal in a bare token.
pub open spec fn is_v2_reserved(c: char) -> bool {
    ||| c == '(' ||| c == ')' ||| c == '{' ||| c == '}'
    ||| c == '[' ||| c == ']' ||| c == '/' ||| c == '\\'
    ||| c == '"' ||| c == '#' ||| c == ';' ||| c == '='
}

/// Punctuation the legacy (v1) grammar reserves. Unlike v2 it also reserves
/// `<`, `>` and `,`, but it allows `#` in bare tokens.
pub open spec fn is_v1_reserved(c: char) -> bool {
    ||| c == '(' ||| c == ')' ||| c == '{' ||| c == '}'
    ||| c == '<' ||| c == '>' ||| c == '[' ||| c == ']'
    ||| c == '/' ||| c == '\\' ||| c == '"' ||| c == ';'
    ||| c == '=' ||| c == ','
}

/// A character legal anywhere in a bare token: printable (no whitespace and
/// no control characters) and not reserved by the selected grammar.
pub open spec fn is_ident_char(c: char, legacy: bool) -> bool {
    c as u32 > 0x20 && (if legacy {
        !is_v1_reserved(c)
    } else {
        !is_v2_reserved(c)
    })
}

/// Whether `s` is a legal bare identifier token: nonempty, made of legal
/// characters, and not shaped like the start of a number.
pub open spec fn bare_ok(s: Seq<char>, legacy: bool) -> bool {
    &&& s.len() > 0
    &&& (forall|i: int| 0 <= i < s.len() ==> is_ident_char(#[trigger] s[i], legacy))
    &&& !is_digit(s[0])
    &&& !(is_sign(s[0]) && s.len() >= 2 && is_digit(s[1]))
}

/// What the character after a backslash decodes to, if the sequence is a
/// legal escape. v1 additionally accepts `\/`; v2 additionally accepts `\s`
/// for a space.
pub open spec fn escape_value(e: char, legacy: bool) -> Option<char> {
    if e == '"' {
        Some('"')
    } else if e == '\\' {
        Some('\\')
    } else if e == 'n' {
        Some('\n')
    } else if e == 'r' {
        Some('\r')
    } else if e == 't' {
        Some('\t')
    } else if e == '/' && legacy {
        Some('/')
    } else if e == 's' && !legacy {
        Some(' ')
    } else {
        None
    }
}

/// Decodes the body of a quoted token (the text between the delimiting
/// quotes). Fails on an unescaped quote, a trailing lone backslash, or an
/// escape the selected grammar does not know.
pub open spec fn unescape(s: Seq<char>, legacy: bool) -> Option<Seq<char>>
    decreases s.len(),
{
    if s.len() == 0 {
        Some(Seq::<char>::empty())
    } else if s[0] == '"' {
        None
    } else if s[0] == '\\' {
        if s.len() == 1 {
            None
        } else {
            match escape_value(s[1], legacy) {
                Some(c) => match unescape(s.subrange(2, s.len() as int), legacy) {
                    Some(rest) => Some(seq![c] + rest),
                    None => None,
                },
                None => None,
            }
        }
    } else {
        match unescape(s.subrange(1, s.len() as int), legacy) {
            Some(rest) => Some(seq![s[0]] + rest),
            None => None,
        }
    }
}

/// Whether `s` is a legal quoted token: delimited by `"` on both sides with a
/// body that decodes. In particular an unterminated token (`"x`) is illegal.
pub open spec fn quoted_ok(s: Seq<char>, legacy: bool) -> bool {
    &&& s.len() >= 2
    &&& s[0] == '"'
    &&& s[s.len() - 1] == '"'
    &&& unescape(s.subrange(1, s.len() - 1), legacy) is Some
}

/// The decoded value of the identifier token `s` under the selected grammar,
/// or `None` when the grammar rejects `s`.
pub open spec fn token_value(s: Seq<char>, legacy: bool) -> Option<Seq<char>> {
    if bare_ok(s, legacy) {
        Some(s)
    } else if quoted_ok(s, legacy) {
        unescape(s.subrange(1, s.len() - 1), legacy)
    } else {
        None
    }
}

/// The decoded value after the two-grammar fallback: the current grammar's
/// decoding when it accepts, otherwise the legacy grammar's.
pub open spec fn fallback_value(s: Seq<char>) -> Option<Seq<char>> {
    if token_value(s, false) is Some {
        token_value(s, false)
    } else {
        token_value(s, true)
    }
}

/// How one character of a value is spelled inside a canonical quoted token:
/// quotes, backslashes and the common control characters are escaped, every
/// other character stands for itself.
pub open spec fn escape_char(c: char) -> Seq<char> {
    if c == '"' {
        seq!['\\', '"']
    } else if c == '\\' {
        seq!['\\', '\\']
    } else if c == '\n' {
        seq!['\\', 'n']
    } else if c == '\r' {
        seq!['\\', 'r']
    } else if c == '\t' {
        seq!['\\', 't']
    } else {
        seq![c]
    }
}

/// The canonical escaping of a whole value, character by character.
pub open spec fn escape_all(s: Seq<char>) -> Seq<char>
    decreases s.len(),
{
    if s.len() == 0 {
        Seq::<char>::empty()
    } else {
        escape_char(s[0]) + escape_all(s.subrange(1, s.len() as int))
    }
}

/// The canonical spelling of a value: itself when it is a legal bare token of
/// the current grammar, otherwise a quoted token with escapes. Every value is
/// representable this way.
pub open spec fn render_value(v: Seq<char>) -> Seq<char> {
    if bare_ok(v, false) {
        v
    } else {
        seq!['"'] + escape_all(v) + seq!['"']
    }
}

spec fn opt_prepend(pre: Seq<char>, o: Option<Seq<char>>) -> Option<Seq<char>> {
    match o {
        Some(rest) => Some(pre + rest),
        None => None,
    }
}

fn digit(c: char) -> (b: bool)
    ensures
        b == is_digit(c),
{
    let u = c as u32;
    0x30 <= u && u <= 0x39
}

fn ident_char(c: char, legacy: bool) -> (b: bool)
    ensures
        b == is_ident_char(c, legacy),
{
    if c as u32 <= 0x20 {
        return false;
    }
    if legacy {
        !(c == '(' || c == ')' || c == '{' || c == '}' || c == '<' || c == '>' || c == '['
            || c == ']' || c == '/' || c == '\\' || c == '"' || c == ';' || c == '=' || c == ',')
    } else {
        !(c == '(' || c == ')' || c == '{' || c == '}' || c == '[' || c == ']' || c == '/'
            || c == '\\' || c == '"' || c == '#' || c == ';' || c == '=')
    }
}

/// Whether the whole of `s` is a legal bare identifier token under the
/// selected grammar generation.
pub fn check_bare(s: &str, legacy: bool) -> (b: bool)
    ensures
        b == bare_ok(s@, legacy),
{
    let n = s.unicode_len();
    if n == 0 {
        return false;
    }
    let c0 = s.get_char(0);
    if digit(c0) {
        return false;
    }
    if (c0 == '+' || c0 == '-') && n >= 2 {
        if digit(s.get_char(1)) {
            return false;
        }
    }
    let mut i: usize = 0;
    while i < n
        invariant
            0 <= i <= n,
            n == s@.len(),
            n > 0,
            !is_digit(s@[0]),
            !(is_sign(s@[0]) && s@.len() >= 2 && is_digit(s@[1])),
            forall|j: int| 0 <= j < i ==> is_ident_char(#[trigger] s@[j], legacy),
        decreases n - i,
    {
        if !ident_char(s.get_char(i), legacy) {
            return false;
        }
        i += 1;
    }
    true
}

fn escape_str(e: char, legacy: bool) -> (r: Option<&'static str>)
    ensures
        (r is Some) == (escape_value(e, legacy) is Some),
        r is Some ==> r->0@ == seq![escape_value(e, legacy)->0],
{
    if e == '"' {
        let lit = "\"";
        proof {
            reveal_strlit("\"");
            assert(lit@ =~= seq!['"']);
        }
        Some(lit)
    } else if e == '\\' {
        let lit = "\\";
        proof {
            reveal_strlit("\\");
            assert(lit@ =~= seq!['\\']);
        }
        Some(lit)
    } else if e == 'n' {
        let lit = "\n";
        proof {
            reveal_strlit("\n");
            assert(lit@ =~= seq!['\n']);
        }
        Some(lit)
    } else if e == 'r' {
        let lit = "\r";
        proof {
            reveal_strlit("\r");
            assert(lit@ =~= seq!['\r']);
        }
        Some(lit)
    } else if e == 't' {
        let lit = "\t";
        proof {
            reveal_strlit("\t");
            assert(lit@ =~= seq!['\t']);
        }
        Some(lit)
    } else if e == '/' && legacy {
        let lit = "/";
        proof {
            reveal_strlit("/");
            assert(lit@ =~= seq!['/']);
        }
        Some(lit)
    } else if e == 's' && !legacy {
        let lit = " ";
        proof {
            reveal_strlit(" ");
            assert(lit@ =~= seq![' ']);
        }
        Some(lit)
    } else {
        None
    }
}

/// Parses the whole of `s` as one identifier token under the selected grammar
/// generation, returning the decoded value on success.
pub fn parse_token(s: &str, legacy: bool) -> (r: Option<String>)
    ensures
        (r is Some) == (token_value(s@, legacy) is Some),
        r is Some ==> r->Some_0@ == token_value(s@, legacy)->Some_0,
{
    if check_bare(s, legacy) {
        return Some(s.to_owned());
    }
    let n = s.unicode_len();
    if n < 2 {
        return None;
    }
    if s.get_char(0) != '"' || s.get_char(n - 1) != '"' {
        return None;
    }
    let ghost mid = s@.subrange(1, n as int - 1);
    let mut out = String::new();
    let mut i: usize = 1;
    while i < n - 1
        invariant
            1 <= i <= n - 1,
            n == s@.len(),
            n >= 2,
            mid == s@.subrange(1, n as int - 1),
            unescape(mid, legacy) == opt_prepend(
                out@,
                unescape(s@.subrange(i as int, n as int - 1), legacy),
            ),
        decreases n - 1 - i,
    {
        let ghost rem = s@.subrange(i as int, n as int - 1);
        let c = s.get_char(i);
        assert(rem[0] == c);
        if c == '"' {
            return None;
        }
        if c == '\\' {
            if i + 1 >= n - 1 {
                assert(rem.len() == 1);
                return None;
            }
            let e = s.get_char(i + 1);
            assert(rem[1] == e);
            match escape_str(e, legacy) {
                Some(decoded) => {
                    let ghost out0 = out@;
                    let ghost dc = escape_value(e, legacy)->0;
                    out.append(decoded);
                    proof {
                        assert(rem.subrange(2, rem.len() as int) =~= s@.subrange(
                            i as int + 2,
                            n as int - 1,
                        ));
                        if let Some(rest) = unescape(
                            s@.subrange(i as int + 2, n as int - 1),
                            legacy,
                        ) {
                            assert(out@ + rest =~= out0 + (seq![dc] + rest));
                        }
                    }
                    i = i + 2;
                },
                None => {
                    return None;
                },
            }
        } else {
            let ghost out0 = out@;
            out.append(s.substring_char(i, i + 1));
            proof {
                assert(s@.subrange(i as int, i as int + 1) =~= seq![c]);
                assert(rem.subrange(1, rem.len() as int) =~= s@.subrange(
                    i as int + 1,
                    n as int - 1,
                ));
                if let Some(rest) = unescape(s@.subrange(i as int + 1, n as int - 1), legacy) {
                    assert(out@ + rest =~= out0 + (seq![c] + rest));
                }
            }
            i = i + 1;
        }
    }
    proof {
        assert(s@.subrange(i as int, n as int - 1) =~= Seq::<char>::empty());
        assert(out@ + Seq::<char>::empty() =~= out@);
    }
    Some(out)
}

/// Renders a value in its canonical spelling: bare when legal, quoted with
/// escapes otherwise.
pub fn render(v: &str) -> (r: String)
    ensures
        r@ == render_value(v@),
{
    if check_bare(v, false) {
        return v.to_owned();
    }
    let n = v.unicode_len();
    let quote = "\"";
    proof {
        reveal_strlit("\"");
        assert(quote@ =~= seq!['"']);
    }
    let mut out = String::new();
    out.append(quote);
    proof {
        assert(out@ =~= seq!['"'] + escape_all(v@.subrange(0, 0)));
    }
    let mut i: usize = 0;
    while i < n
        invariant
            0 <= i <= n,
            n == v@.len(),
            quote@ == seq!['"'],
            out@ == seq!['"'] + escape_all(v@.subrange(0, i as int)),
        decreases n - i,
    {
        let ghost pre = v@.subrange(0, i as int);
        let c = v.get_char(i);
        if c == '"' {
            let lit = "\\\"";
            proof {
                reveal_strlit("\\\"");
                assert(lit@ =~= seq!['\\', '"']);
            }
            out.append(lit);
        } else if c == '\\' {
            let lit = "\\\\";
            proof {
                reveal_strlit("\\\\");
                assert(lit@ =~= seq!['\\', '\\']);
            }
            out.append(lit);
        } else if c == '\n' {
            let lit = "\\n";
            proof {
                reveal_strlit("\\n");
                assert(lit@ =~= seq!['\\', 'n']);
            }
            out.append(lit);
        } else if c == '\r' {
            let lit = "\\r";
            proof {
                reveal_strlit("\\r");
                assert(lit@ =~= seq!['\\', 'r']);
            }
            out.append(lit);
        } else if c == '\t' {
            let lit = "\\t";
            proof {
                reveal_strlit("\\t");
                assert(lit@ =~= seq!['\\', 't']);
            }
            out.append(lit);
        } else {
            out.append(v.substring_char(i, i + 1));
            proof {
                assert(v@.subrange(i as int, i as int + 1) =~= seq![c]);
            }
        }
        proof {
            lemma_escape_all_snoc(pre, v@[i as int]);
            assert(v@.subrange(0, i as int + 1) =~= pre.push(v@[i as int]));
            assert(out@ =~= seq!['"'] + escape_all(v@.subrange(0, i as int + 1)));
        }
        i += 1;
    }
    out.append(quote);
    proof {
        assert(v@.subrange(0, n as int) =~= v@);
        assert(out@ =~= seq!['"'] + escape_all(v@) + seq!['"']);
    }
    out
}

/// Escaping one more character at the end of a value extends its canonical
/// escaping at the end.
pub proof fn lemma_escape_all_snoc(s: Seq<char>, c: char)
    ensures
        escape_all(s.push(c)) == escape_all(s) + escape_char(c),
    decreases s.len(),
{
    if s.len() == 0 {
        assert(s.push(c)[0] == c);
        assert(s.push(c).len() == 1);
        assert(escape_all(s.push(c)) == escape_char(c) + escape_all(s.push(c).subrange(1, 1)));
        assert(s.push(c).subrange(1, 1) =~= Seq::<char>::empty());
        assert(escape_all(Seq::<char>::empty()) == Seq::<char>::empty());
        assert(escape_all(s) == Seq::<char>::empty());
        assert(escape_char(c) + Seq::<char>::empty() =~= Seq::<char>::empty() + escape_char(c));
    } else {
        assert(s.push(c)[0] == s[0]);
        assert(s.push(c).len() == s.len() + 1);
        assert(escape_all(s.push(c)) == escape_char(s[0]) + escape_all(
            s.push(c).subrange(1, s.len() as int + 1),
        ));
        assert(s.push(c).subrange(1, s.len() as int + 1) =~= s.subrange(1, s.len() as int).push(
            c,
        ));
        lemma_escape_all_snoc(s.subrange(1, s.len() as int), c);
        assert(escape_all(s.push(c)) == escape_char(s[0]) + (escape_all(
            s.subrange(1, s.len() as int),
        ) + escape_char(c)));
        assert(escape_char(s[0]) + (escape_all(s.subrange(1, s.len() as int)) + escape_char(c))
            =~= (escape_char(s[0]) + escape_all(s.subrange(1, s.len() as int))) + escape_char(c));
        assert(escape_all(s) == escape_char(s[0]) + escape_all(s.subrange(1, s.len() as int)));
    }
}

/// Decoding a canonically escaped value gives back exactly that value, under
/// either grammar generation: canonical escapes belong to both.
pub proof fn lemma_unescape_escape_all(v: Seq<char>, legacy: bool)
    ensures
        unescape(escape_all(v), legacy) == Some(v),
    decreases v.len(),
{
    if v.len() == 0 {
        assert(Seq::<char>::empty() =~= v);
    } else {
        let c = v[0];
        let rest = v.subrange(1, v.len() as int);
        lemma_unescape_escape_all(rest, legacy);
        let full = escape_all(v);
        assert(full == escape_char(c) + escape_all(rest));
        if c == '"' || c == '\\' || c == '\n' || c == '\r' || c == '\t' {
            assert(full[0] == '\\');
            assert(full[1] == escape_char(c)[1]);
            assert(escape_value(escape_char(c)[1], legacy) == Some(c));
            assert(full.subrange(2, full.len() as int) =~= escape_all(rest));
            assert(seq![c] + rest =~= v);
        } else {
            assert(full[0] == c);
            assert(full.subrange(1, full.len() as int) =~= escape_all(rest));
            assert(seq![c] + rest =~= v);
        }
    }
}

/// The canonical spelling of any value re-parses, under the current grammar,
/// to exactly that value; a value that is already a legal bare token is its
/// own spelling.
pub proof fn lemma_render_round_trip(v: Seq<char>)
    ensures
        token_value(render_value(v), false) == Some(v),
        bare_ok(v, false) ==> render_value(v) == v,
{
    if !bare_ok(v, false) {
        let r = render_value(v);
        assert(r == seq!['"'] + escape_all(v) + seq!['"']);
        assert(r.len() == escape_all(v).len() + 2);
        assert(r[0] == '"');
        assert(r[r.len() - 1] == '"');
        assert(!is_ident_char(r[0], false));
        assert(!bare_ok(r, false));
        assert(r.subrange(1, r.len() - 1) =~= escape_all(v));
        lemma_unescape_escape_all(v, false);
        assert(quoted_ok(r, false));
    }
}

} // verus!
