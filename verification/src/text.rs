//! Plain-text building blocks shared by the predicate renderers: decimal
//! rendering of integers, joining of rendered pieces, and per-character
//! expansion (the shape of every escaping rule in this crate).
use vstd::prelude::*;
use vstd::std_specs::iter::IteratorSpec;
use vstd::string::StringExecFns;

verus! {

/// The decimal digit character for `d` (`0`..`9`).
pub open spec fn digit_char(d: nat) -> char
    recommends
        d < 10,
{
    ((d + 48) as u8) as char
}

/// The decimal text of a natural number, most significant digit first.
pub open spec fn dec_digits(n: nat) -> Seq<char>
    decreases n,
{
    if n < 10 {
        seq![digit_char(n)]
    } else {
        dec_digits(n / 10).push(digit_char(n % 10))
    }
}

/// The decimal text of an integer: a leading minus sign when negative.
pub open spec fn dec_int(n: int) -> Seq<char> {
    if n >= 0 {
        dec_digits(n as nat)
    } else {
        "-"@ + dec_digits((-n) as nat)
    }
}

/// Appends one character to a string.
/// Relies on `String::push`: it appends the given character to the end of
/// the string and changes nothing else.
#[verifier::external_body]
pub fn push_char(s: &mut String, c: char)
    ensures
        final(s)@ == old(s)@ + seq![c],
{
    s.push(c);
}

/// The decimal text of a `u64`.
pub fn u64_string(n: u64) -> (r: String)
    ensures
        r@ == dec_digits(n as nat),
    decreases n,
{
    let d: u8 = (n % 10) as u8 + 48;
    let c: char = d as char;
    if n < 10 {
        let mut r = String::new();
        push_char(&mut r, c);
        assert(r@ =~= dec_digits(n as nat));
        r
    } else {
        let mut r = u64_string(n / 10);
        push_char(&mut r, c);
        assert(r@ =~= dec_digits(n as nat));
        r
    }
}

/// The decimal text of an `i64`.
pub fn i64_string(n: i64) -> (r: String)
    ensures
        r@ == dec_int(n as int),
{
    if n >= 0 {
        u64_string(n as u64)
    } else {
        let m: u64 = (-(n as i128)) as u64;
        let mut r = String::new();
        r.append("-");
        let digits = u64_string(m);
        r.append(digits.as_str());
        r
    }
}

/// The pieces joined with the separator between consecutive pieces.
pub open spec fn spec_join(parts: Seq<Seq<char>>, sep: Seq<char>) -> Seq<char>
    decreases parts.len(),
{
    if parts.len() == 0 {
        Seq::empty()
    } else if parts.len() == 1 {
        parts[0]
    } else {
        parts[0] + sep + spec_join(parts.drop_first(), sep)
    }
}

/// Joining one more piece appends a separator exactly when pieces were
/// already present.
pub proof fn lemma_join_push(parts: Seq<Seq<char>>, sep: Seq<char>, x: Seq<char>)
    ensures
        spec_join(parts.push(x), sep) == if parts.len() == 0 {
            x
        } else {
            (spec_join(parts, sep) + sep + x)
        },
    decreases parts.len(),
{
    let p = parts.push(x);
    if parts.len() == 0 {
        assert(p =~= seq![x]);
    } else if parts.len() == 1 {
        assert(p[0] == parts[0]);
        assert(p.drop_first() =~= seq![x]);
        assert(spec_join(seq![x], sep) == x);
        assert(spec_join(p, sep) == parts[0] + sep + x);
        assert(spec_join(parts, sep) == parts[0]);
    } else {
        assert(p[0] == parts[0]);
        assert(p.drop_first() =~= parts.drop_first().push(x));
        lemma_join_push(parts.drop_first(), sep, x);
        assert(spec_join(p, sep) == parts[0] + sep + spec_join(p.drop_first(), sep));
        assert(spec_join(parts, sep) == parts[0] + sep + spec_join(parts.drop_first(), sep));
        assert(spec_join(p, sep) =~= spec_join(parts, sep) + sep + x);
    }
}

/// The views of a sequence of strings.
pub open spec fn views(parts: Seq<String>) -> Seq<Seq<char>> {
    parts.map_values(|p: String| p@)
}

/// One more string adds one more view.
pub proof fn lemma_views_push(s: Seq<String>, x: String)
    ensures
        views(s.push(x)) == views(s).push(x@),
{
    assert(views(s.push(x)) =~= views(s).push(x@));
}

/// Joins the strings with the separator between consecutive entries.
pub fn slice_join(v: &Vec<String>, sep: &str) -> (r: String)
    ensures
        r@ == spec_join(views(v@), sep@),
{
    let mut r = String::new();
    let mut i: usize = 0;
    while i < v.len()
        invariant
            i <= v.len(),
            r@ == spec_join(views(v@.take(i as int)), sep@),
        decreases v.len() - i,
    {
        if i > 0 {
            r.append(sep);
        }
        r.append(v[i].as_str());
        proof {
            let prefix = views(v@.take(i as int));
            assert(views(v@.take(i + 1)) =~= prefix.push(v@[i as int]@));
            lemma_join_push(prefix, sep@, v@[i as int]@);
        }
        i = i + 1;
    }
    proof {
        assert(v@.take(v@.len() as int) =~= v@);
    }
    r
}

/// Joins the strings with the separator and wraps the result in one pair of
/// parentheses.
pub fn slice_join_bracket(v: &Vec<String>, sep: &str) -> (r: String)
    ensures
        r@ == "("@ + spec_join(views(v@), sep@) + ")"@,
{
    let mut r = String::new();
    r.append("(");
    let joined = slice_join(v, sep);
    r.append(joined.as_str());
    r.append(")");
    r
}

/// How one character is escaped inside a quoted string literal: the quote
/// delimiter is doubled, everything else stands as it is.
pub open spec fn quote_escape(c: char) -> Seq<char> {
    if c == '\'' {
        seq!['\'', '\'']
    } else {
        seq![c]
    }
}

/// How one character is escaped inside a LIKE pattern literal: the quote
/// delimiter is doubled, and the pattern wildcards `%` and `_`, as well as
/// the escape character `\` itself, are preceded by `\`.
pub open spec fn like_escape(c: char) -> Seq<char> {
    if c == '\'' {
        seq!['\'', '\'']
    } else if c == '\\' {
        seq!['\\', '\\']
    } else if c == '%' {
        seq!['\\', '%']
    } else if c == '_' {
        seq!['\\', '_']
    } else {
        seq![c]
    }
}

/// The text with every quote delimiter doubled.
pub open spec fn spec_escaped(s: Seq<char>) -> Seq<char>
    decreases s.len(),
{
    if s.len() == 0 {
        Seq::empty()
    } else {
        quote_escape(s[0]) + spec_escaped(s.drop_first())
    }
}

/// The text with quote delimiters doubled and LIKE wildcards neutralized.
pub open spec fn spec_like_escaped(s: Seq<char>) -> Seq<char>
    decreases s.len(),
{
    if s.len() == 0 {
        Seq::empty()
    } else {
        like_escape(s[0]) + spec_like_escaped(s.drop_first())
    }
}

/// Escaping one more character appends that character's expansion.
pub proof fn lemma_escaped_push(s: Seq<char>, c: char)
    ensures
        spec_escaped(s.push(c)) == spec_escaped(s) + quote_escape(c),
    decreases s.len(),
{
    if s.len() == 0 {
        assert(s.push(c) =~= seq![c]);
        assert(s.push(c).drop_first() =~= Seq::<char>::empty());
        assert(spec_escaped(s.push(c)) =~= spec_escaped(s) + quote_escape(c));
    } else {
        assert(s.push(c)[0] == s[0]);
        assert(s.push(c).drop_first() =~= s.drop_first().push(c));
        lemma_escaped_push(s.drop_first(), c);
        assert(spec_escaped(s.push(c)) == quote_escape(s[0]) + spec_escaped(s.push(c).drop_first()));
        assert(spec_escaped(s) == quote_escape(s[0]) + spec_escaped(s.drop_first()));
        assert(spec_escaped(s.push(c)) =~= spec_escaped(s) + quote_escape(c));
    }
}

/// Escaping one more character appends that character's expansion.
pub proof fn lemma_like_escaped_push(s: Seq<char>, c: char)
    ensures
        spec_like_escaped(s.push(c)) == spec_like_escaped(s) + like_escape(c),
    decreases s.len(),
{
    if s.len() == 0 {
        assert(s.push(c) =~= seq![c]);
        assert(s.push(c).drop_first() =~= Seq::<char>::empty());
        assert(spec_like_escaped(Seq::<char>::empty()) == Seq::<char>::empty());
        assert(spec_like_escaped(s) == Seq::<char>::empty());
        assert(spec_like_escaped(s.push(c)) == like_escape(c) + Seq::<char>::empty());
        assert(spec_like_escaped(s.push(c)) =~= spec_like_escaped(s) + like_escape(c));
    } else {
        assert(s.push(c)[0] == s[0]);
        assert(s.push(c).drop_first() =~= s.drop_first().push(c));
        lemma_like_escaped_push(s.drop_first(), c);
        assert(spec_like_escaped(s.push(c)) == like_escape(s[0]) + spec_like_escaped(
            s.push(c).drop_first(),
        ));
        assert(spec_like_escaped(s) == like_escape(s[0]) + spec_like_escaped(s.drop_first()));
        assert(spec_like_escaped(s.drop_first().push(c)) == spec_like_escaped(s.drop_first())
            + like_escape(c));
        assert(spec_like_escaped(s.push(c)) == like_escape(s[0]) + (spec_like_escaped(
            s.drop_first(),
        ) + like_escape(c)));
        assert(like_escape(s[0]) + (spec_like_escaped(s.drop_first()) + like_escape(c)) =~= (
        like_escape(s[0]) + spec_like_escaped(s.drop_first())) + like_escape(c));
    }
}

/// The string with every quote delimiter doubled.
pub fn escape_quotes(s: &str) -> (r: String)
    ensures
        r@ == spec_escaped(s@),
{
    let cs = chars_vec(s);
    let mut r = String::new();
    let mut i: usize = 0;
    while i < cs.len()
        invariant
            i <= cs@.len(),
            cs@ == s@,
            r@ == spec_escaped(cs@.take(i as int)),
        decreases cs@.len() - i,
    {
        let c = cs[i];
        if c == '\'' {
            push_char(&mut r, '\'');
            push_char(&mut r, '\'');
        } else {
            push_char(&mut r, c);
        }
        proof {
            lemma_escaped_push(cs@.take(i as int), cs@[i as int]);
            assert(cs@.take(i as int).push(cs@[i as int]) =~= cs@.take(i as int + 1));
            assert(r@ =~= spec_escaped(cs@.take(i as int + 1)));
        }
        i = i + 1;
    }
    proof {
        assert(cs@.take(cs@.len() as int) =~= cs@);
    }
    r
}

/// The string escaped for use inside a LIKE pattern: quote delimiters
/// doubled, wildcards and the escape character preceded by `\`.
pub fn escape_like(s: &str) -> (r: String)
    ensures
        r@ == spec_like_escaped(s@),
{
    let cs = chars_vec(s);
    let mut r = String::new();
    let mut i: usize = 0;
    while i < cs.len()
        invariant
            i <= cs@.len(),
            cs@ == s@,
            r@ == spec_like_escaped(cs@.take(i as int)),
        decreases cs@.len() - i,
    {
        let c = cs[i];
        if c == '\'' {
            push_char(&mut r, '\'');
            push_char(&mut r, '\'');
        } else if c == '\\' {
            push_char(&mut r, '\\');
            push_char(&mut r, '\\');
        } else if c == '%' {
            push_char(&mut r, '\\');
            push_char(&mut r, '%');
        } else if c == '_' {
            push_char(&mut r, '\\');
            push_char(&mut r, '_');
        } else {
            push_char(&mut r, c);
        }
        proof {
            lemma_like_escaped_push(cs@.take(i as int), cs@[i as int]);
            assert(cs@.take(i as int).push(cs@[i as int]) =~= cs@.take(i as int + 1));
            assert(r@ =~= spec_like_escaped(cs@.take(i as int + 1)));
        }
        i = i + 1;
    }
    proof {
        assert(cs@.take(cs@.len() as int) =~= cs@);
    }
    r
}

/// The string quoted and escaped, as a literal stands in a predicate.
pub fn quote_wrap(s: &str) -> (r: String)
    ensures
        r@ == "'"@ + spec_escaped(s@) + "'"@,
{
    let mut r = String::new();
    r.append("'");
    let e = escape_quotes(s);
    r.append(e.as_str());
    r.append("'");
    proof {
        assert(r@ =~= "'"@ + spec_escaped(s@) + "'"@);
    }
    r
}

/// The characters of the string, in order, as a vector.
pub fn chars_vec(s: &str) -> (v: Vec<char>)
    ensures
        v@ == s@,
{
    broadcast use vstd::string::next_postcondition;
    broadcast use vstd::string::axiom_spec_iter;

    let mut v: Vec<char> = Vec::new();
    let mut it = s.chars();
    loop
        invariant
            it.obeys_prophetic_iter_laws(),
            it.decrease() is Some,
            v@ + it.remaining() == s@,
        ensures
            v@ == s@,
        decreases it.decrease()->0,
    {
        match it.next() {
            Some(c) => {
                v.push(c);
            },
            None => {
                proof {
                    assert(v@ =~= s@);
                }
                break ;
            },
        }
    }
    v
}

} // verus!
