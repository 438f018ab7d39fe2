//! The lexer in front of the generation of the intermediate
//! representation: source text into tokens.

use vstd::prelude::*;
use vstd::string::*;
use vstd::std_specs::iter::IteratorSpec;
use super::push_char;

verus! {

/// Whether `c` has the Unicode `White_Space` property: the controls
/// U+0009 to U+000D, space, U+0085, no-break space U+00A0, U+1680, the
/// spaces U+2000 to U+200A, the line and paragraph separators U+2028 and
/// U+2029, U+202F, U+205F and the ideographic space U+3000.
pub open spec fn white_space(c: char) -> bool {
    let u = c as u32;
    (0x9 <= u <= 0xd) || u == 0x20 || u == 0x85 || u == 0xa0 || u == 0x1680 || (0x2000 <= u <= 0x200a)
        || u == 0x2028 || u == 0x2029 || u == 0x202f || u == 0x205f || u == 0x3000
}

/// Whether `c` is white space.
fn is_whitespace(c: char) -> (b: bool)
    ensures
        b == white_space(c),
{
    let u = c as u32;
    (0x9 <= u && u <= 0xd) || u == 0x20 || u == 0x85 || u == 0xa0 || u == 0x1680 || (0x2000 <= u && u <= 0x200a)
        || u == 0x2028 || u == 0x2029 || u == 0x202f || u == 0x205f || u == 0x3000
}

/// Whether `c` is one of the one-character tokens `+-*/=<>!&|(){}[];:,.`.
pub open spec fn is_punctuation(c: char) -> bool {
    c == '+' || c == '-' || c == '*' || c == '/' || c == '=' || c == '<' || c == '>' || c == '!'
        || c == '&' || c == '|' || c == '(' || c == ')' || c == '{' || c == '}' || c == '['
        || c == ']' || c == ';' || c == ':' || c == ',' || c == '.'
}

/// `tokens`, with `current` appended when it is not empty.
pub open spec fn flush(tokens: Seq<Seq<char>>, current: Seq<char>) -> Seq<Seq<char>> {
    if current.len() > 0 { tokens.push(current) } else { tokens }
}

/// The lexer's state after one more character: white space ends the
/// current token; punctuation ends it and is a token of its own; any
/// other character extends it.
pub open spec fn lex_step(state: (Seq<Seq<char>>, Seq<char>), c: char) -> (Seq<Seq<char>>, Seq<char>) {
    if white_space(c) {
        (flush(state.0, state.1), Seq::empty())
    } else if is_punctuation(c) {
        (flush(state.0, state.1).push(seq![c]), Seq::empty())
    } else {
        (state.0, state.1.push(c))
    }
}

/// The lexer's state after `s`: the finished tokens and the current one.
pub open spec fn lex(s: Seq<char>) -> (Seq<Seq<char>>, Seq<char>)
    decreases s.len(),
{
    if s.len() == 0 {
        (Seq::empty(), Seq::empty())
    } else {
        lex_step(lex(s.drop_last()), s.last())
    }
}

/// The tokens of `s`.
pub open spec fn tokens_of(s: Seq<char>) -> Seq<Seq<char>> {
    flush(lex(s).0, lex(s).1)
}

/// Whether `c` is one of the one-character tokens.
fn is_punctuation_char(c: char) -> (b: bool)
    ensures
        b == is_punctuation(c),
{
    c == '+' || c == '-' || c == '*' || c == '/' || c == '=' || c == '<' || c == '>' || c == '!'
        || c == '&' || c == '|' || c == '(' || c == ')' || c == '{' || c == '}' || c == '['
        || c == ']' || c == ';' || c == ':' || c == ',' || c == '.'
}

/// Whether the strings of `v` are the sequences of `t`.
pub open spec fn strings_are(v: Seq<String>, t: Seq<Seq<char>>) -> bool {
    v.len() == t.len() && forall|i: int| 0 <= i < v.len() ==> #[trigger] v[i]@ == t[i]
}

/// Moves a nonempty `current` to the end of `tokens`.
fn flush_current(tokens: &mut Vec<String>, current: &mut String, Ghost(t): Ghost<Seq<Seq<char>>>)
    requires
        strings_are(old(tokens)@, t),
    ensures
        strings_are(final(tokens)@, flush(t, old(current)@)),
        final(current)@ == Seq::<char>::empty(),
{
    if current.unicode_len() > 0 {
        let mut done = String::new();
        std::mem::swap(&mut done, current);
        tokens.push(done);
    } else {
        *current = String::new();
    }
}

/// Splits `source` into tokens: runs of characters separated by white
/// space, with each of `+-*/=<>!&|(){}[];:,.` a token of its own.
pub fn tokenize(source: &str) -> (tokens: Vec<String>)
    ensures
        strings_are(tokens@, tokens_of(source@)),
{
    broadcast use vstd::string::axiom_spec_iter, vstd::string::next_postcondition;
    let mut tokens: Vec<String> = Vec::new();
    let mut current = String::new();
    let mut chars = source.chars();
    let ghost s = source@;
    let ghost mut k: int = 0;
    assert(s.take(0) =~= Seq::<char>::empty());
    loop
        invariant
            0 <= k <= s.len(),
            s == source@,
            chars.obeys_prophetic_iter_laws(),
            chars.remaining() == s.skip(k),
            strings_are(tokens@, lex(s.take(k)).0),
            current@ == lex(s.take(k)).1,
        ensures
            k == s.len(),
            strings_are(tokens@, lex(s).0),
            current@ == lex(s).1,
        decreases s.len() - k,
    {
        let next = chars.next();
        match next {
            Some(c) => {
                proof {
                    assert(c == s[k]);
                    assert(s.take(k + 1).drop_last() =~= s.take(k));
                    assert(s.take(k + 1).last() == c);
                    assert(s.skip(k).drop_first() =~= s.skip(k + 1));
                }
                if is_whitespace(c) {
                    flush_current(&mut tokens, &mut current, Ghost(lex(s.take(k)).0));
                } else if is_punctuation_char(c) {
                    flush_current(&mut tokens, &mut current, Ghost(lex(s.take(k)).0));
                    let mut one = String::new();
                    push_char(&mut one, c);
                    proof {
                        assert(one@ =~= seq![c]);
                    }
                    tokens.push(one);
                } else {
                    push_char(&mut current, c);
                }
                proof {
                    k = k + 1;
                }
            },
            None => {
                proof {
                    assert(s.take(k) =~= s);
                }
                break;
            },
        }
    }
    flush_current(&mut tokens, &mut current, Ghost(lex(s).0));
    tokens
}

} // verus!
