//! The parser of the intermediate representation: tokens into statements.
//!
//! Number tokens are recognised by the caller, which hands in, for each
//! token, the bit pattern of its floating-point value where it reads as a
//! number.

use vstd::prelude::*;
use vstd::string::*;
use crate::codegen::generator::{Expression, Literal, Method, Statement};

verus! {

/// A parsed expression as a value.
pub enum PExpr {
    /// `undefined`.
    Undefined,
    /// `null`.
    Null,
    /// `true` or `false`.
    Boolean(bool),
    /// A number, as its bit pattern.
    Number(u64),
    /// A quoted string, without its quotes.
    Str(Seq<char>),
    /// A name.
    Identifier(Seq<char>),
    /// Any other expression (the parser makes none).
    Other,
}

/// A parsed statement as a value.
pub enum PStmt {
    /// `let name = init;`.
    Var { name: Seq<char>, init: Option<PExpr> },
    /// `function name(params) { body }`.
    Function { name: Seq<char>, params: Seq<Seq<char>>, body: Seq<PStmt> },
    /// `class name { methods }`, each method as its name, parameters and body.
    Class { name: Seq<char>, methods: Seq<(Seq<char>, Seq<Seq<char>>, Seq<PStmt>)> },
    /// `if (test) consequent else alternate`.
    If { test: PExpr, consequent: Box<PStmt>, alternate: Option<Box<PStmt>> },
    /// `while (test) body`.
    While { test: PExpr, body: Box<PStmt> },
    /// `for (init; test; update) body`.
    For { init: Option<Box<PStmt>>, test: Option<PExpr>, update: Option<PExpr>, body: Box<PStmt> },
    /// `return value;`.
    Return(Option<PExpr>),
    /// `break`.
    Break,
    /// `continue`.
    Continue,
    /// An expression statement.
    Expr(PExpr),
    /// Any other statement (the parser makes none).
    Other,
}

/// The expression `e` as a value.
pub open spec fn pexpr_of(e: Expression) -> PExpr {
    match e {
        Expression::Literal(Literal::Undefined) => PExpr::Undefined,
        Expression::Literal(Literal::Null) => PExpr::Null,
        Expression::Literal(Literal::Boolean(b)) => PExpr::Boolean(b),
        Expression::Literal(Literal::Number(n)) => PExpr::Number(n),
        Expression::Literal(Literal::String(s)) => PExpr::Str(s@),
        Expression::Identifier(n) => PExpr::Identifier(n@),
        _ => PExpr::Other,
    }
}

/// An optional expression as a value.
pub open spec fn opt_pexpr(e: Option<Expression>) -> Option<PExpr> {
    match e {
        Some(x) => Some(pexpr_of(x)),
        None => None,
    }
}

/// The names `v` as values.
pub open spec fn names_of(v: Seq<String>) -> Seq<Seq<char>> {
    v.map_values(|s: String| s@)
}

/// The statement `s` as a value.
pub open spec fn pstmt_of(s: Statement) -> PStmt
    decreases s,
{
    match s {
        Statement::VariableDeclaration { name, initializer } => PStmt::Var { name: name@, init: opt_pexpr(initializer) },
        Statement::FunctionDeclaration { name, params, body } => PStmt::Function {
            name: name@,
            params: names_of(params@),
            body: pstmts_of(body@),
        },
        Statement::ClassDeclaration { name, methods } => PStmt::Class { name: name@, methods: pmethods_of(methods@) },
        Statement::If { test, consequent, alternate } => PStmt::If {
            test: pexpr_of(test),
            consequent: Box::new(pstmt_of(*consequent)),
            alternate: match alternate {
                Some(a) => Some(Box::new(pstmt_of(*a))),
                None => None,
            },
        },
        Statement::While { test, body } => PStmt::While { test: pexpr_of(test), body: Box::new(pstmt_of(*body)) },
        Statement::For { init, test, update, body } => PStmt::For {
            init: match init {
                Some(i) => Some(Box::new(pstmt_of(*i))),
                None => None,
            },
            test: opt_pexpr(test),
            update: opt_pexpr(update),
            body: Box::new(pstmt_of(*body)),
        },
        Statement::Return(v) => PStmt::Return(opt_pexpr(v)),
        Statement::Break => PStmt::Break,
        Statement::Continue => PStmt::Continue,
        Statement::Expression(e) => PStmt::Expr(pexpr_of(e)),
        _ => PStmt::Other,
    }
}

/// The statements `v` as values.
pub open spec fn pstmts_of(v: Seq<Statement>) -> Seq<PStmt>
    decreases v,
{
    if v.len() == 0 {
        Seq::empty()
    } else {
        seq![pstmt_of(v[0])] + pstmts_of(v.drop_first())
    }
}

/// The methods `v` as values.
pub open spec fn pmethods_of(v: Seq<Method>) -> Seq<(Seq<char>, Seq<Seq<char>>, Seq<PStmt>)>
    decreases v,
{
    if v.len() == 0 {
        Seq::empty()
    } else {
        seq![(v[0].name@, names_of(v[0].params@), pstmts_of(v[0].body@))] + pmethods_of(v.drop_first())
    }
}

/// An optional statement as a value.
pub open spec fn opt_pstmt(s: Option<Statement>) -> Option<PStmt> {
    match s {
        Some(x) => Some(pstmt_of(x)),
        None => None,
    }
}

/// The tokens `v` as values.
pub open spec fn tokens_view(v: Seq<String>) -> Seq<Seq<char>> {
    v.map_values(|t: String| t@)
}

/// Whether token `p` of `t` is `lit`.
pub open spec fn at(t: Seq<Seq<char>>, p: int, lit: Seq<char>) -> bool {
    0 <= p < t.len() && t[p] == lit
}

/// The position after reading one token at `p`, where there is one.
pub open spec fn adv(t: Seq<Seq<char>>, p: int) -> int {
    if p < t.len() { p + 1 } else { p }
}

/// Whether a parse from `p` that ended at `q` moved forward.
pub open spec fn advanced(t: Seq<Seq<char>>, p: int, q: int) -> bool {
    p < q <= t.len()
}

/// `s[a..b]` with the characters `c` at either end removed.
pub open spec fn trim_range(s: Seq<char>, c: char, a: int, b: int) -> Seq<char>
    decreases b - a,
{
    if a < b && s[a] == c {
        trim_range(s, c, a + 1, b)
    } else if a < b && s[b - 1] == c {
        trim_range(s, c, a, b - 1)
    } else {
        s.subrange(a, b)
    }
}

/// `s` with the characters `c` at either end removed.
pub open spec fn trim_char_spec(s: Seq<char>, c: char) -> Seq<char> {
    trim_range(s, c, 0, s.len() as int)
}

/// An expression at `p`: a keyword literal, a number, a quoted string, a
/// parenthesised expression or a name; and the position after it.
pub open spec fn parse_primary(t: Seq<Seq<char>>, n: Seq<Option<u64>>, p: int) -> (Option<PExpr>, int)
    decreases t.len() - p, 0int,
{
    if p < 0 || p >= t.len() {
        (None, p)
    } else {
        let k = t[p];
        if k == "true"@ {
            (Some(PExpr::Boolean(true)), p + 1)
        } else if k == "false"@ {
            (Some(PExpr::Boolean(false)), p + 1)
        } else if k == "null"@ {
            (Some(PExpr::Null), p + 1)
        } else if k == "undefined"@ {
            (Some(PExpr::Undefined), p + 1)
        } else if p < n.len() && n[p] is Some {
            (Some(PExpr::Number(n[p]->0)), p + 1)
        } else if k.len() > 0 && (k[0] == '"' || k[0] == '\'') {
            (Some(PExpr::Str(trim_char_spec(trim_char_spec(k, '"'), '\''))), p + 1)
        } else if k == "("@ {
            let (e, q) = parse_primary(t, n, p + 1);
            match e {
                None => (None, q),
                Some(x) => if at(t, q, ")"@) {
                    (Some(x), q + 1)
                } else {
                    (None, adv(t, q))
                },
            }
        } else {
            (Some(PExpr::Identifier(k)), p + 1)
        }
    }
}

/// The parameter names from `p` up to the closing parenthesis, each
/// optionally followed by a comma, and the position of that parenthesis;
/// none where the tokens end first.
pub open spec fn parse_params(t: Seq<Seq<char>>, p: int) -> (Option<Seq<Seq<char>>>, int)
    decreases t.len() - p,
{
    if p < 0 || p >= t.len() {
        (None, p)
    } else if t[p] == ")"@ {
        (Some(Seq::empty()), p)
    } else {
        let q = if at(t, p + 1, ","@) { p + 2 } else { p + 1 };
        let (rest, r) = parse_params(t, q);
        match rest {
            None => (None, r),
            Some(ps) => (Some(seq![t[p]] + ps), r),
        }
    }
}

/// The type annotation `: T` at `p`, if there is one: whether it is whole,
/// and the position after it.
pub open spec fn skip_annotation(t: Seq<Seq<char>>, p: int) -> (bool, int) {
    if at(t, p, ":"@) {
        if p + 1 < t.len() { (true, p + 2) } else { (false, p + 1) }
    } else {
        (true, p)
    }
}

/// A variable declaration at `p` (its keyword): the name, an optional
/// type annotation, an optional initializer and an optional semicolon.
pub open spec fn parse_var(t: Seq<Seq<char>>, n: Seq<Option<u64>>, p: int) -> (Option<PStmt>, int) {
    let p1 = p + 1;
    if p1 >= t.len() {
        (None, p1)
    } else {
        let name = t[p1];
        let (whole, p2) = skip_annotation(t, p1 + 1);
        if !whole {
            (None, p2)
        } else {
            let (init, p3) = if at(t, p2, "="@) { parse_primary(t, n, p2 + 1) } else { (None, p2) };
            (Some(PStmt::Var { name, init }), if at(t, p3, ";"@) { p3 + 1 } else { p3 })
        }
    }
}

/// A return statement at `p`: an optional value and an optional semicolon.
pub open spec fn parse_return(t: Seq<Seq<char>>, n: Seq<Option<u64>>, p: int) -> (Option<PStmt>, int) {
    let p1 = p + 1;
    if !at(t, p1, ";"@) {
        let (e, q) = parse_primary(t, n, p1);
        match e {
            None => (None, q),
            Some(x) => (Some(PStmt::Return(Some(x))), if at(t, q, ";"@) { q + 1 } else { q }),
        }
    } else {
        (Some(PStmt::Return(None)), p1 + 1)
    }
}

/// An expression statement at `p`, with an optional semicolon.
pub open spec fn parse_expr_stmt(t: Seq<Seq<char>>, n: Seq<Option<u64>>, p: int) -> (Option<PStmt>, int) {
    let (e, q) = parse_primary(t, n, p);
    match e {
        None => (None, q),
        Some(x) => (Some(PStmt::Expr(x)), if at(t, q, ";"@) { q + 1 } else { q }),
    }
}

/// A statement at `p` and the position after it, chosen by its first
/// token; where the statement is malformed, none, and the position after
/// the tokens read before the fault.
pub open spec fn parse_stmt(t: Seq<Seq<char>>, n: Seq<Option<u64>>, p: int) -> (Option<PStmt>, int)
    decreases t.len() - p, 2int,
{
    if p < 0 || p >= t.len() {
        (None, p)
    } else {
        let k = t[p];
        if k == "let"@ || k == "const"@ || k == "var"@ {
            parse_var(t, n, p)
        } else if k == "function"@ {
            let (c, q) = parse_callable(t, n, p + 1);
            (match c {
                Some(f) => Some(PStmt::Function { name: f.0, params: f.1, body: f.2 }),
                None => None,
            }, q)
        } else if k == "class"@ {
            parse_class(t, n, p)
        } else if k == "if"@ {
            parse_if(t, n, p)
        } else if k == "while"@ {
            parse_while(t, n, p)
        } else if k == "for"@ {
            parse_for(t, n, p)
        } else if k == "return"@ {
            parse_return(t, n, p)
        } else if k == "break"@ {
            (Some(PStmt::Break), p + 1)
        } else if k == "continue"@ {
            (Some(PStmt::Continue), p + 1)
        } else {
            parse_expr_stmt(t, n, p)
        }
    }
}

/// A name, its parenthesised parameters, an optional return type and a
/// braced body, from `p`.
pub open spec fn parse_callable(t: Seq<Seq<char>>, n: Seq<Option<u64>>, p: int) -> (Option<(Seq<char>, Seq<Seq<char>>, Seq<PStmt>)>, int)
    decreases t.len() - p, 1int,
{
    if p < 0 || p >= t.len() {
        (None, p)
    } else if !at(t, p + 1, "("@) {
        (None, adv(t, p + 1))
    } else {
        let (ps, q) = parse_params(t, p + 2);
        match ps {
            None => (None, q),
            Some(params) => {
                let (whole, r) = skip_annotation(t, q + 1);
                if !whole {
                    (None, r)
                } else if !at(t, r, "{"@) {
                    (None, adv(t, r))
                } else if !advanced(t, p, r + 1) {
                    (None, r + 1)
                } else {
                    let (b, e) = parse_block(t, n, r + 1);
                    match b {
                        None => (None, e),
                        Some(body) => (Some((t[p], params, body)), e),
                    }
                }
            },
        }
    }
}

/// The statements from `p` up to a closing brace, and the position after
/// it; malformed statements are left out; none where the tokens end first.
pub open spec fn parse_block(t: Seq<Seq<char>>, n: Seq<Option<u64>>, p: int) -> (Option<Seq<PStmt>>, int)
    decreases t.len() - p, 3int,
{
    if p < 0 || p >= t.len() {
        (None, p)
    } else if t[p] == "}"@ {
        (Some(Seq::empty()), p + 1)
    } else {
        let (s, q) = parse_stmt(t, n, p);
        if !advanced(t, p, q) {
            (None, q)
        } else {
            let (rest, r) = parse_block(t, n, q);
            match rest {
                None => (None, r),
                Some(ss) => (Some(match s {
                    Some(x) => seq![x] + ss,
                    None => ss,
                }), r),
            }
        }
    }
}

/// The methods from `p` up to a closing brace, and the position after it;
/// malformed methods are left out; none where the tokens end first.
pub open spec fn parse_methods(t: Seq<Seq<char>>, n: Seq<Option<u64>>, p: int) -> (Option<Seq<(Seq<char>, Seq<Seq<char>>, Seq<PStmt>)>>, int)
    decreases t.len() - p, 3int,
{
    if p < 0 || p >= t.len() {
        (None, p)
    } else if t[p] == "}"@ {
        (Some(Seq::empty()), p + 1)
    } else {
        let (m, q) = parse_callable(t, n, p);
        if !advanced(t, p, q) {
            (None, q)
        } else {
            let (rest, r) = parse_methods(t, n, q);
            match rest {
                None => (None, r),
                Some(ms) => (Some(match m {
                    Some(x) => seq![x] + ms,
                    None => ms,
                }), r),
            }
        }
    }
}

/// A class declaration at `p`: the name, an optional `extends` clause and
/// the braced methods.
pub open spec fn parse_class(t: Seq<Seq<char>>, n: Seq<Option<u64>>, p: int) -> (Option<PStmt>, int)
    decreases t.len() - p, 1int,
{
    let p1 = p + 1;
    if p < 0 || p1 >= t.len() {
        (None, p1)
    } else {
        let p2 = if at(t, p1 + 1, "extends"@) { adv(t, p1 + 2) } else { p1 + 1 };
        if !at(t, p2, "{"@) {
            (None, adv(t, p2))
        } else {
            let (ms, q) = parse_methods(t, n, p2 + 1);
            match ms {
                None => (None, q),
                Some(m) => (Some(PStmt::Class { name: t[p1], methods: m }), q),
            }
        }
    }
}

/// An `if` statement at `p`.
pub open spec fn parse_if(t: Seq<Seq<char>>, n: Seq<Option<u64>>, p: int) -> (Option<PStmt>, int)
    decreases t.len() - p, 1int,
{
    if p < 0 || !at(t, p + 1, "("@) {
        (None, adv(t, p + 1))
    } else {
        let (e, q) = parse_primary(t, n, p + 2);
        match e {
            None => (None, q),
            Some(test) => if !at(t, q, ")"@) {
                (None, adv(t, q))
            } else if !advanced(t, p, q + 1) {
                (None, q + 1)
            } else {
                let (c, r) = parse_stmt(t, n, q + 1);
                match c {
                    None => (None, r),
                    Some(cs) => if at(t, r, "else"@) {
                        if !advanced(t, p, r + 1) {
                            (None, r + 1)
                        } else {
                            let (a, u) = parse_stmt(t, n, r + 1);
                            match a {
                                None => (None, u),
                                Some(x) => (Some(PStmt::If { test, consequent: Box::new(cs), alternate: Some(Box::new(x)) }), u),
                            }
                        }
                    } else {
                        (Some(PStmt::If { test, consequent: Box::new(cs), alternate: None }), r)
                    },
                }
            },
        }
    }
}

/// A `while` statement at `p`.
pub open spec fn parse_while(t: Seq<Seq<char>>, n: Seq<Option<u64>>, p: int) -> (Option<PStmt>, int)
    decreases t.len() - p, 1int,
{
    if p < 0 || !at(t, p + 1, "("@) {
        (None, adv(t, p + 1))
    } else {
        let (e, q) = parse_primary(t, n, p + 2);
        match e {
            None => (None, q),
            Some(test) => if !at(t, q, ")"@) {
                (None, adv(t, q))
            } else if !advanced(t, p, q + 1) {
                (None, q + 1)
            } else {
                let (b, r) = parse_stmt(t, n, q + 1);
                match b {
                    None => (None, r),
                    Some(body) => (Some(PStmt::While { test, body: Box::new(body) }), r),
                }
            },
        }
    }
}

/// An optional expression at `p`, absent where token `p` is `stop`:
/// whether it parsed, the expression and the position after it.
pub open spec fn parse_opt_expr(t: Seq<Seq<char>>, n: Seq<Option<u64>>, p: int, stop: Seq<char>) -> (bool, Option<PExpr>, int) {
    if !at(t, p, stop) {
        let (e, q) = parse_primary(t, n, p);
        match e {
            None => (false, None, q),
            Some(x) => (true, Some(x), q),
        }
    } else {
        (true, None, p)
    }
}

/// A `for` statement at `p`: the parenthesised initializer, test and
/// update, each optional, then the body.
pub open spec fn parse_for(t: Seq<Seq<char>>, n: Seq<Option<u64>>, p: int) -> (Option<PStmt>, int)
    decreases t.len() - p, 1int,
{
    if p < 0 || !at(t, p + 1, "("@) {
        (None, adv(t, p + 1))
    } else {
        let p2 = p + 2;
        let (s, q) = if !at(t, p2, ";"@) { parse_stmt(t, n, p2) } else { (None, p2) };
        if !at(t, p2, ";"@) && s is None {
            (None, q)
        } else {
            let init = match s {
                Some(x) => Some(Box::new(x)),
                None => None,
            };
            let p4 = if at(t, q, ";"@) { q + 1 } else { q };
            let (ok2, test, p5) = parse_opt_expr(t, n, p4, ";"@);
            if !ok2 {
                (None, p5)
            } else {
                let p6 = if at(t, p5, ";"@) { p5 + 1 } else { p5 };
                let (ok3, update, p7) = parse_opt_expr(t, n, p6, ")"@);
                if !ok3 {
                    (None, p7)
                } else if !at(t, p7, ")"@) {
                    (None, adv(t, p7))
                } else if !advanced(t, p, p7 + 1) {
                    (None, p7 + 1)
                } else {
                    let (b, r) = parse_stmt(t, n, p7 + 1);
                    match b {
                        None => (None, r),
                        Some(body) => (Some(PStmt::For { init, test, update, body: Box::new(body) }), r),
                    }
                }
            }
        }
    }
}

/// The statements of a whole token sequence from `p`; malformed
/// statements are left out.
pub open spec fn parsed_program(t: Seq<Seq<char>>, n: Seq<Option<u64>>, p: int) -> Seq<PStmt>
    decreases t.len() - p,
{
    if p < 0 || p >= t.len() {
        Seq::empty()
    } else {
        let (s, q) = parse_stmt(t, n, p);
        if !advanced(t, p, q) {
            Seq::empty()
        } else {
            let rest = parsed_program(t, n, q);
            match s {
                Some(x) => seq![x] + rest,
                None => rest,
            }
        }
    }
}


/// Whether token `p` is `lit`.
fn token_is(tokens: &[String], p: usize, lit: &str) -> (b: bool)
    ensures
        b == at(tokens_view(tokens@), p as int, lit@),
{
    if p < tokens.len() {
        tokens[p] == lit.to_owned()
    } else {
        false
    }
}

/// The position after reading one token at `p`, where there is one.
fn advance(tokens: &[String], p: usize) -> (q: usize)
    requires
        p <= tokens@.len(),
    ensures
        q == adv(tokens_view(tokens@), p as int),
{
    if p < tokens.len() {
        p + 1
    } else {
        p
    }
}

/// `s` with the characters `c` at either end removed.
fn trim_char(s: &str, c: char) -> (r: String)
    ensures
        r@ == trim_char_spec(s@, c),
{
    let n = s.unicode_len();
    let mut a: usize = 0;
    let mut b: usize = n;
    loop
        invariant
            a <= b <= n,
            n == s@.len(),
            trim_range(s@, c, 0, n as int) == trim_range(s@, c, a as int, b as int),
        ensures
            a <= b <= n,
            trim_range(s@, c, 0, n as int) == trim_range(s@, c, a as int, b as int),
            a == b || s@[a as int] != c,
        decreases b - a,
    {
        if a >= b || s.get_char(a) != c {
            break;
        }
        a = a + 1;
    }
    loop
        invariant
            a <= b <= n,
            n == s@.len(),
            trim_range(s@, c, 0, n as int) == trim_range(s@, c, a as int, b as int),
            a == b || s@[a as int] != c,
        ensures
            a <= b <= n,
            trim_range(s@, c, 0, n as int) == trim_range(s@, c, a as int, b as int),
            a == b || (s@[a as int] != c && s@[b - 1] != c),
        decreases b - a,
    {
        if a >= b || s.get_char(b - 1) != c {
            break;
        }
        b = b - 1;
    }
    s.substring_char(a, b).to_owned()
}

/// An expression at `pos`: a keyword literal, a number, a quoted string,
/// a parenthesised expression or a name; and the position after it.
fn parse_primary_at(tokens: &[String], numbers: &[Option<u64>], pos: usize) -> (r: (Option<Expression>, usize))
    requires
        tokens@.len() < usize::MAX,
        tokens@.len() == numbers@.len(),
        pos <= tokens@.len(),
    ensures
        opt_pexpr(r.0) == parse_primary(tokens_view(tokens@), numbers@, pos as int).0,
        r.1 == parse_primary(tokens_view(tokens@), numbers@, pos as int).1,
        pos <= r.1 <= tokens@.len(),
        pos < tokens@.len() ==> pos < r.1,
    decreases tokens@.len() - pos,
{
    if pos >= tokens.len() {
        return (None, pos);
    }
    if token_is(tokens, pos, "true") {
        return (Some(Expression::Literal(Literal::Boolean(true))), pos + 1);
    }
    if token_is(tokens, pos, "false") {
        return (Some(Expression::Literal(Literal::Boolean(false))), pos + 1);
    }
    if token_is(tokens, pos, "null") {
        return (Some(Expression::Literal(Literal::Null)), pos + 1);
    }
    if token_is(tokens, pos, "undefined") {
        return (Some(Expression::Literal(Literal::Undefined)), pos + 1);
    }
    match numbers[pos] {
        Some(bits) => {
            return (Some(Expression::Literal(Literal::Number(bits))), pos + 1);
        },
        None => {},
    }
    let k = tokens[pos].as_str();
    assert(k@ == tokens_view(tokens@)[pos as int]);
    if k.unicode_len() > 0 {
        let first = k.get_char(0);
        if first == '"' || first == '\'' {
            let unquoted = trim_char(k, '"');
            let value = trim_char(unquoted.as_str(), '\'');
            return (Some(Expression::Literal(Literal::String(value))), pos + 1);
        }
    }
    if token_is(tokens, pos, "(") {
        let (e, q) = parse_primary_at(tokens, numbers, pos + 1);
        match e {
            None => {
                return (None, q);
            },
            Some(x) => {
                if token_is(tokens, q, ")") {
                    return (Some(x), q + 1);
                } else {
                    return (None, advance(tokens, q));
                }
            },
        }
    }
    (Some(Expression::Identifier(tokens[pos].clone())), pos + 1)
}

/// The parameter names from `pos` up to the closing parenthesis, and the
/// position of that parenthesis; none where the tokens end first.
fn parse_params_at(tokens: &[String], pos: usize) -> (r: (Option<Vec<String>>, usize))
    requires
        tokens@.len() < usize::MAX,
        pos <= tokens@.len(),
    ensures
        (match r.0 {
            Some(v) => Some(names_of(v@)),
            None => None,
        }) == parse_params(tokens_view(tokens@), pos as int).0,
        r.1 == parse_params(tokens_view(tokens@), pos as int).1,
        pos <= r.1 <= tokens@.len(),
        r.0 is Some ==> r.1 < tokens@.len(),
    decreases tokens@.len() - pos,
{
    if pos >= tokens.len() {
        return (None, pos);
    }
    if token_is(tokens, pos, ")") {
        let v: Vec<String> = Vec::new();
        assert(names_of(v@) =~= Seq::<Seq<char>>::empty());
        return (Some(v), pos);
    }
    let q = if token_is(tokens, pos + 1, ",") { pos + 2 } else { pos + 1 };
    let (rest, r) = parse_params_at(tokens, q);
    match rest {
        None => (None, r),
        Some(v) => {
            let mut v = v;
            let ghost old_v = v@;
            v.insert(0, tokens[pos].clone());
            proof {
                assert(names_of(v@) =~= seq![tokens_view(tokens@)[pos as int]] + names_of(old_v));
            }
            (Some(v), r)
        },
    }
}

/// Skips a type annotation `: T` at `pos`, if there is one: whether it is
/// whole, and the position after it.
fn skip_annotation_at(tokens: &[String], pos: usize) -> (r: (bool, usize))
    requires
        tokens@.len() < usize::MAX,
        pos <= tokens@.len(),
    ensures
        r.0 == skip_annotation(tokens_view(tokens@), pos as int).0,
        r.1 == skip_annotation(tokens_view(tokens@), pos as int).1,
        pos <= r.1 <= tokens@.len(),
{
    if token_is(tokens, pos, ":") {
        if pos + 1 < tokens.len() {
            (true, pos + 2)
        } else {
            (false, pos + 1)
        }
    } else {
        (true, pos)
    }
}

/// A variable declaration at `pos` (its keyword).
fn parse_var_at(tokens: &[String], numbers: &[Option<u64>], pos: usize) -> (r: (Option<Statement>, usize))
    requires
        tokens@.len() < usize::MAX,
        tokens@.len() == numbers@.len(),
        pos < tokens@.len(),
    ensures
        opt_pstmt(r.0) == parse_var(tokens_view(tokens@), numbers@, pos as int).0,
        r.1 == parse_var(tokens_view(tokens@), numbers@, pos as int).1,
        pos <= r.1 <= tokens@.len(),
        pos < tokens@.len() ==> pos < r.1,
{
    let p1 = pos + 1;
    if p1 >= tokens.len() {
        return (None, p1);
    }
    let (whole, p2) = skip_annotation_at(tokens, p1 + 1);
    if !whole {
        return (None, p2);
    }
    let (init, p3) = if token_is(tokens, p2, "=") {
        parse_primary_at(tokens, numbers, p2 + 1)
    } else {
        (None, p2)
    };
    let end = if token_is(tokens, p3, ";") { p3 + 1 } else { p3 };
    (Some(Statement::VariableDeclaration { name: tokens[p1].clone(), initializer: init }), end)
}

/// A return statement at `pos` (its keyword).
fn parse_return_at(tokens: &[String], numbers: &[Option<u64>], pos: usize) -> (r: (Option<Statement>, usize))
    requires
        tokens@.len() < usize::MAX,
        tokens@.len() == numbers@.len(),
        pos < tokens@.len(),
    ensures
        opt_pstmt(r.0) == parse_return(tokens_view(tokens@), numbers@, pos as int).0,
        r.1 == parse_return(tokens_view(tokens@), numbers@, pos as int).1,
        pos <= r.1 <= tokens@.len(),
        pos < tokens@.len() ==> pos < r.1,
{
    let p1 = pos + 1;
    if !token_is(tokens, p1, ";") {
        let (e, q) = parse_primary_at(tokens, numbers, p1);
        match e {
            None => (None, q),
            Some(x) => {
                let end = if token_is(tokens, q, ";") { q + 1 } else { q };
                (Some(Statement::Return(Some(x))), end)
            },
        }
    } else {
        (Some(Statement::Return(None)), p1 + 1)
    }
}

/// An expression statement at `pos`.
fn parse_expr_stmt_at(tokens: &[String], numbers: &[Option<u64>], pos: usize) -> (r: (Option<Statement>, usize))
    requires
        tokens@.len() < usize::MAX,
        tokens@.len() == numbers@.len(),
        pos <= tokens@.len(),
    ensures
        opt_pstmt(r.0) == parse_expr_stmt(tokens_view(tokens@), numbers@, pos as int).0,
        r.1 == parse_expr_stmt(tokens_view(tokens@), numbers@, pos as int).1,
        pos <= r.1 <= tokens@.len(),
        pos < tokens@.len() ==> pos < r.1,
{
    let (e, q) = parse_primary_at(tokens, numbers, pos);
    match e {
        None => (None, q),
        Some(x) => {
            let end = if token_is(tokens, q, ";") { q + 1 } else { q };
            (Some(Statement::Expression(x)), end)
        },
    }
}


/// An optional callable as a value.
pub open spec fn opt_pcallable(c: Option<(String, Vec<String>, Vec<Statement>)>) -> Option<(Seq<char>, Seq<Seq<char>>, Seq<PStmt>)> {
    match c {
        Some(f) => Some((f.0@, names_of(f.1@), pstmts_of(f.2@))),
        None => None,
    }
}

/// Optional statements as values.
pub open spec fn opt_pstmts(v: Option<Vec<Statement>>) -> Option<Seq<PStmt>> {
    match v {
        Some(x) => Some(pstmts_of(x@)),
        None => None,
    }
}

/// Optional methods as values.
pub open spec fn opt_pmethods(v: Option<Vec<Method>>) -> Option<Seq<(Seq<char>, Seq<Seq<char>>, Seq<PStmt>)>> {
    match v {
        Some(x) => Some(pmethods_of(x@)),
        None => None,
    }
}

/// Parses the statement at `pos` of `tokens`, where `numbers` holds, for
/// each token, the bit pattern of its floating-point value if it reads as a
/// number. Returns the statement, or none where it is malformed, and the
/// position after the tokens read.
pub fn parse_statement(tokens: &[String], numbers: &[Option<u64>], pos: usize) -> (r: (Option<Statement>, usize))
    requires
        tokens@.len() < usize::MAX,
        tokens@.len() == numbers@.len(),
        pos <= tokens@.len(),
    ensures
        opt_pstmt(r.0) == parse_stmt(tokens_view(tokens@), numbers@, pos as int).0,
        r.1 == parse_stmt(tokens_view(tokens@), numbers@, pos as int).1,
        pos <= r.1 <= tokens@.len(),
        pos < tokens@.len() ==> pos < r.1,
    decreases tokens@.len() - pos, 2nat,
{
    if pos >= tokens.len() {
        return (None, pos);
    }
    if token_is(tokens, pos, "let") || token_is(tokens, pos, "const") || token_is(tokens, pos, "var") {
        parse_var_at(tokens, numbers, pos)
    } else if token_is(tokens, pos, "function") {
        let (c, q) = parse_callable_at(tokens, numbers, pos + 1);
        match c {
            Some(f) => (Some(Statement::FunctionDeclaration { name: f.0, params: f.1, body: f.2 }), q),
            None => (None, q),
        }
    } else if token_is(tokens, pos, "class") {
        parse_class_at(tokens, numbers, pos)
    } else if token_is(tokens, pos, "if") {
        parse_if_at(tokens, numbers, pos)
    } else if token_is(tokens, pos, "while") {
        parse_while_at(tokens, numbers, pos)
    } else if token_is(tokens, pos, "for") {
        parse_for_at(tokens, numbers, pos)
    } else if token_is(tokens, pos, "return") {
        parse_return_at(tokens, numbers, pos)
    } else if token_is(tokens, pos, "break") {
        (Some(Statement::Break), pos + 1)
    } else if token_is(tokens, pos, "continue") {
        (Some(Statement::Continue), pos + 1)
    } else {
        parse_expr_stmt_at(tokens, numbers, pos)
    }
}

/// A name, its parenthesised parameters, an optional return type and a
/// braced body, from `pos`.
fn parse_callable_at(tokens: &[String], numbers: &[Option<u64>], pos: usize) -> (r: (Option<(String, Vec<String>, Vec<Statement>)>, usize))
    requires
        tokens@.len() < usize::MAX,
        tokens@.len() == numbers@.len(),
        pos <= tokens@.len(),
    ensures
        opt_pcallable(r.0) == parse_callable(tokens_view(tokens@), numbers@, pos as int).0,
        r.1 == parse_callable(tokens_view(tokens@), numbers@, pos as int).1,
        pos <= r.1 <= tokens@.len(),
        pos < tokens@.len() ==> pos < r.1,
    decreases tokens@.len() - pos, 1nat,
{
    if pos >= tokens.len() {
        return (None, pos);
    }
    if !token_is(tokens, pos + 1, "(") {
        return (None, advance(tokens, pos + 1));
    }
    let (ps, q) = parse_params_at(tokens, pos + 2);
    match ps {
        None => (None, q),
        Some(params) => {
            let (whole, r) = skip_annotation_at(tokens, q + 1);
            if !whole {
                (None, r)
            } else if !token_is(tokens, r, "{") {
                (None, advance(tokens, r))
            } else {
                let (b, e) = parse_block_at(tokens, numbers, r + 1);
                match b {
                    None => (None, e),
                    Some(body) => (Some((tokens[pos].clone(), params, body)), e),
                }
            }
        },
    }
}

/// The statements from `pos` up to a closing brace, and the position after
/// it; malformed statements are left out; none where the tokens end first.
fn parse_block_at(tokens: &[String], numbers: &[Option<u64>], pos: usize) -> (r: (Option<Vec<Statement>>, usize))
    requires
        tokens@.len() < usize::MAX,
        tokens@.len() == numbers@.len(),
        pos <= tokens@.len(),
    ensures
        opt_pstmts(r.0) == parse_block(tokens_view(tokens@), numbers@, pos as int).0,
        r.1 == parse_block(tokens_view(tokens@), numbers@, pos as int).1,
        pos <= r.1 <= tokens@.len(),
        pos < tokens@.len() ==> pos < r.1,
    decreases tokens@.len() - pos, 3nat,
{
    if pos >= tokens.len() {
        return (None, pos);
    }
    if token_is(tokens, pos, "}") {
        let v: Vec<Statement> = Vec::new();
        assert(pstmts_of(v@) =~= Seq::<PStmt>::empty());
        return (Some(v), pos + 1);
    }
    let (st, q) = parse_statement(tokens, numbers, pos);
    let (rest, r) = parse_block_at(tokens, numbers, q);
    match rest {
        None => (None, r),
        Some(v) => match st {
            Some(x) => {
                let mut v = v;
                let ghost old_v = v@;
                v.insert(0, x);
                proof {
                    assert(v@.drop_first() =~= old_v);
                }
                (Some(v), r)
            },
            None => (Some(v), r),
        },
    }
}

/// The methods from `pos` up to a closing brace, and the position after
/// it; malformed methods are left out; none where the tokens end first.
fn parse_methods_at(tokens: &[String], numbers: &[Option<u64>], pos: usize) -> (r: (Option<Vec<Method>>, usize))
    requires
        tokens@.len() < usize::MAX,
        tokens@.len() == numbers@.len(),
        pos <= tokens@.len(),
    ensures
        opt_pmethods(r.0) == parse_methods(tokens_view(tokens@), numbers@, pos as int).0,
        r.1 == parse_methods(tokens_view(tokens@), numbers@, pos as int).1,
        pos <= r.1 <= tokens@.len(),
        pos < tokens@.len() ==> pos < r.1,
    decreases tokens@.len() - pos, 3nat,
{
    if pos >= tokens.len() {
        return (None, pos);
    }
    if token_is(tokens, pos, "}") {
        let v: Vec<Method> = Vec::new();
        assert(pmethods_of(v@) =~= Seq::empty());
        return (Some(v), pos + 1);
    }
    let (m, q) = parse_callable_at(tokens, numbers, pos);
    let (rest, r) = parse_methods_at(tokens, numbers, q);
    match rest {
        None => (None, r),
        Some(v) => match m {
            Some(f) => {
                let mut v = v;
                let ghost old_v = v@;
                v.insert(0, Method { name: f.0, params: f.1, body: f.2 });
                proof {
                    assert(v@.drop_first() =~= old_v);
                }
                (Some(v), r)
            },
            None => (Some(v), r),
        },
    }
}

/// A class declaration at `pos` (its keyword).
fn parse_class_at(tokens: &[String], numbers: &[Option<u64>], pos: usize) -> (r: (Option<Statement>, usize))
    requires
        tokens@.len() < usize::MAX,
        tokens@.len() == numbers@.len(),
        pos < tokens@.len(),
    ensures
        opt_pstmt(r.0) == parse_class(tokens_view(tokens@), numbers@, pos as int).0,
        r.1 == parse_class(tokens_view(tokens@), numbers@, pos as int).1,
        pos <= r.1 <= tokens@.len(),
        pos < tokens@.len() ==> pos < r.1,
    decreases tokens@.len() - pos, 1nat,
{
    let p1 = pos + 1;
    if p1 >= tokens.len() {
        return (None, p1);
    }
    let p2 = if token_is(tokens, p1 + 1, "extends") { advance(tokens, p1 + 2) } else { p1 + 1 };
    if !token_is(tokens, p2, "{") {
        return (None, advance(tokens, p2));
    }
    let (ms, q) = parse_methods_at(tokens, numbers, p2 + 1);
    match ms {
        None => (None, q),
        Some(methods) => (Some(Statement::ClassDeclaration { name: tokens[p1].clone(), methods }), q),
    }
}

/// An `if` statement at `pos` (its keyword).
fn parse_if_at(tokens: &[String], numbers: &[Option<u64>], pos: usize) -> (r: (Option<Statement>, usize))
    requires
        tokens@.len() < usize::MAX,
        tokens@.len() == numbers@.len(),
        pos < tokens@.len(),
    ensures
        opt_pstmt(r.0) == parse_if(tokens_view(tokens@), numbers@, pos as int).0,
        r.1 == parse_if(tokens_view(tokens@), numbers@, pos as int).1,
        pos <= r.1 <= tokens@.len(),
        pos < tokens@.len() ==> pos < r.1,
    decreases tokens@.len() - pos, 1nat,
{
    if !token_is(tokens, pos + 1, "(") {
        return (None, advance(tokens, pos + 1));
    }
    let (e, q) = parse_primary_at(tokens, numbers, pos + 2);
    let test = match e {
        None => {
            return (None, q);
        },
        Some(x) => x,
    };
    if !token_is(tokens, q, ")") {
        return (None, advance(tokens, q));
    }
    let (c, r) = parse_statement(tokens, numbers, q + 1);
    let consequent = match c {
        None => {
            return (None, r);
        },
        Some(x) => x,
    };
    if token_is(tokens, r, "else") {
        let (a, u) = parse_statement(tokens, numbers, r + 1);
        match a {
            None => (None, u),
            Some(x) => (Some(Statement::If { test, consequent: Box::new(consequent), alternate: Some(Box::new(x)) }), u),
        }
    } else {
        (Some(Statement::If { test, consequent: Box::new(consequent), alternate: None }), r)
    }
}

/// A `while` statement at `pos` (its keyword).
fn parse_while_at(tokens: &[String], numbers: &[Option<u64>], pos: usize) -> (r: (Option<Statement>, usize))
    requires
        tokens@.len() < usize::MAX,
        tokens@.len() == numbers@.len(),
        pos < tokens@.len(),
    ensures
        opt_pstmt(r.0) == parse_while(tokens_view(tokens@), numbers@, pos as int).0,
        r.1 == parse_while(tokens_view(tokens@), numbers@, pos as int).1,
        pos <= r.1 <= tokens@.len(),
        pos < tokens@.len() ==> pos < r.1,
    decreases tokens@.len() - pos, 1nat,
{
    if !token_is(tokens, pos + 1, "(") {
        return (None, advance(tokens, pos + 1));
    }
    let (e, q) = parse_primary_at(tokens, numbers, pos + 2);
    let test = match e {
        None => {
            return (None, q);
        },
        Some(x) => x,
    };
    if !token_is(tokens, q, ")") {
        return (None, advance(tokens, q));
    }
    let (b, r) = parse_statement(tokens, numbers, q + 1);
    match b {
        None => (None, r),
        Some(body) => (Some(Statement::While { test, body: Box::new(body) }), r),
    }
}

/// An optional expression at `pos`, absent where token `pos` is `stop`.
fn parse_opt_expr_at(tokens: &[String], numbers: &[Option<u64>], pos: usize, stop: &str) -> (r: (bool, Option<Expression>, usize))
    requires
        tokens@.len() < usize::MAX,
        tokens@.len() == numbers@.len(),
        pos <= tokens@.len(),
    ensures
        r.0 == parse_opt_expr(tokens_view(tokens@), numbers@, pos as int, stop@).0,
        opt_pexpr(r.1) == parse_opt_expr(tokens_view(tokens@), numbers@, pos as int, stop@).1,
        r.2 == parse_opt_expr(tokens_view(tokens@), numbers@, pos as int, stop@).2,
        pos <= r.2 <= tokens@.len(),
{
    if !token_is(tokens, pos, stop) {
        let (e, q) = parse_primary_at(tokens, numbers, pos);
        match e {
            None => (false, None, q),
            Some(x) => (true, Some(x), q),
        }
    } else {
        (true, None, pos)
    }
}

/// A `for` statement at `pos` (its keyword).
fn parse_for_at(tokens: &[String], numbers: &[Option<u64>], pos: usize) -> (r: (Option<Statement>, usize))
    requires
        tokens@.len() < usize::MAX,
        tokens@.len() == numbers@.len(),
        pos < tokens@.len(),
    ensures
        opt_pstmt(r.0) == parse_for(tokens_view(tokens@), numbers@, pos as int).0,
        r.1 == parse_for(tokens_view(tokens@), numbers@, pos as int).1,
        pos <= r.1 <= tokens@.len(),
        pos < tokens@.len() ==> pos < r.1,
    decreases tokens@.len() - pos, 1nat,
{
    if !token_is(tokens, pos + 1, "(") {
        return (None, advance(tokens, pos + 1));
    }
    let p2 = pos + 2;
    let has_init = !token_is(tokens, p2, ";");
    let (s, q) = if has_init { parse_statement(tokens, numbers, p2) } else { (None, p2) };
    if has_init && s.is_none() {
        return (None, q);
    }
    let init = match s {
        Some(x) => Some(Box::new(x)),
        None => None,
    };
    let p4 = if token_is(tokens, q, ";") { q + 1 } else { q };
    let (ok2, test, p5) = parse_opt_expr_at(tokens, numbers, p4, ";");
    if !ok2 {
        return (None, p5);
    }
    let p6 = if token_is(tokens, p5, ";") { p5 + 1 } else { p5 };
    let (ok3, update, p7) = parse_opt_expr_at(tokens, numbers, p6, ")");
    if !ok3 {
        return (None, p7);
    }
    if !token_is(tokens, p7, ")") {
        return (None, advance(tokens, p7));
    }
    let (b, r) = parse_statement(tokens, numbers, p7 + 1);
    match b {
        None => (None, r),
        Some(body) => (Some(Statement::For { init, test, update, body: Box::new(body) }), r),
    }
}

/// Parses all of `tokens` into statements, leaving out malformed ones;
/// `numbers` is as for `parse_statement`.
pub fn parse_program(tokens: &[String], numbers: &[Option<u64>]) -> (r: Vec<Statement>)
    requires
        tokens@.len() < usize::MAX,
        tokens@.len() == numbers@.len(),
    ensures
        pstmts_of(r@) == parsed_program(tokens_view(tokens@), numbers@, 0),
{
    let mut out: Vec<Statement> = Vec::new();
    let mut pos: usize = 0;
    assert(pstmts_of(out@) =~= Seq::<PStmt>::empty());
    while pos < tokens.len()
        invariant
            tokens@.len() < usize::MAX,
            tokens@.len() == numbers@.len(),
            pos <= tokens@.len(),
            pstmts_of(out@) + parsed_program(tokens_view(tokens@), numbers@, pos as int)
                == parsed_program(tokens_view(tokens@), numbers@, 0),
        decreases tokens@.len() - pos,
    {
        let (s, q) = parse_statement(tokens, numbers, pos);
        match s {
            Some(x) => {
                let ghost old_out = out@;
                out.push(x);
                proof {
                    lemma_pstmts_push(old_out, x);
                }
            },
            None => {},
        }
        pos = q;
    }
    proof {
        assert(pstmts_of(out@) + Seq::<PStmt>::empty() =~= pstmts_of(out@));
    }
    out
}

/// Viewing a pushed sequence pushes the view.
proof fn lemma_pstmts_push(v: Seq<Statement>, x: Statement)
    ensures
        pstmts_of(v.push(x)) == pstmts_of(v).push(pstmt_of(x)),
    decreases v.len(),
{
    if v.len() == 0 {
        assert(v.push(x).drop_first() =~= Seq::<Statement>::empty());
        assert(pstmts_of(Seq::<Statement>::empty()) == Seq::<PStmt>::empty());
        assert(v.push(x)[0] == x);
        assert(pstmts_of(v) == Seq::<PStmt>::empty());
        assert(pstmts_of(v.push(x)) =~= seq![pstmt_of(x)] + Seq::<PStmt>::empty());
    } else {
        lemma_pstmts_push(v.drop_first(), x);
        assert(v.push(x).drop_first() =~= v.drop_first().push(x));
        assert(pstmts_of(v.push(x)) =~= pstmts_of(v).push(pstmt_of(x)));
    }
}


/// The keyword literals parse to their values: `true` to the boolean true,
/// `false` to the boolean false, `null` and `undefined` to themselves, each
/// one token long.
pub proof fn lemma_keyword_literals(t: Seq<Seq<char>>, n: Seq<Option<u64>>, p: int)
    requires
        0 <= p < t.len(),
    ensures
        t[p] == "true"@ ==> parse_primary(t, n, p) == (Some(PExpr::Boolean(true)), p + 1),
        t[p] == "false"@ ==> parse_primary(t, n, p) == (Some(PExpr::Boolean(false)), p + 1),
        t[p] == "null"@ ==> parse_primary(t, n, p) == (Some(PExpr::Null), p + 1),
        t[p] == "undefined"@ ==> parse_primary(t, n, p) == (Some(PExpr::Undefined), p + 1),
{
    reveal_strlit("true");
    reveal_strlit("false");
    reveal_strlit("null");
    reveal_strlit("undefined");
}

/// `let name = true|false` declares `name` with that boolean as its
/// initializer: the initializer's value is the keyword's.
pub proof fn lemma_let_boolean(t: Seq<Seq<char>>, n: Seq<Option<u64>>, p: int, b: bool)
    requires
        0 <= p,
        p + 3 < t.len(),
        t[p] == "let"@,
        t[p + 2] == "="@,
        t[p + 3] == (if b { "true"@ } else { "false"@ }),
    ensures
        parse_stmt(t, n, p).0 == Some(PStmt::Var { name: t[p + 1], init: Some(PExpr::Boolean(b)) }),
{
    reveal_strlit("let");
    reveal_strlit("=");
    reveal_strlit(":");
    lemma_keyword_literals(t, n, p + 3);
    assert("="@[0] != ":"@[0]);
    assert("="@ != ":"@);
    assert(parse_stmt(t, n, p) == parse_var(t, n, p));
    assert(!at(t, p + 2, ":"@));
    assert(skip_annotation(t, p + 2) == (true, p + 2));
    assert(at(t, p + 2, "="@));
    assert(parse_primary(t, n, p + 3).0 == Some(PExpr::Boolean(b)));
}

} // verus!
