//! The recursive-descent parser: source text to syntax tree. The grammar
//! encodes operator precedence by nesting (ternary above assignment above
//! equality chains above sums above products above atoms), so the evaluator
//! only ever folds left to right within one level.
//!
//! The executable parser is proved to return exactly what the
//! specification-level parser in this module describes. Both are bounded by
//! the same generous recursion budget, so they agree on every input.

use vstd::prelude::*;

use crate::ast::BinOp;
use crate::ast::Expr;
use crate::ast::Lvalue;
use crate::ast::ModelExpr;
use crate::ast::ModelLv;
use crate::ast::ModelStmt;
use crate::ast::Stmt;
use crate::model::ModelValue;
use crate::value::is_digit;
use crate::value::number_max;
use crate::value::number_min;
use crate::value::numeric_literal_val;
use crate::value::Value;
use crate::utils::unquote_spec;
use vstd::string::StringExecFns;
use crate::ast::stmt_model;

verus! {

/// Whitespace between tokens.
pub open spec fn is_space(c: char) -> bool {
    c == ' ' || c == '\t' || c == '\n' || c == '\r'
}

/// A character that may start an identifier.
pub open spec fn is_ident_start(c: char) -> bool {
    ('a' <= c <= 'z') || ('A' <= c <= 'Z') || c == '_'
}

/// A character that may continue an identifier.
pub open spec fn is_ident_char(c: char) -> bool {
    is_ident_start(c) || is_digit(c)
}

/// The first position at or after `i` that holds no whitespace.
pub open spec fn skip_ws(s: Seq<char>, i: int) -> int
    decreases s.len() - i,
{
    if 0 <= i < s.len() && is_space(s[i]) {
        skip_ws(s, i + 1)
    } else {
        i
    }
}

/// The end of the identifier characters running from `i`.
pub open spec fn scan_ident(s: Seq<char>, i: int) -> int
    decreases s.len() - i,
{
    if 0 <= i < s.len() && is_ident_char(s[i]) {
        scan_ident(s, i + 1)
    } else {
        i
    }
}

/// The end of the digits running from `i`.
pub open spec fn scan_digits(s: Seq<char>, i: int) -> int
    decreases s.len() - i,
{
    if 0 <= i < s.len() && is_digit(s[i]) {
        scan_digits(s, i + 1)
    } else {
        i
    }
}

/// The position just after the closing `term` quote of a string literal
/// whose body starts at `i`; a backslash makes the next character literal.
pub open spec fn scan_string(s: Seq<char>, i: int, term: char) -> Option<int>
    decreases s.len() - i,
{
    if !(0 <= i < s.len()) {
        None
    } else if s[i] == '\\' {
        if i + 1 < s.len() {
            scan_string(s, i + 2, term)
        } else {
            None
        }
    } else if s[i] == term {
        Some(i + 1)
    } else {
        scan_string(s, i + 1, term)
    }
}

/// The recursion budget that bounds the parse of `s`: deep enough for any
/// nesting the text itself can express, since every nesting level consumes
/// at least one character.
pub open spec fn parse_fuel(s: Seq<char>) -> nat {
    if s.len() > 0x0100_0000 {
        0x1_0000_0040 as nat
    } else {
        (16 * s.len() + 64) as nat
    }
}

/// Parse a full expression starting at `i` (ternary level and below).
pub open spec fn p_expr(s: Seq<char>, i: int, d: nat) -> Option<(ModelExpr, int)>
    decreases d,
{
    if d == 0 {
        None
    } else {
        p_assign(s, i, (d - 1) as nat)
    }
}

/// Parse an assignment or anything below it. An `=` (that is not `==`)
/// after a plain path makes an assignment whose right side is parsed at
/// this same level, so assignment is right-associative.
pub open spec fn p_assign(s: Seq<char>, i: int, d: nat) -> Option<(ModelExpr, int)>
    decreases d,
{
    if d == 0 {
        None
    } else {
        match p_ternary(s, i, (d - 1) as nat) {
            None => None,
            Some((e, j)) => {
                let k = skip_ws(s, j);
                if k < s.len() && s[k] == '=' && !(k + 1 < s.len() && s[k + 1] == '=') {
                    match e {
                        ModelExpr::Path(lv) => match p_assign(s, k + 1, (d - 1) as nat) {
                            None => None,
                            Some((rhs, j2)) => Some((ModelExpr::Assign(lv, Box::new(rhs)), j2)),
                        },
                        _ => None,
                    }
                } else {
                    Some((e, j))
                }
            },
        }
    }
}

/// Parse a ternary `cond ? a : b`, or just the condition level below it.
pub open spec fn p_ternary(s: Seq<char>, i: int, d: nat) -> Option<(ModelExpr, int)>
    decreases d,
{
    if d == 0 {
        None
    } else {
        match p_cmp(s, i, (d - 1) as nat) {
            None => None,
            Some((c, j)) => {
                let k = skip_ws(s, j);
                if k < s.len() && s[k] == '?' {
                    match p_expr(s, k + 1, (d - 1) as nat) {
                        None => None,
                        Some((t, j2)) => {
                            let k2 = skip_ws(s, j2);
                            if k2 < s.len() && s[k2] == ':' {
                                match p_expr(s, k2 + 1, (d - 1) as nat) {
                                    None => None,
                                    Some((f, j3)) => Some(
                                        (
                                            ModelExpr::Ternary(
                                                Box::new(c),
                                                Box::new(t),
                                                Box::new(f),
                                            ),
                                            j3,
                                        ),
                                    ),
                                }
                            } else {
                                None
                            }
                        },
                    }
                } else {
                    Some((c, j))
                }
            },
        }
    }
}

/// Parse an equality chain: sums joined by `==` or `===`, folded left.
pub open spec fn p_cmp(s: Seq<char>, i: int, d: nat) -> Option<(ModelExpr, int)>
    decreases d,
{
    if d == 0 {
        None
    } else {
        match p_sum(s, i, (d - 1) as nat) {
            None => None,
            Some((e, j)) => p_cmp_tail(s, j, e, (d - 1) as nat),
        }
    }
}

/// Continue an equality chain from `acc`.
pub open spec fn p_cmp_tail(s: Seq<char>, i: int, acc: ModelExpr, d: nat) -> Option<
    (ModelExpr, int),
>
    decreases d,
{
    if d == 0 {
        None
    } else {
        let k = skip_ws(s, i);
        if k + 3 <= s.len() && s[k] == '=' && s[k + 1] == '=' && s[k + 2] == '=' {
            match p_sum(s, k + 3, (d - 1) as nat) {
                None => None,
                Some((rhs, j)) => p_cmp_tail(
                    s,
                    j,
                    ModelExpr::Binary(BinOp::EqAnyType, Box::new(acc), Box::new(rhs)),
                    (d - 1) as nat,
                ),
            }
        } else if k + 2 <= s.len() && s[k] == '=' && s[k + 1] == '=' {
            match p_sum(s, k + 2, (d - 1) as nat) {
                None => None,
                Some((rhs, j)) => p_cmp_tail(
                    s,
                    j,
                    ModelExpr::Binary(BinOp::Eq, Box::new(acc), Box::new(rhs)),
                    (d - 1) as nat,
                ),
            }
        } else {
            Some((acc, i))
        }
    }
}

/// Parse a sum: products joined by `+` or `-`, folded left.
pub open spec fn p_sum(s: Seq<char>, i: int, d: nat) -> Option<(ModelExpr, int)>
    decreases d,
{
    if d == 0 {
        None
    } else {
        match p_prod(s, i, (d - 1) as nat) {
            None => None,
            Some((e, j)) => p_sum_tail(s, j, e, (d - 1) as nat),
        }
    }
}

/// Continue a sum chain from `acc`.
pub open spec fn p_sum_tail(s: Seq<char>, i: int, acc: ModelExpr, d: nat) -> Option<
    (ModelExpr, int),
>
    decreases d,
{
    if d == 0 {
        None
    } else {
        let k = skip_ws(s, i);
        if k < s.len() && (s[k] == '+' || s[k] == '-') {
            let op = if s[k] == '+' {
                BinOp::Add
            } else {
                BinOp::Sub
            };
            match p_prod(s, k + 1, (d - 1) as nat) {
                None => None,
                Some((rhs, j)) => p_sum_tail(
                    s,
                    j,
                    ModelExpr::Binary(op, Box::new(acc), Box::new(rhs)),
                    (d - 1) as nat,
                ),
            }
        } else {
            Some((acc, i))
        }
    }
}

/// Parse a product: atoms joined by `*`, folded left.
pub open spec fn p_prod(s: Seq<char>, i: int, d: nat) -> Option<(ModelExpr, int)>
    decreases d,
{
    if d == 0 {
        None
    } else {
        match p_atom(s, i, (d - 1) as nat) {
            None => None,
            Some((e, j)) => p_prod_tail(s, j, e, (d - 1) as nat),
        }
    }
}

/// Continue a product chain from `acc`.
pub open spec fn p_prod_tail(s: Seq<char>, i: int, acc: ModelExpr, d: nat) -> Option<
    (ModelExpr, int),
>
    decreases d,
{
    if d == 0 {
        None
    } else {
        let k = skip_ws(s, i);
        if k < s.len() && s[k] == '*' {
            match p_atom(s, k + 1, (d - 1) as nat) {
                None => None,
                Some((rhs, j)) => p_prod_tail(
                    s,
                    j,
                    ModelExpr::Binary(BinOp::Mul, Box::new(acc), Box::new(rhs)),
                    (d - 1) as nat,
                ),
            }
        } else {
            Some((acc, i))
        }
    }
}

/// Parse an atom: a parenthesised expression, a literal, or an identifier
/// path that may turn into a call.
pub open spec fn p_atom(s: Seq<char>, i: int, d: nat) -> Option<(ModelExpr, int)>
    decreases d,
{
    if d == 0 {
        None
    } else {
        let k = skip_ws(s, i);
        if !(k < s.len()) {
            None
        } else if s[k] == '(' {
            match p_expr(s, k + 1, (d - 1) as nat) {
                None => None,
                Some((e, j)) => {
                    let k2 = skip_ws(s, j);
                    if k2 < s.len() && s[k2] == ')' {
                        Some((e, k2 + 1))
                    } else {
                        None
                    }
                },
            }
        } else if s[k] == '"' || s[k] == '\'' {
            match scan_string(s, k + 1, s[k]) {
                None => None,
                Some(end) => match unquote_spec(s.subrange(k, end)) {
                    Some(t) => Some((ModelExpr::Literal(ModelValue::Text(t)), end)),
                    None => None,
                },
            }
        } else if is_digit(s[k]) || (s[k] == '-' && k + 1 < s.len() && is_digit(s[k + 1])) {
            let dend = if s[k] == '-' {
                scan_digits(s, k + 1)
            } else {
                scan_digits(s, k)
            };
            match numeric_literal_val(s.subrange(k, dend)) {
                Some(x) => if number_min() <= x <= number_max() {
                    Some((ModelExpr::Literal(ModelValue::Number(x)), dend))
                } else {
                    None
                },
                None => None,
            }
        } else if is_ident_start(s[k]) {
            let j = scan_ident(s, k);
            let name = s.subrange(k, j);
            if name == "true"@ {
                Some((ModelExpr::Literal(ModelValue::Boolean(true)), j))
            } else if name == "false"@ {
                Some((ModelExpr::Literal(ModelValue::Boolean(false)), j))
            } else if name == "null"@ {
                Some((ModelExpr::Literal(ModelValue::Null), j))
            } else {
                match p_path(s, j, name, (d - 1) as nat) {
                    None => None,
                    Some((lv, j2)) => {
                        let k2 = skip_ws(s, j2);
                        if k2 < s.len() && s[k2] == '(' {
                            match p_args(s, k2 + 1, (d - 1) as nat) {
                                None => None,
                                Some((args, j3)) => Some((ModelExpr::Call(lv, args), j3)),
                            }
                        } else {
                            Some((ModelExpr::Path(lv), j2))
                        }
                    },
                }
            }
        } else {
            None
        }
    }
}

/// Continue a member-access path after an identifier (`first`) that ends at
/// `i`: zero or more `.ident` steps.
pub open spec fn p_path(s: Seq<char>, i: int, first: Seq<char>, d: nat) -> Option<(ModelLv, int)>
    decreases d,
{
    if d == 0 {
        None
    } else {
        let k = skip_ws(s, i);
        if k < s.len() && s[k] == '.' {
            let k2 = skip_ws(s, k + 1);
            if k2 < s.len() && is_ident_start(s[k2]) {
                let j = scan_ident(s, k2);
                match p_path(s, j, s.subrange(k2, j), (d - 1) as nat) {
                    None => None,
                    Some((rest, j2)) => Some((ModelLv::Member(first, Box::new(rest)), j2)),
                }
            } else {
                None
            }
        } else {
            Some((ModelLv::Ident(first), i))
        }
    }
}

/// Parse a call's argument list after its opening parenthesis: expressions
/// separated by commas, ended by the closing parenthesis.
pub open spec fn p_args(s: Seq<char>, i: int, d: nat) -> Option<(Seq<ModelExpr>, int)>
    decreases d,
{
    if d == 0 {
        None
    } else {
        let k = skip_ws(s, i);
        if k < s.len() && s[k] == ')' {
            Some((Seq::empty(), k + 1))
        } else {
            match p_expr(s, i, (d - 1) as nat) {
                None => None,
                Some((e, j)) => p_args_tail(s, j, seq![e], (d - 1) as nat),
            }
        }
    }
}

/// Continue an argument list after at least one argument.
pub open spec fn p_args_tail(s: Seq<char>, i: int, acc: Seq<ModelExpr>, d: nat) -> Option<
    (Seq<ModelExpr>, int),
>
    decreases d,
{
    if d == 0 {
        None
    } else {
        let k = skip_ws(s, i);
        if k < s.len() && s[k] == ',' {
            match p_expr(s, k + 1, (d - 1) as nat) {
                None => None,
                Some((e, j)) => p_args_tail(s, j, acc.push(e), (d - 1) as nat),
            }
        } else if k < s.len() && s[k] == ')' {
            Some((acc, k + 1))
        } else {
            None
        }
    }
}

/// Parse a parameter list after its opening parenthesis: identifiers
/// separated by commas, ended by the closing parenthesis.
pub open spec fn p_params(s: Seq<char>, i: int, d: nat) -> Option<(Seq<Seq<char>>, int)>
    decreases d,
{
    if d == 0 {
        None
    } else {
        let k = skip_ws(s, i);
        if k < s.len() && s[k] == ')' {
            Some((Seq::empty(), k + 1))
        } else if k < s.len() && is_ident_start(s[k]) {
            let j = scan_ident(s, k);
            p_params_tail(s, j, seq![s.subrange(k, j)], (d - 1) as nat)
        } else {
            None
        }
    }
}

/// Continue a parameter list after at least one parameter.
pub open spec fn p_params_tail(s: Seq<char>, i: int, acc: Seq<Seq<char>>, d: nat) -> Option<
    (Seq<Seq<char>>, int),
>
    decreases d,
{
    if d == 0 {
        None
    } else {
        let k = skip_ws(s, i);
        if k < s.len() && s[k] == ',' {
            let k2 = skip_ws(s, k + 1);
            if k2 < s.len() && is_ident_start(s[k2]) {
                let j = scan_ident(s, k2);
                p_params_tail(s, j, acc.push(s.subrange(k2, j)), (d - 1) as nat)
            } else {
                None
            }
        } else if k < s.len() && s[k] == ')' {
            Some((acc, k + 1))
        } else {
            None
        }
    }
}

/// Parse one statement: a block, a function declaration, a return, or an
/// expression statement ended by a semicolon.
pub open spec fn p_stmt(s: Seq<char>, i: int, d: nat) -> Option<(ModelStmt, int)>
    decreases d,
{
    if d == 0 {
        None
    } else {
        let k = skip_ws(s, i);
        if !(k < s.len()) {
            None
        } else if s[k] == '{' {
            match p_block(s, k + 1, (d - 1) as nat) {
                None => None,
                Some((ss, j)) => Some((ModelStmt::Block(ss), j)),
            }
        } else if is_ident_start(s[k]) {
            let j = scan_ident(s, k);
            let name = s.subrange(k, j);
            if name == "function"@ {
                p_function(s, j, (d - 1) as nat)
            } else if name == "return"@ {
                match p_expr(s, j, (d - 1) as nat) {
                    None => None,
                    Some((e, j2)) => {
                        let k2 = skip_ws(s, j2);
                        if k2 < s.len() && s[k2] == ';' {
                            Some((ModelStmt::Return(e), k2 + 1))
                        } else {
                            None
                        }
                    },
                }
            } else {
                p_expr_stmt(s, i, (d - 1) as nat)
            }
        } else {
            p_expr_stmt(s, i, (d - 1) as nat)
        }
    }
}

/// Parse an expression statement: an expression ended by a semicolon.
pub open spec fn p_expr_stmt(s: Seq<char>, i: int, d: nat) -> Option<(ModelStmt, int)>
    decreases d,
{
    if d == 0 {
        None
    } else {
        match p_expr(s, i, (d - 1) as nat) {
            None => None,
            Some((e, j)) => {
                let k = skip_ws(s, j);
                if k < s.len() && s[k] == ';' {
                    Some((ModelStmt::Expr(e), k + 1))
                } else {
                    None
                }
            },
        }
    }
}

/// Parse a function declaration after the `function` keyword: a name, a
/// parameter list, and a braced body. The body must parse as statements,
/// but is captured as its unparsed source text, to be parsed again at each
/// call.
pub open spec fn p_function(s: Seq<char>, i: int, d: nat) -> Option<(ModelStmt, int)>
    decreases d,
{
    if d == 0 {
        None
    } else {
        let k = skip_ws(s, i);
        if k < s.len() && is_ident_start(s[k]) {
            let j = scan_ident(s, k);
            let name = s.subrange(k, j);
            let k2 = skip_ws(s, j);
            if k2 < s.len() && s[k2] == '(' {
                match p_params(s, k2 + 1, (d - 1) as nat) {
                    None => None,
                    Some((params, j2)) => {
                        let k3 = skip_ws(s, j2);
                        if k3 < s.len() && s[k3] == '{' {
                            match p_block(s, k3 + 1, (d - 1) as nat) {
                                None => None,
                                Some((_ss, j3)) => Some(
                                    (
                                        ModelStmt::Function(name, params, s.subrange(k3 + 1, j3 - 1)),
                                        j3,
                                    ),
                                ),
                            }
                        } else {
                            None
                        }
                    },
                }
            } else {
                None
            }
        } else {
            None
        }
    }
}

/// Parse statements up to and including a closing brace; the returned
/// position is just after that brace.
pub open spec fn p_block(s: Seq<char>, i: int, d: nat) -> Option<(Seq<ModelStmt>, int)>
    decreases d,
{
    if d == 0 {
        None
    } else {
        let k = skip_ws(s, i);
        if k < s.len() && s[k] == '}' {
            Some((Seq::empty(), k + 1))
        } else {
            match p_stmt(s, i, (d - 1) as nat) {
                None => None,
                Some((st, j)) => match p_block(s, j, (d - 1) as nat) {
                    None => None,
                    Some((rest, j2)) => Some((seq![st] + rest, j2)),
                },
            }
        }
    }
}

/// Parse statements up to the end of the input.
pub open spec fn p_script(s: Seq<char>, i: int, d: nat) -> Option<(Seq<ModelStmt>, int)>
    decreases d,
{
    if d == 0 {
        None
    } else {
        let k = skip_ws(s, i);
        if !(k < s.len()) {
            Some((Seq::empty(), s.len() as int))
        } else {
            match p_stmt(s, i, (d - 1) as nat) {
                None => None,
                Some((st, j)) => match p_script(s, j, (d - 1) as nat) {
                    None => None,
                    Some((rest, j2)) => Some((seq![st] + rest, j2)),
                },
            }
        }
    }
}

/// What parsing `s` as one whole expression yields: the tree, provided the
/// text parses and nothing but whitespace follows it.
pub open spec fn spec_parse_expression(s: Seq<char>) -> Option<ModelExpr> {
    match p_expr(s, 0, parse_fuel(s)) {
        Some((e, j)) => if skip_ws(s, j) == s.len() {
            Some(e)
        } else {
            None
        },
        None => None,
    }
}

/// What parsing `s` as a script yields: the statement list, provided the
/// whole text parses.
pub open spec fn spec_parse_script(s: Seq<char>) -> Option<Seq<ModelStmt>> {
    match p_script(s, 0, parse_fuel(s)) {
        Some((ss, _)) => Some(ss),
        None => None,
    }
}

/// The recursion budget for parsing `s`, as the executable parser counts it.
fn fuel_for(s: &Vec<char>) -> (r: u64)
    ensures
        r as nat == parse_fuel(s@),
{
    if s.len() > 0x0100_0000 {
        0x1_0000_0040u64
    } else {
        16 * (s.len() as u64) + 64
    }
}

/// Skip whitespace from `i`.
fn ws(s: &Vec<char>, i: usize) -> (r: usize)
    requires
        i <= s@.len(),
    ensures
        r as int == skip_ws(s@, i as int),
        i <= r <= s@.len(),
{
    let mut k = i;
    loop
        invariant
            i <= k <= s@.len(),
            skip_ws(s@, i as int) == skip_ws(s@, k as int),
        decreases s@.len() - k,
    {
        if k == s.len() {
            return k;
        }
        let c = s[k];
        if c == ' ' || c == '\t' || c == '\n' || c == '\r' {
            proof {
                assert(skip_ws(s@, k as int) == skip_ws(s@, k + 1 as int));
            }
            k = k + 1;
        } else {
            proof {
                assert(!is_space(s@[k as int]));
            }
            return k;
        }
    }
}

/// Is `c` allowed to start an identifier?
fn ident_start(c: char) -> (r: bool)
    ensures
        r == is_ident_start(c),
{
    ('a' <= c && c <= 'z') || ('A' <= c && c <= 'Z') || c == '_'
}

/// Is `c` allowed inside an identifier?
fn ident_char(c: char) -> (r: bool)
    ensures
        r == is_ident_char(c),
{
    ident_start(c) || ('0' <= c && c <= '9')
}

/// Scan identifier characters from `i`.
fn scan_ident_end(s: &Vec<char>, i: usize) -> (r: usize)
    requires
        i <= s@.len(),
    ensures
        r as int == scan_ident(s@, i as int),
        i <= r <= s@.len(),
{
    let mut k = i;
    loop
        invariant
            i <= k <= s@.len(),
            scan_ident(s@, i as int) == scan_ident(s@, k as int),
        decreases s@.len() - k,
    {
        if k == s.len() {
            return k;
        }
        if ident_char(s[k]) {
            proof {
                assert(scan_ident(s@, k as int) == scan_ident(s@, k + 1 as int));
            }
            k = k + 1;
        } else {
            return k;
        }
    }
}

/// Scan decimal digits from `i`.
fn scan_digits_end(s: &Vec<char>, i: usize) -> (r: usize)
    requires
        i <= s@.len(),
    ensures
        r as int == scan_digits(s@, i as int),
        i <= r <= s@.len(),
{
    let mut k = i;
    loop
        invariant
            i <= k <= s@.len(),
            scan_digits(s@, i as int) == scan_digits(s@, k as int),
        decreases s@.len() - k,
    {
        if k == s.len() {
            return k;
        }
        let c = s[k];
        if '0' <= c && c <= '9' {
            proof {
                assert(scan_digits(s@, k as int) == scan_digits(s@, k + 1 as int));
            }
            k = k + 1;
        } else {
            return k;
        }
    }
}

/// Scan to just past the closing quote of a string literal whose body
/// starts at `i`.
fn scan_string_end(s: &Vec<char>, i: usize, term: char) -> (r: Option<usize>)
    requires
        i <= s@.len(),
    ensures
        match r {
            Some(j) => scan_string(s@, i as int, term) == Some(j as int) && i < j <= s@.len(),
            None => scan_string(s@, i as int, term) is None,
        },
{
    let mut k = i;
    loop
        invariant
            i <= k <= s@.len(),
            scan_string(s@, i as int, term) == scan_string(s@, k as int, term),
        decreases s@.len() - k,
    {
        if k == s.len() {
            return None;
        }
        let c = s[k];
        if c == '\\' {
            if k + 1 < s.len() {
                proof {
                    assert(scan_string(s@, k as int, term) == scan_string(s@, k + 2 as int, term));
                }
                k = k + 2;
            } else {
                return None;
            }
        } else if c == term {
            return Some(k + 1);
        } else {
            proof {
                assert(scan_string(s@, k as int, term) == scan_string(s@, k + 1 as int, term));
            }
            k = k + 1;
        }
    }
}

/// Parse a full expression starting at `i`, per [`p_expr`].
fn e_expr(s: &Vec<char>, i: usize, d: u64) -> (r: Option<(Expr, usize)>)
    requires
        i <= s@.len(),
    ensures
        r is Some <==> p_expr(s@, i as int, d as nat) is Some,
        r matches Some(p) ==> p_expr(s@, i as int, d as nat) == Some((p.0@, p.1 as int)) && i <= p.1
            <= s@.len(),
    decreases d,
{
    if d == 0 {
        return None;
    }
    e_assign(s, i, d - 1)
}

/// Parse an assignment or below, per [`p_assign`].
fn e_assign(s: &Vec<char>, i: usize, d: u64) -> (r: Option<(Expr, usize)>)
    requires
        i <= s@.len(),
    ensures
        r is Some <==> p_assign(s@, i as int, d as nat) is Some,
        r matches Some(p) ==> p_assign(s@, i as int, d as nat) == Some((p.0@, p.1 as int)) && i <= p.1
            <= s@.len(),
    decreases d,
{
    if d == 0 {
        return None;
    }
    match e_ternary(s, i, d - 1) {
        None => None,
        Some((e, j)) => {
            let k = ws(s, j);
            if k < s.len() && s[k] == '=' && !(k + 1 < s.len() && s[k + 1] == '=') {
                match e {
                    Expr::Path(lv) => match e_assign(s, k + 1, d - 1) {
                        None => None,
                        Some((rhs, j2)) => Some((Expr::Assign(lv, Box::new(rhs)), j2)),
                    },
                    _ => None,
                }
            } else {
                Some((e, j))
            }
        },
    }
}

/// Parse a ternary or below, per [`p_ternary`].
fn e_ternary(s: &Vec<char>, i: usize, d: u64) -> (r: Option<(Expr, usize)>)
    requires
        i <= s@.len(),
    ensures
        r is Some <==> p_ternary(s@, i as int, d as nat) is Some,
        r matches Some(p) ==> p_ternary(s@, i as int, d as nat) == Some((p.0@, p.1 as int)) && i <= p.1
            <= s@.len(),
    decreases d,
{
    if d == 0 {
        return None;
    }
    match e_cmp(s, i, d - 1) {
        None => None,
        Some((c, j)) => {
            let k = ws(s, j);
            if k < s.len() && s[k] == '?' {
                match e_expr(s, k + 1, d - 1) {
                    None => None,
                    Some((t, j2)) => {
                        let k2 = ws(s, j2);
                        if k2 < s.len() && s[k2] == ':' {
                            match e_expr(s, k2 + 1, d - 1) {
                                None => None,
                                Some((f, j3)) => Some(
                                    (Expr::Ternary(Box::new(c), Box::new(t), Box::new(f)), j3),
                                ),
                            }
                        } else {
                            None
                        }
                    },
                }
            } else {
                Some((c, j))
            }
        },
    }
}

/// Parse an equality chain, per [`p_cmp`].
fn e_cmp(s: &Vec<char>, i: usize, d: u64) -> (r: Option<(Expr, usize)>)
    requires
        i <= s@.len(),
    ensures
        r is Some <==> p_cmp(s@, i as int, d as nat) is Some,
        r matches Some(p) ==> p_cmp(s@, i as int, d as nat) == Some((p.0@, p.1 as int)) && i <= p.1
            <= s@.len(),
    decreases d,
{
    if d == 0 {
        return None;
    }
    match e_sum(s, i, d - 1) {
        None => None,
        Some((e, j)) => e_cmp_tail(s, j, e, d - 1),
    }
}

/// Continue an equality chain, per [`p_cmp_tail`].
fn e_cmp_tail(s: &Vec<char>, i: usize, acc: Expr, d: u64) -> (r: Option<(Expr, usize)>)
    requires
        i <= s@.len(),
    ensures
        r is Some <==> p_cmp_tail(s@, i as int, acc@, d as nat) is Some,
        r matches Some(p) ==> p_cmp_tail(s@, i as int, acc@, d as nat) == Some((p.0@, p.1 as int))
            && i <= p.1 <= s@.len(),
    decreases d,
{
    if d == 0 {
        return None;
    }
    let k = ws(s, i);
    if k < s.len() && s[k] == '=' && k + 1 < s.len() && s[k + 1] == '=' && k + 2 < s.len() && s[k
        + 2] == '=' {
        match e_sum(s, k + 3, d - 1) {
            None => None,
            Some((rhs, j)) => e_cmp_tail(
                s,
                j,
                Expr::Binary(BinOp::EqAnyType, Box::new(acc), Box::new(rhs)),
                d - 1,
            ),
        }
    } else if k < s.len() && s[k] == '=' && k + 1 < s.len() && s[k + 1] == '=' {
        match e_sum(s, k + 2, d - 1) {
            None => None,
            Some((rhs, j)) => e_cmp_tail(
                s,
                j,
                Expr::Binary(BinOp::Eq, Box::new(acc), Box::new(rhs)),
                d - 1,
            ),
        }
    } else {
        Some((acc, i))
    }
}

/// Parse a sum, per [`p_sum`].
fn e_sum(s: &Vec<char>, i: usize, d: u64) -> (r: Option<(Expr, usize)>)
    requires
        i <= s@.len(),
    ensures
        r is Some <==> p_sum(s@, i as int, d as nat) is Some,
        r matches Some(p) ==> p_sum(s@, i as int, d as nat) == Some((p.0@, p.1 as int)) && i <= p.1
            <= s@.len(),
    decreases d,
{
    if d == 0 {
        return None;
    }
    match e_prod(s, i, d - 1) {
        None => None,
        Some((e, j)) => e_sum_tail(s, j, e, d - 1),
    }
}

/// Continue a sum chain, per [`p_sum_tail`].
fn e_sum_tail(s: &Vec<char>, i: usize, acc: Expr, d: u64) -> (r: Option<(Expr, usize)>)
    requires
        i <= s@.len(),
    ensures
        r is Some <==> p_sum_tail(s@, i as int, acc@, d as nat) is Some,
        r matches Some(p) ==> p_sum_tail(s@, i as int, acc@, d as nat) == Some((p.0@, p.1 as int))
            && i <= p.1 <= s@.len(),
    decreases d,
{
    if d == 0 {
        return None;
    }
    let k = ws(s, i);
    if k < s.len() && (s[k] == '+' || s[k] == '-') {
        let op = if s[k] == '+' {
            BinOp::Add
        } else {
            BinOp::Sub
        };
        match e_prod(s, k + 1, d - 1) {
            None => None,
            Some((rhs, j)) => e_sum_tail(
                s,
                j,
                Expr::Binary(op, Box::new(acc), Box::new(rhs)),
                d - 1,
            ),
        }
    } else {
        Some((acc, i))
    }
}

/// Parse a product, per [`p_prod`].
fn e_prod(s: &Vec<char>, i: usize, d: u64) -> (r: Option<(Expr, usize)>)
    requires
        i <= s@.len(),
    ensures
        r is Some <==> p_prod(s@, i as int, d as nat) is Some,
        r matches Some(p) ==> p_prod(s@, i as int, d as nat) == Some((p.0@, p.1 as int)) && i <= p.1
            <= s@.len(),
    decreases d,
{
    if d == 0 {
        return None;
    }
    match e_atom(s, i, d - 1) {
        None => None,
        Some((e, j)) => e_prod_tail(s, j, e, d - 1),
    }
}

/// Continue a product chain, per [`p_prod_tail`].
fn e_prod_tail(s: &Vec<char>, i: usize, acc: Expr, d: u64) -> (r: Option<(Expr, usize)>)
    requires
        i <= s@.len(),
    ensures
        r is Some <==> p_prod_tail(s@, i as int, acc@, d as nat) is Some,
        r matches Some(p) ==> p_prod_tail(s@, i as int, acc@, d as nat) == Some((p.0@, p.1 as int))
            && i <= p.1 <= s@.len(),
    decreases d,
{
    if d == 0 {
        return None;
    }
    let k = ws(s, i);
    if k < s.len() && s[k] == '*' {
        match e_atom(s, k + 1, d - 1) {
            None => None,
            Some((rhs, j)) => e_prod_tail(
                s,
                j,
                Expr::Binary(BinOp::Mul, Box::new(acc), Box::new(rhs)),
                d - 1,
            ),
        }
    } else {
        Some((acc, i))
    }
}

/// Parse an atom, per [`p_atom`].
fn e_atom(s: &Vec<char>, i: usize, d: u64) -> (r: Option<(Expr, usize)>)
    requires
        i <= s@.len(),
    ensures
        r is Some <==> p_atom(s@, i as int, d as nat) is Some,
        r matches Some(p) ==> p_atom(s@, i as int, d as nat) == Some((p.0@, p.1 as int)) && i <= p.1
            <= s@.len(),
    decreases d,
{
    if d == 0 {
        return None;
    }
    let k = ws(s, i);
    if k == s.len() {
        return None;
    }
    let c = s[k];
    if c == '(' {
        match e_expr(s, k + 1, d - 1) {
            None => None,
            Some((e, j)) => {
                let k2 = ws(s, j);
                if k2 < s.len() && s[k2] == ')' {
                    Some((e, k2 + 1))
                } else {
                    None
                }
            },
        }
    } else if c == '"' || c == '\'' {
        match scan_string_end(s, k + 1, c) {
            None => None,
            Some(end) => {
                let token = crate::utils::substring(s, k, end);
                match Value::from_string_literal(token.as_str()) {
                    Ok(v) => Some((Expr::Literal(v), end)),
                    Err(_) => None,
                }
            },
        }
    } else if ('0' <= c && c <= '9') || (c == '-' && k + 1 < s.len() && {
        let c2 = s[k + 1];
        '0' <= c2 && c2 <= '9'
    }) {
        let dend = if c == '-' {
            scan_digits_end(s, k + 1)
        } else {
            scan_digits_end(s, k)
        };
        let token = crate::utils::substring(s, k, dend);
        match Value::from_numeric_literal(token.as_str()) {
            Ok(v) => Some((Expr::Literal(v), dend)),
            Err(_) => None,
        }
    } else if ident_start(c) {
        let j = scan_ident_end(s, k);
        let name = crate::utils::substring(s, k, j);
        if crate::utils::str_eq(name.as_str(), "true") {
            Some((Expr::Literal(Value::Boolean(true)), j))
        } else if crate::utils::str_eq(name.as_str(), "false") {
            Some((Expr::Literal(Value::Boolean(false)), j))
        } else if crate::utils::str_eq(name.as_str(), "null") {
            Some((Expr::Literal(Value::Null), j))
        } else {
            match e_path(s, j, name, d - 1) {
                None => None,
                Some((lv, j2)) => {
                    let k2 = ws(s, j2);
                    if k2 < s.len() && s[k2] == '(' {
                        match e_args(s, k2 + 1, d - 1) {
                            None => None,
                            Some((args, j3)) => Some((Expr::Call(lv, args), j3)),
                        }
                    } else {
                        Some((Expr::Path(lv), j2))
                    }
                },
            }
        }
    } else {
        None
    }
}

/// Continue a member-access path, per [`p_path`].
fn e_path(s: &Vec<char>, i: usize, first: String, d: u64) -> (r: Option<(Lvalue, usize)>)
    requires
        i <= s@.len(),
    ensures
        r is Some <==> p_path(s@, i as int, first@, d as nat) is Some,
        r matches Some(p) ==> p_path(s@, i as int, first@, d as nat) == Some((p.0@, p.1 as int))
            && i <= p.1 <= s@.len(),
    decreases d,
{
    if d == 0 {
        return None;
    }
    let k = ws(s, i);
    if k < s.len() && s[k] == '.' {
        let k2 = ws(s, k + 1);
        if k2 < s.len() && ident_start(s[k2]) {
            let j = scan_ident_end(s, k2);
            let name = crate::utils::substring(s, k2, j);
            match e_path(s, j, name, d - 1) {
                None => None,
                Some((rest, j2)) => Some((Lvalue::Member(first, Box::new(rest)), j2)),
            }
        } else {
            None
        }
    } else {
        Some((Lvalue::Ident(first), i))
    }
}

/// Parse an argument list, per [`p_args`].
fn e_args(s: &Vec<char>, i: usize, d: u64) -> (r: Option<(Vec<Expr>, usize)>)
    requires
        i <= s@.len(),
    ensures
        r is Some <==> p_args(s@, i as int, d as nat) is Some,
        r matches Some(p) ==> p_args(s@, i as int, d as nat) == Some(
            (crate::ast::exprs_model(p.0@), p.1 as int),
        ) && i <= p.1 <= s@.len(),
    decreases d,
{
    if d == 0 {
        return None;
    }
    let k = ws(s, i);
    if k < s.len() && s[k] == ')' {
        let args: Vec<Expr> = Vec::new();
        proof {
            assert(crate::ast::exprs_model(args@) =~= Seq::<ModelExpr>::empty());
        }
        Some((args, k + 1))
    } else {
        match e_expr(s, i, d - 1) {
            None => None,
            Some((e, j)) => {
                let ghost em = e@;
                let mut args: Vec<Expr> = Vec::new();
                args.push(e);
                proof {
                    assert(args@.drop_last() =~= Seq::<Expr>::empty());
                    assert(crate::ast::exprs_model(Seq::<Expr>::empty())
                        =~= Seq::<ModelExpr>::empty());
                    assert(crate::ast::exprs_model(args@) =~= seq![em]);
                }
                e_args_tail(s, j, args, d - 1)
            },
        }
    }
}

/// Continue an argument list, per [`p_args_tail`].
fn e_args_tail(s: &Vec<char>, i: usize, acc: Vec<Expr>, d: u64) -> (r: Option<(Vec<Expr>, usize)>)
    requires
        i <= s@.len(),
    ensures
        r is Some <==> p_args_tail(s@, i as int, crate::ast::exprs_model(acc@), d as nat) is Some,
        r matches Some(p) ==> p_args_tail(s@, i as int, crate::ast::exprs_model(acc@), d as nat)
            == Some((crate::ast::exprs_model(p.0@), p.1 as int)) && i <= p.1 <= s@.len(),
    decreases d,
{
    if d == 0 {
        return None;
    }
    let k = ws(s, i);
    if k < s.len() && s[k] == ',' {
        match e_expr(s, k + 1, d - 1) {
            None => None,
            Some((e, j)) => {
                let ghost oldacc = acc@;
                let ghost em = e@;
                let mut acc2 = acc;
                acc2.push(e);
                proof {
                    assert(acc2@.drop_last() =~= oldacc);
                    assert(crate::ast::exprs_model(acc2@) == crate::ast::exprs_model(oldacc).push(
                        em,
                    ));
                }
                e_args_tail(s, j, acc2, d - 1)
            },
        }
    } else if k < s.len() && s[k] == ')' {
        Some((acc, k + 1))
    } else {
        None
    }
}

/// Parse a parameter list, per [`p_params`].
fn e_params(s: &Vec<char>, i: usize, d: u64) -> (r: Option<(Vec<String>, usize)>)
    requires
        i <= s@.len(),
    ensures
        r is Some <==> p_params(s@, i as int, d as nat) is Some,
        r matches Some(p) ==> p_params(s@, i as int, d as nat) == Some(
            (p.0.deep_view(), p.1 as int),
        ) && i <= p.1 <= s@.len(),
    decreases d,
{
    if d == 0 {
        return None;
    }
    let k = ws(s, i);
    if k < s.len() && s[k] == ')' {
        let params: Vec<String> = Vec::new();
        proof {
            assert(params.deep_view() =~= Seq::<Seq<char>>::empty());
        }
        Some((params, k + 1))
    } else if k < s.len() && ident_start(s[k]) {
        let j = scan_ident_end(s, k);
        let name = crate::utils::substring(s, k, j);
        let ghost nm = name@;
        let mut params: Vec<String> = Vec::new();
        params.push(name);
        proof {
            assert(params.deep_view() =~= seq![nm]);
        }
        e_params_tail(s, j, params, d - 1)
    } else {
        None
    }
}

/// Continue a parameter list, per [`p_params_tail`].
fn e_params_tail(s: &Vec<char>, i: usize, acc: Vec<String>, d: u64) -> (r: Option<
    (Vec<String>, usize),
>)
    requires
        i <= s@.len(),
    ensures
        r is Some <==> p_params_tail(s@, i as int, acc.deep_view(), d as nat) is Some,
        r matches Some(p) ==> p_params_tail(s@, i as int, acc.deep_view(), d as nat) == Some(
            (p.0.deep_view(), p.1 as int),
        ) && i <= p.1 <= s@.len(),
    decreases d,
{
    if d == 0 {
        return None;
    }
    let k = ws(s, i);
    if k < s.len() && s[k] == ',' {
        let k2 = ws(s, k + 1);
        if k2 < s.len() && ident_start(s[k2]) {
            let j = scan_ident_end(s, k2);
            let name = crate::utils::substring(s, k2, j);
            let ghost nm = name@;
            let ghost oldacc = acc.deep_view();
            let mut acc2 = acc;
            acc2.push(name);
            proof {
                assert(acc2.deep_view() =~= oldacc.push(nm));
            }
            e_params_tail(s, j, acc2, d - 1)
        } else {
            None
        }
    } else if k < s.len() && s[k] == ')' {
        Some((acc, k + 1))
    } else {
        None
    }
}

/// Parse one statement, per [`p_stmt`].
fn e_stmt(s: &Vec<char>, i: usize, d: u64) -> (r: Option<(Stmt, usize)>)
    requires
        i <= s@.len(),
    ensures
        r is Some <==> p_stmt(s@, i as int, d as nat) is Some,
        r matches Some(p) ==> p_stmt(s@, i as int, d as nat) == Some((p.0@, p.1 as int)) && i <= p.1
            <= s@.len(),
    decreases d,
{
    if d == 0 {
        return None;
    }
    let k = ws(s, i);
    if k == s.len() {
        return None;
    }
    let c = s[k];
    if c == '{' {
        match e_block(s, k + 1, d - 1) {
            None => None,
            Some((ss, j)) => Some((Stmt::Block(ss), j)),
        }
    } else if ident_start(c) {
        let j = scan_ident_end(s, k);
        let name = crate::utils::substring(s, k, j);
        if crate::utils::str_eq(name.as_str(), "function") {
            e_function(s, j, d - 1)
        } else if crate::utils::str_eq(name.as_str(), "return") {
            match e_expr(s, j, d - 1) {
                None => None,
                Some((e, j2)) => {
                    let k2 = ws(s, j2);
                    if k2 < s.len() && s[k2] == ';' {
                        Some((Stmt::Return(e), k2 + 1))
                    } else {
                        None
                    }
                },
            }
        } else {
            e_expr_stmt(s, i, d - 1)
        }
    } else {
        e_expr_stmt(s, i, d - 1)
    }
}

/// Parse an expression statement, per [`p_expr_stmt`].
fn e_expr_stmt(s: &Vec<char>, i: usize, d: u64) -> (r: Option<(Stmt, usize)>)
    requires
        i <= s@.len(),
    ensures
        r is Some <==> p_expr_stmt(s@, i as int, d as nat) is Some,
        r matches Some(p) ==> p_expr_stmt(s@, i as int, d as nat) == Some((p.0@, p.1 as int))
            && i <= p.1 <= s@.len(),
    decreases d,
{
    if d == 0 {
        return None;
    }
    match e_expr(s, i, d - 1) {
        None => None,
        Some((e, j)) => {
            let k = ws(s, j);
            if k < s.len() && s[k] == ';' {
                Some((Stmt::Expr(e), k + 1))
            } else {
                None
            }
        },
    }
}

/// Parse a function declaration after its keyword, per [`p_function`].
fn e_function(s: &Vec<char>, i: usize, d: u64) -> (r: Option<(Stmt, usize)>)
    requires
        i <= s@.len(),
    ensures
        r is Some <==> p_function(s@, i as int, d as nat) is Some,
        r matches Some(p) ==> p_function(s@, i as int, d as nat) == Some((p.0@, p.1 as int)) && i <= p.1
            <= s@.len(),
    decreases d,
{
    if d == 0 {
        return None;
    }
    let k = ws(s, i);
    if k < s.len() && ident_start(s[k]) {
        let j = scan_ident_end(s, k);
        let name = crate::utils::substring(s, k, j);
        let k2 = ws(s, j);
        if k2 < s.len() && s[k2] == '(' {
            match e_params(s, k2 + 1, d - 1) {
                None => None,
                Some((params, j2)) => {
                    let k3 = ws(s, j2);
                    if k3 < s.len() && s[k3] == '{' {
                        match e_block(s, k3 + 1, d - 1) {
                            None => None,
                            Some((_ss, j3)) => {
                                let body = crate::utils::substring(s, k3 + 1, j3 - 1);
                                Some((Stmt::Function(name, params, body), j3))
                            },
                        }
                    } else {
                        None
                    }
                },
            }
        } else {
            None
        }
    } else {
        None
    }
}

/// Parse statements up to and including a closing brace, per [`p_block`].
fn e_block(s: &Vec<char>, i: usize, d: u64) -> (r: Option<(Vec<Stmt>, usize)>)
    requires
        i <= s@.len(),
    ensures
        r is Some <==> p_block(s@, i as int, d as nat) is Some,
        r matches Some(p) ==> p_block(s@, i as int, d as nat) == Some(
            (crate::ast::stmts_model(p.0@), p.1 as int),
        ) && i < p.1 && p.1 <= s@.len(),
    decreases d,
{
    if d == 0 {
        return None;
    }
    let k = ws(s, i);
    if k < s.len() && s[k] == '}' {
        let ss: Vec<Stmt> = Vec::new();
        proof {
            assert(crate::ast::stmts_model(ss@) =~= Seq::<ModelStmt>::empty());
        }
        Some((ss, k + 1))
    } else {
        match e_stmt(s, i, d - 1) {
            None => None,
            Some((st, j)) => match e_block(s, j, d - 1) {
                None => None,
                Some((rest, j2)) => {
                    let ghost stm = st@;
                    let ghost rest0 = rest@;
                    let ghost restm = crate::ast::stmts_model(rest@);
                    let mut ss: Vec<Stmt> = Vec::new();
                    ss.push(st);
                    let mut rest2 = rest;
                    ss.append(&mut rest2);
                    proof {
                        lemma_cons_stmts_model(ss@, stm, rest0, restm);
                    }
                    Some((ss, j2))
                },
            },
        }
    }
}

/// Prepending one statement to a list prepends its model: where `ss` is the
/// one-statement list `[st]` followed by `rest`, `stm` is `st`'s model and
/// `restm` is `rest`'s, the model of `ss` is `[stm]` followed by `restm`.
proof fn lemma_cons_stmts_model(ss: Seq<Stmt>, stm: ModelStmt, rest: Seq<Stmt>, restm: Seq<ModelStmt>)
    requires
        ss.len() == 1 + rest.len(),
        stmt_model(ss[0]) == stm,
        forall|t: int| 0 <= t < rest.len() ==> ss[t + 1] == rest[t],
        restm == crate::ast::stmts_model(rest),
    ensures
        crate::ast::stmts_model(ss) == seq![stm] + restm,
{
    crate::ast::lemma_stmts_model_len(ss);
    crate::ast::lemma_stmts_model_len(rest);
    assert forall|t: int| 0 <= t < ss.len() implies crate::ast::stmts_model(ss)[t] == (seq![stm]
        + restm)[t] by {
        crate::ast::lemma_stmts_model_index(ss, t);
        if t > 0 {
            crate::ast::lemma_stmts_model_index(rest, t - 1);
            assert(ss[t] == rest[t - 1]);
        }
    }
    assert(crate::ast::stmts_model(ss) =~= seq![stm] + restm);
}

/// Parse statements up to the end of the input, per [`p_script`].
fn e_script(s: &Vec<char>, i: usize, d: u64) -> (r: Option<(Vec<Stmt>, usize)>)
    requires
        i <= s@.len(),
    ensures
        r is Some <==> p_script(s@, i as int, d as nat) is Some,
        r matches Some(p) ==> p_script(s@, i as int, d as nat) == Some(
            (crate::ast::stmts_model(p.0@), p.1 as int),
        ) && i <= p.1 <= s@.len(),
    decreases d,
{
    if d == 0 {
        return None;
    }
    let k = ws(s, i);
    if k == s.len() {
        let ss: Vec<Stmt> = Vec::new();
        proof {
            assert(crate::ast::stmts_model(ss@) =~= Seq::<ModelStmt>::empty());
        }
        return Some((ss, s.len()));
    }
    match e_stmt(s, i, d - 1) {
        None => None,
        Some((st, j)) => match e_script(s, j, d - 1) {
            None => None,
            Some((rest, j2)) => {
                let ghost stm = st@;
                let ghost rest0 = rest@;
                let ghost restm = crate::ast::stmts_model(rest@);
                let mut ss: Vec<Stmt> = Vec::new();
                ss.push(st);
                let mut rest2 = rest;
                ss.append(&mut rest2);
                proof {
                    lemma_cons_stmts_model(ss@, stm, rest0, restm);
                }
                Some((ss, j2))
            },
        },
    }
}

/// Parse `code` as one whole expression. Fails with a parse error exactly
/// when [`spec_parse_expression`] has no answer for it.
pub fn parse_expression(code: &str) -> (r: Result<Expr, crate::errors::JabroniError>)
    ensures
        match r {
            Ok(e) => spec_parse_expression(code@) == Some(e@),
            Err(err) => spec_parse_expression(code@) is None && err@
                == crate::errors::ErrorKind::Parse,
        },
{
    let chars = crate::utils::str_to_chars(code);
    let fuel = fuel_for(&chars);
    match e_expr(&chars, 0, fuel) {
        Some((e, j)) => {
            let k = ws(&chars, j);
            if k == chars.len() {
                Ok(e)
            } else {
                Err(crate::errors::JabroniError::Parse(String::from_str(
                    "Unexpected text after expression",
                )))
            }
        },
        None => Err(crate::errors::JabroniError::Parse(String::from_str(
            "Cannot parse expression",
        ))),
    }
}

/// Parse `code` as a script: a sequence of statements. Fails with a parse
/// error exactly when [`spec_parse_script`] has no answer for it.
pub fn parse_script(code: &str) -> (r: Result<Vec<Stmt>, crate::errors::JabroniError>)
    ensures
        match r {
            Ok(ss) => spec_parse_script(code@) == Some(crate::ast::stmts_model(ss@)),
            Err(err) => spec_parse_script(code@) is None && err@ == crate::errors::ErrorKind::Parse,
        },
{
    let chars = crate::utils::str_to_chars(code);
    let fuel = fuel_for(&chars);
    match e_script(&chars, 0, fuel) {
        Some((ss, _)) => Ok(ss),
        None => Err(crate::errors::JabroniError::Parse(String::from_str("Cannot parse script"))),
    }
}

} // verus!
