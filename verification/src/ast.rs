//! The syntax tree that the parser produces and the evaluator walks, with
//! its specification-level model. Operator precedence is encoded by the
//! nesting of the nodes, so the evaluator never reorders anything.

use vstd::prelude::*;

use crate::model::ModelValue;
use crate::value::value_model;
use crate::value::Value;

verus! {

/// An assignable place: a plain identifier or a chain of member accesses
/// ending in one (`a`, `a.b`, `a.b.c`, ...).
#[derive(Debug)]
pub enum Lvalue {
    /// A plain identifier.
    Ident(String),
    /// A member access: the named object's inner scope is entered and the
    /// rest of the chain is resolved there.
    Member(String, Box<Lvalue>),
}

/// A binary operator that chains fold left-to-right.
#[derive(Clone, Copy, Debug, PartialEq, Eq, Structural)]
pub enum BinOp {
    /// Surface `==`: equality that requires both operands to carry the same
    /// tag and fails with a type error otherwise.
    Eq,
    /// Surface `===`: equality in which operands of different tags simply
    /// compare as false, and nulls may be compared.
    EqAnyType,
    /// Surface `+` on Numbers.
    Add,
    /// Surface `-` on Numbers.
    Sub,
    /// Surface `*` on Numbers.
    Mul,
}

/// An expression node.
#[derive(Debug)]
pub enum Expr {
    /// A literal value (number, boolean, string or null), already decoded.
    Literal(Value),
    /// Reading an identifier or member-access chain.
    Path(Lvalue),
    /// Calling the subroutine that the lvalue resolves to, with arguments
    /// evaluated left to right.
    Call(Lvalue, Vec<Expr>),
    /// `cond ? a : b`; only the selected branch is ever evaluated.
    Ternary(Box<Expr>, Box<Expr>, Box<Expr>),
    /// `place = value`; the result of an assignment is always Null.
    Assign(Lvalue, Box<Expr>),
    /// One step of a left-folded binary chain.
    Binary(BinOp, Box<Expr>, Box<Expr>),
}

/// A statement node.
#[derive(Debug)]
pub enum Stmt {
    /// An expression statement: evaluated for effect, its value is Null.
    Expr(Expr),
    /// A braced block; its value is the value of its last statement.
    Block(Vec<Stmt>),
    /// A function declaration: name, ordered parameter names, and the
    /// still-unparsed body source (parsed again at each call).
    Function(String, Vec<String>, String),
    /// `return e;`: evaluates `e` and ends the enclosing script run with it.
    Return(Expr),
}

/// Model of an assignable place.
pub enum ModelLv {
    /// A plain identifier.
    Ident(Seq<char>),
    /// A member access.
    Member(Seq<char>, Box<ModelLv>),
}

/// Model of an expression node.
pub enum ModelExpr {
    /// A literal value.
    Literal(ModelValue),
    /// Reading an identifier or member-access chain.
    Path(ModelLv),
    /// A subroutine call.
    Call(ModelLv, Seq<ModelExpr>),
    /// `cond ? a : b`.
    Ternary(Box<ModelExpr>, Box<ModelExpr>, Box<ModelExpr>),
    /// `place = value`.
    Assign(ModelLv, Box<ModelExpr>),
    /// One step of a binary chain.
    Binary(BinOp, Box<ModelExpr>, Box<ModelExpr>),
}

/// Model of a statement node.
pub enum ModelStmt {
    /// An expression statement.
    Expr(ModelExpr),
    /// A braced block.
    Block(Seq<ModelStmt>),
    /// A function declaration: name, parameters, unparsed body source.
    Function(Seq<char>, Seq<Seq<char>>, Seq<char>),
    /// `return e;`.
    Return(ModelExpr),
}

/// The model of an lvalue.
pub open spec fn lv_model(lv: Lvalue) -> ModelLv
    decreases lv,
{
    match lv {
        Lvalue::Ident(s) => ModelLv::Ident(s@),
        Lvalue::Member(s, rest) => ModelLv::Member(s@, Box::new(lv_model(*rest))),
    }
}

/// The model of an expression.
pub open spec fn expr_model(e: Expr) -> ModelExpr
    decreases e,
{
    match e {
        Expr::Literal(v) => ModelExpr::Literal(value_model(v)),
        Expr::Path(lv) => ModelExpr::Path(lv_model(lv)),
        Expr::Call(lv, args) => ModelExpr::Call(lv_model(lv), exprs_model(args@)),
        Expr::Ternary(c, t, f) => ModelExpr::Ternary(
            Box::new(expr_model(*c)),
            Box::new(expr_model(*t)),
            Box::new(expr_model(*f)),
        ),
        Expr::Assign(lv, rhs) => ModelExpr::Assign(lv_model(lv), Box::new(expr_model(*rhs))),
        Expr::Binary(op, l, r) => ModelExpr::Binary(
            op,
            Box::new(expr_model(*l)),
            Box::new(expr_model(*r)),
        ),
    }
}

/// The models of a list of expressions, in order.
pub open spec fn exprs_model(es: Seq<Expr>) -> Seq<ModelExpr>
    decreases es,
{
    if es.len() == 0 {
        Seq::empty()
    } else {
        exprs_model(es.drop_last()).push(expr_model(es.last()))
    }
}

/// The model of a statement.
pub open spec fn stmt_model(s: Stmt) -> ModelStmt
    decreases s,
{
    match s {
        Stmt::Expr(e) => ModelStmt::Expr(expr_model(e)),
        Stmt::Block(ss) => ModelStmt::Block(stmts_model(ss@)),
        Stmt::Function(name, params, body) => ModelStmt::Function(
            name@,
            params.deep_view(),
            body@,
        ),
        Stmt::Return(e) => ModelStmt::Return(expr_model(e)),
    }
}

/// The models of a list of statements, in order.
pub open spec fn stmts_model(ss: Seq<Stmt>) -> Seq<ModelStmt>
    decreases ss,
{
    if ss.len() == 0 {
        Seq::empty()
    } else {
        stmts_model(ss.drop_last()).push(stmt_model(ss.last()))
    }
}

impl View for Lvalue {
    type V = ModelLv;

    open spec fn view(&self) -> ModelLv {
        lv_model(*self)
    }
}

impl View for Expr {
    type V = ModelExpr;

    open spec fn view(&self) -> ModelExpr {
        expr_model(*self)
    }
}

impl View for Stmt {
    type V = ModelStmt;

    open spec fn view(&self) -> ModelStmt {
        stmt_model(*self)
    }
}

/// A structural size for expressions, the measure that evaluation recurses
/// down within one call frame.
pub open spec fn expr_size(e: ModelExpr) -> nat
    decreases e,
{
    match e {
        ModelExpr::Literal(_) => 1,
        ModelExpr::Path(_) => 1,
        ModelExpr::Call(_, args) => 1 + exprs_size(args),
        ModelExpr::Ternary(c, t, f) => 1 + expr_size(*c) + expr_size(*t) + expr_size(*f),
        ModelExpr::Assign(_, rhs) => 1 + expr_size(*rhs),
        ModelExpr::Binary(_, l, r) => 1 + expr_size(*l) + expr_size(*r),
    }
}

/// A structural size for expression lists.
pub open spec fn exprs_size(es: Seq<ModelExpr>) -> nat
    decreases es,
{
    if es.len() == 0 {
        1
    } else {
        1 + expr_size(es.first()) + exprs_size(es.drop_first())
    }
}

/// A structural size for statements.
pub open spec fn stmt_size(s: ModelStmt) -> nat
    decreases s,
{
    match s {
        ModelStmt::Expr(e) => 1 + expr_size(e),
        ModelStmt::Block(ss) => 1 + stmts_size(ss),
        ModelStmt::Function(_, _, _) => 1,
        ModelStmt::Return(e) => 1 + expr_size(e),
    }
}

/// A structural size for statement lists.
pub open spec fn stmts_size(ss: Seq<ModelStmt>) -> nat
    decreases ss,
{
    if ss.len() == 0 {
        1
    } else {
        1 + stmt_size(ss.first()) + stmts_size(ss.drop_first())
    }
}

/// Each expression of a list counts toward the list's size, and so does
/// every tail of the list.
pub proof fn lemma_exprs_size_parts(es: Seq<ModelExpr>, i: int)
    requires
        0 <= i < es.len(),
    ensures
        expr_size(es[i]) < exprs_size(es),
        exprs_size(es.skip(i)) <= exprs_size(es),
        exprs_size(es.skip(i + 1)) < exprs_size(es),
    decreases es.len(),
{
    if i == 0 {
        assert(es.skip(0) =~= es);
        assert(es.skip(1) =~= es.drop_first());
        assert(es.first() == es[0]);
    } else {
        lemma_exprs_size_parts(es.drop_first(), i - 1);
        assert(es.drop_first()[i - 1] == es[i]);
        assert(es.drop_first().skip(i - 1) =~= es.skip(i));
        assert(es.drop_first().skip(i) =~= es.skip(i + 1));
    }
}

/// Each statement of a list counts toward the list's size, and so does
/// every tail of the list.
pub proof fn lemma_stmts_size_parts(ss: Seq<ModelStmt>, i: int)
    requires
        0 <= i < ss.len(),
    ensures
        stmt_size(ss[i]) < stmts_size(ss),
        stmts_size(ss.skip(i)) <= stmts_size(ss),
        stmts_size(ss.skip(i + 1)) < stmts_size(ss),
    decreases ss.len(),
{
    if i == 0 {
        assert(ss.skip(0) =~= ss);
        assert(ss.skip(1) =~= ss.drop_first());
        assert(ss.first() == ss[0]);
    } else {
        lemma_stmts_size_parts(ss.drop_first(), i - 1);
        assert(ss.drop_first()[i - 1] == ss[i]);
        assert(ss.drop_first().skip(i - 1) =~= ss.skip(i));
        assert(ss.drop_first().skip(i) =~= ss.skip(i + 1));
    }
}

/// The model of a list of expressions, element by element.
pub proof fn lemma_exprs_model_index(es: Seq<Expr>, i: int)
    requires
        0 <= i < es.len(),
    ensures
        exprs_model(es).len() == es.len(),
        exprs_model(es)[i] == expr_model(es[i]),
    decreases es,
{
    lemma_exprs_model_len(es);
    if i < es.len() - 1 {
        lemma_exprs_model_index(es.drop_last(), i);
        assert(es.drop_last()[i] == es[i]);
    }
}

/// A list of expressions has as many models as elements.
pub proof fn lemma_exprs_model_len(es: Seq<Expr>)
    ensures
        exprs_model(es).len() == es.len(),
    decreases es,
{
    if es.len() > 0 {
        lemma_exprs_model_len(es.drop_last());
    }
}

/// The model of a list of statements, element by element.
pub proof fn lemma_stmts_model_index(ss: Seq<Stmt>, i: int)
    requires
        0 <= i < ss.len(),
    ensures
        stmts_model(ss).len() == ss.len(),
        stmts_model(ss)[i] == stmt_model(ss[i]),
    decreases ss,
{
    lemma_stmts_model_len(ss);
    if i < ss.len() - 1 {
        lemma_stmts_model_index(ss.drop_last(), i);
        assert(ss.drop_last()[i] == ss[i]);
    }
}

/// A list of statements has as many models as elements.
pub proof fn lemma_stmts_model_len(ss: Seq<Stmt>)
    ensures
        stmts_model(ss).len() == ss.len(),
    decreases ss,
{
    if ss.len() > 0 {
        lemma_stmts_model_len(ss.drop_last());
    }
}

} // verus!
