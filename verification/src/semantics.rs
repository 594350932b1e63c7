//! The mathematical semantics of the language: a big-step evaluation
//! relation over the models of values, environments and syntax trees. The
//! interpreter in [`crate::state`] is proved to produce only outcomes that
//! this relation admits.
//!
//! The relation is deterministic everywhere except at native subroutine
//! calls: what a host does is its own business, so there the relation
//! accepts every outcome, and anything proved of an evaluation holds
//! whatever the host returned.

use vstd::prelude::*;

use crate::ast::expr_size;
use crate::ast::exprs_size;
use crate::ast::stmt_size;
use crate::ast::stmts_size;
use crate::ast::BinOp;
use crate::ast::ModelExpr;
use crate::ast::ModelLv;
use crate::ast::ModelStmt;
use crate::errors::ErrorKind;
use crate::model::binding_set;
use crate::model::env_has_on_top;
use crate::model::env_lookup;
use crate::model::env_set_top;
use crate::model::env_update;
use crate::model::ModelBinding;
use crate::model::ModelCallback;
use crate::model::ModelEnv;
use crate::model::ModelSub;
use crate::model::ModelValue;
use crate::parse::spec_parse_expression;
use crate::parse::spec_parse_script;
use crate::value::compare_model;
use crate::value::wrap_add;
use crate::value::wrap_mul;
use crate::value::wrap_sub;

verus! {

/// How many nested subroutine calls one entry into the interpreter may
/// make. A run that needs more reports an exception instead of exhausting
/// the host stack.
pub open spec fn call_depth_limit() -> nat {
    64
}

/// Resolve an lvalue to the binding it denotes, for reading: an identifier
/// resolves in the environment, and a member access resolves its head to an
/// object and continues inside it. Fails with a reference error on an
/// unbound name and a type error when a member's head is not an object.
pub open spec fn lv_lookup(env: ModelEnv, lv: ModelLv) -> Result<ModelBinding, ErrorKind>
    decreases lv,
{
    match lv {
        ModelLv::Ident(id) => match env_lookup(env, id) {
            Some(b) => Ok(b),
            None => Err(ErrorKind::Reference),
        },
        ModelLv::Member(id, rest) => match env_lookup(env, id) {
            None => Err(ErrorKind::Reference),
            Some(b) => match b.value {
                ModelValue::Object(obj) => lv_lookup(obj, *rest),
                _ => Err(ErrorKind::Type),
            },
        },
    }
}

/// Store `v` into the binding an lvalue denotes. The leaf binding is
/// updated under the usual rules (same tag, mutable); every object on the
/// way is re-wrapped around its updated inner environment. Only the leaf
/// binding's mutability matters: stepping inside an object is raw access.
pub open spec fn lv_assign(env: ModelEnv, lv: ModelLv, v: ModelValue) -> Result<
    ModelEnv,
    ErrorKind,
>
    decreases lv,
{
    match lv {
        ModelLv::Ident(id) => match env_lookup(env, id) {
            None => Err(ErrorKind::Reference),
            Some(b) => match binding_set(b, v) {
                Err(k) => Err(k),
                Ok(nb) => Ok(env_update(env, id, nb)),
            },
        },
        ModelLv::Member(id, rest) => match env_lookup(env, id) {
            None => Err(ErrorKind::Reference),
            Some(b) => match b.value {
                ModelValue::Object(obj) => match lv_assign(obj, *rest, v) {
                    Err(k) => Err(k),
                    Ok(obj2) => Ok(
                        env_update(
                            env,
                            id,
                            ModelBinding { mutable: b.mutable, value: ModelValue::Object(obj2) },
                        ),
                    ),
                },
                _ => Err(ErrorKind::Type),
            },
        },
    }
}

/// What one binary operator yields on two values: `==`/`===` follow
/// [`compare_model`], and the arithmetic operators act on Numbers with
/// wraparound, rejecting anything else with a type error.
pub open spec fn apply_binop(op: BinOp, a: ModelValue, b: ModelValue) -> Result<
    ModelValue,
    ErrorKind,
> {
    match op {
        BinOp::Eq => compare_model(a, b, false),
        BinOp::EqAnyType => compare_model(a, b, true),
        BinOp::Add => match (a, b) {
            (ModelValue::Number(x), ModelValue::Number(y)) => Ok(ModelValue::Number(wrap_add(x, y))),
            _ => Err(ErrorKind::Type),
        },
        BinOp::Sub => match (a, b) {
            (ModelValue::Number(x), ModelValue::Number(y)) => Ok(ModelValue::Number(wrap_sub(x, y))),
            _ => Err(ErrorKind::Type),
        },
        BinOp::Mul => match (a, b) {
            (ModelValue::Number(x), ModelValue::Number(y)) => Ok(ModelValue::Number(wrap_mul(x, y))),
            _ => Err(ErrorKind::Type),
        },
    }
}

/// The isolated frame a function body runs against: exactly the declared
/// parameters, bound as constants to the argument values, a later duplicate
/// parameter shadowing an earlier one.
pub open spec fn param_frame(params: Seq<Seq<char>>, args: Seq<ModelValue>) -> Map<
    Seq<char>,
    ModelBinding,
>
    decreases params,
{
    if params.len() == 0 || args.len() == 0 {
        Map::empty()
    } else {
        param_frame(params.drop_last(), args.drop_last()).insert(
            params.last(),
            ModelBinding { mutable: false, value: args.last() },
        )
    }
}

/// The isolated environment a function body runs against.
pub open spec fn param_env(params: Seq<Seq<char>>, args: Seq<ModelValue>) -> ModelEnv {
    seq![param_frame(params, args)]
}

/// The size measure of running a script text: everything its parsed
/// statements weigh, plus one for the parse itself.
pub open spec fn script_measure(text: Seq<char>) -> nat {
    match spec_parse_script(text) {
        Some(ss) => stmts_size(ss) + 1,
        None => 1,
    }
}

/// A successful assignment never changes how many frames the environment
/// has: it only replaces a binding somewhere inside.
pub proof fn lemma_lv_assign_len(env: ModelEnv, lv: ModelLv, v: ModelValue)
    ensures
        lv_assign(env, lv, v) matches Ok(env2) ==> env2.len() == env.len(),
    decreases lv,
{
    match lv {
        ModelLv::Ident(id) => {
            if lv_assign(env, lv, v) is Ok {
                let b = env_lookup(env, id).unwrap();
                let nb = binding_set(b, v).unwrap();
                crate::model::lemma_env_update_shape(env, id, nb);
            }
        },
        ModelLv::Member(id, rest) => {
            if lv_assign(env, lv, v) is Ok {
                let b = env_lookup(env, id).unwrap();
                let obj = b.value->Object_0;
                lemma_lv_assign_len(obj, *rest, v);
                let obj2 = lv_assign(obj, *rest, v).unwrap();
                crate::model::lemma_env_update_shape(
                    env,
                    id,
                    ModelBinding { mutable: b.mutable, value: ModelValue::Object(obj2) },
                );
            }
        },
    }
}

/// A derivation: the tree of intermediate outcomes that witnesses one
/// evaluation. The executable interpreter builds one (as ghost data) for
/// every run; the relations below say when such a tree is a correct record
/// of an evaluation.
pub enum Deriv {
    /// No sub-evaluation happened (literals, lookups, resolution errors,
    /// function declarations, empty lists, native calls).
    Triv,
    /// A call: the argument list's outcome and environment with its
    /// derivation, then the call protocol's derivation.
    DCall {
        /// Outcome of evaluating the argument list.
        aout: Result<Seq<ModelValue>, ErrorKind>,
        /// Environment after the argument list.
        envm: ModelEnv,
        /// Derivation of the argument list.
        dargs: Box<Deriv>,
        /// Derivation of the call protocol.
        dcall: Box<Deriv>,
    },
    /// An interpreted call's body run: the body's final (discarded)
    /// environment and the run's derivation.
    DCallRun {
        /// The isolated environment as the body left it.
        envf: ModelEnv,
        /// Derivation of the body's script run.
        dbody: Box<Deriv>,
    },
    /// A ternary: the condition's outcome and environment with its
    /// derivation, then the selected branch's derivation.
    DTernary {
        /// Outcome of the condition.
        cout: Result<ModelValue, ErrorKind>,
        /// Environment after the condition.
        envc: ModelEnv,
        /// Derivation of the condition.
        dcond: Box<Deriv>,
        /// Derivation of the selected branch.
        dbranch: Box<Deriv>,
    },
    /// An assignment: the right side's outcome and environment with its
    /// derivation.
    DAssign {
        /// Outcome of the right side.
        rout: Result<ModelValue, ErrorKind>,
        /// Environment after the right side.
        envr: ModelEnv,
        /// Derivation of the right side.
        drhs: Box<Deriv>,
    },
    /// A binary node: both operands' outcomes and environments with their
    /// derivations.
    DBinary {
        /// Outcome of the left operand.
        lout: Result<ModelValue, ErrorKind>,
        /// Environment after the left operand.
        envl: ModelEnv,
        /// Derivation of the left operand.
        dl: Box<Deriv>,
        /// Outcome of the right operand.
        rout: Result<ModelValue, ErrorKind>,
        /// Environment after the right operand.
        envr: ModelEnv,
        /// Derivation of the right operand.
        dr: Box<Deriv>,
    },
    /// A non-empty expression list: the head's outcome and environment with
    /// its derivation, then the tail's.
    DExprs {
        /// Outcome of the first expression.
        hout: Result<ModelValue, ErrorKind>,
        /// Environment after the first expression.
        envh: ModelEnv,
        /// Derivation of the first expression.
        dh: Box<Deriv>,
        /// Derivation of the remaining expressions.
        dt: Box<Deriv>,
    },
    /// A block statement: the derivation of its statement list.
    DBlock {
        /// Derivation of the block's statements.
        dbody: Box<Deriv>,
    },
    /// A script run: the statement list's outcome and its derivation.
    DScript {
        /// Outcome of the statement list (value and return flag).
        sout: Result<(ModelValue, bool), ErrorKind>,
        /// Derivation of the statement list.
        dstmts: Box<Deriv>,
    },
    /// An expression or return statement: the expression's outcome and its
    /// derivation.
    DStmtExpr {
        /// Outcome of the statement's expression.
        eout: Result<ModelValue, ErrorKind>,
        /// Derivation of the statement's expression.
        de: Box<Deriv>,
    },
    /// A non-empty statement list: the head's outcome and environment with
    /// its derivation, then the tail's.
    DStmts {
        /// Outcome of the first statement.
        hout: Result<(ModelValue, bool), ErrorKind>,
        /// Environment after the first statement.
        envh: ModelEnv,
        /// Derivation of the first statement.
        dh: Box<Deriv>,
        /// Derivation of the remaining statements.
        dt: Box<Deriv>,
    },
}

/// Does `d` record an evaluation of expression `e` in environment `env`
/// ending with outcome `out` and environment `env2`? `fuel` bounds nested
/// subroutine calls.
pub open spec fn valid_expr(
    d: Deriv,
    fuel: nat,
    env: ModelEnv,
    e: ModelExpr,
    out: Result<ModelValue, ErrorKind>,
    env2: ModelEnv,
) -> bool
    decreases d,
{
    match e {
        ModelExpr::Literal(v) => out == Ok::<ModelValue, ErrorKind>(v) && env2 == env,
        ModelExpr::Path(lv) => env2 == env && (match lv_lookup(env, lv) {
            Ok(b) => out == Ok::<ModelValue, ErrorKind>(b.value),
            Err(k) => out == Err::<ModelValue, ErrorKind>(k),
        }),
        ModelExpr::Call(lv, args) => match lv_lookup(env, lv) {
            Err(k) => out == Err::<ModelValue, ErrorKind>(k) && env2 == env,
            Ok(b) => match b.value {
                ModelValue::Subroutine(sub) => d matches Deriv::DCall { aout, envm, dargs, dcall }
                    && valid_exprs(*dargs, fuel, env, args, aout, envm) && (match aout {
                    Err(k) => out == Err::<ModelValue, ErrorKind>(k) && env2 == envm,
                    Ok(vals) => env2 == envm && valid_call(*dcall, fuel, sub, vals, out),
                }),
                _ => out == Err::<ModelValue, ErrorKind>(ErrorKind::Type) && env2 == env,
            },
        },
        ModelExpr::Ternary(c, tb, fb) => d matches Deriv::DTernary { cout, envc, dcond, dbranch }
            && valid_expr(*dcond, fuel, env, *c, cout, envc) && (match cout {
            Err(k) => out == Err::<ModelValue, ErrorKind>(k) && env2 == envc,
            Ok(cv) => match cv {
                ModelValue::Boolean(bv) => if bv {
                    valid_expr(*dbranch, fuel, envc, *tb, out, env2)
                } else {
                    valid_expr(*dbranch, fuel, envc, *fb, out, env2)
                },
                _ => out == Err::<ModelValue, ErrorKind>(ErrorKind::Type) && env2 == envc,
            },
        }),
        ModelExpr::Assign(lv, rhs) => d matches Deriv::DAssign { rout, envr, drhs } && valid_expr(
            *drhs,
            fuel,
            env,
            *rhs,
            rout,
            envr,
        ) && (match rout {
            Err(k) => out == Err::<ModelValue, ErrorKind>(k) && env2 == envr,
            Ok(v) => match lv_assign(envr, lv, v) {
                Ok(enva) => out == Ok::<ModelValue, ErrorKind>(ModelValue::Null) && env2 == enva,
                Err(k) => out == Err::<ModelValue, ErrorKind>(k) && env2 == envr,
            },
        }),
        ModelExpr::Binary(op, l, r) => d matches Deriv::DBinary { lout, envl, dl, rout, envr, dr }
            && valid_expr(*dl, fuel, env, *l, lout, envl) && (match lout {
            Err(k) => out == Err::<ModelValue, ErrorKind>(k) && env2 == envl,
            Ok(lval) => valid_expr(*dr, fuel, envl, *r, rout, envr) && (match rout {
                Err(k) => out == Err::<ModelValue, ErrorKind>(k) && env2 == envr,
                Ok(rval) => env2 == envr && out == apply_binop(op, lval, rval),
            }),
        }),
    }
}

/// Does `d` record an evaluation of the expressions `es`, left to right and
/// threading the environment, ending with outcome `out` and environment
/// `env2`?
pub open spec fn valid_exprs(
    d: Deriv,
    fuel: nat,
    env: ModelEnv,
    es: Seq<ModelExpr>,
    out: Result<Seq<ModelValue>, ErrorKind>,
    env2: ModelEnv,
) -> bool
    decreases d,
{
    if es.len() == 0 {
        out == Ok::<Seq<ModelValue>, ErrorKind>(Seq::empty()) && env2 == env
    } else {
        d matches Deriv::DExprs { hout, envh, dh, dt } && valid_expr(
            *dh,
            fuel,
            env,
            es.first(),
            hout,
            envh,
        ) && (match hout {
            Err(k) => out == Err::<Seq<ModelValue>, ErrorKind>(k) && env2 == envh,
            Ok(v) => match out {
                Err(k) => valid_exprs(*dt, fuel, envh, es.drop_first(), Err(k), env2),
                Ok(vs) => vs.len() >= 1 && vs.first() == v && valid_exprs(
                    *dt,
                    fuel,
                    envh,
                    es.drop_first(),
                    Ok(vs.drop_first()),
                    env2,
                ),
            },
        })
    }
}

/// Does `d` record a call of subroutine `sub` on the already evaluated
/// arguments `args`, ending with outcome `out`? A fixed arity that does not
/// match the argument count is rejected first. Of a native callback nothing
/// is promised: the host may produce any outcome. An interpreted callback
/// parses its stored body and runs it as a script against an isolated
/// environment holding exactly the parameters; one unit of call depth is
/// spent, and exhausting the budget reports an exception.
pub open spec fn valid_call(
    d: Deriv,
    fuel: nat,
    sub: ModelSub,
    args: Seq<ModelValue>,
    out: Result<ModelValue, ErrorKind>,
) -> bool
    decreases d,
{
    if sub.arity matches Some(n) && args.len() != n {
        out == Err::<ModelValue, ErrorKind>(ErrorKind::InvalidArguments)
    } else {
        match sub.callback {
            ModelCallback::Native(_) => true,
            ModelCallback::Interpreted { params, body } => {
                if args.len() != params.len() {
                    out == Err::<ModelValue, ErrorKind>(ErrorKind::InvalidArguments)
                } else if fuel == 0 {
                    out == Err::<ModelValue, ErrorKind>(ErrorKind::Exception)
                } else {
                    d matches Deriv::DCallRun { envf, dbody } && valid_script(
                        *dbody,
                        (fuel - 1) as nat,
                        param_env(params, args),
                        body,
                        out,
                        envf,
                    )
                }
            },
        }
    }
}

/// Does `d` record a run of the text `text` as a script in environment
/// `env`, ending with outcome `out` and environment `env2`? Malformed text
/// is a parse error; otherwise the statements run in order and the script's
/// value is the value of its last statement, or of the first `return`
/// reached.
pub open spec fn valid_script(
    d: Deriv,
    fuel: nat,
    env: ModelEnv,
    text: Seq<char>,
    out: Result<ModelValue, ErrorKind>,
    env2: ModelEnv,
) -> bool
    decreases d,
{
    match spec_parse_script(text) {
        None => out == Err::<ModelValue, ErrorKind>(ErrorKind::Parse) && env2 == env,
        Some(ss) => d matches Deriv::DScript { sout, dstmts } && valid_stmts(
            *dstmts,
            fuel,
            env,
            ss,
            sout,
            env2,
        ) && (match sout {
            Err(k) => out == Err::<ModelValue, ErrorKind>(k),
            Ok(p) => out == Ok::<ModelValue, ErrorKind>(p.0),
        }),
    }
}

/// Does `d` record an execution of statement `st`, ending with outcome
/// `out` and environment `env2`? A statement's outcome carries the
/// statement's value and whether it was a `return`, which ends the
/// enclosing script run.
pub open spec fn valid_stmt(
    d: Deriv,
    fuel: nat,
    env: ModelEnv,
    st: ModelStmt,
    out: Result<(ModelValue, bool), ErrorKind>,
    env2: ModelEnv,
) -> bool
    decreases d,
{
    match st {
        ModelStmt::Expr(e) => d matches Deriv::DStmtExpr { eout, de } && valid_expr(
            *de,
            fuel,
            env,
            e,
            eout,
            env2,
        ) && (match eout {
            Err(k) => out == Err::<(ModelValue, bool), ErrorKind>(k),
            Ok(_) => out == Ok::<(ModelValue, bool), ErrorKind>((ModelValue::Null, false)),
        }),
        ModelStmt::Block(ss) => d matches Deriv::DBlock { dbody } && valid_stmts(
            *dbody,
            fuel,
            env,
            ss,
            out,
            env2,
        ),
        ModelStmt::Function(name, params, body) => {
            if env_has_on_top(env, name) {
                out == Err::<(ModelValue, bool), ErrorKind>(ErrorKind::DoubleDefinition) && env2
                    == env
            } else {
                &&& out == Ok::<(ModelValue, bool), ErrorKind>((ModelValue::Null, false))
                &&& env2 == env_set_top(
                    env,
                    name,
                    ModelBinding {
                        mutable: false,
                        value: ModelValue::Subroutine(
                            ModelSub {
                                arity: Some(params.len()),
                                callback: ModelCallback::Interpreted { params, body },
                            },
                        ),
                    },
                )
            }
        },
        ModelStmt::Return(e) => d matches Deriv::DStmtExpr { eout, de } && valid_expr(
            *de,
            fuel,
            env,
            e,
            eout,
            env2,
        ) && (match eout {
            Err(k) => out == Err::<(ModelValue, bool), ErrorKind>(k),
            Ok(v) => out == Ok::<(ModelValue, bool), ErrorKind>((v, true)),
        }),
    }
}

/// Does `d` record an execution of the statements `ss` in order, ending
/// with outcome `out` and environment `env2`? Execution stops at the first
/// error or `return`; the value of the list is the value of its last
/// statement, Null if empty.
pub open spec fn valid_stmts(
    d: Deriv,
    fuel: nat,
    env: ModelEnv,
    ss: Seq<ModelStmt>,
    out: Result<(ModelValue, bool), ErrorKind>,
    env2: ModelEnv,
) -> bool
    decreases d,
{
    if ss.len() == 0 {
        out == Ok::<(ModelValue, bool), ErrorKind>((ModelValue::Null, false)) && env2 == env
    } else {
        d matches Deriv::DStmts { hout, envh, dh, dt } && valid_stmt(
            *dh,
            fuel,
            env,
            ss.first(),
            hout,
            envh,
        ) && (match hout {
            Err(k) => out == Err::<(ModelValue, bool), ErrorKind>(k) && env2 == envh,
            Ok(p) => {
                if p.1 {
                    out == Ok::<(ModelValue, bool), ErrorKind>((p.0, true)) && env2 == envh
                } else if ss.len() == 1 {
                    out == Ok::<(ModelValue, bool), ErrorKind>((p.0, false)) && env2 == envh
                } else {
                    valid_stmts(*dt, fuel, envh, ss.drop_first(), out, env2)
                }
            },
        })
    }
}

/// May evaluating expression `e` in environment `env` end with outcome
/// `out` and environment `env2`? True exactly when some derivation records
/// it.
pub open spec fn eval_expr(
    fuel: nat,
    env: ModelEnv,
    e: ModelExpr,
    out: Result<ModelValue, ErrorKind>,
    env2: ModelEnv,
) -> bool {
    exists|d: Deriv| #[trigger] valid_expr(d, fuel, env, e, out, env2)
}

/// May evaluating the expressions `es` end with outcome `out` and
/// environment `env2`?
pub open spec fn eval_exprs(
    fuel: nat,
    env: ModelEnv,
    es: Seq<ModelExpr>,
    out: Result<Seq<ModelValue>, ErrorKind>,
    env2: ModelEnv,
) -> bool {
    exists|d: Deriv| #[trigger] valid_exprs(d, fuel, env, es, out, env2)
}

/// May calling subroutine `sub` on arguments `args` end with outcome `out`?
pub open spec fn eval_call(
    fuel: nat,
    sub: ModelSub,
    args: Seq<ModelValue>,
    out: Result<ModelValue, ErrorKind>,
) -> bool {
    exists|d: Deriv| #[trigger] valid_call(d, fuel, sub, args, out)
}

/// May running `text` as a script in environment `env` end with outcome
/// `out` and environment `env2`?
pub open spec fn run_script_rel(
    fuel: nat,
    env: ModelEnv,
    text: Seq<char>,
    out: Result<ModelValue, ErrorKind>,
    env2: ModelEnv,
) -> bool {
    exists|d: Deriv| #[trigger] valid_script(d, fuel, env, text, out, env2)
}

/// May executing statement `st` end with outcome `out` and environment
/// `env2`?
pub open spec fn eval_stmt(
    fuel: nat,
    env: ModelEnv,
    st: ModelStmt,
    out: Result<(ModelValue, bool), ErrorKind>,
    env2: ModelEnv,
) -> bool {
    exists|d: Deriv| #[trigger] valid_stmt(d, fuel, env, st, out, env2)
}

/// May executing the statements `ss` end with outcome `out` and
/// environment `env2`?
pub open spec fn eval_stmts(
    fuel: nat,
    env: ModelEnv,
    ss: Seq<ModelStmt>,
    out: Result<(ModelValue, bool), ErrorKind>,
    env2: ModelEnv,
) -> bool {
    exists|d: Deriv| #[trigger] valid_stmts(d, fuel, env, ss, out, env2)
}

/// May evaluating the text `code` as one expression in environment `env`
/// end with outcome `out` and environment `env2`? Malformed text is a
/// parse error.
pub open spec fn run_expression_rel(
    fuel: nat,
    env: ModelEnv,
    code: Seq<char>,
    out: Result<ModelValue, ErrorKind>,
    env2: ModelEnv,
) -> bool {
    match spec_parse_expression(code) {
        None => out == Err::<ModelValue, ErrorKind>(ErrorKind::Parse) && env2 == env,
        Some(e) => eval_expr(fuel, env, e, out, env2),
    }
}

} // verus!
