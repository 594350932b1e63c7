//! The general laws of the evaluator, each proved from the evaluation
//! relation: what arithmetic expressions are worth, that a ternary runs
//! only its selected branch, and that function bodies are isolated from
//! their caller's scope.

use vstd::prelude::*;

use crate::ast::BinOp;
use crate::ast::ModelExpr;
use crate::errors::ErrorKind;
use crate::model::env_lookup;
use crate::model::ModelEnv;
use crate::model::ModelValue;
use crate::semantics::eval_expr;
use crate::semantics::param_env;
use crate::semantics::param_frame;
use crate::semantics::valid_expr;
use crate::semantics::Deriv;
use crate::value::number_max;
use crate::value::number_min;

verus! {

/// The exact mathematical result of an arithmetic operator.
pub open spec fn exact_arith(op: BinOp, a: int, b: int) -> int {
    match op {
        BinOp::Add => a + b,
        BinOp::Sub => a - b,
        BinOp::Mul => a * b,
        _ => 0,
    }
}

/// For all Numbers `a` and `b` whose exact sum, difference or product fits
/// the fixed width, an arithmetic expression on their literals can only
/// evaluate to exactly that result, and leaves the environment untouched.
pub proof fn lemma_arithmetic_is_exact(
    fuel: nat,
    env: ModelEnv,
    env2: ModelEnv,
    op: BinOp,
    a: int,
    b: int,
    out: Result<ModelValue, ErrorKind>,
)
    requires
        op == BinOp::Add || op == BinOp::Sub || op == BinOp::Mul,
        number_min() <= a <= number_max(),
        number_min() <= b <= number_max(),
        number_min() <= exact_arith(op, a, b) <= number_max(),
        eval_expr(
            fuel,
            env,
            ModelExpr::Binary(
                op,
                Box::new(ModelExpr::Literal(ModelValue::Number(a))),
                Box::new(ModelExpr::Literal(ModelValue::Number(b))),
            ),
            out,
            env2,
        ),
    ensures
        out == Ok::<ModelValue, ErrorKind>(ModelValue::Number(exact_arith(op, a, b))),
        env2 == env,
{
    let e = ModelExpr::Binary(
        op,
        Box::new(ModelExpr::Literal(ModelValue::Number(a))),
        Box::new(ModelExpr::Literal(ModelValue::Number(b))),
    );
    let d = choose|d: Deriv| valid_expr(d, fuel, env, e, out, env2);
    if let Deriv::DBinary { lout, envl, dl, rout, envr, dr } = d {
        assert(valid_expr(*dl, fuel, env, ModelExpr::Literal(ModelValue::Number(a)), lout, envl));
        assert(lout == Ok::<ModelValue, ErrorKind>(ModelValue::Number(a)) && envl == env);
        assert(valid_expr(*dr, fuel, envl, ModelExpr::Literal(ModelValue::Number(b)), rout, envr));
        assert(rout == Ok::<ModelValue, ErrorKind>(ModelValue::Number(b)) && envr == env);
        if op == BinOp::Mul {
            assert(number_min() <= a * b <= number_max());
            if a * b >= 0 {
                assert((a * b) % 0x1_0000_0000 == a * b);
            } else {
                assert((a * b) % 0x1_0000_0000 == a * b + 0x1_0000_0000);
            }
        }
    } else {
        assert(false);
    }
}

/// For all Numbers `a` and `b` whose exact result fits the fixed width,
/// running a source text that parses as the arithmetic expression on their
/// literals can only produce exactly that result, whatever scope it runs
/// against, and the scope is left untouched.
pub proof fn lemma_run_expression_arithmetic(
    fuel: nat,
    env: ModelEnv,
    env2: ModelEnv,
    code: Seq<char>,
    op: BinOp,
    a: int,
    b: int,
    out: Result<ModelValue, ErrorKind>,
)
    requires
        op == BinOp::Add || op == BinOp::Sub || op == BinOp::Mul,
        number_min() <= a <= number_max(),
        number_min() <= b <= number_max(),
        number_min() <= exact_arith(op, a, b) <= number_max(),
        crate::parse::spec_parse_expression(code) == Some(
            ModelExpr::Binary(
                op,
                Box::new(ModelExpr::Literal(ModelValue::Number(a))),
                Box::new(ModelExpr::Literal(ModelValue::Number(b))),
            ),
        ),
        crate::semantics::run_expression_rel(fuel, env, code, out, env2),
    ensures
        out == Ok::<ModelValue, ErrorKind>(ModelValue::Number(exact_arith(op, a, b))),
        env2 == env,
{
    lemma_arithmetic_is_exact(fuel, env, env2, op, a, b, out);
}

/// Only the selected branch of a ternary runs. Where the condition can come
/// out only one way (value `flag`, environment `cenv`), every admissible
/// outcome of the whole ternary is an admissible outcome of the selected
/// branch alone, starting from the condition's environment: the other
/// branch contributes nothing, neither value nor side effects.
pub proof fn lemma_ternary_short_circuit(
    fuel: nat,
    env: ModelEnv,
    env2: ModelEnv,
    c: ModelExpr,
    t: ModelExpr,
    f: ModelExpr,
    out: Result<ModelValue, ErrorKind>,
    cenv: ModelEnv,
    flag: bool,
)
    requires
        eval_expr(
            fuel,
            env,
            ModelExpr::Ternary(Box::new(c), Box::new(t), Box::new(f)),
            out,
            env2,
        ),
        forall|co: Result<ModelValue, ErrorKind>, ec: ModelEnv|
            #[trigger] eval_expr(fuel, env, c, co, ec) ==> co == Ok::<ModelValue, ErrorKind>(
                ModelValue::Boolean(flag),
            ) && ec == cenv,
    ensures
        flag ==> eval_expr(fuel, cenv, t, out, env2),
        !flag ==> eval_expr(fuel, cenv, f, out, env2),
{
    let e = ModelExpr::Ternary(Box::new(c), Box::new(t), Box::new(f));
    let d = choose|d: Deriv| valid_expr(d, fuel, env, e, out, env2);
    if let Deriv::DTernary { cout, envc, dcond, dbranch } = d {
        assert(valid_expr(*dcond, fuel, env, c, cout, envc));
        assert(eval_expr(fuel, env, c, cout, envc));
        assert(cout == Ok::<ModelValue, ErrorKind>(ModelValue::Boolean(flag)) && envc == cenv);
        if flag {
            assert(valid_expr(*dbranch, fuel, cenv, t, out, env2));
        } else {
            assert(valid_expr(*dbranch, fuel, cenv, f, out, env2));
        }
    } else {
        assert(false);
    }
}

/// The isolated frame of a function call binds nothing but the parameters.
pub proof fn lemma_param_frame_domain(params: Seq<Seq<char>>, args: Seq<ModelValue>, id: Seq<char>)
    requires
        !params.contains(id),
    ensures
        !param_frame(params, args).contains_key(id),
    decreases params,
{
    if params.len() > 0 && args.len() > 0 {
        assert(params.last() != id);
        assert(!params.drop_last().contains(id)) by {
            if params.drop_last().contains(id) {
                let j = choose|j: int|
                    0 <= j < params.drop_last().len() && params.drop_last()[j] == id;
                assert(params[j] == id);
            }
        }
        lemma_param_frame_domain(params.drop_last(), args.drop_last(), id);
    }
}

/// Function isolation: the environment a function body runs against (built
/// by the call protocol from exactly the declared parameters and the passed
/// arguments) does not bind any other name, whatever the caller's scope
/// held. Reading such a name inside the body can therefore only fail with a
/// reference error.
pub proof fn lemma_function_isolation(
    params: Seq<Seq<char>>,
    args: Seq<ModelValue>,
    id: Seq<char>,
)
    requires
        !params.contains(id),
    ensures
        env_lookup(param_env(params, args), id) is None,
{
    lemma_param_frame_domain(params, args, id);
    let e = param_env(params, args);
    assert(e.last() == param_frame(params, args));
    assert(e.drop_last() =~= Seq::<Map<Seq<char>, crate::model::ModelBinding>>::empty());
    assert(env_lookup(e.drop_last(), id) is None);
}

/// Is `e` free of subroutine calls? Only a call can reach a host, and only
/// a host can behave nondeterministically.
pub open spec fn call_free(e: ModelExpr) -> bool
    decreases e,
{
    match e {
        ModelExpr::Literal(_) => true,
        ModelExpr::Path(_) => true,
        ModelExpr::Call(_, _) => false,
        ModelExpr::Ternary(c, t, f) => call_free(*c) && call_free(*t) && call_free(*f),
        ModelExpr::Assign(_, rhs) => call_free(*rhs),
        ModelExpr::Binary(_, l, r) => call_free(*l) && call_free(*r),
    }
}

/// The evaluator is deterministic away from hosts: a call-free expression
/// admits exactly one outcome and one final environment, whatever
/// derivations record it.
pub proof fn lemma_call_free_deterministic(
    d1: Deriv,
    d2: Deriv,
    fuel: nat,
    env: ModelEnv,
    e: ModelExpr,
    o1: Result<ModelValue, ErrorKind>,
    e1: ModelEnv,
    o2: Result<ModelValue, ErrorKind>,
    e2: ModelEnv,
)
    requires
        call_free(e),
        valid_expr(d1, fuel, env, e, o1, e1),
        valid_expr(d2, fuel, env, e, o2, e2),
    ensures
        o1 == o2,
        e1 == e2,
    decreases e,
{
    match e {
        ModelExpr::Literal(_) => {},
        ModelExpr::Path(_) => {},
        ModelExpr::Call(_, _) => {},
        ModelExpr::Ternary(c, t, f) => {
            if let Deriv::DTernary { cout: c1, envc: ec1, dcond: dc1, dbranch: db1 } = d1 {
                if let Deriv::DTernary { cout: c2, envc: ec2, dcond: dc2, dbranch: db2 } = d2 {
                    assert(valid_expr(*dc1, fuel, env, *c, c1, ec1));
                    assert(valid_expr(*dc2, fuel, env, *c, c2, ec2));
                    lemma_call_free_deterministic(*dc1, *dc2, fuel, env, *c, c1, ec1, c2, ec2);
                    if let Ok(cv) = c1 {
                        if let ModelValue::Boolean(bv) = cv {
                            if bv {
                                assert(valid_expr(*db1, fuel, ec1, *t, o1, e1));
                                assert(valid_expr(*db2, fuel, ec2, *t, o2, e2));
                                lemma_call_free_deterministic(
                                    *db1,
                                    *db2,
                                    fuel,
                                    ec1,
                                    *t,
                                    o1,
                                    e1,
                                    o2,
                                    e2,
                                );
                            } else {
                                assert(valid_expr(*db1, fuel, ec1, *f, o1, e1));
                                assert(valid_expr(*db2, fuel, ec2, *f, o2, e2));
                                lemma_call_free_deterministic(
                                    *db1,
                                    *db2,
                                    fuel,
                                    ec1,
                                    *f,
                                    o1,
                                    e1,
                                    o2,
                                    e2,
                                );
                            }
                        }
                    }
                } else {
                    assert(false);
                }
            } else {
                assert(false);
            }
        },
        ModelExpr::Assign(lv, rhs) => {
            if let Deriv::DAssign { rout: r1, envr: er1, drhs: dr1 } = d1 {
                if let Deriv::DAssign { rout: r2, envr: er2, drhs: dr2 } = d2 {
                    assert(valid_expr(*dr1, fuel, env, *rhs, r1, er1));
                    assert(valid_expr(*dr2, fuel, env, *rhs, r2, er2));
                    lemma_call_free_deterministic(*dr1, *dr2, fuel, env, *rhs, r1, er1, r2, er2);
                } else {
                    assert(false);
                }
            } else {
                assert(false);
            }
        },
        ModelExpr::Binary(op, l, r) => {
            if let Deriv::DBinary { lout: l1, envl: el1, dl: dl1, rout: r1, envr: er1, dr: dr1 }
                = d1 {
                if let Deriv::DBinary {
                    lout: l2,
                    envl: el2,
                    dl: dl2,
                    rout: r2,
                    envr: er2,
                    dr: dr2,
                } = d2 {
                    assert(valid_expr(*dl1, fuel, env, *l, l1, el1));
                    assert(valid_expr(*dl2, fuel, env, *l, l2, el2));
                    lemma_call_free_deterministic(*dl1, *dl2, fuel, env, *l, l1, el1, l2, el2);
                    if l1 is Ok {
                        assert(valid_expr(*dr1, fuel, el1, *r, r1, er1));
                        assert(valid_expr(*dr2, fuel, el2, *r, r2, er2));
                        lemma_call_free_deterministic(*dr1, *dr2, fuel, el1, *r, r1, er1, r2, er2);
                    }
                } else {
                    assert(false);
                }
            } else {
                assert(false);
            }
        },
    }
}

} // verus!
