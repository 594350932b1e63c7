//! The interpreter: entry points for hosts, lvalue resolution, and the
//! tree-walking evaluator, each proved to satisfy the evaluation relation
//! of [`crate::semantics`].

use vstd::prelude::*;
use vstd::string::StringExecFns;

use crate::ast::exprs_model;
use crate::ast::expr_size;
use crate::ast::exprs_size;
use crate::ast::lemma_exprs_model_index;
use crate::ast::lemma_exprs_model_len;
use crate::ast::lemma_exprs_size_parts;
use crate::ast::lemma_stmts_model_index;
use crate::ast::lemma_stmts_model_len;
use crate::ast::lemma_stmts_size_parts;
use crate::ast::stmt_size;
use crate::ast::stmts_model;
use crate::ast::stmts_size;
use crate::ast::BinOp;
use crate::ast::Expr;
use crate::ast::Lvalue;
use crate::ast::Stmt;
use crate::binding::Binding;
use crate::binding::BindingMap;
use crate::errors::ErrorKind;
use crate::errors::JabroniError;
use crate::errors::JabroniResult;
use crate::model::env_has_on_top;
use crate::model::env_lookup;
use crate::model::env_set_top;
use crate::model::env_update;
use crate::model::binding_set;
use crate::model::lemma_env_lookup_has;
use crate::model::lemma_env_update_same;
use crate::model::ModelBinding;
use crate::model::ModelEnv;
use crate::model::ModelValue;
use crate::semantics::call_depth_limit;
use crate::semantics::eval_call;
use crate::semantics::eval_expr;
use crate::semantics::lv_assign;
use crate::semantics::lv_lookup;
use crate::semantics::run_expression_rel;
use crate::semantics::run_script_rel;
use crate::semantics::script_measure;
use crate::semantics::valid_call;
use crate::semantics::valid_expr;
use crate::semantics::valid_exprs;
use crate::semantics::valid_script;
use crate::semantics::valid_stmt;
use crate::semantics::valid_stmts;
use crate::semantics::Deriv;
use crate::value::Callback;
use crate::value::Subroutine;
use crate::value::Value;

verus! {

/// The model of an interpreter result: the value's model on success, the
/// error's kind on failure.
pub open spec fn res_model(r: JabroniResult<Value>) -> Result<ModelValue, ErrorKind> {
    match r {
        Ok(v) => Ok(v@),
        Err(e) => Err(e@),
    }
}

/// The model of a statement outcome: the value's model and the return flag
/// on success, the error's kind on failure.
pub open spec fn sres_model(r: JabroniResult<(Value, bool)>) -> Result<
    (ModelValue, bool),
    ErrorKind,
> {
    match r {
        Ok(p) => Ok((p.0@, p.1)),
        Err(e) => Err(e@),
    }
}

/// The models of a list of values, in order.
pub open spec fn vals_model(vs: Seq<Value>) -> Seq<ModelValue>
    decreases vs,
{
    if vs.len() == 0 {
        Seq::empty()
    } else {
        vals_model(vs.drop_last()).push(vs.last()@)
    }
}

/// The model of a list of values, element by element.
pub proof fn lemma_vals_model_index(vs: Seq<Value>, i: int)
    requires
        0 <= i < vs.len(),
    ensures
        vals_model(vs).len() == vs.len(),
        vals_model(vs)[i] == vs[i]@,
    decreases vs,
{
    lemma_vals_model_len(vs);
    if i < vs.len() - 1 {
        lemma_vals_model_index(vs.drop_last(), i);
        assert(vs.drop_last()[i] == vs[i]);
    }
}

/// A list of values has as many models as elements.
pub proof fn lemma_vals_model_len(vs: Seq<Value>)
    ensures
        vals_model(vs).len() == vs.len(),
    decreases vs,
{
    if vs.len() > 0 {
        lemma_vals_model_len(vs.drop_last());
    }
}

/// What the interpreter runs against: a host maps the identities of native
/// subroutines to actions. Nothing is promised of a native action: contracts
/// proved through the interpreter hold whatever the host returns, and a
/// host is free to perform I/O or keep state of its own.
pub trait Host {
    /// Perform the native action known to this host as `id`, given a
    /// snapshot of the caller's scope and the evaluated arguments.
    fn call_native(&mut self, id: u64, context: BindingMap, args: &mut Vec<Value>) -> JabroniResult<
        Value,
    >;
}

/// The host with no native subroutines: every native call fails.
pub struct DefaultHost;

impl Host for DefaultHost {
    fn call_native(
        &mut self,
        id: u64,
        context: BindingMap,
        args: &mut Vec<Value>,
    ) -> JabroniResult<Value> {
        Err(JabroniError::Exception(String::from_str("No such native subroutine")))
    }
}

/// Read through an lvalue: the current value of the binding it resolves to.
pub(crate) fn read_lvalue(map: &BindingMap, lv: &Lvalue) -> (r: JabroniResult<Value>)
    ensures
        match r {
            Ok(v) => lv_lookup(map@, lv@) matches Ok(b) && v@ == b.value,
            Err(e) => lv_lookup(map@, lv@) == Err::<ModelBinding, ErrorKind>(e@),
        },
    decreases *lv,
{
    match lv {
        Lvalue::Ident(id) => match map.get(id.as_str()) {
            Ok(b) => Ok(b.value().duplicate()),
            Err(e) => {
                proof {
                    lemma_env_lookup_has(map@, id@);
                }
                Err(e)
            },
        },
        Lvalue::Member(id, rest) => match map.get(id.as_str()) {
            Err(e) => {
                proof {
                    lemma_env_lookup_has(map@, id@);
                }
                Err(e)
            },
            Ok(b) => match b.value() {
                Value::Object(inner) => read_lvalue(inner, rest),
                _ => Err(JabroniError::Type(String::from_str("Not an object"))),
            },
        },
    }
}

/// Write through an lvalue: store `v` into the binding it resolves to,
/// under the binding's own rules (same tag, mutable). The scope map is
/// unchanged on error.
pub(crate) fn assign_lvalue(map: &mut BindingMap, lv: &Lvalue, v: Value) -> (r: JabroniResult)
    ensures
        match r {
            Ok(_) => lv_assign(old(map)@, lv@, v@) == Ok::<ModelEnv, ErrorKind>(final(map)@),
            Err(e) => lv_assign(old(map)@, lv@, v@) == Err::<ModelEnv, ErrorKind>(e@)
                && final(map)@ == old(map)@,
        },
    decreases *lv,
{
    match lv {
        Lvalue::Ident(id) => {
            proof {
                lemma_env_lookup_has(map@, id@);
            }
            let b = match map.get_mut(id.as_str()) {
                Ok(b) => b,
                Err(e) => {
                    return Err(e);
                },
            };
            proof {
                lemma_env_update_same(old(map)@, id@, (*b)@);
            }
            match b.set_value(v) {
                Ok(_) => Ok(()),
                Err(e) => Err(e),
            }
        },
        Lvalue::Member(id, rest) => {
            proof {
                lemma_env_lookup_has(map@, id@);
            }
            let b = match map.get_mut(id.as_str()) {
                Ok(b) => b,
                Err(e) => {
                    return Err(e);
                },
            };
            proof {
                lemma_env_update_same(old(map)@, id@, (*b)@);
            }
            let inner = match b.value_mut() {
                Value::Object(inner) => inner,
                _ => {
                    return Err(JabroniError::Type(String::from_str("Not an object")));
                },
            };
            assign_lvalue(inner, rest, v)
        },
    }
}

/// The model of an argument-list result.
pub open spec fn args_res_model(r: JabroniResult<Vec<Value>>) -> Result<Seq<ModelValue>, ErrorKind> {
    match r {
        Ok(vs) => Ok(vals_model(vs@)),
        Err(e) => Err(e@),
    }
}

/// Evaluate one expression. The returned derivation records the run.
fn interpret_expression<H: Host>(
    host: &mut H,
    bindings: &mut BindingMap,
    e: &Expr,
    fuel: u64,
) -> (r: (JabroniResult<Value>, Ghost<Deriv>))
    ensures
        valid_expr(r.1@, fuel as nat, old(bindings)@, e@, res_model(r.0), final(bindings)@),
        final(bindings)@.len() == old(bindings)@.len(),
    decreases fuel, expr_size(e@), 0nat,
{
    match e {
        Expr::Literal(v) => (Ok(v.duplicate()), Ghost(Deriv::Triv)),
        Expr::Path(lv) => match read_lvalue(bindings, lv) {
            Ok(v) => (Ok(v), Ghost(Deriv::Triv)),
            Err(err) => (Err(err), Ghost(Deriv::Triv)),
        },
        Expr::Call(lv, args) => {
            let calleev = match read_lvalue(bindings, lv) {
                Ok(v) => v,
                Err(err) => {
                    return (Err(err), Ghost(Deriv::Triv));
                },
            };
            let sub = match calleev {
                Value::Subroutine(s) => s,
                _ => {
                    return (
                        (Err(JabroniError::Type(String::from_str("Not a function"))), Ghost(
                            Deriv::Triv,
                        )),
                    ).0;
                },
            };
            proof {
                lemma_exprs_model_len(args@);
                assert(exprs_model(args@).skip(0) =~= exprs_model(args@));
            }
            let (ar, dargs) = interpret_args(host, bindings, args, 0, fuel);
            let ghost aoutm = args_res_model(ar);
            let ghost envm = bindings@;
            let mut argv = match ar {
                Ok(vs) => vs,
                Err(err) => {
                    let ghost d = Deriv::DCall {
                        aout: aoutm,
                        envm,
                        dargs: Box::new(dargs@),
                        dcall: Box::new(Deriv::Triv),
                    };
                    return (Err(err), Ghost(d));
                },
            };
            let context = bindings.duplicate();
            let (cr, dcall) = call_with_fuel(host, &sub, context, &mut argv, fuel);
            let ghost d = Deriv::DCall {
                aout: aoutm,
                envm,
                dargs: Box::new(dargs@),
                dcall: Box::new(dcall@),
            };
            (cr, Ghost(d))
        },
        Expr::Ternary(c, t, f) => {
            let (cr, dc) = interpret_expression(host, bindings, c, fuel);
            let ghost coutm = res_model(cr);
            let ghost envc = bindings@;
            match cr {
                Err(err) => {
                    let ghost d = Deriv::DTernary {
                        cout: coutm,
                        envc,
                        dcond: Box::new(dc@),
                        dbranch: Box::new(Deriv::Triv),
                    };
                    (Err(err), Ghost(d))
                },
                Ok(cv) => match cv {
                    Value::Boolean(bv) => {
                        let branch: &Expr = if bv {
                            t
                        } else {
                            f
                        };
                        let (br, db) = interpret_expression(host, bindings, branch, fuel);
                        let ghost d = Deriv::DTernary {
                            cout: coutm,
                            envc,
                            dcond: Box::new(dc@),
                            dbranch: Box::new(db@),
                        };
                        (br, Ghost(d))
                    },
                    _ => {
                        let ghost d = Deriv::DTernary {
                            cout: coutm,
                            envc,
                            dcond: Box::new(dc@),
                            dbranch: Box::new(Deriv::Triv),
                        };
                        (
                            Err(
                                JabroniError::Type(
                                    String::from_str("Ternary condition must be boolean"),
                                ),
                            ),
                            Ghost(d),
                        )
                    },
                },
            }
        },
        Expr::Assign(lv, rhs) => {
            let (rr, dr) = interpret_expression(host, bindings, rhs, fuel);
            let ghost routm = res_model(rr);
            let ghost envr = bindings@;
            match rr {
                Err(err) => {
                    let ghost d = Deriv::DAssign { rout: routm, envr, drhs: Box::new(dr@) };
                    (Err(err), Ghost(d))
                },
                Ok(v) => {
                    let ghost vm = v@;
                    let ghost d = Deriv::DAssign { rout: routm, envr, drhs: Box::new(dr@) };
                    proof {
                        crate::semantics::lemma_lv_assign_len(envr, lv@, vm);
                    }
                    match assign_lvalue(bindings, lv, v) {
                        Ok(_) => (Ok(Value::Null), Ghost(d)),
                        Err(err) => (Err(err), Ghost(d)),
                    }
                },
            }
        },
        Expr::Binary(op, l, rx) => {
            let (lr, dl) = interpret_expression(host, bindings, l, fuel);
            let ghost loutm = res_model(lr);
            let ghost envl = bindings@;
            let mut lval = match lr {
                Ok(v) => v,
                Err(err) => {
                    let ghost d = Deriv::DBinary {
                        lout: loutm,
                        envl,
                        dl: Box::new(dl@),
                        rout: loutm,
                        envr: envl,
                        dr: Box::new(Deriv::Triv),
                    };
                    return (Err(err), Ghost(d));
                },
            };
            let ghost lvm = lval@;
            let (rr, dr) = interpret_expression(host, bindings, rx, fuel);
            let ghost routm = res_model(rr);
            let ghost envr = bindings@;
            let rval = match rr {
                Ok(v) => v,
                Err(err) => {
                    let ghost d = Deriv::DBinary {
                        lout: loutm,
                        envl,
                        dl: Box::new(dl@),
                        rout: routm,
                        envr,
                        dr: Box::new(dr@),
                    };
                    return (Err(err), Ghost(d));
                },
            };
            let ghost rvm = rval@;
            let ghost d = Deriv::DBinary {
                lout: loutm,
                envl,
                dl: Box::new(dl@),
                rout: routm,
                envr,
                dr: Box::new(dr@),
            };
            let opr = match op {
                BinOp::Eq => lval.compare(rval, false),
                BinOp::EqAnyType => lval.compare(rval, true),
                BinOp::Add => lval.add(rval),
                BinOp::Sub => lval.subtract(rval),
                BinOp::Mul => lval.multiply(rval),
            };
            match opr {
                Ok(_) => (Ok(lval), Ghost(d)),
                Err(err) => (Err(err), Ghost(d)),
            }
        },
    }
}

/// Evaluate the argument expressions `args[idx..]`, left to right.
fn interpret_args<H: Host>(
    host: &mut H,
    bindings: &mut BindingMap,
    args: &Vec<Expr>,
    idx: usize,
    fuel: u64,
) -> (r: (JabroniResult<Vec<Value>>, Ghost<Deriv>))
    requires
        idx <= args@.len(),
    ensures
        valid_exprs(
            r.1@,
            fuel as nat,
            old(bindings)@,
            exprs_model(args@).skip(idx as int),
            args_res_model(r.0),
            final(bindings)@,
        ),
        final(bindings)@.len() == old(bindings)@.len(),
    decreases fuel, exprs_size(exprs_model(args@).skip(idx as int)), 1nat,
{
    proof {
        lemma_exprs_model_len(args@);
    }
    if idx == args.len() {
        let out: Vec<Value> = Vec::new();
        proof {
            assert(exprs_model(args@).skip(idx as int) =~= Seq::<crate::ast::ModelExpr>::empty());
            assert(vals_model(out@) =~= Seq::<ModelValue>::empty());
        }
        return (Ok(out), Ghost(Deriv::Triv));
    }
    let ghost es = exprs_model(args@).skip(idx as int);
    proof {
        lemma_exprs_model_index(args@, idx as int);
        assert(es.first() == exprs_model(args@)[idx as int]);
        assert(es.first() == args@[idx as int]@);
        lemma_exprs_size_parts(exprs_model(args@), idx as int);
        assert(exprs_model(args@).skip(idx as int).drop_first() =~= exprs_model(args@).skip(
            idx + 1,
        ));
        assert(expr_size(es.first()) < exprs_size(es)) by {
            assert(es.first() == es[0]);
            lemma_exprs_size_parts(es, 0);
        }
        assert(exprs_size(exprs_model(args@).skip(idx + 1)) < exprs_size(es)) by {
            lemma_exprs_size_parts(es, 0);
            assert(es.skip(1) =~= es.drop_first());
        }
    }
    let (hr, dh) = interpret_expression(host, bindings, &args[idx], fuel);
    let ghost houtm = res_model(hr);
    let ghost envh = bindings@;
    let v = match hr {
        Ok(v) => v,
        Err(err) => {
            let ghost d = Deriv::DExprs {
                hout: houtm,
                envh,
                dh: Box::new(dh@),
                dt: Box::new(Deriv::Triv),
            };
            return (Err(err), Ghost(d));
        },
    };
    let ghost vm = v@;
    let (tr, dt) = interpret_args(host, bindings, args, idx + 1, fuel);
    let ghost d = Deriv::DExprs { hout: houtm, envh, dh: Box::new(dh@), dt: Box::new(dt@) };
    match tr {
        Err(err) => (Err(err), Ghost(d)),
        Ok(vs) => {
            let ghost vsm = vals_model(vs@);
            let mut out: Vec<Value> = Vec::new();
            out.push(v);
            let mut rest = vs;
            out.append(&mut rest);
            proof {
                lemma_vals_model_len(out@);
                lemma_vals_model_len(vs@);
                assert forall|k: int| 0 <= k < out@.len() implies vals_model(out@)[k] == (seq![vm]
                    + vsm)[k] by {
                    lemma_vals_model_index(out@, k);
                    if k > 0 {
                        lemma_vals_model_index(vs@, k - 1);
                        assert(out@[k] == vs@[k - 1]);
                    }
                }
                assert(vals_model(out@) =~= seq![vm] + vsm);
                assert(vals_model(out@).first() == vm);
                assert(vals_model(out@).drop_first() =~= vsm);
            }
            (Ok(out), Ghost(d))
        },
    }
}

/// Run the call protocol for `sub` on the already evaluated `args`:
/// check the arity, then hand a native callback to the host, or run an
/// interpreted body as a script against an isolated scope holding exactly
/// the parameters.
fn call_with_fuel<H: Host>(
    host: &mut H,
    sub: &Subroutine,
    context: BindingMap,
    args: &mut Vec<Value>,
    fuel: u64,
) -> (r: (JabroniResult<Value>, Ghost<Deriv>))
    ensures
        valid_call(r.1@, fuel as nat, sub@, vals_model(old(args)@), res_model(r.0)),
    decreases fuel, 0nat, 0nat,
{
    proof {
        lemma_vals_model_len(args@);
    }
    if let Some(n) = sub.number_of_args {
        if args.len() != n {
            return (
                Err(JabroniError::InvalidArguments(String::from_str("Incorrect number of arguments"))),
                Ghost(Deriv::Triv),
            );
        }
    }
    match &sub.callback {
        Callback::Native(id) => {
            let nr = host.call_native(*id, context, args);
            (nr, Ghost(Deriv::Triv))
        },
        Callback::Interpreted { params, body } => {
            if args.len() != params.len() {
                proof {
                    assert(sub@.callback->Interpreted_params.len() == params@.len());
                }
                return (
                    Err(
                        JabroniError::InvalidArguments(
                            String::from_str("Incorrect number of arguments"),
                        ),
                    ),
                    Ghost(Deriv::Triv),
                );
            }
            if fuel == 0 {
                return (
                    Err(JabroniError::Exception(String::from_str("Call depth limit exceeded"))),
                    Ghost(Deriv::Triv),
                );
            }
            let ghost pm = params.deep_view();
            let ghost am = vals_model(args@);
            let mut locals = BindingMap::default();
            let mut i: usize = 0;
            while i < params.len()
                invariant
                    0 <= i <= params@.len(),
                    params@.len() == args@.len(),
                    pm == params.deep_view(),
                    pm.len() == params@.len(),
                    am == vals_model(args@),
                    am.len() == args@.len(),
                    locals@ == seq![
                        crate::semantics::param_frame(
                            pm.take(i as int),
                            am.take(i as int),
                        ),
                    ],
                decreases params@.len() - i,
            {
                let ghost oldlocals = locals@;
                let ident = params[i].clone();
                let value = args[i].duplicate();
                proof {
                    lemma_vals_model_index(args@, i as int);
                    assert(pm[i as int] == params@[i as int]@);
                }
                locals.set(ident, Binding::constant(value));
                proof {
                    assert(pm.take(i + 1).drop_last() =~= pm.take(i as int));
                    assert(am.take(i + 1).drop_last() =~= am.take(i as int));
                    assert(pm.take(i + 1).last() == pm[i as int]);
                    assert(am.take(i + 1).last() == am[i as int]);
                    assert(locals@ =~= seq![
                        crate::semantics::param_frame(pm.take(i + 1), am.take(i + 1)),
                    ]);
                }
                i = i + 1;
            }
            proof {
                assert(pm.take(pm.len() as int) =~= pm);
                assert(am.take(am.len() as int) =~= am);
                assert(locals@ == crate::semantics::param_env(pm, am));
            }
            let (sr, db) = run_script_with_fuel(host, &mut locals, body.as_str(), fuel - 1);
            let ghost d = Deriv::DCallRun { envf: locals@, dbody: Box::new(db@) };
            (sr, Ghost(d))
        },
    }
}

/// Run `code` as a script against `bindings`: parse it, then execute its
/// statements in order.
fn run_script_with_fuel<H: Host>(
    host: &mut H,
    bindings: &mut BindingMap,
    code: &str,
    fuel: u64,
) -> (r: (JabroniResult<Value>, Ghost<Deriv>))
    requires
        old(bindings).wf(),
    ensures
        valid_script(r.1@, fuel as nat, old(bindings)@, code@, res_model(r.0), final(bindings)@),
        final(bindings).wf(),
        final(bindings)@.len() == old(bindings)@.len(),
    decreases fuel, script_measure(code@), 2nat,
{
    let stmts = match crate::parse::parse_script(code) {
        Ok(ss) => ss,
        Err(err) => {
            return (Err(err), Ghost(Deriv::Triv));
        },
    };
    proof {
        lemma_stmts_model_len(stmts@);
        assert(stmts_model(stmts@).skip(0) =~= stmts_model(stmts@));
    }
    let (sr, ds) = interpret_statements(host, bindings, &stmts, 0, fuel);
    let ghost soutm = sres_model(sr);
    let ghost d = Deriv::DScript { sout: soutm, dstmts: Box::new(ds@) };
    match sr {
        Ok(p) => (Ok(p.0), Ghost(d)),
        Err(err) => (Err(err), Ghost(d)),
    }
}

/// Execute the statements `ss[idx..]` in order, stopping at the first error
/// or `return`.
fn interpret_statements<H: Host>(
    host: &mut H,
    bindings: &mut BindingMap,
    ss: &Vec<Stmt>,
    idx: usize,
    fuel: u64,
) -> (r: (JabroniResult<(Value, bool)>, Ghost<Deriv>))
    requires
        idx <= ss@.len(),
        old(bindings).wf(),
    ensures
        valid_stmts(
            r.1@,
            fuel as nat,
            old(bindings)@,
            stmts_model(ss@).skip(idx as int),
            sres_model(r.0),
            final(bindings)@,
        ),
        final(bindings).wf(),
        final(bindings)@.len() == old(bindings)@.len(),
    decreases fuel, stmts_size(stmts_model(ss@).skip(idx as int)), 1nat,
{
    proof {
        lemma_stmts_model_len(ss@);
    }
    if idx == ss.len() {
        proof {
            assert(stmts_model(ss@).skip(idx as int) =~= Seq::<crate::ast::ModelStmt>::empty());
        }
        return (Ok((Value::Null, false)), Ghost(Deriv::Triv));
    }
    let ghost sts = stmts_model(ss@).skip(idx as int);
    proof {
        lemma_stmts_model_index(ss@, idx as int);
        assert(sts.first() == ss@[idx as int]@);
        assert(stmts_model(ss@).skip(idx as int).drop_first() =~= stmts_model(ss@).skip(idx + 1));
        assert(stmt_size(sts.first()) < stmts_size(sts)) by {
            assert(sts.first() == sts[0]);
            lemma_stmts_size_parts(sts, 0);
        }
        assert(stmts_size(stmts_model(ss@).skip(idx + 1)) < stmts_size(sts)) by {
            lemma_stmts_size_parts(sts, 0);
            assert(sts.skip(1) =~= sts.drop_first());
        }
    }
    let (hr, dh) = interpret_statement(host, bindings, &ss[idx], fuel);
    let ghost houtm = sres_model(hr);
    let ghost envh = bindings@;
    match hr {
        Err(err) => {
            let ghost d = Deriv::DStmts {
                hout: houtm,
                envh,
                dh: Box::new(dh@),
                dt: Box::new(Deriv::Triv),
            };
            (Err(err), Ghost(d))
        },
        Ok((v, returned)) => {
            let ghost vm = v@;
            if returned {
                let ghost d = Deriv::DStmts {
                    hout: houtm,
                    envh,
                    dh: Box::new(dh@),
                    dt: Box::new(Deriv::Triv),
                };
                (Ok((v, true)), Ghost(d))
            } else if idx + 1 == ss.len() {
                let ghost d = Deriv::DStmts {
                    hout: houtm,
                    envh,
                    dh: Box::new(dh@),
                    dt: Box::new(Deriv::Triv),
                };
                (Ok((v, false)), Ghost(d))
            } else {
                let (tr, dt) = interpret_statements(host, bindings, ss, idx + 1, fuel);
                let ghost d = Deriv::DStmts {
                    hout: houtm,
                    envh,
                    dh: Box::new(dh@),
                    dt: Box::new(dt@),
                };
                (tr, Ghost(d))
            }
        },
    }
}

/// Execute one statement.
fn interpret_statement<H: Host>(
    host: &mut H,
    bindings: &mut BindingMap,
    st: &Stmt,
    fuel: u64,
) -> (r: (JabroniResult<(Value, bool)>, Ghost<Deriv>))
    requires
        old(bindings).wf(),
    ensures
        valid_stmt(r.1@, fuel as nat, old(bindings)@, st@, sres_model(r.0), final(bindings)@),
        final(bindings).wf(),
        final(bindings)@.len() == old(bindings)@.len(),
    decreases fuel, stmt_size(st@), 0nat,
{
    match st {
        Stmt::Expr(e) => {
            let (er, de) = interpret_expression(host, bindings, e, fuel);
            let ghost eoutm = res_model(er);
            let ghost d = Deriv::DStmtExpr { eout: eoutm, de: Box::new(de@) };
            match er {
                Ok(_) => (Ok((Value::Null, false)), Ghost(d)),
                Err(err) => (Err(err), Ghost(d)),
            }
        },
        Stmt::Block(ss) => {
            proof {
                lemma_stmts_model_len(ss@);
                assert(stmts_model(ss@).skip(0) =~= stmts_model(ss@));
            }
            let (br, db) = interpret_statements(host, bindings, ss, 0, fuel);
            let ghost d = Deriv::DBlock { dbody: Box::new(db@) };
            (br, Ghost(d))
        },
        Stmt::Function(name, params, body) => {
            if bindings.has_on_top(name.as_str()) {
                let mut m = String::from_str("Cannot define '");
                m.append(name.as_str());
                m.append("' because it has already been defined");
                return (Err(JabroniError::DoubleDefinition(m)), Ghost(Deriv::Triv));
            }
            let ps = crate::utils::clone_strings(params);
            let sub = Subroutine {
                number_of_args: Some(params.len()),
                callback: Callback::Interpreted { params: ps, body: body.clone() },
            };
            proof {
                assert(params.deep_view().len() == params@.len());
            }
            bindings.set(name.clone(), Binding::constant(Value::Subroutine(sub)));
            (Ok((Value::Null, false)), Ghost(Deriv::Triv))
        },
        Stmt::Return(e) => {
            let (er, de) = interpret_expression(host, bindings, e, fuel);
            let ghost eoutm = res_model(er);
            let ghost d = Deriv::DStmtExpr { eout: eoutm, de: Box::new(de@) };
            match er {
                Ok(v) => (Ok((v, true)), Ghost(d)),
                Err(err) => (Err(err), Ghost(d)),
            }
        },
    }
}

/// The number of nested subroutine calls one entry into the interpreter may
/// make before reporting an exception.
pub const CALL_DEPTH_LIMIT: u64 = 64;

impl Subroutine {
    /// Call the subroutine on the given (already evaluated) arguments, with
    /// `context` handed to a native callback as a snapshot of the caller's
    /// scope. The full call-depth budget is available.
    pub fn call<H: Host>(&self, host: &mut H, context: BindingMap, args: &mut Vec<Value>) -> (r:
        JabroniResult<Value>)
        ensures
            eval_call(call_depth_limit(), self@, vals_model(old(args)@), res_model(r)),
    {
        proof {
            assert(CALL_DEPTH_LIMIT as nat == call_depth_limit());
        }
        let (r, d) = call_with_fuel(host, self, context, args, CALL_DEPTH_LIMIT);
        proof {
            assert(valid_call(d@, call_depth_limit(), self@, vals_model(old(args)@), res_model(r)));
        }
        r
    }
}

/// The interpreter: a layered top-level scope together with the host that
/// runs native subroutines.
pub struct Jabroni<H: Host> {
    /// The top-level variable environment.
    pub bindings: BindingMap,
    /// The host that native subroutines dispatch to.
    pub host: H,
}

impl Jabroni<DefaultHost> {
    /// A fresh interpreter with an empty top-level scope and no native
    /// subroutines.
    pub fn new() -> (r: Self)
        ensures
            r.bindings@ == seq![Map::<Seq<char>, ModelBinding>::empty()],
            r.wf(),
    {
        Jabroni { bindings: BindingMap::default(), host: DefaultHost }
    }
}

impl<H: Host> Jabroni<H> {
    /// An interpreter is well-formed when its scope map is: at least one
    /// frame always exists.
    pub open spec fn wf(&self) -> bool {
        self.bindings.wf()
    }

    /// A fresh interpreter with an empty top-level scope, running native
    /// subroutines against `host`.
    pub fn with_host(host: H) -> (r: Self)
        ensures
            r.bindings@ == seq![Map::<Seq<char>, ModelBinding>::empty()],
            r.host == host,
            r.wf(),
    {
        Jabroni { bindings: BindingMap::default(), host }
    }

    /// Bind `ident` in the top-level scope. Fails with a double-definition
    /// error exactly when the top frame already binds `ident`.
    fn define_binding(&mut self, ident: &str, value: Value, mutable: bool) -> (r: JabroniResult)
        requires
            old(self).wf(),
        ensures
            final(self).wf(),
            final(self).host == old(self).host,
            match r {
                Ok(_) => !env_has_on_top(old(self).bindings@, ident@) && final(self).bindings@
                    == env_set_top(
                    old(self).bindings@,
                    ident@,
                    ModelBinding { mutable, value: value@ },
                ),
                Err(e) => env_has_on_top(old(self).bindings@, ident@) && e@
                    == ErrorKind::DoubleDefinition && final(self).bindings@ == old(self).bindings@,
            },
    {
        if self.bindings.has_on_top(ident) {
            let mut m = String::from_str("Cannot define '");
            m.append(ident);
            m.append("' because it has already been defined");
            return Err(JabroniError::DoubleDefinition(m));
        }
        self.bindings.set(String::from_str(ident), Binding::new(value, mutable));
        Ok(())
    }

    /// Define `ident` as a constant in the top-level scope. Fails with a
    /// double-definition error exactly when the top frame already binds it.
    pub fn define_constant(&mut self, ident: &str, value: Value) -> (r: JabroniResult)
        requires
            old(self).wf(),
        ensures
            final(self).wf(),
            final(self).host == old(self).host,
            match r {
                Ok(_) => !env_has_on_top(old(self).bindings@, ident@) && final(self).bindings@
                    == env_set_top(
                    old(self).bindings@,
                    ident@,
                    ModelBinding { mutable: false, value: value@ },
                ),
                Err(e) => env_has_on_top(old(self).bindings@, ident@) && e@
                    == ErrorKind::DoubleDefinition && final(self).bindings@ == old(self).bindings@,
            },
    {
        self.define_binding(ident, value, false)
    }

    /// Define `ident` as a variable in the top-level scope. Fails with a
    /// double-definition error exactly when the top frame already binds it.
    pub fn define_variable(&mut self, ident: &str, value: Value) -> (r: JabroniResult)
        requires
            old(self).wf(),
        ensures
            final(self).wf(),
            final(self).host == old(self).host,
            match r {
                Ok(_) => !env_has_on_top(old(self).bindings@, ident@) && final(self).bindings@
                    == env_set_top(
                    old(self).bindings@,
                    ident@,
                    ModelBinding { mutable: true, value: value@ },
                ),
                Err(e) => env_has_on_top(old(self).bindings@, ident@) && e@
                    == ErrorKind::DoubleDefinition && final(self).bindings@ == old(self).bindings@,
            },
    {
        self.define_binding(ident, value, true)
    }

    /// Store `value` into the binding `ident` resolves to. Fails with a
    /// reference error exactly when no scope binds `ident`, and with a type
    /// error when the binding is immutable or carries a different tag; the
    /// scope is unchanged on error.
    pub fn update_variable(&mut self, ident: &str, value: Value) -> (r: JabroniResult)
        requires
            old(self).wf(),
        ensures
            final(self).wf(),
            final(self).host == old(self).host,
            match env_lookup(old(self).bindings@, ident@) {
                None => (r matches Err(e) && e@ == ErrorKind::Reference) && final(self).bindings@
                    == old(self).bindings@,
                Some(b) => match binding_set(b, value@) {
                    Ok(nb) => r is Ok && final(self).bindings@ == env_update(
                        old(self).bindings@,
                        ident@,
                        nb,
                    ),
                    Err(k) => (r matches Err(e) && e@ == k) && final(self).bindings@ == old(
                        self,
                    ).bindings@,
                },
            },
    {
        proof {
            lemma_env_lookup_has(self.bindings@, ident@);
            if let Some(b0) = env_lookup(self.bindings@, ident@) {
                if let Ok(nb) = binding_set(b0, value@) {
                    crate::model::lemma_env_update_shape(self.bindings@, ident@, nb);
                }
            }
        }
        let b = match self.bindings.get_mut(ident) {
            Ok(b) => b,
            Err(e) => {
                return Err(e);
            },
        };
        proof {
            lemma_env_update_same(old(self).bindings@, ident@, (*b)@);
        }
        match b.set_value(value) {
            Ok(_) => Ok(()),
            Err(e) => Err(e),
        }
    }

    /// Parse `code` as a single expression and evaluate it against the
    /// current scope, per [`run_expression_rel`]: malformed text is a parse
    /// error, and the outcome is one the evaluation relation admits.
    pub fn run_expression(&mut self, code: &str) -> (r: JabroniResult<Value>)
        requires
            old(self).wf(),
        ensures
            final(self).wf(),
            run_expression_rel(
                call_depth_limit(),
                old(self).bindings@,
                code@,
                res_model(r),
                final(self).bindings@,
            ),
    {
        let e = match crate::parse::parse_expression(code) {
            Ok(e) => e,
            Err(err) => {
                return Err(err);
            },
        };
        let (r, d) = interpret_expression(&mut self.host, &mut self.bindings, &e, CALL_DEPTH_LIMIT);
        proof {
            assert(CALL_DEPTH_LIMIT as nat == call_depth_limit());
            assert(valid_expr(
                d@,
                call_depth_limit(),
                old(self).bindings@,
                e@,
                res_model(r),
                self.bindings@,
            ));
        }
        r
    }

    /// Parse `code` as a script and run its statements in order against the
    /// current scope, per [`run_script_rel`]: the script's value is the
    /// value of its last statement, or of the first `return` reached.
    pub fn run_script(&mut self, code: &str) -> (r: JabroniResult<Value>)
        requires
            old(self).wf(),
        ensures
            final(self).wf(),
            run_script_rel(
                call_depth_limit(),
                old(self).bindings@,
                code@,
                res_model(r),
                final(self).bindings@,
            ),
    {
        proof {
            assert(CALL_DEPTH_LIMIT as nat == call_depth_limit());
        }
        let (r, d) = run_script_with_fuel(&mut self.host, &mut self.bindings, code, CALL_DEPTH_LIMIT);
        proof {
            assert(valid_script(
                d@,
                call_depth_limit(),
                old(self).bindings@,
                code@,
                res_model(r),
                self.bindings@,
            ));
        }
        r
    }
}

} // verus!
