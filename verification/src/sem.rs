//! The mathematical model of the evaluator: scope-chain lookup, statement
//! block evaluation, expression evaluation, function application and
//! decision chains.
//!
//! A native-function call is the one step whose outcome the model cannot
//! compute: its result is read from an `oracle`, the sequence of outcomes
//! that the natives actually produced, consumed front to first. The
//! executable evaluator is proved to match this model for the oracle built
//! from the calls it really made, whatever the native table did. `fuel`
//! bounds the call depth, mirrored by the executable evaluator; running out
//! of it is the `Depth` runtime error.

use vstd::prelude::*;
use crate::ast::{DecisionV, ExprV, TokV, TokenV};
use crate::errors::RtErrV;
use crate::values::{sp_apply_op, ValV};

verus! {

/// One native-call outcome, as the model sees it.
pub type NRes = Result<Option<ValV>, RtErrV>;

/// The scope chain, outermost scope first.
pub type EnvV = Seq<Map<Seq<char>, ValV>>;

/// Outcome of one evaluation step: the scope chain after it, the oracle
/// entries not yet consumed, and the produced value (`None` for "no value")
/// or the fatal runtime error.
pub ghost struct EvalOut {
    pub env: EnvV,
    pub rest: Seq<NRes>,
    pub res: Result<Option<ValV>, RtErrV>,
}

/// Outcome of evaluating an argument list.
pub ghost struct ArgsOut {
    pub env: EnvV,
    pub rest: Seq<NRes>,
    pub res: Result<Seq<ValV>, RtErrV>,
}

/// Walk the chain from depth `s` down toward 0, consulting every depth on
/// the way — depth 0, the global scope, included — and returning the first
/// binding of `id` with the depth where it was found. A depth beyond the
/// chain finds nothing.
pub open spec fn sp_get_walk(env: EnvV, id: Seq<char>, s: int) -> Option<(int, ValV)>
    decreases s,
{
    if s < 0 || s >= env.len() {
        Option::None
    } else if env[s].contains_key(id) {
        Option::Some((s, env[s][id]))
    } else if s == 0 {
        Option::None
    } else {
        sp_get_walk(env, id, s - 1)
    }
}

/// Variable resolution: look first in the innermost scope (reporting the
/// *queried* depth when found there), then walk the chain from the queried
/// depth down toward the outermost scope.
pub open spec fn sp_get(env: EnvV, id: Seq<char>, scope: int) -> Option<(int, ValV)> {
    if env.len() > 0 && env.last().contains_key(id) {
        Option::Some((scope, env.last()[id]))
    } else {
        sp_get_walk(env, id, scope)
    }
}

/// Bind parameter names to argument values, pairwise and in order, in `m`.
pub open spec fn sp_bind(m: Map<Seq<char>, ValV>, params: Seq<Seq<char>>, args: Seq<ValV>, i: int)
    -> Map<Seq<char>, ValV>
    decreases params.len() - i,
{
    if i < 0 || i >= params.len() || i >= args.len() {
        m
    } else {
        sp_bind(m.insert(params[i], args[i]), params, args, i + 1)
    }
}

/// Evaluate a statement block: push a fresh scope, bind the arguments to the
/// parameter names in it, run every statement in order — a return statement
/// records the block's value but does not stop the statements after it, so
/// the last return wins — and pop the pushed scope only when `drop` asks for
/// it. Calling with a wrong argument count is a fatal runtime error.
pub open spec fn sp_eval_block(
    env: EnvV,
    toks: Seq<TokV>,
    scope: int,
    args: Seq<ValV>,
    params: Seq<Seq<char>>,
    drop: bool,
    oracle: Seq<NRes>,
    fuel: nat,
) -> EvalOut
    decreases fuel,
{
    if fuel == 0 {
        EvalOut { env, rest: oracle, res: Err(RtErrV::Depth) }
    } else {
        let env1 = env.push(Map::empty());
        if args.len() != params.len() {
            EvalOut {
                env: env1,
                rest: oracle,
                res: Err(
                    RtErrV::ArgCount { expected: params.len() as int, got: args.len() as int },
                ),
            }
        } else {
            let env2 = env1.update(env1.len() - 1, sp_bind(Map::empty(), params, args, 0));
            let run = sp_eval_stmts(env2, toks, 0, scope, Option::None, oracle, (fuel - 1) as nat);
            if run.res is Ok && drop && run.env.len() > 0 {
                EvalOut { env: run.env.drop_last(), rest: run.rest, res: run.res }
            } else {
                run
            }
        }
    }
}

/// Evaluate the statements of a block from `i` on; `acc` is the value of the
/// last return statement seen so far.
pub open spec fn sp_eval_stmts(
    env: EnvV,
    toks: Seq<TokV>,
    i: int,
    scope: int,
    acc: Option<ValV>,
    oracle: Seq<NRes>,
    fuel: nat,
) -> EvalOut
    decreases fuel,
{
    if fuel == 0 {
        EvalOut { env, rest: oracle, res: Err(RtErrV::Depth) }
    } else if i < 0 || i >= toks.len() {
        EvalOut { env, rest: oracle, res: Ok(acc) }
    } else {
        match toks[i].token {
            TokenV::Def { name, value } => {
                let r = sp_eval_def(env, name, *value, scope, oracle, (fuel - 1) as nat);
                if r.res is Err {
                    r
                } else {
                    sp_eval_stmts(r.env, toks, i + 1, scope, acc, r.rest, (fuel - 1) as nat)
                }
            },
            TokenV::Expr(e) => {
                let r = sp_eval_expr(env, *e, scope, oracle, (fuel - 1) as nat);
                if r.res is Err {
                    r
                } else {
                    sp_eval_stmts(r.env, toks, i + 1, scope, acc, r.rest, (fuel - 1) as nat)
                }
            },
            TokenV::Return(e) => {
                let r = sp_eval_expr(env, *e, scope, oracle, (fuel - 1) as nat);
                if r.res is Err {
                    r
                } else {
                    sp_eval_stmts(
                        r.env,
                        toks,
                        i + 1,
                        scope,
                        r.res->Ok_0,
                        r.rest,
                        (fuel - 1) as nat,
                    )
                }
            },
        }
    }
}

/// Evaluate a definition: the bound expression must produce a value; storing
/// "no value" is a fatal runtime error. The binding goes into the innermost
/// scope.
pub open spec fn sp_eval_def(
    env: EnvV,
    name: Seq<char>,
    value: ExprV,
    scope: int,
    oracle: Seq<NRes>,
    fuel: nat,
) -> EvalOut
    decreases fuel,
{
    if fuel == 0 {
        EvalOut { env, rest: oracle, res: Err(RtErrV::Depth) }
    } else {
        let r = sp_eval_expr(env, value, scope, oracle, (fuel - 1) as nat);
        match r.res {
            Err(e) => r,
            Ok(opt) => match opt {
                Option::None => EvalOut { env: r.env, rest: r.rest, res: Err(RtErrV::StoreVoid(name)) },
                Option::Some(v) => {
                    if r.env.len() == 0 {
                        EvalOut { env: r.env, rest: r.rest, res: Ok(Option::None) }
                    } else {
                        EvalOut {
                            env: r.env.update(r.env.len() - 1, r.env.last().insert(name, v)),
                            rest: r.rest,
                            res: Ok(Option::None),
                        }
                    }
                },
            },
        }
    }
}

/// Evaluate an argument list left to right; an argument producing no value
/// is a fatal runtime error.
pub open spec fn sp_eval_args(
    env: EnvV,
    args: Seq<ExprV>,
    i: int,
    scope: int,
    acc: Seq<ValV>,
    oracle: Seq<NRes>,
    fuel: nat,
) -> ArgsOut
    decreases fuel,
{
    if fuel == 0 {
        ArgsOut { env, rest: oracle, res: Err(RtErrV::Depth) }
    } else if i < 0 || i >= args.len() {
        ArgsOut { env, rest: oracle, res: Ok(acc) }
    } else {
        let r = sp_eval_expr(env, args[i], scope, oracle, (fuel - 1) as nat);
        match r.res {
            Err(e) => ArgsOut { env: r.env, rest: r.rest, res: Err(e) },
            Ok(opt) => match opt {
                Option::None => ArgsOut { env: r.env, rest: r.rest, res: Err(RtErrV::VoidArg) },
                Option::Some(v) => sp_eval_args(
                    r.env,
                    args,
                    i + 1,
                    scope,
                    acc.push(v),
                    r.rest,
                    (fuel - 1) as nat,
                ),
            },
        }
    }
}

/// Evaluate one expression.
///
/// Function application resolves the callee before evaluating the arguments;
/// a lambda body runs at the depth where the callee was found, in an
/// always-popped scope; a native call takes the next oracle entry. Operator
/// operands are evaluated left first, then right, with no short-circuit; an
/// operand without a value makes the whole operation yield no value.
pub open spec fn sp_eval_expr(env: EnvV, e: ExprV, scope: int, oracle: Seq<NRes>, fuel: nat)
    -> EvalOut
    decreases fuel,
{
    if fuel == 0 {
        EvalOut { env, rest: oracle, res: Err(RtErrV::Depth) }
    } else {
        match e {
            ExprV::Int(i) => EvalOut { env, rest: oracle, res: Ok(Option::Some(ValV::Int(i))) },
            ExprV::Str(s) => EvalOut { env, rest: oracle, res: Ok(Option::Some(ValV::Str(s))) },
            ExprV::Bool(b) => EvalOut { env, rest: oracle, res: Ok(Option::Some(ValV::Bool(b))) },
            ExprV::Lamda { params, value } => EvalOut {
                env,
                rest: oracle,
                res: Ok(Option::Some(ValV::Lamda { params, value })),
            },
            ExprV::Call(name) => match sp_get(env, name, scope) {
                Option::Some(dv) => EvalOut { env, rest: oracle, res: Ok(Option::Some(dv.1)) },
                Option::None => EvalOut { env, rest: oracle, res: Err(RtErrV::VarNotFound(name)) },
            },
            ExprV::Op { joint, lhs, rhs } => {
                let l = sp_eval_expr(env, *lhs, scope, oracle, (fuel - 1) as nat);
                match l.res {
                    Err(e1) => l,
                    Ok(lo) => match lo {
                        Option::None => EvalOut { env: l.env, rest: l.rest, res: Ok(Option::None) },
                        Option::Some(lv) => {
                            let r = sp_eval_expr(l.env, *rhs, scope, l.rest, (fuel - 1) as nat);
                            match r.res {
                                Err(e2) => r,
                                Ok(ro) => match ro {
                                    Option::None => EvalOut {
                                        env: r.env,
                                        rest: r.rest,
                                        res: Ok(Option::None),
                                    },
                                    Option::Some(rv) => EvalOut {
                                        env: r.env,
                                        rest: r.rest,
                                        res: match sp_apply_op(joint, lv, rv) {
                                            Ok(v) => Ok(Option::Some(v)),
                                            Err(e3) => Err(e3),
                                        },
                                    },
                                },
                            }
                        },
                    },
                }
            },
            ExprV::Decision(d) => sp_eval_match(env, d, scope, oracle, (fuel - 1) as nat),
            ExprV::Scope(body) => sp_eval_block(
                env,
                body,
                env.len() as int,
                Seq::empty(),
                Seq::empty(),
                true,
                oracle,
                (fuel - 1) as nat,
            ),
            ExprV::FcCall { name, args } => match sp_get(env, name, scope) {
                Option::None => EvalOut { env, rest: oracle, res: Err(RtErrV::VarNotFound(name)) },
                Option::Some(dv) => {
                    let a = sp_eval_args(env, args, 0, scope, Seq::empty(), oracle, (fuel - 1) as nat);
                    match a.res {
                        Err(e1) => EvalOut { env: a.env, rest: a.rest, res: Err(e1) },
                        Ok(avs) => match dv.1 {
                            ValV::Rusty(_) => {
                                if a.rest.len() == 0 {
                                    EvalOut { env: a.env, rest: a.rest, res: Err(RtErrV::Depth) }
                                } else {
                                    EvalOut {
                                        env: a.env,
                                        rest: a.rest.drop_first(),
                                        res: a.rest.first(),
                                    }
                                }
                            },
                            ValV::Lamda { params, value } => sp_eval_block(
                                a.env,
                                value,
                                dv.0,
                                avs,
                                params,
                                true,
                                a.rest,
                                (fuel - 1) as nat,
                            ),
                            _ => EvalOut { env: a.env, rest: a.rest, res: Err(RtErrV::NotCallable(name)) },
                        },
                    }
                },
            },
        }
    }
}

/// Evaluate a decision chain: a condition that is exactly `Bool(true)` takes
/// its branch, which runs as a fresh always-popped scope; any other value —
/// including `Bool(false)` and non-boolean values — falls through to the
/// next link; a chain without a next link yields no value.
pub open spec fn sp_eval_match(env: EnvV, d: DecisionV, scope: int, oracle: Seq<NRes>, fuel: nat)
    -> EvalOut
    decreases fuel,
{
    if fuel == 0 {
        EvalOut { env, rest: oracle, res: Err(RtErrV::Depth) }
    } else {
        let c = sp_eval_expr(env, *d.cond, scope, oracle, (fuel - 1) as nat);
        match c.res {
            Err(e) => c,
            Ok(co) => {
                if co == Option::Some(ValV::Bool(true)) {
                    sp_eval_block(
                        c.env,
                        d.block,
                        c.env.len() as int,
                        Seq::empty(),
                        Seq::empty(),
                        true,
                        c.rest,
                        (fuel - 1) as nat,
                    )
                } else {
                    match d.next {
                        Option::Some(n) => sp_eval_match(c.env, *n, scope, c.rest, (fuel - 1) as nat),
                        Option::None => EvalOut { env: c.env, rest: c.rest, res: Ok(Option::None) },
                    }
                }
            },
        }
    }
}

} // verus!
