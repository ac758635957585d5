//! Laws of the language, proved once and for all over the models in `scan`,
//! `sem` and `values`: scope-chain visibility and shadowing, the frame
//! property of popped call scopes, top-level persistence of definitions,
//! operator left-split scanning, multi-line continuation, the fatality of
//! unclosed markers, operator typing on strings, decision-chain selection,
//! the rejection of void definitions, and the determinism of programs whose
//! scope chain binds no native function.

use vstd::prelude::*;
use crate::ast::{DecisionV, ExprV, JOINT, TokV, TokenV};
use crate::errors::{PErrKindV, PErrV, RtErrV};
use crate::runtime::sp_register;
use crate::scan::{sp_expression, sp_node, sp_op, sp_scan};
use crate::text::{is_join_c, sp_trim};
use crate::utils::TOCLOSE;
use crate::sem::{sp_bind, sp_eval_args, sp_eval_block, sp_eval_def, sp_eval_expr, sp_eval_match,
    sp_eval_stmts, sp_get, sp_get_walk, EnvV, EvalOut, NRes};
use crate::values::{sp_apply_op, ValV};

verus! {

/// A name bound in the innermost scope shadows every outer binding: lookup
/// returns the innermost value, reported at the queried depth.
pub proof fn lemma_scope_shadowing(env: EnvV, id: Seq<char>, scope: int)
    requires
        env.len() > 0,
        env.last().contains_key(id),
    ensures
        sp_get(env, id, scope) == Option::Some((scope, env.last()[id])),
{
}

/// A name defined in an outer scope is visible from a deeper scope unless
/// shadowed: when the innermost scope does not bind it, lookup from depth
/// `scope` returns the binding at the deepest depth `d <= scope` that binds
/// it.
pub proof fn lemma_outer_scope_visible(env: EnvV, id: Seq<char>, scope: int, d: int)
    requires
        0 <= scope < env.len(),
        0 <= d <= scope,
        !env.last().contains_key(id),
        env[d].contains_key(id),
        forall|s: int| d < s <= scope ==> !(#[trigger] env[s].contains_key(id)),
    ensures
        sp_get(env, id, scope) == Option::Some((d, env[d][id])),
    decreases scope,
{
    if d == scope {
    } else {
        lemma_outer_scope_visible(env, id, scope - 1, d);
    }
}

/// A name bound nowhere on the consulted path is not found, and the caller
/// must then raise the fatal variable-not-found error.
pub proof fn lemma_unbound_not_found(env: EnvV, id: Seq<char>, scope: int)
    requires
        env.len() > 0,
        !env.last().contains_key(id),
        forall|s: int| 0 <= s <= scope && s < env.len() ==> !(#[trigger] env[s].contains_key(id)),
    ensures
        sp_get(env, id, scope) is None,
    decreases scope,
{
    if 0 < scope && scope < env.len() {
        lemma_unbound_not_found(env, id, scope - 1);
    }
}

/// Registration is exact: the global scope built from a name list binds
/// precisely the listed names, each to the native function of that name.
pub proof fn lemma_sp_register(names: Seq<Seq<char>>, k: Seq<char>)
    ensures
        sp_register(names).contains_key(k) <==> names.contains(k),
        sp_register(names).contains_key(k) ==> sp_register(names)[k] == ValV::Rusty(k),
    decreases names.len(),
{
    if names.len() > 0 {
        lemma_sp_register(names.drop_last(), k);
        assert(names.contains(k) ==> (names.last() == k || names.drop_last().contains(k))) by {
            if names.contains(k) {
                let i = choose|i: int| 0 <= i < names.len() && names[i] == k;
                if i < names.len() - 1 {
                    assert(names.drop_last()[i] == k);
                }
            }
        }
        assert(names.drop_last().contains(k) ==> names.contains(k)) by {
            if names.drop_last().contains(k) {
                let i = choose|i: int| 0 <= i < names.drop_last().len() && names.drop_last()[i]
                    == k;
                assert(names[i] == k);
            }
        }
        assert(names.last() == k ==> names.contains(k)) by {
            if names.last() == k {
                assert(names[names.len() - 1] == k);
            }
        }
    }
}

/// Frame property of expression evaluation: an expression that evaluates
/// without error leaves the scope chain exactly as it was.
pub proof fn frame_expr(env: EnvV, e: ExprV, scope: int, oracle: Seq<NRes>, fuel: nat)
    ensures
        sp_eval_expr(env, e, scope, oracle, fuel).res is Ok ==> sp_eval_expr(
            env,
            e,
            scope,
            oracle,
            fuel,
        ).env == env,
    decreases fuel,
{
    if fuel == 0 {
        return ;
    }
    let f1 = (fuel - 1) as nat;
    match e {
        ExprV::Op { joint, lhs, rhs } => {
            frame_expr(env, *lhs, scope, oracle, f1);
            let l = sp_eval_expr(env, *lhs, scope, oracle, f1);
            if l.res is Ok {
                frame_expr(l.env, *rhs, scope, l.rest, f1);
            }
        },
        ExprV::Decision(d) => {
            frame_match(env, d, scope, oracle, f1);
        },
        ExprV::Scope(body) => {
            frame_block(env, body, env.len() as int, Seq::empty(), Seq::empty(), true, oracle, f1);
        },
        ExprV::FcCall { name, args } => {
            frame_args(env, args, 0, scope, Seq::empty(), oracle, f1);
            let a = sp_eval_args(env, args, 0, scope, Seq::empty(), oracle, f1);
            match sp_get(env, name, scope) {
                Option::Some(dv) => {
                    if a.res is Ok {
                        match dv.1 {
                            ValV::Lamda { params, value } => {
                                frame_block(
                                    a.env,
                                    value,
                                    dv.0,
                                    a.res->Ok_0,
                                    params,
                                    true,
                                    a.rest,
                                    f1,
                                );
                            },
                            _ => {},
                        }
                    }
                },
                Option::None => {},
            }
        },
        _ => {},
    }
}

/// Frame property of argument-list evaluation.
pub proof fn frame_args(
    env: EnvV,
    args: Seq<ExprV>,
    i: int,
    scope: int,
    acc: Seq<ValV>,
    oracle: Seq<NRes>,
    fuel: nat,
)
    ensures
        sp_eval_args(env, args, i, scope, acc, oracle, fuel).res is Ok ==> sp_eval_args(
            env,
            args,
            i,
            scope,
            acc,
            oracle,
            fuel,
        ).env == env,
    decreases fuel,
{
    if fuel == 0 {
        return ;
    }
    let f1 = (fuel - 1) as nat;
    if 0 <= i < args.len() {
        frame_expr(env, args[i], scope, oracle, f1);
        let r = sp_eval_expr(env, args[i], scope, oracle, f1);
        match r.res {
            Ok(opt) => match opt {
                Option::Some(v) => {
                    frame_args(r.env, args, i + 1, scope, acc.push(v), r.rest, f1);
                },
                Option::None => {},
            },
            Err(_) => {},
        }
    }
}

/// Frame property of decision evaluation.
pub proof fn frame_match(env: EnvV, d: DecisionV, scope: int, oracle: Seq<NRes>, fuel: nat)
    ensures
        sp_eval_match(env, d, scope, oracle, fuel).res is Ok ==> sp_eval_match(
            env,
            d,
            scope,
            oracle,
            fuel,
        ).env == env,
    decreases fuel,
{
    if fuel == 0 {
        return ;
    }
    let f1 = (fuel - 1) as nat;
    frame_expr(env, *d.cond, scope, oracle, f1);
    let c = sp_eval_expr(env, *d.cond, scope, oracle, f1);
    if c.res is Ok {
        if c.res->Ok_0 == Option::Some(ValV::Bool(true)) {
            frame_block(
                c.env,
                d.block,
                c.env.len() as int,
                Seq::empty(),
                Seq::empty(),
                true,
                c.rest,
                f1,
            );
        } else {
            match d.next {
                Option::Some(n) => {
                    frame_match(c.env, *n, scope, c.rest, f1);
                },
                Option::None => {},
            }
        }
    }
}

/// Frame property of definition evaluation: a successful definition changes
/// at most the innermost scope.
pub proof fn frame_def(
    env: EnvV,
    name: Seq<char>,
    value: ExprV,
    scope: int,
    oracle: Seq<NRes>,
    fuel: nat,
)
    ensures
        ({
            let r = sp_eval_def(env, name, value, scope, oracle, fuel);
            r.res is Ok ==> r.env.len() == env.len() && (env.len() > 0 ==> r.env =~= env.update(
                env.len() - 1,
                r.env.last(),
            ))
        }),
    decreases fuel,
{
    if fuel == 0 {
        return ;
    }
    let f1 = (fuel - 1) as nat;
    frame_expr(env, value, scope, oracle, f1);
}

/// Frame property of a statement run: every scope but the innermost is left
/// as it was, and the chain keeps its length.
pub proof fn frame_stmts(
    env: EnvV,
    toks: Seq<TokV>,
    i: int,
    scope: int,
    acc: Option<ValV>,
    oracle: Seq<NRes>,
    fuel: nat,
)
    ensures
        ({
            let r = sp_eval_stmts(env, toks, i, scope, acc, oracle, fuel);
            r.res is Ok ==> r.env.len() == env.len() && (env.len() > 0 ==> r.env =~= env.update(
                env.len() - 1,
                r.env.last(),
            ))
        }),
    decreases fuel,
{
    if fuel == 0 {
        return ;
    }
    let f1 = (fuel - 1) as nat;
    if 0 <= i < toks.len() {
        match toks[i].token {
            TokenV::Def { name, value } => {
                frame_def(env, name, *value, scope, oracle, f1);
                let r = sp_eval_def(env, name, *value, scope, oracle, f1);
                if r.res is Ok {
                    frame_stmts(r.env, toks, i + 1, scope, acc, r.rest, f1);
                }
            },
            TokenV::Expr(e) => {
                frame_expr(env, *e, scope, oracle, f1);
                let r = sp_eval_expr(env, *e, scope, oracle, f1);
                if r.res is Ok {
                    frame_stmts(r.env, toks, i + 1, scope, acc, r.rest, f1);
                }
            },
            TokenV::Return(e) => {
                frame_expr(env, *e, scope, oracle, f1);
                let r = sp_eval_expr(env, *e, scope, oracle, f1);
                if r.res is Ok {
                    frame_stmts(r.env, toks, i + 1, scope, r.res->Ok_0, r.rest, f1);
                }
            },
        }
    }
}

/// Frame property of block evaluation: with `drop` requested, a block that
/// runs without error leaves the scope chain exactly as it was; without
/// `drop`, it leaves one new innermost scope on top of the unchanged chain.
pub proof fn frame_block(
    env: EnvV,
    toks: Seq<TokV>,
    scope: int,
    args: Seq<ValV>,
    params: Seq<Seq<char>>,
    drop: bool,
    oracle: Seq<NRes>,
    fuel: nat,
)
    ensures
        ({
            let r = sp_eval_block(env, toks, scope, args, params, drop, oracle, fuel);
            r.res is Ok ==> (if drop {
                r.env == env
            } else {
                r.env.len() == env.len() + 1 && r.env =~= env.push(r.env.last())
            })
        }),
    decreases fuel,
{
    if fuel == 0 {
        return ;
    }
    let f1 = (fuel - 1) as nat;
    if args.len() == params.len() {
        let env2 = env.push(Map::empty()).update(env.len() as int, sp_bind(Map::empty(), params, args, 0));
        frame_stmts(env2, toks, 0, scope, Option::None, oracle, f1);
        let run = sp_eval_stmts(env2, toks, 0, scope, Option::None, oracle, f1);
        if run.res is Ok {
            assert(env2 =~= env.push(sp_bind(Map::empty(), params, args, 0)));
            assert(run.env =~= env2.update(env2.len() - 1, run.env.last()));
            if drop {
                assert(run.env.drop_last() =~= env);
            }
        }
    }
}

/// After a popped call scope returns, its bindings are no longer visible to
/// the caller: every lookup gives exactly what it gave before the call.
pub proof fn lemma_popped_scope_invisible(
    env: EnvV,
    toks: Seq<TokV>,
    scope: int,
    args: Seq<ValV>,
    params: Seq<Seq<char>>,
    oracle: Seq<NRes>,
    fuel: nat,
    id: Seq<char>,
    s: int,
)
    ensures
        ({
            let r = sp_eval_block(env, toks, scope, args, params, true, oracle, fuel);
            r.res is Ok ==> sp_get(r.env, id, s) == sp_get(env, id, s)
        }),
{
    frame_block(env, toks, scope, args, params, true, oracle, fuel);
}

/// Top-level persistence: a top-level definition block evaluated without
/// popping leaves its binding in the innermost scope, and any later
/// reference to the name — from any depth, with any oracle and any
/// remaining fuel — yields exactly the bound value.
pub proof fn lemma_top_level_persistence(
    env: EnvV,
    name: Seq<char>,
    value: ExprV,
    ln: int,
    scope: int,
    oracle: Seq<NRes>,
    fuel: nat,
)
    ensures
        ({
            let r = sp_eval_block(
                env,
                seq![TokV { line: ln, token: TokenV::Def { name, value: Box::new(value) } }],
                scope,
                Seq::empty(),
                Seq::empty(),
                false,
                oracle,
                fuel,
            );
            r.res is Ok ==> r.env.len() == env.len() + 1 && r.env.last().contains_key(name)
                && (forall|s: int, o2: Seq<NRes>, f2: nat|
                f2 > 0 ==> (#[trigger] sp_eval_expr(r.env, ExprV::Call(name), s, o2, f2)).res
                    == Ok::<Option<ValV>, RtErrV>(Option::Some(r.env.last()[name])))
        }),
{
    let toks = seq![TokV { line: ln, token: TokenV::Def { name, value: Box::new(value) } }];
    let r = sp_eval_block(
        env,
        toks,
        scope,
        Seq::empty(),
        Seq::empty(),
        false,
        oracle,
        fuel,
    );
    frame_block(env, toks, scope, Seq::empty(), Seq::empty(), false, oracle, fuel);
    if fuel > 0 && r.res is Ok {
        let f1 = (fuel - 1) as nat;
        let env2 = env.push(Map::empty()).update(
            env.len() as int,
            sp_bind(Map::empty(), Seq::empty(), Seq::empty(), 0),
        );
        let d = sp_eval_def(env2, name, value, scope, oracle, (f1 - 1) as nat);
        frame_def(env2, name, value, scope, oracle, (f1 - 1) as nat);
        assert(d.res is Ok);
        assert(d.env.last().contains_key(name));
        assert forall|s: int, o2: Seq<NRes>, f2: nat|
            f2 > 0 implies (#[trigger] sp_eval_expr(r.env, ExprV::Call(name), s, o2, f2)).res
            == Ok::<Option<ValV>, RtErrV>(Option::Some(r.env.last()[name])) by {
            lemma_scope_shadowing(r.env, name, s);
        }
    }
}

/// String concatenation under `+`: two strings concatenate; a string and a
/// number are a fatal type error, in either order.
pub proof fn lemma_string_concat(a: Seq<char>, b: Seq<char>, i: i64)
    ensures
        sp_apply_op(JOINT::ADD, ValV::Str(a), ValV::Str(b)) == Ok::<ValV, RtErrV>(
            ValV::Str(a + b),
        ),
        sp_apply_op(JOINT::ADD, ValV::Str(a), ValV::Int(i)) == Err::<ValV, RtErrV>(
            RtErrV::TypeError(JOINT::ADD),
        ),
        sp_apply_op(JOINT::ADD, ValV::Int(i), ValV::Str(a)) == Err::<ValV, RtErrV>(
            RtErrV::TypeError(JOINT::ADD),
        ),
{
}

/// Decision-chain selection: a condition evaluating exactly to `Bool(true)`
/// takes its branch, which runs as a fresh always-popped scope.
pub proof fn lemma_decision_taken(env: EnvV, d: DecisionV, scope: int, oracle: Seq<NRes>, fuel: nat)
    requires
        fuel > 0,
        sp_eval_expr(env, *d.cond, scope, oracle, (fuel - 1) as nat).res == Ok::<
            Option<ValV>,
            RtErrV,
        >(Option::Some(ValV::Bool(true))),
    ensures
        ({
            let c = sp_eval_expr(env, *d.cond, scope, oracle, (fuel - 1) as nat);
            sp_eval_match(env, d, scope, oracle, fuel) == sp_eval_block(
                c.env,
                d.block,
                c.env.len() as int,
                Seq::empty(),
                Seq::empty(),
                true,
                c.rest,
                (fuel - 1) as nat,
            )
        }),
{
}

/// Decision-chain selection: any other condition value — `Bool(false)`, a
/// number, a string, a lambda — falls through to the next link, and a chain
/// without a next link yields no value.
pub proof fn lemma_decision_falls_through(
    env: EnvV,
    d: DecisionV,
    scope: int,
    oracle: Seq<NRes>,
    fuel: nat,
)
    requires
        fuel > 0,
        sp_eval_expr(env, *d.cond, scope, oracle, (fuel - 1) as nat).res is Ok,
        sp_eval_expr(env, *d.cond, scope, oracle, (fuel - 1) as nat).res->Ok_0 != Option::Some(
            ValV::Bool(true),
        ),
    ensures
        ({
            let c = sp_eval_expr(env, *d.cond, scope, oracle, (fuel - 1) as nat);
            sp_eval_match(env, d, scope, oracle, fuel) == match d.next {
                Option::Some(n) => sp_eval_match(c.env, *n, scope, c.rest, (fuel - 1) as nat),
                Option::None => EvalOut { env: c.env, rest: c.rest, res: Ok(Option::None) },
            }
        }),
{
}

/// Operator left-split: the first operator character met at bracket depth
/// zero — outside an arrow or a pending condition, and not opening an arrow
/// itself — closes the text so far as the left operand and parses the whole
/// remainder recursively as the right operand; operators have no precedence.
pub proof fn lemma_operator_left_split(
    lines: Seq<Seq<char>>,
    cov: int,
    buf: Seq<char>,
    i: int,
    parts: Seq<char>,
    cond: Option<Seq<char>>,
    fuel: nat,
)
    requires
        fuel > 0,
        0 <= i < buf.len(),
        is_join_c(buf[i]),
        !(buf[i] == '-' && i + 1 < buf.len() && buf[i + 1] == '>'),
    ensures
        ({
            let r = sp_scan(
                lines,
                cov,
                buf,
                i,
                Seq::empty(),
                false,
                false,
                parts,
                cond,
                fuel,
            );
            let lhs = sp_node(lines, cov, parts, (fuel - 1) as nat);
            lhs.res is Ok ==> {
                let rhs = sp_expression(
                    lines,
                    lhs.cov,
                    buf.subrange(i + 1, buf.len() as int),
                    (fuel - 1) as nat,
                );
                rhs.res is Ok ==> r.res == Ok::<ExprV, PErrV>(
                    ExprV::Op {
                        joint: sp_op(buf[i]),
                        lhs: Box::new(lhs.res->Ok_0),
                        rhs: Box::new(rhs.res->Ok_0),
                    },
                )
            }
        }),
{
}

/// Multi-line continuation: when the scanner reaches the end of its buffer
/// with a marker still open and a next source line exists, it parses exactly
/// as if that line — trimmed, joined by a newline — had been part of the
/// buffer all along.
pub proof fn lemma_multiline_continuation(
    lines: Seq<Seq<char>>,
    cov: int,
    buf: Seq<char>,
    st: Seq<TOCLOSE>,
    in_arrow: bool,
    in_cond: bool,
    parts: Seq<char>,
    cond: Option<Seq<char>>,
    fuel: nat,
)
    requires
        fuel > 0,
        st.len() > 0,
        cov + 1 < lines.len(),
    ensures
        sp_scan(lines, cov, buf, buf.len() as int, st, in_arrow, in_cond, parts, cond, fuel)
            == sp_scan(
            lines,
            cov + 1,
            buf + seq!['\n'] + sp_trim(lines[cov + 1]),
            buf.len() as int,
            st,
            in_arrow,
            in_cond,
            parts,
            cond,
            (fuel - 1) as nat,
        ),
{
}

/// Unbalanced input: when the source ends while a marker is still open, the
/// parse fails with an error naming the most recently opened marker — never
/// a silent truncation.
pub proof fn lemma_unclosed_at_end_of_input(
    lines: Seq<Seq<char>>,
    cov: int,
    buf: Seq<char>,
    st: Seq<TOCLOSE>,
    in_arrow: bool,
    in_cond: bool,
    parts: Seq<char>,
    cond: Option<Seq<char>>,
    fuel: nat,
)
    requires
        fuel > 0,
        st.len() > 0,
        cov + 1 >= lines.len(),
    ensures
        sp_scan(lines, cov, buf, buf.len() as int, st, in_arrow, in_cond, parts, cond, fuel).res
            == Err::<ExprV, PErrV>(
            PErrV { line: lines.len() as int, kind: PErrKindV::Unclosed(st.last()) },
        ),
{
}

/// A scope that binds no native function.
pub open spec fn rusty_free_map(m: Map<Seq<char>, ValV>) -> bool {
    forall|k: Seq<char>| m.contains_key(k) ==> !(#[trigger] m[k] is Rusty)
}

/// A scope chain that binds no native function anywhere.
pub open spec fn rusty_free(env: EnvV) -> bool {
    forall|s: int| 0 <= s < env.len() ==> rusty_free_map(#[trigger] env[s])
}

/// Whether an optional value is not a native.
pub open spec fn not_rusty_opt(o: Option<ValV>) -> bool {
    match o {
        Option::Some(v) => !(v is Rusty),
        Option::None => true,
    }
}

/// Whether no value in a list is a native.
pub open spec fn all_not_rusty(s: Seq<ValV>) -> bool {
    forall|i: int| 0 <= i < s.len() ==> !(#[trigger] s[i] is Rusty)
}

/// Lookup in a native-free chain never yields a native.
pub proof fn lemma_get_not_rusty(env: EnvV, id: Seq<char>, scope: int)
    requires
        rusty_free(env),
    ensures
        match sp_get(env, id, scope) {
            Option::Some(dv) => !(dv.1 is Rusty),
            Option::None => true,
        },
{
    lemma_get_walk_not_rusty(env, id, scope);
}

proof fn lemma_get_walk_not_rusty(env: EnvV, id: Seq<char>, s: int)
    requires
        rusty_free(env),
    ensures
        match sp_get_walk(env, id, s) {
            Option::Some(dv) => !(dv.1 is Rusty),
            Option::None => true,
        },
    decreases s,
{
    if 0 < s && s < env.len() && !env[s].contains_key(id) {
        lemma_get_walk_not_rusty(env, id, s - 1);
    }
}

/// Binding native-free values into a native-free scope keeps it native-free.
proof fn lemma_bind_rusty_free(
    m: Map<Seq<char>, ValV>,
    params: Seq<Seq<char>>,
    args: Seq<ValV>,
    i: int,
)
    requires
        rusty_free_map(m),
        all_not_rusty(args),
    ensures
        rusty_free_map(sp_bind(m, params, args, i)),
    decreases params.len() - i,
{
    if 0 <= i && i < params.len() && i < args.len() {
        lemma_bind_rusty_free(m.insert(params[i], args[i]), params, args, i + 1);
    }
}

/// Native-free determinism, expressions: in a chain that binds no native,
/// evaluation consumes no oracle entry, yields the same outcome whatever the
/// oracle holds, keeps the chain native-free and never produces a native.
pub proof fn det_expr(env: EnvV, e: ExprV, scope: int, o1: Seq<NRes>, o2: Seq<NRes>, fuel: nat)
    requires
        rusty_free(env),
    ensures
        ({
            let r1 = sp_eval_expr(env, e, scope, o1, fuel);
            let r2 = sp_eval_expr(env, e, scope, o2, fuel);
            r1.env == r2.env && r1.res == r2.res && r1.rest == o1 && r2.rest == o2 && (r1.res is Ok
                ==> rusty_free(r1.env) && not_rusty_opt(r1.res->Ok_0))
        }),
    decreases fuel,
{
    if fuel == 0 {
        return ;
    }
    let f1 = (fuel - 1) as nat;
    match e {
        ExprV::Call(name) => {
            lemma_get_not_rusty(env, name, scope);
        },
        ExprV::Op { joint, lhs, rhs } => {
            det_expr(env, *lhs, scope, o1, o2, f1);
            let l = sp_eval_expr(env, *lhs, scope, o1, f1);
            if l.res is Ok {
                det_expr(l.env, *rhs, scope, l.rest, sp_eval_expr(env, *lhs, scope, o2, f1).rest, f1);
            }
        },
        ExprV::Decision(d) => {
            det_match(env, d, scope, o1, o2, f1);
        },
        ExprV::Scope(body) => {
            det_block(env, body, env.len() as int, Seq::empty(), Seq::empty(), true, o1, o2, f1);
        },
        ExprV::FcCall { name, args } => {
            lemma_get_not_rusty(env, name, scope);
            det_args(env, args, 0, scope, Seq::empty(), o1, o2, f1);
            let a = sp_eval_args(env, args, 0, scope, Seq::empty(), o1, f1);
            match sp_get(env, name, scope) {
                Option::Some(dv) => {
                    if a.res is Ok {
                        match dv.1 {
                            ValV::Lamda { params, value } => {
                                det_block(
                                    a.env,
                                    value,
                                    dv.0,
                                    a.res->Ok_0,
                                    params,
                                    true,
                                    a.rest,
                                    sp_eval_args(env, args, 0, scope, Seq::empty(), o2, f1).rest,
                                    f1,
                                );
                            },
                            _ => {},
                        }
                    }
                },
                Option::None => {},
            }
        },
        _ => {},
    }
}

/// Native-free determinism, argument lists.
pub proof fn det_args(
    env: EnvV,
    args: Seq<ExprV>,
    i: int,
    scope: int,
    acc: Seq<ValV>,
    o1: Seq<NRes>,
    o2: Seq<NRes>,
    fuel: nat,
)
    requires
        rusty_free(env),
        all_not_rusty(acc),
    ensures
        ({
            let r1 = sp_eval_args(env, args, i, scope, acc, o1, fuel);
            let r2 = sp_eval_args(env, args, i, scope, acc, o2, fuel);
            r1.env == r2.env && r1.res == r2.res && r1.rest == o1 && r2.rest == o2 && (r1.res is Ok
                ==> rusty_free(r1.env) && all_not_rusty(r1.res->Ok_0))
        }),
    decreases fuel,
{
    if fuel == 0 {
        return ;
    }
    let f1 = (fuel - 1) as nat;
    if 0 <= i < args.len() {
        det_expr(env, args[i], scope, o1, o2, f1);
        let r = sp_eval_expr(env, args[i], scope, o1, f1);
        match r.res {
            Ok(opt) => match opt {
                Option::Some(v) => {
                    assert(all_not_rusty(acc.push(v)));
                    det_args(
                        r.env,
                        args,
                        i + 1,
                        scope,
                        acc.push(v),
                        r.rest,
                        sp_eval_expr(env, args[i], scope, o2, f1).rest,
                        f1,
                    );
                },
                Option::None => {},
            },
            Err(_) => {},
        }
    }
}

/// Native-free determinism, decision chains.
pub proof fn det_match(env: EnvV, d: DecisionV, scope: int, o1: Seq<NRes>, o2: Seq<NRes>, fuel: nat)
    requires
        rusty_free(env),
    ensures
        ({
            let r1 = sp_eval_match(env, d, scope, o1, fuel);
            let r2 = sp_eval_match(env, d, scope, o2, fuel);
            r1.env == r2.env && r1.res == r2.res && r1.rest == o1 && r2.rest == o2 && (r1.res is Ok
                ==> rusty_free(r1.env) && not_rusty_opt(r1.res->Ok_0))
        }),
    decreases fuel,
{
    if fuel == 0 {
        return ;
    }
    let f1 = (fuel - 1) as nat;
    det_expr(env, *d.cond, scope, o1, o2, f1);
    let c = sp_eval_expr(env, *d.cond, scope, o1, f1);
    if c.res is Ok {
        if c.res->Ok_0 == Option::Some(ValV::Bool(true)) {
            det_block(
                c.env,
                d.block,
                c.env.len() as int,
                Seq::empty(),
                Seq::empty(),
                true,
                c.rest,
                sp_eval_expr(env, *d.cond, scope, o2, f1).rest,
                f1,
            );
        } else {
            match d.next {
                Option::Some(n) => {
                    det_match(c.env, *n, scope, c.rest, sp_eval_expr(env, *d.cond, scope, o2, f1).rest, f1);
                },
                Option::None => {},
            }
        }
    }
}

/// Native-free determinism, definitions.
pub proof fn det_def(
    env: EnvV,
    name: Seq<char>,
    value: ExprV,
    scope: int,
    o1: Seq<NRes>,
    o2: Seq<NRes>,
    fuel: nat,
)
    requires
        rusty_free(env),
    ensures
        ({
            let r1 = sp_eval_def(env, name, value, scope, o1, fuel);
            let r2 = sp_eval_def(env, name, value, scope, o2, fuel);
            r1.env == r2.env && r1.res == r2.res && r1.rest == o1 && r2.rest == o2 && (r1.res is Ok
                ==> rusty_free(r1.env) && not_rusty_opt(r1.res->Ok_0))
        }),
    decreases fuel,
{
    if fuel == 0 {
        return ;
    }
    let f1 = (fuel - 1) as nat;
    det_expr(env, value, scope, o1, o2, f1);
}

/// Native-free determinism, statement runs.
pub proof fn det_stmts(
    env: EnvV,
    toks: Seq<TokV>,
    i: int,
    scope: int,
    acc: Option<ValV>,
    o1: Seq<NRes>,
    o2: Seq<NRes>,
    fuel: nat,
)
    requires
        rusty_free(env),
        not_rusty_opt(acc),
    ensures
        ({
            let r1 = sp_eval_stmts(env, toks, i, scope, acc, o1, fuel);
            let r2 = sp_eval_stmts(env, toks, i, scope, acc, o2, fuel);
            r1.env == r2.env && r1.res == r2.res && r1.rest == o1 && r2.rest == o2 && (r1.res is Ok
                ==> rusty_free(r1.env) && not_rusty_opt(r1.res->Ok_0))
        }),
    decreases fuel,
{
    if fuel == 0 {
        return ;
    }
    let f1 = (fuel - 1) as nat;
    if 0 <= i < toks.len() {
        match toks[i].token {
            TokenV::Def { name, value } => {
                det_def(env, name, *value, scope, o1, o2, f1);
                let r = sp_eval_def(env, name, *value, scope, o1, f1);
                if r.res is Ok {
                    det_stmts(r.env, toks, i + 1, scope, acc, r.rest, sp_eval_def(env, name, *value, scope, o2, f1).rest, f1);
                }
            },
            TokenV::Expr(e) => {
                det_expr(env, *e, scope, o1, o2, f1);
                let r = sp_eval_expr(env, *e, scope, o1, f1);
                if r.res is Ok {
                    det_stmts(r.env, toks, i + 1, scope, acc, r.rest, sp_eval_expr(env, *e, scope, o2, f1).rest, f1);
                }
            },
            TokenV::Return(e) => {
                det_expr(env, *e, scope, o1, o2, f1);
                let r = sp_eval_expr(env, *e, scope, o1, f1);
                if r.res is Ok {
                    det_stmts(
                        r.env,
                        toks,
                        i + 1,
                        scope,
                        r.res->Ok_0,
                        r.rest,
                        sp_eval_expr(env, *e, scope, o2, f1).rest,
                        f1,
                    );
                }
            },
        }
    }
}

/// Native-free determinism: a block evaluated in a scope chain that binds no
/// native function consumes no oracle entry and yields the same outcome and
/// the same final chain whatever the native table would have answered.
pub proof fn det_block(
    env: EnvV,
    toks: Seq<TokV>,
    scope: int,
    args: Seq<ValV>,
    params: Seq<Seq<char>>,
    drop: bool,
    o1: Seq<NRes>,
    o2: Seq<NRes>,
    fuel: nat,
)
    requires
        rusty_free(env),
        all_not_rusty(args),
    ensures
        ({
            let r1 = sp_eval_block(env, toks, scope, args, params, drop, o1, fuel);
            let r2 = sp_eval_block(env, toks, scope, args, params, drop, o2, fuel);
            r1.env == r2.env && r1.res == r2.res && r1.rest == o1 && r2.rest == o2 && (r1.res is Ok
                ==> rusty_free(r1.env) && not_rusty_opt(r1.res->Ok_0))
        }),
    decreases fuel,
{
    if fuel == 0 {
        return ;
    }
    let f1 = (fuel - 1) as nat;
    if args.len() == params.len() {
        let m = sp_bind(Map::empty(), params, args, 0);
        lemma_bind_rusty_free(Map::empty(), params, args, 0);
        let env2 = env.push(Map::empty()).update(env.len() as int, m);
        assert(rusty_free(env2)) by {
            assert(env2 =~= env.push(m));
            assert forall|s: int| 0 <= s < env2.len() implies rusty_free_map(#[trigger] env2[s]) by {
                if s < env.len() {
                    assert(env2[s] == env[s]);
                }
            }
        }
        det_stmts(env2, toks, 0, scope, Option::None, o1, o2, f1);
        let run = sp_eval_stmts(env2, toks, 0, scope, Option::None, o1, f1);
        if run.res is Ok && drop && run.env.len() > 0 {
            assert(rusty_free(run.env.drop_last())) by {
                assert forall|s: int| 0 <= s < run.env.drop_last().len() implies rusty_free_map(
                    #[trigger] run.env.drop_last()[s],
                ) by {
                    assert(run.env.drop_last()[s] == run.env[s]);
                }
            }
        }
    }
}

/// Definition-of-void rejection: binding an expression that yields no value
/// is a fatal runtime error naming the definition.
pub proof fn lemma_definition_of_void(
    env: EnvV,
    name: Seq<char>,
    value: ExprV,
    scope: int,
    oracle: Seq<NRes>,
    fuel: nat,
)
    requires
        fuel > 0,
        sp_eval_expr(env, value, scope, oracle, (fuel - 1) as nat).res == Ok::<
            Option<ValV>,
            RtErrV,
        >(Option::None),
    ensures
        sp_eval_def(env, name, value, scope, oracle, fuel).res == Err::<Option<ValV>, RtErrV>(
            RtErrV::StoreVoid(name),
        ),
{
}

} // verus!
