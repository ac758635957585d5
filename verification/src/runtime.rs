//! The executable runtime: the scope chain, the pluggable native-function
//! table, and the tree-walking evaluator, proved to match the model in
//! `sem` for the oracle of native-call outcomes it actually saw.

use vstd::prelude::*;
use crate::ast::{Decision, Def, Expr, Token, Tokens};
use crate::ast::{view_args, view_block, view_decision, view_expr, view_names,
    lemma_view_args_len, lemma_view_block_len};
use crate::errors::{view_rterr, RtErr};
use crate::sem::{sp_bind, sp_eval_args, sp_eval_block, sp_eval_def, sp_eval_expr, sp_eval_match,
    sp_eval_stmts, sp_get, sp_get_walk, ArgsOut, EnvV, EvalOut, NRes};
use crate::values::{apply_op, dup_block, dup_strings, dup_variable, lemma_view_vals_push,
    lemma_view_vals_len, opt_val_view, res_view, view_variable, view_vals, ValV, Variable};

verus! {

/// One scope: the bindings made in it, oldest first; a later binding of the
/// same name shadows an earlier one.
type Bindings = Vec<(String, Variable)>;

/// The map a scope's binding list denotes.
pub open spec fn al_map(s: Seq<(String, Variable)>) -> Map<Seq<char>, ValV>
    decreases s.len(),
{
    if s.len() == 0 {
        Map::empty()
    } else {
        al_map(s.drop_last()).insert(s.last().0@, view_variable(s.last().1))
    }
}

/// View of the whole scope chain.
pub open spec fn view_env(v: Seq<Bindings>) -> EnvV {
    v.map_values(|sc: Bindings| al_map(sc@))
}

/// The scope chain of variable bindings, addressed by integer depth;
/// depth 0 is the outermost (global) scope.
pub struct Vars {
    vars: Vec<Bindings>,
}

/// Find the latest binding of `id` among the first `j` entries of a scope.
fn al_find_upto(sc: &Bindings, id: &String, j: usize) -> (r: Option<Variable>)
    requires
        j <= sc@.len(),
    ensures
        match r {
            Option::Some(v) => al_map(sc@.subrange(0, j as int)).contains_key(id@)
                && view_variable(v) == al_map(sc@.subrange(0, j as int))[id@],
            Option::None => !al_map(sc@.subrange(0, j as int)).contains_key(id@),
        },
    decreases j,
{
    if j == 0 {
        proof {
            assert(sc@.subrange(0, 0) =~= Seq::<(String, Variable)>::empty());
        }
        None
    } else {
        proof {
            assert(sc@.subrange(0, j as int).drop_last() =~= sc@.subrange(0, j - 1 as int));
            assert(sc@.subrange(0, j as int).last() == sc@[j - 1]);
        }
        if sc[j - 1].0 == *id {
            Some(dup_variable(&sc[j - 1].1))
        } else {
            al_find_upto(sc, id, j - 1)
        }
    }
}

/// Find the latest binding of `id` in a scope.
fn al_find(sc: &Bindings, id: &String) -> (r: Option<Variable>)
    ensures
        match r {
            Option::Some(v) => al_map(sc@).contains_key(id@) && view_variable(v) == al_map(sc@)[id@],
            Option::None => !al_map(sc@).contains_key(id@),
        },
{
    let r = al_find_upto(sc, id, sc.len());
    proof {
        assert(sc@.subrange(0, sc@.len() as int) =~= sc@);
    }
    r
}

impl Vars {
    /// The scope chain, as a sequence of maps, outermost first.
    pub closed spec fn env(&self) -> EnvV {
        view_env(self.vars@)
    }

    /// A chain holding one empty global scope.
    pub fn new() -> (r: Vars)
        ensures
            r.env() == seq![Map::<Seq<char>, ValV>::empty()],
    {
        let mut list: Vec<Bindings> = Vec::new();
        list.push(Vec::new());
        let r = Vars { vars: list };
        proof {
            assert(r.env() =~= seq![Map::<Seq<char>, ValV>::empty()]);
        }
        r
    }

    /// Open a new innermost scope.
    pub fn push(&mut self)
        ensures
            final(self).env() == old(self).env().push(Map::<Seq<char>, ValV>::empty()),
    {
        self.vars.push(Vec::new());
        proof {
            assert(final(self).env() =~= old(self).env().push(Map::<Seq<char>, ValV>::empty()));
        }
    }

    /// Close the innermost scope; a chain with no scope at all is left as it
    /// is.
    pub fn pop(&mut self)
        ensures
            final(self).env() == if old(self).env().len() == 0 {
                old(self).env()
            } else {
                old(self).env().drop_last()
            },
    {
        if self.vars.len() > 0 {
            self.vars.pop();
            proof {
                assert(final(self).env() =~= old(self).env().drop_last());
            }
        }
    }

    /// Bind `id` to `data` in the innermost scope; a chain with no scope at
    /// all is left as it is.
    pub fn insert(&mut self, id: String, data: Variable)
        ensures
            final(self).env() == if old(self).env().len() == 0 {
                old(self).env()
            } else {
                old(self).env().update(
                    old(self).env().len() - 1,
                    old(self).env().last().insert(id@, view_variable(data)),
                )
            },
    {
        let n = self.vars.len();
        if n == 0 {
            return;
        }
        let ghost id_v = id@;
        let ghost data_v = view_variable(data);
        let mut last = self.vars.pop().unwrap();
        let ghost last0 = last@;
        last.push((id, data));
        proof {
            assert(last@.drop_last() =~= last0);
            assert(al_map(last@) == al_map(last0).insert(id_v, data_v));
        }
        self.vars.push(last);
        proof {
            assert(final(self).env() =~= old(self).env().update(
                old(self).env().len() - 1,
                old(self).env().last().insert(id_v, data_v),
            ));
        }
    }

    /// Walk the chain from depth `s` down toward 0, the global scope
    /// included.
    fn get_walk(&self, id: &String, s: usize) -> (r: Option<(usize, Variable)>)
        ensures
            match r {
                Option::Some(dv) => sp_get_walk(self.env(), id@, s as int) == Option::Some(
                    (dv.0 as int, view_variable(dv.1)),
                ) && dv.0 < self.env().len(),
                Option::None => sp_get_walk(self.env(), id@, s as int) is None,
            },
        decreases s,
    {
        if s >= self.vars.len() {
            None
        } else {
            match al_find(&self.vars[s], id) {
                Some(v) => Some((s, v)),
                None => {
                    if s == 0 {
                        None
                    } else {
                        self.get_walk(id, s - 1)
                    }
                },
            }
        }
    }

    /// Resolve `id`: look first in the innermost scope — reporting the
    /// queried depth when found there — then walk the chain from the queried
    /// depth down toward the global scope.
    pub fn get(&self, id: &String, scope: usize) -> (r: Option<(usize, Variable)>)
        ensures
            match r {
                Option::Some(dv) => sp_get(self.env(), id@, scope as int) == Option::Some(
                    (dv.0 as int, view_variable(dv.1)),
                ) && (dv.0 <= scope || dv.0 < self.env().len()),
                Option::None => sp_get(self.env(), id@, scope as int) is None,
            },
    {
        let n = self.vars.len();
        if n > 0 {
            match al_find(&self.vars[n - 1], id) {
                Some(v) => {
                    return Some((scope, v));
                },
                None => {},
            }
        }
        self.get_walk(id, scope)
    }

    /// How many scopes are open.
    pub fn scopes_number(&self) -> (r: usize)
        ensures
            r as int == self.env().len(),
    {
        self.vars.len()
    }
}

/// The externally supplied table of native functions. The evaluator calls
/// `invoke` whenever a script applies a name bound to a native; nothing is
/// assumed about what an implementation does or returns.
pub trait NativeTable {
    /// Run the native function `name` on the evaluated arguments.
    fn invoke(&mut self, name: &str, args: Vec<Variable>) -> Result<Option<Variable>, RtErr>;
}

/// The global scope a list of native names denotes: each name bound to the
/// native of that name.
pub open spec fn sp_register(names: Seq<Seq<char>>) -> Map<Seq<char>, ValV>
    decreases names.len(),
{
    if names.len() == 0 {
        Map::empty()
    } else {
        sp_register(names.drop_last()).insert(names.last(), ValV::Rusty(names.last()))
    }
}

/// The tree-walking evaluator: a scope chain and a native-function table.
pub struct Runtime<T: NativeTable> {
    data: Vars,
    natives: T,
}

impl<T: NativeTable> Runtime<T> {
    /// The scope chain, as a sequence of maps, outermost first.
    pub closed spec fn env(&self) -> EnvV {
        self.data.env()
    }

    /// A runtime over the given native table, with every listed native name
    /// bound in the global scope.
    pub fn new(natives: T, names: &Vec<String>) -> (r: Runtime<T>)
        ensures
            r.env() == seq![sp_register(view_names(names@))],
    {
        let mut data = Vars::new();
        let mut i: usize = 0;
        while i < names.len()
            invariant
                i <= names@.len(),
                data.env().len() == 1,
                data.env() == seq![sp_register(view_names(names@).subrange(0, i as int))],
            decreases names@.len() - i,
        {
            let ghost pre = data.env();
            data.insert(names[i].clone(), Variable::Rusty(names[i].clone()));
            proof {
                assert(view_names(names@).subrange(0, i + 1 as int).drop_last() =~= view_names(
                    names@,
                ).subrange(0, i as int));
                assert(data.env() =~= seq![
                    sp_register(view_names(names@).subrange(0, i + 1 as int)),
                ]);
            }
            i = i + 1;
        }
        proof {
            assert(view_names(names@).subrange(0, names@.len() as int) =~= view_names(names@));
        }
        Runtime { data, natives }
    }

    /// Evaluate a statement block; see `sem::sp_eval_block`. The oracle it
    /// holds is the sequence of native-call outcomes that really occurred.
    #[verifier::rlimit(100)]
    fn eval_w(
        &mut self,
        tokens: &Vec<Tokens>,
        scope: usize,
        args: Vec<Variable>,
        args_t_s: &Vec<String>,
        drop: bool,
        fuel: u64,
    ) -> (rr: (Result<Option<Variable>, RtErr>, Ghost<Seq<NRes>>))
        ensures
            forall|suf: Seq<NRes>| #[trigger] sp_eval_block(
                old(self).env(),
                view_block(tokens@),
                scope as int,
                view_vals(args@),
                view_names(args_t_s@),
                drop,
                rr.1@ + suf,
                fuel as nat,
            ) == (EvalOut { env: final(self).env(), rest: suf, res: res_view(rr.0) }),
        decreases fuel,
    {
        let ghost env0 = self.env();
        if fuel == 0 {
            let rr = (Err::<Option<Variable>, RtErr>(RtErr::Depth), Ghost(Seq::<NRes>::empty()));
            proof {
                assert forall|suf: Seq<NRes>| Seq::<NRes>::empty() + suf =~= suf by {}
            }
            return rr;
        }
        self.data.push();
        if args.len() != args_t_s.len() {
            let rr = (
                Err::<Option<Variable>, RtErr>(
                    RtErr::ArgCount { expected: args_t_s.len(), got: args.len() },
                ),
                Ghost(Seq::<NRes>::empty()),
            );
            proof {
                lemma_view_vals_len(args@);
                assert forall|suf: Seq<NRes>| Seq::<NRes>::empty() + suf =~= suf by {}
            }
            return rr;
        }
        let ghost pv = view_names(args_t_s@);
        let ghost av = view_vals(args@);
        proof {
            lemma_view_vals_len(args@);
        }
        let mut i: usize = 0;
        while i < args_t_s.len()
            invariant
                i <= args_t_s@.len(),
                args@.len() == args_t_s@.len(),
                pv == view_names(args_t_s@),
                av == view_vals(args@),
                av.len() == args@.len(),
                forall|j: int| 0 <= j < args@.len() ==> av[j] == view_variable(args@[j]),
                self.env().len() == env0.len() + 1,
                self.env() == env0.push(self.env().last()),
                sp_bind(Map::empty(), pv, av, 0) == sp_bind(self.env().last(), pv, av, i as int),
            decreases args_t_s@.len() - i,
        {
            let ghost m = self.env().last();
            self.data.insert(args_t_s[i].clone(), dup_variable(&args[i]));
            proof {
                assert(self.env() =~= env0.push(m.insert(pv[i as int], av[i as int])));
            }
            i = i + 1;
        }
        let ghost env2 = self.env();
        let (r, w) = self.eval_stmts_w(tokens, 0, scope, None, fuel - 1);
        let ghost renv = self.env();
        match r {
            Err(_) => {},
            Ok(_) => {
                if drop {
                    self.data.pop();
                }
            },
        }
        proof {
            assert forall|suf: Seq<NRes>| #[trigger] sp_eval_block(
                env0,
                view_block(tokens@),
                scope as int,
                av,
                pv,
                drop,
                w@ + suf,
                fuel as nat,
            ) == (EvalOut { env: self.env(), rest: suf, res: res_view(r) }) by {
                assert(env0.push(Map::<Seq<char>, ValV>::empty()).update(
                    env0.len() as int,
                    sp_bind(Map::empty(), pv, av, 0),
                ) =~= env2);
                assert(sp_eval_stmts(
                    env2,
                    view_block(tokens@),
                    0,
                    scope as int,
                    Option::None,
                    w@ + suf,
                    (fuel - 1) as nat,
                ) == (EvalOut { env: renv, rest: suf, res: res_view(r) }));
            }
        }
        (r, w)
    }

    /// Evaluate the statements of a block from `i` on; `acc` is the value of
    /// the last return statement seen so far. See `sem::sp_eval_stmts`.
    #[verifier::rlimit(100)]
    fn eval_stmts_w(
        &mut self,
        tokens: &Vec<Tokens>,
        i: usize,
        scope: usize,
        acc: Option<Variable>,
        fuel: u64,
    ) -> (rr: (Result<Option<Variable>, RtErr>, Ghost<Seq<NRes>>))
        ensures
            forall|suf: Seq<NRes>| #[trigger] sp_eval_stmts(
                old(self).env(),
                view_block(tokens@),
                i as int,
                scope as int,
                opt_val_view(acc),
                rr.1@ + suf,
                fuel as nat,
            ) == (EvalOut { env: final(self).env(), rest: suf, res: res_view(rr.0) }),
        decreases fuel,
    {
        let ghost env0 = self.env();
        let ghost toksv = view_block(tokens@);
        proof {
            lemma_view_block_len(tokens@);
        }
        if fuel == 0 {
            let rr = (Err::<Option<Variable>, RtErr>(RtErr::Depth), Ghost(Seq::<NRes>::empty()));
            proof {
                assert forall|suf: Seq<NRes>| Seq::<NRes>::empty() + suf =~= suf by {}
            }
            return rr;
        }
        if i >= tokens.len() {
            let rr = (Ok::<Option<Variable>, RtErr>(acc), Ghost(Seq::<NRes>::empty()));
            proof {
                assert forall|suf: Seq<NRes>| Seq::<NRes>::empty() + suf =~= suf by {}
            }
            return rr;
        }
        match &tokens[i].token {
            Token::Def(d) => {
                let (r1, w1) = self.eval_def_w(&d.name, &d.value, scope, fuel - 1);
                let ghost env1 = self.env();
                match r1 {
                    Err(e) => {
                        proof {
                            assert forall|suf: Seq<NRes>| #[trigger] sp_eval_stmts(
                                env0,
                                toksv,
                                i as int,
                                scope as int,
                                opt_val_view(acc),
                                w1@ + suf,
                                fuel as nat,
                            ) == (EvalOut { env: self.env(), rest: suf, res: res_view(Err(e)) }) by {
                                assert(sp_eval_def(
                                    env0,
                                    d.name@,
                                    view_expr(*d.value),
                                    scope as int,
                                    w1@ + suf,
                                    (fuel - 1) as nat,
                                ).res is Err);
                            }
                        }
                        (Err(e), w1)
                    },
                    Ok(_) => {
                        let (r2, w2) = self.eval_stmts_w(tokens, i + 1, scope, acc, fuel - 1);
                        proof {
                            assert forall|suf: Seq<NRes>| #[trigger] sp_eval_stmts(
                                env0,
                                toksv,
                                i as int,
                                scope as int,
                                opt_val_view(acc),
                                (w1@ + w2@) + suf,
                                fuel as nat,
                            ) == (EvalOut { env: self.env(), rest: suf, res: res_view(r2) }) by {
                                assert((w1@ + w2@) + suf =~= w1@ + (w2@ + suf));
                                assert(sp_eval_def(
                                    env0,
                                    d.name@,
                                    view_expr(*d.value),
                                    scope as int,
                                    w1@ + (w2@ + suf),
                                    (fuel - 1) as nat,
                                ) == (EvalOut {
                                    env: env1,
                                    rest: w2@ + suf,
                                    res: res_view(Ok(Option::None)),
                                }));
                                assert(sp_eval_stmts(
                                    env1,
                                    toksv,
                                    i + 1,
                                    scope as int,
                                    opt_val_view(acc),
                                    w2@ + suf,
                                    (fuel - 1) as nat,
                                ) == (EvalOut { env: self.env(), rest: suf, res: res_view(r2) }));
                            }
                        }
                        (r2, Ghost(w1@ + w2@))
                    },
                }
            },
            Token::Expr(e) => {
                let (r1, w1) = self.eval_expr_w(e, scope, fuel - 1);
                let ghost env1 = self.env();
                match r1 {
                    Err(er) => {
                        proof {
                            assert forall|suf: Seq<NRes>| #[trigger] sp_eval_stmts(
                                env0,
                                toksv,
                                i as int,
                                scope as int,
                                opt_val_view(acc),
                                w1@ + suf,
                                fuel as nat,
                            ) == (EvalOut {
                                env: self.env(),
                                rest: suf,
                                res: Err(view_rterr(er)),
                            }) by {
                                assert(sp_eval_expr(
                                    env0,
                                    view_expr(**e),
                                    scope as int,
                                    w1@ + suf,
                                    (fuel - 1) as nat,
                                ) == (EvalOut { env: env1, rest: suf, res: Err(view_rterr(er)) }));
                            }
                        }
                        (Err(er), w1)
                    },
                    Ok(_) => {
                        let (r2, w2) = self.eval_stmts_w(tokens, i + 1, scope, acc, fuel - 1);
                        proof {
                            assert forall|suf: Seq<NRes>| #[trigger] sp_eval_stmts(
                                env0,
                                toksv,
                                i as int,
                                scope as int,
                                opt_val_view(acc),
                                (w1@ + w2@) + suf,
                                fuel as nat,
                            ) == (EvalOut { env: self.env(), rest: suf, res: res_view(r2) }) by {
                                assert((w1@ + w2@) + suf =~= w1@ + (w2@ + suf));
                                assert(sp_eval_expr(
                                    env0,
                                    view_expr(**e),
                                    scope as int,
                                    w1@ + (w2@ + suf),
                                    (fuel - 1) as nat,
                                ).rest == w2@ + suf);
                                assert(sp_eval_stmts(
                                    env1,
                                    toksv,
                                    i + 1,
                                    scope as int,
                                    opt_val_view(acc),
                                    w2@ + suf,
                                    (fuel - 1) as nat,
                                ) == (EvalOut { env: self.env(), rest: suf, res: res_view(r2) }));
                            }
                        }
                        (r2, Ghost(w1@ + w2@))
                    },
                }
            },
            Token::Return(e) => {
                let (r1, w1) = self.eval_expr_w(e, scope, fuel - 1);
                let ghost env1 = self.env();
                match r1 {
                    Err(er) => {
                        proof {
                            assert forall|suf: Seq<NRes>| #[trigger] sp_eval_stmts(
                                env0,
                                toksv,
                                i as int,
                                scope as int,
                                opt_val_view(acc),
                                w1@ + suf,
                                fuel as nat,
                            ) == (EvalOut {
                                env: self.env(),
                                rest: suf,
                                res: Err(view_rterr(er)),
                            }) by {
                                assert(sp_eval_expr(
                                    env0,
                                    view_expr(**e),
                                    scope as int,
                                    w1@ + suf,
                                    (fuel - 1) as nat,
                                ) == (EvalOut { env: env1, rest: suf, res: Err(view_rterr(er)) }));
                            }
                        }
                        (Err(er), w1)
                    },
                    Ok(v) => {
                        let ghost vv = opt_val_view(v);
                        let (r2, w2) = self.eval_stmts_w(tokens, i + 1, scope, v, fuel - 1);
                        proof {
                            assert forall|suf: Seq<NRes>| #[trigger] sp_eval_stmts(
                                env0,
                                toksv,
                                i as int,
                                scope as int,
                                opt_val_view(acc),
                                (w1@ + w2@) + suf,
                                fuel as nat,
                            ) == (EvalOut { env: self.env(), rest: suf, res: res_view(r2) }) by {
                                assert((w1@ + w2@) + suf =~= w1@ + (w2@ + suf));
                                assert(sp_eval_expr(
                                    env0,
                                    view_expr(**e),
                                    scope as int,
                                    w1@ + (w2@ + suf),
                                    (fuel - 1) as nat,
                                ).rest == w2@ + suf);
                                assert(sp_eval_stmts(
                                    env1,
                                    toksv,
                                    i + 1,
                                    scope as int,
                                    vv,
                                    w2@ + suf,
                                    (fuel - 1) as nat,
                                ) == (EvalOut { env: self.env(), rest: suf, res: res_view(r2) }));
                            }
                        }
                        (r2, Ghost(w1@ + w2@))
                    },
                }
            },
        }
    }

    /// Evaluate a definition; see `sem::sp_eval_def`.
    #[verifier::rlimit(100)]
    fn eval_def_w(&mut self, name: &String, value: &Expr, scope: usize, fuel: u64) -> (rr: (
        Result<Option<Variable>, RtErr>,
        Ghost<Seq<NRes>>,
    ))
        ensures
            forall|suf: Seq<NRes>| #[trigger] sp_eval_def(
                old(self).env(),
                name@,
                view_expr(*value),
                scope as int,
                rr.1@ + suf,
                fuel as nat,
            ) == (EvalOut { env: final(self).env(), rest: suf, res: res_view(rr.0) }),
        decreases fuel,
    {
        if fuel == 0 {
            let rr = (Err::<Option<Variable>, RtErr>(RtErr::Depth), Ghost(Seq::<NRes>::empty()));
            proof {
                assert forall|suf: Seq<NRes>| Seq::<NRes>::empty() + suf =~= suf by {}
            }
            return rr;
        }
        let ghost env0 = self.env();
        let (r, w) = self.eval_expr_w(value, scope, fuel - 1);
        let ghost env1 = self.env();
        match r {
            Err(e) => {
                proof {
                    assert forall|suf: Seq<NRes>| #[trigger] sp_eval_def(
                        env0,
                        name@,
                        view_expr(*value),
                        scope as int,
                        w@ + suf,
                        fuel as nat,
                    ) == (EvalOut { env: self.env(), rest: suf, res: Err(view_rterr(e)) }) by {
                        assert(sp_eval_expr(
                            env0,
                            view_expr(*value),
                            scope as int,
                            w@ + suf,
                            (fuel - 1) as nat,
                        ) == (EvalOut { env: env1, rest: suf, res: Err(view_rterr(e)) }));
                    }
                }
                (Err(e), w)
            },
            Ok(None) => {
                proof {
                    assert forall|suf: Seq<NRes>| #[trigger] sp_eval_def(
                        env0,
                        name@,
                        view_expr(*value),
                        scope as int,
                        w@ + suf,
                        fuel as nat,
                    ) == (EvalOut {
                        env: self.env(),
                        rest: suf,
                        res: Err(crate::errors::RtErrV::StoreVoid(name@)),
                    }) by {
                        assert(sp_eval_expr(
                            env0,
                            view_expr(*value),
                            scope as int,
                            w@ + suf,
                            (fuel - 1) as nat,
                        ) == (EvalOut {
                            env: env1,
                            rest: suf,
                            res: res_view(Ok(Option::None)),
                        }));
                    }
                }
                (Err(RtErr::StoreVoid(name.clone())), w)
            },
            Ok(Some(v)) => {
                let ghost envr = self.env();
                let ghost vv = view_variable(v);
                self.data.insert(name.clone(), v);
                proof {
                    assert forall|suf: Seq<NRes>| #[trigger] sp_eval_def(
                        old(self).env(),
                        name@,
                        view_expr(*value),
                        scope as int,
                        w@ + suf,
                        fuel as nat,
                    ) == (EvalOut {
                        env: self.env(),
                        rest: suf,
                        res: res_view(Ok(Option::None)),
                    }) by {
                        assert(sp_eval_expr(
                            old(self).env(),
                            view_expr(*value),
                            scope as int,
                            w@ + suf,
                            (fuel - 1) as nat,
                        ) == (EvalOut {
                            env: envr,
                            rest: suf,
                            res: res_view(Ok(Option::Some(v))),
                        }));
                    }
                }
                (Ok(None), w)
            },
        }
    }

    /// Evaluate an argument list left to right; see `sem::sp_eval_args`.
    #[verifier::rlimit(100)]
    fn eval_args_w(
        &mut self,
        args: &Vec<Box<Expr>>,
        i: usize,
        scope: usize,
        acc: Vec<Variable>,
        fuel: u64,
    ) -> (rr: (Result<Vec<Variable>, RtErr>, Ghost<Seq<NRes>>))
        ensures
            forall|suf: Seq<NRes>| #[trigger] sp_eval_args(
                old(self).env(),
                view_args(args@),
                i as int,
                scope as int,
                view_vals(acc@),
                rr.1@ + suf,
                fuel as nat,
            ) == (ArgsOut {
                env: final(self).env(),
                rest: suf,
                res: match rr.0 {
                    Ok(v) => Ok(view_vals(v@)),
                    Err(e) => Err(view_rterr(e)),
                },
            }),
        decreases fuel,
    {
        let ghost env0 = self.env();
        let ghost argsv = view_args(args@);
        let ghost accv = view_vals(acc@);
        proof {
            lemma_view_args_len(args@);
        }
        if fuel == 0 {
            let rr = (Err::<Vec<Variable>, RtErr>(RtErr::Depth), Ghost(Seq::<NRes>::empty()));
            proof {
                assert forall|suf: Seq<NRes>| Seq::<NRes>::empty() + suf =~= suf by {}
            }
            return rr;
        }
        if i >= args.len() {
            let rr = (Ok::<Vec<Variable>, RtErr>(acc), Ghost(Seq::<NRes>::empty()));
            proof {
                assert forall|suf: Seq<NRes>| Seq::<NRes>::empty() + suf =~= suf by {}
            }
            return rr;
        }
        let (r1, w1) = self.eval_expr_w(&args[i], scope, fuel - 1);
        let ghost env1 = self.env();
        match r1 {
            Err(e) => {
                proof {
                    assert forall|suf: Seq<NRes>| #[trigger] sp_eval_args(
                        env0,
                        argsv,
                        i as int,
                        scope as int,
                        accv,
                        w1@ + suf,
                        fuel as nat,
                    ) == (ArgsOut { env: self.env(), rest: suf, res: Err(view_rterr(e)) }) by {
                        assert(sp_eval_expr(
                            env0,
                            view_expr(*args@[i as int]),
                            scope as int,
                            w1@ + suf,
                            (fuel - 1) as nat,
                        ) == (EvalOut { env: env1, rest: suf, res: Err(view_rterr(e)) }));
                    }
                }
                (Err(e), w1)
            },
            Ok(None) => {
                proof {
                    assert forall|suf: Seq<NRes>| #[trigger] sp_eval_args(
                        env0,
                        argsv,
                        i as int,
                        scope as int,
                        accv,
                        w1@ + suf,
                        fuel as nat,
                    ) == (ArgsOut {
                        env: self.env(),
                        rest: suf,
                        res: Err(crate::errors::RtErrV::VoidArg),
                    }) by {
                        assert(sp_eval_expr(
                            env0,
                            view_expr(*args@[i as int]),
                            scope as int,
                            w1@ + suf,
                            (fuel - 1) as nat,
                        ) == (EvalOut { env: env1, rest: suf, res: res_view(Ok(Option::None)) }));
                    }
                }
                (Err(RtErr::VoidArg), w1)
            },
            Ok(Some(v)) => {
                let ghost vv = view_variable(v);
                let mut acc2 = acc;
                proof {
                    lemma_view_vals_push(acc2@, v);
                }
                acc2.push(v);
                let (r2, w2) = self.eval_args_w(args, i + 1, scope, acc2, fuel - 1);
                proof {
                    assert forall|suf: Seq<NRes>| #[trigger] sp_eval_args(
                        env0,
                        argsv,
                        i as int,
                        scope as int,
                        accv,
                        (w1@ + w2@) + suf,
                        fuel as nat,
                    ) == (ArgsOut {
                        env: self.env(),
                        rest: suf,
                        res: match r2 {
                            Ok(v2) => Ok(view_vals(v2@)),
                            Err(e2) => Err(view_rterr(e2)),
                        },
                    }) by {
                        assert((w1@ + w2@) + suf =~= w1@ + (w2@ + suf));
                        assert(sp_eval_expr(
                            env0,
                            view_expr(*args@[i as int]),
                            scope as int,
                            w1@ + (w2@ + suf),
                            (fuel - 1) as nat,
                        ) == (EvalOut {
                            env: env1,
                            rest: w2@ + suf,
                            res: res_view(Ok(Option::Some(v))),
                        }));
                        assert(sp_eval_args(
                            env1,
                            argsv,
                            i + 1,
                            scope as int,
                            accv.push(vv),
                            w2@ + suf,
                            (fuel - 1) as nat,
                        ) == (ArgsOut {
                            env: self.env(),
                            rest: suf,
                            res: match r2 {
                                Ok(v2) => Ok(view_vals(v2@)),
                                Err(e2) => Err(view_rterr(e2)),
                            },
                        }));
                    }
                }
                (r2, Ghost(w1@ + w2@))
            },
        }
    }

    /// Evaluate one expression; see `sem::sp_eval_expr`.
    #[verifier::rlimit(100)]
    fn eval_expr_w(&mut self, expr: &Expr, scope: usize, fuel: u64) -> (rr: (
        Result<Option<Variable>, RtErr>,
        Ghost<Seq<NRes>>,
    ))
        ensures
            forall|suf: Seq<NRes>| #[trigger] sp_eval_expr(
                old(self).env(),
                view_expr(*expr),
                scope as int,
                rr.1@ + suf,
                fuel as nat,
            ) == (EvalOut { env: final(self).env(), rest: suf, res: res_view(rr.0) }),
        decreases fuel,
    {
        let ghost env0 = self.env();
        let ghost ev = view_expr(*expr);
        if fuel == 0 {
            let rr = (Err::<Option<Variable>, RtErr>(RtErr::Depth), Ghost(Seq::<NRes>::empty()));
            proof {
                assert forall|suf: Seq<NRes>| Seq::<NRes>::empty() + suf =~= suf by {}
            }
            return rr;
        }
        match expr {
            Expr::Int(n) => {
                let rr = (
                    Ok::<Option<Variable>, RtErr>(Some(Variable::Int(*n))),
                    Ghost(Seq::<NRes>::empty()),
                );
                proof {
                    assert forall|suf: Seq<NRes>| Seq::<NRes>::empty() + suf =~= suf by {}
                }
                rr
            },
            Expr::Str(s) => {
                let rr = (
                    Ok::<Option<Variable>, RtErr>(Some(Variable::Str(s.clone()))),
                    Ghost(Seq::<NRes>::empty()),
                );
                proof {
                    assert forall|suf: Seq<NRes>| Seq::<NRes>::empty() + suf =~= suf by {}
                }
                rr
            },
            Expr::Bool(b) => {
                let rr = (
                    Ok::<Option<Variable>, RtErr>(Some(Variable::Bool(*b))),
                    Ghost(Seq::<NRes>::empty()),
                );
                proof {
                    assert forall|suf: Seq<NRes>| Seq::<NRes>::empty() + suf =~= suf by {}
                }
                rr
            },
            Expr::Lamda(l) => {
                let rr = (
                    Ok::<Option<Variable>, RtErr>(
                        Some(
                            Variable::Lamda {
                                args: dup_strings(&l.args),
                                value: dup_block(&l.value),
                            },
                        ),
                    ),
                    Ghost(Seq::<NRes>::empty()),
                );
                proof {
                    assert forall|suf: Seq<NRes>| Seq::<NRes>::empty() + suf =~= suf by {}
                }
                rr
            },
            Expr::Call(name) => {
                let rr = (
                    match self.data.get(name, scope) {
                        Some(dv) => Ok::<Option<Variable>, RtErr>(Some(dv.1)),
                        None => Err::<Option<Variable>, RtErr>(RtErr::VarNotFound(name.clone())),
                    },
                    Ghost(Seq::<NRes>::empty()),
                );
                proof {
                    assert forall|suf: Seq<NRes>| Seq::<NRes>::empty() + suf =~= suf by {}
                }
                rr
            },
            Expr::Op(o) => {
                let (l, w1) = self.eval_expr_w(&o.lhs, scope, fuel - 1);
                let ghost env1 = self.env();
                let ghost lres = res_view(l);
                match l {
                    Err(e) => {
                        proof {
                            assert forall|suf: Seq<NRes>| #[trigger] sp_eval_expr(
                                env0,
                                ev,
                                scope as int,
                                w1@ + suf,
                                fuel as nat,
                            ) == (EvalOut { env: self.env(), rest: suf, res: Err(view_rterr(e)) })
                                by {
                                assert(sp_eval_expr(
                                    env0,
                                    view_expr(*o.lhs),
                                    scope as int,
                                    w1@ + suf,
                                    (fuel - 1) as nat,
                                ) == (EvalOut { env: env1, rest: suf, res: Err(view_rterr(e)) }));
                            }
                        }
                        (Err(e), w1)
                    },
                    Ok(None) => {
                        proof {
                            assert forall|suf: Seq<NRes>| #[trigger] sp_eval_expr(
                                env0,
                                ev,
                                scope as int,
                                w1@ + suf,
                                fuel as nat,
                            ) == (EvalOut {
                                env: self.env(),
                                rest: suf,
                                res: res_view(Ok(Option::None)),
                            }) by {
                                assert(sp_eval_expr(
                                    env0,
                                    view_expr(*o.lhs),
                                    scope as int,
                                    w1@ + suf,
                                    (fuel - 1) as nat,
                                ) == (EvalOut {
                                    env: env1,
                                    rest: suf,
                                    res: res_view(Ok(Option::None)),
                                }));
                            }
                        }
                        (Ok(None), w1)
                    },
                    Ok(Some(lv)) => {
                        let ghost lvv = view_variable(lv);
                        let (r, w2) = self.eval_expr_w(&o.rhs, scope, fuel - 1);
                        let ghost env2 = self.env();
                        let ghost rres = res_view(r);
                        let res: Result<Option<Variable>, RtErr> = match r {
                            Err(e) => Err(e),
                            Ok(None) => Ok(None),
                            Ok(Some(rv)) => match apply_op(o.joint, lv, rv) {
                                Ok(v) => Ok(Some(v)),
                                Err(e) => Err(e),
                            },
                        };
                        proof {
                            assert forall|suf: Seq<NRes>| #[trigger] sp_eval_expr(
                                env0,
                                ev,
                                scope as int,
                                (w1@ + w2@) + suf,
                                fuel as nat,
                            ) == (EvalOut { env: self.env(), rest: suf, res: res_view(res) }) by {
                                assert((w1@ + w2@) + suf =~= w1@ + (w2@ + suf));
                                assert(sp_eval_expr(
                                    env0,
                                    view_expr(*o.lhs),
                                    scope as int,
                                    w1@ + (w2@ + suf),
                                    (fuel - 1) as nat,
                                ) == (EvalOut {
                                    env: env1,
                                    rest: w2@ + suf,
                                    res: Ok(Option::Some(lvv)),
                                }));
                                assert(sp_eval_expr(
                                    env1,
                                    view_expr(*o.rhs),
                                    scope as int,
                                    w2@ + suf,
                                    (fuel - 1) as nat,
                                ) == (EvalOut { env: env2, rest: suf, res: rres }));
                            }
                        }
                        (res, Ghost(w1@ + w2@))
                    },
                }
            },
            Expr::Decision(d) => {
                let (r, w) = self.eval_match_w(d, scope, fuel - 1);
                proof {
                    assert forall|suf: Seq<NRes>| #[trigger] sp_eval_expr(
                        env0,
                        ev,
                        scope as int,
                        w@ + suf,
                        fuel as nat,
                    ) == (EvalOut { env: self.env(), rest: suf, res: res_view(r) }) by {
                        assert(sp_eval_match(
                            env0,
                            view_decision(*d),
                            scope as int,
                            w@ + suf,
                            (fuel - 1) as nat,
                        ) == (EvalOut { env: self.env(), rest: suf, res: res_view(r) }));
                    }
                }
                (r, w)
            },
            Expr::Scope(body) => {
                let ns = self.data.scopes_number();
                let no_args: Vec<Variable> = Vec::new();
                let no_params: Vec<String> = Vec::new();
                let (r, w) = self.eval_w(body, ns, no_args, &no_params, true, fuel - 1);
                proof {
                    assert(view_vals(Seq::<Variable>::empty()) =~= Seq::<ValV>::empty());
                    assert(view_names(Seq::<String>::empty()) =~= Seq::<Seq<char>>::empty());
                    assert forall|suf: Seq<NRes>| #[trigger] sp_eval_expr(
                        env0,
                        ev,
                        scope as int,
                        w@ + suf,
                        fuel as nat,
                    ) == (EvalOut { env: self.env(), rest: suf, res: res_view(r) }) by {
                        assert(sp_eval_block(
                            env0,
                            view_block(body@),
                            env0.len() as int,
                            Seq::<ValV>::empty(),
                            Seq::<Seq<char>>::empty(),
                            true,
                            w@ + suf,
                            (fuel - 1) as nat,
                        ) == (EvalOut { env: self.env(), rest: suf, res: res_view(r) }));
                    }
                }
                (r, w)
            },
            Expr::FcCall(f) => {
                match self.data.get(&f.name, scope) {
                    None => {
                        let rr = (
                            Err::<Option<Variable>, RtErr>(RtErr::VarNotFound(f.name.clone())),
                            Ghost(Seq::<NRes>::empty()),
                        );
                        proof {
                            assert forall|suf: Seq<NRes>| Seq::<NRes>::empty() + suf =~= suf by {}
                        }
                        rr
                    },
                    Some((d, fv)) => {
                        let ghost fvv = view_variable(fv);
                        let no_acc: Vec<Variable> = Vec::new();
                        proof {
                            assert(view_vals(Seq::<Variable>::empty()) =~= Seq::<ValV>::empty());
                        }
                        let (a, w1) = self.eval_args_w(&f.args, 0, scope, no_acc, fuel - 1);
                        let ghost env1 = self.env();
                        match a {
                            Err(e) => {
                                proof {
                                    assert forall|suf: Seq<NRes>| #[trigger] sp_eval_expr(
                                        env0,
                                        ev,
                                        scope as int,
                                        w1@ + suf,
                                        fuel as nat,
                                    ) == (EvalOut {
                                        env: self.env(),
                                        rest: suf,
                                        res: Err(view_rterr(e)),
                                    }) by {
                                        assert(sp_eval_args(
                                            env0,
                                            view_args(f.args@),
                                            0,
                                            scope as int,
                                            Seq::<ValV>::empty(),
                                            w1@ + suf,
                                            (fuel - 1) as nat,
                                        ) == (ArgsOut {
                                            env: env1,
                                            rest: suf,
                                            res: Err(view_rterr(e)),
                                        }));
                                    }
                                }
                                (Err(e), w1)
                            },
                            Ok(avs) => {
                                let ghost avsv = view_vals(avs@);
                                match fv {
                                    Variable::Rusty(nname) => {
                                        let res = self.natives.invoke(nname.as_str(), avs);
                                        let ghost entry = res_view(res);
                                        let ghost wit = w1@ + seq![entry];
                                        proof {
                                            assert forall|suf: Seq<NRes>| #[trigger] sp_eval_expr(
                                                env0,
                                                ev,
                                                scope as int,
                                                wit + suf,
                                                fuel as nat,
                                            ) == (EvalOut {
                                                env: self.env(),
                                                rest: suf,
                                                res: res_view(res),
                                            }) by {
                                                assert(wit + suf =~= w1@ + (seq![entry] + suf));
                                                assert(sp_eval_args(
                                                    env0,
                                                    view_args(f.args@),
                                                    0,
                                                    scope as int,
                                                    Seq::<ValV>::empty(),
                                                    w1@ + (seq![entry] + suf),
                                                    (fuel - 1) as nat,
                                                ) == (ArgsOut {
                                                    env: env1,
                                                    rest: seq![entry] + suf,
                                                    res: Ok(avsv),
                                                }));
                                                assert((seq![entry] + suf).len() > 0);
                                                assert((seq![entry] + suf).drop_first() =~= suf);
                                                assert((seq![entry] + suf).first() == entry);
                                            }
                                        }
                                        (res, Ghost(wit))
                                    },
                                    Variable::Lamda { args: ps, value } => {
                                        let (r2, w2) = self.eval_w(
                                            &value,
                                            d,
                                            avs,
                                            &ps,
                                            true,
                                            fuel - 1,
                                        );
                                        proof {
                                            assert forall|suf: Seq<NRes>| #[trigger] sp_eval_expr(
                                                env0,
                                                ev,
                                                scope as int,
                                                (w1@ + w2@) + suf,
                                                fuel as nat,
                                            ) == (EvalOut {
                                                env: self.env(),
                                                rest: suf,
                                                res: res_view(r2),
                                            }) by {
                                                assert((w1@ + w2@) + suf =~= w1@ + (w2@ + suf));
                                                assert(sp_eval_args(
                                                    env0,
                                                    view_args(f.args@),
                                                    0,
                                                    scope as int,
                                                    Seq::<ValV>::empty(),
                                                    w1@ + (w2@ + suf),
                                                    (fuel - 1) as nat,
                                                ) == (ArgsOut {
                                                    env: env1,
                                                    rest: w2@ + suf,
                                                    res: Ok(avsv),
                                                }));
                                                assert(sp_eval_block(
                                                    env1,
                                                    view_block(value@),
                                                    d as int,
                                                    avsv,
                                                    view_names(ps@),
                                                    true,
                                                    w2@ + suf,
                                                    (fuel - 1) as nat,
                                                ) == (EvalOut {
                                                    env: self.env(),
                                                    rest: suf,
                                                    res: res_view(r2),
                                                }));
                                            }
                                        }
                                        (r2, Ghost(w1@ + w2@))
                                    },
                                    _ => {
                                        proof {
                                            assert forall|suf: Seq<NRes>| #[trigger] sp_eval_expr(
                                                env0,
                                                ev,
                                                scope as int,
                                                w1@ + suf,
                                                fuel as nat,
                                            ) == (EvalOut {
                                                env: self.env(),
                                                rest: suf,
                                                res: Err(
                                                    crate::errors::RtErrV::NotCallable(f.name@),
                                                ),
                                            }) by {
                                                assert(sp_eval_args(
                                                    env0,
                                                    view_args(f.args@),
                                                    0,
                                                    scope as int,
                                                    Seq::<ValV>::empty(),
                                                    w1@ + suf,
                                                    (fuel - 1) as nat,
                                                ) == (ArgsOut {
                                                    env: env1,
                                                    rest: suf,
                                                    res: Ok(avsv),
                                                }));
                                            }
                                        }
                                        (Err(RtErr::NotCallable(f.name.clone())), w1)
                                    },
                                }
                            },
                        }
                    },
                }
            },
        }
    }

    /// Evaluate a decision chain; see `sem::sp_eval_match`.
    #[verifier::rlimit(100)]
    fn eval_match_w(&mut self, m: &Decision, scope: usize, fuel: u64) -> (rr: (
        Result<Option<Variable>, RtErr>,
        Ghost<Seq<NRes>>,
    ))
        ensures
            forall|suf: Seq<NRes>| #[trigger] sp_eval_match(
                old(self).env(),
                view_decision(*m),
                scope as int,
                rr.1@ + suf,
                fuel as nat,
            ) == (EvalOut { env: final(self).env(), rest: suf, res: res_view(rr.0) }),
        decreases fuel,
    {
        let ghost env0 = self.env();
        let ghost dv = view_decision(*m);
        if fuel == 0 {
            let rr = (Err::<Option<Variable>, RtErr>(RtErr::Depth), Ghost(Seq::<NRes>::empty()));
            proof {
                assert forall|suf: Seq<NRes>| Seq::<NRes>::empty() + suf =~= suf by {}
            }
            return rr;
        }
        let (c, w1) = self.eval_expr_w(&m.cond, scope, fuel - 1);
        let ghost env1 = self.env();
        match c {
            Err(e) => {
                proof {
                    assert forall|suf: Seq<NRes>| #[trigger] sp_eval_match(
                        env0,
                        dv,
                        scope as int,
                        w1@ + suf,
                        fuel as nat,
                    ) == (EvalOut { env: self.env(), rest: suf, res: Err(view_rterr(e)) }) by {
                        assert(sp_eval_expr(
                            env0,
                            view_expr(*m.cond),
                            scope as int,
                            w1@ + suf,
                            (fuel - 1) as nat,
                        ) == (EvalOut { env: env1, rest: suf, res: Err(view_rterr(e)) }));
                    }
                }
                (Err(e), w1)
            },
            Ok(co) => {
                let taken = matches!(co, Some(Variable::Bool(true)));
                proof {
                    assert(taken == (opt_val_view(co) == Option::Some(ValV::Bool(true))));
                }
                if taken {
                    let ns = self.data.scopes_number();
                    let no_args: Vec<Variable> = Vec::new();
                    let no_params: Vec<String> = Vec::new();
                    let (r2, w2) = self.eval_w(&m.block, ns, no_args, &no_params, true, fuel - 1);
                    proof {
                        assert(view_vals(Seq::<Variable>::empty()) =~= Seq::<ValV>::empty());
                        assert(view_names(Seq::<String>::empty()) =~= Seq::<Seq<char>>::empty());
                        assert forall|suf: Seq<NRes>| #[trigger] sp_eval_match(
                            env0,
                            dv,
                            scope as int,
                            (w1@ + w2@) + suf,
                            fuel as nat,
                        ) == (EvalOut { env: self.env(), rest: suf, res: res_view(r2) }) by {
                            assert((w1@ + w2@) + suf =~= w1@ + (w2@ + suf));
                            assert(sp_eval_expr(
                                env0,
                                view_expr(*m.cond),
                                scope as int,
                                w1@ + (w2@ + suf),
                                (fuel - 1) as nat,
                            ) == (EvalOut {
                                env: env1,
                                rest: w2@ + suf,
                                res: res_view(Ok(co)),
                            }));
                            assert(sp_eval_block(
                                env1,
                                dv.block,
                                env1.len() as int,
                                Seq::<ValV>::empty(),
                                Seq::<Seq<char>>::empty(),
                                true,
                                w2@ + suf,
                                (fuel - 1) as nat,
                            ) == (EvalOut { env: self.env(), rest: suf, res: res_view(r2) }));
                        }
                    }
                    (r2, Ghost(w1@ + w2@))
                } else {
                    match &m.next {
                        Some(n) => {
                            let (r2, w2) = self.eval_match_w(n, scope, fuel - 1);
                            proof {
                                assert forall|suf: Seq<NRes>| #[trigger] sp_eval_match(
                                    env0,
                                    dv,
                                    scope as int,
                                    (w1@ + w2@) + suf,
                                    fuel as nat,
                                ) == (EvalOut { env: self.env(), rest: suf, res: res_view(r2) }) by {
                                    assert((w1@ + w2@) + suf =~= w1@ + (w2@ + suf));
                                    assert(sp_eval_expr(
                                        env0,
                                        view_expr(*m.cond),
                                        scope as int,
                                        w1@ + (w2@ + suf),
                                        (fuel - 1) as nat,
                                    ) == (EvalOut {
                                        env: env1,
                                        rest: w2@ + suf,
                                        res: res_view(Ok(co)),
                                    }));
                                    assert(sp_eval_match(
                                        env1,
                                        view_decision(**n),
                                        scope as int,
                                        w2@ + suf,
                                        (fuel - 1) as nat,
                                    ) == (EvalOut { env: self.env(), rest: suf, res: res_view(r2) }));
                                }
                            }
                            (r2, Ghost(w1@ + w2@))
                        },
                        None => {
                            proof {
                                assert forall|suf: Seq<NRes>| #[trigger] sp_eval_match(
                                    env0,
                                    dv,
                                    scope as int,
                                    w1@ + suf,
                                    fuel as nat,
                                ) == (EvalOut {
                                    env: self.env(),
                                    rest: suf,
                                    res: res_view(Ok(Option::None)),
                                }) by {
                                    assert(sp_eval_expr(
                                        env0,
                                        view_expr(*m.cond),
                                        scope as int,
                                        w1@ + suf,
                                        (fuel - 1) as nat,
                                    ) == (EvalOut { env: env1, rest: suf, res: res_view(Ok(co)) }));
                                }
                            }
                            (Ok(None), w1)
                        },
                    }
                }
            },
        }
    }

    /// Evaluate a statement block: push a fresh scope, bind `args` to
    /// `args_t_s` pairwise in it, run every statement in order — the last
    /// return statement's value is the block's value — and pop the pushed
    /// scope only when `drop` asks for it. The contract says exactly what
    /// the model in `sem` says, for the oracle of native-call outcomes that
    /// really occurred.
    pub fn eval(
        &mut self,
        tokens: &Vec<Tokens>,
        scope: usize,
        args: Vec<Variable>,
        args_t_s: &Vec<String>,
        drop: bool,
        fuel: u64,
    ) -> (r: Result<Option<Variable>, RtErr>)
        ensures
            exists|oracle: Seq<NRes>| #[trigger] sp_eval_block(
                old(self).env(),
                view_block(tokens@),
                scope as int,
                view_vals(args@),
                view_names(args_t_s@),
                drop,
                oracle,
                fuel as nat,
            ) == (EvalOut { env: final(self).env(), rest: Seq::<NRes>::empty(), res: res_view(r) }),
    {
        let (r, w) = self.eval_w(tokens, scope, args, args_t_s, drop, fuel);
        proof {
            assert(sp_eval_block(
                old(self).env(),
                view_block(tokens@),
                scope as int,
                view_vals(args@),
                view_names(args_t_s@),
                drop,
                w@ + Seq::<NRes>::empty(),
                fuel as nat,
            ) == (EvalOut { env: self.env(), rest: Seq::<NRes>::empty(), res: res_view(r) }));
        }
        r
    }

    /// Evaluate a definition statement in the current innermost scope.
    pub fn eval_def(&mut self, def: &Def, scope: usize, fuel: u64) -> (r: Result<(), RtErr>)
        ensures
            exists|oracle: Seq<NRes>| #[trigger] sp_eval_def(
                old(self).env(),
                def.name@,
                view_expr(*def.value),
                scope as int,
                oracle,
                fuel as nat,
            ) == (EvalOut {
                env: final(self).env(),
                rest: Seq::<NRes>::empty(),
                res: match r {
                    Ok(()) => Ok(Option::None),
                    Err(e) => Err(view_rterr(e)),
                },
            }),
    {
        let (r, w) = self.eval_def_w(&def.name, &def.value, scope, fuel);
        proof {
            assert(sp_eval_def(
                old(self).env(),
                def.name@,
                view_expr(*def.value),
                scope as int,
                w@ + Seq::<NRes>::empty(),
                fuel as nat,
            ) == (EvalOut {
                env: self.env(),
                rest: Seq::<NRes>::empty(),
                res: res_view(r),
            }));
        }
        match r {
            Ok(_) => Ok(()),
            Err(e) => Err(e),
        }
    }

    /// Evaluate one expression.
    pub fn eval_expr(&mut self, expr: &Expr, scope: usize, fuel: u64) -> (r: Result<
        Option<Variable>,
        RtErr,
    >)
        ensures
            exists|oracle: Seq<NRes>| #[trigger] sp_eval_expr(
                old(self).env(),
                view_expr(*expr),
                scope as int,
                oracle,
                fuel as nat,
            ) == (EvalOut { env: final(self).env(), rest: Seq::<NRes>::empty(), res: res_view(r) }),
    {
        let (r, w) = self.eval_expr_w(expr, scope, fuel);
        proof {
            assert(sp_eval_expr(
                old(self).env(),
                view_expr(*expr),
                scope as int,
                w@ + Seq::<NRes>::empty(),
                fuel as nat,
            ) == (EvalOut { env: self.env(), rest: Seq::<NRes>::empty(), res: res_view(r) }));
        }
        r
    }

    /// Evaluate a decision chain.
    pub fn eval_match(&mut self, m: &Decision, scope: usize, fuel: u64) -> (r: Result<
        Option<Variable>,
        RtErr,
    >)
        ensures
            exists|oracle: Seq<NRes>| #[trigger] sp_eval_match(
                old(self).env(),
                view_decision(*m),
                scope as int,
                oracle,
                fuel as nat,
            ) == (EvalOut { env: final(self).env(), rest: Seq::<NRes>::empty(), res: res_view(r) }),
    {
        let (r, w) = self.eval_match_w(m, scope, fuel);
        proof {
            assert(sp_eval_match(
                old(self).env(),
                view_decision(*m),
                scope as int,
                w@ + Seq::<NRes>::empty(),
                fuel as nat,
            ) == (EvalOut { env: self.env(), rest: Seq::<NRes>::empty(), res: res_view(r) }));
        }
        r
    }
}

} // verus!
