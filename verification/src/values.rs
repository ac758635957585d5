//! Runtime values: the tagged union the evaluator produces, its ghost
//! mirror, duplication with proved view equality, and the operator
//! semantics.

use vstd::prelude::*;
use crate::ast::{Decision, Def, Expr, FcCall, JOINT, Lamda, Op, Token, Tokens};
use crate::ast::{view_block, view_expr, view_names, view_tokens, view_token, view_decision,
    view_args, TokV};
use crate::errors::RtErrV;

verus! {

/// A runtime value: a lambda (parameter names plus unevaluated body), a
/// native function (named in an externally supplied table), or a literal.
#[derive(Debug, PartialEq)]
pub enum Variable {
    Lamda { args: Vec<String>, value: Vec<Tokens> },
    Rusty(String),
    Int(i64),
    Str(String),
    Bool(bool),
}

/// Ghost mirror of `Variable`.
pub ghost enum ValV {
    Lamda { params: Seq<Seq<char>>, value: Seq<TokV> },
    Rusty(Seq<char>),
    Int(i64),
    Str(Seq<char>),
    Bool(bool),
}

/// View of a runtime value.
pub open spec fn view_variable(v: Variable) -> ValV
    decreases v,
{
    match v {
        Variable::Lamda { args, value } => ValV::Lamda {
            params: view_names(args@),
            value: view_block(value@),
        },
        Variable::Rusty(s) => ValV::Rusty(s@),
        Variable::Int(i) => ValV::Int(i),
        Variable::Str(s) => ValV::Str(s@),
        Variable::Bool(b) => ValV::Bool(b),
    }
}

/// View of a list of runtime values.
pub open spec fn view_vals(s: Seq<Variable>) -> Seq<ValV>
    decreases s,
{
    if s.len() == 0 {
        Seq::empty()
    } else {
        view_vals(s.drop_last()).push(view_variable(s.last()))
    }
}

/// `view_vals` distributes over `push`.
pub proof fn lemma_view_vals_push(s: Seq<Variable>, v: Variable)
    ensures
        view_vals(s.push(v)) == view_vals(s).push(view_variable(v)),
{
    assert(s.push(v).drop_last() =~= s);
    assert(s.push(v).last() == v);
}

/// `view_vals` keeps the length.
pub proof fn lemma_view_vals_len(s: Seq<Variable>)
    ensures
        view_vals(s).len() == s.len(),
        forall|i: int| 0 <= i < s.len() ==> view_vals(s)[i] == view_variable(s[i]),
    decreases s,
{
    if s.len() > 0 {
        lemma_view_vals_len(s.drop_last());
    }
}

/// Copy a statement list, keeping the view.
pub fn dup_block(v: &Vec<Tokens>) -> (r: Vec<Tokens>)
    ensures
        view_block(r@) == view_block(v@),
    decreases *v,
{
    let mut r: Vec<Tokens> = Vec::new();
    let mut i: usize = 0;
    proof {
        crate::ast::lemma_view_block_len(v@);
    }
    while i < v.len()
        invariant
            i <= v@.len(),
            r@.len() == i,
            view_block(v@).len() == v@.len(),
            forall|j: int| 0 <= j < v@.len() ==> view_block(v@)[j] == view_tokens(v@[j]),
            view_block(r@) == view_block(v@).subrange(0, i as int),
        decreases v@.len() - i,
    {
        let t = dup_tokens(&v[i]);
        proof {
            crate::ast::lemma_view_block_push(r@, t);
            assert(view_block(v@).subrange(0, i as int).push(view_tokens(v@[i as int]))
                =~= view_block(v@).subrange(0, i + 1 as int));
        }
        r.push(t);
        i = i + 1;
    }
    proof {
        assert(view_block(v@).subrange(0, v@.len() as int) =~= view_block(v@));
    }
    r
}

/// Copy one statement, keeping the view.
pub fn dup_tokens(t: &Tokens) -> (r: Tokens)
    ensures
        view_tokens(r) == view_tokens(*t),
    decreases *t,
{
    Tokens { line_number: t.line_number, token: dup_token(&t.token) }
}

/// Copy a statement kind, keeping the view.
pub fn dup_token(t: &Token) -> (r: Token)
    ensures
        view_token(r) == view_token(*t),
    decreases *t,
{
    match t {
        Token::Def(d) => Token::Def(
            Def { name: d.name.clone(), value: Box::new(dup_expr(&d.value)) },
        ),
        Token::Return(e) => Token::Return(Box::new(dup_expr(e))),
        Token::Expr(e) => Token::Expr(Box::new(dup_expr(e))),
    }
}

/// Copy an expression tree, keeping the view.
pub fn dup_expr(e: &Expr) -> (r: Expr)
    ensures
        view_expr(r) == view_expr(*e),
    decreases *e,
{
    match e {
        Expr::Int(i) => Expr::Int(*i),
        Expr::Str(s) => Expr::Str(s.clone()),
        Expr::Bool(b) => Expr::Bool(*b),
        Expr::Call(s) => Expr::Call(s.clone()),
        Expr::Lamda(l) => Expr::Lamda(
            Lamda { args: dup_strings(&l.args), value: dup_block(&l.value) },
        ),
        Expr::Scope(v) => Expr::Scope(dup_block(v)),
        Expr::FcCall(f) => Expr::FcCall(
            FcCall { args: dup_exprs(&f.args), name: f.name.clone() },
        ),
        Expr::Op(o) => Expr::Op(
            Op { joint: o.joint, lhs: Box::new(dup_expr(&o.lhs)), rhs: Box::new(dup_expr(&o.rhs)) },
        ),
        Expr::Decision(d) => Expr::Decision(dup_decision(d)),
    }
}

/// Copy a decision chain, keeping the view.
pub fn dup_decision(d: &Decision) -> (r: Decision)
    ensures
        view_decision(r) == view_decision(*d),
    decreases *d,
{
    Decision {
        cond: Box::new(dup_expr(&d.cond)),
        block: dup_block(&d.block),
        next: match &d.next {
            Option::None => Option::None,
            Option::Some(b) => Option::Some(Box::new(dup_decision(b))),
        },
    }
}

/// Copy an argument list, keeping the view.
pub fn dup_exprs(v: &Vec<Box<Expr>>) -> (r: Vec<Box<Expr>>)
    ensures
        view_args(r@) == view_args(v@),
    decreases *v,
{
    let mut r: Vec<Box<Expr>> = Vec::new();
    let mut i: usize = 0;
    proof {
        crate::ast::lemma_view_args_len(v@);
    }
    while i < v.len()
        invariant
            i <= v@.len(),
            r@.len() == i,
            view_args(v@).len() == v@.len(),
            forall|j: int| 0 <= j < v@.len() ==> view_args(v@)[j] == view_expr(*v@[j]),
            view_args(r@) == view_args(v@).subrange(0, i as int),
        decreases v@.len() - i,
    {
        let e = Box::new(dup_expr(&v[i]));
        proof {
            crate::ast::lemma_view_args_push(r@, e);
            assert(view_args(v@).subrange(0, i as int).push(view_expr(*v@[i as int]))
                =~= view_args(v@).subrange(0, i + 1 as int));
        }
        r.push(e);
        i = i + 1;
    }
    proof {
        assert(view_args(v@).subrange(0, v@.len() as int) =~= view_args(v@));
    }
    r
}

/// Copy a list of names.
pub fn dup_strings(v: &Vec<String>) -> (r: Vec<String>)
    ensures
        view_names(r@) == view_names(v@),
{
    let mut r: Vec<String> = Vec::new();
    let mut i: usize = 0;
    while i < v.len()
        invariant
            i <= v@.len(),
            r@.len() == i,
            forall|j: int| 0 <= j < i ==> r@[j]@ == v@[j]@,
        decreases v@.len() - i,
    {
        r.push(v[i].clone());
        i = i + 1;
    }
    proof {
        assert(view_names(r@) =~= view_names(v@));
    }
    r
}

/// Copy a runtime value, keeping the view.
pub fn dup_variable(v: &Variable) -> (r: Variable)
    ensures
        view_variable(r) == view_variable(*v),
{
    match v {
        Variable::Lamda { args, value } => Variable::Lamda {
            args: dup_strings(args),
            value: dup_block(value),
        },
        Variable::Rusty(s) => Variable::Rusty(s.clone()),
        Variable::Int(i) => Variable::Int(*i),
        Variable::Str(s) => Variable::Str(s.clone()),
        Variable::Bool(b) => Variable::Bool(*b),
    }
}

/// View of an optional runtime value.
pub open spec fn opt_val_view(o: Option<Variable>) -> Option<ValV> {
    match o {
        Option::Some(v) => Option::Some(view_variable(v)),
        Option::None => Option::None,
    }
}

/// View of an evaluation outcome.
pub open spec fn res_view(r: Result<Option<Variable>, crate::errors::RtErr>) -> Result<
    Option<ValV>,
    RtErrV,
> {
    match r {
        Ok(o) => Ok(opt_val_view(o)),
        Err(e) => Err(crate::errors::view_rterr(e)),
    }
}

/// What a binary operator yields on two evaluated operands.
///
/// Addition accepts two numbers or two strings (concatenation); subtraction,
/// multiplication and division accept only numbers; equality and inequality
/// accept two numbers or two strings; the orderings accept only numbers.
/// Any other pairing is a fatal type error, division by zero and a result
/// outside the numeric range are fatal numeric errors.
pub open spec fn sp_apply_op(j: JOINT, l: ValV, r: ValV) -> Result<ValV, RtErrV> {
    match j {
        JOINT::ADD => match (l, r) {
            (ValV::Int(a), ValV::Int(b)) => match a.checked_add(b) {
                Option::Some(c) => Ok(ValV::Int(c)),
                Option::None => Err(RtErrV::Overflow),
            },
            (ValV::Str(a), ValV::Str(b)) => Ok(ValV::Str(a + b)),
            _ => Err(RtErrV::TypeError(JOINT::ADD)),
        },
        JOINT::SUB => match (l, r) {
            (ValV::Int(a), ValV::Int(b)) => match a.checked_sub(b) {
                Option::Some(c) => Ok(ValV::Int(c)),
                Option::None => Err(RtErrV::Overflow),
            },
            _ => Err(RtErrV::TypeError(JOINT::SUB)),
        },
        JOINT::MULT => match (l, r) {
            (ValV::Int(a), ValV::Int(b)) => match a.checked_mul(b) {
                Option::Some(c) => Ok(ValV::Int(c)),
                Option::None => Err(RtErrV::Overflow),
            },
            _ => Err(RtErrV::TypeError(JOINT::MULT)),
        },
        JOINT::DIV => match (l, r) {
            (ValV::Int(a), ValV::Int(b)) => match a.checked_div(b) {
                Option::Some(c) => Ok(ValV::Int(c)),
                Option::None => if b == 0 {
                    Err(RtErrV::DivByZero)
                } else {
                    Err(RtErrV::Overflow)
                },
            },
            _ => Err(RtErrV::TypeError(JOINT::DIV)),
        },
        JOINT::EQU => match (l, r) {
            (ValV::Int(a), ValV::Int(b)) => Ok(ValV::Bool(a == b)),
            (ValV::Str(a), ValV::Str(b)) => Ok(ValV::Bool(a == b)),
            _ => Err(RtErrV::TypeError(JOINT::EQU)),
        },
        JOINT::GREAT => match (l, r) {
            (ValV::Int(a), ValV::Int(b)) => Ok(ValV::Bool(a > b)),
            _ => Err(RtErrV::TypeError(JOINT::GREAT)),
        },
        JOINT::LESS => match (l, r) {
            (ValV::Int(a), ValV::Int(b)) => Ok(ValV::Bool(a < b)),
            _ => Err(RtErrV::TypeError(JOINT::LESS)),
        },
        JOINT::NOT => match (l, r) {
            (ValV::Int(a), ValV::Int(b)) => Ok(ValV::Bool(a != b)),
            (ValV::Str(a), ValV::Str(b)) => Ok(ValV::Bool(a != b)),
            _ => Err(RtErrV::TypeError(JOINT::NOT)),
        },
    }
}

/// Apply a binary operator to two evaluated operands.
pub fn apply_op(j: JOINT, l: Variable, r: Variable) -> (res: Result<Variable, crate::errors::RtErr>)
    ensures
        match res {
            Ok(v) => sp_apply_op(j, view_variable(l), view_variable(r)) == Ok::<ValV, RtErrV>(
                view_variable(v),
            ),
            Err(e) => sp_apply_op(j, view_variable(l), view_variable(r)) == Err::<ValV, RtErrV>(
                crate::errors::view_rterr(e),
            ),
        },
{
    match j {
        JOINT::ADD => match (l, r) {
            (Variable::Int(a), Variable::Int(b)) => match a.checked_add(b) {
                Some(c) => Ok(Variable::Int(c)),
                None => Err(crate::errors::RtErr::Overflow),
            },
            (Variable::Str(a), Variable::Str(b)) => Ok(Variable::Str(a.concat(b.as_str()))),
            _ => Err(crate::errors::RtErr::TypeError(JOINT::ADD)),
        },
        JOINT::SUB => match (l, r) {
            (Variable::Int(a), Variable::Int(b)) => match a.checked_sub(b) {
                Some(c) => Ok(Variable::Int(c)),
                None => Err(crate::errors::RtErr::Overflow),
            },
            _ => Err(crate::errors::RtErr::TypeError(JOINT::SUB)),
        },
        JOINT::MULT => match (l, r) {
            (Variable::Int(a), Variable::Int(b)) => match a.checked_mul(b) {
                Some(c) => Ok(Variable::Int(c)),
                None => Err(crate::errors::RtErr::Overflow),
            },
            _ => Err(crate::errors::RtErr::TypeError(JOINT::MULT)),
        },
        JOINT::DIV => match (l, r) {
            (Variable::Int(a), Variable::Int(b)) => match a.checked_div(b) {
                Some(c) => Ok(Variable::Int(c)),
                None => if b == 0 {
                    Err(crate::errors::RtErr::DivByZero)
                } else {
                    Err(crate::errors::RtErr::Overflow)
                },
            },
            _ => Err(crate::errors::RtErr::TypeError(JOINT::DIV)),
        },
        JOINT::EQU => match (l, r) {
            (Variable::Int(a), Variable::Int(b)) => Ok(Variable::Bool(a == b)),
            (Variable::Str(a), Variable::Str(b)) => Ok(Variable::Bool(a == b)),
            _ => Err(crate::errors::RtErr::TypeError(JOINT::EQU)),
        },
        JOINT::GREAT => match (l, r) {
            (Variable::Int(a), Variable::Int(b)) => Ok(Variable::Bool(a > b)),
            _ => Err(crate::errors::RtErr::TypeError(JOINT::GREAT)),
        },
        JOINT::LESS => match (l, r) {
            (Variable::Int(a), Variable::Int(b)) => Ok(Variable::Bool(a < b)),
            _ => Err(crate::errors::RtErr::TypeError(JOINT::LESS)),
        },
        JOINT::NOT => match (l, r) {
            (Variable::Int(a), Variable::Int(b)) => Ok(Variable::Bool(a != b)),
            (Variable::Str(a), Variable::Str(b)) => Ok(Variable::Bool(a != b)),
            _ => Err(crate::errors::RtErr::TypeError(JOINT::NOT)),
        },
    }
}

} // verus!
