//! The statement/expression tree produced by the scanner, together with its
//! mathematical model: a ghost mirror of every node kind and view functions
//! from the executable tree into the mirror. All parser and evaluator
//! contracts speak about the mirror.

use vstd::prelude::*;

verus! {

/// The eight binary operators of the language.
#[derive(Clone, Copy, Debug, PartialEq, Eq, Structural)]
pub enum JOINT {
    ADD,
    SUB,
    MULT,
    DIV,
    GREAT,
    LESS,
    EQU,
    NOT,
}

/// A statement: an expression annotated with the 1-based source line it
/// started on.
#[derive(Debug, PartialEq)]
pub struct Tokens {
    pub line_number: usize,
    pub token: Token,
}

/// The three statement kinds: a definition, a return, and a bare expression
/// evaluated for effect only.
#[derive(Debug, PartialEq)]
pub enum Token {
    Def(Def),
    Return(Box<Expr>),
    Expr(Box<Expr>),
}

/// A definition: binds `name` to the value of `value` in the current scope.
#[derive(Debug, PartialEq)]
pub struct Def {
    pub name: String,
    pub value: Box<Expr>,
}

/// A lambda: parameter names plus an unevaluated statement body.
#[derive(Debug, PartialEq)]
pub struct Lamda {
    pub args: Vec<String>,
    pub value: Vec<Tokens>,
}

/// One link of an if/elif/else chain: a condition, a block, and the optional
/// next link.
#[derive(Debug, PartialEq)]
pub struct Decision {
    pub cond: Box<Expr>,
    pub block: Vec<Tokens>,
    pub next: Option<Box<Decision>>,
}

/// Application of a named callable to an ordered argument list.
#[derive(Debug, PartialEq)]
pub struct FcCall {
    pub args: Vec<Box<Expr>>,
    pub name: String,
}

/// A binary operation; operators have no precedence, the scanner splits at
/// the first operator character it sees at bracket depth zero.
#[derive(Debug, PartialEq)]
pub struct Op {
    pub joint: JOINT,
    pub lhs: Box<Expr>,
    pub rhs: Box<Expr>,
}

/// An expression node.
#[derive(Debug, PartialEq)]
pub enum Expr {
    Int(i64),
    Str(String),
    Lamda(Lamda),
    Decision(Decision),
    FcCall(FcCall),
    Call(String),
    Scope(Vec<Tokens>),
    Bool(bool),
    Op(Op),
}

/// Ghost mirror of `Tokens`.
pub ghost struct TokV {
    pub line: int,
    pub token: TokenV,
}

/// Ghost mirror of `Token`.
pub ghost enum TokenV {
    Def { name: Seq<char>, value: Box<ExprV> },
    Return(Box<ExprV>),
    Expr(Box<ExprV>),
}

/// Ghost mirror of `Decision`.
pub ghost struct DecisionV {
    pub cond: Box<ExprV>,
    pub block: Seq<TokV>,
    pub next: Option<Box<DecisionV>>,
}

/// Ghost mirror of `Expr`.
pub ghost enum ExprV {
    Int(i64),
    Str(Seq<char>),
    Lamda { params: Seq<Seq<char>>, value: Seq<TokV> },
    Decision(DecisionV),
    FcCall { name: Seq<char>, args: Seq<ExprV> },
    Call(Seq<char>),
    Scope(Seq<TokV>),
    Bool(bool),
    Op { joint: JOINT, lhs: Box<ExprV>, rhs: Box<ExprV> },
}

/// View of a list of parameter names.
pub open spec fn view_names(v: Seq<String>) -> Seq<Seq<char>> {
    v.map_values(|s: String| s@)
}

/// View of an expression.
pub open spec fn view_expr(e: Expr) -> ExprV
    decreases e,
{
    match e {
        Expr::Int(i) => ExprV::Int(i),
        Expr::Str(s) => ExprV::Str(s@),
        Expr::Bool(b) => ExprV::Bool(b),
        Expr::Call(s) => ExprV::Call(s@),
        Expr::Lamda(l) => ExprV::Lamda { params: view_names(l.args@), value: view_block(l.value@) },
        Expr::Scope(v) => ExprV::Scope(view_block(v@)),
        Expr::FcCall(f) => ExprV::FcCall { name: f.name@, args: view_args(f.args@) },
        Expr::Op(o) => ExprV::Op {
            joint: o.joint,
            lhs: Box::new(view_expr(*o.lhs)),
            rhs: Box::new(view_expr(*o.rhs)),
        },
        Expr::Decision(d) => ExprV::Decision(view_decision(d)),
    }
}

/// View of a decision chain.
pub open spec fn view_decision(d: Decision) -> DecisionV
    decreases d,
{
    DecisionV {
        cond: Box::new(view_expr(*d.cond)),
        block: view_block(d.block@),
        next: match d.next {
            Option::None => Option::None,
            Option::Some(b) => Option::Some(Box::new(view_decision(*b))),
        },
    }
}

/// View of a statement block.
pub open spec fn view_block(v: Seq<Tokens>) -> Seq<TokV>
    decreases v,
{
    if v.len() == 0 {
        Seq::empty()
    } else {
        view_block(v.drop_last()).push(view_tokens(v.last()))
    }
}

/// View of one statement.
pub open spec fn view_tokens(t: Tokens) -> TokV
    decreases t,
{
    TokV { line: t.line_number as int, token: view_token(t.token) }
}

/// View of a statement kind.
pub open spec fn view_token(t: Token) -> TokenV
    decreases t,
{
    match t {
        Token::Def(d) => TokenV::Def { name: d.name@, value: Box::new(view_expr(*d.value)) },
        Token::Return(e) => TokenV::Return(Box::new(view_expr(*e))),
        Token::Expr(e) => TokenV::Expr(Box::new(view_expr(*e))),
    }
}

/// View of an argument list.
pub open spec fn view_args(v: Seq<Box<Expr>>) -> Seq<ExprV>
    decreases v,
{
    if v.len() == 0 {
        Seq::empty()
    } else {
        view_args(v.drop_last()).push(view_expr(*v.last()))
    }
}

/// `view_block` distributes over `push`.
pub proof fn lemma_view_block_push(v: Seq<Tokens>, t: Tokens)
    ensures
        view_block(v.push(t)) == view_block(v).push(view_tokens(t)),
{
    assert(v.push(t).drop_last() =~= v);
    assert(v.push(t).last() == t);
}

/// `view_args` distributes over `push`.
pub proof fn lemma_view_args_push(v: Seq<Box<Expr>>, e: Box<Expr>)
    ensures
        view_args(v.push(e)) == view_args(v).push(view_expr(*e)),
{
    assert(v.push(e).drop_last() =~= v);
    assert(v.push(e).last() == e);
}

/// `view_block` keeps the length.
pub proof fn lemma_view_block_len(v: Seq<Tokens>)
    ensures
        view_block(v).len() == v.len(),
        forall|i: int| 0 <= i < v.len() ==> view_block(v)[i] == view_tokens(v[i]),
    decreases v,
{
    if v.len() > 0 {
        lemma_view_block_len(v.drop_last());
    }
}

/// `view_args` keeps the length.
pub proof fn lemma_view_args_len(v: Seq<Box<Expr>>)
    ensures
        view_args(v).len() == v.len(),
        forall|i: int| 0 <= i < v.len() ==> view_args(v)[i] == view_expr(*v[i]),
    decreases v,
{
    if v.len() > 0 {
        lemma_view_args_len(v.drop_last());
    }
}

} // verus!
