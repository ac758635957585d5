//! The executable scanner/parser. Every method is proved to return exactly
//! what the specification functions in `scan` say, over the views of its
//! inputs; `fuel` bounds the recursion depth and running out of it is the
//! `Depth` parse error.

use vstd::prelude::*;
use crate::ast::{Decision, Def, Expr, FcCall, JOINT, Lamda, Op, Token, Tokens};
use crate::ast::{view_args, view_block, view_expr, view_names, view_tokens, lemma_view_args_push,
    lemma_view_block_push};
use crate::ast::{ExprV, TokV};
use crate::errors::{view_perr, PErr, PErrKind, PErrV};
use crate::scan::{sp_args, sp_consume_all, sp_decision, sp_def, sp_expression, sp_node, sp_op,
    sp_pull, sp_ret_expr, sp_scan, sp_scan_args, sp_scope_lamda, sp_token, sp_tokenize, PRes};
use crate::text::{all_word, chars_eq_str, find_arrow, find_char, find_ws, has_alpha, has_ws,
    is_join, is_ws, all_digits, parse_digits, append_chars, split_lines, split_ws, string_from_chars,
    sub_chars, chars_of, trim, trim_quotes, view_lines};
use crate::utils::{BalanceFault, IsClosed};

verus! {

/// The scanner/parser: the source lines, the index of the line being read
/// ("coverage"), and the statements produced so far.
pub struct Tokenizer {
    pub tokens: Vec<Tokens>,
    lines: Vec<Vec<char>>,
    coverage: usize,
}

/// View of an optional character buffer.
pub open spec fn view_opt_chars(o: Option<Vec<char>>) -> Option<Seq<char>> {
    match o {
        Option::Some(v) => Option::Some(v@),
        Option::None => Option::None,
    }
}

/// How an executable expression-parsing outcome realizes a specified one:
/// on success the expression views and the coverage agree and coverage stays
/// inside the source; on failure the error views agree.
pub open spec fn expr_matches(
    pr: PRes<ExprV>,
    r: Result<Box<Expr>, PErr>,
    cov2: int,
    nlines: int,
) -> bool {
    match r {
        Ok(e) => pr.res == Ok::<ExprV, PErrV>(view_expr(*e)) && pr.cov == cov2 && cov2 < nlines,
        Err(e) => pr.res == Err::<ExprV, PErrV>(view_perr(e)),
    }
}

/// How an executable statement-parsing outcome realizes a specified one.
pub open spec fn tok_matches(
    pr: PRes<Option<TokV>>,
    r: Result<Option<Tokens>, PErr>,
    cov2: int,
    nlines: int,
) -> bool {
    match r {
        Ok(o) => pr.res == Ok::<Option<TokV>, PErrV>(
            match o {
                Option::Some(t) => Option::Some(view_tokens(t)),
                Option::None => Option::None,
            },
        ) && pr.cov == cov2 && cov2 < nlines,
        Err(e) => pr.res == Err::<Option<TokV>, PErrV>(view_perr(e)),
    }
}

/// How an executable argument-list outcome realizes a specified one.
pub open spec fn args_matches(
    pr: PRes<Seq<ExprV>>,
    r: Result<Vec<Box<Expr>>, PErr>,
    cov2: int,
    nlines: int,
) -> bool {
    match r {
        Ok(v) => pr.res == Ok::<Seq<ExprV>, PErrV>(view_args(v@)) && pr.cov == cov2 && cov2
            < nlines,
        Err(e) => pr.res == Err::<Seq<ExprV>, PErrV>(view_perr(e)),
    }
}

/// How an executable line-pulling outcome realizes a specified one.
pub open spec fn pull_matches(
    pr: PRes<Seq<char>>,
    r: Result<Vec<char>, PErr>,
    cov2: int,
    nlines: int,
) -> bool {
    match r {
        Ok(v) => pr.res == Ok::<Seq<char>, PErrV>(v@) && pr.cov == cov2 && cov2 < nlines,
        Err(e) => pr.res == Err::<Seq<char>, PErrV>(view_perr(e)),
    }
}

/// Turn a list of words into owned strings.
fn strings_of(v: &Vec<Vec<char>>) -> (r: Vec<String>)
    ensures
        view_names(r@) == view_lines(v@),
{
    let mut r: Vec<String> = Vec::new();
    let mut i: usize = 0;
    while i < v.len()
        invariant
            i <= v@.len(),
            r@.len() == i,
            forall|j: int| 0 <= j < i ==> r@[j]@ == v@[j]@,
        decreases v@.len() - i,
    {
        r.push(string_from_chars(&v[i]));
        i = i + 1;
    }
    proof {
        assert(view_names(r@) =~= view_lines(v@));
    }
    r
}

/// Feed every character of `s` from `i` on to the balance tracker.
fn consume_all(st: &mut IsClosed, s: &Vec<char>, i: usize) -> (r: Result<(), BalanceFault>)
    requires
        i <= s@.len(),
    ensures
        final(st).arrow() == old(st).arrow(),
        final(st).cond() == old(st).cond(),
        match r {
            Ok(()) => sp_consume_all(old(st).stack(), s@, i as int) == Ok::<_, BalanceFault>(
                final(st).stack(),
            ),
            Err(f) => sp_consume_all(old(st).stack(), s@, i as int) == Err::<Seq<crate::utils::TOCLOSE>, _>(f),
        },
    decreases s@.len() - i,
{
    if i >= s.len() {
        Ok(())
    } else {
        match st.check(s[i]) {
            Err(f) => Err(f),
            Ok(()) => consume_all(st, s, i + 1),
        }
    }
}

impl Tokenizer {
    /// The source lines, as character sequences.
    pub closed spec fn lines_v(&self) -> Seq<Seq<char>> {
        view_lines(self.lines@)
    }

    /// The index of the line currently being read.
    pub closed spec fn cov(&self) -> int {
        self.coverage as int
    }

    /// The statements produced so far, as their ghost views.
    pub closed spec fn toks(&self) -> Seq<TokV> {
        view_block(self.tokens@)
    }

    /// The 1-based number of the line currently being read.
    fn line_no(&self) -> (r: usize)
        requires
            self.cov() < self.lines_v().len(),
        ensures
            r == self.cov() + 1,
    {
        let n = self.lines.len();
        proof {
            assert(self.lines_v().len() == self.lines@.len());
        }
        self.coverage + 1
    }

    /// A parser over the given source text, split at newlines.
    pub fn new(file: &str) -> (r: Tokenizer)
        ensures
            r.lines_v() == crate::text::sp_split_lines_from(file@, 0),
            r.cov() == 0,
            r.toks() == Seq::<TokV>::empty(),
            r.lines_v().len() >= 1,
    {
        let cs = chars_of(file);
        Tokenizer::from_chars(&cs)
    }

    /// A parser over the given characters, split at newlines.
    fn from_chars(v: &Vec<char>) -> (r: Tokenizer)
        ensures
            r.lines_v() == crate::text::sp_split_lines_from(v@, 0),
            r.cov() == 0,
            r.toks() == Seq::<TokV>::empty(),
            r.lines_v().len() >= 1,
    {
        let lines = split_lines(v);
        let r = Tokenizer { tokens: Vec::new(), lines, coverage: 0 };
        proof {
            assert(r.toks() =~= Seq::<TokV>::empty());
        }
        r
    }

    /// Whether every source line has been consumed.
    pub fn if_lv_full(&self) -> (r: bool)
        ensures
            r == (self.lines_v().len() == self.cov()),
    {
        self.lines.len() == self.coverage
    }

    /// The operator named by one operator character.
    pub fn op(join: char) -> (r: JOINT)
        requires
            crate::text::is_join_c(join),
        ensures
            r == sp_op(join),
    {
        if join == '+' {
            JOINT::ADD
        } else if join == '-' {
            JOINT::SUB
        } else if join == '/' {
            JOINT::DIV
        } else if join == '*' {
            JOINT::MULT
        } else if join == '>' {
            JOINT::GREAT
        } else if join == '<' {
            JOINT::LESS
        } else if join == '=' {
            JOINT::EQU
        } else {
            JOINT::NOT
        }
    }

    /// Parse the whole source from the current line on, appending the
    /// statements to `tokens`.
    #[verifier::rlimit(50)]
    pub fn start(&mut self, fuel: u64) -> (r: Result<(), PErr>)
        requires
            old(self).cov() <= old(self).lines_v().len(),
        ensures
            final(self).lines_v() == old(self).lines_v(),
            ({
                let pr = sp_tokenize(old(self).lines_v(), old(self).cov(), fuel as nat);
                match r {
                    Ok(()) => pr.res is Ok && final(self).toks() == old(self).toks() + pr.res->Ok_0
                        && final(self).cov() == pr.cov && final(self).cov() <= old(
                        self,
                    ).lines_v().len(),
                    Err(e) => pr.res == Err::<Seq<TokV>, PErrV>(view_perr(e)),
                }
            }),
        decreases fuel,
    {
        if fuel == 0 {
            return Err(PErr { line: self.coverage, kind: PErrKind::Depth });
        }
        if self.coverage >= self.lines.len() {
            proof {
                assert(old(self).toks() + Seq::<TokV>::empty() =~= old(self).toks());
            }
            return Ok(());
        }
        let lr = &self.lines[self.coverage];
        let line = sub_chars(lr, 0, lr.len());
        proof {
            assert(line@ =~= self.lines_v()[self.cov()]);
        }
        match self.token_resolver(&line, fuel - 1) {
            Err(e) => Err(e),
            Ok(opt) => {
                let ghost opt_v = match opt {
                    Option::Some(ref t) => Option::Some(view_tokens(*t)),
                    Option::None => Option::None::<TokV>,
                };
                match opt {
                    Option::Some(t) => {
                        proof {
                            lemma_view_block_push(self.tokens@, t);
                        }
                        self.tokens.push(t);
                    },
                    Option::None => {},
                }
                self.coverage = self.coverage + 1;
                let ghost pre_toks = self.toks();
                match self.start(fuel - 1) {
                    Err(e) => Err(e),
                    Ok(()) => {
                        proof {
                            let pr = sp_tokenize(old(self).lines_v(), old(self).cov(), fuel as nat);
                            assert(final(self).toks() == old(self).toks() + pr.res->Ok_0) by {
                                let t = sp_token(
                                    old(self).lines_v(),
                                    old(self).cov(),
                                    (fuel - 1) as nat,
                                );
                                let rest = sp_tokenize(
                                    old(self).lines_v(),
                                    t.cov + 1,
                                    (fuel - 1) as nat,
                                );
                                match opt_v {
                                    Option::Some(tv) => {
                                        assert(pre_toks == old(self).toks().push(tv));
                                        assert(final(self).toks() == pre_toks + rest.res->Ok_0);
                                        assert(old(self).toks().push(tv) + rest.res->Ok_0
                                            =~= old(self).toks() + (seq![tv] + rest.res->Ok_0));
                                    },
                                    Option::None => {
                                        assert(final(self).toks() == pre_toks + rest.res->Ok_0);
                                    },
                                }
                            };
                        }
                        Ok(())
                    },
                }
            },
        }
    }

    /// Classify and parse the statement on the given line: blank and comment
    /// lines yield nothing, a line holding `:` is tried as a definition, the
    /// rest as a return or bare expression statement.
    #[verifier::rlimit(50)]
    pub fn token_resolver(&mut self, line: &Vec<char>, fuel: u64) -> (r: Result<Option<Tokens>, PErr>)
        requires
            old(self).cov() < old(self).lines_v().len(),
            line@ == old(self).lines_v()[old(self).cov()],
        ensures
            final(self).lines_v() == old(self).lines_v(),
            final(self).toks() == old(self).toks(),
            tok_matches(
                sp_token(old(self).lines_v(), old(self).cov(), fuel as nat),
                r,
                final(self).cov(),
                old(self).lines_v().len() as int,
            ),
        decreases fuel,
    {
        if fuel == 0 {
            return Err(PErr { line: self.coverage, kind: PErrKind::Depth });
        }
        let t = trim(line);
        if t.len() == 0 || (t.len() >= 2 && t[0] == '/' && t[1] == '/') {
            Ok(None)
        } else if find_char(line, ':', 0) < line.len() {
            self.def_resolver(line, fuel - 1)
        } else {
            self.return_expr_resolver(line, fuel - 1)
        }
    }

    /// Parse a definition line; when the text before the first `:` is not a
    /// bare identifier, fall back to return/expression parsing.
    #[verifier::rlimit(50)]
    pub fn def_resolver(&mut self, line: &Vec<char>, fuel: u64) -> (r: Result<Option<Tokens>, PErr>)
        requires
            old(self).cov() < old(self).lines_v().len(),
            line@ == old(self).lines_v()[old(self).cov()],
            crate::text::find_char_from(line@, ':', 0) < line@.len(),
        ensures
            final(self).lines_v() == old(self).lines_v(),
            final(self).toks() == old(self).toks(),
            tok_matches(
                sp_def(old(self).lines_v(), old(self).cov(), fuel as nat),
                r,
                final(self).cov(),
                old(self).lines_v().len() as int,
            ),
        decreases fuel,
    {
        if fuel == 0 {
            return Err(PErr { line: self.coverage, kind: PErrKind::Depth });
        }
        let n = line.len();
        let k = find_char(line, ':', 0);
        let name_raw = sub_chars(line, 0, k);
        let name_t = trim(&name_raw);
        if name_t.len() > 0 && all_word(&name_t, 0) {
            let ln = self.line_no();
            let vraw = sub_chars(line, k + 1, line.len());
            match self.expression_resolver(&vraw, fuel - 1) {
                Err(e) => Err(e),
                Ok(ev) => Ok(
                    Some(
                        Tokens {
                            line_number: ln,
                            token: Token::Def(Def { name: string_from_chars(&name_t), value: ev }),
                        },
                    ),
                ),
            }
        } else {
            self.return_expr_resolver(line, fuel - 1)
        }
    }

    /// Parse a return statement (leading `~`) or a bare expression statement.
    #[verifier::rlimit(50)]
    pub fn return_expr_resolver(&mut self, line: &Vec<char>, fuel: u64) -> (r: Result<
        Option<Tokens>,
        PErr,
    >)
        requires
            old(self).cov() < old(self).lines_v().len(),
            line@ == old(self).lines_v()[old(self).cov()],
        ensures
            final(self).lines_v() == old(self).lines_v(),
            final(self).toks() == old(self).toks(),
            tok_matches(
                sp_ret_expr(old(self).lines_v(), old(self).cov(), fuel as nat),
                r,
                final(self).cov(),
                old(self).lines_v().len() as int,
            ),
        decreases fuel,
    {
        if fuel == 0 {
            return Err(PErr { line: self.coverage, kind: PErrKind::Depth });
        }
        let t = trim(line);
        let ln = self.line_no();
        if t.len() > 0 && t[0] == '~' {
            let rest = sub_chars(&t, 1, t.len());
            match self.expression_resolver(&rest, fuel - 1) {
                Err(e) => Err(e),
                Ok(ev) => Ok(Some(Tokens { line_number: ln, token: Token::Return(ev) })),
            }
        } else {
            match self.expression_resolver(line, fuel - 1) {
                Err(e) => Err(e),
                Ok(ev) => Ok(Some(Tokens { line_number: ln, token: Token::Expr(ev) })),
            }
        }
    }

    /// Parse one expression: trim the text and scan it left to right.
    #[verifier::rlimit(50)]
    pub fn expression_resolver(&mut self, string: &Vec<char>, fuel: u64) -> (r: Result<
        Box<Expr>,
        PErr,
    >)
        requires
            old(self).cov() < old(self).lines_v().len(),
        ensures
            final(self).lines_v() == old(self).lines_v(),
            final(self).toks() == old(self).toks(),
            expr_matches(
                sp_expression(old(self).lines_v(), old(self).cov(), string@, fuel as nat),
                r,
                final(self).cov(),
                old(self).lines_v().len() as int,
            ),
        decreases fuel,
    {
        if fuel == 0 {
            return Err(PErr { line: self.coverage, kind: PErrKind::Depth });
        }
        let t = trim(string);
        let st = IsClosed::new();
        let parts: Vec<char> = Vec::new();
        self.scan(t, 0, st, parts, None, fuel - 1)
    }

    /// The left-to-right scan over an accumulated buffer; see `scan::sp_scan`.
    #[verifier::rlimit(50)]
    fn scan(
        &mut self,
        buf: Vec<char>,
        i: usize,
        st: IsClosed,
        parts: Vec<char>,
        cond: Option<Vec<char>>,
        fuel: u64,
    ) -> (r: Result<Box<Expr>, PErr>)
        requires
            old(self).cov() < old(self).lines_v().len(),
            i <= buf@.len(),
        ensures
            final(self).lines_v() == old(self).lines_v(),
            final(self).toks() == old(self).toks(),
            expr_matches(
                sp_scan(
                    old(self).lines_v(),
                    old(self).cov(),
                    buf@,
                    i as int,
                    st.stack(),
                    st.arrow(),
                    st.cond(),
                    parts@,
                    view_opt_chars(cond),
                    fuel as nat,
                ),
                r,
                final(self).cov(),
                old(self).lines_v().len() as int,
            ),
        decreases fuel,
    {
        if fuel == 0 {
            return Err(PErr { line: self.coverage, kind: PErrKind::Depth });
        }
        if i < buf.len() {
            let c = buf[i];
            let arrow_start = c == '-' && i + 1 < buf.len() && buf[i + 1] == '>';
            if is_join(c) && st.is() && !st.in_arrow && !st.in_cond && !arrow_start {
                match self.node_resolver(&parts, fuel - 1) {
                    Err(e) => Err(e),
                    Ok(lv) => {
                        let rest = sub_chars(&buf, i + 1, buf.len());
                        match self.expression_resolver(&rest, fuel - 1) {
                            Err(e) => Err(e),
                            Ok(rv) => Ok(
                                Box::new(
                                    Expr::Op(Op { joint: Tokenizer::op(c), lhs: lv, rhs: rv }),
                                ),
                            ),
                        }
                    },
                }
            } else {
                let mut st2 = st;
                if is_join(c) && st2.is() && !st2.in_arrow && !st2.in_cond {
                    st2.in_arrow = true;
                }
                if c == '|' && i + 1 < buf.len() && buf[i + 1] == '|' && st2.is() && !st2.in_arrow {
                    let next_s = sub_chars(&buf, i + 2, buf.len());
                    self.decision_resolver(&parts, cond, &next_s, fuel - 1)
                } else {
                    match st2.check(c) {
                        Err(f) => Err(
                            PErr { line: self.line_no(), kind: PErrKind::Unbalanced(f) },
                        ),
                        Ok(()) => {
                            if c == '?' && !st2.in_arrow {
                                st2.in_cond = true;
                                let parts2: Vec<char> = Vec::new();
                                self.scan(buf, i + 1, st2, parts2, Some(parts), fuel - 1)
                            } else {
                                let mut parts2 = parts;
                                parts2.push(c);
                                self.scan(buf, i + 1, st2, parts2, cond, fuel - 1)
                            }
                        },
                    }
                }
            }
        } else {
            if st.is() {
                if st.in_cond {
                    let covp1 = self.line_no();
                    if covp1 < self.lines.len() {
                        let lr = &self.lines[covp1];
                        let nl = trim(lr);
                        if nl.len() >= 2 && nl[0] == '|' && nl[1] == '|' {
                            self.coverage = covp1;
                            let mut buf2 = buf;
                            append_chars(&mut buf2, &nl);
                            return self.scan(buf2, i, st, parts, cond, fuel - 1);
                        }
                    }
                    let empty: Vec<char> = Vec::new();
                    self.decision_resolver(&parts, cond, &empty, fuel - 1)
                } else if st.in_arrow {
                    self.scope_lamda_resolver(&parts, fuel - 1)
                } else {
                    self.node_resolver(&parts, fuel - 1)
                }
            } else {
                let covp1 = self.line_no();
                if covp1 >= self.lines.len() {
                    self.coverage = covp1;
                    Err(PErr { line: self.lines.len(), kind: PErrKind::Unclosed(st.unclosed()) })
                } else {
                    self.coverage = covp1;
                    let lr = &self.lines[covp1];
                    let nl = trim(lr);
                    let mut buf2 = buf;
                    buf2.push('\n');
                    append_chars(&mut buf2, &nl);
                    proof {
                        assert(buf2@ =~= buf@ + seq!['\n'] + nl@);
                    }
                    self.scan(buf2, i, st, parts, cond, fuel - 1)
                }
            }
        }
    }

    /// Resolve a fully accumulated, balanced fragment into a node; see
    /// `scan::sp_node`.
    #[verifier::rlimit(50)]
    pub fn node_resolver(&mut self, part: &Vec<char>, fuel: u64) -> (r: Result<Box<Expr>, PErr>)
        requires
            old(self).cov() < old(self).lines_v().len(),
        ensures
            final(self).lines_v() == old(self).lines_v(),
            final(self).toks() == old(self).toks(),
            expr_matches(
                sp_node(old(self).lines_v(), old(self).cov(), part@, fuel as nat),
                r,
                final(self).cov(),
                old(self).lines_v().len() as int,
            ),
        decreases fuel,
    {
        if fuel == 0 {
            return Err(PErr { line: self.coverage, kind: PErrKind::Depth });
        }
        let p = trim(part);
        if p.len() >= 1 && p[0] == '"' && p[p.len() - 1] == '"' {
            let inner = trim_quotes(&p);
            Ok(Box::new(Expr::Str(string_from_chars(&inner))))
        } else if chars_eq_str(&p, "TRUE") {
            Ok(Box::new(Expr::Bool(true)))
        } else if chars_eq_str(&p, "FALSE") {
            Ok(Box::new(Expr::Bool(false)))
        } else if p.len() >= 2 && p[0] == '(' && p[p.len() - 1] == ')' {
            let inner = sub_chars(&p, 1, p.len() - 1);
            self.expression_resolver(&inner, fuel - 1)
        } else if has_ws(&p, 0) {
            let k = find_ws(&p, 0);
            let namev = sub_chars(&p, 0, k);
            let restv = sub_chars(&p, k, p.len());
            match self.args_resolver(&restv, fuel - 1) {
                Err(e) => Err(e),
                Ok(args) => Ok(
                    Box::new(Expr::FcCall(FcCall { args, name: string_from_chars(&namev) })),
                ),
            }
        } else if has_alpha(&p, 0) {
            Ok(Box::new(Expr::Call(string_from_chars(&p))))
        } else if p.len() > 0 && all_digits(&p, 0) {
            match parse_digits(&p, 0, 0) {
                Some(n) => Ok(Box::new(Expr::Int(n))),
                None => Err(
                    PErr {
                        line: self.line_no(),
                        kind: PErrKind::NotAType(string_from_chars(&p)),
                    },
                ),
            }
        } else {
            Err(PErr { line: self.line_no(), kind: PErrKind::NotAType(string_from_chars(&p)) })
        }
    }

    /// Parse a whitespace-separated argument list; a lone `_` means no
    /// arguments. See `scan::sp_args`.
    #[verifier::rlimit(50)]
    pub fn args_resolver(&mut self, value: &Vec<char>, fuel: u64) -> (r: Result<
        Vec<Box<Expr>>,
        PErr,
    >)
        requires
            old(self).cov() < old(self).lines_v().len(),
        ensures
            final(self).lines_v() == old(self).lines_v(),
            final(self).toks() == old(self).toks(),
            args_matches(
                sp_args(old(self).lines_v(), old(self).cov(), value@, fuel as nat),
                r,
                final(self).cov(),
                old(self).lines_v().len() as int,
            ),
        decreases fuel,
    {
        if fuel == 0 {
            return Err(PErr { line: self.coverage, kind: PErrKind::Depth });
        }
        let s = trim(value);
        if chars_eq_str(&s, "_") {
            let r: Vec<Box<Expr>> = Vec::new();
            proof {
                assert(view_args(r@) =~= Seq::<ExprV>::empty());
            }
            Ok(r)
        } else {
            let st = IsClosed::new();
            let arg: Vec<char> = Vec::new();
            let acc: Vec<Box<Expr>> = Vec::new();
            proof {
                assert(view_args(acc@) =~= Seq::<ExprV>::empty());
            }
            self.scan_args(s, 0, st, arg, acc, fuel - 1)
        }
    }

    /// The scan over an argument list; see `scan::sp_scan_args`.
    #[verifier::rlimit(50)]
    fn scan_args(
        &mut self,
        s: Vec<char>,
        i: usize,
        st: IsClosed,
        arg: Vec<char>,
        acc: Vec<Box<Expr>>,
        fuel: u64,
    ) -> (r: Result<Vec<Box<Expr>>, PErr>)
        requires
            old(self).cov() < old(self).lines_v().len(),
            i <= s@.len(),
        ensures
            final(self).lines_v() == old(self).lines_v(),
            final(self).toks() == old(self).toks(),
            args_matches(
                sp_scan_args(
                    old(self).lines_v(),
                    old(self).cov(),
                    s@,
                    i as int,
                    st.stack(),
                    arg@,
                    view_args(acc@),
                    fuel as nat,
                ),
                r,
                final(self).cov(),
                old(self).lines_v().len() as int,
            ),
        decreases fuel,
    {
        if fuel == 0 {
            return Err(PErr { line: self.coverage, kind: PErrKind::Depth });
        }
        if i < s.len() {
            let c = s[i];
            if is_ws(c) && st.is() {
                match self.expression_resolver(&arg, fuel - 1) {
                    Err(e) => Err(e),
                    Ok(ev) => {
                        let mut arg2: Vec<char> = Vec::new();
                        arg2.push(c);
                        let mut acc2 = acc;
                        proof {
                            lemma_view_args_push(acc2@, ev);
                        }
                        acc2.push(ev);
                        proof {
                            assert(arg2@ =~= seq![c]);
                        }
                        self.scan_args(s, i + 1, st, arg2, acc2, fuel - 1)
                    },
                }
            } else {
                let mut st2 = st;
                match st2.check(c) {
                    Err(f) => Err(PErr { line: self.line_no(), kind: PErrKind::Unbalanced(f) }),
                    Ok(()) => {
                        let mut arg2 = arg;
                        arg2.push(c);
                        self.scan_args(s, i + 1, st2, arg2, acc, fuel - 1)
                    },
                }
            }
        } else {
            if st.is() {
                match self.node_resolver(&arg, fuel - 1) {
                    Err(e) => Err(e),
                    Ok(nv) => {
                        let mut acc2 = acc;
                        proof {
                            lemma_view_args_push(acc2@, nv);
                        }
                        acc2.push(nv);
                        Ok(acc2)
                    },
                }
            } else {
                Err(PErr { line: self.line_no(), kind: PErrKind::Unclosed(st.unclosed()) })
            }
        }
    }

    /// Resolve an accumulated arrow form into a lambda or an anonymous
    /// scope; see `scan::sp_scope_lamda`.
    #[verifier::rlimit(50)]
    pub fn scope_lamda_resolver(&mut self, part: &Vec<char>, fuel: u64) -> (r: Result<
        Box<Expr>,
        PErr,
    >)
        requires
            old(self).cov() < old(self).lines_v().len(),
        ensures
            final(self).lines_v() == old(self).lines_v(),
            final(self).toks() == old(self).toks(),
            expr_matches(
                sp_scope_lamda(old(self).lines_v(), old(self).cov(), part@, fuel as nat),
                r,
                final(self).cov(),
                old(self).lines_v().len() as int,
            ),
        decreases fuel,
    {
        if fuel == 0 {
            return Err(PErr { line: self.coverage, kind: PErrKind::Depth });
        }
        let k = find_arrow(part, 0);
        let argsp = sub_chars(part, 0, k);
        let from: usize = if part.len() - k >= 2 {
            k + 2
        } else {
            part.len()
        };
        let stepsraw = sub_chars(part, from, part.len());
        let steps = trim(&stepsraw);
        let value: Vec<Tokens>;
        if steps.len() >= 2 && steps[0] == '{' && steps[steps.len() - 1] == '}' {
            let inner = sub_chars(&steps, 1, steps.len() - 1);
            let mut tk = Tokenizer::from_chars(&inner);
            match tk.start(fuel - 1) {
                Err(e) => {
                    return Err(e);
                },
                Ok(()) => {
                    value = tk.tokens;
                    proof {
                        assert(Seq::<TokV>::empty() + sp_tokenize(
                            crate::text::sp_split_lines_from(inner@, 0),
                            0,
                            (fuel - 1) as nat,
                        ).res->Ok_0 =~= sp_tokenize(
                            crate::text::sp_split_lines_from(inner@, 0),
                            0,
                            (fuel - 1) as nat,
                        ).res->Ok_0);
                    }
                },
            }
        } else {
            let ln = self.line_no();
            match self.expression_resolver(&steps, fuel - 1) {
                Err(e) => {
                    return Err(e);
                },
                Ok(ev) => {
                    let tok = Tokens { line_number: ln, token: Token::Return(ev) };
                    proof {
                        lemma_view_block_push(Seq::<Tokens>::empty(), tok);
                        assert(view_block(Seq::<Tokens>::empty()) =~= Seq::<TokV>::empty());
                    }
                    let mut v0: Vec<Tokens> = Vec::new();
                    v0.push(tok);
                    value = v0;
                    proof {
                        assert(value@ =~= Seq::<Tokens>::empty().push(value@[0]));
                    }
                },
            }
        }
        let words = split_ws(&argsp);
        let argsp_t = trim(&argsp);
        if argsp_t.len() == 0 || words.len() == 0 {
            Ok(Box::new(Expr::Scope(value)))
        } else if chars_eq_str(&words[0], "_") {
            let names: Vec<String> = Vec::new();
            proof {
                assert(view_names(names@) =~= Seq::<Seq<char>>::empty());
            }
            Ok(Box::new(Expr::Lamda(Lamda { args: names, value })))
        } else {
            let names = strings_of(&words);
            Ok(Box::new(Expr::Lamda(Lamda { args: names, value })))
        }
    }

    /// Pull further lines into a decision remainder until it is balanced;
    /// see `scan::sp_pull`.
    #[verifier::rlimit(50)]
    fn pull(&mut self, s: Vec<char>, st: IsClosed, fuel: u64) -> (r: Result<Vec<char>, PErr>)
        requires
            old(self).cov() < old(self).lines_v().len(),
            st.stack().len() > 0,
        ensures
            final(self).lines_v() == old(self).lines_v(),
            final(self).toks() == old(self).toks(),
            pull_matches(
                sp_pull(old(self).lines_v(), old(self).cov(), s@, st.stack(), fuel as nat),
                r,
                final(self).cov(),
                old(self).lines_v().len() as int,
            ),
        decreases fuel,
    {
        if fuel == 0 {
            return Err(PErr { line: self.coverage, kind: PErrKind::Depth });
        }
        let n = self.lines.len();
        proof {
            assert(self.lines_v().len() == self.lines@.len());
        }
        let cov2 = self.coverage + 1;
        self.coverage = cov2;
        if cov2 >= self.lines.len() {
            Err(PErr { line: self.lines.len(), kind: PErrKind::Unclosed(st.unclosed()) })
        } else {
            let lr = &self.lines[cov2];
            let nl = trim(lr);
            let mut st2 = st;
            match consume_all(&mut st2, &nl, 0) {
                Err(f) => Err(PErr { line: cov2 + 1, kind: PErrKind::Unbalanced(f) }),
                Ok(()) => {
                    let mut s2 = s;
                    s2.push('\n');
                    append_chars(&mut s2, &nl);
                    proof {
                        assert(s2@ =~= s@ + seq!['\n'] + nl@);
                    }
                    if st2.is() {
                        Ok(s2)
                    } else {
                        self.pull(s2, st2, fuel - 1)
                    }
                },
            }
        }
    }

    /// Build one decision link from the branch body, the stashed condition
    /// and the remainder after `||`; see `scan::sp_decision`.
    #[verifier::rlimit(100)]
    pub fn decision_resolver(
        &mut self,
        block: &Vec<char>,
        cond: Option<Vec<char>>,
        next_s: &Vec<char>,
        fuel: u64,
    ) -> (r: Result<Box<Expr>, PErr>)
        requires
            old(self).cov() < old(self).lines_v().len(),
        ensures
            final(self).lines_v() == old(self).lines_v(),
            final(self).toks() == old(self).toks(),
            expr_matches(
                sp_decision(
                    old(self).lines_v(),
                    old(self).cov(),
                    block@,
                    view_opt_chars(cond),
                    next_s@,
                    fuel as nat,
                ),
                r,
                final(self).cov(),
                old(self).lines_v().len() as int,
            ),
        decreases fuel,
    {
        if fuel == 0 {
            return Err(PErr { line: self.coverage, kind: PErrKind::Depth });
        }
        let mut bsrc: Vec<char> = Vec::new();
        bsrc.push('~');
        append_chars(&mut bsrc, block);
        proof {
            assert(bsrc@ =~= seq!['~'] + block@);
        }
        let mut bt = Tokenizer::from_chars(&bsrc);
        let btoks: Vec<Tokens>;
        match bt.start(fuel - 1) {
            Err(e) => {
                return Err(e);
            },
            Ok(()) => {
                btoks = bt.tokens;
                proof {
                    assert(Seq::<TokV>::empty() + sp_tokenize(
                        crate::text::sp_split_lines_from(bsrc@, 0),
                        0,
                        (fuel - 1) as nat,
                    ).res->Ok_0 =~= sp_tokenize(
                        crate::text::sp_split_lines_from(bsrc@, 0),
                        0,
                        (fuel - 1) as nat,
                    ).res->Ok_0);
                }
            },
        }
        let mut st = IsClosed::new();
        match consume_all(&mut st, next_s, 0) {
            Err(f) => {
                return Err(PErr { line: self.line_no(), kind: PErrKind::Unbalanced(f) });
            },
            Ok(()) => {},
        }
        let next_full: Vec<char>;
        if st.is() {
            next_full = sub_chars(next_s, 0, next_s.len());
            proof {
                assert(next_full@ =~= next_s@);
            }
        } else {
            let s0 = sub_chars(next_s, 0, next_s.len());
            proof {
                assert(s0@ =~= next_s@);
            }
            match self.pull(s0, st, fuel - 1) {
                Err(e) => {
                    return Err(e);
                },
                Ok(v) => {
                    next_full = v;
                },
            }
        }
        proof {
            let lines0 = old(self).lines_v();
            let cov0 = old(self).cov();
            let f0 = fuel as nat;
            let btspec = sp_tokenize(
                crate::text::sp_split_lines_from(seq!['~'] + block@, 0),
                0,
                (f0 - 1) as nat,
            );
            assert(btspec.res is Ok);
            assert(view_block(btoks@) == btspec.res->Ok_0);
            let st0r = sp_consume_all(Seq::empty(), next_s@, 0);
            assert(st0r is Ok);
            let st0 = st0r->Ok_0;
            let pulled = if st0.len() == 0 {
                PRes { cov: cov0, res: Ok::<Seq<char>, PErrV>(next_s@) }
            } else {
                sp_pull(lines0, cov0, next_s@, st0, (f0 - 1) as nat)
            };
            assert(pulled.res == Ok::<Seq<char>, PErrV>(next_full@));
            assert(self.cov() == pulled.cov);
        }
        if next_full.len() == 0 {
            return Err(PErr { line: self.line_no(), kind: PErrKind::MissingElse });
        }
        let lex: Box<Expr>;
        match self.expression_resolver(&next_full, fuel - 1) {
            Err(e) => {
                return Err(e);
            },
            Ok(l) => {
                lex = l;
            },
        }
        let ln2 = self.line_no();
        let nextd: Decision = match *lex {
            Expr::Decision(d) => d,
            other => {
                let tok = Tokens { line_number: ln2, token: Token::Return(Box::new(other)) };
                proof {
                    lemma_view_block_push(Seq::<Tokens>::empty(), tok);
                    assert(view_block(Seq::<Tokens>::empty()) =~= Seq::<TokV>::empty());
                }
                let mut blk: Vec<Tokens> = Vec::new();
                blk.push(tok);
                proof {
                    assert(blk@ =~= Seq::<Tokens>::empty().push(blk@[0]));
                }
                Decision {
                    cond: Box::new(Expr::Bool(true)),
                    block: blk,
                    next: None,
                }
            },
        };
        proof {
            reveal_with_fuel(view_expr, 2);
            reveal_with_fuel(crate::ast::view_decision, 3);
            let lines0 = old(self).lines_v();
            let f0 = fuel as nat;
            let lexspec_cov = self.cov();
            let lv = view_expr(*lex);
            let nextd_spec = match lv {
                ExprV::Decision(d) => d,
                other_v => crate::ast::DecisionV {
                    cond: Box::new(ExprV::Bool(true)),
                    block: seq![
                        TokV {
                            line: lexspec_cov + 1,
                            token: crate::ast::TokenV::Return(Box::new(other_v)),
                        },
                    ],
                    next: Option::None,
                },
            };
            assert(crate::ast::view_decision(nextd) == nextd_spec);
        }
        match cond {
            None => Err(PErr { line: ln2, kind: PErrKind::MissingCondition }),
            Some(cs) => {
                match self.expression_resolver(&cs, fuel - 1) {
                    Err(e) => Err(e),
                    Ok(cv) => Ok(
                        Box::new(
                            Expr::Decision(
                                Decision { cond: cv, block: btoks, next: Some(Box::new(nextd)) },
                            ),
                        ),
                    ),
                }
            },
        }
    }
}

} // verus!
