//! The mathematical model of the scanner/parser: a family of specification
//! functions over the line sequence and a current line index ("coverage").
//! Every executable parser method in `tokenizer` is proved to return exactly
//! what these functions say.
//!
//! The functions take an explicit `fuel` bound on recursion depth, mirrored
//! by the executable parser; running out of fuel is the `Depth` parse error.

use vstd::prelude::*;
use crate::ast::{DecisionV, ExprV, JOINT, TokV, TokenV};
use crate::errors::{PErrKindV, PErrV};
use crate::text::{all_digits_from, all_word_from, find_arrow_from, find_char_from, find_ws_from,
    has_alpha_from, has_ws_from, is_join_c, is_ws_c, sp_parse_digits, sp_split_lines_from,
    sp_split_ws_from, sp_trim, sp_trim_quotes};
use crate::utils::{spec_consume, BalanceFault, TOCLOSE};

verus! {

/// Outcome of one parsing step: the coverage after it, and the parsed value
/// or the fatal parse error.
pub ghost struct PRes<A> {
    pub cov: int,
    pub res: Result<A, PErrV>,
}

/// The operator named by one operator character.
pub open spec fn sp_op(c: char) -> JOINT {
    if c == '+' {
        JOINT::ADD
    } else if c == '-' {
        JOINT::SUB
    } else if c == '/' {
        JOINT::DIV
    } else if c == '*' {
        JOINT::MULT
    } else if c == '>' {
        JOINT::GREAT
    } else if c == '<' {
        JOINT::LESS
    } else if c == '=' {
        JOINT::EQU
    } else {
        JOINT::NOT
    }
}

/// Feed every character of `s` from `i` on to the balance tracker.
pub open spec fn sp_consume_all(st: Seq<TOCLOSE>, s: Seq<char>, i: int) -> Result<
    Seq<TOCLOSE>,
    BalanceFault,
>
    decreases s.len() - i,
{
    if i < 0 || i >= s.len() {
        Ok(st)
    } else {
        match spec_consume(st, s[i]) {
            Err(f) => Err(f),
            Ok(st2) => sp_consume_all(st2, s, i + 1),
        }
    }
}

/// Whether a trimmed line continues a decision chain.
pub open spec fn sp_starts_pipes(s: Seq<char>) -> bool {
    s.len() >= 2 && s[0] == '|' && s[1] == '|'
}

/// Whether a trimmed line is blank or a comment.
pub open spec fn sp_skippable(s: Seq<char>) -> bool {
    s.len() == 0 || (s.len() >= 2 && s[0] == '/' && s[1] == '/')
}

/// Whether a definition's left-hand side is a single bare identifier.
pub open spec fn sp_is_ident(s: Seq<char>) -> bool {
    s.len() > 0 && all_word_from(s, 0)
}

/// Parse a whole source: one statement per logical line, from line `cov` on.
pub open spec fn sp_tokenize(lines: Seq<Seq<char>>, cov: int, fuel: nat) -> PRes<Seq<TokV>>
    decreases fuel,
{
    if fuel == 0 {
        PRes { cov, res: Err(PErrV { line: cov, kind: PErrKindV::Depth }) }
    } else if cov >= lines.len() {
        PRes { cov, res: Ok(Seq::empty()) }
    } else {
        let t = sp_token(lines, cov, (fuel - 1) as nat);
        match t.res {
            Err(e) => PRes { cov: t.cov, res: Err(e) },
            Ok(opt) => {
                let rest = sp_tokenize(lines, t.cov + 1, (fuel - 1) as nat);
                match rest.res {
                    Err(e) => PRes { cov: rest.cov, res: Err(e) },
                    Ok(ts) => PRes {
                        cov: rest.cov,
                        res: Ok(
                            match opt {
                                Option::Some(tv) => seq![tv] + ts,
                                Option::None => ts,
                            },
                        ),
                    },
                }
            },
        }
    }
}

/// Classify and parse the statement starting on line `cov`.
pub open spec fn sp_token(lines: Seq<Seq<char>>, cov: int, fuel: nat) -> PRes<Option<TokV>>
    decreases fuel,
{
    if fuel == 0 {
        PRes { cov, res: Err(PErrV { line: cov, kind: PErrKindV::Depth }) }
    } else {
        let line = lines[cov];
        if sp_skippable(sp_trim(line)) {
            PRes { cov, res: Ok(Option::None) }
        } else if find_char_from(line, ':', 0) < line.len() {
            sp_def(lines, cov, (fuel - 1) as nat)
        } else {
            sp_ret_expr(lines, cov, (fuel - 1) as nat)
        }
    }
}

/// Parse a definition line, or fall back to a return/expression statement
/// when the text before the first `:` is not a bare identifier.
pub open spec fn sp_def(lines: Seq<Seq<char>>, cov: int, fuel: nat) -> PRes<Option<TokV>>
    decreases fuel,
{
    if fuel == 0 {
        PRes { cov, res: Err(PErrV { line: cov, kind: PErrKindV::Depth }) }
    } else {
        let line = lines[cov];
        let k = find_char_from(line, ':', 0);
        let name = sp_trim(line.subrange(0, k));
        if sp_is_ident(name) {
            let ln = cov + 1;
            let v = sp_expression(lines, cov, line.subrange(k + 1, line.len() as int), (fuel - 1) as nat);
            match v.res {
                Err(e) => PRes { cov: v.cov, res: Err(e) },
                Ok(ev) => PRes {
                    cov: v.cov,
                    res: Ok(
                        Option::Some(
                            TokV {
                                line: ln,
                                token: TokenV::Def { name, value: Box::new(ev) },
                            },
                        ),
                    ),
                },
            }
        } else {
            sp_ret_expr(lines, cov, (fuel - 1) as nat)
        }
    }
}

/// Parse a return statement (leading `~`) or a bare expression statement.
pub open spec fn sp_ret_expr(lines: Seq<Seq<char>>, cov: int, fuel: nat) -> PRes<Option<TokV>>
    decreases fuel,
{
    if fuel == 0 {
        PRes { cov, res: Err(PErrV { line: cov, kind: PErrKindV::Depth }) }
    } else {
        let line = lines[cov];
        let t = sp_trim(line);
        let ln = cov + 1;
        if t.len() > 0 && t[0] == '~' {
            let e = sp_expression(lines, cov, t.subrange(1, t.len() as int), (fuel - 1) as nat);
            match e.res {
                Err(er) => PRes { cov: e.cov, res: Err(er) },
                Ok(ev) => PRes {
                    cov: e.cov,
                    res: Ok(Option::Some(TokV { line: ln, token: TokenV::Return(Box::new(ev)) })),
                },
            }
        } else {
            let e = sp_expression(lines, cov, line, (fuel - 1) as nat);
            match e.res {
                Err(er) => PRes { cov: e.cov, res: Err(er) },
                Ok(ev) => PRes {
                    cov: e.cov,
                    res: Ok(Option::Some(TokV { line: ln, token: TokenV::Expr(Box::new(ev)) })),
                },
            }
        }
    }
}

/// Parse one expression: trim the text and scan it left to right.
pub open spec fn sp_expression(lines: Seq<Seq<char>>, cov: int, s: Seq<char>, fuel: nat) -> PRes<
    ExprV,
>
    decreases fuel,
{
    if fuel == 0 {
        PRes { cov, res: Err(PErrV { line: cov, kind: PErrKindV::Depth }) }
    } else {
        sp_scan(
            lines,
            cov,
            sp_trim(s),
            0,
            Seq::empty(),
            false,
            false,
            Seq::empty(),
            Option::None,
            (fuel - 1) as nat,
        )
    }
}

/// The left-to-right scan over an accumulated buffer.
///
/// At a top-level operator character the text so far becomes the left
/// operand and the rest is parsed recursively: operators have no precedence.
/// `-` followed by `>` starts an arrow instead; `?` stashes the condition;
/// `||` closes a decision branch. When the buffer ends unbalanced, or with a
/// pending condition continued by a `||` line, the next source line is pulled
/// in and the scan resumes.
pub open spec fn sp_scan(
    lines: Seq<Seq<char>>,
    cov: int,
    buf: Seq<char>,
    i: int,
    st: Seq<TOCLOSE>,
    in_arrow: bool,
    in_cond: bool,
    parts: Seq<char>,
    cond: Option<Seq<char>>,
    fuel: nat,
) -> PRes<ExprV>
    decreases fuel,
{
    if fuel == 0 {
        PRes { cov, res: Err(PErrV { line: cov, kind: PErrKindV::Depth }) }
    } else if 0 <= i < buf.len() {
        let c = buf[i];
        let arrow_start = c == '-' && i + 1 < buf.len() && buf[i + 1] == '>';
        if is_join_c(c) && st.len() == 0 && !in_arrow && !in_cond && !arrow_start {
            let lhs = sp_node(lines, cov, parts, (fuel - 1) as nat);
            match lhs.res {
                Err(e) => PRes { cov: lhs.cov, res: Err(e) },
                Ok(lv) => {
                    let rhs = sp_expression(
                        lines,
                        lhs.cov,
                        buf.subrange(i + 1, buf.len() as int),
                        (fuel - 1) as nat,
                    );
                    match rhs.res {
                        Err(e) => PRes { cov: rhs.cov, res: Err(e) },
                        Ok(rv) => PRes {
                            cov: rhs.cov,
                            res: Ok(
                                ExprV::Op {
                                    joint: sp_op(c),
                                    lhs: Box::new(lv),
                                    rhs: Box::new(rv),
                                },
                            ),
                        },
                    }
                },
            }
        } else {
            let in_arrow2 = in_arrow || (is_join_c(c) && st.len() == 0 && !in_arrow && !in_cond
                && arrow_start);
            if c == '|' && i + 1 < buf.len() && buf[i + 1] == '|' && st.len() == 0 && !in_arrow2 {
                sp_decision(
                    lines,
                    cov,
                    parts,
                    cond,
                    buf.subrange(i + 2, buf.len() as int),
                    (fuel - 1) as nat,
                )
            } else {
                match spec_consume(st, c) {
                    Err(f) => PRes {
                        cov,
                        res: Err(PErrV { line: cov + 1, kind: PErrKindV::Unbalanced(f) }),
                    },
                    Ok(st2) => {
                        if c == '?' && !in_arrow2 {
                            sp_scan(
                                lines,
                                cov,
                                buf,
                                i + 1,
                                st2,
                                in_arrow2,
                                true,
                                Seq::empty(),
                                Option::Some(parts),
                                (fuel - 1) as nat,
                            )
                        } else {
                            sp_scan(
                                lines,
                                cov,
                                buf,
                                i + 1,
                                st2,
                                in_arrow2,
                                in_cond,
                                parts.push(c),
                                cond,
                                (fuel - 1) as nat,
                            )
                        }
                    },
                }
            }
        }
    } else {
        if st.len() == 0 {
            if in_cond {
                if cov + 1 < lines.len() && sp_starts_pipes(sp_trim(lines[cov + 1])) {
                    sp_scan(
                        lines,
                        cov + 1,
                        buf + sp_trim(lines[cov + 1]),
                        i,
                        st,
                        in_arrow,
                        in_cond,
                        parts,
                        cond,
                        (fuel - 1) as nat,
                    )
                } else {
                    sp_decision(lines, cov, parts, cond, Seq::empty(), (fuel - 1) as nat)
                }
            } else if in_arrow {
                sp_scope_lamda(lines, cov, parts, (fuel - 1) as nat)
            } else {
                sp_node(lines, cov, parts, (fuel - 1) as nat)
            }
        } else {
            if cov + 1 >= lines.len() {
                PRes {
                    cov: cov + 1,
                    res: Err(
                        PErrV { line: lines.len() as int, kind: PErrKindV::Unclosed(st.last()) },
                    ),
                }
            } else {
                sp_scan(
                    lines,
                    cov + 1,
                    buf + seq!['\n'] + sp_trim(lines[cov + 1]),
                    i,
                    st,
                    in_arrow,
                    in_cond,
                    parts,
                    cond,
                    (fuel - 1) as nat,
                )
            }
        }
    }
}

/// Resolve a fully accumulated, balanced fragment into a leaf or nested node:
/// string literal, boolean literal, parenthesized expression, function call,
/// bare identifier, or numeric literal; anything else is a fatal parse error
/// naming the fragment.
pub open spec fn sp_node(lines: Seq<Seq<char>>, cov: int, part_raw: Seq<char>, fuel: nat) -> PRes<
    ExprV,
>
    decreases fuel,
{
    if fuel == 0 {
        PRes { cov, res: Err(PErrV { line: cov, kind: PErrKindV::Depth }) }
    } else {
        let part = sp_trim(part_raw);
        if part.len() >= 1 && part[0] == '"' && part[part.len() - 1] == '"' {
            PRes { cov, res: Ok(ExprV::Str(sp_trim_quotes(part))) }
        } else if part == "TRUE"@ {
            PRes { cov, res: Ok(ExprV::Bool(true)) }
        } else if part == "FALSE"@ {
            PRes { cov, res: Ok(ExprV::Bool(false)) }
        } else if part.len() >= 2 && part[0] == '(' && part[part.len() - 1] == ')' {
            sp_expression(lines, cov, part.subrange(1, part.len() - 1), (fuel - 1) as nat)
        } else if has_ws_from(part, 0) {
            let k = find_ws_from(part, 0);
            let name = part.subrange(0, k);
            let a = sp_args(lines, cov, part.subrange(k, part.len() as int), (fuel - 1) as nat);
            match a.res {
                Err(e) => PRes { cov: a.cov, res: Err(e) },
                Ok(args) => PRes { cov: a.cov, res: Ok(ExprV::FcCall { name, args }) },
            }
        } else if has_alpha_from(part, 0) {
            PRes { cov, res: Ok(ExprV::Call(part)) }
        } else if part.len() > 0 && all_digits_from(part, 0) {
            match sp_parse_digits(part, 0, 0) {
                Option::Some(n) => PRes { cov, res: Ok(ExprV::Int(n)) },
                Option::None => PRes {
                    cov,
                    res: Err(PErrV { line: cov + 1, kind: PErrKindV::NotAType(part) }),
                },
            }
        } else {
            PRes { cov, res: Err(PErrV { line: cov + 1, kind: PErrKindV::NotAType(part) }) }
        }
    }
}

/// Parse a whitespace-separated argument list; a lone `_` means no arguments.
pub open spec fn sp_args(lines: Seq<Seq<char>>, cov: int, raw: Seq<char>, fuel: nat) -> PRes<
    Seq<ExprV>,
>
    decreases fuel,
{
    if fuel == 0 {
        PRes { cov, res: Err(PErrV { line: cov, kind: PErrKindV::Depth }) }
    } else {
        let s = sp_trim(raw);
        if s == "_"@ {
            PRes { cov, res: Ok(Seq::empty()) }
        } else {
            sp_scan_args(lines, cov, s, 0, Seq::empty(), Seq::empty(), Seq::empty(), (fuel - 1) as nat)
        }
    }
}

/// The scan over an argument list: split on whitespace at bracket depth zero;
/// every argument but the last is parsed as an expression, the last as a
/// plain node.
pub open spec fn sp_scan_args(
    lines: Seq<Seq<char>>,
    cov: int,
    s: Seq<char>,
    i: int,
    st: Seq<TOCLOSE>,
    arg: Seq<char>,
    acc: Seq<ExprV>,
    fuel: nat,
) -> PRes<Seq<ExprV>>
    decreases fuel,
{
    if fuel == 0 {
        PRes { cov, res: Err(PErrV { line: cov, kind: PErrKindV::Depth }) }
    } else if 0 <= i < s.len() {
        let c = s[i];
        if is_ws_c(c) && st.len() == 0 {
            let e = sp_expression(lines, cov, arg, (fuel - 1) as nat);
            match e.res {
                Err(er) => PRes { cov: e.cov, res: Err(er) },
                Ok(ev) => sp_scan_args(
                    lines,
                    e.cov,
                    s,
                    i + 1,
                    st,
                    seq![c],
                    acc.push(ev),
                    (fuel - 1) as nat,
                ),
            }
        } else {
            match spec_consume(st, c) {
                Err(f) => PRes {
                    cov,
                    res: Err(PErrV { line: cov + 1, kind: PErrKindV::Unbalanced(f) }),
                },
                Ok(st2) => sp_scan_args(lines, cov, s, i + 1, st2, arg.push(c), acc, (fuel - 1) as nat),
            }
        }
    } else {
        if st.len() == 0 {
            let n = sp_node(lines, cov, arg, (fuel - 1) as nat);
            match n.res {
                Err(e) => PRes { cov: n.cov, res: Err(e) },
                Ok(nv) => PRes { cov: n.cov, res: Ok(acc.push(nv)) },
            }
        } else {
            PRes { cov, res: Err(PErrV { line: cov + 1, kind: PErrKindV::Unclosed(st.last()) }) }
        }
    }
}

/// Resolve an accumulated arrow form: the text before the first `->` names
/// the parameters (empty means an anonymous scope, a lone `_` a niladic
/// lambda), the text after it is either a braced statement block or a single
/// implicit-return expression.
pub open spec fn sp_scope_lamda(lines: Seq<Seq<char>>, cov: int, part: Seq<char>, fuel: nat) -> PRes<
    ExprV,
>
    decreases fuel,
{
    if fuel == 0 {
        PRes { cov, res: Err(PErrV { line: cov, kind: PErrKindV::Depth }) }
    } else {
        let k = find_arrow_from(part, 0);
        let argsp = part.subrange(0, if k <= part.len() { k } else { part.len() as int });
        let steps = sp_trim(
            part.subrange(if k + 2 <= part.len() { k + 2 } else { part.len() as int }, part.len() as int),
        );
        let body = if steps.len() >= 2 && steps[0] == '{' && steps[steps.len() - 1] == '}' {
            let tk = sp_tokenize(
                sp_split_lines_from(steps.subrange(1, steps.len() - 1), 0),
                0,
                (fuel - 1) as nat,
            );
            PRes { cov, res: tk.res }
        } else {
            let e = sp_expression(lines, cov, steps, (fuel - 1) as nat);
            match e.res {
                Err(er) => PRes { cov: e.cov, res: Err(er) },
                Ok(ev) => PRes {
                    cov: e.cov,
                    res: Ok(seq![TokV { line: cov + 1, token: TokenV::Return(Box::new(ev)) }]),
                },
            }
        };
        match body.res {
            Err(e) => PRes { cov: body.cov, res: Err(e) },
            Ok(value) => {
                let words = sp_split_ws_from(argsp, 0);
                if sp_trim(argsp).len() == 0 || words.len() == 0 {
                    PRes { cov: body.cov, res: Ok(ExprV::Scope(value)) }
                } else if words[0] == "_"@ {
                    PRes { cov: body.cov, res: Ok(ExprV::Lamda { params: Seq::empty(), value }) }
                } else {
                    PRes { cov: body.cov, res: Ok(ExprV::Lamda { params: words, value }) }
                }
            },
        }
    }
}

/// Pull further lines into a decision remainder until it is balanced.
pub open spec fn sp_pull(
    lines: Seq<Seq<char>>,
    cov: int,
    s: Seq<char>,
    st: Seq<TOCLOSE>,
    fuel: nat,
) -> PRes<Seq<char>>
    decreases fuel,
{
    if fuel == 0 {
        PRes { cov, res: Err(PErrV { line: cov, kind: PErrKindV::Depth }) }
    } else {
        let cov2 = cov + 1;
        if cov2 >= lines.len() {
            PRes {
                cov: cov2,
                res: Err(PErrV { line: lines.len() as int, kind: PErrKindV::Unclosed(st.last()) }),
            }
        } else {
            let nl = sp_trim(lines[cov2]);
            match sp_consume_all(st, nl, 0) {
                Err(f) => PRes {
                    cov: cov2,
                    res: Err(PErrV { line: cov2 + 1, kind: PErrKindV::Unbalanced(f) }),
                },
                Ok(st2) => {
                    let s2 = s + seq!['\n'] + nl;
                    if st2.len() == 0 {
                        PRes { cov: cov2, res: Ok(s2) }
                    } else {
                        sp_pull(lines, cov2, s2, st2, (fuel - 1) as nat)
                    }
                },
            }
        }
    }
}

/// Build one decision link: the branch body becomes a block with an implicit
/// return, the remainder after `||` becomes the next link (a chained decision
/// directly, anything else a synthetic always-true terminal branch), and the
/// stashed condition is parsed last. A missing condition and a missing else
/// clause are fatal parse errors.
pub open spec fn sp_decision(
    lines: Seq<Seq<char>>,
    cov: int,
    block: Seq<char>,
    cond: Option<Seq<char>>,
    next_raw: Seq<char>,
    fuel: nat,
) -> PRes<ExprV>
    decreases fuel,
{
    if fuel == 0 {
        PRes { cov, res: Err(PErrV { line: cov, kind: PErrKindV::Depth }) }
    } else {
        let bt = sp_tokenize(sp_split_lines_from(seq!['~'] + block, 0), 0, (fuel - 1) as nat);
        match bt.res {
            Err(e) => PRes { cov, res: Err(e) },
            Ok(btoks) => {
                match sp_consume_all(Seq::empty(), next_raw, 0) {
                    Err(f) => PRes {
                        cov,
                        res: Err(PErrV { line: cov + 1, kind: PErrKindV::Unbalanced(f) }),
                    },
                    Ok(st0) => {
                        let pulled = if st0.len() == 0 {
                            PRes { cov, res: Ok(next_raw) }
                        } else {
                            sp_pull(lines, cov, next_raw, st0, (fuel - 1) as nat)
                        };
                        match pulled.res {
                            Err(e) => PRes { cov: pulled.cov, res: Err(e) },
                            Ok(next_s) => {
                                if next_s.len() == 0 {
                                    PRes {
                                        cov: pulled.cov,
                                        res: Err(
                                            PErrV {
                                                line: pulled.cov + 1,
                                                kind: PErrKindV::MissingElse,
                                            },
                                        ),
                                    }
                                } else {
                                    let lex = sp_expression(lines, pulled.cov, next_s, (fuel - 1) as nat);
                                    match lex.res {
                                        Err(e) => PRes { cov: lex.cov, res: Err(e) },
                                        Ok(lv) => {
                                            let nextd = match lv {
                                                ExprV::Decision(d) => d,
                                                other => DecisionV {
                                                    cond: Box::new(ExprV::Bool(true)),
                                                    block: seq![
                                                        TokV {
                                                            line: lex.cov + 1,
                                                            token: TokenV::Return(Box::new(other)),
                                                        },
                                                    ],
                                                    next: Option::None,
                                                },
                                            };
                                            match cond {
                                                Option::None => PRes {
                                                    cov: lex.cov,
                                                    res: Err(
                                                        PErrV {
                                                            line: lex.cov + 1,
                                                            kind: PErrKindV::MissingCondition,
                                                        },
                                                    ),
                                                },
                                                Option::Some(cs) => {
                                                    let ce = sp_expression(
                                                        lines,
                                                        lex.cov,
                                                        cs,
                                                        (fuel - 1) as nat,
                                                    );
                                                    match ce.res {
                                                        Err(e) => PRes { cov: ce.cov, res: Err(e) },
                                                        Ok(cv) => PRes {
                                                            cov: ce.cov,
                                                            res: Ok(
                                                                ExprV::Decision(
                                                                    DecisionV {
                                                                        cond: Box::new(cv),
                                                                        block: btoks,
                                                                        next: Option::Some(
                                                                            Box::new(nextd),
                                                                        ),
                                                                    },
                                                                ),
                                                            ),
                                                        },
                                                    }
                                                },
                                            }
                                        },
                                    }
                                }
                            },
                        }
                    },
                }
            },
        }
    }
}

} // verus!
