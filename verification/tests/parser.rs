use tof::ast::{Expr, Token, Tokens, JOINT};
use tof::errors::{PErr, PErrKind};
use tof::tokenizer::Tokenizer;
use tof::utils::{BalanceFault, TOCLOSE};

const FUEL: u64 = 1_000_000;

fn parse(src: &str) -> Result<Vec<Tokens>, PErr> {
    let mut tk = Tokenizer::new(src);
    tk.start(FUEL)?;
    Ok(tk.tokens)
}

#[test]
fn parses_number_literal() {
    let toks = parse("~42").unwrap();
    assert_eq!(toks.len(), 1);
    match &toks[0].token {
        Token::Return(e) => assert_eq!(**e, Expr::Int(42)),
        other => panic!("not a return: {:?}", other),
    }
}

#[test]
fn parses_string_literal() {
    let toks = parse("~\"hi\"").unwrap();
    match &toks[0].token {
        Token::Return(e) => assert_eq!(**e, Expr::Str(String::from("hi"))),
        other => panic!("not a return: {:?}", other),
    }
}

#[test]
fn parses_string_with_spaces() {
    let toks = parse("~\"a b\"").unwrap();
    match &toks[0].token {
        Token::Return(e) => assert_eq!(**e, Expr::Str(String::from("a b"))),
        other => panic!("not a return: {:?}", other),
    }
}

#[test]
fn parses_bool_literals() {
    let toks = parse("~TRUE").unwrap();
    match &toks[0].token {
        Token::Return(e) => assert_eq!(**e, Expr::Bool(true)),
        other => panic!("not a return: {:?}", other),
    }
    let toks = parse("~FALSE").unwrap();
    match &toks[0].token {
        Token::Return(e) => assert_eq!(**e, Expr::Bool(false)),
        other => panic!("not a return: {:?}", other),
    }
}

#[test]
fn parses_variable_reference() {
    let toks = parse("~abc").unwrap();
    match &toks[0].token {
        Token::Return(e) => assert_eq!(**e, Expr::Call(String::from("abc"))),
        other => panic!("not a return: {:?}", other),
    }
}

#[test]
fn parses_function_call_with_args() {
    let toks = parse("~f 1 2").unwrap();
    match &toks[0].token {
        Token::Return(e) => match &**e {
            Expr::FcCall(fc) => {
                assert_eq!(fc.name, "f");
                assert_eq!(fc.args.len(), 2);
                assert_eq!(*fc.args[0], Expr::Int(1));
                assert_eq!(*fc.args[1], Expr::Int(2));
            },
            other => panic!("not a call: {:?}", other),
        },
        other => panic!("not a return: {:?}", other),
    }
}

#[test]
fn operator_splits_at_first_top_level_character() {
    // No precedence: the first `-` splits, the rest is parsed recursively,
    // so the tree is SUB(1, SUB(2, 3)).
    let toks = parse("~1 - 2 - 3").unwrap();
    match &toks[0].token {
        Token::Return(e) => match &**e {
            Expr::Op(o) => {
                assert_eq!(o.joint, JOINT::SUB);
                assert_eq!(*o.lhs, Expr::Int(1));
                match &*o.rhs {
                    Expr::Op(o2) => {
                        assert_eq!(o2.joint, JOINT::SUB);
                        assert_eq!(*o2.lhs, Expr::Int(2));
                        assert_eq!(*o2.rhs, Expr::Int(3));
                    },
                    other => panic!("not an op: {:?}", other),
                }
            },
            other => panic!("not an op: {:?}", other),
        },
        other => panic!("not a return: {:?}", other),
    }
}

#[test]
fn multiline_continuation_parses_like_single_line() {
    let two = parse("~(1 +\n2)").unwrap();
    let one = parse("~(1 + 2)").unwrap();
    assert_eq!(two, one);
}

#[test]
fn unbalanced_input_is_fatal_and_names_the_marker() {
    let e = parse("~(1 + 2").unwrap_err();
    assert_eq!(e.kind, PErrKind::Unclosed(TOCLOSE::BRACKETS));
}

#[test]
fn mismatched_closer_names_the_open_marker() {
    let e = parse("~(}").unwrap_err();
    assert_eq!(e.kind, PErrKind::Unbalanced(BalanceFault::CloseFirst(TOCLOSE::BRACKETS)));
}

#[test]
fn closer_with_nothing_open_is_fatal() {
    let e = parse("~)").unwrap_err();
    assert_eq!(e.kind, PErrKind::Unbalanced(BalanceFault::NoneOpen));
}

#[test]
fn unresolvable_fragment_is_fatal_and_names_it() {
    let e = parse("~@#").unwrap_err();
    assert_eq!(e.kind, PErrKind::NotAType(String::from("@#")));
    assert_eq!(e.line, 1);
}

#[test]
fn numeric_literal_out_of_range_is_fatal() {
    let e = parse("~99999999999999999999").unwrap_err();
    assert!(matches!(e.kind, PErrKind::NotAType(_)));
}

#[test]
fn chain_without_else_is_fatal() {
    let e = parse("~(1 = 1) ? 2").unwrap_err();
    assert_eq!(e.kind, PErrKind::MissingElse);
}

#[test]
fn chain_without_condition_is_fatal() {
    let e = parse("~2 || 3").unwrap_err();
    assert_eq!(e.kind, PErrKind::MissingCondition);
}

#[test]
fn blank_and_comment_lines_produce_no_statement() {
    let toks = parse("// note\n\n~1").unwrap();
    assert_eq!(toks.len(), 1);
}

#[test]
fn definition_line_binds_a_bare_identifier() {
    let toks = parse("a: 1").unwrap();
    match &toks[0].token {
        Token::Def(d) => {
            assert_eq!(d.name, "a");
            assert_eq!(*d.value, Expr::Int(1));
        },
        other => panic!("not a definition: {:?}", other),
    }
    assert_eq!(toks[0].line_number, 1);
}

#[test]
fn non_identifier_left_side_is_not_a_definition() {
    let toks = parse("a b: 1").unwrap();
    assert!(matches!(&toks[0].token, Token::Expr(_)));
}

#[test]
fn arrow_with_parameters_is_a_lambda() {
    let toks = parse("f: x y -> x + y").unwrap();
    match &toks[0].token {
        Token::Def(d) => match &*d.value {
            Expr::Lamda(l) => {
                assert_eq!(l.args, vec![String::from("x"), String::from("y")]);
                assert_eq!(l.value.len(), 1);
            },
            other => panic!("not a lambda: {:?}", other),
        },
        other => panic!("not a definition: {:?}", other),
    }
}

#[test]
fn lone_placeholder_means_no_parameters() {
    let toks = parse("z: _ -> 42").unwrap();
    match &toks[0].token {
        Token::Def(d) => match &*d.value {
            Expr::Lamda(l) => assert_eq!(l.args.len(), 0),
            other => panic!("not a lambda: {:?}", other),
        },
        other => panic!("not a definition: {:?}", other),
    }
}

#[test]
fn arrow_without_parameters_is_a_scope() {
    let toks = parse("~-> 5").unwrap();
    match &toks[0].token {
        Token::Return(e) => assert!(matches!(&**e, Expr::Scope(_))),
        other => panic!("not a return: {:?}", other),
    }
}

#[test]
fn decision_chain_flattens_into_links() {
    let toks = parse("~(1 = 2) ? \"no\" || (1 = 1) ? \"yes\" || \"fallback\"").unwrap();
    match &toks[0].token {
        Token::Return(e) => match &**e {
            Expr::Decision(d) => {
                let second = d.next.as_ref().expect("second link");
                let third = second.next.as_ref().expect("terminal link");
                assert_eq!(*third.cond, Expr::Bool(true));
                assert!(third.next.is_none());
            },
            other => panic!("not a decision: {:?}", other),
        },
        other => panic!("not a return: {:?}", other),
    }
}

#[test]
fn parser_runs_out_of_depth_gracefully() {
    let mut tk = Tokenizer::new("~1 + 2");
    let e = tk.start(2).unwrap_err();
    assert_eq!(e.kind, PErrKind::Depth);
}
