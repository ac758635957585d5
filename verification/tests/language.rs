use tof::ast::JOINT;
use tof::errors::RtErr;
use tof::natives::{prelude_names, IoNatives, StubNatives};
use tof::runtime::Runtime;
use tof::tokenizer::Tokenizer;
use tof::values::Variable;

const FUEL: u64 = 1_000_000;

fn stub() -> StubNatives {
    StubNatives { written: Vec::new(), inputs: Vec::new() }
}

fn run_with(
    rt: &mut Runtime<StubNatives>,
    src: &str,
    scope: usize,
    drop: bool,
) -> Result<Option<Variable>, RtErr> {
    let mut tk = Tokenizer::new(src);
    tk.start(FUEL).expect("parse error");
    let params: Vec<String> = Vec::new();
    rt.eval(&tk.tokens, scope, Vec::new(), &params, drop, FUEL)
}

/// Run a whole script the way the file-driven mode does.
fn run(src: &str) -> Result<Option<Variable>, RtErr> {
    let mut rt = Runtime::new(stub(), &prelude_names());
    run_with(&mut rt, src, 1, true)
}

fn run_inputs(src: &str, inputs: Vec<Variable>) -> Result<Option<Variable>, RtErr> {
    let mut rt = Runtime::new(StubNatives { written: Vec::new(), inputs }, &prelude_names());
    run_with(&mut rt, src, 1, true)
}

#[test]
fn operator_left_split_evaluates_whole_remainder() {
    assert_eq!(run("~1 + 2 * 3").unwrap(), Some(Variable::Int(7)));
}

#[test]
fn subtraction_associates_to_the_right_of_the_first_split() {
    assert_eq!(run("~1 - 2 - 3").unwrap(), Some(Variable::Int(2)));
}

#[test]
fn string_concatenation() {
    assert_eq!(
        run("~\"ab\" + \"cd\"").unwrap(),
        Some(Variable::Str(String::from("abcd")))
    );
}

#[test]
fn string_plus_number_is_a_type_error() {
    assert_eq!(run("~\"ab\" + 1").unwrap_err(), RtErr::TypeError(JOINT::ADD));
}

#[test]
fn decision_chain_takes_the_first_true_branch() {
    assert_eq!(
        run("~(1 = 2) ? \"no\" || (1 = 1) ? \"yes\" || \"fallback\"").unwrap(),
        Some(Variable::Str(String::from("yes")))
    );
}

#[test]
fn decision_chain_falls_back_when_no_condition_holds() {
    assert_eq!(
        run("~(1 = 2) ? \"no\" || (1 = 3) ? \"yes\" || \"fallback\"").unwrap(),
        Some(Variable::Str(String::from("fallback")))
    );
}

#[test]
fn non_boolean_condition_falls_through() {
    assert_eq!(run("~(3) ? 1 || 2").unwrap(), Some(Variable::Int(2)));
}

#[test]
fn decision_chain_continues_on_the_next_line() {
    assert_eq!(run("~(1 = 2) ? 5\n|| 6").unwrap(), Some(Variable::Int(6)));
}

#[test]
fn top_level_persistence_across_separate_inputs() {
    // The interactive mode evaluates one line at a time without popping the
    // top-level scope, so definitions accumulate.
    let mut rt = Runtime::new(stub(), &prelude_names());
    run_with(&mut rt, "a: 1", 1, false).unwrap();
    run_with(&mut rt, "a: a + 1", 2, false).unwrap();
    assert_eq!(run_with(&mut rt, "~a", 3, false).unwrap(), Some(Variable::Int(2)));
}

#[test]
fn lambda_call_binds_parameters_pairwise() {
    assert_eq!(
        run("f: x y -> x + y\n~f 2 3").unwrap(),
        Some(Variable::Int(5))
    );
}

#[test]
fn niladic_lambda_called_with_placeholder() {
    assert_eq!(run("zero: _ -> 42\n~zero _").unwrap(), Some(Variable::Int(42)));
}

#[test]
fn outer_scope_name_visible_from_deeper_scope() {
    assert_eq!(run("a: 7\nf: _ -> a\n~f _").unwrap(), Some(Variable::Int(7)));
}

#[test]
fn inner_definition_shadows_and_vanishes_after_the_call() {
    let mut rt = Runtime::new(stub(), &prelude_names());
    run_with(&mut rt, "a: 1", 1, false).unwrap();
    run_with(&mut rt, "f: _ -> {\na: 2\n~a\n}", 2, false).unwrap();
    assert_eq!(run_with(&mut rt, "~f _", 3, false).unwrap(), Some(Variable::Int(2)));
    assert_eq!(run_with(&mut rt, "~a", 4, false).unwrap(), Some(Variable::Int(1)));
}

#[test]
fn binding_a_void_result_is_fatal() {
    assert_eq!(
        run("x: print \"hi\"").unwrap_err(),
        RtErr::StoreVoid(String::from("x"))
    );
}

#[test]
fn passing_a_void_argument_is_fatal() {
    assert_eq!(
        run("f: x -> x\n~f (print \"hi\")").unwrap_err(),
        RtErr::VoidArg
    );
}

#[test]
fn anonymous_scope_evaluates_its_block() {
    assert_eq!(run("~-> { ~5 }").unwrap(), Some(Variable::Int(5)));
}

#[test]
fn lambda_with_block_body() {
    assert_eq!(
        run("f: x -> {\ny: x + 1\n~y\n}\n~f 4").unwrap(),
        Some(Variable::Int(5))
    );
}

#[test]
fn later_return_wins_inside_a_block() {
    assert_eq!(
        run("f: _ -> {\n~1\n~2\n}\n~f _").unwrap(),
        Some(Variable::Int(2))
    );
}

#[test]
fn division_truncates() {
    assert_eq!(run("~7 / 2").unwrap(), Some(Variable::Int(3)));
}

#[test]
fn division_by_zero_is_fatal() {
    assert_eq!(run("~1 / 0").unwrap_err(), RtErr::DivByZero);
}

#[test]
fn addition_overflow_is_fatal() {
    assert_eq!(
        run("~9223372036854775807 + 1").unwrap_err(),
        RtErr::Overflow
    );
}

#[test]
fn unknown_variable_is_fatal() {
    assert_eq!(run("~nope").unwrap_err(), RtErr::VarNotFound(String::from("nope")));
}

#[test]
fn applying_a_number_is_fatal() {
    assert_eq!(
        run("x: 1\n~x 2").unwrap_err(),
        RtErr::NotCallable(String::from("x"))
    );
}

#[test]
fn wrong_argument_count_is_fatal_with_both_counts() {
    assert_eq!(
        run("f: x -> x\n~f 1 2").unwrap_err(),
        RtErr::ArgCount { expected: 1, got: 2 }
    );
}

#[test]
fn comparisons_yield_booleans() {
    assert_eq!(run("~2 > 1").unwrap(), Some(Variable::Bool(true)));
    assert_eq!(run("~1 < 1").unwrap(), Some(Variable::Bool(false)));
    assert_eq!(run("~3 = 3").unwrap(), Some(Variable::Bool(true)));
    assert_eq!(run("~\"a\" ! \"b\"").unwrap(), Some(Variable::Bool(true)));
}

#[test]
fn comparing_string_with_number_is_fatal() {
    assert_eq!(run("~\"a\" = 1").unwrap_err(), RtErr::TypeError(JOINT::EQU));
}

#[test]
fn numeric_parse_native() {
    assert_eq!(run("~int \"42\"").unwrap(), Some(Variable::Int(42)));
}

#[test]
fn string_length_native() {
    assert_eq!(run("~len \"abcd\"").unwrap(), Some(Variable::Int(4)));
}

#[test]
fn round_native_keeps_whole_numbers() {
    assert_eq!(run("~round 7").unwrap(), Some(Variable::Int(7)));
}

#[test]
fn quit_native_reports_the_exit_code() {
    assert_eq!(run("~quit 3").unwrap_err(), RtErr::Exit(3));
}

#[test]
fn scan_native_reads_a_queued_line() {
    assert_eq!(
        run_inputs("~scan \"> \"", vec![Variable::Str(String::from("hello"))]).unwrap(),
        Some(Variable::Str(String::from("hello")))
    );
}

#[test]
fn rand_native_draws_the_next_queued_number() {
    assert_eq!(
        run_inputs("~rand _", vec![Variable::Int(99)]).unwrap(),
        Some(Variable::Int(99))
    );
}

#[test]
fn real_random_native_yields_a_number() {
    let mut tk = Tokenizer::new("~rand _");
    tk.start(FUEL).expect("parse error");
    let mut rt = Runtime::new(IoNatives {}, &prelude_names());
    let params: Vec<String> = Vec::new();
    let r = rt.eval(&tk.tokens, 1, Vec::new(), &params, true, FUEL);
    assert!(matches!(r, Ok(Some(Variable::Int(_)))));
}

#[test]
fn print_yields_no_value() {
    assert_eq!(run("print \"x\"").unwrap(), None);
}

#[test]
fn runaway_recursion_exhausts_the_depth_bound() {
    let mut tk = Tokenizer::new("f: _ -> f _\n~f _");
    tk.start(FUEL).expect("parse error");
    let mut rt = Runtime::new(stub(), &prelude_names());
    let params: Vec<String> = Vec::new();
    let r = rt.eval(&tk.tokens, 1, Vec::new(), &params, true, 500);
    assert_eq!(r.unwrap_err(), RtErr::Depth);
}

#[test]
fn trailing_newline_is_harmless() {
    assert_eq!(run("~1\n").unwrap(), Some(Variable::Int(1)));
}

#[test]
fn colon_inside_a_call_is_not_a_definition() {
    assert_eq!(run("print \"a:b\"").unwrap(), None);
}

#[test]
fn lookup_from_depth_zero_consults_the_global_scope() {
    let mut vars = tof::runtime::Vars::new();
    vars.insert(String::from("a"), Variable::Int(1));
    vars.push();
    let found = vars.get(&String::from("a"), 0);
    assert_eq!(found, Some((0, Variable::Int(1))));
}
