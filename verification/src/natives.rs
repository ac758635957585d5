//! The two native-function tables: `IoNatives`, the real prelude — printing,
//! line input, numeric parse, string length, a random number, rounding and
//! process exit — and `StubNatives`, a pure, scriptable table for testing
//! the evaluator without any input or output.

use vstd::prelude::*;
use std::io::Write;
use crate::errors::RtErr;
use crate::runtime::NativeTable;
use crate::text::{all_digits, all_digits_from, chars_eq_str, chars_of, parse_digits,
    sp_parse_digits, sp_trim, string_from_chars, trim};
use crate::values::Variable;

verus! {

/// Relies on `rand::random`: a value drawn from the thread-local generator;
/// nothing can be promised of it.
pub assume_specification<T>[ rand::random::<T> ]() -> (r: T)
    where
        rand::distributions::Standard: rand::distributions::Distribution<T>,
;

/// Relies on the `write!` macro over `std::io::Stdout`: sends the text to
/// standard output.
#[verifier::external_body]
fn emit_str(s: &str) {
    let _ = write!(std::io::stdout(), "{}", s);
}

/// Relies on `std::io::Write::flush` for `std::io::Stdout`: forces buffered
/// output out.
#[verifier::external_body]
fn flush_out() {
    let _ = std::io::Write::flush(&mut std::io::stdout());
}

/// Relies on `std::io::Stdin::read_line`: one line read from standard
/// input, trailing newline included; `None` when reading fails.
#[verifier::external_body]
fn read_input_line() -> (r: Option<String>)
{
    let mut s = String::new();
    match std::io::stdin().read_line(&mut s) {
        Ok(_) => Some(s),
        Err(_) => None,
    }
}

/// Relies on the `format!` macro: the decimal rendering of the number.
#[verifier::external_body]
fn int_to_string(i: i64) -> (r: String)
{
    format!("{}", i)
}

/// Relies on the `format!` macro over the derived `Debug`: a rendering of a
/// lambda's parameter list and body for display.
#[verifier::external_body]
fn lamda_to_string(args: &Vec<String>, value: &Vec<crate::ast::Tokens>) -> (r: String)
{
    format!("args:{:#?} , value:{:#?}", args, value)
}

/// Render one runtime value the way the printing native shows it.
fn display_variable(v: &Variable) -> String {
    match v {
        Variable::Lamda { args, value } => lamda_to_string(args, value),
        Variable::Rusty(_) => String::from_str("a rusty function"),
        Variable::Int(i) => int_to_string(*i),
        Variable::Str(s) => s.clone(),
        Variable::Bool(b) => if *b {
            String::from_str("true")
        } else {
            String::from_str("false")
        },
    }
}

/// Parse a numeric argument: a number passes through, a string of digits is
/// read as a number; anything else, and a string that is not a number in
/// range, is a native fault.
fn int_native(args: &Vec<Variable>) -> (r: Result<Option<Variable>, RtErr>)
    ensures
        args@.len() != 1 ==> r is Err,
        args@.len() == 1 ==> (match args@[0] {
            Variable::Int(i) => r == Ok::<Option<Variable>, RtErr>(Some(Variable::Int(i))),
            Variable::Str(s) => ({
                let t = sp_trim(s@);
                if t.len() > 0 && all_digits_from(t, 0) {
                    match sp_parse_digits(t, 0, 0) {
                        Option::Some(n) => r == Ok::<Option<Variable>, RtErr>(
                            Some(Variable::Int(n)),
                        ),
                        Option::None => r is Err,
                    }
                } else {
                    r is Err
                }
            }),
            _ => r is Err,
        }),
{
    if args.len() != 1 {
        return Err(RtErr::Native(String::from_str("int takes one argument")));
    }
    match &args[0] {
        Variable::Int(i) => Ok(Some(Variable::Int(*i))),
        Variable::Str(s) => {
            let cs = chars_of(s.as_str());
            let t = trim(&cs);
            if t.len() > 0 && all_digits(&t, 0) {
                match parse_digits(&t, 0, 0) {
                    Some(n) => Ok(Some(Variable::Int(n))),
                    None => Err(RtErr::Native(String::from_str("cannot parse"))),
                }
            } else {
                Err(RtErr::Native(String::from_str("cannot parse")))
            }
        },
        _ => Err(RtErr::Native(String::from_str("cannot parse"))),
    }
}

/// The character count of one string argument; anything else is a native
/// fault.
fn len_native(args: &Vec<Variable>) -> (r: Result<Option<Variable>, RtErr>)
    ensures
        args@.len() != 1 ==> r is Err,
        args@.len() == 1 ==> (match args@[0] {
            Variable::Str(s) => if s@.len() <= i64::MAX {
                r == Ok::<Option<Variable>, RtErr>(Some(Variable::Int(s@.len() as i64)))
            } else {
                r is Err
            },
            _ => r is Err,
        }),
{
    if args.len() != 1 {
        return Err(RtErr::Native(String::from_str("len takes one argument")));
    }
    match &args[0] {
        Variable::Str(s) => {
            let cs = chars_of(s.as_str());
            let n = cs.len();
            if n as u64 <= i64::MAX as u64 {
                Ok(Some(Variable::Int(n as i64)))
            } else {
                Err(RtErr::Native(String::from_str("string too long")))
            }
        },
        _ => Err(RtErr::Native(String::from_str("only give len of string"))),
    }
}

/// Round one numeric argument; whole numbers round to themselves, anything
/// else is a native fault.
fn round_native(args: &Vec<Variable>) -> (r: Result<Option<Variable>, RtErr>)
    ensures
        args@.len() != 1 ==> r is Err,
        args@.len() == 1 ==> (match args@[0] {
            Variable::Int(i) => r == Ok::<Option<Variable>, RtErr>(Some(Variable::Int(i))),
            _ => r is Err,
        }),
{
    if args.len() != 1 {
        return Err(RtErr::Native(String::from_str("round takes one argument")));
    }
    match &args[0] {
        Variable::Int(i) => Ok(Some(Variable::Int(*i))),
        _ => Err(RtErr::Native(String::from_str("only numbers please"))),
    }
}

/// The exit request a `quit` call denotes: the given code, or 100 when
/// called without one; a non-numeric code is a native fault.
fn quit_native(args: &Vec<Variable>) -> (r: Result<Option<Variable>, RtErr>)
    ensures
        args@.len() == 1 ==> (match args@[0] {
            Variable::Int(i) => r == Err::<Option<Variable>, RtErr>(RtErr::Exit(i)),
            _ => r is Err,
        }),
        args@.len() != 1 ==> r == Err::<Option<Variable>, RtErr>(RtErr::Exit(100)),
{
    if args.len() == 1 {
        match &args[0] {
            Variable::Int(i) => Err(RtErr::Exit(*i)),
            _ => Err(RtErr::Native(String::from_str("only numbers please"))),
        }
    } else {
        Err(RtErr::Exit(100))
    }
}

/// The names of the prelude natives, in the order they are registered.
pub fn prelude_names() -> (r: Vec<String>)
    ensures
        r@.len() == 7,
        r@[0]@ == "print"@,
        r@[1]@ == "scan"@,
        r@[2]@ == "int"@,
        r@[3]@ == "len"@,
        r@[4]@ == "rand"@,
        r@[5]@ == "round"@,
        r@[6]@ == "quit"@,
{
    let mut r: Vec<String> = Vec::new();
    r.push(String::from_str("print"));
    r.push(String::from_str("scan"));
    r.push(String::from_str("int"));
    r.push(String::from_str("len"));
    r.push(String::from_str("rand"));
    r.push(String::from_str("round"));
    r.push(String::from_str("quit"));
    r
}

/// The real prelude: natives that read and write the terminal, draw random
/// numbers and stop the process (by reporting an `Exit` fault for the
/// driver to honour).
pub struct IoNatives {}

impl NativeTable for IoNatives {
    fn invoke(&mut self, name: &str, args: Vec<Variable>) -> Result<Option<Variable>, RtErr> {
        let nv = chars_of(name);
        if chars_eq_str(&nv, "print") {
            let mut i: usize = 0;
            while i < args.len()
                decreases args@.len() - i,
            {
                let s = display_variable(&args[i]);
                emit_str(s.as_str());
                i = i + 1;
            }
            emit_str("\n");
            flush_out();
            Ok(None)
        } else if chars_eq_str(&nv, "scan") {
            if args.len() >= 1 {
                let p = display_variable(&args[0]);
                emit_str(p.as_str());
                flush_out();
            }
            match read_input_line() {
                None => Err(RtErr::Native(String::from_str("cannot read input"))),
                Some(line) => {
                    let cs = chars_of(line.as_str());
                    let stripped = if cs.len() > 0 {
                        crate::text::sub_chars(&cs, 0, cs.len() - 1)
                    } else {
                        cs
                    };
                    Ok(Some(Variable::Str(string_from_chars(&stripped))))
                },
            }
        } else if chars_eq_str(&nv, "int") {
            int_native(&args)
        } else if chars_eq_str(&nv, "len") {
            len_native(&args)
        } else if chars_eq_str(&nv, "rand") {
            let n: i64 = rand::random::<i64>();
            Ok(Some(Variable::Int(n)))
        } else if chars_eq_str(&nv, "round") {
            round_native(&args)
        } else if chars_eq_str(&nv, "quit") {
            quit_native(&args)
        } else {
            Err(RtErr::Native(String::from_str("unknown native")))
        }
    }
}

/// A pure native table for tests: printing records the shown values, input
/// lines come from a queue loaded in advance, and the random number is the
/// next queued number; everything else behaves as the prelude does.
pub struct StubNatives {
    pub written: Vec<Variable>,
    pub inputs: Vec<Variable>,
}

impl NativeTable for StubNatives {
    fn invoke(&mut self, name: &str, args: Vec<Variable>) -> Result<Option<Variable>, RtErr> {
        let nv = chars_of(name);
        if chars_eq_str(&nv, "print") {
            let mut rest = args;
            loop
                decreases rest@.len(),
            {
                if rest.len() == 0 {
                    break ;
                }
                let v = rest.remove(0);
                self.written.push(v);
            }
            Ok(None)
        } else if chars_eq_str(&nv, "scan") || chars_eq_str(&nv, "rand") {
            if self.inputs.len() == 0 {
                Err(RtErr::Native(String::from_str("no queued input")))
            } else {
                let v = self.inputs.remove(0);
                Ok(Some(v))
            }
        } else if chars_eq_str(&nv, "int") {
            int_native(&args)
        } else if chars_eq_str(&nv, "len") {
            len_native(&args)
        } else if chars_eq_str(&nv, "round") {
            round_native(&args)
        } else if chars_eq_str(&nv, "quit") {
            quit_native(&args)
        } else {
            Err(RtErr::Native(String::from_str("unknown native")))
        }
    }
}

} // verus!
