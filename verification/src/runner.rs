//! The pipeline as one pure step: source text in, outcome out. Reading
//! files, prompting, and printing are the host's business.
use crate::errors::{ParserError, RuntimeError, RuntimeErrorKind, ScannerError};
use crate::interpreter::{eval_program, out_view, Interpreter, SRes, StateV};
use crate::parser::{p_program, Parser};
use crate::scanner::{lemma_scan_eof, scan_from, toks_view, Scanner};
use crate::statement::stmts_view;
use vstd::prelude::*;

verus! {

/// Everything one run of a program yields: the scan error if scanning
/// failed, otherwise the parse errors, and if none stopped it, the printed
/// lines and the runtime error if evaluation stopped early.
pub struct RunOutcome {
    pub scan_error: Option<ScannerError>,
    pub parse_errors: Vec<ParserError>,
    pub output: Vec<Vec<char>>,
    pub runtime_error: Option<RuntimeError>,
}

/// Runs a source text through scanner, parser and evaluator, as the driver
/// does for a file (strict) or one prompt line (lenient). A scan error stops
/// the run before parsing; any parse error stops it before evaluation; a
/// runtime error stops it where it arose, keeping the output so far.
pub fn run_source(source: Vec<char>, strict: bool) -> (r: RunOutcome)
    requires
        source@.len() < usize::MAX,
    ensures
        ({
            let sr = scan_from(source@, 0, 1, 1);
            match sr.err {
                Option::Some(e) => r.scan_error == Option::Some(e) && r.parse_errors@.len() == 0
                    && r.output@.len() == 0 && r.runtime_error is None,
                Option::None => {
                    let pr = p_program(sr.toks, 0, strict);
                    let prog = if pr.errors.len() == 0 {
                        pr.stmts
                    } else {
                        Seq::empty()
                    };
                    let st0 = StateV { env: seq![Map::empty()], out: Seq::empty(), brk: false };
                    &&& r.scan_error is None
                    &&& r.parse_errors@ == pr.errors
                    &&& match r.runtime_error {
                        Option::None => exists|f2: nat, st2: StateV|
                            eval_program(u64::MAX as nat, st0, prog, 0, false) == (SRes::Done {
                                st: st2,
                                fuel: f2,
                            }) && st2.out == out_view(r.output@),
                        Option::Some(e) => (match e.cause {
                            RuntimeErrorKind::LoopLimitReached => exists|st2: StateV|
                                eval_program(u64::MAX as nat, st0, prog, 0, false)
                                    == (SRes::Spent { st: st2 }) && st2.out == out_view(r.output@),
                            _ => exists|st2: StateV|
                                eval_program(u64::MAX as nat, st0, prog, 0, false) == (SRes::Throw {
                                    err: e.cause@,
                                    loc: e.location,
                                    st: st2,
                                }) && st2.out == out_view(r.output@),
                        }),
                    }
                },
            }
        }),
{
    let mut scanner = Scanner::new(source);
    match scanner.run() {
        Ok(()) => {},
        Err(e) => {
            let out: Vec<Vec<char>> = Vec::new();
            return RunOutcome {
                scan_error: Option::Some(e),
                parse_errors: Vec::new(),
                output: out,
                runtime_error: Option::None,
            };
        },
    }
    proof {
        lemma_scan_eof(scanner.source@, 0, 1, 1);
        assert(toks_view(scanner.tokens@) =~= scan_from(scanner.source@, 0, 1, 1).toks);
        assert(scanner.tokens@.len() > 0);
        assert(scanner.tokens@.last()@ == toks_view(scanner.tokens@).last());
    }
    let mut parser = Parser::new(scanner.tokens, strict);
    let stmts = parser.parse();
    proof {
        assert(stmts_view(Seq::<crate::statement::Statement>::empty()) =~= Seq::<
            crate::statement::StmtV,
        >::empty());
    }
    let mut intp = Interpreter::new();
    let run = intp.interpret(stmts);
    let ghost final_st = intp.state();
    let r = RunOutcome {
        scan_error: Option::None,
        parse_errors: parser.errors,
        output: intp.out,
        runtime_error: match run {
            Ok(()) => Option::None,
            Err(e) => Option::Some(e),
        },
    };
    proof {
        assert(final_st.out == out_view(r.output@));
    }
    r
}

/// Runs a whole file's text in strict mode, as the driver does after reading
/// the file.
pub fn run_file(source: Vec<char>) -> (r: RunOutcome)
    requires
        source@.len() < usize::MAX,
    ensures
        ({
            let sr = scan_from(source@, 0, 1, 1);
            match sr.err {
                Option::Some(e) => r.scan_error == Option::Some(e) && r.parse_errors@.len() == 0
                    && r.output@.len() == 0 && r.runtime_error is None,
                Option::None => {
                    let pr = p_program(sr.toks, 0, true);
                    let prog = if pr.errors.len() == 0 {
                        pr.stmts
                    } else {
                        Seq::empty()
                    };
                    let st0 = StateV { env: seq![Map::empty()], out: Seq::empty(), brk: false };
                    &&& r.scan_error is None
                    &&& r.parse_errors@ == pr.errors
                    &&& match r.runtime_error {
                        Option::None => exists|f2: nat, st2: StateV|
                            eval_program(u64::MAX as nat, st0, prog, 0, false) == (SRes::Done {
                                st: st2,
                                fuel: f2,
                            }) && st2.out == out_view(r.output@),
                        Option::Some(e) => (match e.cause {
                            RuntimeErrorKind::LoopLimitReached => exists|st2: StateV|
                                eval_program(u64::MAX as nat, st0, prog, 0, false)
                                    == (SRes::Spent { st: st2 }) && st2.out == out_view(r.output@),
                            _ => exists|st2: StateV|
                                eval_program(u64::MAX as nat, st0, prog, 0, false) == (SRes::Throw {
                                    err: e.cause@,
                                    loc: e.location,
                                    st: st2,
                                }) && st2.out == out_view(r.output@),
                        }),
                    }
                },
            }
        }),
{
    run_source(source, true)
}

} // verus!
