use lox_rs::errors::{ParseErrorKind, RuntimeErrorKind, ScanErrorKind};
use lox_rs::runner::{run_file, run_source, RunOutcome};
use lox_rs::scanner::Scanner;
use lox_rs::token_type::TokenType;

fn chars_of(s: &str) -> Vec<char> {
    s.chars().collect()
}

fn run(src: &str) -> RunOutcome {
    run_source(chars_of(src), true)
}

fn lines(r: &RunOutcome) -> Vec<String> {
    r.output.iter().map(|l| l.iter().collect()).collect()
}

fn clean_lines(src: &str) -> Vec<String> {
    let r = run(src);
    assert!(r.scan_error.is_none());
    assert!(r.parse_errors.is_empty());
    assert!(r.runtime_error.is_none());
    lines(&r)
}

#[test]
fn arithmetic_precedence_prints_twelve() {
    assert_eq!(clean_lines("print 2 + 2 * 5;"), vec!["12"]);
}

#[test]
fn block_scopes_shadow_and_restore() {
    let src = "var a = \"global a\";\n{ var a = \"local a\"; print a; }\nprint a;";
    assert_eq!(clean_lines(src), vec!["local a", "global a"]);
}

#[test]
fn while_loop_counts_to_three() {
    let src = "var i = 0;\nwhile (i < 3) { print i; i = i + 1; }";
    assert_eq!(clean_lines(src), vec!["0", "1", "2"]);
}

#[test]
fn for_loop_breaks_after_first_round() {
    let src = "for (var i = 0; i < 3; i = i + 1) { if (i == 1) break; print i; }";
    assert_eq!(clean_lines(src), vec!["0"]);
}

#[test]
fn logical_or_returns_the_operand() {
    assert_eq!(clean_lines("print nil or \"hello\";"), vec!["hello"]);
}

#[test]
fn cross_type_equality_is_false() {
    assert_eq!(clean_lines("print 1 == \"1\";"), vec!["false"]);
}

#[test]
fn assignment_yields_the_assigned_value() {
    let src = "var a = 1;\nprint a = 3;\nprint a;";
    assert_eq!(clean_lines(src), vec!["3", "3"]);
}

#[test]
fn unterminated_string_stops_the_scan() {
    let r = run("print \"abc");
    let e = r.scan_error.expect("expected a scan error");
    assert_eq!(e.cause, ScanErrorKind::UnterminatedString);
    assert!(r.output.is_empty());
    assert!(r.parse_errors.is_empty());
}

#[test]
fn unexpected_character_is_reported_with_location() {
    let r = run("var a = 1;\n  #");
    let e = r.scan_error.expect("expected a scan error");
    assert_eq!(e.cause, ScanErrorKind::UnexpectedCharacter('#'));
    assert_eq!(e.location.line, 2);
    assert_eq!(e.location.column, 3);
}

#[test]
fn trailing_dot_scans_as_two_tokens() {
    let mut s = Scanner::new(chars_of("1."));
    s.run().unwrap();
    let kinds: Vec<TokenType> = s.tokens.iter().map(|t| t.token_type).collect();
    assert_eq!(
        kinds,
        vec![TokenType::Number, TokenType::Dot, TokenType::Eof]
    );
}

#[test]
fn break_outside_a_loop_is_a_parse_error() {
    let r = run("break;");
    assert_eq!(r.parse_errors.len(), 1);
    assert_eq!(r.parse_errors[0].cause, ParseErrorKind::BreakOutsideLoop);
    assert!(r.output.is_empty());
}

#[test]
fn parse_error_withholds_all_statements() {
    let r = run("print 1;\nvar = 3;");
    assert!(!r.parse_errors.is_empty());
    assert!(r.output.is_empty());
}

#[test]
fn division_by_zero_is_not_an_error() {
    let r = run("print 1 / 0;\nprint 0 / 0;\nprint -1 / 0;");
    assert!(r.runtime_error.is_none());
    assert_eq!(lines(&r), vec!["inf", "NaN", "-inf"]);
}

#[test]
fn numbers_print_positionally() {
    assert_eq!(
        clean_lines("print 100;\nprint 120;\nprint 0.0001;\nprint 45.67;\nprint 0;"),
        vec!["100", "120", "0.0001", "45.67", "0"]
    );
}

#[test]
fn nil_prints_as_nil() {
    assert_eq!(clean_lines("print nil;\nvar a;\nprint a;"), vec!["nil", "nil"]);
}

#[test]
fn fun_is_a_reserved_word() {
    let r = run("var fun = 1;");
    assert!(!r.parse_errors.is_empty());
    assert!(r.output.is_empty());
}

#[test]
fn fractions_round_trip_through_print() {
    assert_eq!(clean_lines("print 2.5;\nprint 0.125 + 0.125;"), vec!["2.5", "0.25"]);
}

#[test]
fn undefined_variable_is_a_runtime_error() {
    let r = run("print x;");
    let e = r.runtime_error.expect("expected a runtime error");
    assert_eq!(
        e.cause,
        RuntimeErrorKind::UndefinedVariable(chars_of("x"))
    );
    assert_eq!(e.location.line, 1);
    assert_eq!(e.location.column, 7);
}

#[test]
fn adding_a_string_to_a_number_is_invalid() {
    let r = run("print 1 + \"a\";");
    let e = r.runtime_error.expect("expected a runtime error");
    assert_eq!(e.cause, RuntimeErrorKind::InvalidExpression);
}

#[test]
fn unary_minus_needs_a_number() {
    let r = run("print -\"a\";");
    let e = r.runtime_error.expect("expected a runtime error");
    assert_eq!(e.cause, RuntimeErrorKind::UnaryMinusOnNonNumber);
}

#[test]
fn runtime_error_keeps_earlier_output() {
    let r = run("print 1;\nprint x;");
    assert!(r.runtime_error.is_some());
    assert_eq!(lines(&r), vec!["1"]);
}

#[test]
fn truthiness_of_zero_and_empty_string() {
    assert_eq!(
        clean_lines("if (0) print \"zero\"; if (\"\") print \"empty\"; if (nil) print \"nil\";"),
        vec!["zero", "empty"]
    );
}

#[test]
fn unicode_identifiers_are_accepted() {
    assert_eq!(clean_lines("var caf\u{e9} = 1;\nprint caf\u{e9};"), vec!["1"]);
}

#[test]
fn lenient_mode_synthesizes_missing_semicolon() {
    let r = run_source(chars_of("print 1"), false);
    assert!(r.parse_errors.is_empty());
    assert_eq!(lines(&r), vec!["1"]);
}

#[test]
fn strict_mode_requires_semicolon() {
    let r = run_file(chars_of("print 1"));
    assert_eq!(r.parse_errors.len(), 1);
    assert_eq!(
        r.parse_errors[0].cause,
        ParseErrorKind::ExpectSemicolonAfterExpression
    );
}

#[test]
fn invalid_assignment_target_is_reported() {
    let r = run("1 = 2;");
    assert_eq!(r.parse_errors.len(), 1);
    assert_eq!(
        r.parse_errors[0].cause,
        ParseErrorKind::InvalidAssignmentTarget
    );
    assert_eq!(r.parse_errors[0].location.line, 1);
    assert_eq!(r.parse_errors[0].location.column, 3);
}

#[test]
fn if_else_takes_the_right_branch() {
    assert_eq!(
        clean_lines("if (1 < 2) print \"then\"; else print \"else\";\nif (2 < 1) print \"then\"; else print \"else\";"),
        vec!["then", "else"]
    );
}

#[test]
fn logical_and_short_circuits() {
    assert_eq!(
        clean_lines("print false and 1;\nprint true and 1;"),
        vec!["false", "1"]
    );
}

#[test]
fn assignment_reaches_outer_scope() {
    assert_eq!(
        clean_lines("var a = 1;\n{ a = 2; }\nprint a;"),
        vec!["2"]
    );
}
