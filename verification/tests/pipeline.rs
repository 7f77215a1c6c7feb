use lox_rs::expression::Expression;
use lox_rs::interpreter::Interpreter;
use lox_rs::parser::Parser;
use lox_rs::scanner::Scanner;
use lox_rs::token::{Literal, Token};
use lox_rs::token_type::TokenType;
use lox_rs::LocationInfo;

fn chars_of(s: &str) -> Vec<char> {
    s.chars().collect()
}

fn text_of(v: &Vec<char>) -> String {
    v.iter().collect()
}

fn op_token(ty: TokenType, lexeme: &str, literal: Literal) -> Token {
    Token {
        token_type: ty,
        lexeme: chars_of(lexeme),
        literal,
        loc: LocationInfo {
            column: 0,
            line: 0,
            len: 1,
        },
    }
}

#[test]
fn expression_displayed_correctly() {
    let left_expr = Expression::Unary(
        op_token(
            TokenType::Minus,
            "-",
            Literal::String(chars_of("Hello world!")),
        ),
        Box::new(Expression::Literal(Literal::Number(123_f64.to_bits()))),
    );
    let right_expr = Expression::Group(Box::new(Expression::Literal(Literal::Number(
        45.67_f64.to_bits(),
    ))));
    let expr = Expression::Binary(
        Box::new(left_expr),
        op_token(TokenType::Star, "*", Literal::String(chars_of("*"))),
        Box::new(right_expr),
    );
    assert_eq!(
        "(* (- 123) (group 45.67))".to_string(),
        text_of(&expr.display_text())
    );
}

#[test]
fn environment_tracks_variables() {
    let source = "var a = \"global a\";\nvar b = \"global b\";\nvar c = \"global c\";";
    let mut s = Scanner::new(chars_of(source.trim()));
    s.run().unwrap();
    let mut parser = Parser::new(s.tokens, true);
    let mut intp = Interpreter::new();
    let stmts = parser.parse();
    intp.interpret(stmts).unwrap();
    assert_eq!(
        intp.env.get(&chars_of("a")).unwrap(),
        Literal::String(chars_of("global a"))
    );
}

#[test]
fn nested_blocks_preserve_env() {
    let source = "var a = \"hello\";\n{\n    var a = \"world\";\n}\n";
    let mut s = Scanner::new(chars_of(source.trim()));
    s.run().unwrap();
    let mut parser = Parser::new(s.tokens, true);
    let mut intp = Interpreter::new();
    let stmts = parser.parse();
    intp.interpret(stmts).unwrap();
    assert_eq!(
        intp.env.get(&chars_of("a")).unwrap(),
        Literal::String(chars_of("hello"))
    );
}

#[test]
fn parse_round_trips_to_prefix_form() {
    let mut s = Scanner::new(chars_of("2 + 2 * 5;"));
    s.run().unwrap();
    let mut parser = Parser::new(s.tokens, true);
    let stmts = parser.parse();
    assert_eq!(stmts.len(), 1);
    match &stmts[0] {
        lox_rs::statement::Statement::Expr(e) => {
            assert_eq!(text_of(&e.display_text()), "(+ 2 (* 2 5))");
        }
        other => panic!("expected an expression statement, got {:?}", other),
    }
}

#[test]
fn syntax_tree_parsed_correctly() {
    let source = "(5 * 2) + 1 - 2;";
    let mut s = Scanner::new(chars_of(source));
    s.run().unwrap();
    let mut parser = Parser::new(s.tokens, true);
    let stmt = parser.parse();
    assert_eq!(1, stmt.len());
}

#[test]
fn comments_are_discarded() {
    let source = "// much comment such wow\n// i also know how to comment\n(( )){} // here are some tokens!";
    let mut s = Scanner::new(chars_of(source));
    s.run().unwrap();

    assert_eq!(s.tokens.len(), 7);
    assert_eq!(
        s.loc,
        LocationInfo {
            column: 33,
            line: 3,
            len: source.chars().count(),
        }
    );
}

#[test]
fn string_is_correctly_added() {
    let source = "\"hello\" \"world!\"";
    let expected = vec![
        Token {
            token_type: TokenType::String,
            lexeme: chars_of("hello"),
            literal: Literal::String(chars_of("hello")),
            loc: LocationInfo {
                column: 2,
                line: 1,
                len: 5,
            },
        },
        Token {
            token_type: TokenType::String,
            lexeme: chars_of("world!"),
            literal: Literal::String(chars_of("world!")),
            loc: LocationInfo {
                column: 10,
                line: 1,
                len: 6,
            },
        },
        Token {
            token_type: TokenType::Eof,
            lexeme: chars_of(""),
            literal: Literal::Nil,
            loc: LocationInfo {
                column: 17,
                line: 1,
                len: 0,
            },
        },
    ];

    let mut s = Scanner::new(chars_of(source));
    s.run().unwrap();
    assert_eq!(s.tokens, expected);
}

#[test]
fn identifiers_are_correctly_scanned() {
    let source = "and super this some_var";
    let expected = vec![
        Token {
            token_type: TokenType::And,
            lexeme: chars_of("and"),
            literal: Literal::String(chars_of("and")),
            loc: LocationInfo {
                column: 1,
                line: 1,
                len: 3,
            },
        },
        Token {
            token_type: TokenType::Super,
            lexeme: chars_of("super"),
            literal: Literal::String(chars_of("super")),
            loc: LocationInfo {
                column: 5,
                line: 1,
                len: 5,
            },
        },
        Token {
            token_type: TokenType::This,
            lexeme: chars_of("this"),
            literal: Literal::String(chars_of("super")),
            loc: LocationInfo {
                column: 11,
                line: 1,
                len: 4,
            },
        },
        Token {
            token_type: TokenType::Identifier,
            lexeme: chars_of("some_var"),
            literal: Literal::String(chars_of("super")),
            loc: LocationInfo {
                column: 16,
                line: 1,
                len: 8,
            },
        },
        Token {
            token_type: TokenType::Eof,
            lexeme: chars_of(""),
            literal: Literal::Nil,
            loc: LocationInfo {
                column: 24,
                line: 1,
                len: 0,
            },
        },
    ];

    let mut s = Scanner::new(chars_of(source));
    s.run().unwrap();
    assert_eq!(s.tokens, expected);
}

#[test]
fn numbers_are_correctly_scanned() {
    let source = "25 25.03 4343";
    let expected = vec![
        Token {
            token_type: TokenType::Number,
            lexeme: chars_of("25"),
            literal: Literal::Number(25_f64.to_bits()),
            loc: LocationInfo {
                column: 1,
                line: 1,
                len: 2,
            },
        },
        Token {
            token_type: TokenType::Number,
            lexeme: chars_of("25.03"),
            literal: Literal::Number(25.03_f64.to_bits()),
            loc: LocationInfo {
                column: 4,
                line: 1,
                len: 5,
            },
        },
        Token {
            token_type: TokenType::Number,
            lexeme: chars_of("4343"),
            literal: Literal::Number(4343_f64.to_bits()),
            loc: LocationInfo {
                column: 10,
                line: 1,
                len: 4,
            },
        },
        Token {
            token_type: TokenType::Eof,
            lexeme: chars_of(""),
            literal: Literal::Nil,
            loc: LocationInfo {
                column: 14,
                line: 1,
                len: 0,
            },
        },
    ];

    let mut s = Scanner::new(chars_of(source));
    s.run().unwrap();
    assert_eq!(s.tokens, expected);

    // The token comparison ignores the literal slot; pin the parsed doubles
    // themselves as well.
    assert_eq!(s.tokens[0].literal, Literal::Number(25_f64.to_bits()));
    assert_eq!(s.tokens[1].literal, Literal::Number(25.03_f64.to_bits()));
    assert_eq!(s.tokens[2].literal, Literal::Number(4343_f64.to_bits()));
}

#[test]
#[should_panic]
fn unterminated_string_is_caught() {
    let source = "\"Hello worl";
    let mut s = Scanner::new(chars_of(source));
    s.run().unwrap();
}

fn evaluate_statement(expr: &str) -> String {
    let mut s = Scanner::new(chars_of(expr));
    s.run().unwrap();
    let mut parser = Parser::new(s.tokens, true);
    let stmts = parser.parse();
    let mut intp = Interpreter::new();
    intp.debug(true);
    intp.interpret(stmts).unwrap();
    let mut out = String::new();
    for line in &intp.out {
        out.push_str(&text_of(line));
    }
    out
}

#[test]
fn calculation_expressions_are_evaluated_successfully() {
    let expression = "2 + 2 * 5;";
    assert_eq!(evaluate_statement(expression), "12");

    let expression = "4 - 2;";
    assert_eq!(evaluate_statement(expression), "2");

    let expression = "4 / 2 - 3;";
    assert_eq!(evaluate_statement(expression), "-1");
}

#[test]
fn unary_expressions_are_evaluated_successfully() {
    let expression = "!true;";
    assert_eq!(evaluate_statement(expression), "false");

    let expression = "!false;";
    assert_eq!(evaluate_statement(expression), "true");
}

#[test]
fn comparison_expressions_are_evaluated_succesfully() {
    let expression = "(2 + 4) <= 6;";
    assert_eq!(evaluate_statement(expression), "true");

    let expression = "(2 + 4) < 6;";
    assert_eq!(evaluate_statement(expression), "false");

    let expression = "(2 * 4) > 6;";
    assert_eq!(evaluate_statement(expression), "true");

    let expression = "(4 / 2) >= 6;";
    assert_eq!(evaluate_statement(expression), "false");

    let expression = "(2 + 4) == 6;";
    assert_eq!(evaluate_statement(expression), "true");

    let expression = "(2 + 4) != 10;";
    assert_eq!(evaluate_statement(expression), "true");
}
