use wind::frontend::ast::{ASTNode, Expression, Literal, Variable};
use wind::frontend::lexer::Lexer;
use wind::frontend::parser::parser_impl;
use wind::frontend::parser::{binary_operator, Parser};
use wind::frontend::preprocessor::Preprocessor;
use wind::frontend::text::parse_integer;
use wind::frontend::token::{Token, TokenType, BINARY_OPERATORS};
use wind::reporter::parse::ParserError;

fn prepare(src: &str) -> Lexer {
    let mut prep_lex_inst = Lexer::new(src.to_string(), true);
    let _ = prep_lex_inst.lex();

    let mut prep_inst = Preprocessor::new(prep_lex_inst.tokens);
    let _ = prep_inst.process();

    Lexer::new(prep_inst.get_processed(), false)
}

fn scanned(src: &str) -> Lexer {
    let mut lexer = prepare(src);
    lexer.lex().unwrap();
    lexer
}

fn var(name: &str) -> Expression {
    Expression::VARIABLE(Variable::new(name.to_string()))
}

fn num(value: i64) -> Expression {
    Expression::LITERAL(Literal::INTEGER(value))
}

fn bin(left: Expression, op: &str, right: Expression) -> Expression {
    Expression::BINARY { left: Box::new(left), right: Box::new(right), op: op.to_string() }
}

fn parsed(src: &str) -> Result<Vec<ASTNode>, ParserError> {
    let lexer = scanned(src);
    let mut parser = Parser::new(&lexer);
    parser.parse_all_tokens().map(|nodes| nodes.clone())
}

fn descended(src: &str) -> Result<Vec<ASTNode>, ParserError> {
    let lexer = scanned(src);
    let mut parser = parser_impl::Parser::new(&lexer);
    parser.parse_all_tokens().map(|nodes| nodes.clone())
}

fn lines(items: Vec<Expression>) -> Result<Vec<ASTNode>, ParserError> {
    Ok(items.into_iter().map(ASTNode::EXPRESSION).collect())
}

#[test]
fn parses() {
    let mut lexer = prepare("var1 = 10;");
    let _ = lexer.lex();

    let mut parser = Parser::new(&lexer);

    let nodes = parser.parse_all_tokens().unwrap();

    assert!(nodes.len() > 0);
}

#[test]
fn does_parse() {
    let mut lexer = prepare("var1 = 10;");
    let _ = lexer.lex();

    let mut parser = Parser::new(&lexer);

    let nodes = parser.parse_all_tokens().unwrap();

    assert!(nodes.len() > 0);
}

fn checks_the_first_line() {
    let mut lexer = prepare("var1 = 10;");
    let _ = lexer.lex();

    let mut parser = Parser::new(&lexer);
    let nodes = parser.parse_all_tokens().unwrap();
    let mut iterator = nodes.iter();
    let first_line = iterator.next().unwrap();

    if let ASTNode::EXPRESSION(Expression::BINARY { left, right, op }) = first_line {
        if let Expression::VARIABLE(var) = left.as_ref() {
            assert!(var.name == "var1", "Wrong parsing of variable name");
        } else {
            panic!("Expression should be an varible")
        }

        if let Expression::LITERAL(var) = right.as_ref() {
            if let Literal::INTEGER(st) = var {
                assert!(*st == 10);
            } else {
                panic!("Value should be an integer")
            }
        } else {
            panic!("Expression should be a literal")
        }

        assert!(op == "=", "Wrong parsing of operation")
    } else {
        panic!("Expected ASTNode::EXPRESSION(Expression::BINARY)");
    }
}

#[test]
fn parser_parses_simple_operations_correctly() {
    checks_the_first_line();
}

#[test]
fn ops_parses_simple_operations_correctly() {
    checks_the_first_line();
}

#[test]
fn parser_enforces_semicolons() {
    let mut lexer = prepare(
        "
        var1 = 10
        var2 = 20;",
    );
    let _ = lexer.lex();
    let mut parser = Parser::new(&lexer);
    let outcome = parser.parse_all_tokens().map(|nodes| nodes.len());
    assert_eq!(
        outcome,
        Err(ParserError::Expected { expected: TokenType::SEMICOLON, found: TokenType::IDENTIFIER })
    );
    // the parser stands at the token that it could not take
    assert_eq!(parser.tokens[parser.index].literal, "var2");
}

#[test]
fn simple_parse_enforces_semicolons() {
    let outcome = parsed("\n        var1 = 10\n        var2 = 20;");
    assert_eq!(
        outcome,
        Err(ParserError::Expected { expected: TokenType::SEMICOLON, found: TokenType::IDENTIFIER })
    );
}

#[test]
fn parser_expects_expressions_to_be_complete() {
    let mut lexer = prepare("var1 =");
    let _ = lexer.lex();
    let mut parser = Parser::new(&lexer);
    let outcome = parser.parse_all_tokens().map(|nodes| nodes.len());
    assert_eq!(outcome, Err(ParserError::UnexpectedEnd));
}

#[test]
fn simple_parse_expects_expressions_to_be_complete() {
    assert_eq!(parsed("var1 ="), Err(ParserError::UnexpectedEnd));
}

#[test]
fn no_tokens_give_no_nodes() {
    assert_eq!(parsed(""), lines(vec![]));
    assert_eq!(descended(""), lines(vec![]));
    assert_eq!(parsed("  \n "), lines(vec![]));
}

#[test]
fn each_expression_with_its_semicolon_is_a_node() {
    assert_eq!(
        parsed("a = 1; b = c;\n7;"),
        lines(vec![bin(var("a"), "=", num(1)), bin(var("b"), "=", var("c")), num(7)])
    );
}

#[test]
fn a_stronger_operator_binds_first() {
    assert_eq!(parsed("a + b * c;"), lines(vec![bin(var("a"), "+", bin(var("b"), "*", var("c")))]));
    assert_eq!(parsed("1 * 2 + 3;"), lines(vec![bin(bin(num(1), "*", num(2)), "+", num(3))]));
    assert_eq!(parsed("1 - 2 - 3;"), lines(vec![bin(bin(num(1), "-", num(2)), "-", num(3))]));
}

#[test]
fn what_a_stronger_operator_binds_goes_left_unless_it_is_a_name() {
    // a number that is read behind the stronger operator becomes its left operand
    assert_eq!(parsed("a + b * 2;"), lines(vec![bin(var("a"), "+", bin(num(2), "*", var("b")))]));
    assert_eq!(parsed("a + 3 * 2;"), lines(vec![bin(var("a"), "+", bin(num(2), "*", num(3)))]));
    // so does a whole expression
    assert_eq!(
        parsed("x = a + b * c;"),
        lines(vec![bin(var("x"), "=", bin(bin(var("b"), "*", var("c")), "+", var("a")))])
    );
}

#[test]
fn parentheses_hold_an_expression() {
    assert_eq!(parsed("(a + b) * c;"), lines(vec![bin(bin(var("a"), "+", var("b")), "*", var("c"))]));
    assert_eq!(parsed("((7));"), lines(vec![num(7)]));
    assert_eq!(
        parsed("(a;"),
        Err(ParserError::Expected { expected: TokenType::RPAREN, found: TokenType::SEMICOLON })
    );
    assert_eq!(parsed("(a"), Err(ParserError::UnexpectedEnd));
}

#[test]
fn operators_before_an_operand_are_passed() {
    assert_eq!(parsed("- a;"), lines(vec![var("a")]));
    assert_eq!(parsed("+ - 5;"), lines(vec![num(5)]));
    assert_eq!(parsed("-"), Err(ParserError::UnexpectedEnd));
}

#[test]
fn tokens_that_begin_no_operand_are_errors() {
    assert_eq!(parsed(")"), Err(ParserError::UnexpectedToken { found: TokenType::RPAREN }));
    assert_eq!(parsed(";"), Err(ParserError::UnexpectedToken { found: TokenType::SEMICOLON }));
    assert_eq!(parsed("a = {"), Err(ParserError::UnexpectedToken { found: TokenType::LBRACE }));
}

#[test]
fn a_token_must_follow_the_operand_of_an_operator() {
    assert_eq!(parsed("a + b"), Err(ParserError::UnexpectedEnd));
    assert_eq!(parsed("a"), Err(ParserError::UnexpectedEnd));
    assert_eq!(
        parsed("a b;"),
        Err(ParserError::Expected { expected: TokenType::SEMICOLON, found: TokenType::IDENTIFIER })
    );
}

#[test]
fn integers_are_decimal_and_fit_64_bits() {
    assert_eq!(parsed("9223372036854775807;"), lines(vec![num(i64::MAX)]));
    assert_eq!(parsed("9223372036854775808;"), Err(ParserError::WrongLiteral));
    assert_eq!(parsed("0x10;"), Err(ParserError::WrongLiteral));
    assert_eq!(parsed("a = 12ab;"), Err(ParserError::WrongLiteral));
    assert_eq!(parsed("007;"), lines(vec![num(7)]));
}

#[test]
fn numbers_are_read_as_std_reads_them() {
    let texts = [
        "0", "7", "10", "-5", "+7", "-0", "+0", "0012", "9223372036854775807", "9223372036854775808",
        "-9223372036854775808", "-9223372036854775809", "99999999999999999999999999", "", "-", "+",
        "--1", "+-1", "1a", "a1", "1 ", " 1", "1.5", "0x10", "١٢", "1_000", "18446744073709551616",
        "340282366920938463463374607431768211456",
    ];
    for text in texts {
        assert_eq!(parse_integer(text), text.parse::<i64>().ok(), "{:?}", text);
    }
    assert_eq!(parse_integer("-42"), Some(-42));
    assert_eq!(parse_integer("-9223372036854775808"), Some(i64::MIN));
    assert_eq!(parse_integer("12x"), None);
}

#[test]
fn floating_point_constants_are_kept_as_they_are_written() {
    let token = Token::new(TokenType::FLOAT, "1.5".to_string(), (0..0, 0..2), 0);
    let end = Token::new(TokenType::SEMICOLON, ";".to_string(), (0..0, 3..3), 0);
    let mut parser = Parser { tokens: vec![token.clone(), end.clone()], index: 0, parsed_ast_nodes: vec![] };
    assert_eq!(parser.parse_factor(), Ok(Expression::LITERAL(Literal::FLOAT("1.5".to_string()))));
    assert_eq!(parser.index, 1);
    let mut parser = parser_impl::Parser { tokens: vec![token, end], index: 0, parsed_ast_nodes: vec![] };
    assert_eq!(parser.parse_expression(), Ok(Expression::LITERAL(Literal::FLOAT("1.5".to_string()))));
    assert_eq!(parser.index, 1);
}

#[test]
fn the_steps_of_the_parser_pass_what_they_read() {
    let lexer = scanned("a * b / c + d;");
    let mut parser = Parser::new(&lexer);
    assert_eq!(parser.index, 0);
    assert_eq!(parser.tokens.len(), 8);
    assert!(parser.parsed_ast_nodes.is_empty());
    assert_eq!(parser.parse_term(), Ok(bin(bin(var("a"), "*", var("b")), "/", var("c"))));
    assert_eq!(parser.index, 5);
    assert_eq!(parser.eat(TokenType::PLUS), Ok(()));
    assert_eq!(
        parser.eat(TokenType::PLUS),
        Err(ParserError::Expected { expected: TokenType::PLUS, found: TokenType::IDENTIFIER })
    );
    assert_eq!(parser.index, 6);
    assert_eq!(parser.parse_expression_enforce_semicolon(), Ok(var("d")));
    assert_eq!(parser.index, 8);
    assert_eq!(parser.eat(TokenType::SEMICOLON), Err(ParserError::UnexpectedEnd));
    assert_eq!(parser.parse_factor(), Err(ParserError::UnexpectedEnd));
    // a product must be followed by a token
    let lexer = scanned("a * b");
    assert_eq!(Parser::new(&lexer).parse_term(), Err(ParserError::UnexpectedEnd));
}

#[test]
fn expressions_stop_before_weaker_operators() {
    let lexer = scanned("a * b + c;");
    let mut parser = Parser::new(&lexer);
    assert_eq!(parser.parse_expression(2), Ok(bin(var("a"), "*", var("b"))));
    assert_eq!(parser.index, 3);
    let mut parser = Parser::new(&lexer);
    assert_eq!(parser.parse_expression(3), Ok(var("a")));
    assert_eq!(parser.index, 1);
}

#[test]
fn operators_bind_by_their_kind() {
    let lexer = scanned("");
    let parser = Parser::new(&lexer);
    assert_eq!(parser.get_operator_precedence(TokenType::PLUS), 1);
    assert_eq!(parser.get_operator_precedence(TokenType::MINUS), 1);
    assert_eq!(parser.get_operator_precedence(TokenType::ASTERISK), 2);
    assert_eq!(parser.get_operator_precedence(TokenType::SLASH), 2);
    assert_eq!(parser.get_operator_precedence(TokenType::EQ), 2);
    assert_eq!(parser.get_operator_precedence(TokenType::LTE), 2);
    assert_eq!(parser.get_operator_precedence(TokenType::NEQ), 0);
    assert_eq!(parser.get_operator_precedence(TokenType::ASSIGN), 0);
    assert_eq!(parser.get_operator_precedence(TokenType::LPAREN), 0);
    for kind in BINARY_OPERATORS {
        assert!(binary_operator(kind));
    }
    let others = [
        TokenType::IDENTIFIER, TokenType::INTEGER, TokenType::NOT, TokenType::AND, TokenType::OR,
        TokenType::DOT, TokenType::LPAREN, TokenType::SEMICOLON, TokenType::ARROW, TokenType::WS,
    ];
    for kind in others {
        assert!(!binary_operator(kind));
        assert!(!BINARY_OPERATORS.contains(&kind));
    }
}

#[test]
fn descent_reads_assignments() {
    assert_eq!(
        descended("a = 1 + 2 * b;"),
        lines(vec![bin(var("a"), "=", bin(num(1), "+", bin(num(2), "*", var("b"))))])
    );
    assert_eq!(
        descended("a = 1 - 2 - 3; b = a / 2 / c;"),
        lines(vec![
            bin(var("a"), "=", bin(bin(num(1), "-", num(2)), "-", num(3))),
            bin(var("b"), "=", bin(bin(var("a"), "/", num(2)), "/", var("c"))),
        ])
    );
}

#[test]
fn descent_takes_no_semicolon_behind_a_sum() {
    // a sum stops before its semicolon, and no statement begins with one
    assert_eq!(descended("1 + 2;"), Err(ParserError::UnexpectedToken { found: TokenType::SEMICOLON }));
    assert_eq!(descended("1 + 2 a = 3;"), lines(vec![bin(num(1), "+", num(2)), bin(var("a"), "=", num(3))]));
    assert_eq!(descended("1 + 2"), Err(ParserError::UnexpectedEnd));
    assert_eq!(descended("a = 1"), Err(ParserError::UnexpectedEnd));
    assert_eq!(
        descended("a = 1 b"),
        Err(ParserError::Expected { expected: TokenType::SEMICOLON, found: TokenType::IDENTIFIER })
    );
    assert_eq!(descended("a = (1);"), Err(ParserError::UnexpectedToken { found: TokenType::LPAREN }));
    assert_eq!(descended("= 1;"), Err(ParserError::UnexpectedToken { found: TokenType::ASSIGN }));
    assert_eq!(descended("a = 0x1;"), Err(ParserError::WrongLiteral));
}

#[test]
fn the_steps_of_descent_pass_what_they_read() {
    let lexer = scanned("a * 2 + b;");
    let mut parser = parser_impl::Parser::new(&lexer);
    assert_eq!(parser.parse_factor(), Ok(var("a")));
    assert_eq!(parser.index, 1);
    assert_eq!(parser.eat(TokenType::ASTERISK), Ok(()));
    assert_eq!(parser.parse_term(), Ok(num(2)));
    assert_eq!(parser.index, 3);
    assert_eq!(
        parser.parse_assignment(),
        Err(ParserError::Expected { expected: TokenType::IDENTIFIER, found: TokenType::PLUS })
    );
    assert_eq!(parser.eat(TokenType::PLUS), Ok(()));
    assert_eq!(
        parser.parse_assignment(),
        Err(ParserError::Expected { expected: TokenType::ASSIGN, found: TokenType::SEMICOLON })
    );
    let mut parser = parser_impl::Parser::new(&lexer);
    assert_eq!(parser.parse_expression(), Ok(bin(bin(var("a"), "*", num(2)), "+", var("b"))));
    assert_eq!(parser.index, 5);
    assert_eq!(parser.eat(TokenType::SEMICOLON), Ok(()));
    assert_eq!(parser.parse_assignment(), Err(ParserError::UnexpectedEnd));
    assert_eq!(parser.parse_factor(), Err(ParserError::UnexpectedEnd));
}
