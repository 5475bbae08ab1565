use wind::frontend::lexer::Lexer;
use wind::frontend::preprocessor::macros::{BodyNode, Macro};
use wind::frontend::preprocessor::Preprocessor;
use wind::frontend::token::{Token, TokenType};
use wind::reporter::prep::PreprocessorError;

fn tokens_of(src: &str) -> Vec<Token> {
    let mut lexer = Lexer::new(src.to_string(), true);
    lexer.lex().unwrap();
    lexer.tokens
}

fn read(src: &str) -> (Preprocessor, Result<(), PreprocessorError>) {
    let mut prep = Preprocessor::new(tokens_of(src));
    let outcome = prep.process();
    (prep, outcome)
}

fn expanded(src: &str) -> String {
    let (prep, outcome) = read(src);
    assert!(outcome.is_ok(), "{:?}", outcome);
    prep.get_processed()
}

fn fails(src: &str) -> bool {
    matches!(read(src).1, Err(PreprocessorError::Unknown))
}

fn shown(body: &[BodyNode]) -> String {
    let mut out = String::new();
    for node in body {
        match node {
            BodyNode::Lexical(text) => out.push_str(&format!("L[{}]", text)),
            BodyNode::Param(text) => out.push_str(&format!("P[{}]", text)),
            BodyNode::ArgIteration(inner) => out.push_str(&format!("R({})", shown(inner))),
        }
    }
    out
}

fn strings(items: &[&str]) -> Vec<String> {
    items.iter().map(|s| s.to_string()).collect()
}

#[test]
fn text_without_macros_is_written_as_it_is() {
    assert_eq!(expanded(""), "");
    assert_eq!(expanded("a = 10;"), "a = 10;");
    assert_eq!(expanded("fn main() {\n\treturn 1 + 2;\n}\n"), "fn main() {\n\treturn 1 + 2;\n}\n");
    // `!` alone defines nothing
    assert_eq!(expanded("a != !b"), "a != !b");
    assert_eq!(expanded("!"), "!");
}

#[test]
fn a_new_preprocessor_has_written_nothing() {
    let prep = Preprocessor::new(tokens_of("a b"));
    assert_eq!(prep.get_processed(), "");
    assert_eq!(prep.src.index, 0);
    assert_eq!(prep.src.src.len(), 3);
    assert!(prep.macros.is_empty());
}

#[test]
fn a_macro_of_one_piece_is_defined_and_expanded() {
    let (prep, outcome) = read("!macro two: 2\nx = two;");
    assert!(outcome.is_ok());
    assert_eq!(prep.macros.len(), 1);
    assert_eq!(prep.macros[0].name, "two");
    assert!(prep.macros[0].params.is_empty());
    assert_eq!(shown(&prep.macros[0].body), "L[2]");
    // the token behind the single piece, here the line feed, is passed
    assert_eq!(prep.get_processed(), "x = 2;");
    assert_eq!(prep.src.index, prep.src.src.len());
}

#[test]
fn a_macro_with_parameters_takes_its_arguments_in_order() {
    let src = "!macro add: (a, b) { a + b }\nx = add(1, 2);";
    let (prep, outcome) = read(src);
    assert!(outcome.is_ok());
    assert_eq!(prep.macros[0].name, "add");
    assert_eq!(prep.macros[0].params, strings(&["a", "b"]));
    assert_eq!(shown(&prep.macros[0].body), "P[a]L[ ]L[+]L[ ]P[b]L[ ]");
    // the blank before the second argument belongs to it
    assert_eq!(prep.get_processed(), "\nx = 1 +  2 ;");
    assert_eq!(expanded("!macro add: (a, b) { a + b }\nadd(2,1);add(3,4);"), "\n2 + 1 ;3 + 4 ;");
}

#[test]
fn a_parameter_without_an_argument_writes_nothing() {
    assert_eq!(expanded("!macro add: (a, b) { a + b }\nadd(1);"), "\n1 +  ;");
    assert_eq!(expanded("!macro add: (a, b) { a + b }\nadd();"), "\n +  ;");
    // without a parenthesis behind it the macro has no arguments
    assert_eq!(expanded("!macro add: (a, b) { a + b }\nadd;"), "\n +  ;");
}

#[test]
fn the_body_loses_the_line_feed_that_it_ends_in() {
    let (prep, outcome) = read("!macro one: {\n1\n}\none;");
    assert!(outcome.is_ok());
    assert_eq!(shown(&prep.macros[0].body), "L[1]");
    // the line feed behind the opening brace is written where it stood
    assert_eq!(prep.get_processed(), "\n\n1;");
    let (prep, _) = read("!macro one: { 1 \n}\none;");
    assert_eq!(shown(&prep.macros[0].body), "L[1]L[ \n]");
}

#[test]
fn braces_inside_a_body_are_pieces_of_it() {
    let (prep, outcome) = read("!macro block: { { 1 } }\nblock;");
    assert!(outcome.is_ok());
    assert_eq!(shown(&prep.macros[0].body), "L[{]L[ ]L[1]L[ ]L[}]L[ ]");
    assert_eq!(prep.get_processed(), "\n{ 1 } ;");
}

#[test]
fn a_repeated_body_is_expanded_for_each_argument() {
    let src = "!macro each: { !for::arg { arg; } }\neach(1, 2)\n";
    let (prep, outcome) = read(src);
    assert!(outcome.is_ok());
    assert!(prep.macros[0].params.is_empty());
    assert_eq!(shown(&prep.macros[0].body), "R(L[ ]P[arg]L[;]L[ ])L[ ]");
    assert_eq!(prep.get_processed(), "\n 1;   2;  \n");
    // no argument, no repetition
    assert_eq!(expanded("!macro each: { !for::arg { arg; } }\neach()\n"), "\n \n");
}

#[test]
fn arguments_may_hold_parentheses_and_calls() {
    assert_eq!(expanded("!macro id: (x) { x }\nid(f(1, 2));"), "\nf(1, 2) ;");
    // an argument that calls a macro is expanded in its turn
    let src = "!macro two: (a) { a a }\n!macro wrap: (x) { x }\nwrap(two(7))\n";
    assert_eq!(expanded(src), "\n\n7 7  \n");
}

#[test]
fn a_macro_may_call_another() {
    let src = "!macro one: 1\n!macro next: { one }\nnext + one;";
    assert_eq!(expanded(src), "\n1  + 1;");
}

#[test]
fn the_macro_that_was_defined_first_is_found() {
    let src = "!macro v: 1\n!macro v: 2\nv;";
    let (mut prep, outcome) = read(src);
    assert!(outcome.is_ok());
    assert_eq!(prep.macros.len(), 2);
    assert_eq!(prep.get_processed(), "1;");
    assert_eq!(shown(&prep.find_macro("v".to_string()).unwrap().body), "L[1]");
    assert!(prep.find_macro("w".to_string()).is_none());
}

#[test]
fn added_macros_are_expanded() {
    let mut prep = Preprocessor::new(tokens_of("a = ten;"));
    assert!(prep.find_macro("ten".to_string()).is_none());
    prep.add_macro(Macro::new("ten".to_string(), vec![], vec![BodyNode::Lexical("10".to_string())]));
    assert_eq!(prep.find_macro("ten".to_string()).unwrap().name, "ten");
    assert!(prep.process().is_ok());
    assert_eq!(prep.get_processed(), "a = 10;");
}

#[test]
fn a_macro_that_calls_itself_is_an_error() {
    assert!(fails("!macro again: { again }\nagain;"));
    assert!(fails("!macro ping: { pong }\n!macro pong: { ping }\nping;"));
}

#[test]
fn a_definition_that_breaks_off_is_an_error() {
    assert!(fails("!macro"));
    assert!(fails("!macro two"));
    assert!(fails("!macro two:"));
    assert!(fails("!macro two: "));
    assert!(fails("!macro two: (a"));
    assert!(fails("!macro two: (a, 1) { a }"));
    assert!(fails("!macro two: (a) { a"));
    assert!(fails("!macro two: { !for::arg { arg }"));
    assert!(fails("!macro 2: 2\n"));
}

#[test]
fn a_call_at_the_end_of_the_tokens_is_an_error() {
    assert!(fails("!macro two: 2\ntwo"));
    assert!(fails("!macro add: (a, b) { a + b }\nadd(1, 2"));
    assert_eq!(expanded("!macro two: 2\ntwo "), "2 ");
}

#[test]
fn pieces_of_a_body_know_what_they_are() {
    let text = BodyNode::Lexical("+".to_string());
    let param = BodyNode::Param("a".to_string());
    let repeated = BodyNode::ArgIteration(vec![BodyNode::Param("arg".to_string())]);
    assert!(!text.is_param());
    assert!(param.is_param());
    assert!(!repeated.is_param());
    assert_eq!(text.content(), Some(&"+".to_string()));
    assert_eq!(param.content(), Some(&"a".to_string()));
    assert_eq!(repeated.content(), None);
    assert_eq!(shown(&[repeated.clone()]), "R(P[arg])");
}

#[test]
fn a_macro_knows_the_parameters_that_its_body_names() {
    let body = vec![
        BodyNode::Param("a".to_string()),
        BodyNode::Lexical("b".to_string()),
        BodyNode::ArgIteration(vec![BodyNode::Param("arg".to_string())]),
    ];
    let m = Macro::new("m".to_string(), strings(&["a", "b"]), body);
    assert_eq!(m.name, "m");
    assert_eq!(m.params, strings(&["a", "b"]));
    assert!(m.uses_param("a"));
    assert!(!m.uses_param("b"));
    assert!(!m.uses_param("arg"));
    let copy = m.clone();
    assert_eq!(shown(&copy.body), "P[a]L[b]R(P[arg])");
    assert!(!Macro::new("e".to_string(), vec![], vec![]).uses_param("a"));
}

#[test]
fn tokens_are_expected_behind_white_space() {
    let mut prep = Preprocessor::new(tokens_of(" \n a b"));
    let token = prep.expect(TokenType::IDENTIFIER).unwrap();
    assert_eq!(token.literal, "a");
    // the line feed of the white space that was passed is written
    assert_eq!(prep.get_processed(), "\n");
    assert_eq!(prep.src.index, 2);
    assert!(matches!(prep.expect(TokenType::COLON), Err(PreprocessorError::Unknown)));
}
