use wind::frontend::lexer::{BufferStream, Lexer};
use wind::frontend::token::{Token, TokenType, BINARY_OPERATORS};
use wind::reporter::lex::LexerError;

fn kinds_and_texts(src: &str, allow_ws: bool) -> Vec<(TokenType, String)> {
    let mut lexer = Lexer::new(src.to_string(), allow_ws);
    lexer.lex().unwrap();
    lexer.tokens.iter().map(|t| (t.token_type, t.literal.clone())).collect()
}

fn pairs(items: &[(TokenType, &str)]) -> Vec<(TokenType, String)> {
    items.iter().map(|(k, t)| (*k, t.to_string())).collect()
}

#[test]
fn lexes() {
    let mut lexer = Lexer::new("a = 10;".to_string(), false);
    let _ = lexer.lex();
    assert!(lexer.tokens.len() > 0);
    assert_eq!(
        kinds_and_texts("a = 10;", false),
        pairs(&[
            (TokenType::IDENTIFIER, "a"),
            (TokenType::ASSIGN, "="),
            (TokenType::INTEGER, "10"),
            (TokenType::SEMICOLON, ";"),
        ])
    );
}

#[test]
fn white_space_is_a_token_on_request() {
    assert_eq!(
        kinds_and_texts("a \n\tb", true),
        pairs(&[(TokenType::IDENTIFIER, "a"), (TokenType::WS, " \n\t"), (TokenType::IDENTIFIER, "b")])
    );
    assert_eq!(
        kinds_and_texts("a \n\tb", false),
        pairs(&[(TokenType::IDENTIFIER, "a"), (TokenType::IDENTIFIER, "b")])
    );
    assert_eq!(kinds_and_texts("", true), vec![]);
    assert_eq!(kinds_and_texts("   ", false), vec![]);
    assert_eq!(kinds_and_texts("   ", true), pairs(&[(TokenType::WS, "   ")]));
}

#[test]
fn identifiers_take_paths_and_digits() {
    assert_eq!(
        kinds_and_texts("for::arg x_1 std::io::read9 a:b", false),
        pairs(&[
            (TokenType::IDENTIFIER, "for::arg"),
            (TokenType::IDENTIFIER, "x_1"),
            (TokenType::IDENTIFIER, "std::io::read9"),
            (TokenType::IDENTIFIER, "a"),
            (TokenType::COLON, ":"),
            (TokenType::IDENTIFIER, "b"),
        ])
    );
    // a path may end in its colons
    assert_eq!(kinds_and_texts("a::", false), pairs(&[(TokenType::IDENTIFIER, "a::")]));
}

#[test]
fn numbers_take_prefixes_and_hex_digits() {
    assert_eq!(
        kinds_and_texts("10 0x1F 0b101 0 0x 12ab", false),
        pairs(&[
            (TokenType::INTEGER, "10"),
            (TokenType::INTEGER, "0x1F"),
            (TokenType::INTEGER, "0b101"),
            (TokenType::INTEGER, "0"),
            (TokenType::INTEGER, "0x"),
            (TokenType::INTEGER, "12ab"),
        ])
    );
    // a number ends where its digits end
    assert_eq!(
        kinds_and_texts("12g", false),
        pairs(&[(TokenType::INTEGER, "12"), (TokenType::IDENTIFIER, "g")])
    );
    // a zero at the end of the text is a number like any other
    assert_eq!(kinds_and_texts("x=0", false).last().unwrap(), &(TokenType::INTEGER, "0".to_string()));
}

#[test]
fn operators_prefer_their_long_form() {
    assert_eq!(
        kinds_and_texts("+= + -= - * / == => = != ! <= < >= >", false),
        pairs(&[
            (TokenType::PLUS_ASSIGN, "+="),
            (TokenType::PLUS, "+"),
            (TokenType::MINUS_ASSIGN, "-="),
            (TokenType::MINUS, "-"),
            (TokenType::ASTERISK, "*"),
            (TokenType::SLASH, "/"),
            (TokenType::EQ, "=="),
            (TokenType::ARROW, "=>"),
            (TokenType::ASSIGN, "="),
            (TokenType::NEQ, "!="),
            (TokenType::NOT, "!"),
            (TokenType::LTE, "<="),
            (TokenType::LT, "<"),
            (TokenType::GTE, ">="),
            (TokenType::GT, ">"),
        ])
    );
    assert_eq!(
        kinds_and_texts("(){}[],:;", false),
        pairs(&[
            (TokenType::LPAREN, "("),
            (TokenType::RPAREN, ")"),
            (TokenType::LBRACE, "{"),
            (TokenType::RBRACE, "}"),
            (TokenType::LBRACKET, "["),
            (TokenType::RBRACKET, "]"),
            (TokenType::COMMA, ","),
            (TokenType::COLON, ":"),
            (TokenType::SEMICOLON, ";"),
        ])
    );
    assert_eq!(kinds_and_texts("===", false), pairs(&[(TokenType::EQ, "=="), (TokenType::ASSIGN, "=")]));
}

#[test]
fn operator_table_knows_what_the_scan_does_not_reach() {
    assert_eq!(Lexer::punct_kind(b'&', b'&'), Some((TokenType::LOGICAL_AND, 2)));
    assert_eq!(Lexer::punct_kind(b'&', b'x'), Some((TokenType::AND, 1)));
    assert_eq!(Lexer::punct_kind(b'|', b'|'), Some((TokenType::LOGICAL_OR, 2)));
    assert_eq!(Lexer::punct_kind(b'|', 0), Some((TokenType::OR, 1)));
    assert_eq!(Lexer::punct_kind(b'.', 0), Some((TokenType::DOT, 1)));
    assert_eq!(Lexer::punct_kind(b'#', 0), None);
    // given such a byte, the scanner reads it
    let mut lexer = Lexer::new("&&.".to_string(), false);
    lexer.lex_punct();
    lexer.lex_punct();
    let found: Vec<TokenType> = lexer.tokens.iter().map(|t| t.token_type).collect();
    assert_eq!(found, vec![TokenType::LOGICAL_AND, TokenType::DOT]);
    // and passes one that begins nothing
    let mut lexer = Lexer::new("#a".to_string(), false);
    lexer.lex_punct();
    assert!(lexer.tokens.is_empty());
    assert_eq!(lexer.buffer.index, 1);
}

#[test]
fn tokens_know_their_lines_and_columns() {
    let mut lexer = Lexer::new("ab += 1\n  cd".to_string(), true);
    lexer.lex().unwrap();
    let places: Vec<(&str, (usize, usize), (usize, usize))> = lexer
        .tokens
        .iter()
        .map(|t| (t.literal.as_str(), (t.position.0.start, t.position.0.end), (t.position.1.start, t.position.1.end)))
        .collect();
    assert_eq!(
        places,
        vec![
            ("ab", (0, 0), (0, 1)),
            (" ", (0, 0), (2, 3)),
            ("+=", (0, 0), (3, 4)),
            (" ", (0, 0), (5, 6)),
            ("1", (0, 0), (6, 6)),
            ("\n  ", (0, 1), (7, 3)),
            ("cd", (1, 1), (3, 4)),
        ]
    );
    assert_eq!(lexer.buffer.index, 12);
    assert_eq!(lexer.buffer.position, (1, 5));
    assert!(lexer.tokens.iter().all(|t| t.src == 0));
}

#[test]
fn invalid_character_stops_the_scan() {
    let mut lexer = Lexer::new("a = 1;\nb = #2;\nc".to_string(), false);
    match lexer.lex() {
        Err(LexerError::InvalidCharacter { character, line, column, text }) => {
            assert_eq!(character, '#');
            assert_eq!(line, 2);
            // the column behind the character: b, blank, =, blank, #
            assert_eq!(column, 6);
            // the column serves as an index into the text, where a line ends here
            assert_eq!(text, "#");
        },
        other => panic!("unexpected {:?}", other),
    }
    // what was read before stays, and the character is passed
    assert_eq!(lexer.tokens.len(), 6);
    assert_eq!(lexer.buffer.index, 12);
    // the scan can go on behind it
    assert!(lexer.lex().is_ok());
    assert_eq!(lexer.tokens.len(), 9);
    for text in ["&", "|", ".", "\"", "@"] {
        assert!(matches!(
            Lexer::new(text.to_string(), false).lex(),
            Err(LexerError::InvalidCharacter { .. })
        ));
    }
}

#[test]
fn failure_text_reaches_back_to_a_line_feed() {
    let mut lexer = Lexer::new("\n\n\n ab #".to_string(), false);
    match lexer.lex() {
        Err(LexerError::InvalidCharacter { character, line, column, text }) => {
            assert_eq!((character, line, column), ('#', 4, 6));
            // from the line feed at index 2 up to index 6, the character, and the rest of the line
            assert_eq!(text, "\n ab# #");
        },
        other => panic!("unexpected {:?}", other),
    }
}

#[test]
fn only_the_low_byte_of_a_character_counts() {
    // U+0161 has the low byte of 'a'
    assert_eq!(kinds_and_texts("\u{161}b", false), pairs(&[(TokenType::IDENTIFIER, "ab")]));
    // bytes beyond ASCII stand in identifiers, but do not begin one
    assert_eq!(kinds_and_texts("a\u{e9}", false), pairs(&[(TokenType::IDENTIFIER, "a\u{e9}")]));
    assert!(Lexer::new("\u{e9}".to_string(), false).lex().is_err());
    let lexer = Lexer::new("a\u{161}\u{e9}".to_string(), false);
    assert_eq!(lexer.stream_to_bytes(), vec![0x61, 0x61, 0xE9]);
}

#[test]
fn stream_counts_lines_and_columns() {
    let mut stream = BufferStream::new("ab\ncd\n".to_string());
    assert_eq!((stream.index, stream.position), (0, (0, 0)));
    assert_eq!(stream.src, vec!['a', 'b', '\n', 'c', 'd', '\n']);
    stream.advance(2);
    assert_eq!((stream.index, stream.position), (2, (0, 2)));
    stream.advance(1);
    assert_eq!((stream.index, stream.position), (3, (1, 1)));
    stream.advance(0);
    assert_eq!((stream.index, stream.position), (3, (1, 1)));
    stream.advance(3);
    assert_eq!((stream.index, stream.position), (6, (2, 1)));
}

#[test]
fn off_range_spans_from_a_start_to_the_cursor() {
    let mut lexer = Lexer::new("abc\nde".to_string(), false);
    lexer.buffer.advance(5);
    let (lines, columns) = lexer.off_range((0, 1), 2);
    assert_eq!((lines.start, lines.end), (0, 1));
    assert_eq!((columns.start, columns.end), (1, 4));
    lexer.buffer.position.1 = usize::MAX;
    assert_eq!(lexer.off_range((0, 0), 1).1.end, usize::MAX);
}

#[test]
fn tokens_compare_by_kind_and_text() {
    let a = Token::new(TokenType::IDENTIFIER, "macro".to_string(), (0..0, 0..0), 0);
    let b = Token::new(TokenType::IDENTIFIER, "macro".to_string(), (3..3, 7..11), 2);
    let c = Token::new(TokenType::IDENTIFIER, "other".to_string(), (0..0, 0..0), 0);
    let d = Token::new(TokenType::STRING, "macro".to_string(), (0..0, 0..0), 0);
    assert!(a == b);
    assert!(a != c);
    assert!(a != d);
    let copy = b.clone();
    assert_eq!((copy.token_type, copy.literal.as_str(), copy.src), (TokenType::IDENTIFIER, "macro", 2));
    assert_eq!(copy.position, (3..3, 7..11));
    assert_eq!(BINARY_OPERATORS.len(), 15);
    assert!(BINARY_OPERATORS.contains(&TokenType::PLUS));
    assert!(!BINARY_OPERATORS.contains(&TokenType::NOT));
}
