use crate::backend::ir::text::push_char;
use crate::frontend::text::chars_of;
use crate::frontend::token::{Token, TokenModel, TokenType};
use crate::reporter::lex::LexerError;
use std::ops::Range;
use vstd::prelude::*;

verus! {

/// The byte that stands for a character: the scanner reads the low eight
/// bits of each character and nothing more.
pub open spec fn low(c: char) -> u8 {
    c as u8
}

/// The low bytes of a text as characters.
pub open spec fn low_text(s: Seq<char>) -> Seq<char> {
    Seq::new(s.len(), |k: int| low(s[k]) as char)
}

/// Whether a byte can stand in an identifier: a letter, a digit, an
/// underscore, or a byte beyond ASCII.
pub open spec fn is_ident_byte(b: u8) -> bool {
    (0x61 <= b <= 0x7A) || (0x41 <= b <= 0x5A) || (0x30 <= b <= 0x39) || b == 0x5F || b >= 0x80
}

/// Whether a byte is a hexadecimal digit.
pub open spec fn is_hex_byte(b: u8) -> bool {
    (0x30 <= b <= 0x39) || (0x61 <= b <= 0x66) || (0x41 <= b <= 0x46)
}

/// Whether a byte is a blank, a line feed or a tab.
pub open spec fn is_space_byte(b: u8) -> bool {
    b == 0x20 || b == 0x0A || b == 0x09
}

/// Whether the two bytes at `i` are colons.
pub open spec fn double_colon_at(src: Seq<char>, i: int) -> bool {
    0 <= i && i + 1 < src.len() && low(src[i]) == 0x3A && low(src[i + 1]) == 0x3A
}

/// Where the identifier that is read from `i` on ends: it takes identifier
/// bytes and pairs of colons.
pub open spec fn ident_end(src: Seq<char>, i: int) -> int
    decreases src.len() - i,
{
    if i < 0 || i >= src.len() {
        i
    } else if double_colon_at(src, i) {
        ident_end(src, i + 2)
    } else if is_ident_byte(low(src[i])) {
        ident_end(src, i + 1)
    } else {
        i
    }
}

/// Where the run of hexadecimal digits from `i` on ends.
pub open spec fn digits_end(src: Seq<char>, i: int) -> int
    decreases src.len() - i,
{
    if i < 0 || i >= src.len() || !is_hex_byte(low(src[i])) {
        i
    } else {
        digits_end(src, i + 1)
    }
}

/// Whether `0x` stands at `i`.
pub open spec fn hex_prefix_at(src: Seq<char>, i: int) -> bool {
    0 <= i && i + 1 < src.len() && low(src[i]) == 0x30 && low(src[i + 1]) == 0x78
}

/// Whether `0b` stands at `i`.
pub open spec fn binary_prefix_at(src: Seq<char>, i: int) -> bool {
    0 <= i && i + 1 < src.len() && low(src[i]) == 0x30 && low(src[i + 1]) == 0x62
}

/// Where the digits of the number at `i` begin: behind a `0x`, then behind a `0b`.
pub open spec fn number_body(src: Seq<char>, i: int) -> int {
    let after_hex = if hex_prefix_at(src, i) {
        i + 2
    } else {
        i
    };
    if binary_prefix_at(src, after_hex) {
        after_hex + 2
    } else {
        after_hex
    }
}

/// Where the number that is read from `i` on ends.
pub open spec fn number_end(src: Seq<char>, i: int) -> int {
    digits_end(src, number_body(src, i))
}

/// Where the run of blanks, line feeds and tabs from `i` on ends.
pub open spec fn space_end(src: Seq<char>, i: int) -> int
    decreases src.len() - i,
{
    if i < 0 || i >= src.len() || !is_space_byte(low(src[i])) {
        i
    } else {
        space_end(src, i + 1)
    }
}

/// The token that begins with the byte `b`, with `next` behind it: its kind
/// and its length. Of the bytes that begin no token, `None`.
pub open spec fn punct_of(b: u8, next: u8) -> Option<(TokenType, int)> {
    if b == 0x2B {
        if next == 0x3D {
            Some((TokenType::PLUS_ASSIGN, 2))
        } else {
            Some((TokenType::PLUS, 1))
        }
    } else if b == 0x2D {
        if next == 0x3D {
            Some((TokenType::MINUS_ASSIGN, 2))
        } else {
            Some((TokenType::MINUS, 1))
        }
    } else if b == 0x2A {
        Some((TokenType::ASTERISK, 1))
    } else if b == 0x2F {
        Some((TokenType::SLASH, 1))
    } else if b == 0x3D {
        if next == 0x3D {
            Some((TokenType::EQ, 2))
        } else if next == 0x3E {
            Some((TokenType::ARROW, 2))
        } else {
            Some((TokenType::ASSIGN, 1))
        }
    } else if b == 0x21 {
        if next == 0x3D {
            Some((TokenType::NEQ, 2))
        } else {
            Some((TokenType::NOT, 1))
        }
    } else if b == 0x3C {
        if next == 0x3D {
            Some((TokenType::LTE, 2))
        } else {
            Some((TokenType::LT, 1))
        }
    } else if b == 0x3E {
        if next == 0x3D {
            Some((TokenType::GTE, 2))
        } else {
            Some((TokenType::GT, 1))
        }
    } else if b == 0x28 {
        Some((TokenType::LPAREN, 1))
    } else if b == 0x29 {
        Some((TokenType::RPAREN, 1))
    } else if b == 0x7B {
        Some((TokenType::LBRACE, 1))
    } else if b == 0x7D {
        Some((TokenType::RBRACE, 1))
    } else if b == 0x5B {
        Some((TokenType::LBRACKET, 1))
    } else if b == 0x5D {
        Some((TokenType::RBRACKET, 1))
    } else if b == 0x2C {
        Some((TokenType::COMMA, 1))
    } else if b == 0x3A {
        Some((TokenType::COLON, 1))
    } else if b == 0x3B {
        Some((TokenType::SEMICOLON, 1))
    } else if b == 0x26 {
        if next == 0x26 {
            Some((TokenType::LOGICAL_AND, 2))
        } else {
            Some((TokenType::AND, 1))
        }
    } else if b == 0x7C {
        if next == 0x7C {
            Some((TokenType::LOGICAL_OR, 2))
        } else {
            Some((TokenType::OR, 1))
        }
    } else if b == 0x2E {
        Some((TokenType::DOT, 1))
    } else {
        None
    }
}

/// The line and the column after `n` more characters are passed: a line
/// feed begins a line, and the character behind it stands in column 1.
pub open spec fn advanced(src: Seq<char>, index: int, position: (int, int), n: nat) -> (int, int)
    decreases n,
{
    if n == 0 {
        position
    } else {
        let before = advanced(src, index, position, (n - 1) as nat);
        if src[index + n - 1] == '\n' {
            (before.0 + 1, 1)
        } else {
            (before.0, before.1 + 1)
        }
    }
}

/// The characters of a text and a place in it: the index of the next
/// character, and the line and the column that the scanner counts.
pub struct BufferStream {
    pub src: Vec<char>,
    pub index: usize,
    pub position: (usize, usize),
}

impl BufferStream {
    /// Whether the place lies in the text, and line and column do not exceed the index.
    pub open spec fn wf(&self) -> bool {
        self.index <= self.src@.len() && self.position.0 <= self.index && self.position.1
            <= self.index
    }

    /// The stream at the beginning of `src`.
    pub fn new(src: String) -> (stream: BufferStream)
        ensures
            stream.src@ == src@,
            stream.index == 0,
            stream.position == (0usize, 0usize),
            stream.wf(),
    {
        BufferStream { src: chars_of(src.as_str()), index: 0, position: (0, 0) }
    }

    /// Passes `n` characters, which must be there.
    pub fn advance(&mut self, n: usize)
        requires
            old(self).wf(),
            old(self).index + n <= old(self).src@.len(),
        ensures
            final(self).src == old(self).src,
            final(self).index == old(self).index + n,
            (final(self).position.0 as int, final(self).position.1 as int) == advanced(
                old(self).src@,
                old(self).index as int,
                (old(self).position.0 as int, old(self).position.1 as int),
                n as nat,
            ),
            final(self).wf(),
    {
        let mut k: usize = 0;
        while k < n
            invariant
                k <= n,
                self.src == old(self).src,
                self.index == old(self).index + k,
                old(self).index + n <= self.src@.len(),
                self.wf(),
                (self.position.0 as int, self.position.1 as int) == advanced(
                    old(self).src@,
                    old(self).index as int,
                    (old(self).position.0 as int, old(self).position.1 as int),
                    k as nat,
                ),
            decreases n - k,
        {
            assert(self.index < self.src.len());
            if self.src[self.index] == '\n' {
                self.position.0 += 1;
                self.position.1 = 0;
            }
            self.index += 1;
            self.position.1 += 1;
            k += 1;
        }
    }
}

/// What the scanner has reached: the index of the next character, the line
/// and the column that it counts, and the tokens that it has found.
pub struct ScanState {
    pub index: int,
    pub line: int,
    pub column: int,
    pub tokens: Seq<TokenModel>,
}

/// An invalid character: the character, the line and the column behind it,
/// and the text that is shown with it.
pub struct LexFailure {
    pub character: char,
    pub line: int,
    pub column: int,
    pub text: Seq<char>,
}

/// The token of kind `token_type` that holds the text from `from` to `to`.
pub open spec fn token_of(
    token_type: TokenType,
    src: Seq<char>,
    from: int,
    to: int,
    lines: (int, int),
    columns: (int, int),
) -> TokenModel {
    TokenModel {
        token_type,
        literal: low_text(src.subrange(from, to)),
        lines: (lines.0 as usize, lines.1 as usize),
        columns: (columns.0 as usize, columns.1 as usize),
        src: 0,
    }
}

/// The state with the characters up to `to` passed.
pub open spec fn moved(src: Seq<char>, st: ScanState, to: int) -> ScanState {
    let p = advanced(src, st.index, (st.line, st.column), (to - st.index) as nat);
    ScanState { index: to, line: p.0, column: p.1, tokens: st.tokens }
}

/// The state with an identifier read. Its columns run from the column where
/// it begins to the column of its last character.
pub open spec fn ident_step(src: Seq<char>, st: ScanState) -> ScanState {
    let end = ident_end(src, st.index);
    let after = moved(src, st, end);
    ScanState {
        tokens: st.tokens.push(
            token_of(
                TokenType::IDENTIFIER,
                src,
                st.index,
                end,
                (st.line, after.line),
                (
                    st.column,
                    if after.column == 0 {
                        0
                    } else {
                        after.column - 1
                    },
                ),
            ),
        ),
        ..after
    }
}

/// The state with a number read.
pub open spec fn number_step(src: Seq<char>, st: ScanState) -> ScanState {
    let end = number_end(src, st.index);
    let after = moved(src, st, end);
    ScanState {
        tokens: st.tokens.push(
            token_of(
                TokenType::INTEGER,
                src,
                st.index,
                end,
                (st.line, after.line),
                (
                    st.column,
                    if after.column == 0 {
                        0
                    } else {
                        after.column - 1
                    },
                ),
            ),
        ),
        ..after
    }
}

/// The byte behind the one at `i`, and 0 at the end of the text.
pub open spec fn next_byte(src: Seq<char>, i: int) -> u8 {
    if 0 <= i && i + 1 < src.len() {
        low(src[i + 1])
    } else {
        0
    }
}

/// The state with an operator or a bracket read; a byte that begins none is passed.
pub open spec fn punct_step(src: Seq<char>, st: ScanState) -> ScanState {
    match punct_of(low(src[st.index]), next_byte(src, st.index)) {
        Some((token_type, len)) => {
            let after = moved(src, st, st.index + len);
            ScanState {
                tokens: st.tokens.push(
                    token_of(
                        token_type,
                        src,
                        st.index,
                        st.index + len,
                        (st.line, st.line),
                        (st.column, st.column + len - 1),
                    ),
                ),
                ..after
            }
        },
        None => moved(src, st, st.index + 1),
    }
}

/// The state with a run of white space read as one token.
pub open spec fn space_step(src: Seq<char>, st: ScanState) -> ScanState {
    let end = space_end(src, st.index);
    let after = moved(src, st, end);
    ScanState {
        tokens: st.tokens.push(
            token_of(
                TokenType::WS,
                src,
                st.index,
                end,
                (st.line, after.line),
                (st.column, after.column),
            ),
        ),
        ..after
    }
}

/// The index of the last line feed before `upto`, or -1.
pub open spec fn last_newline(src: Seq<char>, upto: int) -> int
    decreases upto,
{
    if upto <= 0 || upto > src.len() {
        -1
    } else if src[upto - 1] == '\n' {
        upto - 1
    } else {
        last_newline(src, upto - 1)
    }
}

/// The index of the first line feed from `from` on, or the length of the text.
pub open spec fn line_end(src: Seq<char>, from: int) -> int
    decreases src.len() - from,
{
    if from < 0 || from >= src.len() {
        src.len() as int
    } else if src[from] == '\n' {
        from
    } else {
        line_end(src, from + 1)
    }
}

/// The text that is shown with an invalid character: the text from the last
/// line feed before the index `column` up to that index, the character, and
/// the text from the index `column` up to the next line feed.
pub open spec fn failure_text(src: Seq<char>, column: int, c: char) -> Seq<char> {
    let from = last_newline(src, column);
    (if from >= 0 {
        src.subrange(from, column)
    } else {
        Seq::empty()
    }).push(c) + src.subrange(column, line_end(src, column))
}

/// The number under which the line `line` is shown: lines are shown from 1 on.
pub open spec fn shown_line(line: int) -> int {
    if line >= usize::MAX {
        usize::MAX as int
    } else {
        line + 1
    }
}

/// Whether a byte is an ASCII letter.
pub open spec fn is_letter_byte(b: u8) -> bool {
    (0x61 <= b <= 0x7A) || (0x41 <= b <= 0x5A)
}

/// Whether a byte is an ASCII digit.
pub open spec fn is_digit_byte(b: u8) -> bool {
    0x30 <= b <= 0x39
}

/// Whether a byte begins an operator or a bracket for the scanner.
pub open spec fn is_punct_byte(b: u8) -> bool {
    b == 0x21 || b == 0x3D || b == 0x3C || b == 0x3E || b == 0x28 || b == 0x29 || b == 0x7B || b
        == 0x7D || b == 0x5B || b == 0x5D || b == 0x2C || b == 0x3A || b == 0x3B || b == 0x2B || b
        == 0x2D || b == 0x2A || b == 0x2F
}

/// An identifier, a number and a run of white space do not end before they begin.
pub proof fn lemma_ends_follow(src: Seq<char>, i: int)
    requires
        0 <= i <= src.len(),
    ensures
        i <= ident_end(src, i) <= src.len(),
        i <= digits_end(src, i) <= src.len(),
        i <= number_body(src, i) <= number_end(src, i) <= src.len(),
        i <= space_end(src, i) <= src.len(),
        i < src.len() && is_ident_byte(low(src[i])) ==> i < ident_end(src, i),
        i < src.len() && is_digit_byte(low(src[i])) ==> i < number_end(src, i),
        i < src.len() && is_space_byte(low(src[i])) ==> i < space_end(src, i),
    decreases src.len() - i,
{
    if i < src.len() {
        lemma_ends_follow(src, i + 1);
        if i + 1 < src.len() {
            lemma_ends_follow(src, i + 2);
        }
        let body = number_body(src, i);
        if body > i {
            lemma_digits_follow(src, body);
        }
    }
}

proof fn lemma_digits_follow(src: Seq<char>, i: int)
    requires
        0 <= i <= src.len(),
    ensures
        i <= digits_end(src, i) <= src.len(),
    decreases src.len() - i,
{
    if i < src.len() && is_hex_byte(low(src[i])) {
        lemma_digits_follow(src, i + 1);
    }
}

/// The tokens of the text from the state `st` on. Letters begin an
/// identifier, digits a number, and the bytes of operators and brackets
/// their token; white space becomes a token where `allow_ws` holds and is
/// passed where it does not. Any other byte is passed, and ends the scan
/// with a failure.
pub open spec fn lex_from(src: Seq<char>, st: ScanState, allow_ws: bool) -> (ScanState, Option<
    LexFailure,
>)
    decreases src.len() - st.index,
{
    if st.index < 0 || st.index >= src.len() {
        (st, None)
    } else {
        let b = low(src[st.index]);
        proof {
            lemma_ends_follow(src, st.index);
        }
        if is_letter_byte(b) {
            lex_from(src, ident_step(src, st), allow_ws)
        } else if is_digit_byte(b) {
            lex_from(src, number_step(src, st), allow_ws)
        } else if is_punct_byte(b) {
            lex_from(src, punct_step(src, st), allow_ws)
        } else if is_space_byte(b) {
            if allow_ws {
                lex_from(src, space_step(src, st), allow_ws)
            } else {
                lex_from(src, moved(src, st, st.index + 1), allow_ws)
            }
        } else {
            let after = moved(src, st, st.index + 1);
            (
                after,
                Some(
                    LexFailure {
                        character: b as char,
                        line: shown_line(after.line),
                        column: after.column,
                        text: failure_text(src, after.column, b as char),
                    },
                ),
            )
        }
    }
}

/// The models of a list of tokens, in order.
pub open spec fn tokens_model(v: Vec<Token>) -> Seq<TokenModel> {
    Seq::new(v@.len(), |k: int| v@[k]@)
}

/// The scanner: a text, a place in it, and the tokens found so far.
pub struct Lexer {
    pub buffer: BufferStream,
    pub tokens: Vec<Token>,
    pub allow_ws: bool,
}

impl View for Lexer {
    type V = ScanState;

    open spec fn view(&self) -> ScanState {
        ScanState {
            index: self.buffer.index as int,
            line: self.buffer.position.0 as int,
            column: self.buffer.position.1 as int,
            tokens: tokens_model(self.tokens),
        }
    }
}

/// Line and column do not exceed the index, however many characters are passed.
pub proof fn lemma_advanced_bounds(src: Seq<char>, index: int, position: (int, int), n: nat)
    requires
        0 <= position.0 <= index,
        0 <= position.1 <= index,
    ensures
        0 <= advanced(src, index, position, n).0 <= index + n,
        0 <= advanced(src, index, position, n).1 <= index + n,
    decreases n,
{
    if n > 0 {
        lemma_advanced_bounds(src, index, position, (n - 1) as nat);
    }
}

/// Passing characters in two goes is passing them in one.
pub proof fn lemma_advanced_twice(src: Seq<char>, index: int, position: (int, int), a: nat, b: nat)
    ensures
        advanced(src, index + a, advanced(src, index, position, a), b) == advanced(
            src,
            index,
            position,
            a + b,
        ),
    decreases b,
{
    if b > 0 {
        lemma_advanced_twice(src, index, position, a, (b - 1) as nat);
    }
}

impl Lexer {
    /// Whether the place of the scanner lies in its text.
    pub open spec fn wf(&self) -> bool {
        self.buffer.wf()
    }

    /// A scanner at the beginning of `src`, without tokens.
    pub fn new(src: String, allow_ws: bool) -> (lexer: Lexer)
        ensures
            lexer.buffer.src@ == src@,
            lexer@ == (ScanState { index: 0, line: 0, column: 0, tokens: Seq::empty() }),
            lexer.allow_ws == allow_ws,
            lexer.wf(),
    {
        let lexer = Lexer { buffer: BufferStream::new(src), tokens: Vec::new(), allow_ws };
        assert(lexer@.tokens =~= Seq::<TokenModel>::empty());
        lexer
    }

    /// The low bytes of the text.
    pub fn stream_to_bytes(&self) -> (bytes: Vec<u8>)
        ensures
            bytes@ == Seq::new(self.buffer.src@.len(), |k: int| low(self.buffer.src@[k])),
    {
        let mut bytes: Vec<u8> = Vec::new();
        let mut k: usize = 0;
        while k < self.buffer.src.len()
            invariant
                k <= self.buffer.src.len(),
                bytes@ == Seq::new(k as nat, |j: int| low(self.buffer.src@[j])),
            decreases self.buffer.src.len() - k,
        {
            bytes.push(self.buffer.src[k] as u8);
            k += 1;
            assert(bytes@ =~= Seq::new(k as nat, |j: int| low(self.buffer.src@[j])));
        }
        bytes
    }

    /// The low byte of the character at `i`.
    fn byte_at(&self, i: usize) -> (b: u8)
        requires
            i < self.buffer.src@.len(),
        ensures
            b == low(self.buffer.src@[i as int]),
    {
        self.buffer.src[i] as u8
    }

    /// The low byte of the character behind the one at `i`, and 0 at the end.
    fn byte_after(&self, i: usize) -> (b: u8)
        requires
            i < self.buffer.src@.len(),
        ensures
            b == next_byte(self.buffer.src@, i as int),
    {
        assert(i < self.buffer.src.len());
        if i + 1 < self.buffer.src.len() {
            self.buffer.src[i + 1] as u8
        } else {
            0
        }
    }

    /// The text from the place of the scanner up to `to`, as its low bytes;
    /// the scanner passes it.
    fn take(&mut self, to: usize) -> (text: String)
        requires
            old(self).wf(),
            old(self).buffer.index <= to <= old(self).buffer.src@.len(),
        ensures
            text@ == low_text(old(self).buffer.src@.subrange(old(self).buffer.index as int, to as int)),
            final(self)@ == moved(old(self).buffer.src@, old(self)@, to as int),
            final(self).buffer.src == old(self).buffer.src,
            final(self).tokens == old(self).tokens,
            final(self).allow_ws == old(self).allow_ws,
            final(self).wf(),
    {
        let mut text = String::new();
        let from = self.buffer.index;
        let mut k: usize = from;
        while k < to
            invariant
                from <= k <= to <= self.buffer.src@.len(),
                text@ == low_text(self.buffer.src@.subrange(from as int, k as int)),
            decreases to - k,
        {
            push_char(&mut text, (self.buffer.src[k] as u8) as char);
            k += 1;
            assert(text@ =~= low_text(self.buffer.src@.subrange(from as int, k as int)));
        }
        self.buffer.advance(to - from);
        text
    }

    /// Adds a token with the given text, lines and columns.
    fn push_token(&mut self, token_type: TokenType, literal: String, lines: (usize, usize), columns: (
        usize,
        usize,
    ))
        ensures
            final(self).buffer == old(self).buffer,
            final(self).allow_ws == old(self).allow_ws,
            tokens_model(final(self).tokens) == tokens_model(old(self).tokens).push(
                TokenModel { token_type, literal: literal@, lines, columns, src: 0 },
            ),
    {
        let position = (lines.0..lines.1, columns.0..columns.1);
        self.tokens.push(Token::new(token_type, literal, position, 0));
        assert(tokens_model(self.tokens) =~= tokens_model(old(self).tokens).push(
            TokenModel { token_type, literal: literal@, lines, columns, src: 0 },
        ));
    }

    /// Where the identifier at the place of the scanner ends.
    fn ident_stop(&self) -> (end: usize)
        requires
            self.wf(),
        ensures
            end == ident_end(self.buffer.src@, self.buffer.index as int),
            self.buffer.index <= end <= self.buffer.src@.len(),
    {
        let n = self.buffer.src.len();
        let mut i: usize = self.buffer.index;
        proof {
            lemma_ends_follow(self.buffer.src@, i as int);
        }
        let mut more = true;
        while more && i < n
            invariant
                self.buffer.index <= i <= n,
                n == self.buffer.src@.len(),
                ident_end(self.buffer.src@, self.buffer.index as int) == ident_end(
                    self.buffer.src@,
                    i as int,
                ),
                !more ==> ident_end(self.buffer.src@, i as int) == i,
            decreases n - i, more as int,
        {
            let b = self.byte_at(i);
            let next = self.byte_after(i);
            if b == 0x3A && next == 0x3A {
                i += 2;
            } else if (0x61 <= b && b <= 0x7A) || (0x41 <= b && b <= 0x5A) || (0x30 <= b && b
                <= 0x39) || b == 0x5F || b >= 0x80 {
                i += 1;
            } else {
                more = false;
            }
        }
        i
    }

    /// Where the hexadecimal digits from `from` on end.
    fn digits_stop(&self, from: usize) -> (end: usize)
        requires
            from <= self.buffer.src@.len(),
        ensures
            end == digits_end(self.buffer.src@, from as int),
            from <= end <= self.buffer.src@.len(),
    {
        let n = self.buffer.src.len();
        let mut i: usize = from;
        let mut more = true;
        while more && i < n
            invariant
                from <= i <= n,
                n == self.buffer.src@.len(),
                digits_end(self.buffer.src@, from as int) == digits_end(self.buffer.src@, i as int),
                !more ==> digits_end(self.buffer.src@, i as int) == i,
            decreases n - i, more as int,
        {
            let b = self.byte_at(i);
            if (0x30 <= b && b <= 0x39) || (0x61 <= b && b <= 0x66) || (0x41 <= b && b <= 0x46) {
                i += 1;
            } else {
                more = false;
            }
        }
        i
    }

    /// Where the white space from the place of the scanner on ends.
    fn space_stop(&self) -> (end: usize)
        requires
            self.wf(),
        ensures
            end == space_end(self.buffer.src@, self.buffer.index as int),
            self.buffer.index <= end <= self.buffer.src@.len(),
    {
        let n = self.buffer.src.len();
        let mut i: usize = self.buffer.index;
        let mut more = true;
        while more && i < n
            invariant
                self.buffer.index <= i <= n,
                n == self.buffer.src@.len(),
                space_end(self.buffer.src@, self.buffer.index as int) == space_end(
                    self.buffer.src@,
                    i as int,
                ),
                !more ==> space_end(self.buffer.src@, i as int) == i,
            decreases n - i, more as int,
        {
            let b = self.byte_at(i);
            if b == 0x20 || b == 0x0A || b == 0x09 {
                i += 1;
            } else {
                more = false;
            }
        }
        i
    }

    /// The column of the last character that was passed.
    fn last_column(&self) -> (c: usize)
        ensures
            c == (if self.buffer.position.1 == 0 {
                0
            } else {
                self.buffer.position.1 - 1
            }),
    {
        if self.buffer.position.1 == 0 {
            0
        } else {
            self.buffer.position.1 - 1
        }
    }

    /// Reads an identifier from the place of the scanner on.
    pub fn lex_ident(&mut self)
        requires
            old(self).wf(),
        ensures
            final(self)@ == ident_step(old(self).buffer.src@, old(self)@),
            final(self).buffer.src == old(self).buffer.src,
            final(self).allow_ws == old(self).allow_ws,
            final(self).wf(),
    {
        let start = (self.buffer.position.0, self.buffer.position.1);
        let end = self.ident_stop();
        let literal = self.take(end);
        let lines = (start.0, self.buffer.position.0);
        let columns = (start.1, self.last_column());
        self.push_token(TokenType::IDENTIFIER, literal, lines, columns);
    }

    /// Reads a number from the place of the scanner on: an optional `0x`, an
    /// optional `0b`, and hexadecimal digits.
    pub fn lex_number(&mut self)
        requires
            old(self).wf(),
        ensures
            final(self)@ == number_step(old(self).buffer.src@, old(self)@),
            final(self).buffer.src == old(self).buffer.src,
            final(self).allow_ws == old(self).allow_ws,
            final(self).wf(),
    {
        let start = (self.buffer.position.0, self.buffer.position.1);
        let n = self.buffer.src.len();
        let mut body = self.buffer.index;
        if body < n && self.byte_at(body) == 0x30 && self.byte_after(body) == 0x78 {
            body += 2;
        }
        if body < n && self.byte_at(body) == 0x30 && self.byte_after(body) == 0x62 {
            body += 2;
        }
        let end = self.digits_stop(body);
        let literal = self.take(end);
        let lines = (start.0, self.buffer.position.0);
        let columns = (start.1, self.last_column());
        self.push_token(TokenType::INTEGER, literal, lines, columns);
    }

    /// The lines and the columns of a token that begins at `start` and ends
    /// `off` columns behind the place of the scanner.
    pub fn off_range(&self, start: (usize, usize), off: usize) -> (r: (Range<usize>, Range<usize>))
        ensures
            r.0.start == start.0,
            r.0.end == self.buffer.position.0,
            r.1.start == start.1,
            r.1.end == (if self.buffer.position.1 + off > usize::MAX {
                usize::MAX
            } else {
                (self.buffer.position.1 + off) as usize
            }),
    {
        let column = if self.buffer.position.1 > usize::MAX - off {
            usize::MAX
        } else {
            self.buffer.position.1 + off
        };
        (start.0..self.buffer.position.0, start.1..column)
    }

    /// The kind and the length of the token that begins with `b`, with `next` behind it.
    pub fn punct_kind(b: u8, next: u8) -> (r: Option<(TokenType, usize)>)
        ensures
            match punct_of(b, next) {
                Some((token_type, len)) => r == Some((token_type, len as usize)) && 1 <= len <= 2 && (len
                    == 2 ==> next != 0),
                None => r is None,
            },
    {
        if b == 0x2B {
            if next == 0x3D {
                Some((TokenType::PLUS_ASSIGN, 2))
            } else {
                Some((TokenType::PLUS, 1))
            }
        } else if b == 0x2D {
            if next == 0x3D {
                Some((TokenType::MINUS_ASSIGN, 2))
            } else {
                Some((TokenType::MINUS, 1))
            }
        } else if b == 0x2A {
            Some((TokenType::ASTERISK, 1))
        } else if b == 0x2F {
            Some((TokenType::SLASH, 1))
        } else if b == 0x3D {
            if next == 0x3D {
                Some((TokenType::EQ, 2))
            } else if next == 0x3E {
                Some((TokenType::ARROW, 2))
            } else {
                Some((TokenType::ASSIGN, 1))
            }
        } else if b == 0x21 {
            if next == 0x3D {
                Some((TokenType::NEQ, 2))
            } else {
                Some((TokenType::NOT, 1))
            }
        } else if b == 0x3C {
            if next == 0x3D {
                Some((TokenType::LTE, 2))
            } else {
                Some((TokenType::LT, 1))
            }
        } else if b == 0x3E {
            if next == 0x3D {
                Some((TokenType::GTE, 2))
            } else {
                Some((TokenType::GT, 1))
            }
        } else if b == 0x28 {
            Some((TokenType::LPAREN, 1))
        } else if b == 0x29 {
            Some((TokenType::RPAREN, 1))
        } else if b == 0x7B {
            Some((TokenType::LBRACE, 1))
        } else if b == 0x7D {
            Some((TokenType::RBRACE, 1))
        } else if b == 0x5B {
            Some((TokenType::LBRACKET, 1))
        } else if b == 0x5D {
            Some((TokenType::RBRACKET, 1))
        } else if b == 0x2C {
            Some((TokenType::COMMA, 1))
        } else if b == 0x3A {
            Some((TokenType::COLON, 1))
        } else if b == 0x3B {
            Some((TokenType::SEMICOLON, 1))
        } else if b == 0x26 {
            if next == 0x26 {
                Some((TokenType::LOGICAL_AND, 2))
            } else {
                Some((TokenType::AND, 1))
            }
        } else if b == 0x7C {
            if next == 0x7C {
                Some((TokenType::LOGICAL_OR, 2))
            } else {
                Some((TokenType::OR, 1))
            }
        } else if b == 0x2E {
            Some((TokenType::DOT, 1))
        } else {
            None
        }
    }

    /// Reads an operator or a bracket at the place of the scanner; passes a
    /// character that begins none.
    pub fn lex_punct(&mut self)
        requires
            old(self).wf(),
            old(self).buffer.index < old(self).buffer.src@.len(),
        ensures
            final(self)@ == punct_step(old(self).buffer.src@, old(self)@),
            final(self).buffer.src == old(self).buffer.src,
            final(self).allow_ws == old(self).allow_ws,
            final(self).wf(),
    {
        let start = (self.buffer.position.0, self.buffer.position.1);
        let b = self.byte_at(self.buffer.index);
        let next = self.byte_after(self.buffer.index);
        match Lexer::punct_kind(b, next) {
            Some((token_type, len)) => {
                let range = self.off_range(start, len - 1);
                assert(self.buffer.index + len <= self.buffer.src.len());
                let literal = self.take(self.buffer.index + len);
                self.push_token(token_type, literal, (range.0.start, range.0.end), (
                    range.1.start,
                    range.1.end,
                ));
            },
            None => {
                self.buffer.advance(1);
            },
        }
    }

    /// Reads a run of white space as one token.
    pub fn lex_ws(&mut self)
        requires
            old(self).wf(),
        ensures
            final(self)@ == space_step(old(self).buffer.src@, old(self)@),
            final(self).buffer.src == old(self).buffer.src,
            final(self).allow_ws == old(self).allow_ws,
            final(self).wf(),
    {
        let start = self.buffer.position;
        let end = self.space_stop();
        let content = self.take(end);
        let lines = (start.0, self.buffer.position.0);
        let columns = (start.1, self.buffer.position.1);
        self.push_token(TokenType::WS, content, lines, columns);
    }

    /// The error for the invalid character `c` behind the place of the scanner.
    pub fn char_err(&self, c: char) -> (e: LexerError)
        requires
            self.wf(),
        ensures
            e matches LexerError::InvalidCharacter { character, line, column, text } && character
                == c && line == shown_line(self.buffer.position.0 as int) && column
                == self.buffer.position.1 && text@ == failure_text(
                self.buffer.src@,
                self.buffer.position.1 as int,
                c,
            ),
    {
        let column = self.buffer.position.1;
        let n = self.buffer.src.len();
        let mut line = String::new();
        let mut i: usize = column;
        let mut from: usize = column;
        let mut found = false;
        while !found && i > 0
            invariant
                i <= column <= n,
                n == self.buffer.src@.len(),
                !found ==> last_newline(self.buffer.src@, column as int) == last_newline(
                    self.buffer.src@,
                    i as int,
                ),
                found ==> from == last_newline(self.buffer.src@, column as int) && from < column,
            decreases i,
        {
            i -= 1;
            if self.buffer.src[i] == '\n' {
                from = i;
                found = true;
            }
        }
        if found {
            let mut k: usize = from;
            while k < column
                invariant
                    from <= k <= column <= n,
                    n == self.buffer.src@.len(),
                    line@ == self.buffer.src@.subrange(from as int, k as int),
                decreases column - k,
            {
                push_char(&mut line, self.buffer.src[k]);
                k += 1;
                assert(line@ =~= self.buffer.src@.subrange(from as int, k as int));
            }
        }
        push_char(&mut line, c);
        let ghost head = line@;
        let mut k: usize = column;
        while k < n && self.buffer.src[k] != '\n'
            invariant
                column <= k <= n,
                n == self.buffer.src@.len(),
                line@ == head + self.buffer.src@.subrange(column as int, k as int),
                line_end(self.buffer.src@, column as int) == line_end(self.buffer.src@, k as int),
            decreases n - k,
        {
            push_char(&mut line, self.buffer.src[k]);
            k += 1;
            assert(line@ =~= head + self.buffer.src@.subrange(column as int, k as int));
        }
        let shown = if self.buffer.position.0 == usize::MAX {
            usize::MAX
        } else {
            self.buffer.position.0 + 1
        };
        LexerError::invalid_character(c, shown, column, line)
    }

    /// Reads the text to its end, or to the first character that no token can
    /// begin with.
    pub fn lex(&mut self) -> (r: Result<(), LexerError>)
        requires
            old(self).wf(),
        ensures
            final(self)@ == lex_from(old(self).buffer.src@, old(self)@, old(self).allow_ws).0,
            final(self).buffer.src == old(self).buffer.src,
            final(self).allow_ws == old(self).allow_ws,
            final(self).wf(),
            match lex_from(old(self).buffer.src@, old(self)@, old(self).allow_ws).1 {
                None => r is Ok,
                Some(failure) => r matches Err(
                    LexerError::InvalidCharacter { character, line, column, text },
                ) && character == failure.character && line == failure.line && column
                    == failure.column && text@ == failure.text,
            },
    {
        while self.buffer.index < self.buffer.src.len()
            invariant
                self.wf(),
                self.buffer.src == old(self).buffer.src,
                self.allow_ws == old(self).allow_ws,
                lex_from(old(self).buffer.src@, old(self)@, old(self).allow_ws) == lex_from(
                    self.buffer.src@,
                    self@,
                    self.allow_ws,
                ),
            decreases self.buffer.src@.len() - self.buffer.index,
        {
            proof {
                lemma_ends_follow(self.buffer.src@, self.buffer.index as int);
            }
            let b = self.byte_at(self.buffer.index);
            if (0x61 <= b && b <= 0x7A) || (0x41 <= b && b <= 0x5A) {
                self.lex_ident();
            } else if 0x30 <= b && b <= 0x39 {
                self.lex_number();
            } else if b == 0x21 || b == 0x3D || b == 0x3C || b == 0x3E || b == 0x28 || b == 0x29 || b
                == 0x7B || b == 0x7D || b == 0x5B || b == 0x5D || b == 0x2C || b == 0x3A || b == 0x3B
                || b == 0x2B || b == 0x2D || b == 0x2A || b == 0x2F {
                self.lex_punct();
            } else if b == 0x20 || b == 0x0A || b == 0x09 {
                if self.allow_ws {
                    self.lex_ws();
                } else {
                    self.buffer.advance(1);
                }
            } else {
                self.buffer.advance(1);
                return Err(self.char_err(b as char));
            }
        }
        Ok(())
    }
}

} // verus!
