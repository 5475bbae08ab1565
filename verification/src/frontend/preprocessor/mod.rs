use crate::backend::ir::text::push_char;
use crate::frontend::preprocessor::macros::{
    clone_nodes, clone_texts, nodes_model, texts, BodyNode, BodyNodeModel, Macro, MacroModel,
};
use crate::frontend::text::{chars_of, string_of};
use crate::frontend::token::{Token, TokenModel, TokenType};
use crate::reporter::prep::PreprocessorError;
use vstd::prelude::*;
use vstd::string::StringExecFns;

pub mod macros;

verus! {

/// How deep the expansion of macros may nest.
pub const EXPANSION_FUEL: usize = 1024;

/// What the preprocessor has reached: the index of the next token, the text
/// that it has written, and the macros that it knows.
pub struct PrepState {
    pub index: int,
    pub plain: Seq<char>,
    pub macros: Seq<MacroModel>,
}

/// A line feed for each line feed among the first `n` characters.
pub open spec fn line_feeds(s: Seq<char>, n: nat) -> Seq<char>
    decreases n,
{
    if n == 0 || n > s.len() {
        Seq::empty()
    } else if s[n - 1] == '\n' {
        line_feeds(s, (n - 1) as nat).push('\n')
    } else {
        line_feeds(s, (n - 1) as nat)
    }
}

/// The state behind the white space at its place: the line feeds of the
/// white space are written, the rest is dropped. There is none where the
/// tokens end in white space.
pub open spec fn skip_ws(toks: Seq<TokenModel>, st: PrepState) -> Option<PrepState>
    decreases toks.len() - st.index,
{
    if st.index < 0 || st.index >= toks.len() {
        None
    } else if toks[st.index].token_type == TokenType::WS {
        skip_ws(
            toks,
            PrepState {
                index: st.index + 1,
                plain: st.plain + line_feeds(toks[st.index].literal, toks[st.index].literal.len()),
                ..st
            },
        )
    } else {
        Some(st)
    }
}

/// The state behind the next token that is no white space, and that token,
/// where it is of the kind `token_type`.
pub open spec fn expect(toks: Seq<TokenModel>, st: PrepState, token_type: TokenType) -> Option<
    (PrepState, TokenModel),
> {
    match skip_ws(toks, st) {
        Some(at) => if toks[at.index].token_type == token_type {
            Some((PrepState { index: at.index + 1, ..at }, toks[at.index]))
        } else {
            None
        },
        None => None,
    }
}

/// The index of the first opening parenthesis from `k` on, or the length of the text.
pub open spec fn first_paren(s: Seq<char>, k: int) -> int
    decreases s.len() - k,
{
    if k < 0 || k >= s.len() {
        s.len() as int
    } else if s[k] == '(' {
        k
    } else {
        first_paren(s, k + 1)
    }
}

/// The name that a text calls: the text before its first opening
/// parenthesis, without one leading blank; the whole text where it has no
/// parenthesis.
pub open spec fn called_name(s: Seq<char>) -> Seq<char> {
    let p = first_paren(s, 0);
    if p < s.len() {
        let head = s.subrange(0, p);
        if head.len() > 0 && head[0] == ' ' {
            head.subrange(1, head.len() as int)
        } else {
            head
        }
    } else {
        s
    }
}

/// The place of the first macro named `name` from `from` on, or the length of the list.
pub open spec fn macro_position(macros: Seq<MacroModel>, name: Seq<char>, from: int) -> int
    decreases macros.len() - from,
{
    if from < 0 || from >= macros.len() {
        macros.len() as int
    } else if macros[from].name == name {
        from
    } else {
        macro_position(macros, name, from + 1)
    }
}

/// The arguments of a call that is written out in a text, read from the
/// character `k` on: commas at the outermost level part them, and the
/// parenthesis that closes the first one ends them. `count` is the number of
/// parentheses that are open, `latest` the argument that is being read.
pub open spec fn split_text(
    s: Seq<char>,
    k: int,
    count: int,
    latest: Seq<char>,
    args: Seq<Seq<char>>,
) -> Seq<Seq<char>>
    decreases s.len() - k,
{
    if k < 0 || k >= s.len() {
        args
    } else if s[k] == '(' {
        split_text(
            s,
            k + 1,
            count + 1,
            if count > 0 {
                latest.push('(')
            } else {
                latest
            },
            args,
        )
    } else if s[k] == ')' {
        if count - 1 == 0 {
            if latest.len() > 0 {
                args.push(latest)
            } else {
                args
            }
        } else {
            split_text(s, k + 1, count - 1, latest.push(')'), args)
        }
    } else if s[k] == ',' {
        if count == 1 {
            split_text(s, k + 1, count, Seq::empty(), args.push(latest))
        } else {
            split_text(s, k + 1, count, latest.push(','), args)
        }
    } else {
        split_text(s, k + 1, count, latest.push(s[k]), args)
    }
}

/// What the reading of the arguments of a call from the tokens leaves: the
/// state, the argument that was being read, and the arguments before it.
pub struct ArgsRead {
    pub state: PrepState,
    pub latest: Seq<char>,
    pub args: Seq<Seq<char>>,
}

/// The arguments of a call, read from the tokens: commas at the outermost
/// level part them; the reading stops before the parenthesis that closes
/// the call, or at the end of the tokens.
pub open spec fn read_args(
    toks: Seq<TokenModel>,
    st: PrepState,
    count: int,
    latest: Seq<char>,
    args: Seq<Seq<char>>,
) -> ArgsRead
    decreases toks.len() - st.index,
{
    if count <= 0 || st.index < 0 || st.index >= toks.len() {
        ArgsRead { state: st, latest, args }
    } else {
        let tk = toks[st.index];
        let next = PrepState { index: st.index + 1, ..st };
        if tk.token_type == TokenType::LPAREN {
            read_args(toks, next, count + 1, latest.push('('), args)
        } else if tk.token_type == TokenType::RPAREN {
            if count - 1 == 0 {
                ArgsRead { state: st, latest, args }
            } else {
                read_args(toks, next, count - 1, latest.push(')'), args)
            }
        } else if tk.token_type == TokenType::COMMA {
            if count == 1 {
                read_args(toks, next, count, Seq::empty(), args.push(latest))
            } else {
                read_args(toks, next, count, latest.push(','), args)
            }
        } else {
            read_args(toks, next, count, latest + tk.literal, args)
        }
    }
}

/// The argument that goes with the parameter `param`: parameters and
/// arguments are paired in order, and the first pair with the name counts.
pub open spec fn param_value(
    params: Seq<Seq<char>>,
    args: Seq<Seq<char>>,
    param: Seq<char>,
    from: int,
) -> Option<Seq<char>>
    decreases params.len() - from,
{
    if from < 0 || from >= params.len() || from >= args.len() {
        None
    } else if params[from] == param {
        Some(args[from])
    } else {
        param_value(params, args, param, from + 1)
    }
}

/// The name of the parameter that stands for the current argument in a repeated body.
pub open spec fn arg_name() -> Seq<char> {
    "arg"@
}

/// The state with a text written, or expanded where it calls a macro. A
/// text with a parenthesis brings its arguments along; for any other call
/// they are read from the tokens. There is no state where the expansion
/// nests deeper than the fuel allows, or where the tokens of a call are
/// not as they should be.
pub open spec fn expand_identstr(toks: Seq<TokenModel>, st: PrepState, text: Seq<char>, fuel: nat) -> Option<
    PrepState,
>
    decreases fuel, 0nat, 0nat,
{
    let at = macro_position(st.macros, called_name(text), 0);
    if at < st.macros.len() {
        if fuel == 0 {
            None
        } else if first_paren(text, 0) < text.len() {
            expand_macro(
                toks,
                st,
                st.macros[at],
                split_text(text, first_paren(text, 0), 0, Seq::empty(), Seq::empty()),
                (fuel - 1) as nat,
            )
        } else {
            expand_call(toks, st, st.macros[at], (fuel - 1) as nat)
        }
    } else {
        Some(PrepState { plain: st.plain + text, ..st })
    }
}

/// The state with the macro `m` expanded, its arguments read from the
/// tokens where a parenthesis follows, and without arguments where none does.
pub open spec fn expand_call(toks: Seq<TokenModel>, st: PrepState, m: MacroModel, fuel: nat) -> Option<
    PrepState,
>
    decreases fuel, 3nat, 0nat,
{
    if st.index < 0 || st.index >= toks.len() {
        None
    } else if toks[st.index].token_type == TokenType::LPAREN {
        let read = read_args(
            toks,
            PrepState { index: st.index + 1, ..st },
            1,
            Seq::empty(),
            Seq::empty(),
        );
        let args = if read.latest.len() > 0 {
            read.args.push(read.latest)
        } else {
            read.args
        };
        match expect(toks, read.state, TokenType::RPAREN) {
            Some((after, _)) => expand_macro(toks, after, m, args, fuel),
            None => None,
        }
    } else {
        expand_macro(toks, st, m, Seq::empty(), fuel)
    }
}

/// The state with the body of the macro `m` expanded for the arguments `args`.
pub open spec fn expand_macro(
    toks: Seq<TokenModel>,
    st: PrepState,
    m: MacroModel,
    args: Seq<Seq<char>>,
    fuel: nat,
) -> Option<PrepState>
    decreases fuel, 2nat, 0nat,
{
    expand_nodes(toks, st, m, args, 0, fuel)
}

/// The state with the pieces of the body of `m` from `k` on expanded: plain
/// text is written or expanded in its turn, a parameter gives way to its
/// argument, and a repeated body is expanded once for each argument.
pub open spec fn expand_nodes(
    toks: Seq<TokenModel>,
    st: PrepState,
    m: MacroModel,
    args: Seq<Seq<char>>,
    k: int,
    fuel: nat,
) -> Option<PrepState>
    decreases fuel, 1nat, m.body.len() - k,
{
    if k < 0 || k >= m.body.len() {
        Some(st)
    } else {
        match m.body[k] {
            BodyNodeModel::Lexical(content) => if fuel == 0 {
                None
            } else {
                match expand_identstr(toks, st, content, (fuel - 1) as nat) {
                    Some(next) => expand_nodes(toks, next, m, args, k + 1, fuel),
                    None => None,
                }
            },
            BodyNodeModel::Param(param) => match param_value(m.params, args, param, 0) {
                Some(value) => if fuel == 0 {
                    None
                } else {
                    match expand_identstr(toks, st, value, (fuel - 1) as nat) {
                        Some(next) => expand_nodes(toks, next, m, args, k + 1, fuel),
                        None => None,
                    }
                },
                None => expand_nodes(toks, st, m, args, k + 1, fuel),
            },
            BodyNodeModel::ArgIteration(body) => if fuel == 0 {
                None
            } else {
                match expand_each_arg(
                    toks,
                    st,
                    MacroModel { name: m.name, body, params: m.params.push(arg_name()) },
                    args,
                    0,
                    (fuel - 1) as nat,
                ) {
                    Some(next) => expand_nodes(toks, next, m, args, k + 1, fuel),
                    None => None,
                }
            },
        }
    }
}

/// The state with `m` expanded once for each argument from `j` on, with
/// that argument as its only one.
pub open spec fn expand_each_arg(
    toks: Seq<TokenModel>,
    st: PrepState,
    m: MacroModel,
    args: Seq<Seq<char>>,
    j: int,
    fuel: nat,
) -> Option<PrepState>
    decreases fuel, 3nat, args.len() - j,
{
    if j < 0 || j >= args.len() {
        Some(st)
    } else {
        match expand_macro(toks, st, m, seq![args[j]], fuel) {
            Some(next) => expand_each_arg(toks, next, m, args, j + 1, fuel),
            None => None,
        }
    }
}

/// Whether `needle` stands somewhere in `hay`.
pub open spec fn contains_text(hay: Seq<char>, needle: Seq<char>) -> bool {
    exists|k: int| 0 <= k && k + needle.len() <= hay.len() && #[trigger] hay.subrange(
        k,
        k + needle.len(),
    ) == needle
}

/// The mark of a repeated body in the definition of a macro.
pub open spec fn repeat_mark() -> Seq<char> {
    "for::arg"@
}

/// White space is passed without the index going back, and what is
/// reached is a token.
pub proof fn lemma_skip_ws_follows(toks: Seq<TokenModel>, st: PrepState)
    ensures
        skip_ws(toks, st) matches Some(at) ==> st.index <= at.index < toks.len() && at.macros
            == st.macros,
    decreases toks.len() - st.index,
{
    if 0 <= st.index < toks.len() && toks[st.index].token_type == TokenType::WS {
        lemma_skip_ws_follows(
            toks,
            PrepState {
                index: st.index + 1,
                plain: st.plain + line_feeds(toks[st.index].literal, toks[st.index].literal.len()),
                ..st
            },
        );
    }
}

/// A piece of the body of a macro, read from the tokens, and the state
/// behind it. An identifier is a parameter where `params` has its name, and
/// plain text where not; `!` before a token with the repeat mark opens a
/// repeated body between braces; any other token is plain text.
pub open spec fn process_bnode(toks: Seq<TokenModel>, st: PrepState, params: Seq<Seq<char>>) -> Option<
    (PrepState, BodyNodeModel),
>
    decreases toks.len() - st.index, 0nat,
{
    if st.index < 0 || st.index >= toks.len() {
        None
    } else {
        let cur = toks[st.index];
        let next = PrepState { index: st.index + 1, ..st };
        if cur.token_type == TokenType::IDENTIFIER {
            if params.contains(cur.literal) {
                Some((next, BodyNodeModel::Param(cur.literal)))
            } else {
                Some((next, BodyNodeModel::Lexical(cur.literal)))
            }
        } else if cur.token_type == TokenType::NOT {
            if st.index + 1 >= toks.len() {
                None
            } else if contains_text(toks[st.index + 1].literal, repeat_mark()) {
                match expect(toks, next, TokenType::IDENTIFIER) {
                    Some((named, _)) => match expect(toks, named, TokenType::LBRACE) {
                        Some((opened, _)) => {
                            proof {
                                lemma_skip_ws_follows(toks, next);
                                lemma_skip_ws_follows(toks, named);
                            }
                            match read_block(toks, opened, params.push(arg_name()), 1, Seq::empty()) {
                                Some((closing, body)) => match expect(
                                    toks,
                                    closing,
                                    TokenType::RBRACE,
                                ) {
                                    Some((after, _)) => Some(
                                        (after, BodyNodeModel::ArgIteration(body)),
                                    ),
                                    None => None,
                                },
                                None => None,
                            }
                        },
                        None => None,
                    },
                    None => None,
                }
            } else {
                Some((next, BodyNodeModel::Lexical(cur.literal)))
            }
        } else {
            Some((next, BodyNodeModel::Lexical(cur.literal)))
        }
    }
}

/// The number of open braces with the token `cur` counted in.
pub open spec fn braces_with(braces: int, cur: TokenModel) -> int {
    if cur.token_type == TokenType::LBRACE {
        braces + 1
    } else if cur.token_type == TokenType::RBRACE {
        braces - 1
    } else {
        braces
    }
}

/// The pieces of a repeated body up to the brace that closes it, and the
/// state before that brace. Braces inside the body are pieces of it.
/// A piece always ends behind where it begins: the test of that lets the
/// definition end, and never fails.
pub open spec fn read_block(
    toks: Seq<TokenModel>,
    st: PrepState,
    params: Seq<Seq<char>>,
    braces: int,
    body: Seq<BodyNodeModel>,
) -> Option<(PrepState, Seq<BodyNodeModel>)>
    decreases toks.len() - st.index, 1nat,
{
    if braces <= 0 {
        Some((st, body))
    } else if st.index < 0 || st.index >= toks.len() {
        None
    } else if braces_with(braces, toks[st.index]) == 0 {
        Some((st, body))
    } else {
        match process_bnode(toks, st, params) {
            Some((next, node)) => if next.index <= st.index || next.index > toks.len() {
                None
            } else {
                read_block(toks, next, params, braces_with(braces, toks[st.index]), body.push(node))
            },
            None => None,
        }
    }
}

/// The names of the parameters of a macro up to the closing parenthesis,
/// and the state before that parenthesis.
pub open spec fn read_params(toks: Seq<TokenModel>, st: PrepState, params: Seq<Seq<char>>) -> Option<
    (PrepState, Seq<Seq<char>>),
>
    decreases toks.len() - st.index,
{
    if st.index < 0 || st.index >= toks.len() {
        None
    } else if toks[st.index].token_type == TokenType::RPAREN {
        Some((st, params))
    } else {
        match expect(toks, st, TokenType::IDENTIFIER) {
            Some((named, name)) => {
                proof {
                    lemma_skip_ws_follows(toks, st);
                }
                if named.index >= toks.len() {
                    None
                } else if toks[named.index].token_type == TokenType::COMMA {
                    read_params(toks, PrepState { index: named.index + 1, ..named }, params.push(name.literal))
                } else {
                    read_params(toks, named, params.push(name.literal))
                }
            },
            None => None,
        }
    }
}

/// The pieces of the body of a macro up to and with the brace that closes
/// it, and the state behind that brace.
pub open spec fn read_body(
    toks: Seq<TokenModel>,
    st: PrepState,
    params: Seq<Seq<char>>,
    braces: int,
    body: Seq<BodyNodeModel>,
) -> Option<(PrepState, Seq<BodyNodeModel>)>
    decreases toks.len() - st.index,
{
    if braces <= 0 {
        Some((st, body))
    } else if st.index < 0 || st.index >= toks.len() {
        None
    } else if braces_with(braces, toks[st.index]) <= 0 {
        Some((PrepState { index: st.index + 1, ..st }, body))
    } else {
        match process_bnode(toks, st, params) {
            Some((next, node)) => {
                proof {
                    lemma_bnode_follows(toks, st, params);
                }
                read_body(toks, next, params, braces_with(braces, toks[st.index]), body.push(node))
            },
            None => None,
        }
    }
}

/// A body without the line feed that it ends in.
pub open spec fn trimmed(body: Seq<BodyNodeModel>) -> Seq<BodyNodeModel> {
    if body.len() > 0 && body.last() == BodyNodeModel::Lexical(seq!['\n']) {
        body.drop_last()
    } else {
        body
    }
}

/// The state with a macro defined: `!`, an identifier, the name, a colon,
/// the parameters between parentheses where there are any, and the body,
/// between braces or as a single piece with one more token behind it.
pub open spec fn process_macrodef(toks: Seq<TokenModel>, st: PrepState) -> Option<PrepState> {
    match expect(toks, st, TokenType::NOT) {
        Some((s1, _)) => match expect(toks, s1, TokenType::IDENTIFIER) {
            Some((s2, _)) => match expect(toks, s2, TokenType::IDENTIFIER) {
                Some((s3, name)) => match expect(toks, s3, TokenType::COLON) {
                    Some((s4, _)) => match skip_ws(toks, s4) {
                        Some(s5) => match macro_params(toks, s5) {
                            Some((s6, params)) => match skip_ws(toks, s6) {
                                Some(s7) => match macro_body(toks, s7, params) {
                                    Some((s8, body)) => Some(
                                        PrepState {
                                            macros: s8.macros.push(
                                                MacroModel { name: name.literal, body, params },
                                            ),
                                            ..s8
                                        },
                                    ),
                                    None => None,
                                },
                                None => None,
                            },
                            None => None,
                        },
                        None => None,
                    },
                    None => None,
                },
                None => None,
            },
            None => None,
        },
        None => None,
    }
}

/// The parameters of a macro, where the token at the state opens them, and
/// the state behind them.
pub open spec fn macro_params(toks: Seq<TokenModel>, st: PrepState) -> Option<
    (PrepState, Seq<Seq<char>>),
> {
    if 0 <= st.index < toks.len() && toks[st.index].token_type == TokenType::LPAREN {
        match read_params(toks, PrepState { index: st.index + 1, ..st }, Seq::empty()) {
            Some((at, params)) => match expect(toks, at, TokenType::RPAREN) {
                Some((after, _)) => Some((after, params)),
                None => None,
            },
            None => None,
        }
    } else {
        Some((st, Seq::empty()))
    }
}

/// The body of a macro and the state behind it: between braces, without
/// the white space behind the opening brace and the line feed before the
/// closing one; or a single piece, with the token behind it passed.
pub open spec fn macro_body(toks: Seq<TokenModel>, st: PrepState, params: Seq<Seq<char>>) -> Option<
    (PrepState, Seq<BodyNodeModel>),
> {
    if st.index < 0 || st.index >= toks.len() {
        None
    } else if toks[st.index].token_type == TokenType::LBRACE {
        match skip_ws(toks, PrepState { index: st.index + 1, ..st }) {
            Some(inside) => match read_body(toks, inside, params, 1, Seq::empty()) {
                Some((after, body)) => Some((after, trimmed(body))),
                None => None,
            },
            None => None,
        }
    } else {
        match process_bnode(toks, st, params) {
            Some((after, node)) => Some(
                (
                    PrepState {
                        index: if after.index < toks.len() {
                            after.index + 1
                        } else {
                            after.index
                        },
                        ..after
                    },
                    seq![node],
                ),
            ),
            None => None,
        }
    }
}

/// Whether a macro is defined at the state: `!` with the identifier `macro` behind it.
pub open spec fn defines_macro(toks: Seq<TokenModel>, st: PrepState) -> bool {
    &&& 0 <= st.index
    &&& st.index + 1 < toks.len()
    &&& toks[st.index].token_type == TokenType::NOT
    &&& toks[st.index + 1].token_type == TokenType::IDENTIFIER
    &&& toks[st.index + 1].literal == "macro"@
}

/// The state at the end of the tokens: an identifier is written or
/// expanded, the definition of a macro is taken in, and any other token is
/// written as it is.
pub open spec fn process_from(toks: Seq<TokenModel>, st: PrepState, fuel: nat) -> Option<PrepState>
    decreases toks.len() - st.index,
{
    if st.index < 0 || st.index >= toks.len() {
        Some(st)
    } else {
        let cur = toks[st.index];
        let next = PrepState { index: st.index + 1, ..st };
        if cur.token_type == TokenType::IDENTIFIER {
            match expand_identstr(toks, next, cur.literal, fuel) {
                Some(after) => {
                    proof {
                        lemma_identstr_follows(toks, next, cur.literal, fuel);
                    }
                    process_from(toks, after, fuel)
                },
                None => None,
            }
        } else if defines_macro(toks, st) {
            match process_macrodef(toks, st) {
                Some(after) => {
                    proof {
                        lemma_macrodef_follows(toks, st);
                    }
                    process_from(toks, after, fuel)
                },
                None => None,
            }
        } else {
            process_from(toks, PrepState { plain: st.plain + cur.literal, ..next }, fuel)
        }
    }
}

/// The tokens that are read, and the index of the next one.
pub struct BufferStream {
    pub src: Vec<Token>,
    pub index: usize,
}

/// The models of a list of tokens, in order.
pub open spec fn stream_model(v: Vec<Token>) -> Seq<TokenModel> {
    Seq::new(v@.len(), |k: int| v@[k]@)
}

/// The models of a list of macros, in order.
pub open spec fn macros_model(v: Vec<Macro>) -> Seq<MacroModel> {
    Seq::new(v@.len(), |k: int| v@[k]@)
}

/// Expands the macros of a list of tokens into plain text.
pub struct Preprocessor {
    pub src: BufferStream,
    pub plain: String,
    pub macros: Vec<Macro>,
}

impl View for Preprocessor {
    type V = PrepState;

    open spec fn view(&self) -> PrepState {
        PrepState {
            index: self.src.index as int,
            plain: self.plain@,
            macros: macros_model(self.macros),
        }
    }
}

fn failed<T>() -> (r: Result<T, PreprocessorError>)
    ensures
        r matches Err(PreprocessorError::Unknown),
{
    Err(PreprocessorError::Unknown)
}

/// Whether `needle` stands in `hay` at `at`.
fn stands_at(hay: &Vec<char>, needle: &Vec<char>, at: usize) -> (r: bool)
    requires
        at + needle@.len() <= hay@.len(),
    ensures
        r == (hay@.subrange(at as int, at + needle@.len()) == needle@),
{
    let mut k: usize = 0;
    assert(hay@.len() == hay.len());
    while k < needle.len()
        invariant
            k <= needle.len(),
            at + needle.len() <= hay.len(),
            forall|j: int| 0 <= j < k ==> hay@[at + j] == needle@[j],
        decreases needle.len() - k,
    {
        if hay[at + k] != needle[k] {
            assert(hay@.subrange(at as int, at + needle@.len())[k as int] != needle@[k as int]);
            return false;
        }
        k += 1;
    }
    assert(hay@.subrange(at as int, at + needle@.len()) =~= needle@);
    true
}

/// Whether `needle` stands somewhere in `hay`.
pub fn contains(hay: &Vec<char>, needle: &Vec<char>) -> (r: bool)
    ensures
        r == contains_text(hay@, needle@),
{
    if needle.len() > hay.len() {
        return false;
    }
    let last = hay.len() - needle.len();
    let mut k: usize = 0;
    loop
        invariant
            k <= last,
            last == hay@.len() - needle@.len(),
            forall|j: int| 0 <= j < k ==> #[trigger] hay@.subrange(j, j + needle@.len()) != needle@,
        decreases last - k,
    {
        if stands_at(hay, needle, k) {
            return true;
        }
        if k == last {
            return false;
        }
        k += 1;
    }
}

/// Whether one of the names is `name`.
fn has_name(names: &Vec<String>, name: &String) -> (r: bool)
    ensures
        r == texts(*names).contains(name@),
{
    let mut k: usize = 0;
    while k < names.len()
        invariant
            k <= names.len(),
            forall|j: int| 0 <= j < k ==> texts(*names)[j] != name@,
        decreases names.len() - k,
    {
        if names[k] == *name {
            assert(texts(*names)[k as int] == name@);
            return true;
        }
        k += 1;
    }
    false
}

/// The index of the first opening parenthesis, or the length of the text.
fn paren_index(s: &Vec<char>) -> (p: usize)
    ensures
        p == first_paren(s@, 0),
        p <= s@.len(),
        p < s@.len() ==> s@[p as int] == '(',
{
    let mut k: usize = 0;
    while k < s.len()
        invariant
            k <= s.len(),
            first_paren(s@, 0) == first_paren(s@, k as int),
        decreases s.len() - k,
    {
        if s[k] == '(' {
            return k;
        }
        k += 1;
    }
    k
}

/// The name that a text calls.
fn name_called(s: &Vec<char>) -> (name: String)
    ensures
        name@ == called_name(s@),
{
    let p = paren_index(s);
    if p < s.len() {
        if p > 0 && s[0] == ' ' {
            let name = string_of(s, 1, p);
            assert(s@.subrange(0, p as int).subrange(1, p as int) =~= s@.subrange(1, p as int));
            name
        } else {
            string_of(s, 0, p)
        }
    } else {
        let name = string_of(s, 0, s.len());
        assert(s@.subrange(0, s@.len() as int) =~= s@);
        name
    }
}

/// The arguments of a call that is written out in `s` from the parenthesis at `start` on.
fn split_arguments(s: &Vec<char>, start: usize) -> (args: Vec<String>)
    requires
        start < s@.len(),
        s@[start as int] == '(',
    ensures
        texts(args) == split_text(s@, start as int, 0, Seq::empty(), Seq::empty()),
{
    let mut args: Vec<String> = Vec::new();
    let mut latest = String::new();
    let mut count: usize = 1;
    assert(s@.len() == s.len());
    let mut k: usize = start + 1;
    let mut open = true;
    assert(texts(args) =~= Seq::<Seq<char>>::empty());
    while open && k < s.len()
        invariant
            start < k <= s@.len(),
            open ==> 1 <= count <= k,
            open ==> split_text(s@, start as int, 0, Seq::empty(), Seq::empty()) == split_text(
                s@,
                k as int,
                count as int,
                latest@,
                texts(args),
            ),
            !open ==> split_text(s@, start as int, 0, Seq::empty(), Seq::empty()) == texts(args),
        decreases s.len() - k, open as int,
    {
        let c = s[k];
        let ghost before = texts(args);
        if c == '(' {
            push_char(&mut latest, '(');
            count += 1;
            k += 1;
        } else if c == ')' {
            if count == 1 {
                if latest.as_str().unicode_len() > 0 {
                    args.push(latest);
                    latest = String::new();
                    assert(texts(args) =~= before.push(args@[args@.len() - 1]@));
                }
                open = false;
            } else {
                push_char(&mut latest, ')');
                count -= 1;
                k += 1;
            }
        } else if c == ',' {
            if count == 1 {
                args.push(latest);
                latest = String::new();
                assert(texts(args) =~= before.push(args@[args@.len() - 1]@));
            } else {
                push_char(&mut latest, ',');
            }
            k += 1;
        } else {
            push_char(&mut latest, c);
            k += 1;
        }
    }
    args
}

impl Preprocessor {
    /// Whether the index lies within the tokens.
    pub open spec fn wf(&self) -> bool {
        self.src.index <= self.src.src@.len()
    }

    /// The tokens that are read.
    pub open spec fn toks(&self) -> Seq<TokenModel> {
        stream_model(self.src.src)
    }

    /// A preprocessor at the first of the tokens, without text and without macros.
    pub fn new(src: Vec<Token>) -> (p: Preprocessor)
        ensures
            p.toks() == stream_model(src),
            p@ == (PrepState { index: 0, plain: Seq::empty(), macros: Seq::empty() }),
            p.wf(),
    {
        let p = Preprocessor {
            src: BufferStream { src, index: 0 },
            plain: String::new(),
            macros: Vec::new(),
        };
        assert(p@.macros =~= Seq::<MacroModel>::empty());
        p
    }

    /// Passes `n` tokens, which must be there.
    pub fn advance(&mut self, n: usize)
        requires
            old(self).src.index + n <= old(self).src.src@.len(),
        ensures
            final(self).src.src == old(self).src.src,
            final(self)@ == (PrepState { index: old(self).src.index + n, ..old(self)@ }),
            final(self).wf(),
    {
        assert(self.src.src@.len() == self.src.src.len());
        self.src.index += n;
    }

    /// The token `n` places behind the current one, which must be there.
    pub fn peek(&self, n: usize) -> (t: &Token)
        requires
            self.src.index + n < self.src.src@.len(),
        ensures
            t@ == self.toks()[self.src.index + n],
    {
        assert(self.src.src@.len() == self.src.src.len());
        &self.src.src[self.src.index + n]
    }

    /// The current token, which must be there.
    pub fn current(&self) -> (t: &Token)
        requires
            self.src.index < self.src.src@.len(),
        ensures
            t@ == self.toks()[self.src.index as int],
    {
        &self.src.src[self.src.index]
    }

    /// Whether there is a current token, and it is of the kind `token_type`.
    fn at_kind(&self, token_type: TokenType) -> (r: bool)
        ensures
            r == (self.src.index < self.toks().len() && self.toks()[self.src.index as int].token_type
                == token_type),
    {
        self.src.index < self.src.src.len() && self.src.src[self.src.index].token_type == token_type
    }

    /// Passes the white space at the current place, and writes its line feeds.
    pub fn skip_ws(&mut self) -> (r: Result<(), PreprocessorError>)
        requires
            old(self).wf(),
        ensures
            final(self).src.src == old(self).src.src,
            final(self).wf(),
            match skip_ws(old(self).toks(), old(self)@) {
                Some(st) => r is Ok && final(self)@ == st,
                None => r matches Err(PreprocessorError::Unknown),
            },
    {
        while self.src.index < self.src.src.len() && self.src.src[self.src.index].token_type
            == TokenType::WS
            invariant
                self.wf(),
                self.src.src == old(self).src.src,
                skip_ws(old(self).toks(), old(self)@) == skip_ws(self.toks(), self@),
            decreases self.src.src@.len() - self.src.index,
        {
            let chars = chars_of(self.src.src[self.src.index].literal.as_str());
            let ghost start = self.plain@;
            let ghost src0 = self.src;
            let ghost macros0 = self.macros;
            let mut k: usize = 0;
            assert(self.toks()[self.src.index as int].literal == chars@);
            while k < chars.len()
                invariant
                    k <= chars.len(),
                    self.src == src0,
                    self.macros == macros0,
                    self.plain@ == start + line_feeds(chars@, k as nat),
                decreases chars.len() - k,
            {
                if chars[k] == '\n' {
                    push_char(&mut self.plain, '\n');
                }
                k += 1;
                assert(self.plain@ =~= start + line_feeds(chars@, k as nat));
            }
            self.src.index += 1;
        }
        if self.src.index >= self.src.src.len() {
            return failed();
        }
        Ok(())
    }
}

impl Preprocessor {
    /// Passes white space and the token behind it, which has to be of the
    /// kind `token_type`, and returns that token.
    pub fn expect(&mut self, token_type: TokenType) -> (r: Result<Token, PreprocessorError>)
        requires
            old(self).wf(),
        ensures
            final(self).src.src == old(self).src.src,
            final(self).wf(),
            match expect(old(self).toks(), old(self)@, token_type) {
                Some((st, token)) => r matches Ok(found) && found@ == token && final(self)@ == st,
                None => r matches Err(PreprocessorError::Unknown),
            },
    {
        match self.skip_ws() {
            Ok(_) => {},
            Err(e) => {
                return Err(e);
            },
        }
        proof {
            lemma_skip_ws_follows(old(self).toks(), old(self)@);
            assert(self.toks().len() == self.src.src.len());
        }
        let token = self.src.src[self.src.index].clone();
        self.src.index += 1;
        if token.token_type != token_type {
            return failed();
        }
        Ok(token)
    }

    /// The place of the first macro named `name`, if there is one.
    pub fn macro_index(&self, name: &String) -> (r: Option<usize>)
        ensures
            ({
                let at = macro_position(self@.macros, name@, 0);
                match r {
                    Some(k) => k == at && at < self@.macros.len(),
                    None => at >= self@.macros.len(),
                }
            }),
    {
        let mut k: usize = 0;
        while k < self.macros.len()
            invariant
                k <= self.macros.len(),
                macro_position(self@.macros, name@, 0) == macro_position(
                    self@.macros,
                    name@,
                    k as int,
                ),
            decreases self.macros.len() - k,
        {
            if self.macros[k].name == *name {
                return Some(k);
            }
            k += 1;
        }
        None
    }

    /// The first macro named `name`, if there is one.
    pub fn find_macro(&mut self, name: String) -> (r: Option<&Macro>)
        ensures
            *final(self) == *old(self),
            ({
                let at = macro_position(old(self)@.macros, name@, 0);
                match r {
                    Some(m) => at < old(self)@.macros.len() && m@ == old(self)@.macros[at],
                    None => at >= old(self)@.macros.len(),
                }
            }),
    {
        match self.macro_index(&name) {
            Some(k) => Some(&self.macros[k]),
            None => None,
        }
    }

    /// Adds a macro behind those that are known.
    pub fn add_macro(&mut self, macro_: Macro)
        ensures
            final(self).src == old(self).src,
            final(self)@ == (PrepState { macros: old(self)@.macros.push(macro_@), ..old(self)@ }),
    {
        self.macros.push(macro_);
        assert(self@.macros =~= old(self)@.macros.push(macro_@));
    }

    /// The text that was written.
    pub fn get_processed(&self) -> (text: String)
        ensures
            text@ == self@.plain,
    {
        self.plain.clone()
    }

    /// The argument that goes with the parameter `param`.
    fn argument_of(params: &Vec<String>, args: &Vec<String>, param: &String) -> (r: Option<usize>)
        ensures
            match param_value(texts(*params), texts(*args), param@, 0) {
                Some(value) => r matches Some(k) && k < args@.len() && args@[k as int]@ == value,
                None => r is None,
            },
    {
        let mut k: usize = 0;
        while k < params.len() && k < args.len()
            invariant
                k <= params.len(),
                k <= args.len(),
                param_value(texts(*params), texts(*args), param@, 0) == param_value(
                    texts(*params),
                    texts(*args),
                    param@,
                    k as int,
                ),
            decreases params.len() - k,
        {
            if params[k] == *param {
                return Some(k);
            }
            k += 1;
        }
        None
    }

    /// Writes `text`, or expands it where it calls a macro.
    pub fn expand_identstr(&mut self, text: String, fuel: usize) -> (r: Result<(), PreprocessorError>)
        requires
            old(self).wf(),
        ensures
            final(self).src.src == old(self).src.src,
            final(self).wf(),
            match expand_identstr(old(self).toks(), old(self)@, text@, fuel as nat) {
                Some(st) => r is Ok && final(self)@ == st,
                None => r matches Err(PreprocessorError::Unknown),
            },
        decreases fuel, 0nat, 0nat,
    {
        let chars = chars_of(text.as_str());
        let name = name_called(&chars);
        match self.macro_index(&name) {
            Some(at) => {
                if fuel == 0 {
                    return failed();
                }
                let macro_ = self.macros[at].duplicate();
                let p = paren_index(&chars);
                if p < chars.len() {
                    let args = split_arguments(&chars, p);
                    self.expand_macro(&macro_, args, fuel - 1)
                } else {
                    self.process_macro_find(&macro_, fuel - 1)
                }
            },
            None => {
                self.plain.append(text.as_str());
                Ok(())
            },
        }
    }

    /// Expands a macro, with the arguments that the tokens give it.
    pub fn process_macro_find(&mut self, macro_: &Macro, fuel: usize) -> (r: Result<
        (),
        PreprocessorError,
    >)
        requires
            old(self).wf(),
        ensures
            final(self).src.src == old(self).src.src,
            final(self).wf(),
            match expand_call(old(self).toks(), old(self)@, macro_@, fuel as nat) {
                Some(st) => r is Ok && final(self)@ == st,
                None => r matches Err(PreprocessorError::Unknown),
            },
        decreases fuel, 3nat, 0nat,
    {
        if self.src.index >= self.src.src.len() {
            return failed();
        }
        if self.src.src[self.src.index].token_type == TokenType::LPAREN {
            self.src.index += 1;
            let mut count: usize = 1;
            let mut args: Vec<String> = Vec::new();
            let mut latest = String::new();
            let mut open = true;
            let ghost toks = self.toks();
            let ghost start = self@;
            assert(texts(args) =~= Seq::<Seq<char>>::empty());
            while open && self.src.index < self.src.src.len()
                invariant
                    self.wf(),
                    self.src.src == old(self).src.src,
                    self.plain == old(self).plain,
                    self.macros == old(self).macros,
                    toks == self.toks(),
                    open ==> 1 <= count <= self.src.index,
                    open ==> read_args(toks, start, 1, Seq::empty(), Seq::empty()) == read_args(
                        toks,
                        self@,
                        count as int,
                        latest@,
                        texts(args),
                    ),
                    !open ==> read_args(toks, start, 1, Seq::empty(), Seq::empty()) == (ArgsRead {
                        state: self@,
                        latest: latest@,
                        args: texts(args),
                    }),
                decreases self.src.src@.len() - self.src.index, open as int,
            {
                let kind = self.src.src[self.src.index].token_type;
                let ghost before = texts(args);
                if kind == TokenType::LPAREN {
                    count += 1;
                    push_char(&mut latest, '(');
                    self.src.index += 1;
                } else if kind == TokenType::RPAREN {
                    if count == 1 {
                        open = false;
                    } else {
                        count -= 1;
                        push_char(&mut latest, ')');
                        self.src.index += 1;
                    }
                } else if kind == TokenType::COMMA {
                    if count == 1 {
                        args.push(latest);
                        latest = String::new();
                        assert(texts(args) =~= before.push(args@[args@.len() - 1]@));
                    } else {
                        push_char(&mut latest, ',');
                    }
                    self.src.index += 1;
                } else {
                    latest.append(self.src.src[self.src.index].literal.as_str());
                    self.src.index += 1;
                }
            }
            if latest.as_str().unicode_len() > 0 {
                let ghost before = texts(args);
                args.push(latest);
                assert(texts(args) =~= before.push(args@[args@.len() - 1]@));
            }
            match self.expect(TokenType::RPAREN) {
                Ok(_) => {},
                Err(e) => {
                    return Err(e);
                },
            }
            self.expand_macro(macro_, args, fuel)
        } else {
            let args: Vec<String> = Vec::new();
            assert(texts(args) =~= Seq::<Seq<char>>::empty());
            self.expand_macro(macro_, args, fuel)
        }
    }

    /// Expands the body of a macro for the arguments `args`.
    pub fn expand_macro(&mut self, macro_: &Macro, args: Vec<String>, fuel: usize) -> (r: Result<
        (),
        PreprocessorError,
    >)
        requires
            old(self).wf(),
        ensures
            final(self).src.src == old(self).src.src,
            final(self).wf(),
            match expand_macro(old(self).toks(), old(self)@, macro_@, texts(args), fuel as nat) {
                Some(st) => r is Ok && final(self)@ == st,
                None => r matches Err(PreprocessorError::Unknown),
            },
        decreases fuel, 2nat, 0nat,
    {
        let ghost toks = self.toks();
        let ghost m = macro_@;
        let mut k: usize = 0;
        while k < macro_.body.len()
            invariant
                k <= macro_.body.len(),
                self.wf(),
                self.src.src == old(self).src.src,
                toks == self.toks(),
                m == macro_@,
                expand_nodes(toks, old(self)@, m, texts(args), 0, fuel as nat) == expand_nodes(
                    toks,
                    self@,
                    m,
                    texts(args),
                    k as int,
                    fuel as nat,
                ),
            decreases macro_.body.len() - k,
        {
            assert(m.body[k as int] == macro_.body@[k as int]@);
            match &macro_.body[k] {
                BodyNode::Lexical(content) => {
                    if fuel == 0 {
                        return failed();
                    }
                    match self.expand_identstr(content.clone(), fuel - 1) {
                        Ok(_) => {},
                        Err(e) => {
                            return Err(e);
                        },
                    }
                },
                BodyNode::Param(param) => {
                    match Preprocessor::argument_of(&macro_.params, &args, param) {
                        Some(at) => {
                            if fuel == 0 {
                                return failed();
                            }
                            match self.expand_identstr(args[at].clone(), fuel - 1) {
                                Ok(_) => {},
                                Err(e) => {
                                    return Err(e);
                                },
                            }
                        },
                        None => {},
                    }
                },
                BodyNode::ArgIteration(body) => {
                    if fuel == 0 {
                        return failed();
                    }
                    let mut params = clone_texts(&macro_.params);
                    let ghost before = texts(params);
                    params.push(String::from_str("arg"));
                    assert(texts(params) =~= before.push(arg_name()));
                    let repeated = Macro::new(macro_.name.clone(), params, clone_nodes(body));
                    match self.expand_each(&repeated, &args, fuel - 1) {
                        Ok(_) => {},
                        Err(e) => {
                            return Err(e);
                        },
                    }
                },
            }
            k += 1;
        }
        Ok(())
    }

    /// Expands a macro once for each of the arguments, with that argument as its only one.
    pub fn expand_each(&mut self, macro_: &Macro, args: &Vec<String>, fuel: usize) -> (r: Result<
        (),
        PreprocessorError,
    >)
        requires
            old(self).wf(),
        ensures
            final(self).src.src == old(self).src.src,
            final(self).wf(),
            match expand_each_arg(old(self).toks(), old(self)@, macro_@, texts(*args), 0, fuel as nat) {
                Some(st) => r is Ok && final(self)@ == st,
                None => r matches Err(PreprocessorError::Unknown),
            },
        decreases fuel, 3nat, 0nat,
    {
        let ghost toks = self.toks();
        let mut j: usize = 0;
        while j < args.len()
            invariant
                j <= args.len(),
                self.wf(),
                self.src.src == old(self).src.src,
                toks == self.toks(),
                expand_each_arg(toks, old(self)@, macro_@, texts(*args), 0, fuel as nat)
                    == expand_each_arg(toks, self@, macro_@, texts(*args), j as int, fuel as nat),
            decreases args.len() - j,
        {
            let mut one: Vec<String> = Vec::new();
            one.push(args[j].clone());
            assert(texts(one) =~= seq![texts(*args)[j as int]]);
            match self.expand_macro(macro_, one, fuel) {
                Ok(_) => {},
                Err(e) => {
                    return Err(e);
                },
            }
            j += 1;
        }
        Ok(())
    }

    /// Expands a macro with the arguments that the text `s` writes out.
    pub fn find_str_param_macro(&mut self, macro_: &Macro, s: String, fuel: usize) -> (r: Result<
        (),
        PreprocessorError,
    >)
        requires
            old(self).wf(),
        ensures
            final(self).src.src == old(self).src.src,
            final(self).wf(),
            first_paren(s@, 0) >= s@.len() ==> r is Ok && *final(self) == *old(self),
            first_paren(s@, 0) < s@.len() ==> match expand_macro(
                old(self).toks(),
                old(self)@,
                macro_@,
                split_text(s@, first_paren(s@, 0), 0, Seq::empty(), Seq::empty()),
                fuel as nat,
            ) {
                Some(st) => r is Ok && final(self)@ == st,
                None => r matches Err(PreprocessorError::Unknown),
            },
        decreases fuel, 3nat, 0nat,
    {
        let chars = chars_of(s.as_str());
        let p = paren_index(&chars);
        if p >= chars.len() {
            return Ok(());
        }
        let args = split_arguments(&chars, p);
        self.expand_macro(macro_, args, fuel)
    }

    /// Reads an identifier and writes it, or expands it where it calls a macro.
    pub fn process_ident(&mut self) -> (r: Result<(), PreprocessorError>)
        requires
            old(self).wf(),
        ensures
            final(self).src.src == old(self).src.src,
            final(self).wf(),
            match expect(old(self).toks(), old(self)@, TokenType::IDENTIFIER) {
                Some((st, token)) => match expand_identstr(
                    old(self).toks(),
                    st,
                    token.literal,
                    EXPANSION_FUEL as nat,
                ) {
                    Some(after) => r is Ok && final(self)@ == after,
                    None => r matches Err(PreprocessorError::Unknown),
                },
                None => r matches Err(PreprocessorError::Unknown),
            },
    {
        let token = match self.expect(TokenType::IDENTIFIER) {
            Ok(token) => token,
            Err(e) => {
                return Err(e);
            },
        };
        self.expand_identstr(token.literal, EXPANSION_FUEL)
    }
}

/// Whether a state lies behind another: its index is not smaller, it lies
/// within the tokens, and the macros are the same.
pub open spec fn follows(toks: Seq<TokenModel>, before: PrepState, after: PrepState) -> bool {
    before.index <= after.index <= toks.len() && after.macros == before.macros
}

/// A token that was expected lies before the state that follows it.
pub proof fn lemma_expect_follows(toks: Seq<TokenModel>, st: PrepState, token_type: TokenType)
    ensures
        expect(toks, st, token_type) matches Some((after, _)) ==> follows(toks, st, after) && st.index
            < after.index,
{
    lemma_skip_ws_follows(toks, st);
}

/// The reading of arguments leaves a state that follows the one it began in.
pub proof fn lemma_read_args_follows(
    toks: Seq<TokenModel>,
    st: PrepState,
    count: int,
    latest: Seq<char>,
    args: Seq<Seq<char>>,
)
    requires
        st.index <= toks.len(),
    ensures
        follows(toks, st, read_args(toks, st, count, latest, args).state),
    decreases toks.len() - st.index,
{
    if count > 0 && 0 <= st.index < toks.len() {
        let tk = toks[st.index];
        let next = PrepState { index: st.index + 1, ..st };
        if tk.token_type == TokenType::LPAREN {
            lemma_read_args_follows(toks, next, count + 1, latest.push('('), args);
        } else if tk.token_type == TokenType::RPAREN {
            if count - 1 != 0 {
                lemma_read_args_follows(toks, next, count - 1, latest.push(')'), args);
            }
        } else if tk.token_type == TokenType::COMMA {
            if count == 1 {
                lemma_read_args_follows(toks, next, count, Seq::empty(), args.push(latest));
            } else {
                lemma_read_args_follows(toks, next, count, latest.push(','), args);
            }
        } else {
            lemma_read_args_follows(toks, next, count, latest + tk.literal, args);
        }
    }
}

/// The expansion of a text leaves a state that follows the one it began in.
pub proof fn lemma_identstr_follows(toks: Seq<TokenModel>, st: PrepState, text: Seq<char>, fuel: nat)
    requires
        st.index <= toks.len(),
    ensures
        expand_identstr(toks, st, text, fuel) matches Some(after) ==> follows(toks, st, after),
    decreases fuel, 0nat, 0nat,
{
    let at = macro_position(st.macros, called_name(text), 0);
    if at < st.macros.len() && fuel > 0 {
        if first_paren(text, 0) < text.len() {
            lemma_nodes_follow(
                toks,
                st,
                st.macros[at],
                split_text(text, first_paren(text, 0), 0, Seq::empty(), Seq::empty()),
                0,
                (fuel - 1) as nat,
            );
        } else {
            lemma_call_follows(toks, st, st.macros[at], (fuel - 1) as nat);
        }
    }
}

/// The expansion of a call leaves a state that follows the one it began in.
pub proof fn lemma_call_follows(toks: Seq<TokenModel>, st: PrepState, m: MacroModel, fuel: nat)
    requires
        st.index <= toks.len(),
    ensures
        expand_call(toks, st, m, fuel) matches Some(after) ==> follows(toks, st, after),
    decreases fuel, 3nat, 0nat,
{
    if 0 <= st.index < toks.len() {
        if toks[st.index].token_type == TokenType::LPAREN {
            let start = PrepState { index: st.index + 1, ..st };
            let read = read_args(toks, start, 1, Seq::empty(), Seq::empty());
            lemma_read_args_follows(toks, start, 1, Seq::empty(), Seq::empty());
            let args = if read.latest.len() > 0 {
                read.args.push(read.latest)
            } else {
                read.args
            };
            lemma_expect_follows(toks, read.state, TokenType::RPAREN);
            match expect(toks, read.state, TokenType::RPAREN) {
                Some((after, _)) => {
                    lemma_nodes_follow(toks, after, m, args, 0, fuel);
                },
                None => {},
            }
        } else {
            lemma_nodes_follow(toks, st, m, Seq::empty(), 0, fuel);
        }
    }
}

/// The expansion of a body leaves a state that follows the one it began in.
pub proof fn lemma_nodes_follow(
    toks: Seq<TokenModel>,
    st: PrepState,
    m: MacroModel,
    args: Seq<Seq<char>>,
    k: int,
    fuel: nat,
)
    requires
        st.index <= toks.len(),
    ensures
        expand_nodes(toks, st, m, args, k, fuel) matches Some(after) ==> follows(toks, st, after),
        expand_macro(toks, st, m, args, fuel) == expand_nodes(toks, st, m, args, 0, fuel),
    decreases fuel, 1nat, m.body.len() - k,
{
    if 0 <= k < m.body.len() {
        match m.body[k] {
            BodyNodeModel::Lexical(content) => {
                if fuel > 0 {
                    lemma_identstr_follows(toks, st, content, (fuel - 1) as nat);
                    match expand_identstr(toks, st, content, (fuel - 1) as nat) {
                        Some(next) => {
                            lemma_nodes_follow(toks, next, m, args, k + 1, fuel);
                        },
                        None => {},
                    }
                }
            },
            BodyNodeModel::Param(param) => match param_value(m.params, args, param, 0) {
                Some(value) => {
                    if fuel > 0 {
                        lemma_identstr_follows(toks, st, value, (fuel - 1) as nat);
                        match expand_identstr(toks, st, value, (fuel - 1) as nat) {
                            Some(next) => {
                                lemma_nodes_follow(toks, next, m, args, k + 1, fuel);
                            },
                            None => {},
                        }
                    }
                },
                None => {
                    lemma_nodes_follow(toks, st, m, args, k + 1, fuel);
                },
            },
            BodyNodeModel::ArgIteration(body) => {
                if fuel > 0 {
                    let repeated = MacroModel { name: m.name, body, params: m.params.push(arg_name()) };
                    lemma_each_arg_follows(toks, st, repeated, args, 0, (fuel - 1) as nat);
                    match expand_each_arg(toks, st, repeated, args, 0, (fuel - 1) as nat) {
                        Some(next) => {
                            lemma_nodes_follow(toks, next, m, args, k + 1, fuel);
                        },
                        None => {},
                    }
                }
            },
        }
    }
}

/// The expansion for each argument leaves a state that follows the one it began in.
pub proof fn lemma_each_arg_follows(
    toks: Seq<TokenModel>,
    st: PrepState,
    m: MacroModel,
    args: Seq<Seq<char>>,
    j: int,
    fuel: nat,
)
    requires
        st.index <= toks.len(),
    ensures
        expand_each_arg(toks, st, m, args, j, fuel) matches Some(after) ==> follows(toks, st, after),
    decreases fuel, 3nat, args.len() - j,
{
    if 0 <= j < args.len() {
        lemma_nodes_follow(toks, st, m, seq![args[j]], 0, fuel);
        match expand_macro(toks, st, m, seq![args[j]], fuel) {
            Some(next) => {
                lemma_each_arg_follows(toks, next, m, args, j + 1, fuel);
            },
            None => {},
        }
    }
}

/// A piece of a body lies before the state that follows it.
pub proof fn lemma_bnode_follows(toks: Seq<TokenModel>, st: PrepState, params: Seq<Seq<char>>)
    ensures
        process_bnode(toks, st, params) matches Some((after, _)) ==> follows(toks, st, after)
            && st.index < after.index,
    decreases toks.len() - st.index, 0nat,
{
    if 0 <= st.index < toks.len() {
        let cur = toks[st.index];
        let next = PrepState { index: st.index + 1, ..st };
        if cur.token_type == TokenType::NOT && st.index + 1 < toks.len() && contains_text(
            toks[st.index + 1].literal,
            repeat_mark(),
        ) {
            lemma_expect_follows(toks, next, TokenType::IDENTIFIER);
            match expect(toks, next, TokenType::IDENTIFIER) {
                Some((named, _)) => {
                    lemma_expect_follows(toks, named, TokenType::LBRACE);
                    match expect(toks, named, TokenType::LBRACE) {
                        Some((opened, _)) => {
                            lemma_block_follows(
                                toks,
                                opened,
                                params.push(arg_name()),
                                1,
                                Seq::empty(),
                            );
                            match read_block(toks, opened, params.push(arg_name()), 1, Seq::empty()) {
                                Some((closing, _)) => {
                                    lemma_expect_follows(toks, closing, TokenType::RBRACE);
                                },
                                None => {},
                            }
                        },
                        None => {},
                    }
                },
                None => {},
            }
        }
    }
}

/// The reading of a repeated body leaves a state that follows the one it began in.
pub proof fn lemma_block_follows(
    toks: Seq<TokenModel>,
    st: PrepState,
    params: Seq<Seq<char>>,
    braces: int,
    body: Seq<BodyNodeModel>,
)
    requires
        st.index <= toks.len(),
    ensures
        read_block(toks, st, params, braces, body) matches Some((after, _)) ==> follows(
            toks,
            st,
            after,
        ),
    decreases toks.len() - st.index, 1nat,
{
    if braces > 0 && 0 <= st.index < toks.len() && braces_with(braces, toks[st.index]) != 0 {
        lemma_bnode_follows(toks, st, params);
        match process_bnode(toks, st, params) {
            Some((next, node)) => {
                lemma_block_follows(
                    toks,
                    next,
                    params,
                    braces_with(braces, toks[st.index]),
                    body.push(node),
                );
            },
            None => {},
        }
    }
}

/// The reading of parameters leaves a state that follows the one it began in.
pub proof fn lemma_params_follow(toks: Seq<TokenModel>, st: PrepState, params: Seq<Seq<char>>)
    ensures
        read_params(toks, st, params) matches Some((after, _)) ==> follows(toks, st, after),
    decreases toks.len() - st.index,
{
    if 0 <= st.index < toks.len() && toks[st.index].token_type != TokenType::RPAREN {
        lemma_expect_follows(toks, st, TokenType::IDENTIFIER);
        match expect(toks, st, TokenType::IDENTIFIER) {
            Some((named, name)) => {
                if named.index < toks.len() {
                    if toks[named.index].token_type == TokenType::COMMA {
                        lemma_params_follow(
                            toks,
                            PrepState { index: named.index + 1, ..named },
                            params.push(name.literal),
                        );
                    } else {
                        lemma_params_follow(toks, named, params.push(name.literal));
                    }
                }
            },
            None => {},
        }
    }
}

/// The reading of a body leaves a state that follows the one it began in.
pub proof fn lemma_body_follows(
    toks: Seq<TokenModel>,
    st: PrepState,
    params: Seq<Seq<char>>,
    braces: int,
    body: Seq<BodyNodeModel>,
)
    requires
        st.index <= toks.len(),
    ensures
        read_body(toks, st, params, braces, body) matches Some((after, _)) ==> follows(
            toks,
            st,
            after,
        ),
    decreases toks.len() - st.index,
{
    if braces > 0 && 0 <= st.index < toks.len() && braces_with(braces, toks[st.index]) > 0 {
        lemma_bnode_follows(toks, st, params);
        match process_bnode(toks, st, params) {
            Some((next, node)) => {
                lemma_body_follows(
                    toks,
                    next,
                    params,
                    braces_with(braces, toks[st.index]),
                    body.push(node),
                );
            },
            None => {},
        }
    }
}

/// The definition of a macro lies before the state that follows it, which
/// has one macro more.
pub proof fn lemma_macrodef_follows(toks: Seq<TokenModel>, st: PrepState)
    ensures
        process_macrodef(toks, st) matches Some(after) ==> st.index < after.index <= toks.len(),
{
    lemma_expect_follows(toks, st, TokenType::NOT);
    match expect(toks, st, TokenType::NOT) {
        Some((s1, _)) => {
            lemma_expect_follows(toks, s1, TokenType::IDENTIFIER);
            match expect(toks, s1, TokenType::IDENTIFIER) {
                Some((s2, _)) => {
                    lemma_expect_follows(toks, s2, TokenType::IDENTIFIER);
                    match expect(toks, s2, TokenType::IDENTIFIER) {
                        Some((s3, _)) => {
                            lemma_expect_follows(toks, s3, TokenType::COLON);
                            match expect(toks, s3, TokenType::COLON) {
                                Some((s4, _)) => {
                                    lemma_skip_ws_follows(toks, s4);
                                    match skip_ws(toks, s4) {
                                        Some(s5) => {
                                            lemma_macro_params_follow(toks, s5);
                                            match macro_params(toks, s5) {
                                                Some((s6, params)) => {
                                                    lemma_skip_ws_follows(toks, s6);
                                                    match skip_ws(toks, s6) {
                                                        Some(s7) => {
                                                            lemma_macro_body_follows(toks, s7, params);
                                                        },
                                                        None => {},
                                                    }
                                                },
                                                None => {},
                                            }
                                        },
                                        None => {},
                                    }
                                },
                                None => {},
                            }
                        },
                        None => {},
                    }
                },
                None => {},
            }
        },
        None => {},
    }
}

/// The parameters of a macro leave a state that follows the one they began in.
pub proof fn lemma_macro_params_follow(toks: Seq<TokenModel>, st: PrepState)
    requires
        st.index <= toks.len(),
    ensures
        macro_params(toks, st) matches Some((after, _)) ==> follows(toks, st, after),
{
    if 0 <= st.index < toks.len() && toks[st.index].token_type == TokenType::LPAREN {
        let start = PrepState { index: st.index + 1, ..st };
        lemma_params_follow(toks, start, Seq::empty());
        match read_params(toks, start, Seq::empty()) {
            Some((at, _)) => {
                lemma_expect_follows(toks, at, TokenType::RPAREN);
            },
            None => {},
        }
    }
}

/// The body of a macro leaves a state that follows the one it began in.
pub proof fn lemma_macro_body_follows(toks: Seq<TokenModel>, st: PrepState, params: Seq<Seq<char>>)
    requires
        st.index <= toks.len(),
    ensures
        macro_body(toks, st, params) matches Some((after, _)) ==> follows(toks, st, after),
{
    if 0 <= st.index < toks.len() {
        if toks[st.index].token_type == TokenType::LBRACE {
            let start = PrepState { index: st.index + 1, ..st };
            lemma_skip_ws_follows(toks, start);
            match skip_ws(toks, start) {
                Some(inside) => {
                    lemma_body_follows(toks, inside, params, 1, Seq::empty());
                },
                None => {},
            }
        } else {
            lemma_bnode_follows(toks, st, params);
        }
    }
}

impl Preprocessor {
    /// The number of open braces with the current token counted in.
    fn braces_now(&self, braces: usize) -> (r: usize)
        requires
            self.src.index < self.src.src@.len(),
            1 <= braces <= self.src.index,
        ensures
            r == braces_with(braces as int, self.toks()[self.src.index as int]),
    {
        assert(self.src.src@.len() == self.src.src.len());
        let kind = self.src.src[self.src.index].token_type;
        if kind == TokenType::LBRACE {
            braces + 1
        } else if kind == TokenType::RBRACE {
            braces - 1
        } else {
            braces
        }
    }

    /// Reads the pieces of a repeated body, up to the brace that closes it.
    pub fn read_block(&mut self, params: &Vec<String>) -> (r: Result<Vec<BodyNode>, PreprocessorError>)
        requires
            old(self).wf(),
            old(self).src.index >= 1,
        ensures
            final(self).src.src == old(self).src.src,
            final(self).wf(),
            match read_block(old(self).toks(), old(self)@, texts(*params), 1, Seq::empty()) {
                Some((st, body)) => r matches Ok(found) && nodes_model(found) == body && final(self)@
                    == st,
                None => r matches Err(PreprocessorError::Unknown),
            },
        decreases old(self).src.src@.len() - old(self).src.index, 1nat,
    {
        let ghost toks = self.toks();
        let mut body: Vec<BodyNode> = Vec::new();
        let mut braces: usize = 1;
        let mut open = true;
        assert(nodes_model(body) =~= Seq::<BodyNodeModel>::empty());
        while open
            invariant
                self.wf(),
                self.src.src == old(self).src.src,
                toks == self.toks(),
                old(self).src.index <= self.src.index,
                open ==> 1 <= braces <= self.src.index,
                open ==> read_block(toks, old(self)@, texts(*params), 1, Seq::empty()) == read_block(
                    toks,
                    self@,
                    texts(*params),
                    braces as int,
                    nodes_model(body),
                ),
                !open ==> read_block(toks, old(self)@, texts(*params), 1, Seq::empty()) == Some(
                    (self@, nodes_model(body)),
                ),
            decreases self.src.src@.len() - self.src.index, open as int,
        {
            if self.src.index >= self.src.src.len() {
                return failed();
            }
            let now = self.braces_now(braces);
            if now == 0 {
                open = false;
            } else {
                proof {
                    lemma_bnode_follows(toks, self@, texts(*params));
                }
                let ghost before = nodes_model(body);
                let node = match self.process_bnode(clone_texts(params)) {
                    Ok(node) => node,
                    Err(e) => {
                        return Err(e);
                    },
                };
                body.push(node);
                assert(nodes_model(body) =~= before.push(body@[body@.len() - 1]@));
                braces = now;
            }
        }
        Ok(body)
    }

    /// Reads a piece of the body of a macro.
    pub fn process_bnode(&mut self, params: Vec<String>) -> (r: Result<BodyNode, PreprocessorError>)
        requires
            old(self).wf(),
        ensures
            final(self).src.src == old(self).src.src,
            final(self).wf(),
            match process_bnode(old(self).toks(), old(self)@, texts(params)) {
                Some((st, node)) => r matches Ok(found) && found@ == node && final(self)@ == st,
                None => r matches Err(PreprocessorError::Unknown),
            },
        decreases old(self).src.src@.len() - old(self).src.index, 0nat,
    {
        let ghost toks = self.toks();
        if self.src.index >= self.src.src.len() {
            return failed();
        }
        let kind = self.src.src[self.src.index].token_type;
        let literal = self.src.src[self.src.index].literal.clone();
        if kind == TokenType::IDENTIFIER {
            self.src.index += 1;
            if has_name(&params, &literal) {
                Ok(BodyNode::Param(literal))
            } else {
                Ok(BodyNode::Lexical(literal))
            }
        } else if kind == TokenType::NOT {
            if self.src.src.len() - self.src.index < 2 {
                return failed();
            }
            let next = chars_of(self.src.src[self.src.index + 1].literal.as_str());
            let mark = chars_of("for::arg");
            if contains(&next, &mark) {
                self.src.index += 1;
                let ghost first = self@;
                match self.expect(TokenType::IDENTIFIER) {
                    Ok(_) => {},
                    Err(e) => {
                        return Err(e);
                    },
                }
                let ghost named = self@;
                match self.expect(TokenType::LBRACE) {
                    Ok(_) => {},
                    Err(e) => {
                        return Err(e);
                    },
                }
                proof {
                    lemma_expect_follows(toks, first, TokenType::IDENTIFIER);
                    lemma_expect_follows(toks, named, TokenType::LBRACE);
                }
                let mut inner = clone_texts(&params);
                let ghost before = texts(inner);
                inner.push(String::from_str("arg"));
                assert(texts(inner) =~= before.push(arg_name()));
                let body = match self.read_block(&inner) {
                    Ok(body) => body,
                    Err(e) => {
                        return Err(e);
                    },
                };
                match self.expect(TokenType::RBRACE) {
                    Ok(_) => {},
                    Err(e) => {
                        return Err(e);
                    },
                }
                Ok(BodyNode::ArgIteration(body))
            } else {
                self.src.index += 1;
                Ok(BodyNode::Lexical(literal))
            }
        } else {
            self.src.index += 1;
            Ok(BodyNode::Lexical(literal))
        }
    }

    /// Reads the names of the parameters of a macro, up to the closing parenthesis.
    pub fn read_params(&mut self) -> (r: Result<Vec<String>, PreprocessorError>)
        requires
            old(self).wf(),
        ensures
            final(self).src.src == old(self).src.src,
            final(self).wf(),
            match read_params(old(self).toks(), old(self)@, Seq::empty()) {
                Some((st, params)) => r matches Ok(found) && texts(found) == params && final(self)@
                    == st,
                None => r matches Err(PreprocessorError::Unknown),
            },
    {
        let ghost toks = self.toks();
        let mut params: Vec<String> = Vec::new();
        assert(texts(params) =~= Seq::<Seq<char>>::empty());
        let mut open = true;
        while open
            invariant
                self.wf(),
                self.src.src == old(self).src.src,
                toks == self.toks(),
                open ==> read_params(toks, old(self)@, Seq::empty()) == read_params(
                    toks,
                    self@,
                    texts(params),
                ),
                !open ==> read_params(toks, old(self)@, Seq::empty()) == Some((self@, texts(params))),
            decreases self.src.src@.len() - self.src.index, open as int,
        {
            if self.src.index >= self.src.src.len() {
                return failed();
            }
            if self.src.src[self.src.index].token_type == TokenType::RPAREN {
                open = false;
            } else {
                proof {
                    lemma_expect_follows(toks, self@, TokenType::IDENTIFIER);
                }
                let name = match self.expect(TokenType::IDENTIFIER) {
                    Ok(token) => token.literal,
                    Err(e) => {
                        return Err(e);
                    },
                };
                let ghost before = texts(params);
                params.push(name);
                assert(texts(params) =~= before.push(params@[params@.len() - 1]@));
                if self.src.index >= self.src.src.len() {
                    return failed();
                }
                if self.src.src[self.src.index].token_type == TokenType::COMMA {
                    self.src.index += 1;
                }
            }
        }
        Ok(params)
    }

    /// Reads the parameters of a macro, where the current token opens them.
    pub fn macro_params(&mut self) -> (r: Result<Vec<String>, PreprocessorError>)
        requires
            old(self).wf(),
        ensures
            final(self).src.src == old(self).src.src,
            final(self).wf(),
            match macro_params(old(self).toks(), old(self)@) {
                Some((st, params)) => r matches Ok(found) && texts(found) == params && final(self)@
                    == st,
                None => r matches Err(PreprocessorError::Unknown),
            },
    {
        if !self.at_kind(TokenType::LPAREN) {
            let params: Vec<String> = Vec::new();
            assert(texts(params) =~= Seq::<Seq<char>>::empty());
            return Ok(params);
        }
        assert(self.toks().len() == self.src.src.len());
        self.src.index += 1;
        let params = match self.read_params() {
            Ok(params) => params,
            Err(e) => {
                return Err(e);
            },
        };
        match self.expect(TokenType::RPAREN) {
            Ok(_) => {},
            Err(e) => {
                return Err(e);
            },
        }
        Ok(params)
    }

    /// Reads the pieces of the body of a macro, up to and with the brace that closes it.
    pub fn read_body(&mut self, params: &Vec<String>) -> (r: Result<Vec<BodyNode>, PreprocessorError>)
        requires
            old(self).wf(),
            old(self).src.index >= 1,
        ensures
            final(self).src.src == old(self).src.src,
            final(self).wf(),
            match read_body(old(self).toks(), old(self)@, texts(*params), 1, Seq::empty()) {
                Some((st, body)) => r matches Ok(found) && nodes_model(found) == body && final(self)@
                    == st,
                None => r matches Err(PreprocessorError::Unknown),
            },
    {
        let ghost toks = self.toks();
        let mut body: Vec<BodyNode> = Vec::new();
        let mut braces: usize = 1;
        let mut open = true;
        assert(nodes_model(body) =~= Seq::<BodyNodeModel>::empty());
        while open
            invariant
                self.wf(),
                self.src.src == old(self).src.src,
                toks == self.toks(),
                old(self).src.index <= self.src.index,
                open ==> 1 <= braces <= self.src.index,
                open ==> read_body(toks, old(self)@, texts(*params), 1, Seq::empty()) == read_body(
                    toks,
                    self@,
                    texts(*params),
                    braces as int,
                    nodes_model(body),
                ),
                !open ==> read_body(toks, old(self)@, texts(*params), 1, Seq::empty()) == Some(
                    (self@, nodes_model(body)),
                ),
            decreases self.src.src@.len() - self.src.index, open as int,
        {
            if self.src.index >= self.src.src.len() {
                return failed();
            }
            let now = self.braces_now(braces);
            if now == 0 {
                self.src.index += 1;
                open = false;
            } else {
                proof {
                    lemma_bnode_follows(toks, self@, texts(*params));
                }
                let ghost before = nodes_model(body);
                let node = match self.process_bnode(clone_texts(params)) {
                    Ok(node) => node,
                    Err(e) => {
                        return Err(e);
                    },
                };
                body.push(node);
                assert(nodes_model(body) =~= before.push(body@[body@.len() - 1]@));
                braces = now;
            }
        }
        Ok(body)
    }

    /// Drops the line feed that a body ends in.
    fn trim(body: &mut Vec<BodyNode>)
        ensures
            nodes_model(*final(body)) == trimmed(nodes_model(*old(body))),
    {
        let n = body.len();
        if n == 0 {
            return ;
        }
        let line_feed = match &body[n - 1] {
            BodyNode::Lexical(content) => {
                let chars = chars_of(content.as_str());
                if chars.len() == 1 && chars[0] == '\n' {
                    assert(chars@ =~= seq!['\n']);
                    true
                } else {
                    assert(chars@ != seq!['\n']);
                    false
                }
            },
            _ => false,
        };
        assert(nodes_model(*body).last() == body@[n - 1]@);
        if line_feed {
            let ghost before = nodes_model(*body);
            body.pop();
            assert(nodes_model(*body) =~= before.drop_last());
        }
    }

    /// Reads the body of a macro.
    pub fn macro_body(&mut self, params: &Vec<String>) -> (r: Result<Vec<BodyNode>, PreprocessorError>)
        requires
            old(self).wf(),
        ensures
            final(self).src.src == old(self).src.src,
            final(self).wf(),
            match macro_body(old(self).toks(), old(self)@, texts(*params)) {
                Some((st, body)) => r matches Ok(found) && nodes_model(found) == body && final(self)@
                    == st,
                None => r matches Err(PreprocessorError::Unknown),
            },
    {
        let ghost toks = self.toks();
        if self.src.index >= self.src.src.len() {
            return failed();
        }
        if self.src.src[self.src.index].token_type == TokenType::LBRACE {
            self.src.index += 1;
            match self.skip_ws() {
                Ok(_) => {},
                Err(e) => {
                    return Err(e);
                },
            }
            proof {
                lemma_skip_ws_follows(
                    toks,
                    PrepState { index: old(self).src.index + 1, ..old(self)@ },
                );
            }
            let mut body = match self.read_body(params) {
                Ok(body) => body,
                Err(e) => {
                    return Err(e);
                },
            };
            Preprocessor::trim(&mut body);
            Ok(body)
        } else {
            proof {
                lemma_bnode_follows(toks, self@, texts(*params));
            }
            let node = match self.process_bnode(clone_texts(params)) {
                Ok(node) => node,
                Err(e) => {
                    return Err(e);
                },
            };
            let mut body: Vec<BodyNode> = Vec::new();
            body.push(node);
            assert(nodes_model(body) =~= seq![body@[0]@]);
            if self.src.index < self.src.src.len() {
                self.src.index += 1;
            }
            Ok(body)
        }
    }

    /// Takes in the definition of a macro.
    pub fn process_macrodef(&mut self) -> (r: Result<(), PreprocessorError>)
        requires
            old(self).wf(),
        ensures
            final(self).src.src == old(self).src.src,
            final(self).wf(),
            match process_macrodef(old(self).toks(), old(self)@) {
                Some(st) => r is Ok && final(self)@ == st,
                None => r matches Err(PreprocessorError::Unknown),
            },
    {
        match self.expect(TokenType::NOT) {
            Ok(_) => {},
            Err(e) => {
                return Err(e);
            },
        }
        match self.expect(TokenType::IDENTIFIER) {
            Ok(_) => {},
            Err(e) => {
                return Err(e);
            },
        }
        let name = match self.expect(TokenType::IDENTIFIER) {
            Ok(token) => token.literal,
            Err(e) => {
                return Err(e);
            },
        };
        match self.expect(TokenType::COLON) {
            Ok(_) => {},
            Err(e) => {
                return Err(e);
            },
        }
        match self.skip_ws() {
            Ok(_) => {},
            Err(e) => {
                return Err(e);
            },
        }
        let params = match self.macro_params() {
            Ok(params) => params,
            Err(e) => {
                return Err(e);
            },
        };
        match self.skip_ws() {
            Ok(_) => {},
            Err(e) => {
                return Err(e);
            },
        }
        let body = match self.macro_body(&params) {
            Ok(body) => body,
            Err(e) => {
                return Err(e);
            },
        };
        self.add_macro(Macro::new(name, params, body));
        Ok(())
    }

    /// Whether the definition of a macro begins at the current token.
    fn at_macrodef(&self) -> (r: bool)
        requires
            self.wf(),
        ensures
            r == defines_macro(self.toks(), self@),
    {
        assert(self.toks().len() == self.src.src.len());
        if self.src.index >= self.src.src.len() || self.src.src.len() - self.src.index < 2 {
            return false;
        }
        let keyword = String::from_str("macro");
        self.src.src[self.src.index].token_type == TokenType::NOT && self.src.src[self.src.index
            + 1].token_type == TokenType::IDENTIFIER && self.src.src[self.src.index + 1].literal
            == keyword
    }

    /// Reads the tokens to their end: writes them as they are, expands the
    /// macros that they call, and takes in the macros that they define.
    pub fn process(&mut self) -> (r: Result<(), PreprocessorError>)
        requires
            old(self).wf(),
        ensures
            final(self).src.src == old(self).src.src,
            final(self).wf(),
            match process_from(old(self).toks(), old(self)@, EXPANSION_FUEL as nat) {
                Some(st) => r is Ok && final(self)@ == st,
                None => r matches Err(PreprocessorError::Unknown),
            },
    {
        let ghost toks = self.toks();
        while self.src.index < self.src.src.len()
            invariant
                self.wf(),
                self.src.src == old(self).src.src,
                toks == self.toks(),
                process_from(toks, old(self)@, EXPANSION_FUEL as nat) == process_from(
                    toks,
                    self@,
                    EXPANSION_FUEL as nat,
                ),
            decreases self.src.src@.len() - self.src.index,
        {
            let kind = self.src.src[self.src.index].token_type;
            if kind == TokenType::IDENTIFIER {
                proof {
                    lemma_identstr_follows(
                        toks,
                        PrepState { index: self.src.index + 1, ..self@ },
                        toks[self.src.index as int].literal,
                        EXPANSION_FUEL as nat,
                    );
                    lemma_skip_ws_follows(toks, self@);
                }
                match self.process_ident() {
                    Ok(_) => {},
                    Err(e) => {
                        return Err(e);
                    },
                }
            } else if self.at_macrodef() {
                proof {
                    lemma_macrodef_follows(toks, self@);
                }
                match self.process_macrodef() {
                    Ok(_) => {},
                    Err(e) => {
                        return Err(e);
                    },
                }
            } else {
                self.plain.append(self.src.src[self.src.index].literal.as_str());
                self.src.index += 1;
            }
        }
        Ok(())
    }
}

} // verus!
