use crate::frontend::ast::{ASTNode, Expression, ExpressionModel, Literal, LiteralModel, NodeModel, Variable, nodes_model};
use crate::frontend::lexer::Lexer;
use crate::frontend::preprocessor::stream_model;
use crate::frontend::text::{integer_value, parse_integer};
use crate::frontend::token::{Token, TokenModel, TokenType};
use crate::reporter::parse::ParserError;
use vstd::prelude::*;

pub mod parser_impl;

verus! {

/// What the reading of an expression gives: the index of the token behind
/// it and the expression, or what went wrong.
pub type Parsed = Result<(int, ExpressionModel), ParserError>;

/// Whether a token of this kind can stand between two operands.
pub open spec fn is_binary_operator(kind: TokenType) -> bool {
    kind == TokenType::LOGICAL_AND || kind == TokenType::LOGICAL_OR || kind == TokenType::PLUS
        || kind == TokenType::MINUS || kind == TokenType::ASTERISK || kind == TokenType::SLASH
        || kind == TokenType::ASSIGN || kind == TokenType::PLUS_ASSIGN || kind
        == TokenType::MINUS_ASSIGN || kind == TokenType::EQ || kind == TokenType::NEQ || kind
        == TokenType::GT || kind == TokenType::GTE || kind == TokenType::LT || kind
        == TokenType::LTE
}

/// How strongly an operator binds: the higher, the stronger.
pub open spec fn precedence_of(kind: TokenType) -> u8 {
    if kind == TokenType::PLUS || kind == TokenType::MINUS {
        1
    } else if kind == TokenType::ASTERISK || kind == TokenType::SLASH || kind == TokenType::EQ
        || kind == TokenType::LT || kind == TokenType::GT || kind == TokenType::LTE || kind
        == TokenType::GTE {
        2
    } else {
        0
    }
}

/// The index behind the token at `i`, where that token is of the kind `expected`.
pub open spec fn eat(toks: Seq<TokenModel>, i: int, expected: TokenType) -> Result<
    int,
    ParserError,
> {
    if i < 0 || i >= toks.len() {
        Err(ParserError::UnexpectedEnd)
    } else if toks[i].token_type == expected {
        Ok(i + 1)
    } else {
        Err(ParserError::Expected { expected, found: toks[i].token_type })
    }
}

/// The binary expression of two operands and the text of an operator.
pub open spec fn binary(left: ExpressionModel, op: Seq<char>, right: ExpressionModel) -> ExpressionModel {
    ExpressionModel::BINARY { left: Box::new(left), right: Box::new(right), op }
}

/// The right operand `right` with the stronger expression `next` that was
/// read behind the operator `op`: a variable goes to the right of the
/// operand, anything else to its left.
pub open spec fn bound(right: ExpressionModel, op: Seq<char>, next: ExpressionModel) -> ExpressionModel {
    if next is VARIABLE {
        binary(right, op, next)
    } else {
        binary(next, op, right)
    }
}

/// The operand at `i`: a number, a name, an expression between
/// parentheses, or an operand with operators before it, which are passed.
pub open spec fn parse_factor(toks: Seq<TokenModel>, i: int) -> Parsed
    decreases toks.len() - i, 0nat,
{
    if i < 0 || i >= toks.len() {
        Err(ParserError::UnexpectedEnd)
    } else {
        let cur = toks[i];
        if cur.token_type == TokenType::INTEGER {
            match integer_value(cur.literal) {
                Some(v) => Ok((i + 1, ExpressionModel::LITERAL(LiteralModel::INTEGER(v)))),
                None => Err(ParserError::WrongLiteral),
            }
        } else if cur.token_type == TokenType::FLOAT {
            Ok((i + 1, ExpressionModel::LITERAL(LiteralModel::FLOAT(cur.literal))))
        } else if cur.token_type == TokenType::IDENTIFIER {
            Ok((i + 1, ExpressionModel::VARIABLE(cur.literal)))
        } else if cur.token_type == TokenType::LPAREN {
            match parse_expression(toks, i + 1, 0) {
                Ok((j, inner)) => match eat(toks, j, TokenType::RPAREN) {
                    Ok(k) => Ok((k, inner)),
                    Err(e) => Err(e),
                },
                Err(e) => Err(e),
            }
        } else if is_binary_operator(cur.token_type) {
            parse_factor(toks, i + 1)
        } else {
            Err(ParserError::UnexpectedToken { found: cur.token_type })
        }
    }
}

/// The expression at `i`, of operators that bind no weaker than `precedence`.
/// An operand always ends behind where it begins: the test of that lets
/// the definition end, and never fails.
pub open spec fn parse_expression(toks: Seq<TokenModel>, i: int, precedence: u8) -> Parsed
    decreases toks.len() - i, 1nat,
{
    match parse_factor(toks, i) {
        Ok((j, left)) => if j <= i || j > toks.len() {
            Err(ParserError::UnexpectedEnd)
        } else {
            climb(toks, j, precedence, left)
        },
        Err(e) => Err(e),
    }
}

/// The expression that begins with `left` and goes on at `j`: as long as
/// an operator that binds no weaker than `precedence` follows, it takes
/// the operand behind it; where a stronger operator follows that operand,
/// what that operator binds is read first. A token must follow each such
/// operand. What is read always ends behind where it begins: the tests of
/// that let the definition end.
pub open spec fn climb(toks: Seq<TokenModel>, j: int, precedence: u8, left: ExpressionModel) -> Parsed
    decreases toks.len() - j, 0nat,
{
    if j < 0 || j >= toks.len() {
        Ok((j, left))
    } else {
        let op = toks[j];
        let rank = precedence_of(op.token_type);
        if !is_binary_operator(op.token_type) || rank < precedence {
            Ok((j, left))
        } else {
            match parse_factor(toks, j + 1) {
                Ok((k, right)) => if k <= j || k >= toks.len() {
                    Err(ParserError::UnexpectedEnd)
                } else {
                    let after = toks[k];
                    let after_rank = precedence_of(after.token_type);
                    if is_binary_operator(after.token_type) && rank < after_rank {
                        match parse_expression(toks, k, (after_rank + 1) as u8) {
                            Ok((m, next)) => if m <= k || m > toks.len() {
                                Err(ParserError::UnexpectedEnd)
                            } else {
                                climb(
                                    toks,
                                    m,
                                    precedence,
                                    binary(left, op.literal, bound(right, after.literal, next)),
                                )
                            },
                            Err(e) => Err(e),
                        }
                    } else {
                        climb(toks, k, precedence, binary(left, op.literal, right))
                    }
                },
                Err(e) => Err(e),
            }
        }
    }
}

/// The product that begins with `left` and goes on at `j`: as long as `*`
/// or `/` follows, it takes the operand behind it. A token must follow it.
pub open spec fn term_tail(toks: Seq<TokenModel>, j: int, left: ExpressionModel) -> Parsed
    decreases toks.len() - j,
{
    if j < 0 || j >= toks.len() {
        Err(ParserError::UnexpectedEnd)
    } else if toks[j].token_type == TokenType::ASTERISK || toks[j].token_type == TokenType::SLASH {
        match parse_factor(toks, j + 1) {
            Ok((k, right)) => {
                proof {
                    lemma_factor_advances(toks, j + 1);
                }
                term_tail(toks, k, binary(left, toks[j].literal, right))
            },
            Err(e) => Err(e),
        }
    } else {
        Ok((j, left))
    }
}

/// The product at `i`.
pub open spec fn parse_term(toks: Seq<TokenModel>, i: int) -> Parsed {
    match parse_factor(toks, i) {
        Ok((j, left)) => term_tail(toks, j, left),
        Err(e) => Err(e),
    }
}

/// The expression at `i` with the semicolon that ends it.
pub open spec fn parse_statement(toks: Seq<TokenModel>, i: int) -> Parsed {
    match parse_expression(toks, i, 0) {
        Ok((j, e)) => match eat(toks, j, TokenType::SEMICOLON) {
            Ok(k) => Ok((k, e)),
            Err(err) => Err(err),
        },
        Err(err) => Err(err),
    }
}

/// The nodes `nodes` and, behind them, the expressions from `i` to the end
/// of the tokens, each with its semicolon.
pub open spec fn parse_all(toks: Seq<TokenModel>, i: int, nodes: Seq<NodeModel>) -> Result<
    Seq<NodeModel>,
    ParserError,
>
    decreases toks.len() - i,
{
    if i < 0 || i >= toks.len() {
        Ok(nodes)
    } else {
        match parse_statement(toks, i) {
            Ok((j, e)) => {
                proof {
                    lemma_statement_advances(toks, i);
                }
                parse_all(toks, j, nodes.push(NodeModel::EXPRESSION(e)))
            },
            Err(err) => Err(err),
        }
    }
}

/// An operand takes at least one token, and none beyond the last.
pub proof fn lemma_factor_advances(toks: Seq<TokenModel>, i: int)
    ensures
        parse_factor(toks, i) matches Ok((j, _)) ==> i < j <= toks.len(),
    decreases toks.len() - i, 0nat,
{
    if 0 <= i < toks.len() {
        let cur = toks[i];
        if cur.token_type == TokenType::INTEGER || cur.token_type == TokenType::FLOAT
            || cur.token_type == TokenType::IDENTIFIER {
        } else if cur.token_type == TokenType::LPAREN {
            lemma_expression_advances(toks, i + 1, 0);
        } else if is_binary_operator(cur.token_type) {
            lemma_factor_advances(toks, i + 1);
        }
    }
}

/// An expression takes at least one token, and none beyond the last.
pub proof fn lemma_expression_advances(toks: Seq<TokenModel>, i: int, precedence: u8)
    ensures
        parse_expression(toks, i, precedence) matches Ok((j, _)) ==> i < j <= toks.len(),
    decreases toks.len() - i, 1nat,
{
    lemma_factor_advances(toks, i);
    match parse_factor(toks, i) {
        Ok((j, left)) => {
            if i < j <= toks.len() {
                lemma_climb_advances(toks, j, precedence, left);
            }
        },
        Err(_) => {},
    }
}

/// What goes on behind an operand ends no earlier than it begins, and not
/// beyond the last token.
pub proof fn lemma_climb_advances(toks: Seq<TokenModel>, j: int, precedence: u8, left: ExpressionModel)
    requires
        0 <= j <= toks.len(),
    ensures
        climb(toks, j, precedence, left) matches Ok((m, _)) ==> j <= m <= toks.len(),
    decreases toks.len() - j, 0nat,
{
    if j < toks.len() {
        let op = toks[j];
        let rank = precedence_of(op.token_type);
        if is_binary_operator(op.token_type) && rank >= precedence {
            lemma_factor_advances(toks, j + 1);
            match parse_factor(toks, j + 1) {
                Ok((k, right)) => {
                    if j < k < toks.len() {
                        let after = toks[k];
                        let after_rank = precedence_of(after.token_type);
                        if is_binary_operator(after.token_type) && rank < after_rank {
                            lemma_expression_advances(toks, k, (after_rank + 1) as u8);
                            match parse_expression(toks, k, (after_rank + 1) as u8) {
                                Ok((m, next)) => {
                                    if k < m <= toks.len() {
                                        lemma_climb_advances(
                                            toks,
                                            m,
                                            precedence,
                                            binary(left, op.literal, bound(right, after.literal, next)),
                                        );
                                    }
                                },
                                Err(_) => {},
                            }
                        } else {
                            lemma_climb_advances(toks, k, precedence, binary(left, op.literal, right));
                        }
                    }
                },
                Err(_) => {},
            }
        }
    }
}

/// An expression with its semicolon takes at least two tokens.
pub proof fn lemma_statement_advances(toks: Seq<TokenModel>, i: int)
    ensures
        parse_statement(toks, i) matches Ok((j, _)) ==> i + 1 < j <= toks.len(),
{
    lemma_expression_advances(toks, i, 0);
}

/// A parser by operator precedence: the tokens that it reads, the index of
/// the next one, and the nodes that it has read.
pub struct Parser {
    pub tokens: Vec<Token>,
    pub index: usize,
    pub parsed_ast_nodes: Vec<ASTNode>,
}

/// Whether a token of this kind can stand between two operands.
pub fn binary_operator(kind: TokenType) -> (r: bool)
    ensures
        r == is_binary_operator(kind),
{
    match kind {
        TokenType::LOGICAL_AND
        | TokenType::LOGICAL_OR
        | TokenType::PLUS
        | TokenType::MINUS
        | TokenType::ASTERISK
        | TokenType::SLASH
        | TokenType::ASSIGN
        | TokenType::PLUS_ASSIGN
        | TokenType::MINUS_ASSIGN
        | TokenType::EQ
        | TokenType::NEQ
        | TokenType::GT
        | TokenType::GTE
        | TokenType::LT
        | TokenType::LTE => true,
        _ => false,
    }
}

/// A copy of a list of tokens.
pub fn clone_tokens(v: &Vec<Token>) -> (r: Vec<Token>)
    ensures
        stream_model(r) == stream_model(*v),
{
    let mut out: Vec<Token> = Vec::new();
    let mut i: usize = 0;
    while i < v.len()
        invariant
            i <= v.len(),
            out.len() == i,
            forall|j: int| 0 <= j < i ==> out@[j]@ == v@[j]@,
        decreases v.len() - i,
    {
        out.push(v[i].clone());
        i += 1;
    }
    assert(stream_model(out) =~= stream_model(*v));
    out
}

impl Parser {
    /// The index of the next token is none beyond the last.
    pub open spec fn wf(&self) -> bool {
        self.index <= self.tokens@.len()
    }

    /// The tokens that are read.
    pub open spec fn toks(&self) -> Seq<TokenModel> {
        stream_model(self.tokens)
    }

    /// The nodes that were read.
    pub open spec fn nodes(&self) -> Seq<NodeModel> {
        nodes_model(self.parsed_ast_nodes)
    }

    /// A parser at the first of the tokens of a scanner, without nodes.
    pub fn new(lexer: &Lexer) -> (p: Parser)
        ensures
            p.toks() == stream_model(lexer.tokens),
            p.index == 0,
            p.nodes() == Seq::<NodeModel>::empty(),
            p.wf(),
    {
        let p = Parser { tokens: clone_tokens(&lexer.tokens), index: 0, parsed_ast_nodes: Vec::new() };
        assert(p.nodes() =~= Seq::<NodeModel>::empty());
        p
    }

    /// Passes the next token, which must be of the kind `expected`.
    pub fn eat(&mut self, expected: TokenType) -> (r: Result<(), ParserError>)
        requires
            old(self).wf(),
        ensures
            final(self).wf(),
            final(self).tokens == old(self).tokens,
            final(self).parsed_ast_nodes == old(self).parsed_ast_nodes,
            match eat(old(self).toks(), old(self).index as int, expected) {
                Ok(j) => r is Ok && final(self).index == j,
                Err(e) => r == Err::<(), ParserError>(e) && final(self).index == old(self).index,
            },
    {
        assert(self.toks().len() == self.tokens.len());
        if self.index >= self.tokens.len() {
            return Err(ParserError::UnexpectedEnd);
        }
        let found = self.tokens[self.index].token_type;
        if found == expected {
            self.index += 1;
            Ok(())
        } else {
            Err(ParserError::Expected { expected, found })
        }
    }

    /// How strongly an operator binds: the higher, the stronger.
    pub fn get_operator_precedence(&self, tok: TokenType) -> (r: u8)
        ensures
            r == precedence_of(tok),
    {
        match tok {
            TokenType::PLUS | TokenType::MINUS => 1,
            TokenType::ASTERISK | TokenType::SLASH => 2,
            TokenType::EQ | TokenType::LT | TokenType::GT | TokenType::LTE | TokenType::GTE => 2,
            _ => 0,
        }
    }

    /// Reads an operand.
    pub fn parse_factor(&mut self) -> (r: Result<Expression, ParserError>)
        requires
            old(self).wf(),
        ensures
            final(self).wf(),
            final(self).tokens == old(self).tokens,
            final(self).parsed_ast_nodes == old(self).parsed_ast_nodes,
            match parse_factor(old(self).toks(), old(self).index as int) {
                Ok((j, e)) => r matches Ok(found) && found@ == e && final(self).index == j,
                Err(e) => r matches Err(err) && err == e,
            },
        decreases old(self).tokens@.len() - old(self).index, 0nat,
    {
        let ghost toks = self.toks();
        assert(toks.len() == self.tokens.len());
        if self.index >= self.tokens.len() {
            return Err(ParserError::UnexpectedEnd);
        }
        let kind = self.tokens[self.index].token_type;
        match kind {
            TokenType::INTEGER => {
                match parse_integer(self.tokens[self.index].literal.as_str()) {
                    Some(v) => {
                        self.index += 1;
                        Ok(Expression::LITERAL(Literal::INTEGER(v)))
                    },
                    None => Err(ParserError::WrongLiteral),
                }
            },
            TokenType::FLOAT => {
                let text = self.tokens[self.index].literal.clone();
                self.index += 1;
                Ok(Expression::LITERAL(Literal::FLOAT(text)))
            },
            TokenType::IDENTIFIER => {
                let name = self.tokens[self.index].literal.clone();
                self.index += 1;
                Ok(Expression::VARIABLE(Variable::new(name)))
            },
            TokenType::LPAREN => {
                self.index += 1;
                let inner = match self.parse_expression(0) {
                    Ok(e) => e,
                    Err(e) => {
                        return Err(e);
                    },
                };
                match self.eat(TokenType::RPAREN) {
                    Ok(_) => Ok(inner),
                    Err(e) => Err(e),
                }
            },
            _ => {
                if binary_operator(kind) {
                    self.index += 1;
                    self.parse_factor()
                } else {
                    Err(ParserError::UnexpectedToken { found: kind })
                }
            },
        }
    }

    /// Reads an expression of operators that bind no weaker than `precedence`.
    pub fn parse_expression(&mut self, precedence: u8) -> (r: Result<Expression, ParserError>)
        requires
            old(self).wf(),
        ensures
            final(self).wf(),
            final(self).tokens == old(self).tokens,
            final(self).parsed_ast_nodes == old(self).parsed_ast_nodes,
            match parse_expression(old(self).toks(), old(self).index as int, precedence) {
                Ok((j, e)) => r matches Ok(found) && found@ == e && final(self).index == j,
                Err(e) => r matches Err(err) && err == e,
            },
        decreases old(self).tokens@.len() - old(self).index, 1nat,
    {
        let ghost toks = self.toks();
        let ghost start = self.index as int;
        assert(toks.len() == self.tokens.len());
        proof {
            lemma_factor_advances(toks, start);
        }
        let mut left = match self.parse_factor() {
            Ok(e) => e,
            Err(e) => {
                return Err(e);
            },
        };
        let mut open = true;
        while open
            invariant
                self.wf(),
                self.tokens == old(self).tokens,
                self.parsed_ast_nodes == old(self).parsed_ast_nodes,
                toks == self.toks(),
                toks.len() == self.tokens.len(),
                start == old(self).index,
                start < self.index,
                open ==> parse_expression(toks, start, precedence) == climb(
                    toks,
                    self.index as int,
                    precedence,
                    left@,
                ),
                !open ==> parse_expression(toks, start, precedence) == Ok::<
                    (int, ExpressionModel),
                    ParserError,
                >((self.index as int, left@)),
            decreases self.tokens@.len() - self.index, open as int,
        {
            if self.index >= self.tokens.len() {
                open = false;
            } else {
                let kind = self.tokens[self.index].token_type;
                let rank = self.get_operator_precedence(kind);
                if !binary_operator(kind) || rank < precedence {
                    open = false;
                } else {
                    let op = self.tokens[self.index].literal.clone();
                    let ghost left0 = left@;
                    let ghost j = self.index as int;
                    self.index += 1;
                    proof {
                        lemma_factor_advances(toks, self.index as int);
                    }
                    let right = match self.parse_factor() {
                        Ok(e) => e,
                        Err(e) => {
                            return Err(e);
                        },
                    };
                    let ghost right0 = right@;
                    let ghost k = self.index as int;
                    assert(parse_factor(toks, j + 1) == Ok::<(int, ExpressionModel), ParserError>(
                        (k, right0),
                    ));
                    if self.index >= self.tokens.len() {
                        return Err(ParserError::UnexpectedEnd);
                    }
                    let after_kind = self.tokens[self.index].token_type;
                    let after_rank = self.get_operator_precedence(after_kind);
                    let right = if binary_operator(after_kind) && rank < after_rank {
                        let after_op = self.tokens[self.index].literal.clone();
                        proof {
                            lemma_expression_advances(toks, self.index as int, (after_rank + 1) as u8);
                        }
                        let next = match self.parse_expression(after_rank + 1) {
                            Ok(e) => e,
                            Err(e) => {
                                return Err(e);
                            },
                        };
                        let ghost next0 = next@;
                        let joined = match next {
                            Expression::VARIABLE(_) => Expression::BINARY {
                                left: Box::new(right),
                                right: Box::new(next),
                                op: after_op,
                            },
                            _ => Expression::BINARY {
                                left: Box::new(next),
                                right: Box::new(right),
                                op: after_op,
                            },
                        };
                        assert(joined@ == bound(right0, toks[k].literal, next0));
                        joined
                    } else {
                        right
                    };
                    let ghost right1 = right@;
                    left = Expression::BINARY { left: Box::new(left), right: Box::new(right), op };
                    assert(left@ == binary(left0, toks[j].literal, right1));
                }
            }
        }
        Ok(left)
    }

    /// Reads an expression and the semicolon that ends it.
    pub fn parse_expression_enforce_semicolon(&mut self) -> (r: Result<Expression, ParserError>)
        requires
            old(self).wf(),
        ensures
            final(self).wf(),
            final(self).tokens == old(self).tokens,
            final(self).parsed_ast_nodes == old(self).parsed_ast_nodes,
            match parse_statement(old(self).toks(), old(self).index as int) {
                Ok((j, e)) => r matches Ok(found) && found@ == e && final(self).index == j,
                Err(e) => r matches Err(err) && err == e,
            },
    {
        let exp = match self.parse_expression(0) {
            Ok(e) => e,
            Err(e) => {
                return Err(e);
            },
        };
        match self.eat(TokenType::SEMICOLON) {
            Ok(_) => Ok(exp),
            Err(e) => Err(e),
        }
    }

    /// Reads a product.
    pub fn parse_term(&mut self) -> (r: Result<Expression, ParserError>)
        requires
            old(self).wf(),
        ensures
            final(self).wf(),
            final(self).tokens == old(self).tokens,
            final(self).parsed_ast_nodes == old(self).parsed_ast_nodes,
            match parse_term(old(self).toks(), old(self).index as int) {
                Ok((j, e)) => r matches Ok(found) && found@ == e && final(self).index == j,
                Err(e) => r matches Err(err) && err == e,
            },
    {
        let ghost toks = self.toks();
        let ghost start = self.index as int;
        assert(toks.len() == self.tokens.len());
        let mut left = match self.parse_factor() {
            Ok(e) => e,
            Err(e) => {
                return Err(e);
            },
        };
        let mut open = true;
        while open
            invariant
                self.wf(),
                self.tokens == old(self).tokens,
                self.parsed_ast_nodes == old(self).parsed_ast_nodes,
                toks == self.toks(),
                toks.len() == self.tokens.len(),
                start == old(self).index,
                open ==> parse_term(toks, start) == term_tail(toks, self.index as int, left@),
                !open ==> parse_term(toks, start) == Ok::<(int, ExpressionModel), ParserError>(
                    (self.index as int, left@),
                ),
            decreases self.tokens@.len() - self.index, open as int,
        {
            if self.index >= self.tokens.len() {
                return Err(ParserError::UnexpectedEnd);
            }
            let kind = self.tokens[self.index].token_type;
            if kind == TokenType::ASTERISK || kind == TokenType::SLASH {
                let op = self.tokens[self.index].literal.clone();
                let ghost left0 = left@;
                let ghost j = self.index as int;
                self.index += 1;
                proof {
                    lemma_factor_advances(toks, self.index as int);
                }
                let right = match self.parse_factor() {
                    Ok(e) => e,
                    Err(e) => {
                        return Err(e);
                    },
                };
                let ghost right0 = right@;
                left = Expression::BINARY { left: Box::new(left), right: Box::new(right), op };
                assert(left@ == binary(left0, toks[j].literal, right0));
            } else {
                open = false;
            }
        }
        Ok(left)
    }

    /// Reads the tokens to their end, as expressions that each end in a
    /// semicolon, and gives all the nodes that were read.
    pub fn parse_all_tokens(&mut self) -> (r: Result<&Vec<ASTNode>, ParserError>)
        requires
            old(self).wf(),
        ensures
            final(self).wf(),
            final(self).tokens == old(self).tokens,
            match parse_all(old(self).toks(), old(self).index as int, old(self).nodes()) {
                Ok(nodes) => r matches Ok(found) && nodes_model(*found) == nodes && final(self).nodes()
                    == nodes && final(self).index == final(self).tokens@.len(),
                Err(e) => r matches Err(err) && err == e,
            },
    {
        let ghost toks = self.toks();
        assert(toks.len() == self.tokens.len());
        while self.index < self.tokens.len()
            invariant
                self.wf(),
                self.tokens == old(self).tokens,
                toks == self.toks(),
                toks.len() == self.tokens.len(),
                parse_all(toks, old(self).index as int, old(self).nodes()) == parse_all(
                    toks,
                    self.index as int,
                    self.nodes(),
                ),
            decreases self.tokens@.len() - self.index,
        {
            proof {
                lemma_statement_advances(toks, self.index as int);
            }
            let ghost before = self.nodes();
            let exp = match self.parse_expression_enforce_semicolon() {
                Ok(e) => e,
                Err(e) => {
                    return Err(e);
                },
            };
            self.parsed_ast_nodes.push(ASTNode::EXPRESSION(exp));
            assert(self.nodes() =~= before.push(NodeModel::EXPRESSION(exp@)));
        }
        Ok(&self.parsed_ast_nodes)
    }
}

} // verus!
