use crate::frontend::ast::{ASTNode, Expression, ExpressionModel, Literal, LiteralModel, NodeModel, Variable, nodes_model};
use crate::frontend::lexer::Lexer;
use crate::frontend::parser::{binary, clone_tokens, eat, Parsed};
use crate::frontend::preprocessor::stream_model;
use crate::frontend::text::{integer_value, parse_integer};
use crate::frontend::token::{Token, TokenModel, TokenType};
use crate::reporter::parse::ParserError;
use vstd::prelude::*;

verus! {

/// The operand at `i`: a number or a name.
pub open spec fn parse_factor(toks: Seq<TokenModel>, i: int) -> Parsed {
    if i < 0 || i >= toks.len() {
        Err(ParserError::UnexpectedEnd)
    } else {
        let cur = toks[i];
        if cur.token_type == TokenType::INTEGER {
            match integer_value(cur.literal) {
                Some(v) => Ok((i + 1, ExpressionModel::LITERAL(LiteralModel::INTEGER(v)))),
                None => Err(ParserError::WrongLiteral),
            }
        } else if cur.token_type == TokenType::FLOAT {
            Ok((i + 1, ExpressionModel::LITERAL(LiteralModel::FLOAT(cur.literal))))
        } else if cur.token_type == TokenType::IDENTIFIER {
            Ok((i + 1, ExpressionModel::VARIABLE(cur.literal)))
        } else {
            Err(ParserError::UnexpectedToken { found: cur.token_type })
        }
    }
}

/// The product that begins with `left` and goes on at `j`: as long as `*`
/// or `/` follows, it takes the operand behind it. A token must follow it.
pub open spec fn term_tail(toks: Seq<TokenModel>, j: int, left: ExpressionModel) -> Parsed
    decreases toks.len() - j,
{
    if j < 0 || j >= toks.len() {
        Err(ParserError::UnexpectedEnd)
    } else if toks[j].token_type == TokenType::ASTERISK || toks[j].token_type == TokenType::SLASH {
        match parse_factor(toks, j + 1) {
            Ok((k, right)) => term_tail(toks, k, binary(left, toks[j].literal, right)),
            Err(e) => Err(e),
        }
    } else {
        Ok((j, left))
    }
}

/// The product at `i`.
pub open spec fn parse_term(toks: Seq<TokenModel>, i: int) -> Parsed {
    match parse_factor(toks, i) {
        Ok((j, left)) => term_tail(toks, j, left),
        Err(e) => Err(e),
    }
}

/// A product ends no earlier than it goes on, and before the last token.
pub proof fn lemma_term_tail_advances(toks: Seq<TokenModel>, j: int, left: ExpressionModel)
    ensures
        term_tail(toks, j, left) matches Ok((m, _)) ==> j <= m < toks.len(),
    decreases toks.len() - j,
{
    if 0 <= j < toks.len() && (toks[j].token_type == TokenType::ASTERISK || toks[j].token_type
        == TokenType::SLASH) {
        match parse_factor(toks, j + 1) {
            Ok((k, right)) => {
                lemma_term_tail_advances(toks, k, binary(left, toks[j].literal, right));
            },
            Err(_) => {},
        }
    }
}

/// The sum that begins with `left` and goes on at `j`: as long as `+` or
/// `-` follows, it takes the product behind it. A token must follow it.
pub open spec fn sum_tail(toks: Seq<TokenModel>, j: int, left: ExpressionModel) -> Parsed
    decreases toks.len() - j,
{
    if j < 0 || j >= toks.len() {
        Err(ParserError::UnexpectedEnd)
    } else if toks[j].token_type == TokenType::PLUS || toks[j].token_type == TokenType::MINUS {
        match parse_term(toks, j + 1) {
            Ok((k, right)) => {
                proof {
                    lemma_term_advances(toks, j + 1);
                }
                sum_tail(toks, k, binary(left, toks[j].literal, right))
            },
            Err(e) => Err(e),
        }
    } else {
        Ok((j, left))
    }
}

/// A product takes at least one token, and a token follows it.
pub proof fn lemma_term_advances(toks: Seq<TokenModel>, i: int)
    ensures
        parse_term(toks, i) matches Ok((j, _)) ==> i < j < toks.len(),
{
    match parse_factor(toks, i) {
        Ok((j, left)) => {
            lemma_term_tail_advances(toks, j, left);
        },
        Err(_) => {},
    }
}

/// The sum at `i`.
pub open spec fn parse_expression(toks: Seq<TokenModel>, i: int) -> Parsed {
    match parse_term(toks, i) {
        Ok((j, left)) => sum_tail(toks, j, left),
        Err(e) => Err(e),
    }
}

/// A sum ends no earlier than it goes on, and before the last token.
pub proof fn lemma_sum_tail_advances(toks: Seq<TokenModel>, j: int, left: ExpressionModel)
    ensures
        sum_tail(toks, j, left) matches Ok((m, _)) ==> j <= m < toks.len(),
    decreases toks.len() - j,
{
    if 0 <= j < toks.len() && (toks[j].token_type == TokenType::PLUS || toks[j].token_type
        == TokenType::MINUS) {
        lemma_term_advances(toks, j + 1);
        match parse_term(toks, j + 1) {
            Ok((k, right)) => {
                lemma_sum_tail_advances(toks, k, binary(left, toks[j].literal, right));
            },
            Err(_) => {},
        }
    }
}

/// A sum takes at least one token, and a token follows it.
pub proof fn lemma_expression_advances(toks: Seq<TokenModel>, i: int)
    ensures
        parse_expression(toks, i) matches Ok((j, _)) ==> i < j < toks.len(),
{
    lemma_term_advances(toks, i);
    match parse_term(toks, i) {
        Ok((j, left)) => {
            lemma_sum_tail_advances(toks, j, left);
        },
        Err(_) => {},
    }
}

/// The assignment at `i`: a name, `=`, a sum and a semicolon. It is the
/// binary expression of the name, `=` and the sum.
pub open spec fn parse_assignment(toks: Seq<TokenModel>, i: int) -> Parsed {
    if i < 0 || i >= toks.len() {
        Err(ParserError::UnexpectedEnd)
    } else if toks[i].token_type != TokenType::IDENTIFIER {
        Err(ParserError::Expected { expected: TokenType::IDENTIFIER, found: toks[i].token_type })
    } else {
        match eat(toks, i + 1, TokenType::ASSIGN) {
            Ok(j) => match parse_expression(toks, j) {
                Ok((k, value)) => match eat(toks, k, TokenType::SEMICOLON) {
                    Ok(m) => Ok((m, binary(ExpressionModel::VARIABLE(toks[i].literal), "="@, value))),
                    Err(e) => Err(e),
                },
                Err(e) => Err(e),
            },
            Err(e) => Err(e),
        }
    }
}

/// The statement at `i`: an assignment where `=` follows a name, and a sum
/// where a name or a number stands without it.
pub open spec fn parse_statement(toks: Seq<TokenModel>, i: int) -> Parsed {
    if i < 0 || i >= toks.len() {
        Err(ParserError::UnexpectedEnd)
    } else if toks[i].token_type == TokenType::IDENTIFIER {
        if i + 1 < toks.len() && toks[i + 1].token_type == TokenType::ASSIGN {
            parse_assignment(toks, i)
        } else {
            parse_expression(toks, i)
        }
    } else if toks[i].token_type == TokenType::INTEGER || toks[i].token_type == TokenType::FLOAT {
        parse_expression(toks, i)
    } else {
        Err(ParserError::UnexpectedToken { found: toks[i].token_type })
    }
}

/// A statement takes at least one token, and none beyond the last.
pub proof fn lemma_statement_advances(toks: Seq<TokenModel>, i: int)
    ensures
        parse_statement(toks, i) matches Ok((j, _)) ==> i < j <= toks.len(),
{
    lemma_expression_advances(toks, i);
    lemma_expression_advances(toks, i + 2);
}

/// The nodes `nodes` and, behind them, the statements from `i` to the end
/// of the tokens.
pub open spec fn parse_all(toks: Seq<TokenModel>, i: int, nodes: Seq<NodeModel>) -> Result<
    Seq<NodeModel>,
    ParserError,
>
    decreases toks.len() - i,
{
    if i < 0 || i >= toks.len() {
        Ok(nodes)
    } else {
        match parse_statement(toks, i) {
            Ok((j, e)) => {
                proof {
                    lemma_statement_advances(toks, i);
                }
                parse_all(toks, j, nodes.push(NodeModel::EXPRESSION(e)))
            },
            Err(err) => Err(err),
        }
    }
}

/// A parser by recursive descent, of sums, products and assignments: the
/// tokens that it reads, the index of the next one, and the nodes that it
/// has read.
pub struct Parser {
    pub tokens: Vec<Token>,
    pub index: usize,
    pub parsed_ast_nodes: Vec<ASTNode>,
}

impl Parser {
    /// The index of the next token is none beyond the last.
    pub open spec fn wf(&self) -> bool {
        self.index <= self.tokens@.len()
    }

    /// The tokens that are read.
    pub open spec fn toks(&self) -> Seq<TokenModel> {
        stream_model(self.tokens)
    }

    /// The nodes that were read.
    pub open spec fn nodes(&self) -> Seq<NodeModel> {
        nodes_model(self.parsed_ast_nodes)
    }

    /// A parser at the first of the tokens of a scanner, without nodes.
    pub fn new(lexer: &Lexer) -> (p: Parser)
        ensures
            p.toks() == stream_model(lexer.tokens),
            p.index == 0,
            p.nodes() == Seq::<NodeModel>::empty(),
            p.wf(),
    {
        let p = Parser { tokens: clone_tokens(&lexer.tokens), index: 0, parsed_ast_nodes: Vec::new() };
        assert(p.nodes() =~= Seq::<NodeModel>::empty());
        p
    }

    /// Passes the next token, which must be of the kind `expected`.
    pub fn eat(&mut self, expected: TokenType) -> (r: Result<(), ParserError>)
        requires
            old(self).wf(),
        ensures
            final(self).wf(),
            final(self).tokens == old(self).tokens,
            final(self).parsed_ast_nodes == old(self).parsed_ast_nodes,
            match eat(old(self).toks(), old(self).index as int, expected) {
                Ok(j) => r is Ok && final(self).index == j,
                Err(e) => r == Err::<(), ParserError>(e) && final(self).index == old(self).index,
            },
    {
        assert(self.toks().len() == self.tokens.len());
        if self.index >= self.tokens.len() {
            return Err(ParserError::UnexpectedEnd);
        }
        let found = self.tokens[self.index].token_type;
        if found == expected {
            self.index += 1;
            Ok(())
        } else {
            Err(ParserError::Expected { expected, found })
        }
    }

    /// Reads an operand.
    pub fn parse_factor(&mut self) -> (r: Result<Expression, ParserError>)
        requires
            old(self).wf(),
        ensures
            final(self).wf(),
            final(self).tokens == old(self).tokens,
            final(self).parsed_ast_nodes == old(self).parsed_ast_nodes,
            match parse_factor(old(self).toks(), old(self).index as int) {
                Ok((j, e)) => r matches Ok(found) && found@ == e && final(self).index == j,
                Err(e) => r matches Err(err) && err == e,
            },
    {
        assert(self.toks().len() == self.tokens.len());
        if self.index >= self.tokens.len() {
            return Err(ParserError::UnexpectedEnd);
        }
        let kind = self.tokens[self.index].token_type;
        match kind {
            TokenType::INTEGER => {
                match parse_integer(self.tokens[self.index].literal.as_str()) {
                    Some(v) => {
                        self.index += 1;
                        Ok(Expression::LITERAL(Literal::INTEGER(v)))
                    },
                    None => Err(ParserError::WrongLiteral),
                }
            },
            TokenType::FLOAT => {
                let text = self.tokens[self.index].literal.clone();
                self.index += 1;
                Ok(Expression::LITERAL(Literal::FLOAT(text)))
            },
            TokenType::IDENTIFIER => {
                let name = self.tokens[self.index].literal.clone();
                self.index += 1;
                Ok(Expression::VARIABLE(Variable::new(name)))
            },
            _ => Err(ParserError::UnexpectedToken { found: kind }),
        }
    }

    /// Reads a product.
    pub fn parse_term(&mut self) -> (r: Result<Expression, ParserError>)
        requires
            old(self).wf(),
        ensures
            final(self).wf(),
            final(self).tokens == old(self).tokens,
            final(self).parsed_ast_nodes == old(self).parsed_ast_nodes,
            match parse_term(old(self).toks(), old(self).index as int) {
                Ok((j, e)) => r matches Ok(found) && found@ == e && final(self).index == j,
                Err(e) => r matches Err(err) && err == e,
            },
    {
        let ghost toks = self.toks();
        let ghost start = self.index as int;
        assert(toks.len() == self.tokens.len());
        let mut left = match self.parse_factor() {
            Ok(e) => e,
            Err(e) => {
                return Err(e);
            },
        };
        let mut open = true;
        while open
            invariant
                self.wf(),
                self.tokens == old(self).tokens,
                self.parsed_ast_nodes == old(self).parsed_ast_nodes,
                toks == self.toks(),
                toks.len() == self.tokens.len(),
                start == old(self).index,
                open ==> parse_term(toks, start) == term_tail(toks, self.index as int, left@),
                !open ==> parse_term(toks, start) == Ok::<(int, ExpressionModel), ParserError>(
                    (self.index as int, left@),
                ),
            decreases self.tokens@.len() - self.index, open as int,
        {
            if self.index >= self.tokens.len() {
                return Err(ParserError::UnexpectedEnd);
            }
            let kind = self.tokens[self.index].token_type;
            if kind == TokenType::ASTERISK || kind == TokenType::SLASH {
                let op = self.tokens[self.index].literal.clone();
                let ghost left0 = left@;
                let ghost j = self.index as int;
                self.index += 1;
                let right = match self.parse_factor() {
                    Ok(e) => e,
                    Err(e) => {
                        return Err(e);
                    },
                };
                let ghost right0 = right@;
                left = Expression::BINARY { left: Box::new(left), right: Box::new(right), op };
                assert(left@ == binary(left0, toks[j].literal, right0));
            } else {
                open = false;
            }
        }
        Ok(left)
    }

    /// Reads a sum.
    pub fn parse_expression(&mut self) -> (r: Result<Expression, ParserError>)
        requires
            old(self).wf(),
        ensures
            final(self).wf(),
            final(self).tokens == old(self).tokens,
            final(self).parsed_ast_nodes == old(self).parsed_ast_nodes,
            match parse_expression(old(self).toks(), old(self).index as int) {
                Ok((j, e)) => r matches Ok(found) && found@ == e && final(self).index == j,
                Err(e) => r matches Err(err) && err == e,
            },
    {
        let ghost toks = self.toks();
        let ghost start = self.index as int;
        assert(toks.len() == self.tokens.len());
        let mut left = match self.parse_term() {
            Ok(e) => e,
            Err(e) => {
                return Err(e);
            },
        };
        let mut open = true;
        while open
            invariant
                self.wf(),
                self.tokens == old(self).tokens,
                self.parsed_ast_nodes == old(self).parsed_ast_nodes,
                toks == self.toks(),
                toks.len() == self.tokens.len(),
                start == old(self).index,
                open ==> parse_expression(toks, start) == sum_tail(toks, self.index as int, left@),
                !open ==> parse_expression(toks, start) == Ok::<(int, ExpressionModel), ParserError>(
                    (self.index as int, left@),
                ),
            decreases self.tokens@.len() - self.index, open as int,
        {
            if self.index >= self.tokens.len() {
                return Err(ParserError::UnexpectedEnd);
            }
            let kind = self.tokens[self.index].token_type;
            if kind == TokenType::PLUS || kind == TokenType::MINUS {
                let op = self.tokens[self.index].literal.clone();
                let ghost left0 = left@;
                let ghost j = self.index as int;
                self.index += 1;
                proof {
                    lemma_term_advances(toks, j + 1);
                }
                let right = match self.parse_term() {
                    Ok(e) => e,
                    Err(e) => {
                        return Err(e);
                    },
                };
                let ghost right0 = right@;
                left = Expression::BINARY { left: Box::new(left), right: Box::new(right), op };
                assert(left@ == binary(left0, toks[j].literal, right0));
            } else {
                open = false;
            }
        }
        Ok(left)
    }

    /// Reads an assignment.
    pub fn parse_assignment(&mut self) -> (r: Result<Expression, ParserError>)
        requires
            old(self).wf(),
        ensures
            final(self).wf(),
            final(self).tokens == old(self).tokens,
            final(self).parsed_ast_nodes == old(self).parsed_ast_nodes,
            match parse_assignment(old(self).toks(), old(self).index as int) {
                Ok((j, e)) => r matches Ok(found) && found@ == e && final(self).index == j,
                Err(e) => r matches Err(err) && err == e,
            },
    {
        let ghost toks = self.toks();
        assert(toks.len() == self.tokens.len());
        if self.index >= self.tokens.len() {
            return Err(ParserError::UnexpectedEnd);
        }
        let found = self.tokens[self.index].token_type;
        if found != TokenType::IDENTIFIER {
            return Err(ParserError::Expected { expected: TokenType::IDENTIFIER, found });
        }
        let var_name = self.tokens[self.index].literal.clone();
        self.index += 1;
        match self.eat(TokenType::ASSIGN) {
            Ok(_) => {},
            Err(e) => {
                return Err(e);
            },
        }
        let value = match self.parse_expression() {
            Ok(e) => e,
            Err(e) => {
                return Err(e);
            },
        };
        match self.eat(TokenType::SEMICOLON) {
            Ok(_) => {},
            Err(e) => {
                return Err(e);
            },
        }
        let ghost value0 = value@;
        let name = Expression::VARIABLE(Variable::new(var_name));
        assert(name@ == ExpressionModel::VARIABLE(toks[old(self).index as int].literal));
        let assignment = Expression::BINARY {
            left: Box::new(name),
            op: String::from_str("="),
            right: Box::new(value),
        };
        assert(assignment@ == binary(
            ExpressionModel::VARIABLE(toks[old(self).index as int].literal),
            "="@,
            value0,
        ));
        Ok(assignment)
    }

    /// Reads a statement.
    fn parse_statement(&mut self) -> (r: Result<Expression, ParserError>)
        requires
            old(self).wf(),
        ensures
            final(self).wf(),
            final(self).tokens == old(self).tokens,
            final(self).parsed_ast_nodes == old(self).parsed_ast_nodes,
            match parse_statement(old(self).toks(), old(self).index as int) {
                Ok((j, e)) => r matches Ok(found) && found@ == e && final(self).index == j,
                Err(e) => r matches Err(err) && err == e,
            },
    {
        assert(self.toks().len() == self.tokens.len());
        if self.index >= self.tokens.len() {
            return Err(ParserError::UnexpectedEnd);
        }
        let kind = self.tokens[self.index].token_type;
        match kind {
            TokenType::IDENTIFIER => {
                if self.tokens.len() - self.index > 1 && self.tokens[self.index + 1].token_type
                    == TokenType::ASSIGN {
                    self.parse_assignment()
                } else {
                    self.parse_expression()
                }
            },
            TokenType::INTEGER | TokenType::FLOAT => self.parse_expression(),
            _ => Err(ParserError::UnexpectedToken { found: kind }),
        }
    }

    /// Reads the tokens to their end, statement by statement, and gives all
    /// the nodes that were read.
    pub fn parse_all_tokens(&mut self) -> (r: Result<&Vec<ASTNode>, ParserError>)
        requires
            old(self).wf(),
        ensures
            final(self).wf(),
            final(self).tokens == old(self).tokens,
            match parse_all(old(self).toks(), old(self).index as int, old(self).nodes()) {
                Ok(nodes) => r matches Ok(found) && nodes_model(*found) == nodes && final(self).nodes()
                    == nodes && final(self).index == final(self).tokens@.len(),
                Err(e) => r matches Err(err) && err == e,
            },
    {
        let ghost toks = self.toks();
        assert(toks.len() == self.tokens.len());
        while self.index < self.tokens.len()
            invariant
                self.wf(),
                self.tokens == old(self).tokens,
                toks == self.toks(),
                toks.len() == self.tokens.len(),
                parse_all(toks, old(self).index as int, old(self).nodes()) == parse_all(
                    toks,
                    self.index as int,
                    self.nodes(),
                ),
            decreases self.tokens@.len() - self.index,
        {
            proof {
                lemma_statement_advances(toks, self.index as int);
            }
            let ghost before = self.nodes();
            let exp = match self.parse_statement() {
                Ok(e) => e,
                Err(e) => {
                    return Err(e);
                },
            };
            self.parsed_ast_nodes.push(ASTNode::EXPRESSION(exp));
            assert(self.nodes() =~= before.push(NodeModel::EXPRESSION(exp@)));
        }
        Ok(&self.parsed_ast_nodes)
    }
}

} // verus!
