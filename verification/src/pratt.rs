//! The expression parser: precedence climbing over a token slice.
//!
//! `parse_expression` consumes a maximal well-formed expression whose
//! operators all bind at least as tightly as the given threshold, and leaves
//! the cursor on the first token it did not consume. The tree it returns,
//! the tokens it consumes and the error it reports are all fixed by
//! `spec_parse_expr`: binary operators fold left-associatively, the unary
//! operators bind tighter than every binary operator, and a parenthesized
//! sub-expression is kept as a `Grouped` node.

use vstd::prelude::*;
use crate::ast::{BinaryOperator, Expression, UnaryOperator};
use crate::tokenizer::{Keyword, Token};

verus! {

/// A typed failure of the expression parser.
#[derive(Debug, PartialEq)]
pub enum ExpressionError {
    /// This token cannot start an expression.
    UnexpectedToken(Token),
    /// The tokens ran out where an expression was required.
    UnexpectedEnd,
    /// A specific token was required; `found` is the token met instead, or
    /// absent when the tokens ran out.
    ExpectedToken { expected: Token, found: Option<Token> },
    /// A token with a binary-operator precedence that maps to no operator.
    UnknownOperator(Token),
}

/// The binding strength of a token seen as a binary operator, low to high:
/// `OR`, `AND`, equality, comparison, additive, multiplicative. Any other
/// token has precedence zero and ends the expression.
pub open spec fn spec_precedence(t: Token) -> int {
    match t {
        Token::Keyword(Keyword::Or) => 1,
        Token::Keyword(Keyword::And) => 2,
        Token::Equal => 3,
        Token::NotEqual => 3,
        Token::GreaterThan => 4,
        Token::GreaterThanOrEqual => 4,
        Token::LessThan => 4,
        Token::LessThanOrEqual => 4,
        Token::Plus => 5,
        Token::Minus => 5,
        Token::Multiply => 6,
        Token::Divide => 6,
        _ => 0,
    }
}

fn get_precedence(token: &Token) -> (p: u8)
    ensures
        p as int == spec_precedence(*token),
        p <= 6,
{
    match token {
        Token::Keyword(Keyword::Or) => 1,
        Token::Keyword(Keyword::And) => 2,
        Token::Equal | Token::NotEqual => 3,
        Token::GreaterThan | Token::GreaterThanOrEqual | Token::LessThan
            | Token::LessThanOrEqual => 4,
        Token::Plus | Token::Minus => 5,
        Token::Multiply | Token::Divide => 6,
        _ => 0,
    }
}

/// The binary operator a token denotes, if any.
pub open spec fn spec_binop_of(t: Token) -> Option<BinaryOperator> {
    match t {
        Token::Equal => Option::Some(BinaryOperator::Equals),
        Token::NotEqual => Option::Some(BinaryOperator::NotEquals),
        Token::GreaterThan => Option::Some(BinaryOperator::GreaterThan),
        Token::GreaterThanOrEqual => Option::Some(BinaryOperator::GreaterThanOrEqual),
        Token::LessThan => Option::Some(BinaryOperator::LessThan),
        Token::LessThanOrEqual => Option::Some(BinaryOperator::LessThanOrEqual),
        Token::Plus => Option::Some(BinaryOperator::Add),
        Token::Minus => Option::Some(BinaryOperator::Subtract),
        Token::Multiply => Option::Some(BinaryOperator::Multiply),
        Token::Divide => Option::Some(BinaryOperator::Divide),
        Token::Keyword(Keyword::And) => Option::Some(BinaryOperator::And),
        Token::Keyword(Keyword::Or) => Option::Some(BinaryOperator::Or),
        _ => Option::None,
    }
}

fn binop_for(token: &Token) -> (r: Option<BinaryOperator>)
    ensures
        r == spec_binop_of(*token),
{
    match token {
        Token::Equal => Some(BinaryOperator::Equals),
        Token::NotEqual => Some(BinaryOperator::NotEquals),
        Token::GreaterThan => Some(BinaryOperator::GreaterThan),
        Token::GreaterThanOrEqual => Some(BinaryOperator::GreaterThanOrEqual),
        Token::LessThan => Some(BinaryOperator::LessThan),
        Token::LessThanOrEqual => Some(BinaryOperator::LessThanOrEqual),
        Token::Plus => Some(BinaryOperator::Add),
        Token::Minus => Some(BinaryOperator::Subtract),
        Token::Multiply => Some(BinaryOperator::Multiply),
        Token::Divide => Some(BinaryOperator::Divide),
        Token::Keyword(Keyword::And) => Some(BinaryOperator::And),
        Token::Keyword(Keyword::Or) => Some(BinaryOperator::Or),
        _ => None,
    }
}

/// The expression parsed at `pos` with minimum operator precedence
/// `min_prec`: first a prefix term, then every binary operator of
/// precedence at least `min_prec`, folded left-associatively by
/// `spec_parse_infix`. On success the result carries the cursor position
/// after the expression.
pub open spec fn spec_parse_expr(tokens: Seq<Token>, pos: int, min_prec: int) -> Result<
    (Expression, int),
    ExpressionError,
>
    decreases tokens.len() - pos, 1int,
{
    if pos < 0 || pos >= tokens.len() {
        Err(ExpressionError::UnexpectedEnd)
    } else {
        let t = tokens[pos];
        match t {
            Token::Identifier(name) => spec_parse_infix(
                tokens,
                pos + 1,
                min_prec,
                Expression::Identifier(name),
            ),
            Token::Number(n) => spec_parse_infix(tokens, pos + 1, min_prec, Expression::Number(n)),
            Token::String(s) => spec_parse_infix(tokens, pos + 1, min_prec, Expression::String(s)),
            Token::Keyword(Keyword::True) => spec_parse_infix(
                tokens,
                pos + 1,
                min_prec,
                Expression::Boolean(true),
            ),
            Token::Keyword(Keyword::False) => spec_parse_infix(
                tokens,
                pos + 1,
                min_prec,
                Expression::Boolean(false),
            ),
            Token::Keyword(Keyword::Not) => match spec_parse_expr(tokens, pos + 1, 6) {
                Ok((operand, p2)) => {
                    let e = Expression::UnaryOperation {
                        operator: UnaryOperator::Not,
                        operand: Box::new(operand),
                    };
                    if pos < p2 <= tokens.len() {
                        spec_parse_infix(tokens, p2, min_prec, e)
                    } else {
                        Err(ExpressionError::UnexpectedEnd)
                    }
                },
                Err(e) => Err(e),
            },
            Token::Minus => match spec_parse_expr(tokens, pos + 1, 6) {
                Ok((operand, p2)) => {
                    let e = Expression::UnaryOperation {
                        operator: UnaryOperator::Negate,
                        operand: Box::new(operand),
                    };
                    if pos < p2 <= tokens.len() {
                        spec_parse_infix(tokens, p2, min_prec, e)
                    } else {
                        Err(ExpressionError::UnexpectedEnd)
                    }
                },
                Err(e) => Err(e),
            },
            Token::LeftParentheses => match spec_parse_expr(tokens, pos + 1, 1) {
                Ok((inner, p2)) => if 0 <= p2 < tokens.len() && tokens[p2] is RightParentheses {
                    let e = Expression::Grouped(Box::new(inner));
                    if pos < p2 + 1 <= tokens.len() {
                        spec_parse_infix(tokens, p2 + 1, min_prec, e)
                    } else {
                        Err(ExpressionError::UnexpectedEnd)
                    }
                } else if p2 >= tokens.len() {
                    Err(
                        ExpressionError::ExpectedToken {
                            expected: Token::RightParentheses,
                            found: Option::None,
                        },
                    )
                } else {
                    Err(
                        ExpressionError::ExpectedToken {
                            expected: Token::RightParentheses,
                            found: Option::Some(tokens[p2]),
                        },
                    )
                },
                Err(e) => Err(e),
            },
            _ => Err(ExpressionError::UnexpectedToken(t)),
        }
    }
}

/// The left-associative operator loop: while the token at `pos` denotes a
/// binary operator of precedence at least `min_prec`, parse its right-hand
/// side one level tighter and fold it onto `left`.
pub open spec fn spec_parse_infix(
    tokens: Seq<Token>,
    pos: int,
    min_prec: int,
    left: Expression,
) -> Result<(Expression, int), ExpressionError>
    decreases tokens.len() - pos, 0int,
{
    if pos < 0 || pos >= tokens.len() {
        Ok((left, pos))
    } else {
        let t = tokens[pos];
        let p = spec_precedence(t);
        if p >= min_prec {
            match spec_parse_expr(tokens, pos + 1, p + 1) {
                Ok((right, p2)) => match spec_binop_of(t) {
                    Option::Some(op) => {
                        let e = Expression::BinaryOperation {
                            left_operand: Box::new(left),
                            operator: op,
                            right_operand: Box::new(right),
                        };
                        if pos < p2 <= tokens.len() {
                            spec_parse_infix(tokens, p2, min_prec, e)
                        } else {
                            Err(ExpressionError::UnexpectedEnd)
                        }
                    },
                    Option::None => Err(ExpressionError::UnknownOperator(t)),
                },
                Err(e) => Err(e),
            }
        } else {
            Ok((left, pos))
        }
    }
}

/// Law: a successful expression parse is a bounded sub-parse — it consumes
/// at least one token, and never reads past the end of the tokens. A caller
/// that hands over a suffix of its tokens can therefore resynchronize its
/// own cursor to exactly the position the sub-parse reports.
pub proof fn lemma_parse_expr_is_bounded(tokens: Seq<Token>, pos: int, min_prec: int)
    ensures
        spec_parse_expr(tokens, pos, min_prec) matches Ok(ep) ==> pos < ep.1 <= tokens.len(),
    decreases tokens.len() - pos, 1int,
{
    if 0 <= pos < tokens.len() {
        match tokens[pos] {
            Token::Identifier(name) => lemma_parse_infix_is_bounded(
                tokens,
                pos + 1,
                min_prec,
                Expression::Identifier(name),
            ),
            Token::Number(n) => lemma_parse_infix_is_bounded(
                tokens,
                pos + 1,
                min_prec,
                Expression::Number(n),
            ),
            Token::String(s) => lemma_parse_infix_is_bounded(
                tokens,
                pos + 1,
                min_prec,
                Expression::String(s),
            ),
            Token::Keyword(Keyword::True) => lemma_parse_infix_is_bounded(
                tokens,
                pos + 1,
                min_prec,
                Expression::Boolean(true),
            ),
            Token::Keyword(Keyword::False) => lemma_parse_infix_is_bounded(
                tokens,
                pos + 1,
                min_prec,
                Expression::Boolean(false),
            ),
            Token::Keyword(Keyword::Not) => {
                lemma_parse_expr_is_bounded(tokens, pos + 1, 6);
                match spec_parse_expr(tokens, pos + 1, 6) {
                    Ok((operand, p2)) => {
                        let e = Expression::UnaryOperation {
                            operator: UnaryOperator::Not,
                            operand: Box::new(operand),
                        };
                        lemma_parse_infix_is_bounded(tokens, p2, min_prec, e);
                    },
                    Err(_) => {},
                }
            },
            Token::Minus => {
                lemma_parse_expr_is_bounded(tokens, pos + 1, 6);
                match spec_parse_expr(tokens, pos + 1, 6) {
                    Ok((operand, p2)) => {
                        let e = Expression::UnaryOperation {
                            operator: UnaryOperator::Negate,
                            operand: Box::new(operand),
                        };
                        lemma_parse_infix_is_bounded(tokens, p2, min_prec, e);
                    },
                    Err(_) => {},
                }
            },
            Token::LeftParentheses => {
                lemma_parse_expr_is_bounded(tokens, pos + 1, 1);
                match spec_parse_expr(tokens, pos + 1, 1) {
                    Ok((inner, p2)) => {
                        if 0 <= p2 < tokens.len() && tokens[p2] is RightParentheses {
                            let e = Expression::Grouped(Box::new(inner));
                            lemma_parse_infix_is_bounded(tokens, p2 + 1, min_prec, e);
                        }
                    },
                    Err(_) => {},
                }
            },
            _ => {},
        }
    }
}

/// The companion of `lemma_parse_expr_is_bounded` for the operator loop,
/// which may also consume nothing and return `left` as it stands.
pub proof fn lemma_parse_infix_is_bounded(
    tokens: Seq<Token>,
    pos: int,
    min_prec: int,
    left: Expression,
)
    requires
        0 <= pos <= tokens.len(),
    ensures
        spec_parse_infix(tokens, pos, min_prec, left) matches Ok(ep) ==> pos <= ep.1
            <= tokens.len(),
    decreases tokens.len() - pos, 0int,
{
    if 0 <= pos < tokens.len() {
        let t = tokens[pos];
        let p = spec_precedence(t);
        if p >= min_prec {
            lemma_parse_expr_is_bounded(tokens, pos + 1, p + 1);
            match spec_parse_expr(tokens, pos + 1, p + 1) {
                Ok((right, p2)) => match spec_binop_of(t) {
                    Option::Some(op) => {
                        if pos < p2 <= tokens.len() {
                            let e = Expression::BinaryOperation {
                                left_operand: Box::new(left),
                                operator: op,
                                right_operand: Box::new(right),
                            };
                            lemma_parse_infix_is_bounded(tokens, p2, min_prec, e);
                        }
                    },
                    Option::None => {},
                },
                Err(_) => {},
            }
        }
    }
}

/// The expression parser: a cursor over a borrowed token slice.
pub struct PrattParser<'a> {
    tokens: &'a [Token],
    position: usize,
}

impl<'a> PrattParser<'a> {
    /// The tokens being parsed.
    pub closed spec fn toks(&self) -> Seq<Token> {
        self.tokens@
    }

    /// The cursor position.
    pub closed spec fn pos(&self) -> int {
        self.position as int
    }

    /// The cursor never stands past the end of the tokens.
    pub open spec fn wf(&self) -> bool {
        0 <= self.pos() <= self.toks().len()
    }

    /// Builds a parser over `tokens`, with the cursor at the start.
    pub fn new(tokens: &'a [Token]) -> (p: PrattParser<'a>)
        ensures
            p.wf(),
            p.toks() == tokens@,
            p.pos() == 0,
    {
        PrattParser { tokens, position: 0 }
    }

    /// Builds a parser over `tokens` with the cursor already at `position`,
    /// for a caller that hands over a suffix of its own tokens.
    pub(crate) fn new_at(tokens: &'a [Token], position: usize) -> (p: PrattParser<'a>)
        requires
            position <= tokens@.len(),
        ensures
            p.wf(),
            p.toks() == tokens@,
            p.pos() == position,
    {
        PrattParser { tokens, position }
    }

    /// The cursor position, for resynchronizing a caller after a sub-parse.
    pub(crate) fn current_position(&self) -> (n: usize)
        ensures
            n as int == self.pos(),
    {
        self.position
    }

    /// Parses one expression at the cursor, honoring `min_precedence`, and
    /// advances the cursor exactly past the tokens the expression covers.
    #[verifier::loop_isolation(false)]
    pub fn parse_expression(&mut self, min_precedence: u8) -> (r: Result<
        Expression,
        ExpressionError,
    >)
        requires
            old(self).wf(),
        ensures
            final(self).wf(),
            final(self).toks() == old(self).toks(),
            match spec_parse_expr(old(self).toks(), old(self).pos(), min_precedence as int) {
                Ok(ep) => r == Result::<Expression, ExpressionError>::Ok(ep.0)
                    && final(self).pos() == ep.1 && old(self).pos() < ep.1 <= old(
                    self,
                ).toks().len(),
                Err(e) => r == Result::<Expression, ExpressionError>::Err(e),
            },
        decreases self.toks().len() - self.pos(),
    {
        let ghost toks = self.tokens@;
        let ghost pos0 = self.position as int;
        let ghost mp = min_precedence as int;
        let toks_ref = self.tokens;
        if self.position >= self.tokens.len() {
            return Err(ExpressionError::UnexpectedEnd);
        }
        let idx = self.position;
        self.position = idx + 1;
        let mut left: Expression = match &toks_ref[idx] {
            Token::Identifier(name) => Expression::Identifier(name.clone()),
            Token::Number(n) => Expression::Number(*n),
            Token::String(s) => Expression::String(s.clone()),
            Token::Keyword(Keyword::True) => Expression::Boolean(true),
            Token::Keyword(Keyword::False) => Expression::Boolean(false),
            Token::Keyword(Keyword::Not) => {
                match self.parse_expression(6) {
                    Ok(operand) => Expression::UnaryOperation {
                        operator: UnaryOperator::Not,
                        operand: Box::new(operand),
                    },
                    Err(e) => {
                        return Err(e);
                    },
                }
            },
            Token::Minus => {
                match self.parse_expression(6) {
                    Ok(operand) => Expression::UnaryOperation {
                        operator: UnaryOperator::Negate,
                        operand: Box::new(operand),
                    },
                    Err(e) => {
                        return Err(e);
                    },
                }
            },
            Token::LeftParentheses => {
                match self.parse_expression(1) {
                    Ok(inner) => {
                        if self.position < toks_ref.len() {
                            match &toks_ref[self.position] {
                                Token::RightParentheses => {
                                    self.position = self.position + 1;
                                    Expression::Grouped(Box::new(inner))
                                },
                                t2 => {
                                    return Err(
                                        ExpressionError::ExpectedToken {
                                            expected: Token::RightParentheses,
                                            found: Some(t2.clone()),
                                        },
                                    );
                                },
                            }
                        } else {
                            return Err(
                                ExpressionError::ExpectedToken {
                                    expected: Token::RightParentheses,
                                    found: None,
                                },
                            );
                        }
                    },
                    Err(e) => {
                        return Err(e);
                    },
                }
            },
            t => {
                return Err(ExpressionError::UnexpectedToken(t.clone()));
            },
        };
        proof {
            assert(spec_parse_expr(toks, pos0, mp) == spec_parse_infix(
                toks,
                self.pos(),
                mp,
                left,
            ));
        }
        while self.position < self.tokens.len() && get_precedence(&toks_ref[self.position])
            >= min_precedence
            invariant
                self.wf(),
                self.toks() == toks,
                pos0 < self.pos() <= toks.len(),
                spec_parse_expr(toks, pos0, mp) == spec_parse_infix(toks, self.pos(), mp, left),
            decreases toks.len() - self.pos(),
        {
            let opi = self.position;
            let prec = get_precedence(&toks_ref[opi]);
            self.position = opi + 1;
            let right = match self.parse_expression(prec + 1) {
                Ok(r) => r,
                Err(e) => {
                    return Err(e);
                },
            };
            let operator = match binop_for(&toks_ref[opi]) {
                Some(op) => op,
                None => {
                    return Err(ExpressionError::UnknownOperator(toks_ref[opi].clone()));
                },
            };
            left = Expression::BinaryOperation {
                left_operand: Box::new(left),
                operator,
                right_operand: Box::new(right),
            };
        }
        Ok(left)
    }
}

} // verus!
