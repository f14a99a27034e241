//! The statement parser: drives the top-level grammar
//! `SELECT columns FROM table [WHERE expr] [ORDER BY cols]` over the full
//! token sequence of one input line, consuming tokens strictly left to
//! right, never backtracking. The `WHERE` predicate is handed to the
//! expression parser as a bounded sub-parse: the statement parser advances
//! its own cursor by exactly the tokens that sub-parse consumed before it
//! reads any further clause.
//!
//! The statement returned, or the error, is fixed by
//! `spec_parse_statement`. A successful parse always carries at least one
//! column (`SELECT FROM t` is rejected), and never a row limit: no `LIMIT`
//! clause is part of the grammar.

use vstd::prelude::*;
use crate::ast::{Expression, Statement, StatementView};
use crate::pratt::{spec_parse_expr, PrattParser};
use crate::tokenizer::{GeneralError, Keyword, ParseError, Token};

verus! {

/// The cursor position after the required keyword `kw` at `pos`, or the
/// error naming the keyword that was missing.
pub open spec fn spec_expect_keyword(tokens: Seq<Token>, pos: int, kw: Keyword) -> Result<
    int,
    ParseError,
> {
    if pos < 0 || pos >= tokens.len() {
        Err(ParseError::UnexpectedEnd)
    } else {
        match tokens[pos] {
            Token::Keyword(k) => if k == kw {
                Ok(pos + 1)
            } else {
                Err(ParseError::ExpectedKeyword(kw))
            },
            _ => Err(ParseError::ExpectedKeyword(kw)),
        }
    }
}

/// The identifier at `pos` and the cursor position after it, or the error.
pub open spec fn spec_expect_identifier(tokens: Seq<Token>, pos: int) -> Result<
    (String, int),
    ParseError,
> {
    if pos < 0 || pos >= tokens.len() {
        Err(ParseError::UnexpectedEnd)
    } else {
        match tokens[pos] {
            Token::Identifier(name) => Ok((name, pos + 1)),
            _ => Err(ParseError::ExpectedIdentifier),
        }
    }
}

/// The column list read from `pos` up to and including the `FROM` keyword:
/// identifiers are collected onto `acc`, commas are skipped, and any other
/// token, or running out of tokens, is a failure.
pub open spec fn spec_parse_columns(tokens: Seq<Token>, pos: int, acc: Seq<String>) -> Result<
    (Seq<String>, int),
    ParseError,
>
    decreases tokens.len() - pos,
{
    if pos < 0 || pos >= tokens.len() {
        Err(ParseError::General(GeneralError::UnexpectedEndInColumns))
    } else {
        match tokens[pos] {
            Token::Identifier(name) => spec_parse_columns(tokens, pos + 1, acc.push(name)),
            Token::Comma => spec_parse_columns(tokens, pos + 1, acc),
            Token::Keyword(Keyword::From) => Ok((acc, pos + 1)),
            t => Err(ParseError::General(GeneralError::UnexpectedTokenInColumns(t))),
        }
    }
}

/// The `ORDER BY` column list read from `pos` up to and including the
/// closing semicolon or end-of-input token.
pub open spec fn spec_parse_order_columns(tokens: Seq<Token>, pos: int, acc: Seq<String>) -> Result<
    (Seq<String>, int),
    ParseError,
>
    decreases tokens.len() - pos,
{
    if pos < 0 || pos >= tokens.len() {
        Err(ParseError::UnexpectedEnd)
    } else {
        match tokens[pos] {
            Token::Identifier(name) => spec_parse_order_columns(tokens, pos + 1, acc.push(name)),
            Token::Comma => spec_parse_order_columns(tokens, pos + 1, acc),
            Token::Semicolon => Ok((acc, pos + 1)),
            Token::Eof => Ok((acc, pos + 1)),
            t => Err(ParseError::General(GeneralError::UnexpectedTokenInOrderBy(t))),
        }
    }
}

/// The `SELECT` statement parsed at `pos`: the keyword, a non-empty column
/// list, the table name, then an optional `WHERE` predicate (a bounded
/// sub-parse by the expression parser) and an optional `ORDER BY` list.
pub open spec fn spec_parse_select(tokens: Seq<Token>, pos: int) -> Result<
    (StatementView, int),
    ParseError,
> {
    match spec_expect_keyword(tokens, pos, Keyword::Select) {
        Err(e) => Err(e),
        Ok(p1) => match spec_parse_columns(tokens, p1, Seq::empty()) {
            Err(e) => Err(e),
            Ok((columns, p2)) => if columns.len() == 0 {
                Err(ParseError::General(GeneralError::EmptyColumns))
            } else {
                match spec_expect_identifier(tokens, p2) {
                    Err(e) => Err(e),
                    Ok((table, p3)) => {
                        let wres = if p3 < tokens.len() && tokens[p3] == Token::Keyword(
                            Keyword::Where,
                        ) {
                            match spec_parse_expr(tokens, p3 + 1, 1) {
                                Ok((e2, p4)) => Ok((Option::Some(e2), p4)),
                                Err(ee) => Err(ParseError::InvalidExpression(ee)),
                            }
                        } else {
                            Ok((Option::None, p3))
                        };
                        match wres {
                            Err(e) => Err(e),
                            Ok((selection, p4)) => {
                                let ores = if p4 < tokens.len() && tokens[p4] == Token::Keyword(
                                    Keyword::Order,
                                ) {
                                    match spec_expect_keyword(tokens, p4 + 1, Keyword::By) {
                                        Err(e) => Err(e),
                                        Ok(p5) => match spec_parse_order_columns(
                                            tokens,
                                            p5,
                                            Seq::empty(),
                                        ) {
                                            Err(e) => Err(e),
                                            Ok((ocols, p6)) => Ok((Option::Some(ocols), p6)),
                                        },
                                    }
                                } else {
                                    Ok((Option::None, p4))
                                };
                                match ores {
                                    Err(e) => Err(e),
                                    Ok((order_by, p7)) => Ok(
                                        (
                                            StatementView::Select {
                                                columns,
                                                table,
                                                selection,
                                                order_by,
                                                limit: Option::None,
                                            },
                                            p7,
                                        ),
                                    ),
                                }
                            },
                        }
                    },
                }
            },
        },
    }
}

/// The statement parsed at `pos`. Only `SELECT` begins a statement; an
/// empty token sequence and any other leading token are failures.
pub open spec fn spec_parse_statement(tokens: Seq<Token>, pos: int) -> Result<
    StatementView,
    ParseError,
> {
    if pos < 0 || pos >= tokens.len() {
        Err(ParseError::General(GeneralError::EmptyInput))
    } else {
        match tokens[pos] {
            Token::Keyword(Keyword::Select) => match spec_parse_select(tokens, pos) {
                Ok((sv, p)) => Ok(sv),
                Err(e) => Err(e),
            },
            t => Err(ParseError::UnknownStartOfStatement(t)),
        }
    }
}

/// Law: a statement that parses successfully names at least one column, and
/// never carries a row limit — no `LIMIT` clause is part of the grammar.
pub proof fn lemma_select_shape(tokens: Seq<Token>, pos: int)
    ensures
        spec_parse_statement(tokens, pos) matches Ok(sv) ==> (sv matches StatementView::Select {
            columns,
            limit,
            ..
        } && columns.len() > 0 && limit is None),
{
}

/// Law: parsing is a pure function of the token sequence — two parses of
/// the identical tokens, from the same position, yield structurally equal
/// results, success or failure alike.
pub proof fn lemma_reparse_deterministic(
    tokens: Seq<Token>,
    pos: int,
    r1: Result<StatementView, ParseError>,
    r2: Result<StatementView, ParseError>,
)
    requires
        r1 == spec_parse_statement(tokens, pos),
        r2 == spec_parse_statement(tokens, pos),
    ensures
        r1 == r2,
{
}

fn is_column_list_token(t: &Token) -> (b: bool)
    ensures
        b == (*t is Identifier || *t is Comma),
{
    match t {
        Token::Identifier(_) => true,
        Token::Comma => true,
        _ => false,
    }
}

/// The statement parser: a cursor over the borrowed token sequence of one
/// input line.
pub struct SQLParser<'a> {
    tokens: &'a [Token],
    position: usize,
}

impl<'a> SQLParser<'a> {
    /// The tokens being parsed.
    pub closed spec fn toks(&self) -> Seq<Token> {
        self.tokens@
    }

    /// The cursor position.
    pub closed spec fn pos(&self) -> int {
        self.position as int
    }

    /// The cursor never stands past the end of the tokens.
    pub open spec fn wf(&self) -> bool {
        0 <= self.pos() <= self.toks().len()
    }

    /// Builds a parser over `tokens`, with the cursor at the start.
    pub fn new(tokens: &'a [Token]) -> (p: SQLParser<'a>)
        ensures
            p.wf(),
            p.toks() == tokens@,
            p.pos() == 0,
    {
        SQLParser { tokens, position: 0 }
    }

    fn expect_keyword(&mut self, keyword: Keyword) -> (r: Result<(), ParseError>)
        requires
            old(self).wf(),
        ensures
            final(self).wf(),
            final(self).toks() == old(self).toks(),
            match spec_expect_keyword(old(self).toks(), old(self).pos(), keyword) {
                Ok(p) => r is Ok && final(self).pos() == p,
                Err(e) => r == Result::<(), ParseError>::Err(e),
            },
    {
        if self.position >= self.tokens.len() {
            return Err(ParseError::UnexpectedEnd);
        }
        let toks_ref = self.tokens;
        let idx = self.position;
        self.position = idx + 1;
        match &toks_ref[idx] {
            Token::Keyword(k) => if *k == keyword {
                Ok(())
            } else {
                Err(ParseError::ExpectedKeyword(keyword))
            },
            _ => Err(ParseError::ExpectedKeyword(keyword)),
        }
    }

    fn expect_identifier(&mut self) -> (r: Result<String, ParseError>)
        requires
            old(self).wf(),
        ensures
            final(self).wf(),
            final(self).toks() == old(self).toks(),
            match spec_expect_identifier(old(self).toks(), old(self).pos()) {
                Ok(np) => r == Result::<String, ParseError>::Ok(np.0) && final(self).pos() == np.1,
                Err(e) => r == Result::<String, ParseError>::Err(e),
            },
    {
        if self.position >= self.tokens.len() {
            return Err(ParseError::UnexpectedEnd);
        }
        let toks_ref = self.tokens;
        let idx = self.position;
        self.position = idx + 1;
        match &toks_ref[idx] {
            Token::Identifier(name) => Ok(name.clone()),
            _ => Err(ParseError::ExpectedIdentifier),
        }
    }

    /// Parses the one statement that the tokens spell, leaving the cursor
    /// after the tokens the statement covered.
    pub fn parse_statement(&mut self) -> (r: Result<Statement, ParseError>)
        requires
            old(self).wf(),
        ensures
            final(self).wf(),
            final(self).toks() == old(self).toks(),
            match spec_parse_statement(old(self).toks(), old(self).pos()) {
                Ok(sv) => r matches Ok(s) && s@ == sv,
                Err(e) => r == Result::<Statement, ParseError>::Err(e),
            },
    {
        if self.position >= self.tokens.len() {
            return Err(ParseError::General(GeneralError::EmptyInput));
        }
        let toks_ref = self.tokens;
        match &toks_ref[self.position] {
            Token::Keyword(Keyword::Select) => match self.parse_select() {
                Ok(s) => Ok(s),
                Err(e) => Err(e),
            },
            t => Err(ParseError::UnknownStartOfStatement(t.clone())),
        }
    }

    #[verifier::loop_isolation(false)]
    fn parse_select(&mut self) -> (r: Result<Statement, ParseError>)
        requires
            old(self).wf(),
        ensures
            final(self).wf(),
            final(self).toks() == old(self).toks(),
            match spec_parse_select(old(self).toks(), old(self).pos()) {
                Ok(svp) => r matches Ok(s) && s@ == svp.0 && final(self).pos() == svp.1,
                Err(e) => r == Result::<Statement, ParseError>::Err(e),
            },
    {
        let ghost toks = self.tokens@;
        let toks_ref = self.tokens;
        match self.expect_keyword(Keyword::Select) {
            Ok(_) => {},
            Err(e) => {
                return Err(e);
            },
        }
        let ghost p1 = self.position as int;

        let mut columns: Vec<String> = Vec::new();
        while self.position < self.tokens.len() && is_column_list_token(&toks_ref[self.position])
            invariant
                self.wf(),
                self.toks() == toks,
                spec_parse_columns(toks, self.pos(), columns@) == spec_parse_columns(
                    toks,
                    p1,
                    Seq::empty(),
                ),
            decreases toks.len() - self.pos(),
        {
            match &toks_ref[self.position] {
                Token::Identifier(name) => {
                    columns.push(name.clone());
                },
                _ => {},
            }
            self.position = self.position + 1;
        }
        if self.position >= self.tokens.len() {
            return Err(ParseError::General(GeneralError::UnexpectedEndInColumns));
        }
        match &toks_ref[self.position] {
            Token::Keyword(Keyword::From) => {
                self.position = self.position + 1;
            },
            t => {
                return Err(ParseError::General(GeneralError::UnexpectedTokenInColumns(t.clone())));
            },
        }
        if columns.len() == 0 {
            return Err(ParseError::General(GeneralError::EmptyColumns));
        }

        let table = match self.expect_identifier() {
            Ok(name) => name,
            Err(e) => {
                return Err(e);
            },
        };

        let mut selection: Option<Expression> = None;
        if self.position < self.tokens.len() {
            let is_where = match &toks_ref[self.position] {
                Token::Keyword(Keyword::Where) => true,
                _ => false,
            };
            if is_where {
                self.position = self.position + 1;
                let mut expr_parser = PrattParser::new_at(toks_ref, self.position);
                match expr_parser.parse_expression(1) {
                    Ok(e) => {
                        selection = Some(e);
                        self.position = expr_parser.current_position();
                    },
                    Err(e) => {
                        return Err(ParseError::InvalidExpression(e));
                    },
                }
            }
        }

        let mut order_by: Option<Vec<String>> = None;
        let is_order = if self.position < self.tokens.len() {
            match &toks_ref[self.position] {
                Token::Keyword(Keyword::Order) => true,
                _ => false,
            }
        } else {
            false
        };
        if is_order {
            self.position = self.position + 1;
            match self.expect_keyword(Keyword::By) {
                Ok(_) => {},
                Err(e) => {
                    return Err(e);
                },
            }
            let ghost p5 = self.position as int;
            let mut order_columns: Vec<String> = Vec::new();
            while self.position < self.tokens.len() && is_column_list_token(
                &toks_ref[self.position],
            )
                invariant
                    self.wf(),
                    self.toks() == toks,
                    spec_parse_order_columns(toks, self.pos(), order_columns@)
                        == spec_parse_order_columns(toks, p5, Seq::empty()),
                decreases toks.len() - self.pos(),
            {
                match &toks_ref[self.position] {
                    Token::Identifier(name) => {
                        order_columns.push(name.clone());
                    },
                    _ => {},
                }
                self.position = self.position + 1;
            }
            if self.position >= self.tokens.len() {
                return Err(ParseError::UnexpectedEnd);
            }
            match &toks_ref[self.position] {
                Token::Semicolon => {
                    self.position = self.position + 1;
                },
                Token::Eof => {
                    self.position = self.position + 1;
                },
                t => {
                    return Err(
                        ParseError::General(GeneralError::UnexpectedTokenInOrderBy(t.clone())),
                    );
                },
            }
            order_by = Some(order_columns);
        }

        Ok(Statement::Select { columns, table, selection, order_by, limit: None })
    }
}

} // verus!
