//! The abstract syntax tree: expressions and statements as they come out
//! of the parsers. All nodes own their children exclusively; nothing is
//! mutated after construction.

use vstd::prelude::*;

verus! {

/// A unary prefix operator.
#[derive(Debug, Clone, Copy, PartialEq, Eq, Structural)]
pub enum UnaryOperator {
    Not,
    Negate,
}

/// A binary infix operator.
#[derive(Debug, Clone, Copy, PartialEq, Eq, Structural)]
pub enum BinaryOperator {
    Equals,
    NotEquals,
    GreaterThan,
    GreaterThanOrEqual,
    LessThan,
    LessThanOrEqual,
    And,
    Or,
    Add,
    Subtract,
    Multiply,
    Divide,
}

/// An expression tree, as produced for a `WHERE` predicate. A parenthesized
/// sub-expression is kept as a distinct `Grouped` node, so the source
/// structure stays recoverable.
#[derive(Debug, PartialEq)]
pub enum Expression {
    Identifier(String),
    Number(u64),
    String(String),
    UnaryOperation { operator: UnaryOperator, operand: Box<Expression> },
    BinaryOperation { left_operand: Box<Expression>, operator: BinaryOperator, right_operand: Box<Expression> },
    Boolean(bool),
    Null,
    Grouped(Box<Expression>),
}

/// The mathematical model of a `Statement`: the column vectors as
/// sequences, everything else as it stands in the tree.
pub enum StatementView {
    Select {
        columns: Seq<String>,
        table: String,
        selection: Option<Expression>,
        order_by: Option<Seq<String>>,
        limit: Option<u64>,
    },
}

/// A SQL statement. Only `SELECT` is parsed; the `limit` field exists in
/// the model but no `LIMIT` clause is part of the grammar, so a parse
/// always leaves it absent.
#[derive(Debug, PartialEq)]
pub enum Statement {
    Select {
        columns: Vec<String>,
        table: String,
        selection: Option<Expression>,
        order_by: Option<Vec<String>>,
        limit: Option<u64>,
    },
}

impl View for Statement {
    type V = StatementView;

    open spec fn view(&self) -> StatementView {
        match self {
            Statement::Select { columns, table, selection, order_by, limit } => StatementView::Select {
                columns: columns@,
                table: *table,
                selection: *selection,
                order_by: match order_by {
                    Option::Some(v) => Option::Some(v@),
                    Option::None => Option::None,
                },
                limit: *limit,
            },
        }
    }
}

impl Statement {
    /// Builds a `Select` statement from its parts.
    pub fn new_select(
        columns: Vec<String>,
        table: String,
        selection: Option<Expression>,
        order_by: Option<Vec<String>>,
        limit: Option<u64>,
    ) -> (s: Statement)
        ensures
            s == (Statement::Select { columns, table, selection, order_by, limit }),
    {
        Statement::Select { columns, table, selection, order_by, limit }
    }
}

} // verus!
