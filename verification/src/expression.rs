use vstd::prelude::*;
use crate::token::{Token, TokenType, TokenView};

verus! {

/// An expression of the language. Each node owns its children.
#[derive(Debug)]
pub enum Expression {
    /// A parenthesised expression.
    GroupingExpr { value: Box<Expression> },
    /// An arithmetic or comparison operator applied to two operands.
    BinaryExpr { token: Token, rhs: Box<Expression>, lhs: Box<Expression> },
    /// A prefix operator applied to one operand.
    UnaryExpr { token: Token, rhs: Box<Expression> },
    /// A literal: the kind of its token and its text.
    LiteralExpr { token_type: TokenType, value: String },
    /// A name.
    VariableExpr { token_type: TokenType, value: String },
    /// An assignment of `value` to the name that `identifier` denotes.
    Assignment { identifier: Box<Expression>, value: Box<Expression> },
    /// `and` or `or` applied to two operands.
    Logical { token: Token, rhs: Box<Expression>, lhs: Box<Expression> },
    /// A call of `identifier` with the arguments `args`.
    Call { identifier: Box<Expression>, args: Vec<Box<Expression>> },
}

/// The mathematical value of an expression.
pub enum ExprView {
    Grouping { value: Box<ExprView> },
    Binary { token: TokenView, rhs: Box<ExprView>, lhs: Box<ExprView> },
    Unary { token: TokenView, rhs: Box<ExprView> },
    Literal { token_type: TokenType, value: Seq<char> },
    Variable { token_type: TokenType, value: Seq<char> },
    Assignment { identifier: Box<ExprView>, value: Box<ExprView> },
    Logical { token: TokenView, rhs: Box<ExprView>, lhs: Box<ExprView> },
    Call { identifier: Box<ExprView>, args: Seq<ExprView> },
}

/// The view of an expression: the same tree over sequences of characters.
pub open spec fn expr_view(e: Expression) -> ExprView
    decreases e,
{
    match e {
        Expression::GroupingExpr { value } => ExprView::Grouping {
            value: Box::new(expr_view(*value)),
        },
        Expression::BinaryExpr { token, rhs, lhs } => ExprView::Binary {
            token: token@,
            rhs: Box::new(expr_view(*rhs)),
            lhs: Box::new(expr_view(*lhs)),
        },
        Expression::UnaryExpr { token, rhs } => ExprView::Unary {
            token: token@,
            rhs: Box::new(expr_view(*rhs)),
        },
        Expression::LiteralExpr { token_type, value } => ExprView::Literal {
            token_type,
            value: value@,
        },
        Expression::VariableExpr { token_type, value } => ExprView::Variable {
            token_type,
            value: value@,
        },
        Expression::Assignment { identifier, value } => ExprView::Assignment {
            identifier: Box::new(expr_view(*identifier)),
            value: Box::new(expr_view(*value)),
        },
        Expression::Logical { token, rhs, lhs } => ExprView::Logical {
            token: token@,
            rhs: Box::new(expr_view(*rhs)),
            lhs: Box::new(expr_view(*lhs)),
        },
        Expression::Call { identifier, args } => ExprView::Call {
            identifier: Box::new(expr_view(*identifier)),
            args: Seq::new(
                args@.len(),
                |i: int|
                    if 0 <= i < args@.len() {
                        expr_view(*args@[i])
                    } else {
                        ExprView::Literal { token_type: TokenType::Nil, value: Seq::empty() }
                    },
            ),
        },
    }
}

impl View for Expression {
    type V = ExprView;

    open spec fn view(&self) -> ExprView {
        expr_view(*self)
    }
}

/// The views of a sequence of boxed expressions.
pub open spec fn boxed_expr_views(s: Seq<Box<Expression>>) -> Seq<ExprView> {
    Seq::new(s.len(), |i: int| expr_view(*s[i]))
}

/// The views of a sequence of expressions.
pub open spec fn expr_views(s: Seq<Expression>) -> Seq<ExprView> {
    Seq::new(s.len(), |i: int| expr_view(s[i]))
}

/// A copy of an expression tree.
pub fn clone_expression(e: &Expression) -> (r: Expression)
    ensures
        r@ == e@,
    decreases e,
{
    match e {
        Expression::GroupingExpr { value } => Expression::GroupingExpr {
            value: Box::new(clone_expression(value)),
        },
        Expression::BinaryExpr { token, rhs, lhs } => Expression::BinaryExpr {
            token: token.clone(),
            rhs: Box::new(clone_expression(rhs)),
            lhs: Box::new(clone_expression(lhs)),
        },
        Expression::UnaryExpr { token, rhs } => Expression::UnaryExpr {
            token: token.clone(),
            rhs: Box::new(clone_expression(rhs)),
        },
        Expression::LiteralExpr { token_type, value } => Expression::LiteralExpr {
            token_type: *token_type,
            value: value.clone(),
        },
        Expression::VariableExpr { token_type, value } => Expression::VariableExpr {
            token_type: *token_type,
            value: value.clone(),
        },
        Expression::Assignment { identifier, value } => Expression::Assignment {
            identifier: Box::new(clone_expression(identifier)),
            value: Box::new(clone_expression(value)),
        },
        Expression::Logical { token, rhs, lhs } => Expression::Logical {
            token: token.clone(),
            rhs: Box::new(clone_expression(rhs)),
            lhs: Box::new(clone_expression(lhs)),
        },
        Expression::Call { identifier, args } => {
            let callee = clone_expression(identifier);
            let mut copies: Vec<Box<Expression>> = Vec::new();
            let mut i: usize = 0;
            while i < args.len()
                invariant
                    i <= args.len(),
                    copies@.len() == i,
                    decreases_to!(e => args),
                    forall|j: int| 0 <= j < i ==> expr_view(*#[trigger] copies@[j]) == expr_view(*args@[j]),
                decreases args.len() - i,
            {
                let copy = clone_expression(&args[i]);
                copies.push(Box::new(copy));
                i += 1;
            }
            let r = Expression::Call { identifier: Box::new(callee), args: copies };
            assert(r@->Call_args =~= e@->Call_args);
            r
        },
    }
}

impl Clone for Expression {
    fn clone(&self) -> (r: Expression)
        ensures
            r@ == self@,
    {
        clone_expression(self)
    }
}

} // verus!
