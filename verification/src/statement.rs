use vstd::prelude::*;
use crate::expression::{clone_expression, expr_view, expr_views, Expression, ExprView};
use crate::token::{Token, TokenView};

verus! {

/// A statement of the language.
#[derive(Debug)]
pub enum Statement {
    /// An expression evaluated for its effect.
    Stmt { expr: Box<Expression> },
    /// A conditional with an optional `else` branch.
    IfStatement { expr: Expression, body: Box<Statement>, else_body: Option<Box<Statement>> },
    /// A function definition: its name, its parameters and its body.
    FunStatement { identifier: Token, args: Vec<Expression>, block: Option<Box<Statement>> },
    /// A loop that runs `body` while `expr` holds.
    WhileStatement { expr: Box<Expression>, body: Box<Statement> },
    /// A loop with an optional start, condition and step.
    ForStatement {
        initiation: Option<Box<Statement>>,
        condition: Option<Box<Statement>>,
        increment: Option<Box<Statement>>,
        body: Box<Statement>,
    },
    /// Writes the value of `expr` as a line of output.
    PrintStatement { expr: Box<Expression> },
    /// Statements that run in a scope of their own.
    BlockStatement { statements: Vec<Box<Statement>> },
    /// Declares a variable; without an initializer it holds nil.
    VarDeclaration { identifier: Box<Expression>, expr: Option<Box<Expression>> },
    /// Leaves the enclosing function, with a value if `expr` is given.
    ReturnStatement { expr: Option<Box<Expression>> },
}

/// The mathematical value of a statement.
pub enum StmtView {
    Stmt { expr: ExprView },
    If { expr: ExprView, body: Box<StmtView>, else_body: Option<Box<StmtView>> },
    Fun { identifier: TokenView, args: Seq<ExprView>, block: Option<Box<StmtView>> },
    While { expr: ExprView, body: Box<StmtView> },
    For {
        initiation: Option<Box<StmtView>>,
        condition: Option<Box<StmtView>>,
        increment: Option<Box<StmtView>>,
        body: Box<StmtView>,
    },
    Print { expr: ExprView },
    Block { statements: Seq<StmtView> },
    VarDeclaration { identifier: ExprView, expr: Option<ExprView> },
    Return { expr: Option<ExprView> },
}

/// The view of an optional boxed statement.
pub open spec fn opt_stmt_view(s: Option<Box<Statement>>) -> Option<Box<StmtView>>
    decreases s,
{
    match s {
        Some(b) => Some(Box::new(stmt_view(*b))),
        None => None,
    }
}

/// The view of an optional boxed statement is the view of what it holds.
pub proof fn opt_stmt_view_unfolds(s: Option<Box<Statement>>)
    ensures
        opt_stmt_view(s) == match s {
            Some(b) => Some(Box::new(stmt_view(*b))),
            None => None,
        },
{
}

/// The view of an optional boxed expression.
pub open spec fn opt_expr_view(e: Option<Box<Expression>>) -> Option<ExprView> {
    match e {
        Some(b) => Some(expr_view(*b)),
        None => None,
    }
}

/// The view of a statement: the same tree over sequences of characters.
pub open spec fn stmt_view(s: Statement) -> StmtView
    decreases s,
{
    match s {
        Statement::Stmt { expr } => StmtView::Stmt { expr: expr_view(*expr) },
        Statement::IfStatement { expr, body, else_body } => StmtView::If {
            expr: expr_view(expr),
            body: Box::new(stmt_view(*body)),
            else_body: opt_stmt_view(else_body),
        },
        Statement::FunStatement { identifier, args, block } => StmtView::Fun {
            identifier: identifier@,
            args: expr_views(args@),
            block: opt_stmt_view(block),
        },
        Statement::WhileStatement { expr, body } => StmtView::While {
            expr: expr_view(*expr),
            body: Box::new(stmt_view(*body)),
        },
        Statement::ForStatement { initiation, condition, increment, body } => StmtView::For {
            initiation: opt_stmt_view(initiation),
            condition: opt_stmt_view(condition),
            increment: opt_stmt_view(increment),
            body: Box::new(stmt_view(*body)),
        },
        Statement::PrintStatement { expr } => StmtView::Print { expr: expr_view(*expr) },
        Statement::BlockStatement { statements } => StmtView::Block {
            statements: Seq::new(
                statements@.len(),
                |i: int|
                    if 0 <= i < statements@.len() {
                        stmt_view(*statements@[i])
                    } else {
                        StmtView::Block { statements: Seq::empty() }
                    },
            ),
        },
        Statement::VarDeclaration { identifier, expr } => StmtView::VarDeclaration {
            identifier: expr_view(*identifier),
            expr: opt_expr_view(expr),
        },
        Statement::ReturnStatement { expr } => StmtView::Return { expr: opt_expr_view(expr) },
    }
}

impl View for Statement {
    type V = StmtView;

    open spec fn view(&self) -> StmtView {
        stmt_view(*self)
    }
}

/// The view of a statement that may be missing.
pub open spec fn maybe_stmt_view(s: Option<Box<Statement>>) -> Option<StmtView> {
    match s {
        Some(b) => Some(stmt_view(*b)),
        None => None,
    }
}

/// The views of a sequence of boxed statements.
pub open spec fn boxed_stmt_views(s: Seq<Box<Statement>>) -> Seq<StmtView> {
    Seq::new(s.len(), |i: int| stmt_view(*s[i]))
}

fn clone_opt_expression(e: &Option<Box<Expression>>) -> (r: Option<Box<Expression>>)
    ensures
        opt_expr_view(r) == opt_expr_view(*e),
{
    match e {
        Some(b) => Some(Box::new(clone_expression(b))),
        None => None,
    }
}

fn clone_opt_statement(s: &Option<Box<Statement>>) -> (r: Option<Box<Statement>>)
    ensures
        opt_stmt_view(r) == opt_stmt_view(*s),
    decreases s,
{
    match s {
        Some(b) => Some(Box::new(clone_statement(b))),
        None => None,
    }
}

/// A copy of a statement tree.
pub fn clone_statement(s: &Statement) -> (r: Statement)
    ensures
        r@ == s@,
    decreases s,
{
    match s {
        Statement::Stmt { expr } => Statement::Stmt { expr: Box::new(clone_expression(expr)) },
        Statement::IfStatement { expr, body, else_body } => Statement::IfStatement {
            expr: clone_expression(expr),
            body: Box::new(clone_statement(body)),
            else_body: clone_opt_statement(else_body),
        },
        Statement::FunStatement { identifier, args, block } => {
            let mut copies: Vec<Expression> = Vec::new();
            let mut i: usize = 0;
            while i < args.len()
                invariant
                    i <= args.len(),
                    copies@.len() == i,
                    forall|j: int| 0 <= j < i ==> expr_view(#[trigger] copies@[j]) == expr_view(args@[j]),
                decreases args.len() - i,
            {
                copies.push(clone_expression(&args[i]));
                i += 1;
            }
            let r = Statement::FunStatement {
                identifier: identifier.clone(),
                args: copies,
                block: clone_opt_statement(block),
            };
            assert(r@->Fun_args =~= s@->Fun_args);
            r
        },
        Statement::WhileStatement { expr, body } => Statement::WhileStatement {
            expr: Box::new(clone_expression(expr)),
            body: Box::new(clone_statement(body)),
        },
        Statement::ForStatement { initiation, condition, increment, body } => {
            Statement::ForStatement {
                initiation: clone_opt_statement(initiation),
                condition: clone_opt_statement(condition),
                increment: clone_opt_statement(increment),
                body: Box::new(clone_statement(body)),
            }
        },
        Statement::PrintStatement { expr } => Statement::PrintStatement {
            expr: Box::new(clone_expression(expr)),
        },
        Statement::BlockStatement { statements } => {
            let mut copies: Vec<Box<Statement>> = Vec::new();
            let mut i: usize = 0;
            while i < statements.len()
                invariant
                    i <= statements.len(),
                    copies@.len() == i,
                    decreases_to!(s => statements),
                    forall|j: int| 0 <= j < i ==> stmt_view(*#[trigger] copies@[j]) == stmt_view(*statements@[j]),
                decreases statements.len() - i,
            {
                let copy = clone_statement(&statements[i]);
                copies.push(Box::new(copy));
                i += 1;
            }
            let r = Statement::BlockStatement { statements: copies };
            assert(r@->Block_statements =~= s@->Block_statements);
            r
        },
        Statement::VarDeclaration { identifier, expr } => Statement::VarDeclaration {
            identifier: Box::new(clone_expression(identifier)),
            expr: clone_opt_expression(expr),
        },
        Statement::ReturnStatement { expr } => Statement::ReturnStatement {
            expr: clone_opt_expression(expr),
        },
    }
}

impl Clone for Statement {
    fn clone(&self) -> (r: Statement)
        ensures
            r@ == self@,
    {
        clone_statement(self)
    }
}

} // verus!
