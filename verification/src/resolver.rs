use vstd::prelude::*;
use crate::expression::{expr_view, Expression, ExprView};
use crate::program::{EnvsView, ProgramEnvs};
use crate::runtime::param_names;
use crate::statement::{opt_stmt_view_unfolds, stmt_view, Statement, StmtView};
use crate::value::ExpressionRes;

verus! {

/// What a walk over a function body has found so far: the outer variables
/// that the body uses, each with its cell, in the order of their first use,
/// and the names that the body has made its own.
pub struct Captures {
    pub captured: Seq<(Seq<char>, nat)>,
    pub locals: Seq<Seq<char>>,
}

/// Whether `name` is among the captured variables.
pub open spec fn is_captured(captured: Seq<(Seq<char>, nat)>, name: Seq<char>) -> bool {
    exists|i: int| 0 <= i < captured.len() && (#[trigger] captured[i]).0 == name
}

/// A use of the variable `name`: unless it is a parameter, a local or
/// captured already, and if the defining environment knows it, it is
/// captured with the cell it has there.
pub open spec fn use_name(
    name: Seq<char>,
    params: Seq<Seq<char>>,
    envs: EnvsView,
    c: Captures,
) -> Captures {
    if c.locals.contains(name) || params.contains(name) || is_captured(c.captured, name) {
        c
    } else {
        match envs.lookup(name) {
            Some(cell) => Captures { captured: c.captured.push((name, cell)), ..c },
            None => c,
        }
    }
}

/// The name `name` is local to the body from here on.
pub open spec fn make_local(name: Seq<char>, c: Captures) -> Captures {
    Captures { locals: c.locals.push(name), ..c }
}

/// The target of a declaration or an assignment becomes local, if it is a
/// name.
pub open spec fn claim(target: ExprView, c: Captures) -> Captures {
    match target {
        ExprView::Variable { token_type, value } => make_local(value, c),
        _ => c,
    }
}

/// The walk over an expression. The right operand of an operator is
/// walked before the left one; the target of an assignment is local before
/// its value is walked.
pub open spec fn walk_expr(e: ExprView, params: Seq<Seq<char>>, envs: EnvsView, c: Captures) -> Captures
    decreases e, 0nat,
{
    match e {
        ExprView::Grouping { value } => walk_expr(*value, params, envs, c),
        ExprView::Binary { token, rhs, lhs } => walk_expr(
            *lhs,
            params,
            envs,
            walk_expr(*rhs, params, envs, c),
        ),
        ExprView::Unary { token, rhs } => walk_expr(*rhs, params, envs, c),
        ExprView::Literal { token_type, value } => c,
        ExprView::Variable { token_type, value } => use_name(value, params, envs, c),
        ExprView::Assignment { identifier, value } => walk_expr(
            *value,
            params,
            envs,
            claim(*identifier, c),
        ),
        ExprView::Logical { token, rhs, lhs } => walk_expr(
            *lhs,
            params,
            envs,
            walk_expr(*rhs, params, envs, c),
        ),
        ExprView::Call { identifier, args } => walk_exprs(
            args,
            0,
            params,
            envs,
            walk_expr(*identifier, params, envs, c),
        ),
    }
}

/// The walk over the expressions of `list` from the index `from` on.
pub open spec fn walk_exprs(
    list: Seq<ExprView>,
    from: nat,
    params: Seq<Seq<char>>,
    envs: EnvsView,
    c: Captures,
) -> Captures
    decreases list, list.len() - from,
{
    if from >= list.len() {
        c
    } else {
        walk_exprs(list, from + 1, params, envs, walk_expr(list[from as int], params, envs, c))
    }
}

/// The walk over an expression that may be missing.
pub open spec fn walk_opt_expr(
    e: Option<ExprView>,
    params: Seq<Seq<char>>,
    envs: EnvsView,
    c: Captures,
) -> Captures {
    match e {
        Some(x) => walk_expr(x, params, envs, c),
        None => c,
    }
}

/// The walk over a statement, in the order of the text. A declared name is
/// local before its initializer is walked; a function defined inside is
/// not walked.
pub open spec fn walk_stmt(s: StmtView, params: Seq<Seq<char>>, envs: EnvsView, c: Captures) -> Captures
    decreases s, 0nat,
{
    match s {
        StmtView::Stmt { expr } => walk_expr(expr, params, envs, c),
        StmtView::If { expr, body, else_body } => {
            let after_body = walk_stmt(*body, params, envs, walk_expr(expr, params, envs, c));
            match else_body {
                Some(other) => walk_stmt(*other, params, envs, after_body),
                None => after_body,
            }
        },
        StmtView::Fun { identifier, args, block } => c,
        StmtView::While { expr, body } => walk_stmt(
            *body,
            params,
            envs,
            walk_expr(expr, params, envs, c),
        ),
        StmtView::For { initiation, condition, increment, body } => {
            let c1 = match initiation {
                Some(i) => walk_stmt(*i, params, envs, c),
                None => c,
            };
            let c2 = match condition {
                Some(t) => walk_stmt(*t, params, envs, c1),
                None => c1,
            };
            let c3 = walk_stmt(*body, params, envs, c2);
            match increment {
                Some(n) => walk_stmt(*n, params, envs, c3),
                None => c3,
            }
        },
        StmtView::Print { expr } => walk_expr(expr, params, envs, c),
        StmtView::Block { statements } => walk_stmts(statements, 0, params, envs, c),
        StmtView::VarDeclaration { identifier, expr } => walk_opt_expr(
            expr,
            params,
            envs,
            claim(identifier, c),
        ),
        StmtView::Return { expr } => walk_opt_expr(expr, params, envs, c),
    }
}

/// The walk over the statements of `list` from the index `from` on.
pub open spec fn walk_stmts(
    list: Seq<StmtView>,
    from: nat,
    params: Seq<Seq<char>>,
    envs: EnvsView,
    c: Captures,
) -> Captures
    decreases list, list.len() - from,
{
    if from >= list.len() {
        c
    } else {
        walk_stmts(list, from + 1, params, envs, walk_stmt(list[from as int], params, envs, c))
    }
}

/// The outer variables that a function with the parameters `params` and
/// the body `body` uses, each with the cell it has in `envs`.
pub open spec fn captures_of(body: StmtView, params: Seq<Seq<char>>, envs: EnvsView) -> Seq<
    (Seq<char>, nat),
> {
    walk_stmt(body, params, envs, Captures { captured: Seq::empty(), locals: Seq::empty() }).captured
}


/// The views of a sequence of names.
pub open spec fn name_views(names: Seq<String>) -> Seq<Seq<char>> {
    names.map_values(|n: String| n@)
}

/// The views of a sequence of captured variables.
pub open spec fn capture_views(captured: Seq<(String, usize)>) -> Seq<(Seq<char>, nat)> {
    captured.map_values(|p: (String, usize)| (p.0@, p.1 as nat))
}

/// Walks a function body and collects the outer variables it uses.
pub struct CaptureResolver<'a> {
    captured: Vec<(String, usize)>,
    parameters: &'a Vec<ExpressionRes>,
    local_vars: Vec<String>,
    env: &'a ProgramEnvs,
}

impl<'a> View for CaptureResolver<'a> {
    type V = Captures;

    closed spec fn view(&self) -> Captures {
        Captures {
            captured: capture_views(self.captured@),
            locals: name_views(self.local_vars@),
        }
    }
}

/// The two walks of a resolver.
pub trait Resolve {
    /// What the resolver has found so far.
    spec fn found(&self) -> Captures;

    /// What a walk over `statement` adds to what was found before.
    spec fn after_statement(&self, statement: StmtView) -> Captures;

    /// What a walk over `expression` adds to what was found before.
    spec fn after_expression(&self, expression: ExprView) -> Captures;

    /// Whether the resolver can walk.
    spec fn ready(&self) -> bool;

    /// Whether `other` walks for the same function in the same environment.
    spec fn same_task(&self, other: &Self) -> bool;

    fn resolve_statement(&mut self, statement: &Statement)
        requires
            old(self).ready(),
        ensures
            final(self).ready(),
            final(self).same_task(old(self)),
            final(self).found() == old(self).after_statement(statement@),
    ;

    fn resolve_expression(&mut self, expression: &Expression)
        requires
            old(self).ready(),
        ensures
            final(self).ready(),
            final(self).same_task(old(self)),
            final(self).found() == old(self).after_expression(expression@),
    ;
}

impl<'a> CaptureResolver<'a> {
    /// The parameters of the function whose body is walked.
    pub closed spec fn params(&self) -> Seq<Seq<char>> {
        param_names(self.parameters@)
    }

    /// The environment in which the function is defined.
    pub closed spec fn defining(&self) -> EnvsView {
        self.env@
    }

    /// The invariant of a resolver: its environment is well formed.
    pub closed spec fn wf(&self) -> bool {
        self.env.wf()
    }

    /// A resolver that has found nothing yet.
    pub fn new_with_environment(
        env: &'a ProgramEnvs,
        parameters: &'a Vec<ExpressionRes>,
    ) -> (r: CaptureResolver<'a>)
        requires
            env.wf(),
        ensures
            r.wf(),
            r.params() == param_names(parameters@),
            r.defining() == env@,
            r@ == (Captures { captured: Seq::empty(), locals: Seq::empty() }),
    {
        let r = CaptureResolver { captured: Vec::new(), parameters, local_vars: Vec::new(), env };
        assert(r@.captured =~= Seq::<(Seq<char>, nat)>::empty());
        assert(r@.locals =~= Seq::<Seq<char>>::empty());
        r
    }

    /// The captured variables, each with its cell, in the order of their
    /// first use.
    pub fn get_captured(self) -> (captured: Vec<(String, usize)>)
        ensures
            capture_views(captured@) == self@.captured,
    {
        self.captured
    }

    fn is_local(&self, name: &String) -> (b: bool)
        ensures
            b == self@.locals.contains(name@),
    {
        let mut i: usize = 0;
        while i < self.local_vars.len()
            invariant
                i <= self.local_vars.len(),
                forall|j: int| 0 <= j < i ==> self@.locals[j] != name@,
            decreases self.local_vars.len() - i,
        {
            if self.local_vars[i] == *name {
                assert(self@.locals[i as int] == name@);
                return true;
            }
            i += 1;
        }
        false
    }

    fn is_parameter(&self, name: &String) -> (b: bool)
        ensures
            b == self.params().contains(name@),
    {
        let mut i: usize = 0;
        while i < self.parameters.len()
            invariant
                i <= self.parameters.len(),
                forall|j: int| 0 <= j < i ==> self.params()[j] != name@,
            decreases self.parameters.len() - i,
        {
            if self.parameters[i].str == *name {
                assert(self.params()[i as int] == name@);
                return true;
            }
            i += 1;
        }
        false
    }

    fn has_captured(&self, name: &String) -> (b: bool)
        ensures
            b == is_captured(self@.captured, name@),
    {
        let mut i: usize = 0;
        while i < self.captured.len()
            invariant
                i <= self.captured.len(),
                forall|j: int| 0 <= j < i ==> (#[trigger] self@.captured[j]).0 != name@,
            decreases self.captured.len() - i,
        {
            if self.captured[i].0 == *name {
                assert(self@.captured[i as int].0 == name@);
                return true;
            }
            i += 1;
        }
        false
    }

    /// A use of the variable `name`.
    fn use_variable(&mut self, name: &String)
        requires
            old(self).wf(),
        ensures
            final(self).wf(),
            final(self).params() == old(self).params(),
            final(self).defining() == old(self).defining(),
            final(self)@ == use_name(name@, old(self).params(), old(self).defining(), old(self)@),
    {
        if self.is_local(name) || self.is_parameter(name) || self.has_captured(name) {
            return ;
        }
        match self.env.lookup_var(name.clone()) {
            Ok(cell) => {
                self.captured.push((name.clone(), cell));
                assert(self@.captured =~= old(self)@.captured.push((name@, cell as nat)));
            },
            Err(_) => {},
        }
    }

    /// The target of a declaration or an assignment becomes local.
    fn claim_target(&mut self, target: &Expression)
        requires
            old(self).wf(),
        ensures
            final(self).wf(),
            final(self).params() == old(self).params(),
            final(self).defining() == old(self).defining(),
            final(self)@ == claim(target@, old(self)@),
    {
        match target {
            Expression::VariableExpr { token_type, value } => {
                self.add_local(value);
            },
            _ => {},
        }
    }

    fn add_local(&mut self, name: &String)
        requires
            old(self).wf(),
        ensures
            final(self).wf(),
            final(self).params() == old(self).params(),
            final(self).defining() == old(self).defining(),
            final(self)@ == make_local(name@, old(self)@),
    {
        self.local_vars.push(name.clone());
        assert(self@.locals =~= old(self)@.locals.push(name@));
    }

    /// Walks an expression.
    pub fn walk_expression(&mut self, expression: &Expression)
        requires
            old(self).wf(),
        ensures
            final(self).wf(),
            final(self).params() == old(self).params(),
            final(self).defining() == old(self).defining(),
            final(self)@ == walk_expr(
                expression@,
                old(self).params(),
                old(self).defining(),
                old(self)@,
            ),
        decreases expression,
    {
        match expression {
            Expression::GroupingExpr { value } => {
                self.walk_expression(value);
            },
            Expression::BinaryExpr { token, rhs, lhs } => {
                self.walk_expression(rhs);
                self.walk_expression(lhs);
            },
            Expression::UnaryExpr { token, rhs } => {
                self.walk_expression(rhs);
            },
            Expression::LiteralExpr { token_type, value } => {},
            Expression::VariableExpr { token_type, value } => {
                self.use_variable(value);
            },
            Expression::Assignment { identifier, value } => {
                self.claim_target(identifier);
                self.walk_expression(value);
            },
            Expression::Logical { token, rhs, lhs } => {
                self.walk_expression(rhs);
                self.walk_expression(lhs);
            },
            Expression::Call { identifier, args } => {
                self.walk_expression(identifier);
                let ghost list = expression@->Call_args;
                let mut i: usize = 0;
                while i < args.len()
                    invariant
                        i <= args.len(),
                        self.wf(),
                        self.params() == old(self).params(),
                        self.defining() == old(self).defining(),
                        decreases_to!(expression => args),
                        list.len() == args.len(),
                        forall|j: int| 0 <= j < args.len() ==> list[j] == expr_view(*args@[j]),
                        walk_expr(
                            expression@,
                            old(self).params(),
                            old(self).defining(),
                            old(self)@,
                        ) == walk_exprs(list, i as nat, self.params(), self.defining(), self@),
                    decreases args.len() - i,
                {
                    self.walk_expression(&args[i]);
                    i += 1;
                }
            },
        }
    }

    fn walk_optional(&mut self, expression: &Option<Box<Expression>>)
        requires
            old(self).wf(),
        ensures
            final(self).wf(),
            final(self).params() == old(self).params(),
            final(self).defining() == old(self).defining(),
            final(self)@ == walk_opt_expr(
                crate::statement::opt_expr_view(*expression),
                old(self).params(),
                old(self).defining(),
                old(self)@,
            ),
    {
        match expression {
            Some(e) => {
                self.walk_expression(e);
            },
            None => {},
        }
    }

    /// Walks a statement.
    pub fn walk_statement(&mut self, statement: &Statement)
        requires
            old(self).wf(),
        ensures
            final(self).wf(),
            final(self).params() == old(self).params(),
            final(self).defining() == old(self).defining(),
            final(self)@ == walk_stmt(
                statement@,
                old(self).params(),
                old(self).defining(),
                old(self)@,
            ),
        decreases statement,
    {
        match statement {
            Statement::Stmt { expr } => {
                self.walk_expression(expr);
            },
            Statement::IfStatement { expr, body, else_body } => {
                proof {
                    opt_stmt_view_unfolds(*else_body);
                }
                self.walk_expression(expr);
                self.walk_statement(body);
                match else_body {
                    Some(other) => {
                        self.walk_statement(other);
                    },
                    None => {},
                }
            },
            Statement::FunStatement { identifier, args, block } => {},
            Statement::WhileStatement { expr, body } => {
                self.walk_expression(expr);
                self.walk_statement(body);
            },
            Statement::ForStatement { initiation, condition, increment, body } => {
                proof {
                    opt_stmt_view_unfolds(*initiation);
                    opt_stmt_view_unfolds(*condition);
                    opt_stmt_view_unfolds(*increment);
                }
                match initiation {
                    Some(i) => {
                        self.walk_statement(i);
                    },
                    None => {},
                }
                match condition {
                    Some(t) => {
                        self.walk_statement(t);
                    },
                    None => {},
                }
                self.walk_statement(body);
                match increment {
                    Some(n) => {
                        self.walk_statement(n);
                    },
                    None => {},
                }
            },
            Statement::PrintStatement { expr } => {
                self.walk_expression(expr);
            },
            Statement::BlockStatement { statements } => {
                let ghost list = statement@->Block_statements;
                let mut i: usize = 0;
                while i < statements.len()
                    invariant
                        i <= statements.len(),
                        self.wf(),
                        self.params() == old(self).params(),
                        self.defining() == old(self).defining(),
                        decreases_to!(statement => statements),
                        list.len() == statements.len(),
                        forall|j: int|
                            0 <= j < statements.len() ==> list[j] == stmt_view(*statements@[j]),
                        walk_stmt(
                            statement@,
                            old(self).params(),
                            old(self).defining(),
                            old(self)@,
                        ) == walk_stmts(list, i as nat, self.params(), self.defining(), self@),
                    decreases statements.len() - i,
                {
                    self.walk_statement(&statements[i]);
                    i += 1;
                }
            },
            Statement::VarDeclaration { identifier, expr } => {
                self.claim_target(identifier);
                self.walk_optional(expr);
            },
            Statement::ReturnStatement { expr } => {
                self.walk_optional(expr);
            },
        }
    }
}

impl<'a> Resolve for CaptureResolver<'a> {
    open spec fn found(&self) -> Captures {
        self@
    }

    open spec fn after_statement(&self, statement: StmtView) -> Captures {
        walk_stmt(statement, self.params(), self.defining(), self@)
    }

    open spec fn after_expression(&self, expression: ExprView) -> Captures {
        walk_expr(expression, self.params(), self.defining(), self@)
    }

    open spec fn ready(&self) -> bool {
        self.wf()
    }

    open spec fn same_task(&self, other: &Self) -> bool {
        self.params() == other.params() && self.defining() == other.defining()
    }

    fn resolve_statement(&mut self, statement: &Statement) {
        self.walk_statement(statement);
    }

    fn resolve_expression(&mut self, expression: &Expression) {
        self.walk_expression(expression);
    }
}

} // verus!
