use vstd::prelude::*;
use vstd::string::StringExecFns;
use crate::error::EvalError;
use crate::expression::{clone_expression, Expression, ExprView};
use crate::program::ProgramEnvs;
use crate::resolver::{capture_views, CaptureResolver};
use crate::runtime::{param_names, Method};
use crate::semantics::{
    apply, arithmetic, assign, binary, bind_captures, bind_params, declare, define_function, eval,
    eval_args, eval_value, for_as_while, interpret, literal, param_list, resolve, run, run_block,
    run_while, unary, Evaluated, Executed, FlowView, MachineView,
};
use crate::statement::{
    boxed_stmt_views, clone_statement, opt_stmt_view, opt_stmt_view_unfolds,
    stmt_view, Statement, StmtView,
};
use crate::text::parse_literal;
use crate::token::TokenType;
use crate::value::{value_views, ExprResType, ExpressionRes, ValueView};

verus! {

/// How a statement ended: it fell through, or it returned a value.
#[derive(Debug)]
pub enum StatementRes {
    Void,
    Expr { res: ExpressionRes },
}

impl View for StatementRes {
    type V = FlowView;

    open spec fn view(&self) -> FlowView {
        match self {
            StatementRes::Void => FlowView::Normal,
            StatementRes::Expr { res } => FlowView::Returning(res@),
        }
    }
}

/// The view of the outcome of an evaluation.
pub open spec fn value_result(r: Result<ExpressionRes, EvalError>) -> Result<ValueView, EvalError> {
    match r {
        Ok(v) => Ok(v@),
        Err(e) => Err(e),
    }
}

/// The view of the outcome of an execution.
pub open spec fn flow_result(r: Result<StatementRes, EvalError>) -> Result<FlowView, EvalError> {
    match r {
        Ok(f) => Ok(f@),
        Err(e) => Err(e),
    }
}

/// The views of a sequence of lines.
pub open spec fn line_views(lines: Seq<String>) -> Seq<Seq<char>> {
    lines.map_values(|l: String| l@)
}

/// The number of levels of nesting that an interpreter allows unless told
/// otherwise.
pub const DEFAULT_LIMIT: usize = 2000;

/// The number of rounds that an interpreter allows one loop to run unless
/// told otherwise.
pub const DEFAULT_ROUNDS: usize = 1000000000;

/// The machine that evaluates expressions and executes statements: the
/// environments, the lines printed so far, the errors reported so far, and
/// its two budgets: how deep evaluation may nest and how many rounds one
/// loop may run.
pub struct ExpressionInterpreter {
    pub envs: ProgramEnvs,
    output: Vec<String>,
    reports: Vec<EvalError>,
    limit: usize,
    rounds: usize,
}

impl View for ExpressionInterpreter {
    type V = MachineView;

    closed spec fn view(&self) -> MachineView {
        MachineView {
            envs: self.envs@,
            output: line_views(self.output@),
            reports: self.reports@,
            rounds: self.rounds as nat,
        }
    }
}

impl ExpressionInterpreter {
    /// The invariant of the machine: its environments are well formed.
    pub closed spec fn wf(&self) -> bool {
        self.envs.wf()
    }

    /// The number of levels of nesting that the machine allows.
    pub closed spec fn budget(&self) -> nat {
        self.limit as nat
    }

    /// The machine `after` and the outcome `r` are what the evaluation `g`
    /// yields.
    pub open spec fn evaluated(
        after: ExpressionInterpreter,
        r: Result<ExpressionRes, EvalError>,
        g: Evaluated,
    ) -> bool {
        after.wf() && after@ == g.machine && value_result(r) == g.result
    }

    /// The machine `after` and the outcome `r` are what the execution `g`
    /// yields.
    pub open spec fn executed(
        after: ExpressionInterpreter,
        r: Result<StatementRes, EvalError>,
        g: Executed,
    ) -> bool {
        after.wf() && after@ == g.machine && flow_result(r) == g.result
    }

    /// A machine with one empty scope and the default budget.
    pub fn new() -> (i: ExpressionInterpreter)
        ensures
            i.wf(),
            i.budget() == DEFAULT_LIMIT,
            i@.rounds == DEFAULT_ROUNDS,
            i@.output == Seq::<Seq<char>>::empty(),
            i@.reports == Seq::<EvalError>::empty(),
            i@.envs.cells == Seq::<ValueView>::empty(),
            i@.envs.scopes.len() == 1,
            i@.envs.top == 0,
    {
        Self::new_with_envs(ProgramEnvs::new())
    }

    /// A machine over the environments `envs`, with the default budget.
    pub fn new_with_envs(envs: ProgramEnvs) -> (i: ExpressionInterpreter)
        requires
            envs.wf(),
        ensures
            i.wf(),
            i.budget() == DEFAULT_LIMIT,
            i@.rounds == DEFAULT_ROUNDS,
            i@.envs == envs@,
            i@.output == Seq::<Seq<char>>::empty(),
            i@.reports == Seq::<EvalError>::empty(),
    {
        let i = ExpressionInterpreter {
            envs,
            output: Vec::new(),
            reports: Vec::new(),
            limit: DEFAULT_LIMIT,
            rounds: DEFAULT_ROUNDS,
        };
        assert(i@.output =~= Seq::<Seq<char>>::empty());
        i
    }

    /// Sets the number of levels of nesting that the machine allows.
    pub fn set_limit(&mut self, limit: usize)
        ensures
            final(self).budget() == limit,
            final(self)@ == old(self)@,
            final(self).wf() == old(self).wf(),
    {
        self.limit = limit;
    }

    /// Sets the number of rounds that the machine allows one loop to run.
    pub fn set_rounds(&mut self, rounds: usize)
        ensures
            final(self).budget() == old(self).budget(),
            final(self)@ == (MachineView { rounds: rounds as nat, ..old(self)@ }),
            final(self).wf() == old(self).wf(),
    {
        self.rounds = rounds;
    }

    /// The number of rounds that the machine allows one loop to run.
    pub fn rounds(&self) -> (rounds: usize)
        ensures
            rounds == self@.rounds,
    {
        self.rounds
    }

    /// The number of levels of nesting that the machine allows.
    pub fn limit(&self) -> (limit: usize)
        ensures
            limit == self.budget(),
    {
        self.limit
    }

    /// The lines printed so far, oldest first.
    pub fn output(&self) -> (lines: &Vec<String>)
        ensures
            line_views(lines@) == self@.output,
    {
        &self.output
    }

    /// The errors reported so far without stopping, oldest first.
    pub fn reports(&self) -> (reports: &Vec<EvalError>)
        ensures
            reports@ == self@.reports,
    {
        &self.reports
    }

    /// The cell that `name` denotes, or `UndefinedVariable`.
    pub fn lookup(&self, name: String) -> (cell: Result<usize, EvalError>)
        requires
            self.wf(),
        ensures
            match cell {
                Ok(c) => self@.envs.lookup(name@) == Some(c as nat) && c < self@.envs.cells.len(),
                Err(e) => self@.envs.lookup(name@) is None && e == EvalError::UndefinedVariable,
            },
    {
        self.envs.lookup_var(name)
    }

    /// Binds `name`, in the current scope, to a new cell that holds `value`.
    pub fn insert(&mut self, name: String, value: ExpressionRes)
        requires
            old(self).wf(),
        ensures
            final(self).wf(),
            final(self).budget() == old(self).budget(),
            final(self)@ == old(self)@.with_envs(old(self)@.envs.define(name@, value@)),
    {
        self.envs.define_at_top(name, value);
    }

    fn emit(&mut self, line: String)
        ensures
            final(self).wf() == old(self).wf(),
            final(self).budget() == old(self).budget(),
            final(self)@ == old(self)@.printing(line@),
    {
        self.output.push(line);
        assert(self@.output =~= old(self)@.output.push(line@));
    }

    fn note(&mut self, error: EvalError)
        ensures
            final(self).wf() == old(self).wf(),
            final(self).budget() == old(self).budget(),
            final(self)@ == old(self)@.reporting(error),
    {
        self.reports.push(error);
    }

    /// The value that `v` stands for.
    fn resolved(&self, v: ExpressionRes) -> (r: Result<ExpressionRes, EvalError>)
        requires
            self.wf(),
        ensures
            value_result(r) == resolve(v@, self@.envs),
    {
        if v.type_ == ExprResType::Identifier {
            self.envs.value_of(v.str)
        } else {
            Ok(v)
        }
    }

    fn literal_value(kind: TokenType, text: &String) -> (r: Result<ExpressionRes, EvalError>)
        ensures
            value_result(r) == literal(kind, text@),
    {
        match kind {
            TokenType::String => Ok(ExpressionRes::from_str(text.clone())),
            TokenType::Number => match parse_literal(text.as_str()) {
                Some(n) => Ok(ExpressionRes::from_number(n)),
                None => Err(EvalError::TypeError),
            },
            TokenType::False => Ok(ExpressionRes::from_bool(false)),
            TokenType::True => Ok(ExpressionRes::from_bool(true)),
            _ => Ok(ExpressionRes::from_none()),
        }
    }

    fn number_or_unsupported(n: Option<isize>) -> (r: Result<ExpressionRes, EvalError>)
        ensures
            value_result(r) == match n {
                Some(v) => Ok(crate::value::number_value(v as int)),
                None => Err(EvalError::UnsupportedOperation),
            },
    {
        match n {
            Some(v) => Ok(ExpressionRes::from_number(v)),
            None => Err(EvalError::UnsupportedOperation),
        }
    }

    fn arithmetic_value(op: TokenType, a: isize, b: isize) -> (r: Result<ExpressionRes, EvalError>)
        ensures
            value_result(r) == arithmetic(op, a as int, b as int),
    {
        match op {
            TokenType::Greater => Ok(ExpressionRes::from_bool(a > b)),
            TokenType::GreaterEqual => Ok(ExpressionRes::from_bool(a >= b)),
            TokenType::Less => Ok(ExpressionRes::from_bool(a < b)),
            TokenType::LessEqual => Ok(ExpressionRes::from_bool(a <= b)),
            TokenType::EqualEqual => Ok(ExpressionRes::from_bool(a == b)),
            TokenType::Minus => Self::number_or_unsupported(a.checked_sub(b)),
            TokenType::Plus => Self::number_or_unsupported(a.checked_add(b)),
            TokenType::Star => Self::number_or_unsupported(a.checked_mul(b)),
            TokenType::Slash => Self::number_or_unsupported(a.checked_div(b)),
            TokenType::Percent => if b == -1 {
                Ok(ExpressionRes::from_number(0))
            } else {
                Self::number_or_unsupported(a.checked_rem_euclid(b))
            },
            _ => Err(EvalError::UnsupportedOperation),
        }
    }

    fn binary_value(op: TokenType, l: &ExpressionRes, r: &ExpressionRes) -> (res: Result<
        ExpressionRes,
        EvalError,
    >)
        ensures
            value_result(res) == binary(op, l@, r@),
    {
        if l.type_ == ExprResType::Number && r.type_ == ExprResType::Number {
            Self::arithmetic_value(op, l.number, r.number)
        } else if l.type_ == ExprResType::String && r.type_ == ExprResType::String {
            match op {
                TokenType::Plus => {
                    let mut joined = l.str.clone();
                    joined.append(r.str.as_str());
                    Ok(ExpressionRes::from_str(joined))
                },
                TokenType::EqualEqual => Ok(ExpressionRes::from_bool(l.str == r.str)),
                _ => Err(EvalError::UnsupportedOperation),
            }
        } else {
            Err(EvalError::TypeError)
        }
    }

    fn unary_value(op: TokenType, v: &ExpressionRes) -> (res: Result<ExpressionRes, EvalError>)
        ensures
            value_result(res) == unary(op, v@),
    {
        if v.type_ == ExprResType::Number && op == TokenType::Minus {
            Self::number_or_unsupported(0isize.checked_sub(v.number))
        } else if v.type_ == ExprResType::Boolean && op == TokenType::Bang {
            Ok(ExpressionRes::from_bool(!v.boolean))
        } else {
            Err(EvalError::TypeError)
        }
    }

    /// Assigns `value` to the variable `name`.
    fn assign_value(&mut self, name: &String, value: ExpressionRes) -> (r: Result<
        ExpressionRes,
        EvalError,
    >)
        requires
            old(self).wf(),
        ensures
            final(self).budget() == old(self).budget(),
            Self::evaluated(*final(self), r, assign(name@, value@, old(self)@)),
    {
        if value.type_ == ExprResType::Nil {
            match self.envs.remove_var(name.clone()) {
                Err(e) => Err(e),
                Ok(_) => Ok(ExpressionRes::from_none()),
            }
        } else {
            match self.envs.assign_to_existing(name.clone(), value.clone()) {
                Err(e) => Err(e),
                Ok(_) => Ok(value),
            }
        }
    }

    /// Declares the variable `name` with the value `v` of its initializer.
    fn declare_value(&mut self, name: &String, v: ExpressionRes) -> (r: Result<
        StatementRes,
        EvalError,
    >)
        requires
            old(self).wf(),
        ensures
            final(self).budget() == old(self).budget(),
            Self::executed(*final(self), r, declare(name@, v@, old(self)@)),
    {
        if v.type_ == ExprResType::Identifier {
            match self.envs.lookup_var(v.str) {
                Err(e) => Err(e),
                Ok(cell) => {
                    let done = self.envs.define_ref_at_top(name.clone(), cell);
                    Ok(StatementRes::Void)
                },
            }
        } else {
            self.envs.define_at_top(name.clone(), v);
            Ok(StatementRes::Void)
        }
    }

    /// The view of the outcome of evaluating a list of arguments.
    pub open spec fn args_result(r: Result<Vec<ExpressionRes>, EvalError>) -> Result<
        Seq<ValueView>,
        EvalError,
    > {
        match r {
            Ok(values) => Ok(value_views(values@)),
            Err(e) => Err(e),
        }
    }

    /// Evaluates an expression with `fuel` levels of nesting left.
    pub fn evaluate(&mut self, e: &Expression, fuel: usize) -> (r: Result<ExpressionRes, EvalError>)
        requires
            old(self).wf(),
        ensures
            final(self).budget() == old(self).budget(),
            Self::evaluated(*final(self), r, eval(e@, old(self)@, fuel as nat)),
        decreases fuel, 0nat, 0nat,
    {
        reveal(eval);
        reveal(eval_value);
        reveal(eval_args);
        reveal(apply);
        if fuel == 0 {
            return Err(EvalError::ResourceExhausted);
        }
        let less = fuel - 1;
        match e {
            Expression::LiteralExpr { token_type, value } => Self::literal_value(*token_type, value),
            Expression::VariableExpr { token_type, value } => Ok(
                ExpressionRes::from_variable(value.clone()),
            ),
            Expression::GroupingExpr { value } => self.evaluate(value, less),
            Expression::UnaryExpr { token, rhs } => match self.evaluate_value(rhs, less) {
                Err(e) => Err(e),
                Ok(v) => Self::unary_value(token.token_type, &v),
            },
            Expression::BinaryExpr { token, rhs, lhs } => {
                let right = match self.evaluate_value(rhs, less) {
                    Err(e) => {
                        return Err(e);
                    },
                    Ok(v) => v,
                };
                let left = match self.evaluate_value(lhs, less) {
                    Err(e) => {
                        return Err(e);
                    },
                    Ok(v) => v,
                };
                Self::binary_value(token.token_type, &left, &right)
            },
            Expression::Logical { token, rhs, lhs } => {
                let op = token.token_type;
                if op != TokenType::And && op != TokenType::Or {
                    return Err(EvalError::UnsupportedOperation);
                }
                let left = match self.evaluate_value(lhs, less) {
                    Err(e) => {
                        return Err(e);
                    },
                    Ok(v) => v,
                };
                if left.type_ != ExprResType::Boolean {
                    return Err(EvalError::UnsupportedOperation);
                }
                if left.boolean == (op == TokenType::Or) {
                    return Ok(ExpressionRes::from_bool(left.boolean));
                }
                let right = match self.evaluate_value(rhs, less) {
                    Err(e) => {
                        return Err(e);
                    },
                    Ok(v) => v,
                };
                if right.type_ != ExprResType::Boolean {
                    return Err(EvalError::UnsupportedOperation);
                }
                Ok(ExpressionRes::from_bool(right.boolean))
            },
            Expression::Assignment { identifier, value } => {
                let target = match self.evaluate(identifier, less) {
                    Err(e) => {
                        return Err(e);
                    },
                    Ok(v) => v,
                };
                if target.type_ != ExprResType::Identifier {
                    return Err(EvalError::TypeError);
                }
                let v = match self.evaluate_value(value, less) {
                    Err(e) => {
                        return Err(e);
                    },
                    Ok(v) => v,
                };
                self.assign_value(&target.str, v)
            },
            Expression::Call { identifier, args } => {
                assert(e@->Call_args =~= crate::expression::boxed_expr_views(args@));
                let callee = match self.evaluate_value(identifier, less) {
                    Err(e) => {
                        return Err(e);
                    },
                    Ok(v) => v,
                };
                let f = match callee.method {
                    None => {
                        return Err(EvalError::TypeError);
                    },
                    Some(f) => f,
                };
                let values = match self.evaluate_args(args, less) {
                    Err(e) => {
                        return Err(e);
                    },
                    Ok(v) => v,
                };
                self.call_function(&f, values, less)
            },
        }
    }

    /// Evaluates an expression and looks up the name it may yield.
    pub fn evaluate_value(&mut self, e: &Expression, fuel: usize) -> (r: Result<
        ExpressionRes,
        EvalError,
    >)
        requires
            old(self).wf(),
        ensures
            final(self).budget() == old(self).budget(),
            Self::evaluated(*final(self), r, eval_value(e@, old(self)@, fuel as nat)),
        decreases fuel, 1nat, 0nat,
    {
        reveal(eval);
        reveal(eval_value);
        match self.evaluate(e, fuel) {
            Err(e) => Err(e),
            Ok(v) => self.resolved(v),
        }
    }

    /// Evaluates the arguments of a call from left to right.
    fn evaluate_args(&mut self, args: &Vec<Box<Expression>>, fuel: usize) -> (r: Result<
        Vec<ExpressionRes>,
        EvalError,
    >)
        requires
            old(self).wf(),
        ensures
            final(self).wf(),
            final(self).budget() == old(self).budget(),
            ({
                let g = eval_args(
                    crate::expression::boxed_expr_views(args@),
                    0,
                    Seq::empty(),
                    old(self)@,
                    fuel as nat,
                );
                final(self)@ == g.machine && Self::args_result(r) == g.result
            }),
        decreases fuel, 2 + args.len(), 0nat,
    {
        reveal(eval_args);
        reveal(eval_value);
        let ghost list = crate::expression::boxed_expr_views(args@);
        let ghost whole = eval_args(list, 0, Seq::empty(), self@, fuel as nat);
        let mut values: Vec<ExpressionRes> = Vec::new();
        assert(value_views(values@) =~= Seq::<ValueView>::empty());
        let mut i: usize = 0;
        while i < args.len()
            invariant
                i <= args.len(),
                self.wf(),
                self.budget() == old(self).budget(),
                list == crate::expression::boxed_expr_views(args@),
                whole == eval_args(list, 0, Seq::empty(), old(self)@, fuel as nat),
                whole == eval_args(list, i as nat, value_views(values@), self@, fuel as nat),
            decreases args.len() - i,
        {
            reveal(eval_args);
            reveal(eval_value);
            let ghost before = value_views(values@);
            match self.evaluate_value(&args[i], fuel) {
                Err(e) => {
                    return Err(e);
                },
                Ok(v) => {
                    let ghost vv = v@;
                    values.push(v);
                    assert(value_views(values@) =~= before.push(vv));
                },
            }
            i += 1;
        }
        Ok(values)
    }

    /// Binds the parameters of `f` to `values`, as far as both go, in the
    /// current scope.
    fn bind_parameters(&mut self, f: &Method, values: &Vec<ExpressionRes>)
        requires
            old(self).wf(),
        ensures
            final(self).wf(),
            final(self).budget() == old(self).budget(),
            final(self)@ == old(self)@.with_envs(
                bind_params(old(self)@.envs, f@.params, value_views(values@), 0),
            ),
    {
        let ghost whole = bind_params(self@.envs, f@.params, value_views(values@), 0);
        let mut i: usize = 0;
        while i < f.args.len() && i < values.len()
            invariant
                self.wf(),
                self.budget() == old(self).budget(),
                self@ == old(self)@.with_envs(self@.envs),
                whole == bind_params(old(self)@.envs, f@.params, value_views(values@), 0),
                whole == bind_params(self@.envs, f@.params, value_views(values@), i as nat),
            decreases f.args.len() - i,
        {
            self.envs.define_at_top(f.args[i].str.clone(), values[i].clone());
            i += 1;
        }
    }

    /// Calls the function `f` with the values `values`.
    pub fn call_function(&mut self, f: &Method, values: Vec<ExpressionRes>, fuel: usize) -> (r:
        Result<ExpressionRes, EvalError>)
        requires
            old(self).wf(),
        ensures
            final(self).budget() == old(self).budget(),
            Self::evaluated(
                *final(self),
                r,
                apply(f@, value_views(values@), old(self)@, fuel as nat),
            ),
        decreases fuel, 4nat, 0nat,
    {
        reveal(apply);
        reveal(run);
        if f.args.len() != values.len() {
            self.note(EvalError::Arity);
        }
        let caller = self.envs.get_top();
        let scope = self.envs.scope_count();
        if !self.envs.push_under(f.captured_env) {
            return Err(EvalError::TypeError);
        }
        self.bind_parameters(f, &values);
        let outcome = self.execute(&f.body, fuel);
        self.envs.leave(scope, caller);
        match outcome {
            Err(e) => Err(e),
            Ok(StatementRes::Expr { res }) => Ok(res),
            Ok(StatementRes::Void) => Ok(ExpressionRes::from_none()),
        }
    }

    /// The parameters that a parameter list names, if each is a name.
    fn parameters_of(args: &Vec<Expression>) -> (r: Option<Vec<ExpressionRes>>)
        ensures
            match r {
                Some(params) => param_list(crate::expression::expr_views(args@)) == Some(
                    param_names(params@),
                ),
                None => param_list(crate::expression::expr_views(args@)) is None,
            },
    {
        let ghost list = crate::expression::expr_views(args@);
        let mut params: Vec<ExpressionRes> = Vec::new();
        let mut i: usize = 0;
        while i < args.len()
            invariant
                i <= args.len(),
                list == crate::expression::expr_views(args@),
                params@.len() == i,
                forall|j: int| 0 <= j < i ==> (#[trigger] list[j]) is Variable,
                forall|j: int| 0 <= j < i ==> (#[trigger] params@[j]).str@ == list[j]->Variable_value,
            decreases args.len() - i,
        {
            match &args[i] {
                Expression::VariableExpr { token_type, value } => {
                    params.push(ExpressionRes::from_variable(value.clone()));
                },
                _ => {
                    assert(!(list[i as int] is Variable));
                    return None;
                },
            }
            i += 1;
        }
        assert(param_names(params@) =~= Seq::new(list.len(), |k: int| list[k]->Variable_value));
        Some(params)
    }

    /// Binds the captured names to their cells in the current scope.
    fn bind_captured(&mut self, captured: &Vec<(String, usize)>)
        requires
            old(self).wf(),
        ensures
            final(self).wf(),
            final(self).budget() == old(self).budget(),
            final(self)@ == old(self)@.with_envs(
                bind_captures(old(self)@.envs, capture_views(captured@), 0),
            ),
    {
        let ghost whole = bind_captures(self@.envs, capture_views(captured@), 0);
        let mut i: usize = 0;
        while i < captured.len()
            invariant
                i <= captured.len(),
                self.wf(),
                self.budget() == old(self).budget(),
                self@ == old(self)@.with_envs(self@.envs),
                whole == bind_captures(old(self)@.envs, capture_views(captured@), 0),
                whole == bind_captures(self@.envs, capture_views(captured@), i as nat),
            decreases captured.len() - i,
        {
            let done = self.envs.define_ref_at_top(captured[i].0.clone(), captured[i].1);
            i += 1;
        }
    }

    /// Defines the function `name` with the parameters `params` and the
    /// body `body`.
    fn define(&mut self, name: &String, params: Vec<ExpressionRes>, body: &Statement)
        requires
            old(self).wf(),
        ensures
            final(self).wf(),
            final(self).budget() == old(self).budget(),
            final(self)@ == define_function(old(self)@, name@, param_names(params@), body@),
    {
        let mut resolver = CaptureResolver::new_with_environment(&self.envs, &params);
        resolver.walk_statement(body);
        let captured = resolver.get_captured();
        let scope = self.envs.scope_count();
        let current = self.envs.get_top();
        proof {
            self.envs.wf_valid();
        }
        let entered = self.envs.push_under(current);
        self.bind_captured(&captured);
        let back = self.envs.set_top(current);
        let f = Method::new(name.clone(), params, clone_statement(body), scope);
        self.envs.define_at_top(name.clone(), ExpressionRes::from_method(f));
    }

    /// A `for` statement written with `while`.
    fn written_with_while(
        initiation: &Option<Box<Statement>>,
        condition: &Option<Box<Statement>>,
        increment: &Option<Box<Statement>>,
        body: &Statement,
    ) -> (r: Option<Statement>)
        ensures
            match r {
                Some(s) => Some(s@),
                None => None,
            } == for_as_while(
                opt_stmt_view(*initiation),
                opt_stmt_view(*condition),
                opt_stmt_view(*increment),
                body@,
            ),
    {
        proof {
            opt_stmt_view_unfolds(*initiation);
            opt_stmt_view_unfolds(*condition);
            opt_stmt_view_unfolds(*increment);
        }
        let test = match condition {
            None => Expression::LiteralExpr {
                token_type: TokenType::True,
                value: String::from_str("true"),
            },
            Some(c) => match &**c {
                Statement::Stmt { expr } => clone_expression(expr),
                _ => {
                    return None;
                },
            },
        };
        let inner = match increment {
            Some(i) => {
                let first = Box::new(clone_statement(body));
                let second = Box::new(clone_statement(i));
                let ghost a = stmt_view(*first);
                let ghost b = stmt_view(*second);
                let mut both: Vec<Box<Statement>> = Vec::new();
                both.push(first);
                both.push(second);
                let block = Statement::BlockStatement { statements: both };
                assert(stmt_view(block)->Block_statements =~= seq![a, b]);
                block
            },
            None => clone_statement(body),
        };
        let looping = Statement::WhileStatement { expr: Box::new(test), body: Box::new(inner) };
        match initiation {
            Some(s) => {
                let first = Box::new(clone_statement(s));
                let second = Box::new(looping);
                let ghost a = stmt_view(*first);
                let ghost b = stmt_view(*second);
                let mut both: Vec<Box<Statement>> = Vec::new();
                both.push(first);
                both.push(second);
                let block = Statement::BlockStatement { statements: both };
                assert(stmt_view(block)->Block_statements =~= seq![a, b]);
                Some(block)
            },
            None => Some(looping),
        }
    }

    /// Executes a statement with `fuel` levels of nesting left.
    pub fn execute(&mut self, s: &Statement, fuel: usize) -> (r: Result<StatementRes, EvalError>)
        requires
            old(self).wf(),
        ensures
            final(self).budget() == old(self).budget(),
            Self::executed(*final(self), r, run(s@, old(self)@, fuel as nat)),
        decreases fuel, 3nat, 0nat,
    {
        reveal(run);
        reveal(eval);
        reveal(eval_value);
        reveal(run_block);
        reveal(run_while);
        if fuel == 0 {
            return Err(EvalError::ResourceExhausted);
        }
        let less = fuel - 1;
        match s {
            Statement::Stmt { expr } => match self.evaluate(expr, less) {
                Err(e) => Err(e),
                Ok(_) => Ok(StatementRes::Void),
            },
            Statement::PrintStatement { expr } => match self.evaluate_value(expr, less) {
                Err(e) => Err(e),
                Ok(v) => {
                    self.emit(v.print());
                    Ok(StatementRes::Void)
                },
            },
            Statement::VarDeclaration { identifier, expr } => {
                let target = match self.evaluate(identifier, less) {
                    Err(e) => {
                        return Err(e);
                    },
                    Ok(v) => v,
                };
                if target.type_ != ExprResType::Identifier {
                    return Err(EvalError::TypeError);
                }
                match expr {
                    None => self.declare_value(&target.str, ExpressionRes::from_none()),
                    Some(init) => match self.evaluate(init, less) {
                        Err(e) => Err(e),
                        Ok(v) => self.declare_value(&target.str, v),
                    },
                }
            },
            Statement::BlockStatement { statements } => {
                assert(s@->Block_statements =~= boxed_stmt_views(statements@));
                let outer = self.envs.get_top();
                let scope = self.envs.scope_count();
                proof {
                    self.envs.wf_valid();
                }
                self.envs.push();
                let outcome = self.execute_block(statements, less);
                self.envs.leave(scope, outer);
                outcome
            },
            Statement::IfStatement { expr, body, else_body } => {
                proof {
                    opt_stmt_view_unfolds(*else_body);
                }
                let test = match self.evaluate_value(expr, less) {
                    Err(e) => {
                        return Err(e);
                    },
                    Ok(v) => v,
                };
                if test.type_ != ExprResType::Boolean {
                    return Err(EvalError::TypeError);
                }
                if test.boolean {
                    self.execute(body, less)
                } else {
                    match else_body {
                        Some(other) => self.execute(other, less),
                        None => Ok(StatementRes::Void),
                    }
                }
            },
            Statement::WhileStatement { expr, body } => self.execute_while(expr, body, less),
            Statement::ForStatement { initiation, condition, increment, body } => {
                match Self::written_with_while(initiation, condition, increment, body) {
                    Some(written) => self.execute(&written, less),
                    None => Err(EvalError::TypeError),
                }
            },
            Statement::FunStatement { identifier, args, block } => {
                proof {
                    opt_stmt_view_unfolds(*block);
                }
                match block {
                    None => Err(EvalError::TypeError),
                    Some(body) => match Self::parameters_of(args) {
                        None => Err(EvalError::TypeError),
                        Some(params) => {
                            self.define(&identifier.value, params, body);
                            Ok(StatementRes::Void)
                        },
                    },
                }
            },
            Statement::ReturnStatement { expr } => match expr {
                None => Ok(StatementRes::Expr { res: ExpressionRes::from_none() }),
                Some(e) => match self.evaluate_value(e, less) {
                    Err(e) => Err(e),
                    Ok(v) => Ok(StatementRes::Expr { res: v }),
                },
            },
        }
    }

    /// Executes statements in order, up to the first that returns or fails.
    pub fn execute_block(&mut self, list: &Vec<Box<Statement>>, fuel: usize) -> (r: Result<
        StatementRes,
        EvalError,
    >)
        requires
            old(self).wf(),
        ensures
            final(self).budget() == old(self).budget(),
            Self::executed(
                *final(self),
                r,
                run_block(boxed_stmt_views(list@), 0, old(self)@, fuel as nat),
            ),
        decreases fuel, 4 + list.len(), 0nat,
    {
        reveal(run_block);
        reveal(run);
        let ghost views = boxed_stmt_views(list@);
        let ghost whole = run_block(views, 0, self@, fuel as nat);
        let mut i: usize = 0;
        while i < list.len()
            invariant
                i <= list.len(),
                self.wf(),
                self.budget() == old(self).budget(),
                views == boxed_stmt_views(list@),
                whole == run_block(views, 0, old(self)@, fuel as nat),
                whole == run_block(views, i as nat, self@, fuel as nat),
            decreases list.len() - i,
        {
            reveal(run_block);
            reveal(run);
            match self.execute(&list[i], fuel) {
                Ok(StatementRes::Void) => {},
                other => {
                    return other;
                },
            }
            i += 1;
        }
        Ok(StatementRes::Void)
    }

    /// Executes a loop, for as many rounds as the machine allows.
    fn execute_while(&mut self, cond: &Expression, body: &Statement, fuel: usize) -> (r: Result<
        StatementRes,
        EvalError,
    >)
        requires
            old(self).wf(),
        ensures
            final(self).budget() == old(self).budget(),
            Self::executed(
                *final(self),
                r,
                run_while(cond@, body@, old(self)@, fuel as nat, old(self)@.rounds),
            ),
        decreases fuel, 2nat, old(self)@.rounds,
    {
        reveal(run_while);
        reveal(run);
        reveal(eval_value);
        let ghost whole = run_while(cond@, body@, self@, fuel as nat, self@.rounds);
        let mut left: usize = self.rounds;
        loop
            invariant
                left <= old(self)@.rounds,
                self.wf(),
                self.budget() == old(self).budget(),
                whole == run_while(cond@, body@, old(self)@, fuel as nat, old(self)@.rounds),
                whole == run_while(cond@, body@, self@, fuel as nat, left as nat),
            decreases left,
        {
            reveal(run_while);
            reveal(run);
            reveal(eval_value);
            if fuel == 0 || left == 0 {
                return Err(EvalError::ResourceExhausted);
            }
            let less = fuel - 1;
            let test = match self.evaluate_value(cond, less) {
                Err(e) => {
                    return Err(e);
                },
                Ok(v) => v,
            };
            if test.type_ != ExprResType::Boolean {
                return Err(EvalError::TypeError);
            }
            if !test.boolean {
                return Ok(StatementRes::Void);
            }
            match self.execute(body, less) {
                Ok(StatementRes::Void) => {},
                other => {
                    return other;
                },
            }
            left = left - 1;
        }
    }

    /// Runs a program: its statements in order, in the current scope, within
    /// the machine's budget.
    pub fn interpret(&mut self, program: &Vec<Box<Statement>>) -> (r: Result<
        StatementRes,
        EvalError,
    >)
        requires
            old(self).wf(),
        ensures
            final(self).budget() == old(self).budget(),
            Self::executed(
                *final(self),
                r,
                interpret(boxed_stmt_views(program@), old(self)@, old(self).budget()),
            ),
    {
        let fuel = self.limit;
        self.execute_block(program, fuel)
    }
}


/// Something that evaluates expressions to results of the type `T`.
pub trait Visitor<T> {
    /// Whether the visitor can evaluate.
    spec fn ready(&self) -> bool;

    /// Whether `after` and `r` are what evaluating `expression` yields.
    spec fn yields(&self, expression: ExprView, after: &Self, r: T) -> bool;

    fn eval(&mut self, expression: Expression) -> (r: T)
        requires
            old(self).ready(),
        ensures
            final(self).ready(),
            old(self).yields(expression@, final(self), r),
    ;
}

impl Visitor<Result<ExpressionRes, EvalError>> for ExpressionInterpreter {
    open spec fn ready(&self) -> bool {
        self.wf()
    }

    open spec fn yields(
        &self,
        expression: ExprView,
        after: &Self,
        r: Result<ExpressionRes, EvalError>,
    ) -> bool {
        after.budget() == self.budget() && Self::evaluated(
            *after,
            r,
            eval(expression, self@, self.budget()),
        )
    }

    /// Evaluates an expression within the machine's budget.
    fn eval(&mut self, expression: Expression) -> (r: Result<ExpressionRes, EvalError>) {
        let fuel = self.limit;
        self.evaluate(&expression, fuel)
    }
}

/// Something that executes statements.
pub trait StmtVisitor {
    /// Whether the visitor can execute.
    spec fn ready(&self) -> bool;

    /// Whether `after` and `r` are what executing `object` yields.
    spec fn yields(&self, object: StmtView, after: &Self, r: Result<StatementRes, EvalError>) -> bool;

    fn eval(&mut self, object: &Statement) -> (r: Result<StatementRes, EvalError>)
        requires
            old(self).ready(),
        ensures
            final(self).ready(),
            old(self).yields(object@, final(self), r),
    ;
}

/// Runs programs on a machine of its own.
pub struct StatementInterpreter {
    pub expression_visitor: ExpressionInterpreter,
}

impl View for StatementInterpreter {
    type V = MachineView;

    open spec fn view(&self) -> MachineView {
        self.expression_visitor@
    }
}

impl StmtVisitor for StatementInterpreter {
    open spec fn ready(&self) -> bool {
        self.expression_visitor.wf()
    }

    open spec fn yields(
        &self,
        object: StmtView,
        after: &Self,
        r: Result<StatementRes, EvalError>,
    ) -> bool {
        after.expression_visitor.budget() == self.expression_visitor.budget()
            && ExpressionInterpreter::executed(
            after.expression_visitor,
            r,
            run(object, self@, self.expression_visitor.budget()),
        )
    }

    /// Executes a statement within the machine's budget.
    fn eval(&mut self, object: &Statement) -> (r: Result<StatementRes, EvalError>) {
        let fuel = self.expression_visitor.limit();
        self.expression_visitor.execute(object, fuel)
    }
}

impl StatementInterpreter {
    /// An interpreter over one empty scope.
    pub fn new_default() -> (i: StatementInterpreter)
        ensures
            i.expression_visitor.wf(),
            i.expression_visitor.budget() == DEFAULT_LIMIT,
            i@.rounds == DEFAULT_ROUNDS,
            i@.output == Seq::<Seq<char>>::empty(),
            i@.reports == Seq::<EvalError>::empty(),
            i@.envs.cells == Seq::<ValueView>::empty(),
            i@.envs.scopes.len() == 1,
            i@.envs.top == 0,
    {
        StatementInterpreter { expression_visitor: ExpressionInterpreter::new() }
    }

    /// An interpreter on the machine `expression_visitor`.
    pub fn new(expression_visitor: ExpressionInterpreter) -> (i: StatementInterpreter)
        ensures
            i.expression_visitor == expression_visitor,
    {
        StatementInterpreter { expression_visitor }
    }

    /// An interpreter over the environments `envs`.
    pub fn new_with_envs(envs: ProgramEnvs) -> (i: StatementInterpreter)
        requires
            envs.wf(),
        ensures
            i.expression_visitor.wf(),
            i.expression_visitor.budget() == DEFAULT_LIMIT,
            i@.rounds == DEFAULT_ROUNDS,
            i@.envs == envs@,
            i@.output == Seq::<Seq<char>>::empty(),
            i@.reports == Seq::<EvalError>::empty(),
    {
        StatementInterpreter { expression_visitor: ExpressionInterpreter::new_with_envs(envs) }
    }

    /// Runs a program: its statements in order, up to the first that
    /// returns or fails.
    pub fn interpret(&mut self, program: Vec<Box<Statement>>) -> (r: Result<
        StatementRes,
        EvalError,
    >)
        requires
            old(self).expression_visitor.wf(),
        ensures
            final(self).expression_visitor.budget() == old(self).expression_visitor.budget(),
            ExpressionInterpreter::executed(
                final(self).expression_visitor,
                r,
                interpret(
                    boxed_stmt_views(program@),
                    old(self)@,
                    old(self).expression_visitor.budget(),
                ),
            ),
    {
        self.expression_visitor.interpret(&program)
    }

    /// The cell that `name` denotes, or `UndefinedVariable`.
    pub fn lookup_variable(&self, name: String) -> (cell: Result<usize, EvalError>)
        requires
            self.expression_visitor.wf(),
        ensures
            match cell {
                Ok(c) => self@.envs.lookup(name@) == Some(c as nat) && c < self@.envs.cells.len(),
                Err(e) => self@.envs.lookup(name@) is None && e == EvalError::UndefinedVariable,
            },
    {
        self.expression_visitor.lookup(name)
    }

    /// Binds `name`, in the current scope, to a new cell that holds `expr`.
    pub fn insert_variable(&mut self, name: String, expr: ExpressionRes)
        requires
            old(self).expression_visitor.wf(),
        ensures
            final(self).expression_visitor.wf(),
            final(self).expression_visitor.budget() == old(self).expression_visitor.budget(),
            final(self)@ == old(self)@.with_envs(old(self)@.envs.define(name@, expr@)),
    {
        self.expression_visitor.insert(name, expr);
    }
}

} // verus!
