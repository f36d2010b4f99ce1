use vstd::prelude::*;
use crate::error::EvalError;
use crate::expression::ExprView;
use crate::grammar::always_true;
use crate::program::EnvsView;
use crate::resolver::captures_of;
use crate::runtime::MethodView;
use crate::statement::StmtView;
use crate::text::literal_value;
use crate::token::TokenType;
use crate::value::{
    bool_value, function_value, name_value, nil_value, number_value, printed, string_value,
    ExprResType, ValueView,
};

verus! {

/// The state of a running program: its environments, the lines it has
/// printed, the errors it has reported without stopping, and the number
/// of rounds that one loop may run.
pub struct MachineView {
    pub envs: EnvsView,
    pub output: Seq<Seq<char>>,
    pub reports: Seq<EvalError>,
    pub rounds: nat,
}

impl MachineView {
    /// The same machine over the environments `envs`.
    pub open spec fn with_envs(self, envs: EnvsView) -> MachineView {
        MachineView { envs, ..self }
    }

    /// The same machine after it has printed `line`.
    pub open spec fn printing(self, line: Seq<char>) -> MachineView {
        MachineView { output: self.output.push(line), ..self }
    }

    /// The same machine after it has reported `error`.
    pub open spec fn reporting(self, error: EvalError) -> MachineView {
        MachineView { reports: self.reports.push(error), ..self }
    }
}

/// What evaluating an expression yields: a value or an error, and the
/// machine afterwards.
pub struct Evaluated {
    pub result: Result<ValueView, EvalError>,
    pub machine: MachineView,
}

/// What evaluating a list of arguments yields.
pub struct ArgsEvaluated {
    pub result: Result<Seq<ValueView>, EvalError>,
    pub machine: MachineView,
}

/// How a statement ends: it falls through, or it returns a value from the
/// enclosing function.
pub enum FlowView {
    Normal,
    Returning(ValueView),
}

/// What executing a statement yields: how it ended or an error, and the
/// machine afterwards.
pub struct Executed {
    pub result: Result<FlowView, EvalError>,
    pub machine: MachineView,
}

/// The value that `v` stands for: a name is looked up in the chain of
/// environments, and an unknown name is an error; any other value is
/// itself.
pub open spec fn resolve(v: ValueView, envs: EnvsView) -> Result<ValueView, EvalError> {
    if v.type_ == ExprResType::Identifier {
        match envs.value_of(v.str) {
            Some(x) => Ok(x),
            None => Err(EvalError::UndefinedVariable),
        }
    } else {
        Ok(v)
    }
}

/// The value of a literal.
pub open spec fn literal(kind: TokenType, text: Seq<char>) -> Result<ValueView, EvalError> {
    match kind {
        TokenType::String => Ok(string_value(text)),
        TokenType::Number => match literal_value(text) {
            Some(n) => Ok(number_value(n)),
            None => Err(EvalError::TypeError),
        },
        TokenType::False => Ok(bool_value(false)),
        TokenType::True => Ok(bool_value(true)),
        _ => Ok(nil_value()),
    }
}

/// The quotient of `a` by `b`, rounded towards zero; `b` is not zero.
pub open spec fn trunc_div(a: int, b: int) -> int {
    if a == 0 {
        0
    } else if a > 0 && b > 0 {
        a / b
    } else if a < 0 && b < 0 {
        (a * -1) / (b * -1)
    } else if a < 0 {
        ((a * -1) / b) * -1
    } else {
        (a / (b * -1)) * -1
    }
}

/// The number `n` as a value, if it fits the machine's signed word.
pub open spec fn in_range(n: int) -> Result<ValueView, EvalError> {
    if isize::MIN <= n <= isize::MAX {
        Ok(number_value(n))
    } else {
        Err(EvalError::UnsupportedOperation)
    }
}

/// An operator on two numbers. Division rounds towards zero; the
/// remainder is never negative. A result that does not fit, a division by
/// zero and any other operator are unsupported.
pub open spec fn arithmetic(op: TokenType, a: int, b: int) -> Result<ValueView, EvalError> {
    match op {
        TokenType::Greater => Ok(bool_value(a > b)),
        TokenType::GreaterEqual => Ok(bool_value(a >= b)),
        TokenType::Less => Ok(bool_value(a < b)),
        TokenType::LessEqual => Ok(bool_value(a <= b)),
        TokenType::EqualEqual => Ok(bool_value(a == b)),
        TokenType::Minus => in_range(a - b),
        TokenType::Plus => in_range(a + b),
        TokenType::Star => in_range(a * b),
        TokenType::Slash => if b == 0 {
            Err(EvalError::UnsupportedOperation)
        } else {
            in_range(trunc_div(a, b))
        },
        TokenType::Percent => if b == 0 {
            Err(EvalError::UnsupportedOperation)
        } else {
            in_range(a % b)
        },
        _ => Err(EvalError::UnsupportedOperation),
    }
}

/// An operator on two values: on two numbers see `arithmetic`; on two
/// strings `+` joins and `==` compares; operands of other kinds are a type
/// error.
pub open spec fn binary(op: TokenType, l: ValueView, r: ValueView) -> Result<ValueView, EvalError> {
    if l.type_ == ExprResType::Number && r.type_ == ExprResType::Number {
        arithmetic(op, l.number, r.number)
    } else if l.type_ == ExprResType::String && r.type_ == ExprResType::String {
        match op {
            TokenType::Plus => Ok(string_value(l.str + r.str)),
            TokenType::EqualEqual => Ok(bool_value(l.str == r.str)),
            _ => Err(EvalError::UnsupportedOperation),
        }
    } else {
        Err(EvalError::TypeError)
    }
}

/// A prefix operator on a value: `-` on a number, `!` on a truth value;
/// anything else is a type error.
pub open spec fn unary(op: TokenType, v: ValueView) -> Result<ValueView, EvalError> {
    if v.type_ == ExprResType::Number && op == TokenType::Minus {
        in_range(-v.number)
    } else if v.type_ == ExprResType::Boolean && op == TokenType::Bang {
        Ok(bool_value(!v.boolean))
    } else {
        Err(EvalError::TypeError)
    }
}

/// The current scope binds the parameters from `from` on to new cells that
/// hold the values at the same places, as far as both lists go.
pub open spec fn bind_params(
    envs: EnvsView,
    params: Seq<Seq<char>>,
    values: Seq<ValueView>,
    from: nat,
) -> EnvsView
    decreases params.len() - from,
{
    if from >= params.len() || from >= values.len() {
        envs
    } else {
        bind_params(
            envs.define(params[from as int], values[from as int]),
            params,
            values,
            from + 1,
        )
    }
}

/// The current scope binds the captured names from `from` on to their
/// cells, where those exist.
pub open spec fn bind_captures(envs: EnvsView, captured: Seq<(Seq<char>, nat)>, from: nat) -> EnvsView
    decreases captured.len() - from,
{
    if from >= captured.len() {
        envs
    } else {
        let (name, cell) = captured[from as int];
        let bound = if cell < envs.cells.len() {
            envs.define_ref(name, cell)
        } else {
            envs
        };
        bind_captures(bound, captured, from + 1)
    }
}

/// The names of a parameter list: each parameter is to be a name.
pub open spec fn param_list(args: Seq<ExprView>) -> Option<Seq<Seq<char>>> {
    if forall|i: int| 0 <= i < args.len() ==> (#[trigger] args[i]) is Variable {
        Some(Seq::new(args.len(), |i: int| args[i]->Variable_value))
    } else {
        None
    }
}

/// A `for` statement written with `while`, as the parser writes it. A
/// condition that is no expression statement has no such form.
pub open spec fn for_as_while(
    initiation: Option<Box<StmtView>>,
    condition: Option<Box<StmtView>>,
    increment: Option<Box<StmtView>>,
    body: StmtView,
) -> Option<StmtView> {
    let test = match condition {
        None => Some(always_true()),
        Some(c) => match *c {
            StmtView::Stmt { expr } => Some(expr),
            _ => None,
        },
    };
    match test {
        None => None,
        Some(t) => {
            let inner = match increment {
                Some(i) => StmtView::Block { statements: seq![body, *i] },
                None => body,
            };
            let looping = StmtView::While { expr: t, body: Box::new(inner) };
            Some(
                match initiation {
                    Some(s) => StmtView::Block { statements: seq![*s, looping] },
                    None => looping,
                },
            )
        },
    }
}

/// The machine after a function is defined: a new scope inside the
/// current one holds what the body captures, and the current scope binds
/// the function's name to a function value whose captured environment is
/// that scope.
pub open spec fn define_function(
    m: MachineView,
    name: Seq<char>,
    params: Seq<Seq<char>>,
    body: StmtView,
) -> MachineView {
    let scope = m.envs.scopes.len();
    let captured = captures_of(body, params, m.envs);
    let holding = bind_captures(m.envs.push_under(m.envs.top), captured, 0).return_to(m.envs.top);
    let f = MethodView { name, params, body, captured_env: scope };
    m.with_envs(holding.define(name, function_value(f)))
}

/// The value of an expression, with `fuel` levels of nesting left.
///
/// A literal is its value and a name is a reference to that name; the
/// operands of an operator are evaluated right before left, and those of
/// `and` and `or` left before right, the right one only where the left one
/// does not decide; an assignment writes into the cell that the target
/// denotes, and nil clears it; a call evaluates the callee, then the
/// arguments from left to right, and applies the function.
#[verifier::opaque]
pub open spec fn eval(e: ExprView, m: MachineView, fuel: nat) -> Evaluated
    decreases fuel, 0nat, 0nat,
{
    if fuel == 0 {
        Evaluated { result: Err(EvalError::ResourceExhausted), machine: m }
    } else {
        let less = (fuel - 1) as nat;
        match e {
            ExprView::Literal { token_type, value } => Evaluated {
                result: literal(token_type, value),
                machine: m,
            },
            ExprView::Variable { token_type, value } => Evaluated {
                result: Ok(name_value(value)),
                machine: m,
            },
            ExprView::Grouping { value } => eval(*value, m, less),
            ExprView::Unary { token, rhs } => {
                let r = eval_value(*rhs, m, less);
                match r.result {
                    Err(_) => r,
                    Ok(v) => Evaluated { result: unary(token.token_type, v), machine: r.machine },
                }
            },
            ExprView::Binary { token, rhs, lhs } => {
                let r = eval_value(*rhs, m, less);
                match r.result {
                    Err(_) => r,
                    Ok(right) => {
                        let l = eval_value(*lhs, r.machine, less);
                        match l.result {
                            Err(_) => l,
                            Ok(left) => Evaluated {
                                result: binary(token.token_type, left, right),
                                machine: l.machine,
                            },
                        }
                    },
                }
            },
            ExprView::Logical { token, rhs, lhs } => if token.token_type != TokenType::And
                && token.token_type != TokenType::Or {
                Evaluated { result: Err(EvalError::UnsupportedOperation), machine: m }
            } else {
                let l = eval_value(*lhs, m, less);
                match l.result {
                    Err(_) => l,
                    Ok(left) => if left.type_ != ExprResType::Boolean {
                        Evaluated {
                            result: Err(EvalError::UnsupportedOperation),
                            machine: l.machine,
                        }
                    } else if left.boolean == (token.token_type == TokenType::Or) {
                        Evaluated { result: Ok(bool_value(left.boolean)), machine: l.machine }
                    } else {
                        let r = eval_value(*rhs, l.machine, less);
                        match r.result {
                            Err(_) => r,
                            Ok(right) => if right.type_ != ExprResType::Boolean {
                                Evaluated {
                                    result: Err(EvalError::UnsupportedOperation),
                                    machine: r.machine,
                                }
                            } else {
                                Evaluated {
                                    result: Ok(bool_value(right.boolean)),
                                    machine: r.machine,
                                }
                            },
                        }
                    },
                }
            },
            ExprView::Assignment { identifier, value } => {
                let t = eval(*identifier, m, less);
                match t.result {
                    Err(_) => t,
                    Ok(target) => if target.type_ != ExprResType::Identifier {
                        Evaluated { result: Err(EvalError::TypeError), machine: t.machine }
                    } else {
                        let v = eval_value(*value, t.machine, less);
                        match v.result {
                            Err(_) => v,
                            Ok(x) => assign(target.str, x, v.machine),
                        }
                    },
                }
            },
            ExprView::Call { identifier, args } => {
                let c = eval_value(*identifier, m, less);
                match c.result {
                    Err(_) => c,
                    Ok(callee) => match callee.method {
                        None => Evaluated { result: Err(EvalError::TypeError), machine: c.machine },
                        Some(f) => {
                            let a = eval_args(args, 0, Seq::empty(), c.machine, less);
                            match a.result {
                                Err(e) => Evaluated { result: Err(e), machine: a.machine },
                                Ok(values) => apply(f, values, a.machine, less),
                            }
                        },
                    },
                }
            },
        }
    }
}

/// The assignment of `value` to the variable `name`: the value goes into
/// the cell that the name denotes, and nil clears that cell; a name that
/// denotes nothing is an error.
pub open spec fn assign(name: Seq<char>, value: ValueView, m: MachineView) -> Evaluated {
    if m.envs.lookup(name) is None {
        Evaluated { result: Err(EvalError::UndefinedVariable), machine: m }
    } else if value.type_ == ExprResType::Nil {
        Evaluated { result: Ok(nil_value()), machine: m.with_envs(m.envs.remove(name)) }
    } else {
        Evaluated { result: Ok(value), machine: m.with_envs(m.envs.assign(name, value)) }
    }
}

/// The value of an expression with names looked up.
#[verifier::opaque]
pub open spec fn eval_value(e: ExprView, m: MachineView, fuel: nat) -> Evaluated
    decreases fuel, 1nat, 0nat,
{
    let r = eval(e, m, fuel);
    match r.result {
        Err(_) => r,
        Ok(v) => Evaluated { result: resolve(v, r.machine.envs), machine: r.machine },
    }
}

/// The values of the arguments from `from` on, in order, added to `acc`.
#[verifier::opaque]
pub open spec fn eval_args(
    args: Seq<ExprView>,
    from: nat,
    acc: Seq<ValueView>,
    m: MachineView,
    fuel: nat,
) -> ArgsEvaluated
    decreases fuel, 2 + args.len() - from, 0nat,
{
    if from >= args.len() {
        ArgsEvaluated { result: Ok(acc), machine: m }
    } else {
        let first = eval_value(args[from as int], m, fuel);
        match first.result {
            Err(e) => ArgsEvaluated { result: Err(e), machine: first.machine },
            Ok(v) => eval_args(args, from + 1, acc.push(v), first.machine, fuel),
        }
    }
}

/// The call of the function `f` with the values `values`.
///
/// A number of values other than the number of parameters is reported.
/// The body runs in a new scope inside the function's captured
/// environment, in which the parameters are bound to the values; then that
/// scope is left for the caller's, whatever came of the body. A returned
/// value is the value of the call; without one it is nil.
#[verifier::opaque]
pub open spec fn apply(f: MethodView, values: Seq<ValueView>, m: MachineView, fuel: nat) -> Evaluated
    decreases fuel, 4nat, 0nat,
{
    let noted = if f.params.len() != values.len() {
        m.reporting(EvalError::Arity)
    } else {
        m
    };
    if f.captured_env >= m.envs.scopes.len() {
        Evaluated { result: Err(EvalError::TypeError), machine: noted }
    } else {
        let entered = noted.with_envs(
            bind_params(m.envs.push_under(f.captured_env), f.params, values, 0),
        );
        let r = run(f.body, entered, fuel);
        let back = r.machine.with_envs(
            r.machine.envs.leave(m.envs.scopes.len(), m.envs.top),
        );
        Evaluated {
            result: match r.result {
                Err(e) => Err(e),
                Ok(FlowView::Returning(v)) => Ok(v),
                Ok(FlowView::Normal) => Ok(nil_value()),
            },
            machine: back,
        }
    }
}

/// The declaration of the variable `name` with the value `v` of its
/// initializer: where the initializer is a name, the new variable shares
/// the cell of that name; otherwise it gets a cell of its own.
pub open spec fn declare(name: Seq<char>, v: ValueView, m: MachineView) -> Executed {
    if v.type_ == ExprResType::Identifier {
        match m.envs.lookup(v.str) {
            Some(cell) => Executed {
                result: Ok(FlowView::Normal),
                machine: m.with_envs(m.envs.define_ref(name, cell)),
            },
            None => Executed { result: Err(EvalError::UndefinedVariable), machine: m },
        }
    } else {
        Executed { result: Ok(FlowView::Normal), machine: m.with_envs(m.envs.define(name, v)) }
    }
}

/// The execution of a statement, with `fuel` levels of nesting left.
///
/// An expression statement evaluates its expression and looks no name up;
/// `print` adds a line to the output; a declaration binds its name in the
/// current scope; a block runs in a new scope, which is left again
/// whatever comes of the block; `if` runs one branch and `while` runs
/// rounds, as many as the machine allows, and both ask for a condition
/// that is a truth value; `for` runs as its `while` form; a function
/// definition captures what its body uses; `return` ends the enclosing
/// function with a value, nil if none is given.
#[verifier::opaque]
pub open spec fn run(s: StmtView, m: MachineView, fuel: nat) -> Executed
    decreases fuel, 3nat, 0nat,
{
    if fuel == 0 {
        Executed { result: Err(EvalError::ResourceExhausted), machine: m }
    } else {
        let less = (fuel - 1) as nat;
        match s {
            StmtView::Stmt { expr } => {
                let r = eval(expr, m, less);
                match r.result {
                    Err(e) => Executed { result: Err(e), machine: r.machine },
                    Ok(_) => Executed { result: Ok(FlowView::Normal), machine: r.machine },
                }
            },
            StmtView::Print { expr } => {
                let r = eval_value(expr, m, less);
                match r.result {
                    Err(e) => Executed { result: Err(e), machine: r.machine },
                    Ok(v) => Executed {
                        result: Ok(FlowView::Normal),
                        machine: r.machine.printing(printed(v)),
                    },
                }
            },
            StmtView::VarDeclaration { identifier, expr } => {
                let t = eval(identifier, m, less);
                match t.result {
                    Err(e) => Executed { result: Err(e), machine: t.machine },
                    Ok(target) => if target.type_ != ExprResType::Identifier {
                        Executed { result: Err(EvalError::TypeError), machine: t.machine }
                    } else {
                        match expr {
                            None => declare(target.str, nil_value(), t.machine),
                            Some(init) => {
                                let v = eval(init, t.machine, less);
                                match v.result {
                                    Err(e) => Executed { result: Err(e), machine: v.machine },
                                    Ok(x) => declare(target.str, x, v.machine),
                                }
                            },
                        }
                    },
                }
            },
            StmtView::Block { statements } => {
                let r = run_block(statements, 0, m.with_envs(m.envs.push()), less);
                Executed {
                    result: r.result,
                    machine: r.machine.with_envs(
                        r.machine.envs.leave(m.envs.scopes.len(), m.envs.top),
                    ),
                }
            },
            StmtView::If { expr, body, else_body } => {
                let c = eval_value(expr, m, less);
                match c.result {
                    Err(e) => Executed { result: Err(e), machine: c.machine },
                    Ok(test) => if test.type_ != ExprResType::Boolean {
                        Executed { result: Err(EvalError::TypeError), machine: c.machine }
                    } else if test.boolean {
                        run(*body, c.machine, less)
                    } else {
                        match else_body {
                            Some(other) => run(*other, c.machine, less),
                            None => Executed { result: Ok(FlowView::Normal), machine: c.machine },
                        }
                    },
                }
            },
            StmtView::While { expr, body } => run_while(expr, *body, m, less, m.rounds),
            StmtView::For { initiation, condition, increment, body } => match for_as_while(
                initiation,
                condition,
                increment,
                *body,
            ) {
                Some(written) => run(written, m, less),
                None => Executed { result: Err(EvalError::TypeError), machine: m },
            },
            StmtView::Fun { identifier, args, block } => match (block, param_list(args)) {
                (Some(body), Some(params)) => Executed {
                    result: Ok(FlowView::Normal),
                    machine: define_function(m, identifier.value, params, *body),
                },
                _ => Executed { result: Err(EvalError::TypeError), machine: m },
            },
            StmtView::Return { expr } => match expr {
                None => Executed { result: Ok(FlowView::Returning(nil_value())), machine: m },
                Some(e) => {
                    let r = eval_value(e, m, less);
                    match r.result {
                        Err(e) => Executed { result: Err(e), machine: r.machine },
                        Ok(v) => Executed { result: Ok(FlowView::Returning(v)), machine: r.machine },
                    }
                },
            },
        }
    }
}

/// The execution of the statements from `from` on, in order, up to the
/// first that returns or fails.
#[verifier::opaque]
pub open spec fn run_block(list: Seq<StmtView>, from: nat, m: MachineView, fuel: nat) -> Executed
    decreases fuel, 4 + list.len() - from, 0nat,
{
    if from >= list.len() {
        Executed { result: Ok(FlowView::Normal), machine: m }
    } else {
        let r = run(list[from as int], m, fuel);
        match r.result {
            Ok(FlowView::Normal) => run_block(list, from + 1, r.machine, fuel),
            _ => r,
        }
    }
}

/// The execution of a loop with `rounds` rounds left: the condition is
/// evaluated anew before each round and is to be a truth value; a body
/// that returns or fails ends the loop at once. The rounds of a loop do
/// not take from `fuel`; a loop that has no round left when its condition
/// is due is out of resources.
#[verifier::opaque]
pub open spec fn run_while(
    cond: ExprView,
    body: StmtView,
    m: MachineView,
    fuel: nat,
    rounds: nat,
) -> Executed
    decreases fuel, 2nat, rounds,
{
    if fuel == 0 || rounds == 0 {
        Executed { result: Err(EvalError::ResourceExhausted), machine: m }
    } else {
        let less = (fuel - 1) as nat;
        let c = eval_value(cond, m, less);
        match c.result {
            Err(e) => Executed { result: Err(e), machine: c.machine },
            Ok(test) => if test.type_ != ExprResType::Boolean {
                Executed { result: Err(EvalError::TypeError), machine: c.machine }
            } else if !test.boolean {
                Executed { result: Ok(FlowView::Normal), machine: c.machine }
            } else {
                let r = run(body, c.machine, less);
                match r.result {
                    Ok(FlowView::Normal) => run_while(cond, body, r.machine, fuel, (rounds - 1) as nat),
                    _ => r,
                }
            },
        }
    }
}

/// The execution of a whole program: its statements in order, in the
/// current scope, up to the first that returns or fails.
pub open spec fn interpret(program: Seq<StmtView>, m: MachineView, fuel: nat) -> Executed {
    run_block(program, 0, m, fuel)
}

} // verus!
