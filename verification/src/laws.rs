use vstd::prelude::*;
use crate::error::EvalError;
use crate::expression::ExprView;
use crate::program::EnvsView;
use crate::semantics::{
    apply, arithmetic, bind_captures, bind_params, eval, eval_args,
    eval_value, for_as_while, param_list, resolve, run, run_block, run_while, Evaluated,
    MachineView,
};
use crate::resolver::{
    captures_of, claim, is_captured, use_name, walk_expr, walk_exprs, walk_stmt,
    walk_stmts, Captures,
};
use crate::statement::StmtView;
use crate::runtime::MethodView;
use crate::token::{TokenType, TokenView};
use crate::value::{bool_value, name_value, nil_value, ExprResType, ValueView};

verus! {

/// Which scope binds a name depends on the scopes alone, not on what the
/// cells hold or on which scope is current.
pub proof fn find_scope_reads_scopes_only(a: EnvsView, b: EnvsView, from: nat, name: Seq<char>)
    requires
        a.scopes == b.scopes,
    ensures
        a.find_scope(from, name) == b.find_scope(from, name),
    decreases from,
{
    if from < a.scopes.len() && !a.scopes[from as int].bindings.contains_key(name) {
        match a.scopes[from as int].enclosing {
            Some(p) => {
                if p < from {
                    find_scope_reads_scopes_only(a, b, p, name);
                }
            },
            None => {},
        }
    }
}

/// A scope that is made later does not change what the scopes made before
/// it see.
pub proof fn find_scope_ignores_later_scopes(a: EnvsView, b: EnvsView, from: nat, name: Seq<char>)
    requires
        a.scopes.len() <= b.scopes.len(),
        forall|i: int| 0 <= i < a.scopes.len() ==> a.scopes[i] == b.scopes[i],
        from < a.scopes.len(),
    ensures
        a.find_scope(from, name) == b.find_scope(from, name),
    decreases from,
{
    if !a.scopes[from as int].bindings.contains_key(name) {
        match a.scopes[from as int].enclosing {
            Some(p) => {
                if p < from {
                    find_scope_ignores_later_scopes(a, b, p, name);
                }
            },
            None => {},
        }
    }
}

/// The scope that a lookup finds binds the name.
pub proof fn find_scope_binds(e: EnvsView, from: nat, name: Seq<char>)
    ensures
        e.find_scope(from, name) matches Some(s) ==> s <= from && s < e.scopes.len()
            && e.scopes[s as int].bindings.contains_key(name),
    decreases from,
{
    if from < e.scopes.len() && !e.scopes[from as int].bindings.contains_key(name) {
        match e.scopes[from as int].enclosing {
            Some(p) => {
                if p < from {
                    find_scope_binds(e, p, name);
                }
            },
            None => {},
        }
    }
}

/// The chain stays sound: defining, assigning, removing and entering or
/// leaving a scope keep the environments valid, so the chain never turns
/// back on itself and every binding keeps its cell.
pub proof fn validity_is_kept(e: EnvsView, x: Seq<char>, v: ValueView, cell: nat)
    requires
        e.valid(),
    ensures
        e.define(x, v).valid(),
        cell < e.cells.len() ==> e.define_ref(x, cell).valid(),
        e.assign(x, v).valid(),
        e.remove(x).valid(),
        e.push().valid(),
        e.pop().valid(),
{
    let defined = e.define(x, v);
    assert forall|i: int, n: Seq<char>|
        0 <= i < defined.scopes.len() && (#[trigger] defined.scopes[i].bindings.contains_key(
            n,
        )) implies defined.scopes[i].bindings[n] < defined.cells.len() by {
        if i != e.top || n != x {
            assert(e.scopes[i].bindings.contains_key(n));
        }
    }
    if cell < e.cells.len() {
        let bound = e.define_ref(x, cell);
        assert forall|i: int, n: Seq<char>|
            0 <= i < bound.scopes.len() && (#[trigger] bound.scopes[i].bindings.contains_key(
                n,
            )) implies bound.scopes[i].bindings[n] < bound.cells.len() by {
            if i != e.top || n != x {
                assert(e.scopes[i].bindings.contains_key(n));
            }
        }
    }
    find_scope_binds(e, e.top, x);
    if e.lookup(x) is Some {
        let s = e.scope_of(x)->0 as int;
        assert(e.scopes[s].bindings.contains_key(x));
        assert(e.lookup(x)->0 < e.cells.len());
    }
    let assigned = e.assign(x, v);
    assert forall|i: int, n: Seq<char>|
        0 <= i < assigned.scopes.len() && (#[trigger] assigned.scopes[i].bindings.contains_key(
            n,
        )) implies assigned.scopes[i].bindings[n] < assigned.cells.len() by {
        assert(e.scopes[i].bindings.contains_key(n));
    }
    let removed = e.remove(x);
    assert forall|i: int, n: Seq<char>|
        0 <= i < removed.scopes.len() && (#[trigger] removed.scopes[i].bindings.contains_key(
            n,
        )) implies removed.scopes[i].bindings[n] < removed.cells.len() by {
        assert(e.scopes[i].bindings.contains_key(n));
    }
    let entered = e.push();
    assert forall|i: int, n: Seq<char>|
        0 <= i < entered.scopes.len() && (#[trigger] entered.scopes[i].bindings.contains_key(
            n,
        )) implies entered.scopes[i].bindings[n] < entered.cells.len() by {
        if i < e.scopes.len() {
            assert(e.scopes[i].bindings.contains_key(n));
        }
    }
    assert forall|i: int| 0 <= i < entered.scopes.len() implies match (
    #[trigger] entered.scopes[i]).enclosing {
        Some(p) => p < i,
        None => true,
    } by {
        if i < e.scopes.len() {
            assert(entered.scopes[i] == e.scopes[i]);
        }
    }
    let left = e.pop();
    assert forall|i: int, n: Seq<char>|
        0 <= i < left.scopes.len() && (#[trigger] left.scopes[i].bindings.contains_key(
            n,
        )) implies left.scopes[i].bindings[n] < left.cells.len() by {
        assert(e.scopes[i].bindings.contains_key(n));
    }
    assert forall|i: int| 0 <= i < left.scopes.len() implies match (
    #[trigger] left.scopes[i]).enclosing {
        Some(p) => p < i,
        None => true,
    } by {
        assert(left.scopes[i] == e.scopes[i]);
    }
}

/// Shadow and restore: a variable declared in an inner scope hides the
/// variable of the same name outside it while the inner scope is current,
/// and the outer variable is seen again, unchanged, once the inner scope
/// is left.
pub proof fn shadow_and_restore(e: EnvsView, x: Seq<char>, outer: ValueView, inner: ValueView)
    requires
        e.valid(),
    ensures
        e.define(x, outer).push().define(x, inner).value_of(x) == Some(inner),
        e.define(x, outer).push().define(x, inner).pop().value_of(x) == Some(outer),
{
    let first = e.define(x, outer);
    let entered = first.push();
    let second = entered.define(x, inner);
    assert(second.scopes[second.top as int].bindings.contains_key(x));
    assert(second.find_scope(second.top, x) == Some(second.top));
    let left = second.pop();
    assert(left.top == e.top);
    assert(left.scopes[e.top as int].bindings.contains_key(x));
    assert(left.find_scope(e.top, x) == Some(e.top));
}

/// A variable of an inner scope is unknown once that scope is left, if
/// nothing outside binds its name.
pub proof fn inner_variable_ends_with_its_scope(e: EnvsView, x: Seq<char>, v: ValueView)
    requires
        e.valid(),
        e.lookup(x) is None,
    ensures
        e.push().define(x, v).pop().lookup(x) is None,
{
    let inside = e.push().define(x, v);
    let left = inside.pop();
    assert(left.top == e.top);
    find_scope_ignores_later_scopes(e, left, e.top, x);
}

/// Assignment writes into the nearest binding and makes no new one: the
/// scopes stay as they are, and the variable then holds the value.
pub proof fn assignment_keeps_the_bindings(e: EnvsView, x: Seq<char>, v: ValueView)
    requires
        e.valid(),
        e.lookup(x) is Some,
    ensures
        e.assign(x, v).scopes == e.scopes,
        e.assign(x, v).cells.len() == e.cells.len(),
        e.assign(x, v).lookup(x) == e.lookup(x),
        e.assign(x, v).value_of(x) == Some(v),
{
    find_scope_reads_scopes_only(e, e.assign(x, v), e.top, x);
    find_scope_binds(e, e.top, x);
}

/// A closure sees the live variable: when a function captures the cell of
/// `x` and `x` is assigned afterwards from outside, a lookup of `x` from
/// the function's captured scope yields the new value.
pub proof fn captured_variable_is_live(e: EnvsView, x: Seq<char>, v: ValueView)
    requires
        e.valid(),
        e.lookup(x) is Some,
    ensures
        ({
            let cell = e.lookup(x)->0;
            let captured = e.push_under(e.top).define_ref(x, cell).return_to(e.top);
            let changed = captured.assign(x, v);
            &&& captured.lookup(x) == Some(cell)
            &&& changed.with_top(e.scopes.len()).value_of(x) == Some(v)
        }),
{
    let cell = e.lookup(x)->0;
    let captured = e.push_under(e.top).define_ref(x, cell).return_to(e.top);
    find_scope_binds(e, e.top, x);
    find_scope_ignores_later_scopes(e, captured, e.top, x);
    let changed = captured.assign(x, v);
    let inside = changed.with_top(e.scopes.len());
    assert(inside.scopes[inside.top as int].bindings.contains_key(x));
    assert(inside.find_scope(inside.top, x) == Some(inside.top));
}

/// A change made through a closure is seen outside: when a function has
/// captured the cell of `x` and assigns `x` from its captured scope, a
/// lookup of `x` from the scope in which it was defined yields the new
/// value.
pub proof fn change_through_capture_is_seen(e: EnvsView, x: Seq<char>, v: ValueView)
    requires
        e.valid(),
        e.lookup(x) is Some,
    ensures
        ({
            let cell = e.lookup(x)->0;
            let captured = e.push_under(e.top).define_ref(x, cell);
            captured.assign(x, v).return_to(e.top).value_of(x) == Some(v)
        }),
{
    let cell = e.lookup(x)->0;
    let captured = e.push_under(e.top).define_ref(x, cell);
    find_scope_binds(e, e.top, x);
    assert(captured.scopes[captured.top as int].bindings.contains_key(x));
    assert(captured.find_scope(captured.top, x) == Some(captured.top));
    let outside = captured.assign(x, v).return_to(e.top);
    find_scope_ignores_later_scopes(e, outside, e.top, x);
}

/// A name that no scope binds denotes nothing, and its value is the error
/// `UndefinedVariable`, never nil.
pub proof fn undefined_name_is_an_error(e: EnvsView, name: Seq<char>)
    requires
        forall|i: int| 0 <= i < e.scopes.len() ==> !(#[trigger] e.scopes[i]).bindings.contains_key(name),
    ensures
        e.lookup(name) is None,
        e.value_of(name) is None,
        resolve(name_value(name), e) == Err::<ValueView, EvalError>(EvalError::UndefinedVariable),
{
    find_scope_binds(e, e.top, name);
}

/// What a lookup yields is the cell of a binding of the name in a scope of
/// the chain.
pub proof fn lookup_is_a_binding(e: EnvsView, name: Seq<char>)
    ensures
        e.lookup(name) matches Some(c) ==> exists|s: int|
            0 <= s <= e.top && s < e.scopes.len() && (#[trigger] e.scopes[s]).bindings.contains_key(
                name,
            ) && e.scopes[s].bindings[name] == c,
{
    find_scope_binds(e, e.top, name);
    if e.lookup(name) is Some {
        let s = e.scope_of(name)->0 as int;
        assert(e.scopes[s].bindings.contains_key(name));
    }
}

/// Evaluating an unknown variable for its value fails with
/// `UndefinedVariable` and leaves the machine as it was.
pub proof fn unknown_variable_fails(kind: TokenType, name: Seq<char>, m: MachineView, fuel: nat)
    requires
        fuel > 0,
        m.envs.lookup(name) is None,
    ensures
        eval_value(ExprView::Variable { token_type: kind, value: name }, m, fuel) == (Evaluated {
            result: Err(EvalError::UndefinedVariable),
            machine: m,
        }),
{
    reveal(eval);
    reveal(eval_value);
}

/// Removal reaches every holder: after the variable `x` is removed, `x`
/// holds nil, and so does every name that, seen from any scope, shares
/// the cell of `x`.
pub proof fn removal_reaches_every_holder(e: EnvsView, x: Seq<char>, y: Seq<char>, from: nat)
    requires
        e.valid(),
        e.lookup(x) is Some,
        e.with_top(from).lookup(y) == e.lookup(x),
    ensures
        e.remove(x).value_of(x) == Some(nil_value()),
        e.remove(x).with_top(from).value_of(y) == Some(nil_value()),
        e.remove(x).scopes == e.scopes,
{
    find_scope_reads_scopes_only(e, e.remove(x), e.top, x);
    find_scope_reads_scopes_only(e.with_top(from), e.remove(x).with_top(from), from, y);
    find_scope_binds(e, e.top, x);
}

/// `or` does not evaluate its right operand when the left one is true:
/// the outcome is that of the left operand alone, whatever stands on the
/// right.
pub proof fn or_skips_the_right_operand(
    op: TokenView,
    lhs: ExprView,
    rhs: ExprView,
    m: MachineView,
    fuel: nat,
)
    requires
        fuel > 0,
        op.token_type == TokenType::Or,
        eval_value(lhs, m, (fuel - 1) as nat).result matches Ok(left) && left.type_
            == ExprResType::Boolean && left.boolean,
    ensures
        eval(ExprView::Logical { token: op, rhs: Box::new(rhs), lhs: Box::new(lhs) }, m, fuel) == (
        Evaluated {
            result: Ok(bool_value(true)),
            machine: eval_value(lhs, m, (fuel - 1) as nat).machine,
        }),
{
    reveal(eval);
    reveal(eval_value);
}

/// `and` does not evaluate its right operand when the left one is false:
/// the outcome is that of the left operand alone, whatever stands on the
/// right.
pub proof fn and_skips_the_right_operand(
    op: TokenView,
    lhs: ExprView,
    rhs: ExprView,
    m: MachineView,
    fuel: nat,
)
    requires
        fuel > 0,
        op.token_type == TokenType::And,
        eval_value(lhs, m, (fuel - 1) as nat).result matches Ok(left) && left.type_
            == ExprResType::Boolean && !left.boolean,
    ensures
        eval(ExprView::Logical { token: op, rhs: Box::new(rhs), lhs: Box::new(lhs) }, m, fuel) == (
        Evaluated {
            result: Ok(bool_value(false)),
            machine: eval_value(lhs, m, (fuel - 1) as nat).machine,
        }),
{
    reveal(eval);
    reveal(eval_value);
}

/// The remainder is never negative and stays below the size of the
/// divisor.
pub proof fn remainder_is_not_negative(a: int, b: int)
    requires
        b != 0,
    ensures
        arithmetic(TokenType::Percent, a, b) matches Ok(v) ==> 0 <= v.number && (b > 0
            ==> v.number < b) && (b < 0 ==> v.number < -b),
{
    assert(0 <= a % b && (b > 0 ==> a % b < b) && (b < 0 ==> a % b < -b)) by (nonlinear_arith)
        requires
            b != 0,
    ;
}

/// Without fuel nothing is evaluated: the outcome is `ResourceExhausted`
/// and the machine stays as it was.
pub proof fn no_fuel_no_evaluation(e: ExprView, m: MachineView)
    ensures
        eval(e, m, 0) == (Evaluated { result: Err(EvalError::ResourceExhausted), machine: m }),
{
    reveal(eval);
}


/// Binding parameters makes no scope and takes none away.
pub proof fn bind_params_keeps_scopes(
    envs: EnvsView,
    params: Seq<Seq<char>>,
    values: Seq<ValueView>,
    from: nat,
)
    requires
        envs.top < envs.scopes.len(),
    ensures
        bind_params(envs, params, values, from).scopes.len() == envs.scopes.len(),
        bind_params(envs, params, values, from).top == envs.top,
    decreases params.len() - from,
{
    if from < params.len() && from < values.len() {
        bind_params_keeps_scopes(
            envs.define(params[from as int], values[from as int]),
            params,
            values,
            from + 1,
        );
    }
}

/// Binding captured names makes no scope and takes none away.
pub proof fn bind_captures_keeps_scopes(envs: EnvsView, captured: Seq<(Seq<char>, nat)>, from: nat)
    requires
        envs.top < envs.scopes.len(),
    ensures
        bind_captures(envs, captured, from).scopes.len() == envs.scopes.len(),
        bind_captures(envs, captured, from).top == envs.top,
    decreases captured.len() - from,
{
    if from < captured.len() {
        let (name, cell) = captured[from as int];
        let bound = if cell < envs.cells.len() {
            envs.define_ref(name, cell)
        } else {
            envs
        };
        bind_captures_keeps_scopes(bound, captured, from + 1);
    }
}

/// The machine `after` has every scope that `before` has, and stands in
/// the same scope.
pub open spec fn same_place(before: MachineView, after: MachineView) -> bool {
    before.envs.scopes.len() <= after.envs.scopes.len() && after.envs.top == before.envs.top
}

/// Evaluating an expression leaves the machine in the scope it was in,
/// whatever the outcome, and takes no scope away.
pub proof fn eval_returns_to_its_scope(e: ExprView, m: MachineView, fuel: nat)
    requires
        m.envs.top < m.envs.scopes.len(),
    ensures
        same_place(m, eval(e, m, fuel).machine),
    decreases fuel, 0nat, 0nat,
{
    reveal(eval);
    reveal(eval_value);
    reveal(eval_args);
    reveal(apply);
    if fuel > 0 {
        let less = (fuel - 1) as nat;
        match e {
            ExprView::Literal { token_type, value } => {},
            ExprView::Variable { token_type, value } => {},
            ExprView::Grouping { value } => {
                eval_returns_to_its_scope(*value, m, less);
            },
            ExprView::Unary { token, rhs } => {
                eval_value_returns_to_its_scope(*rhs, m, less);
            },
            ExprView::Binary { token, rhs, lhs } => {
                eval_value_returns_to_its_scope(*rhs, m, less);
                let r = eval_value(*rhs, m, less);
                if r.result is Ok {
                    eval_value_returns_to_its_scope(*lhs, r.machine, less);
                }
            },
            ExprView::Logical { token, rhs, lhs } => {
                eval_value_returns_to_its_scope(*lhs, m, less);
                let l = eval_value(*lhs, m, less);
                if l.result is Ok {
                    eval_value_returns_to_its_scope(*rhs, l.machine, less);
                }
            },
            ExprView::Assignment { identifier, value } => {
                eval_returns_to_its_scope(*identifier, m, less);
                let t = eval(*identifier, m, less);
                if t.result is Ok {
                    eval_value_returns_to_its_scope(*value, t.machine, less);
                }
            },
            ExprView::Call { identifier, args } => {
                eval_value_returns_to_its_scope(*identifier, m, less);
                let c = eval_value(*identifier, m, less);
                if c.result is Ok {
                    eval_args_returns_to_its_scope(args, 0, Seq::empty(), c.machine, less);
                    let a = eval_args(args, 0, Seq::empty(), c.machine, less);
                    if a.result is Ok && c.result->Ok_0.method is Some {
                        apply_returns_to_its_scope(
                            c.result->Ok_0.method->0,
                            a.result->Ok_0,
                            a.machine,
                            less,
                        );
                    }
                }
            },
        }
    }
}

/// Evaluating an expression for its value leaves the machine in the scope
/// it was in.
pub proof fn eval_value_returns_to_its_scope(e: ExprView, m: MachineView, fuel: nat)
    requires
        m.envs.top < m.envs.scopes.len(),
    ensures
        same_place(m, eval_value(e, m, fuel).machine),
    decreases fuel, 1nat, 0nat,
{
    reveal(eval);
    reveal(eval_value);
    eval_returns_to_its_scope(e, m, fuel);
}

/// Evaluating arguments leaves the machine in the scope it was in.
pub proof fn eval_args_returns_to_its_scope(
    args: Seq<ExprView>,
    from: nat,
    acc: Seq<ValueView>,
    m: MachineView,
    fuel: nat,
)
    requires
        m.envs.top < m.envs.scopes.len(),
    ensures
        same_place(m, eval_args(args, from, acc, m, fuel).machine),
    decreases fuel, 2 + args.len() - from, 0nat,
{
    reveal(eval_args);
    reveal(eval_value);
    if from < args.len() {
        eval_value_returns_to_its_scope(args[from as int], m, fuel);
        let first = eval_value(args[from as int], m, fuel);
        if first.result is Ok {
            eval_args_returns_to_its_scope(
                args,
                from + 1,
                acc.push(first.result->Ok_0),
                first.machine,
                fuel,
            );
        }
    }
}

/// A call leaves the machine in the caller's scope, whatever came of the
/// body.
pub proof fn apply_returns_to_its_scope(
    f: MethodView,
    values: Seq<ValueView>,
    m: MachineView,
    fuel: nat,
)
    requires
        m.envs.top < m.envs.scopes.len(),
    ensures
        same_place(m, apply(f, values, m, fuel).machine),
    decreases fuel, 4nat, 0nat,
{
    reveal(apply);
    reveal(run);
    if f.captured_env < m.envs.scopes.len() {
        let noted = if f.params.len() != values.len() {
            m.reporting(EvalError::Arity)
        } else {
            m
        };
        bind_params_keeps_scopes(m.envs.push_under(f.captured_env), f.params, values, 0);
        let entered = noted.with_envs(
            bind_params(m.envs.push_under(f.captured_env), f.params, values, 0),
        );
        run_returns_to_its_scope(f.body, entered, fuel);
    }
}

/// Executing a statement leaves the machine in the scope it was in: a
/// block is always left again, whether it ends normally, returns or
/// fails.
pub proof fn run_returns_to_its_scope(s: StmtView, m: MachineView, fuel: nat)
    requires
        m.envs.top < m.envs.scopes.len(),
    ensures
        same_place(m, run(s, m, fuel).machine),
    decreases fuel, 3nat, 0nat,
{
    reveal(run);
    reveal(eval);
    reveal(eval_value);
    reveal(run_block);
    reveal(run_while);
    if fuel > 0 {
        let less = (fuel - 1) as nat;
        match s {
            StmtView::Stmt { expr } => {
                eval_returns_to_its_scope(expr, m, less);
            },
            StmtView::Print { expr } => {
                eval_value_returns_to_its_scope(expr, m, less);
            },
            StmtView::VarDeclaration { identifier, expr } => {
                eval_returns_to_its_scope(identifier, m, less);
                let t = eval(identifier, m, less);
                if t.result is Ok {
                    match expr {
                        None => {},
                        Some(init) => {
                            eval_returns_to_its_scope(init, t.machine, less);
                        },
                    }
                }
            },
            StmtView::Block { statements } => {
                run_block_returns_to_its_scope(statements, 0, m.with_envs(m.envs.push()), less);
            },
            StmtView::If { expr, body, else_body } => {
                eval_value_returns_to_its_scope(expr, m, less);
                let c = eval_value(expr, m, less);
                if c.result is Ok {
                    run_returns_to_its_scope(*body, c.machine, less);
                    match else_body {
                        Some(other) => {
                            run_returns_to_its_scope(*other, c.machine, less);
                        },
                        None => {},
                    }
                }
            },
            StmtView::While { expr, body } => {
                run_while_returns_to_its_scope(expr, *body, m, less, m.rounds);
            },
            StmtView::For { initiation, condition, increment, body } => {
                match for_as_while(initiation, condition, increment, *body) {
                    Some(written) => {
                        run_returns_to_its_scope(written, m, less);
                    },
                    None => {},
                }
            },
            StmtView::Fun { identifier, args, block } => {
                match (block, param_list(args)) {
                    (Some(body), Some(params)) => {
                        bind_captures_keeps_scopes(
                            m.envs.push_under(m.envs.top),
                            captures_of(*body, params, m.envs),
                            0,
                        );
                    },
                    _ => {},
                }
            },
            StmtView::Return { expr } => {
                match expr {
                    None => {},
                    Some(e) => {
                        eval_value_returns_to_its_scope(e, m, less);
                    },
                }
            },
        }
    }
}

/// Executing statements in order leaves the machine in the scope it was
/// in.
pub proof fn run_block_returns_to_its_scope(
    list: Seq<StmtView>,
    from: nat,
    m: MachineView,
    fuel: nat,
)
    requires
        m.envs.top < m.envs.scopes.len(),
    ensures
        same_place(m, run_block(list, from, m, fuel).machine),
    decreases fuel, 4 + list.len() - from, 0nat,
{
    reveal(run_block);
    reveal(run);
    if from < list.len() {
        run_returns_to_its_scope(list[from as int], m, fuel);
        let r = run(list[from as int], m, fuel);
        run_block_returns_to_its_scope(list, from + 1, r.machine, fuel);
    }
}

/// Executing a loop leaves the machine in the scope it was in.
pub proof fn run_while_returns_to_its_scope(
    cond: ExprView,
    body: StmtView,
    m: MachineView,
    fuel: nat,
    rounds: nat,
)
    requires
        m.envs.top < m.envs.scopes.len(),
    ensures
        same_place(m, run_while(cond, body, m, fuel, rounds).machine),
    decreases fuel, 2nat, rounds,
{
    reveal(run_while);
    reveal(run);
    reveal(eval_value);
    if fuel > 0 && rounds > 0 {
        let less = (fuel - 1) as nat;
        eval_value_returns_to_its_scope(cond, m, less);
        let c = eval_value(cond, m, less);
        if c.result is Ok {
            run_returns_to_its_scope(body, c.machine, less);
            let r = run(body, c.machine, less);
            run_while_returns_to_its_scope(cond, body, r.machine, fuel, (rounds - 1) as nat);
        }
    }
}

/// What was captured is sound: each captured name is bound, in the
/// defining environment, to the cell it was captured with; it is no
/// parameter; and no name was captured twice.
pub open spec fn sound_captures(
    captured: Seq<(Seq<char>, nat)>,
    params: Seq<Seq<char>>,
    envs: EnvsView,
) -> bool {
    &&& forall|i: int|
        0 <= i < captured.len() ==> envs.lookup((#[trigger] captured[i]).0) == Some(captured[i].1)
            && !params.contains(captured[i].0)
    &&& forall|i: int, j: int|
        0 <= i < j < captured.len() ==> (#[trigger] captured[i]).0 != (#[trigger] captured[j]).0
}

/// A use of a name keeps the captures sound.
pub proof fn use_name_is_sound(name: Seq<char>, params: Seq<Seq<char>>, envs: EnvsView, c: Captures)
    requires
        sound_captures(c.captured, params, envs),
    ensures
        sound_captures(use_name(name, params, envs, c).captured, params, envs),
        use_name(name, params, envs, c).captured.len() >= c.captured.len(),
{
    let after = use_name(name, params, envs, c).captured;
    if after.len() > c.captured.len() {
        assert(!is_captured(c.captured, name));
        assert forall|i: int, j: int| 0 <= i < j < after.len() implies (#[trigger] after[i]).0 != (
        #[trigger] after[j]).0 by {
            if j == c.captured.len() {
                assert(after[i] == c.captured[i]);
            }
        }
    }
}

/// A walk over an expression keeps the captures sound.
pub proof fn walk_expr_is_sound(e: ExprView, params: Seq<Seq<char>>, envs: EnvsView, c: Captures)
    requires
        sound_captures(c.captured, params, envs),
    ensures
        sound_captures(walk_expr(e, params, envs, c).captured, params, envs),
    decreases e, 0nat,
{
    match e {
        ExprView::Grouping { value } => {
            walk_expr_is_sound(*value, params, envs, c);
        },
        ExprView::Binary { token, rhs, lhs } => {
            walk_expr_is_sound(*rhs, params, envs, c);
            walk_expr_is_sound(*lhs, params, envs, walk_expr(*rhs, params, envs, c));
        },
        ExprView::Unary { token, rhs } => {
            walk_expr_is_sound(*rhs, params, envs, c);
        },
        ExprView::Literal { token_type, value } => {},
        ExprView::Variable { token_type, value } => {
            use_name_is_sound(value, params, envs, c);
        },
        ExprView::Assignment { identifier, value } => {
            walk_expr_is_sound(*value, params, envs, claim(*identifier, c));
        },
        ExprView::Logical { token, rhs, lhs } => {
            walk_expr_is_sound(*rhs, params, envs, c);
            walk_expr_is_sound(*lhs, params, envs, walk_expr(*rhs, params, envs, c));
        },
        ExprView::Call { identifier, args } => {
            walk_expr_is_sound(*identifier, params, envs, c);
            walk_exprs_is_sound(args, 0, params, envs, walk_expr(*identifier, params, envs, c));
        },
    }
}

/// A walk over a list of expressions keeps the captures sound.
pub proof fn walk_exprs_is_sound(
    list: Seq<ExprView>,
    from: nat,
    params: Seq<Seq<char>>,
    envs: EnvsView,
    c: Captures,
)
    requires
        sound_captures(c.captured, params, envs),
    ensures
        sound_captures(walk_exprs(list, from, params, envs, c).captured, params, envs),
    decreases list, list.len() - from,
{
    if from < list.len() {
        walk_expr_is_sound(list[from as int], params, envs, c);
        walk_exprs_is_sound(
            list,
            from + 1,
            params,
            envs,
            walk_expr(list[from as int], params, envs, c),
        );
    }
}

/// A walk over a statement keeps the captures sound.
pub proof fn walk_stmt_is_sound(s: StmtView, params: Seq<Seq<char>>, envs: EnvsView, c: Captures)
    requires
        sound_captures(c.captured, params, envs),
    ensures
        sound_captures(walk_stmt(s, params, envs, c).captured, params, envs),
    decreases s, 0nat,
{
    match s {
        StmtView::Stmt { expr } => {
            walk_expr_is_sound(expr, params, envs, c);
        },
        StmtView::If { expr, body, else_body } => {
            walk_expr_is_sound(expr, params, envs, c);
            let c1 = walk_expr(expr, params, envs, c);
            walk_stmt_is_sound(*body, params, envs, c1);
            match else_body {
                Some(other) => {
                    walk_stmt_is_sound(*other, params, envs, walk_stmt(*body, params, envs, c1));
                },
                None => {},
            }
        },
        StmtView::Fun { identifier, args, block } => {},
        StmtView::While { expr, body } => {
            walk_expr_is_sound(expr, params, envs, c);
            walk_stmt_is_sound(*body, params, envs, walk_expr(expr, params, envs, c));
        },
        StmtView::For { initiation, condition, increment, body } => {
            let c1 = match initiation {
                Some(i) => {
                    walk_stmt_is_sound(*i, params, envs, c);
                    walk_stmt(*i, params, envs, c)
                },
                None => c,
            };
            let c2 = match condition {
                Some(t) => {
                    walk_stmt_is_sound(*t, params, envs, c1);
                    walk_stmt(*t, params, envs, c1)
                },
                None => c1,
            };
            walk_stmt_is_sound(*body, params, envs, c2);
            match increment {
                Some(n) => {
                    walk_stmt_is_sound(*n, params, envs, walk_stmt(*body, params, envs, c2));
                },
                None => {},
            }
        },
        StmtView::Print { expr } => {
            walk_expr_is_sound(expr, params, envs, c);
        },
        StmtView::Block { statements } => {
            walk_stmts_is_sound(statements, 0, params, envs, c);
        },
        StmtView::VarDeclaration { identifier, expr } => {
            match expr {
                Some(x) => {
                    walk_expr_is_sound(x, params, envs, claim(identifier, c));
                },
                None => {},
            }
        },
        StmtView::Return { expr } => {
            match expr {
                Some(x) => {
                    walk_expr_is_sound(x, params, envs, c);
                },
                None => {},
            }
        },
    }
}

/// A walk over a list of statements keeps the captures sound.
pub proof fn walk_stmts_is_sound(
    list: Seq<StmtView>,
    from: nat,
    params: Seq<Seq<char>>,
    envs: EnvsView,
    c: Captures,
)
    requires
        sound_captures(c.captured, params, envs),
    ensures
        sound_captures(walk_stmts(list, from, params, envs, c).captured, params, envs),
    decreases list, list.len() - from,
{
    if from < list.len() {
        walk_stmt_is_sound(list[from as int], params, envs, c);
        walk_stmts_is_sound(
            list,
            from + 1,
            params,
            envs,
            walk_stmt(list[from as int], params, envs, c),
        );
    }
}

/// What a function captures is a mapping from names to live cells: each
/// captured name is a variable of the defining environment, captured with
/// the very cell it has there; no parameter is captured; no name is
/// captured twice; and every captured cell exists.
pub proof fn captures_are_live_bindings(body: StmtView, params: Seq<Seq<char>>, envs: EnvsView)
    requires
        envs.valid(),
    ensures
        sound_captures(captures_of(body, params, envs), params, envs),
        forall|i: int|
            0 <= i < captures_of(body, params, envs).len() ==> (#[trigger] captures_of(
                body,
                params,
                envs,
            )[i]).1 < envs.cells.len(),
{
    let start = Captures { captured: Seq::empty(), locals: Seq::empty() };
    walk_stmt_is_sound(body, params, envs, start);
    let captured = captures_of(body, params, envs);
    assert forall|i: int| 0 <= i < captured.len() implies (#[trigger] captured[i]).1
        < envs.cells.len() by {
        find_scope_binds(envs, envs.top, captured[i].0);
    }
}

} // verus!
