use vstd::prelude::*;
use crate::environment::{Cells, Environment, ScopeView};
use crate::error::EvalError;
use crate::value::{nil_value, ExpressionRes, ValueView};

verus! {

/// The mathematical value of the environments of a program: the cells,
/// every scope made so far, and the scope in which execution stands.
pub struct EnvsView {
    pub cells: Seq<ValueView>,
    pub scopes: Seq<ScopeView>,
    pub top: nat,
}

impl EnvsView {
    /// The invariant: the current scope exists, every scope lies inside one
    /// made before it, and every binding leads to a cell.
    pub open spec fn valid(self) -> bool {
        &&& self.top < self.scopes.len()
        &&& forall|i: int|
            0 <= i < self.scopes.len() ==> match (#[trigger] self.scopes[i]).enclosing {
                Some(p) => p < i,
                None => true,
            }
        &&& forall|i: int, n: Seq<char>|
            0 <= i < self.scopes.len() && (#[trigger] self.scopes[i].bindings.contains_key(n))
                ==> self.scopes[i].bindings[n] < self.cells.len()
    }

    /// The nearest scope, from `from` outwards, that binds `name`.
    pub open spec fn find_scope(self, from: nat, name: Seq<char>) -> Option<nat>
        decreases from,
    {
        if from >= self.scopes.len() {
            None
        } else if self.scopes[from as int].bindings.contains_key(name) {
            Some(from)
        } else {
            match self.scopes[from as int].enclosing {
                Some(p) => if p < from {
                    self.find_scope(p, name)
                } else {
                    None
                },
                None => None,
            }
        }
    }

    /// The nearest scope, from the current one outwards, that binds `name`.
    pub open spec fn scope_of(self, name: Seq<char>) -> Option<nat> {
        self.find_scope(self.top, name)
    }

    /// The cell that `name` denotes in the current scope.
    pub open spec fn lookup(self, name: Seq<char>) -> Option<nat> {
        match self.scope_of(name) {
            Some(s) => Some(self.scopes[s as int].bindings[name]),
            None => None,
        }
    }

    /// The value of the variable `name` in the current scope.
    pub open spec fn value_of(self, name: Seq<char>) -> Option<ValueView> {
        match self.lookup(name) {
            Some(c) => Some(self.cells[c as int]),
            None => None,
        }
    }

    /// The scope `scope` binds `name` to `cell`.
    pub open spec fn bind(self, scope: nat, name: Seq<char>, cell: nat) -> EnvsView {
        EnvsView {
            scopes: self.scopes.update(
                scope as int,
                ScopeView {
                    bindings: self.scopes[scope as int].bindings.insert(name, cell),
                    enclosing: self.scopes[scope as int].enclosing,
                },
            ),
            ..self
        }
    }

    /// A new cell holds `value`.
    pub open spec fn store(self, value: ValueView) -> EnvsView {
        EnvsView { cells: self.cells.push(value), ..self }
    }

    /// The current scope binds `name` to a new cell that holds `value`.
    pub open spec fn define(self, name: Seq<char>, value: ValueView) -> EnvsView {
        self.store(value).bind(self.top, name, self.cells.len())
    }

    /// The current scope binds `name` to the cell `cell`.
    pub open spec fn define_ref(self, name: Seq<char>, cell: nat) -> EnvsView {
        self.bind(self.top, name, cell)
    }

    /// The cell that `name` denotes holds `value`. Nothing changes where
    /// the name denotes nothing.
    pub open spec fn assign(self, name: Seq<char>, value: ValueView) -> EnvsView {
        match self.lookup(name) {
            Some(c) => EnvsView { cells: self.cells.update(c as int, value), ..self },
            None => self,
        }
    }

    /// The cell that `name` denotes holds nil.
    pub open spec fn remove(self, name: Seq<char>) -> EnvsView {
        self.assign(name, nil_value())
    }

    /// The nearest scope that binds `name` binds it to a new cell that
    /// holds `value`. Nothing changes where the name denotes nothing.
    pub open spec fn rebind(self, name: Seq<char>, value: ValueView) -> EnvsView {
        match self.scope_of(name) {
            Some(s) => self.store(value).bind(s, name, self.cells.len()),
            None => self,
        }
    }

    /// The nearest scope that binds `name` binds it to the cell `cell`.
    /// Nothing changes where the name denotes nothing.
    pub open spec fn rebind_ref(self, name: Seq<char>, cell: nat) -> EnvsView {
        match self.scope_of(name) {
            Some(s) => self.bind(s, name, cell),
            None => self,
        }
    }

    /// A new, empty scope inside the scope `parent` becomes the current one.
    pub open spec fn push_under(self, parent: nat) -> EnvsView {
        EnvsView {
            scopes: self.scopes.push(
                ScopeView { bindings: Map::empty(), enclosing: Some(parent) },
            ),
            top: self.scopes.len(),
            ..self
        }
    }

    /// A new, empty scope inside the current one becomes the current one.
    pub open spec fn push(self) -> EnvsView {
        self.push_under(self.top)
    }

    /// The scope `top` becomes the current one.
    pub open spec fn with_top(self, top: nat) -> EnvsView {
        EnvsView { top, ..self }
    }

    /// A new, empty scope with no scope around it; the current scope stays.
    pub open spec fn detached_scope(self) -> EnvsView {
        EnvsView {
            scopes: self.scopes.push(ScopeView { bindings: Map::empty(), enclosing: None }),
            ..self
        }
    }

    /// The scope `top` becomes the current one again, where it exists.
    pub open spec fn return_to(self, top: nat) -> EnvsView {
        if top < self.scopes.len() {
            self.with_top(top)
        } else {
            self
        }
    }

    /// The scope `scope` is left for the scope `back`: `back` becomes the
    /// current one again, where it exists, and `scope` is discarded if it is
    /// the last scope made, so that no scope and no function made inside it
    /// is left to hold it. The cells stay.
    pub open spec fn leave(self, scope: nat, back: nat) -> EnvsView {
        let returned = self.return_to(back);
        if scope + 1 == self.scopes.len() && back < scope {
            EnvsView { scopes: returned.scopes.drop_last(), ..returned }
        } else {
            returned
        }
    }

    /// The current scope is left for the scope around it. Nothing changes
    /// at the outermost scope.
    pub open spec fn pop(self) -> EnvsView {
        match self.scopes[self.top as int].enclosing {
            Some(p) => self.leave(self.top, p),
            None => self,
        }
    }
}

/// Environments stay valid when their cells change or grow in number and
/// their scopes stay as they are.
pub proof fn valid_over_cells(before: EnvsView, after: EnvsView)
    requires
        before.valid(),
        after.scopes == before.scopes,
        after.top == before.top,
        after.cells.len() >= before.cells.len(),
    ensures
        after.valid(),
{
    assert forall|i: int, n: Seq<char>|
        0 <= i < after.scopes.len() && (#[trigger] after.scopes[i].bindings.contains_key(
            n,
        )) implies after.scopes[i].bindings[n] < after.cells.len() by {
        assert(before.scopes[i].bindings.contains_key(n));
    }
}

/// The views of a sequence of scopes.
pub open spec fn scope_views(envs: Seq<Environment>) -> Seq<ScopeView> {
    envs.map_values(|e: Environment| e@)
}

/// The environments of a running program: a chain of scopes from the
/// current one outwards, over cells that scopes and functions share.
pub struct ProgramEnvs {
    cells: Cells,
    envs: Vec<Environment>,
    top: usize,
}

impl View for ProgramEnvs {
    type V = EnvsView;

    closed spec fn view(&self) -> EnvsView {
        EnvsView { cells: self.cells@, scopes: scope_views(self.envs@), top: self.top as nat }
    }
}

impl ProgramEnvs {
    /// The invariant of the environments.
    pub closed spec fn wf(&self) -> bool {
        &&& self@.valid()
        &&& forall|i: int| 0 <= i < self.envs.len() ==> (#[trigger] self.envs[i]).wf()
    }

    /// Well-formed environments have a valid view.
    pub proof fn wf_valid(&self)
        requires
            self.wf(),
        ensures
            self@.valid(),
    {
    }

    /// One empty scope.
    pub fn new() -> (p: ProgramEnvs)
        ensures
            p.wf(),
            p@.cells == Seq::<ValueView>::empty(),
            p@.scopes == seq![ScopeView { bindings: Map::empty(), enclosing: None }],
            p@.top == 0,
    {
        Self::new_with_env(Environment::new(), Cells::new())
    }

    /// The environments whose one scope is `env`, with its bindings and
    /// with no scope around it, over the cells `cells`, in which the
    /// variables of `env` have their values: each binding of `env` is to
    /// lead to one of these cells.
    pub fn new_with_env(env: Environment, cells: Cells) -> (p: ProgramEnvs)
        requires
            env.wf(),
            env.fits(cells@.len()),
        ensures
            p.wf(),
            p@.cells == cells@,
            p@.scopes == seq![ScopeView { bindings: env@.bindings, enclosing: None }],
            p@.top == 0,
    {
        let root = env.detached();
        let mut envs: Vec<Environment> = Vec::new();
        envs.push(root);
        let p = ProgramEnvs { cells, envs, top: 0 };
        proof {
            assert(p@.scopes =~= seq![ScopeView { bindings: env@.bindings, enclosing: None }]);
            assert forall|i: int, n: Seq<char>|
                0 <= i < p@.scopes.len() && (#[trigger] p@.scopes[i].bindings.contains_key(
                    n,
                )) implies p@.scopes[i].bindings[n] < p@.cells.len() by {
                assert(env@.bindings.contains_key(n));
            }
        }
        p
    }

    /// The number of the current scope.
    pub fn get_top(&self) -> (top: usize)
        ensures
            top == self@.top,
    {
        self.top
    }

    /// The number of scopes made so far.
    pub fn scope_count(&self) -> (n: usize)
        ensures
            n == self@.scopes.len(),
    {
        self.envs.len()
    }

    /// The number of cells made so far.
    pub fn cell_count(&self) -> (n: usize)
        ensures
            n == self@.cells.len(),
    {
        self.cells.len()
    }

    /// Enters a new scope inside the current one.
    pub fn push(&mut self)
        requires
            old(self).wf(),
        ensures
            final(self).wf(),
            final(self)@ == old(self)@.push(),
    {
        let top = self.top;
        let done = self.push_under(top);
    }

    /// Enters a new scope inside the scope `parent`. Without such a scope
    /// nothing changes and the answer is `false`.
    pub fn push_under(&mut self, parent: usize) -> (done: bool)
        requires
            old(self).wf(),
        ensures
            final(self).wf(),
            done == (parent < old(self)@.scopes.len()),
            final(self)@ == if done {
                old(self)@.push_under(parent as nat)
            } else {
                old(self)@
            },
    {
        if parent >= self.envs.len() {
            return false;
        }
        let env = Environment::new_with_enclosing(parent);
        self.top = self.envs.len();
        self.envs.push(env);
        proof {
            assert(self@.scopes =~= old(self)@.scopes.push(
                ScopeView { bindings: Map::empty(), enclosing: Some(parent as nat) },
            ));
            assert forall|i: int| 0 <= i < self.envs.len() implies (#[trigger] self.envs[i]).wf() by {
                if i < old(self).envs.len() {
                    assert(self.envs[i] == old(self).envs[i]);
                }
            }
            assert forall|i: int, n: Seq<char>|
                0 <= i < self@.scopes.len() && (#[trigger] self@.scopes[i].bindings.contains_key(
                    n,
                )) implies self@.scopes[i].bindings[n] < self@.cells.len() by {
                if i < old(self)@.scopes.len() {
                    assert(self@.scopes[i] == old(self)@.scopes[i]);
                    assert(old(self)@.scopes[i].bindings.contains_key(n));
                }
            }
            assert forall|i: int| 0 <= i < self@.scopes.len() implies match (
            #[trigger] self@.scopes[i]).enclosing {
                Some(p) => p < i,
                None => true,
            } by {
                if i < old(self)@.scopes.len() {
                    assert(self@.scopes[i] == old(self)@.scopes[i]);
                }
            }
        }
        true
    }

    /// Makes a new, empty scope with no scope around it and returns its
    /// number; the current scope stays.
    pub fn fresh_scope(&mut self) -> (scope: usize)
        requires
            old(self).wf(),
        ensures
            final(self).wf(),
            scope == old(self)@.scopes.len(),
            final(self)@ == old(self)@.detached_scope(),
    {
        let scope = self.envs.len();
        self.envs.push(Environment::new());
        proof {
            assert(self@.scopes =~= old(self)@.scopes.push(
                ScopeView { bindings: Map::empty(), enclosing: None },
            ));
            assert forall|i: int| 0 <= i < self.envs.len() implies (#[trigger] self.envs[i]).wf() by {
                if i < old(self).envs.len() {
                    assert(self.envs[i] == old(self).envs[i]);
                }
            }
            assert forall|i: int, n: Seq<char>|
                0 <= i < self@.scopes.len() && (#[trigger] self@.scopes[i].bindings.contains_key(
                    n,
                )) implies self@.scopes[i].bindings[n] < self@.cells.len() by {
                if i < old(self)@.scopes.len() {
                    assert(self@.scopes[i] == old(self)@.scopes[i]);
                    assert(old(self)@.scopes[i].bindings.contains_key(n));
                }
            }
            assert forall|i: int| 0 <= i < self@.scopes.len() implies match (
            #[trigger] self@.scopes[i]).enclosing {
                Some(p) => p < i,
                None => true,
            } by {
                if i < old(self)@.scopes.len() {
                    assert(self@.scopes[i] == old(self)@.scopes[i]);
                }
            }
        }
        scope
    }

    /// Makes the scope `top` the current one. Without such a scope nothing
    /// changes and the answer is `false`.
    pub fn set_top(&mut self, top: usize) -> (done: bool)
        requires
            old(self).wf(),
        ensures
            final(self).wf(),
            done == (top < old(self)@.scopes.len()),
            final(self)@ == old(self)@.return_to(top as nat),
    {
        if top >= self.envs.len() {
            return false;
        }
        self.top = top;
        true
    }

    /// Leaves the scope `scope` for the scope `back`.
    pub fn leave(&mut self, scope: usize, back: usize)
        requires
            old(self).wf(),
        ensures
            final(self).wf(),
            final(self)@ == old(self)@.leave(scope as nat, back as nat),
    {
        let returned = self.set_top(back);
        if scope < self.envs.len() && scope + 1 == self.envs.len() && back < scope {
            let ghost before = self@;
            let ghost prior = self.envs@;
            let last = self.envs.pop();
            proof {
                assert(self.envs@ =~= prior.drop_last());
                assert(self@.scopes =~= before.scopes.drop_last());
                assert forall|i: int| 0 <= i < self.envs.len() implies (#[trigger] self.envs[i]).wf() by {
                    assert(self.envs[i] == prior[i]);
                }
                assert forall|i: int, n: Seq<char>|
                    0 <= i < self@.scopes.len() && (#[trigger] self@.scopes[i].bindings.contains_key(
                        n,
                    )) implies self@.scopes[i].bindings[n] < self@.cells.len() by {
                    assert(self@.scopes[i] == before.scopes[i]);
                    assert(before.scopes[i].bindings.contains_key(n));
                }
                assert forall|i: int| 0 <= i < self@.scopes.len() implies match (
                #[trigger] self@.scopes[i]).enclosing {
                    Some(p) => p < i,
                    None => true,
                } by {
                    assert(self@.scopes[i] == before.scopes[i]);
                }
            }
        }
    }

    /// Leaves the current scope for the one around it, and returns that
    /// one. At the outermost scope nothing changes and the answer is `None`.
    pub fn pop(&mut self) -> (top: Option<usize>)
        requires
            old(self).wf(),
        ensures
            final(self).wf(),
            final(self)@ == old(self)@.pop(),
            match top {
                Some(t) => old(self)@.scopes[old(self)@.top as int].enclosing == Some(t as nat),
                None => old(self)@.scopes[old(self)@.top as int].enclosing is None,
            },
    {
        match self.envs[self.top].enclosing() {
            Some(p) => {
                let top = self.top;
                self.leave(top, p);
                Some(p)
            },
            None => None,
        }
    }

    /// Binds `name`, in the current scope, to a new cell that holds `value`.
    pub fn define_at_top(&mut self, name: String, value: ExpressionRes)
        requires
            old(self).wf(),
        ensures
            final(self).wf(),
            final(self)@ == old(self)@.define(name@, value@),
    {
        let cell = self.cells.insert(value);
        let top = self.top;
        proof {
            valid_over_cells(old(self)@, self@);
        }
        self.bind_in(top, name, cell);
    }

    /// Binds `name`, in the current scope, to the cell `cell`. Without such
    /// a cell nothing changes and the answer is `false`.
    pub fn define_ref_at_top(&mut self, name: String, cell: usize) -> (done: bool)
        requires
            old(self).wf(),
        ensures
            final(self).wf(),
            done == (cell < old(self)@.cells.len()),
            final(self)@ == if done {
                old(self)@.define_ref(name@, cell as nat)
            } else {
                old(self)@
            },
    {
        if cell >= self.cells.len() {
            return false;
        }
        let top = self.top;
        self.bind_in(top, name, cell);
        true
    }

    /// Binds `name` to `cell` in the scope `scope`.
    fn bind_in(&mut self, scope: usize, name: String, cell: usize)
        requires
            old(self).wf(),
            scope < old(self).envs.len(),
            cell < old(self).cells@.len(),
        ensures
            final(self).wf(),
            final(self)@ == old(self)@.bind(scope as nat, name@, cell as nat),
    {
        let ghost before = self@;
        let mut env = Environment::new();
        std::mem::swap(&mut env, &mut self.envs[scope]);
        env.define_ref(name, cell);
        std::mem::swap(&mut env, &mut self.envs[scope]);
        proof {
            assert(self@.scopes =~= before.bind(scope as nat, name@, cell as nat).scopes);
            assert(self@ == before.bind(scope as nat, name@, cell as nat));
            assert forall|i: int| 0 <= i < self.envs.len() implies (#[trigger] self.envs[i]).wf() by {
                if i != scope {
                    assert(self.envs[i] == old(self).envs[i]);
                }
            }
            assert forall|i: int, n: Seq<char>|
                0 <= i < self@.scopes.len() && (#[trigger] self@.scopes[i].bindings.contains_key(
                    n,
                )) implies self@.scopes[i].bindings[n] < self@.cells.len() by {
                if i != scope || n != name@ {
                    assert(before.scopes[i].bindings.contains_key(n));
                }
            }
            assert forall|i: int| 0 <= i < self@.scopes.len() implies match (
            #[trigger] self@.scopes[i]).enclosing {
                Some(p) => p < i,
                None => true,
            } by {
                assert(self@.scopes[i].enclosing == before.scopes[i].enclosing);
            }
        }
    }

    /// The nearest scope, from the current one outwards, that binds `name`.
    pub fn get_env(&self, name: &String) -> (scope: Option<usize>)
        requires
            self.wf(),
        ensures
            match scope {
                Some(s) => self@.scope_of(name@) == Some(s as nat) && s < self@.scopes.len()
                    && self@.scopes[s as int].bindings.contains_key(name@),
                None => self@.scope_of(name@) is None,
            },
    {
        let mut current = self.top;
        loop
            invariant
                self.wf(),
                current < self.envs.len(),
                self@.scope_of(name@) == self@.find_scope(current as nat, name@),
            decreases current,
        {
            match self.envs[current].get_variable(name.clone()) {
                Some(_) => {
                    return Some(current);
                },
                None => {},
            }
            match self.envs[current].enclosing() {
                Some(p) => {
                    current = p;
                },
                None => {
                    return None;
                },
            }
        }
    }

    /// The cell that `name` denotes, or `UndefinedVariable` where no scope
    /// of the chain binds it.
    pub fn lookup_var(&self, name: String) -> (cell: Result<usize, EvalError>)
        requires
            self.wf(),
        ensures
            match cell {
                Ok(c) => self@.lookup(name@) == Some(c as nat) && c < self@.cells.len(),
                Err(e) => self@.lookup(name@) is None && e == EvalError::UndefinedVariable,
            },
    {
        match self.get_env(&name) {
            None => Err(EvalError::UndefinedVariable),
            Some(scope) => match self.envs[scope].get_variable(name) {
                Some(cell) => {
                    assert(self@.scopes[scope as int].bindings.contains_key(name@));
                    Ok(cell)
                },
                None => Err(EvalError::UndefinedVariable),
            },
        }
    }

    /// The value in the cell `cell`, if there is such a cell.
    pub fn read(&self, cell: usize) -> (value: Option<&ExpressionRes>)
        ensures
            match value {
                Some(v) => cell < self@.cells.len() && v@ == self@.cells[cell as int],
                None => cell >= self@.cells.len(),
            },
    {
        self.cells.get(cell)
    }

    /// A copy of the value of the variable `name`, or `UndefinedVariable`.
    pub fn value_of(&self, name: String) -> (value: Result<ExpressionRes, EvalError>)
        requires
            self.wf(),
        ensures
            match value {
                Ok(v) => self@.value_of(name@) == Some(v@),
                Err(e) => self@.value_of(name@) is None && e == EvalError::UndefinedVariable,
            },
    {
        match self.lookup_var(name) {
            Err(e) => Err(e),
            Ok(cell) => match self.cells.get(cell) {
                Some(v) => Ok(v.clone()),
                None => Err(EvalError::UndefinedVariable),
            },
        }
    }

    /// Binds `name`, in the nearest scope that binds it, to a new cell that
    /// holds `value`; `UndefinedVariable` where no scope binds it.
    pub fn assign_value_to_var(&mut self, name: String, value: ExpressionRes) -> (res: Result<
        (),
        EvalError,
    >)
        requires
            old(self).wf(),
        ensures
            final(self).wf(),
            final(self)@ == old(self)@.rebind(name@, value@),
            match res {
                Ok(_) => old(self)@.scope_of(name@) is Some,
                Err(e) => old(self)@.scope_of(name@) is None && e == EvalError::UndefinedVariable,
            },
    {
        match self.get_env(&name) {
            None => Err(EvalError::UndefinedVariable),
            Some(scope) => {
                let cell = self.cells.insert(value);
                proof {
                    valid_over_cells(old(self)@, self@);
                }
                self.bind_in(scope, name, cell);
                Ok(())
            },
        }
    }

    /// Binds `name`, in the nearest scope that binds it, to the cell
    /// `cell`; `UndefinedVariable` where no scope binds it or there is no
    /// such cell, and then nothing changes.
    pub fn assign_ref_to_var(&mut self, name: String, cell: usize) -> (res: Result<(), EvalError>)
        requires
            old(self).wf(),
        ensures
            final(self).wf(),
            match res {
                Ok(_) => cell < old(self)@.cells.len() && old(self)@.scope_of(name@) is Some
                    && final(self)@ == old(self)@.rebind_ref(name@, cell as nat),
                Err(e) => (cell >= old(self)@.cells.len() || old(self)@.scope_of(name@) is None)
                    && final(self)@ == old(self)@ && e == EvalError::UndefinedVariable,
            },
    {
        if cell >= self.cells.len() {
            return Err(EvalError::UndefinedVariable);
        }
        match self.get_env(&name) {
            None => Err(EvalError::UndefinedVariable),
            Some(scope) => {
                self.bind_in(scope, name, cell);
                Ok(())
            },
        }
    }

    /// Puts `value` into the cell that `name` denotes, where every holder
    /// of the cell sees it; `UndefinedVariable` where no scope binds the
    /// name, and then nothing changes.
    pub fn assign_to_existing(&mut self, name: String, value: ExpressionRes) -> (res: Result<
        (),
        EvalError,
    >)
        requires
            old(self).wf(),
        ensures
            final(self).wf(),
            final(self)@ == old(self)@.assign(name@, value@),
            match res {
                Ok(_) => old(self)@.lookup(name@) is Some,
                Err(e) => old(self)@.lookup(name@) is None && e == EvalError::UndefinedVariable,
            },
    {
        match self.lookup_var(name) {
            Err(e) => Err(e),
            Ok(cell) => {
                let done = self.cells.set(cell, value);
                proof {
                    valid_over_cells(old(self)@, self@);
                }
                Ok(())
            },
        }
    }

    /// Puts nil into the cell that `name` denotes, where every holder of
    /// the cell sees it; `UndefinedVariable` where no scope binds the name.
    pub fn remove_var(&mut self, name: String) -> (res: Result<(), EvalError>)
        requires
            old(self).wf(),
        ensures
            final(self).wf(),
            final(self)@ == old(self)@.remove(name@),
            match res {
                Ok(_) => old(self)@.lookup(name@) is Some,
                Err(e) => old(self)@.lookup(name@) is None && e == EvalError::UndefinedVariable,
            },
    {
        self.assign_to_existing(name, ExpressionRes::from_none())
    }
}

} // verus!
