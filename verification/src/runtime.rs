use std::rc::Rc;
use vstd::prelude::*;
use crate::error::EvalError;
use crate::interpreter::{ExpressionInterpreter, StatementRes};
use crate::program::ProgramEnvs;
use crate::semantics::{apply, run};
use crate::statement::{clone_statement, Statement, StmtView};
use crate::value::{value_views, ExpressionRes};

verus! {

/// A function of the language: its name, its parameters, its body and the
/// environment that holds what it captured.
#[derive(Debug)]
pub struct Method {
    pub name: String,
    pub args: Vec<ExpressionRes>,
    pub body: Statement,
    pub captured_env: usize,
}

/// The mathematical value of a function.
pub struct MethodView {
    pub name: Seq<char>,
    pub params: Seq<Seq<char>>,
    pub body: StmtView,
    pub captured_env: nat,
}

/// The names that a sequence of parameters carries.
pub open spec fn param_names(args: Seq<ExpressionRes>) -> Seq<Seq<char>> {
    Seq::new(args.len(), |i: int| args[i].str@)
}

impl View for Method {
    type V = MethodView;

    open spec fn view(&self) -> MethodView {
        MethodView {
            name: self.name@,
            params: param_names(self.args@),
            body: self.body@,
            captured_env: self.captured_env as nat,
        }
    }
}

impl Method {
    /// A function whose captured environment is `captured`.
    pub fn new(name: String, args: Vec<ExpressionRes>, body: Statement, captured: usize) -> (m:
        Method)
        ensures
            m.name == name,
            m.args == args,
            m.body == body,
            m.captured_env == captured,
    {
        Method { name, args, body, captured_env: captured }
    }

    /// The same function over the captured environment `env`.
    pub fn prepare_for_call(&self, env: usize) -> (m: Method)
        ensures
            m@ == (MethodView { captured_env: env as nat, ..self@ }),
    {
        let mut args: Vec<ExpressionRes> = Vec::new();
        let mut i: usize = 0;
        while i < self.args.len()
            invariant
                i <= self.args.len(),
                args@.len() == i,
                forall|j: int| 0 <= j < i ==> (#[trigger] args@[j]).str@ == self.args@[j].str@,
            decreases self.args.len() - i,
        {
            args.push(self.args[i].clone());
            i += 1;
        }
        assert(param_names(args@) =~= param_names(self.args@));
        Method {
            name: self.name.clone(),
            args,
            body: clone_statement(&self.body),
            captured_env: env,
        }
    }

    /// Runs the body of the function in the current scope of `machine`,
    /// within the machine's budget.
    pub fn call(&self, machine: &mut ExpressionInterpreter) -> (r: Result<StatementRes, EvalError>)
        requires
            old(machine).wf(),
        ensures
            final(machine).budget() == old(machine).budget(),
            ExpressionInterpreter::executed(
                *final(machine),
                r,
                run(self@.body, old(machine)@, old(machine).budget()),
            ),
    {
        let fuel = machine.limit();
        machine.execute(&self.body, fuel)
    }
}

/// A class: its name, the parameters of its constructor and its methods.
#[derive(Debug)]
pub struct Class {
    pub name: String,
    pub args: Vec<ExpressionRes>,
    pub methods: Vec<Rc<Method>>,
}

/// The views of a sequence of methods.
pub open spec fn method_views(methods: Seq<Rc<Method>>) -> Seq<MethodView> {
    Seq::new(methods.len(), |i: int| methods[i]@)
}

/// The first of `methods` that is named `name`, from the index `from` on.
pub open spec fn find_method(methods: Seq<MethodView>, name: Seq<char>, from: nat) -> Option<
    MethodView,
>
    decreases methods.len() - from,
{
    if from >= methods.len() {
        None
    } else if methods[from as int].name == name {
        Some(methods[from as int])
    } else {
        find_method(methods, name, from + 1)
    }
}

impl Class {
    /// A class without parameters or methods.
    pub fn new(name: String) -> (c: Class)
        ensures
            c.name == name,
            c.args@ == Seq::<ExpressionRes>::empty(),
            c.methods@ == Seq::<Rc<Method>>::empty(),
    {
        Class { name, args: Vec::new(), methods: Vec::new() }
    }

    /// A class with the given parameters and methods.
    pub fn new_class(name: String, args: Vec<ExpressionRes>, methods: Vec<Rc<Method>>) -> (c: Class)
        ensures
            c.name == name,
            c.args == args,
            c.methods == methods,
    {
        Class { name, args, methods }
    }

    /// Adds a method whose captured environment is a new, empty scope of
    /// `envs` with no scope around it.
    pub fn add_method(
        &mut self,
        name: String,
        args: Vec<ExpressionRes>,
        body: Statement,
        envs: &mut ProgramEnvs,
    )
        requires
            old(envs).wf(),
        ensures
            final(envs).wf(),
            final(envs)@ == old(envs)@.detached_scope(),
            final(self).name == old(self).name,
            final(self).args == old(self).args,
            method_views(final(self).methods@) == method_views(old(self).methods@).push(
                MethodView {
                    name: name@,
                    params: param_names(args@),
                    body: body@,
                    captured_env: old(envs)@.scopes.len(),
                },
            ),
    {
        let scope = envs.fresh_scope();
        let method = Method::new(name, args, body, scope);
        self.methods.push(Rc::new(method));
        assert(method_views(self.methods@) =~= method_views(old(self).methods@).push(method@));
    }

    /// An instance of `class` whose fields live in the scope `env`.
    pub fn call(&self, env: usize, class: Rc<Class>) -> (r: Result<Instance, EvalError>)
        ensures
            r matches Ok(i) && i.class == class && i.env == env,
    {
        Ok(Instance { class, env })
    }
}

/// An instance of a class: the class, and the scope that holds its fields.
#[derive(Debug)]
pub struct Instance {
    pub class: Rc<Class>,
    pub env: usize,
}

impl Instance {
    /// An instance of `class` whose fields live in a new, empty scope of
    /// `envs` inside the current one, which stays current.
    pub fn new(class: Rc<Class>, envs: &mut ProgramEnvs) -> (i: Instance)
        requires
            old(envs).wf(),
        ensures
            final(envs).wf(),
            final(envs)@ == old(envs)@.push().return_to(old(envs)@.top),
            i.class == class,
            i.env == old(envs)@.scopes.len(),
    {
        let outer = envs.get_top();
        let env = envs.scope_count();
        envs.push();
        let back = envs.set_top(outer);
        Instance { class, env }
    }

    /// The first method of the class that is named `method`.
    pub fn get_function_def(&self, method: &String) -> (m: Option<Rc<Method>>)
        ensures
            match m {
                Some(f) => Some(f@),
                None => None,
            } == find_method(method_views(self.class.methods@), method@, 0),
    {
        let ghost views = method_views(self.class.methods@);
        let mut i: usize = 0;
        while i < self.class.methods.len()
            invariant
                i <= self.class.methods.len(),
                views == method_views(self.class.methods@),
                find_method(views, method@, 0) == find_method(views, method@, i as nat),
            decreases self.class.methods.len() - i,
        {
            if self.class.methods[i].name == *method {
                return Some(crate::value::share_method(&self.class.methods[i]));
            }
            i += 1;
        }
        None
    }

    /// Enters a new scope of `envs` inside the scope of the fields.
    /// Without that scope nothing changes and the answer is `false`.
    pub fn get_child_env(&self, envs: &mut ProgramEnvs) -> (done: bool)
        requires
            old(envs).wf(),
        ensures
            final(envs).wf(),
            done == (self.env < old(envs)@.scopes.len()),
            final(envs)@ == if done {
                old(envs)@.push_under(self.env as nat)
            } else {
                old(envs)@
            },
    {
        envs.push_under(self.env)
    }

    /// Calls the method named `method` with the values `arguments`: its
    /// body runs in a new scope inside the scope of the fields. A class
    /// without such a method gives `UndefinedVariable`.
    pub fn call(
        &self,
        method: String,
        arguments: Vec<ExpressionRes>,
        machine: &mut ExpressionInterpreter,
    ) -> (r: Result<ExpressionRes, EvalError>)
        requires
            old(machine).wf(),
        ensures
            final(machine).budget() == old(machine).budget(),
            match find_method(method_views(self.class.methods@), method@, 0) {
                Some(f) => ExpressionInterpreter::evaluated(
                    *final(machine),
                    r,
                    apply(
                        MethodView { captured_env: self.env as nat, ..f },
                        value_views(arguments@),
                        old(machine)@,
                        old(machine).budget(),
                    ),
                ),
                None => r == Err::<ExpressionRes, EvalError>(EvalError::UndefinedVariable)
                    && final(machine)@ == old(machine)@ && final(machine).wf(),
            },
    {
        match self.get_function_def(&method) {
            None => Err(EvalError::UndefinedVariable),
            Some(f) => {
                let bound = f.prepare_for_call(self.env);
                let fuel = machine.limit();
                machine.call_function(&bound, arguments, fuel)
            },
        }
    }
}

} // verus!
