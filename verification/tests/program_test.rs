use treewalk::environment::{Cells, Environment};
use treewalk::error::EvalError;
use treewalk::interpreter::StatementInterpreter;
use treewalk::log::Log;
use treewalk::program::ProgramEnvs;
use treewalk::value::{ExprResType, ExpressionRes};

#[test]
fn assign_get() {
    let mut envs = ProgramEnvs::new();
    envs.define_at_top(String::from("x"),
                       ExpressionRes::from_str(String::from("Value")));

    let rc = envs.lookup_var(String::from("x"));
    let rc2 = envs.lookup_var(String::from("x"));
    println!("{:?}, {rc2:?}", rc);
}

#[test]
fn push_scoped() {
    let mut envs = ProgramEnvs::new();
    envs.define_at_top(
        String::from("x"),
        ExpressionRes::from_str(String::from("Value")));
    envs.push();
    envs.define_at_top(
        String::from("x"),
        ExpressionRes::from_str(String::from("scoped")));

    let rc = envs.lookup_var(String::from("x")).unwrap();
    assert_eq!("scoped", envs.read(rc).unwrap().str);
    envs.pop();
    let rc2 = envs.lookup_var(String::from("x")).unwrap();
    assert_eq!("Value", envs.read(rc2).unwrap().str);
}

#[test]
fn remove() {
    let mut envs = ProgramEnvs::new();
    envs.define_at_top(
        String::from("x"),
        ExpressionRes::from_str(String::from("Value")));
    envs.push();
    envs.define_at_top(
        String::from("x"),
        ExpressionRes::from_str(String::from("scoped")));

    let rc = envs.lookup_var(String::from("x")).unwrap();
    assert_eq!("scoped", envs.read(rc).unwrap().str);
    envs.remove_var("x".to_string()).unwrap();
    let _rc1 = envs.lookup_var(String::from("x"));
    let rc2 = envs.lookup_var(String::from("x")).unwrap();
    assert_eq!("nil", envs.read(rc2).unwrap().str);
}

#[test]
fn test_lookup() {
    let res = ExpressionRes::from_str(String::from("test"));
    let mut interpreter = StatementInterpreter::new_default();
    interpreter.insert_variable(String::from("test"), res);
    let rc = interpreter.lookup_variable(String::from("test")).unwrap();
    assert_eq!(interpreter.expression_visitor.envs.read(rc).unwrap().str, "test");
}

#[test]
fn test_null() {
    let res = ExpressionRes::from_str(String::from("test"));
    let mut interpreter = StatementInterpreter::new_default();
    interpreter.insert_variable(String::from("test"), res);
    let rc = interpreter.lookup_variable(String::from("test")).unwrap();
    assert_eq!(interpreter.expression_visitor.envs.read(rc).unwrap().str, "test");
}

fn number(n: isize) -> ExpressionRes {
    ExpressionRes::from_number(n)
}

fn number_in(envs: &ProgramEnvs, name: &str) -> isize {
    envs.value_of(name.to_string()).unwrap().number
}

#[test]
fn inner_scope_shadows_and_outer_comes_back() {
    let mut envs = ProgramEnvs::new();
    envs.define_at_top("x".to_string(), number(1));
    envs.push();
    envs.define_at_top("x".to_string(), number(2));
    assert_eq!(number_in(&envs, "x"), 2);
    assert!(envs.pop().is_some());
    assert_eq!(number_in(&envs, "x"), 1);
}

#[test]
fn a_name_defined_nowhere_is_undefined() {
    let mut envs = ProgramEnvs::new();
    envs.define_at_top("x".to_string(), number(1));
    envs.push();
    assert_eq!(envs.lookup_var("y".to_string()), Err(EvalError::UndefinedVariable));
    assert!(envs.value_of("y".to_string()).is_err());
    assert_eq!(
        envs.assign_to_existing("y".to_string(), number(1)),
        Err(EvalError::UndefinedVariable)
    );
    assert_eq!(envs.remove_var("y".to_string()), Err(EvalError::UndefinedVariable));
    assert_eq!(
        envs.assign_value_to_var("y".to_string(), number(1)),
        Err(EvalError::UndefinedVariable)
    );
    assert_eq!(envs.assign_ref_to_var("y".to_string(), 0), Err(EvalError::UndefinedVariable));
    assert_eq!(envs.get_env(&"y".to_string()), None);
    assert_eq!(envs.lookup_var("x".to_string()), Ok(0));
}

#[test]
fn a_name_of_an_inner_scope_is_gone_after_it() {
    let mut envs = ProgramEnvs::new();
    envs.push();
    envs.define_at_top("inner".to_string(), number(1));
    envs.pop();
    assert_eq!(envs.lookup_var("inner".to_string()), Err(EvalError::UndefinedVariable));
}

#[test]
fn assignment_changes_the_nearest_binding_and_makes_none() {
    let mut envs = ProgramEnvs::new();
    envs.define_at_top("x".to_string(), number(1));
    envs.push();
    envs.assign_to_existing("x".to_string(), number(5)).unwrap();
    assert_eq!(envs.get_env(&"x".to_string()), Some(0));
    envs.pop();
    assert_eq!(number_in(&envs, "x"), 5);
    assert_eq!(envs.cell_count(), 1);
}

#[test]
fn a_shared_cell_shows_a_change_to_every_holder() {
    let mut envs = ProgramEnvs::new();
    envs.define_at_top("x".to_string(), number(1));
    let cell = envs.lookup_var("x".to_string()).unwrap();
    envs.push();
    assert!(envs.define_ref_at_top("y".to_string(), cell));
    envs.assign_to_existing("y".to_string(), number(9)).unwrap();
    assert_eq!(number_in(&envs, "x"), 9);
    envs.remove_var("x".to_string()).unwrap();
    assert_eq!(envs.value_of("y".to_string()).unwrap().type_, ExprResType::Nil);
    assert_eq!(envs.value_of("x".to_string()).unwrap().print(), "nil");
}

#[test]
fn rebinding_leaves_the_old_cell_alone() {
    let mut envs = ProgramEnvs::new();
    envs.define_at_top("x".to_string(), number(1));
    let old = envs.lookup_var("x".to_string()).unwrap();
    envs.push();
    envs.assign_value_to_var("x".to_string(), number(2)).unwrap();
    assert_eq!(number_in(&envs, "x"), 2);
    assert_eq!(envs.read(old).unwrap().number, 1);
    envs.pop();
    assert_eq!(number_in(&envs, "x"), 2);
    envs.assign_ref_to_var("x".to_string(), old).unwrap();
    assert_eq!(number_in(&envs, "x"), 1);
}

#[test]
fn a_cell_that_does_not_exist_is_not_bound() {
    let mut envs = ProgramEnvs::new();
    assert!(!envs.define_ref_at_top("x".to_string(), 3));
    assert_eq!(envs.lookup_var("x".to_string()), Err(EvalError::UndefinedVariable));
    assert!(envs.read(0).is_none());
}

#[test]
fn pop_at_the_outermost_scope_changes_nothing() {
    let mut envs = ProgramEnvs::new();
    assert_eq!(envs.pop(), None);
    assert_eq!(envs.get_top(), 0);
    envs.push();
    assert_eq!(envs.get_top(), 1);
    assert_eq!(envs.pop(), Some(0));
    assert_eq!(envs.scope_count(), 1);
    assert!(!envs.set_top(5));
    assert!(!envs.push_under(5));
    assert!(envs.push_under(0));
    assert_eq!(envs.get_top(), 1);
    assert_eq!(envs.fresh_scope(), 2);
    assert_eq!(envs.get_top(), 1);
    assert_eq!(envs.pop(), Some(0));
    assert_eq!(envs.scope_count(), 3);
    envs.leave(2, 0);
    assert_eq!(envs.scope_count(), 2);
    envs.leave(0, 1);
    assert_eq!(envs.scope_count(), 2);
    assert_eq!(envs.get_top(), 1);
}

#[test]
fn a_scope_alone_binds_and_overwrites() {
    let mut cells = Cells::new();
    let mut scope = Environment::new();
    assert_eq!(scope.get_variable("x".to_string()), None);
    scope.define_variable("x".to_string(), number(1), &mut cells);
    scope.define_variable("y".to_string(), number(2), &mut cells);
    scope.define_variable("x".to_string(), number(3), &mut cells);
    assert_eq!(scope.get_variable("x".to_string()), Some(2));
    assert_eq!(scope.get_variable("y".to_string()), Some(1));
    assert_eq!(cells.len(), 3);
    assert!(scope.redefine_variable("y".to_string(), number(7), &mut cells));
    assert_eq!(cells.get(1).unwrap().number, 7);
    assert!(!scope.redefine_variable("z".to_string(), number(7), &mut cells));
    scope.define_ref("z".to_string(), 1);
    assert!(scope.remove_var("z".to_string(), &mut cells));
    assert_eq!(cells.get(1).unwrap().type_, ExprResType::Nil);
    assert!(!scope.remove_var("w".to_string(), &mut cells));
    assert!(!cells.set(9, number(0)));
    assert!(cells.get(9).is_none());
    assert_eq!(scope.enclosing(), None);
    assert_eq!(Environment::new_with_enclosing(4).enclosing(), Some(4));
    assert_eq!(Environment::new_with_enclosing(4).detached().enclosing(), None);
}

#[test]
fn environments_over_a_scope_keep_its_variables() {
    let mut cells = Cells::new();
    let mut scope = Environment::new_with_enclosing(7);
    scope.define_variable("x".to_string(), number(1), &mut cells);
    scope.define_variable("y".to_string(), number(2), &mut cells);
    let mut envs = ProgramEnvs::new_with_env(scope, cells);
    assert_eq!(envs.get_top(), 0);
    assert_eq!(envs.scope_count(), 1);
    assert_eq!(envs.cell_count(), 2);
    assert_eq!(number_in(&envs, "x"), 1);
    assert_eq!(number_in(&envs, "y"), 2);
    assert_eq!(envs.lookup_var("z".to_string()), Err(EvalError::UndefinedVariable));
    assert_eq!(envs.pop(), None);
    envs.assign_to_existing("x".to_string(), number(5)).unwrap();
    assert_eq!(number_in(&envs, "x"), 5);

    let empty = ProgramEnvs::new_with_env(Environment::new(), Cells::new());
    assert_eq!(empty.cell_count(), 0);
    assert_eq!(empty.lookup_var("x".to_string()), Err(EvalError::UndefinedVariable));
}

#[test]
fn a_report_line_names_the_line() {
    assert_eq!(
        Log::error(12, "Missing closing \" in a string"),
        "[ Line 12 ] error : Missing closing \" in a string"
    );
    assert_eq!(Log::error(0, "x"), "[ Line 0 ] error : x");
}
