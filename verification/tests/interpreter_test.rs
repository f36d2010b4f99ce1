use std::rc::Rc;
use treewalk::error::EvalError;
use treewalk::expression::Expression;
use treewalk::interpreter::{
    ExpressionInterpreter, StatementInterpreter, StatementRes, StmtVisitor, DEFAULT_LIMIT,
    DEFAULT_ROUNDS,
};
use treewalk::parser::Parser;
use treewalk::program::ProgramEnvs;
use treewalk::resolver::{CaptureResolver, Resolve};
use treewalk::runtime::{Class, Instance, Method};
use treewalk::statement::Statement;
use treewalk::token::{Scanner, Token, TokenType};
use treewalk::value::{ExprResType, ExpressionRes};

fn parse(source: &str) -> Vec<Box<Statement>> {
    let tokens = Scanner::new().tokenize_string(source.to_string());
    let mut parser = Parser::new(tokens);
    let program = parser.program();
    assert!(parser.errors().is_empty(), "{:?}", parser.errors());
    program
}

fn block(source: &str) -> Box<Statement> {
    let tokens = Scanner::new().tokenize_string(source.to_string());
    let mut parser = Parser::new(tokens);
    parser.block().unwrap()
}

fn name(text: &str) -> Expression {
    Expression::VariableExpr { token_type: TokenType::Identifier, value: text.to_string() }
}

fn function(text: &str, params: &[&str], body: &str) -> Box<Statement> {
    Box::new(Statement::FunStatement {
        identifier: Token::new(TokenType::Identifier, text.to_string(), 0),
        args: params.iter().map(|p| name(p)).collect(),
        block: Some(block(body)),
    })
}

fn run(program: Vec<Box<Statement>>) -> (Result<StatementRes, EvalError>, Vec<String>) {
    let mut interpreter = StatementInterpreter::new_default();
    let result = interpreter.interpret(program);
    let output = interpreter.expression_visitor.output().clone();
    (result, output)
}

fn output_of(source: &str) -> Vec<String> {
    let (result, output) = run(parse(source));
    assert!(matches!(result, Ok(StatementRes::Void)), "{:?}", result);
    output
}

fn error_of(source: &str) -> EvalError {
    run(parse(source)).0.unwrap_err()
}

#[test]
fn block_shadows_and_restores() {
    assert_eq!(output_of("var x = 1; { var x = 2; print x; } print x;"), vec!["2", "1"]);
}

#[test]
fn block_sees_and_changes_outer_variables() {
    assert_eq!(
        output_of("var x = 1; var y = 2; var z; { var y = 3; z = x + y; print z; } print z;"),
        vec!["4", "4"]
    );
}

#[test]
fn fizzbuzz() {
    let source = "for (var x=0; x<15; x=x+1) { \
        if (x%3==0) { print \"fizz\"; } \
        if (x%5==0) { print \"buzz\"; } }";
    assert_eq!(
        output_of(source),
        vec!["fizz", "buzz", "fizz", "buzz", "fizz", "fizz", "buzz", "fizz"]
    );
}

#[test]
fn fizzbuzz_without_braces_is_reported_and_runs_the_same() {
    let source = "for (var x=0; x<15; x=x+1) { \
        if (x%3==0) print \"fizz\"; if (x%5==0) print \"buzz\"; }";
    let tokens = Scanner::new().tokenize_string(source.to_string());
    let mut parser = Parser::new(tokens);
    let program = parser.program();
    assert_eq!(parser.errors().len(), 2);
    let (result, output) = run(program);
    assert!(result.is_ok(), "{:?}", result);
    assert_eq!(output, vec!["fizz", "buzz", "fizz", "buzz", "fizz", "fizz", "buzz", "fizz"]);
}

#[test]
fn a_program_with_a_missing_terminator_still_runs() {
    let source = "var param = \"ok\"

        if (param == \"ok\") {
        print \"ok\";
        }

    EOF;
    ";
    let tokens = Scanner::new().tokenize_string(source.to_string());
    let mut parser = Parser::new(tokens);
    let program = parser.program();
    assert_eq!(parser.errors().len(), 1);
    let (result, output) = run(program);
    assert!(result.is_ok(), "{:?}", result);
    assert_eq!(output, vec!["ok"]);
}

#[test]
fn fizzbuzz_with_while() {
    let source = "var x = 0; while(x < 16) { \
        if (x % 5 == 0 and x % 3 == 0) { print \"fizzbuzz\"; } \
        x = x + 1; }";
    assert_eq!(output_of(source), vec!["fizzbuzz", "fizzbuzz"]);
}

#[test]
fn value_is_copied_at_declaration_from_an_expression() {
    assert_eq!(output_of("var x = 1; var y = x + 2; x = 2; print y;"), vec!["3"]);
}

#[test]
fn declaration_from_a_name_shares_the_cell() {
    assert_eq!(output_of("var x = 1; var y = x; x = 2; print y;"), vec!["2"]);
    assert_eq!(output_of("var x = 1; var y = x; y = 5; print x;"), vec!["5"]);
}

#[test]
fn chained_assignment() {
    assert_eq!(output_of("var x; var y = x = 2; print y; print x;"), vec!["2", "2"]);
}

#[test]
fn var_without_initializer_is_nil() {
    assert_eq!(output_of("var x; print x;"), vec!["nil"]);
}

#[test]
fn assigning_nil_clears_the_variable() {
    assert_eq!(output_of("var x = 1; x = nil; print x;"), vec!["nil"]);
    assert_eq!(output_of("var x = 1; var y = x; x = nil; print y;"), vec!["nil"]);
}

#[test]
fn removed_variable_prints_nil() {
    let mut interpreter = StatementInterpreter::new_default();
    interpreter.interpret(parse("var x = 1;")).unwrap();
    interpreter.expression_visitor.envs.remove_var("x".to_string()).unwrap();
    interpreter.interpret(parse("print x;")).unwrap();
    assert_eq!(interpreter.expression_visitor.output().clone(), vec!["nil"]);
}

#[test]
fn if_takes_one_branch() {
    assert_eq!(
        output_of("if (true) { print \"true\"; } else { print \"false\"; }"),
        vec!["true"]
    );
    assert_eq!(
        output_of("if (1 > 2) { print \"true\"; } else { print \"false\"; }"),
        vec!["false"]
    );
    assert_eq!(output_of("if (false) { print 1; } print 2;"), vec!["2"]);
    assert_eq!(
        output_of("if (true and false or true) { print \"true\"; } else { print \"false\"; }"),
        vec!["true"]
    );
}

#[test]
fn a_condition_that_is_no_truth_value_is_a_type_error() {
    assert_eq!(error_of("if (1) { print 1; }"), EvalError::TypeError);
    assert_eq!(error_of("while (\"a\") { print 1; }"), EvalError::TypeError);
    assert_eq!(error_of("var x; if (x) { }"), EvalError::TypeError);
}

#[test]
fn an_error_stops_the_program() {
    let (result, output) = run(parse("print 1; print y; print 2;"));
    assert_eq!(result.unwrap_err(), EvalError::UndefinedVariable);
    assert_eq!(output, vec!["1"]);
}

#[test]
fn an_unknown_name_in_a_declaration_is_an_error() {
    assert_eq!(error_of("var y = x;"), EvalError::UndefinedVariable);
    assert_eq!(error_of("x = 1;"), EvalError::UndefinedVariable);
}

#[test]
fn an_expression_statement_of_a_bare_name_looks_nothing_up() {
    assert_eq!(output_of("print 1; EOF;"), vec!["1"]);
}

#[test]
fn a_block_is_left_on_an_error_too() {
    let mut interpreter = StatementInterpreter::new_default();
    let result = interpreter.interpret(parse("var x = 1; { var x = 2; print y; }"));
    assert_eq!(result.unwrap_err(), EvalError::UndefinedVariable);
    assert_eq!(interpreter.expression_visitor.envs.get_top(), 0);
    interpreter.interpret(parse("print x;")).unwrap();
    assert_eq!(interpreter.expression_visitor.output().clone(), vec!["1"]);
}

#[test]
fn an_endless_loop_runs_out_of_rounds() {
    let mut interpreter = StatementInterpreter::new_default();
    assert_eq!(interpreter.expression_visitor.rounds(), DEFAULT_ROUNDS);
    interpreter.expression_visitor.set_rounds(50);
    let result = interpreter.interpret(parse("while (true) { print \" hello world\"; }"));
    assert_eq!(result.unwrap_err(), EvalError::ResourceExhausted);
    assert_eq!(interpreter.expression_visitor.output().len(), 50);
    assert_eq!(interpreter.expression_visitor.rounds(), 50);
}

#[test]
fn a_scope_that_is_left_is_discarded_unless_a_function_holds_it() {
    let mut interpreter = StatementInterpreter::new_default();
    interpreter.interpret(parse("var i = 0; while (i < 100) { { i = i + 1; } }")).unwrap();
    assert_eq!(interpreter.expression_visitor.envs.scope_count(), 1);
    let mut inner = parse("var x = 1;");
    inner.push(function("show", &[], "{ print x; }"));
    inner.extend(parse("keep = show;"));
    let mut program = parse("var keep;");
    program.push(Box::new(Statement::BlockStatement { statements: inner }));
    interpreter.interpret(program).unwrap();
    assert_eq!(interpreter.expression_visitor.envs.scope_count(), 3);
    interpreter.interpret(parse("keep(); keep();")).unwrap();
    assert_eq!(interpreter.expression_visitor.envs.scope_count(), 3);
    assert_eq!(interpreter.expression_visitor.output().clone(), vec!["1", "1"]);
}

#[test]
fn a_long_loop_takes_nothing_from_the_nesting() {
    let mut interpreter = StatementInterpreter::new_default();
    interpreter.expression_visitor.set_limit(10);
    let result = interpreter.interpret(parse("var i = 0; while (i < 5000) { i = i + 1; } print i;"));
    assert!(result.is_ok(), "{:?}", result);
    assert_eq!(interpreter.expression_visitor.output().clone(), vec!["5000"]);
}

#[test]
fn each_loop_has_rounds_of_its_own() {
    let mut interpreter = StatementInterpreter::new_default();
    interpreter.expression_visitor.set_rounds(4);
    let source = "var n = 0; var i = 0; \
        while (i < 3) { var j = 0; while (j < 3) { j = j + 1; n = n + 1; } i = i + 1; } print n;";
    let result = interpreter.interpret(parse(source));
    assert!(result.is_ok(), "{:?}", result);
    assert_eq!(interpreter.expression_visitor.output().clone(), vec!["9"]);
}

#[test]
fn nesting_deeper_than_the_budget_is_out_of_resources() {
    let mut interpreter = StatementInterpreter::new_default();
    interpreter.expression_visitor.set_limit(4);
    assert!(interpreter.interpret(parse("{ { print 1; } }")).is_ok());
    let result = interpreter.interpret(parse("{ { { print 2; } } }"));
    assert_eq!(result.unwrap_err(), EvalError::ResourceExhausted);
    assert_eq!(interpreter.expression_visitor.output().clone(), vec!["1"]);
    assert_eq!(interpreter.expression_visitor.envs.get_top(), 0);
}

#[test]
fn endless_recursion_runs_out_of_budget() {
    let mut program = vec![function("f", &[], "{ f(); }")];
    program.extend(parse("f();"));
    let (result, _) = run(program);
    assert_eq!(result.unwrap_err(), EvalError::ResourceExhausted);
    assert_eq!(StatementInterpreter::new_default().expression_visitor.limit(), DEFAULT_LIMIT);
}

#[test]
fn function_returns_a_value() {
    let body = Box::new(Statement::BlockStatement {
        statements: vec![Box::new(Statement::ReturnStatement {
            expr: Some(Box::new(Expression::LiteralExpr {
                token_type: TokenType::String,
                value: "Hello world".to_string(),
            })),
        })],
    });
    let mut program = vec![Box::new(Statement::FunStatement {
        identifier: Token::new(TokenType::Identifier, "hello".to_string(), 0),
        args: vec![],
        block: Some(body),
    })];
    program.extend(parse("print hello();"));
    let (result, output) = run(program);
    assert!(result.is_ok());
    assert_eq!(output, vec!["Hello world"]);
}

fn returning(e: Expression) -> Box<Statement> {
    Box::new(Statement::ReturnStatement { expr: Some(Box::new(e)) })
}

#[test]
fn return_leaves_loops_and_blocks_at_once() {
    let mut body = parse("var i = 0; while (true) { i = i + 1; if (i == 3) { } }");
    if let Statement::WhileStatement { body: inner, .. } = &mut *body[1] {
        if let Statement::BlockStatement { statements } = &mut **inner {
            if let Statement::IfStatement { body: then, .. } = &mut *statements[1] {
                **then = Statement::BlockStatement { statements: vec![returning(name("i"))] };
            }
        }
    }
    body.extend(parse("print \"never\";"));
    let mut program = vec![Box::new(Statement::FunStatement {
        identifier: Token::new(TokenType::Identifier, "three".to_string(), 0),
        args: vec![],
        block: Some(Box::new(Statement::BlockStatement { statements: body })),
    })];
    program.extend(parse("print three();"));
    let (result, output) = run(program);
    assert!(result.is_ok());
    assert_eq!(output, vec!["3"]);
}

#[test]
fn a_function_without_return_gives_nil() {
    let mut program = vec![function("f", &[], "{ var a = 1; }")];
    program.extend(parse("print f();"));
    assert_eq!(run(program).1, vec!["nil"]);
}

#[test]
fn return_at_the_top_level_ends_the_program() {
    let mut program = parse("print 1;");
    program.push(returning(Expression::LiteralExpr {
        token_type: TokenType::Number,
        value: "7".to_string(),
    }));
    program.extend(parse("print 2;"));
    let (result, output) = run(program);
    assert!(matches!(result, Ok(StatementRes::Expr { res }) if res.number == 7));
    assert_eq!(output, vec!["1"]);
    let bare = vec![Box::new(Statement::ReturnStatement { expr: None })];
    assert!(matches!(run(bare).0,
        Ok(StatementRes::Expr { res }) if res.type_ == ExprResType::Nil));
}

#[test]
fn recursion_and_parameters() {
    let mut program = vec![function(
        "hello",
        &["param"],
        "{ var paramOut =\" nono\"; \
           if (param == \"ok\") { hello(\"notOK\"); } \
           print \" hello this: \" + param + paramOut; }",
    )];
    program.extend(parse("var paramOut = \"closedOver\"; hello(\"ok\");"));
    let (result, output) = run(program);
    assert!(result.is_ok(), "{:?}", result);
    assert_eq!(output, vec![" hello this: notOK nono", " hello this: ok nono"]);
}

#[test]
fn a_closure_sees_a_later_change_of_what_it_captured() {
    let mut inner = parse("var x = \"closedOver\";");
    inner.push(function("show", &[], "{ print x; }"));
    inner.extend(parse("keep = show; x = \"changed\";"));
    let mut program = parse("var keep;");
    program.push(Box::new(Statement::BlockStatement { statements: inner }));
    program.extend(parse("keep(); var x = \"other\"; keep();"));
    let (result, output) = run(program);
    assert!(result.is_ok(), "{:?}", result);
    assert_eq!(output, vec!["changed", "changed"]);
}

#[test]
fn a_change_through_a_closure_is_seen_outside() {
    let mut program = parse("var count = 0;");
    program.push(function("bump", &[], "{ count = count + 1; }"));
    program.extend(parse("bump(); bump(); print count;"));
    assert_eq!(run(program).1, vec!["2"]);
}

#[test]
fn arguments_are_evaluated_in_order_and_bound_by_value() {
    let mut program = vec![function("show", &["a", "b"], "{ print a; print b; a = 0; }")];
    program.extend(parse("var x = 1; show(x, x = 5); print x;"));
    assert_eq!(run(program).1, vec!["1", "5", "5"]);
}

#[test]
fn a_wrong_number_of_arguments_is_reported_and_the_call_goes_on() {
    let mut program = vec![function("show", &["a"], "{ print a; }")];
    program.extend(parse("show(1, 2); print \"after\";"));
    let mut interpreter = StatementInterpreter::new_default();
    let result = interpreter.interpret(program);
    assert!(result.is_ok());
    assert_eq!(interpreter.expression_visitor.output().clone(), vec!["1", "after"]);
    assert_eq!(interpreter.expression_visitor.reports().clone(), vec![EvalError::Arity]);

    let mut program = vec![function("show", &["a", "b"], "{ print a; print b; }")];
    program.extend(parse("show(1);"));
    let mut interpreter = StatementInterpreter::new_default();
    let result = interpreter.interpret(program);
    assert_eq!(result.unwrap_err(), EvalError::UndefinedVariable);
    assert_eq!(interpreter.expression_visitor.output().clone(), vec!["1"]);
    assert_eq!(interpreter.expression_visitor.reports().clone(), vec![EvalError::Arity]);
}

#[test]
fn a_local_of_a_function_does_not_leak() {
    let mut program = vec![function("f", &[], "{ var local = 1; }")];
    program.extend(parse("f(); print local;"));
    assert_eq!(run(program).0.unwrap_err(), EvalError::UndefinedVariable);
}

#[test]
fn a_function_with_a_parameter_that_is_no_name_is_a_type_error() {
    let odd = Box::new(Statement::FunStatement {
        identifier: Token::new(TokenType::Identifier, "f".to_string(), 0),
        args: vec![Expression::LiteralExpr {
            token_type: TokenType::Number,
            value: "1".to_string(),
        }],
        block: Some(block("{ }")),
    });
    assert_eq!(run(vec![odd]).0.unwrap_err(), EvalError::TypeError);
    let bodyless = Box::new(Statement::FunStatement {
        identifier: Token::new(TokenType::Identifier, "f".to_string(), 0),
        args: vec![],
        block: None,
    });
    assert_eq!(run(vec![bodyless]).0.unwrap_err(), EvalError::TypeError);
}

#[test]
fn a_for_statement_runs_like_its_while_form() {
    let mut parts = parse("var i = 0; i < 3; i = i + 1; { print i; }");
    let body = parts.pop().unwrap();
    let increment = parts.pop().unwrap();
    let condition = parts.pop().unwrap();
    let initiation = parts.pop().unwrap();
    let looping = Box::new(Statement::ForStatement {
        initiation: Some(initiation),
        condition: Some(condition),
        increment: Some(increment),
        body,
    });
    let (result, output) = run(vec![looping.clone()]);
    assert!(result.is_ok());
    assert_eq!(output, vec!["0", "1", "2"]);
    let mut program = vec![looping];
    program.extend(parse("print i;"));
    assert_eq!(run(program).0.unwrap_err(), EvalError::UndefinedVariable);
}

#[test]
fn a_for_statement_whose_condition_is_no_expression_is_a_type_error() {
    let odd = Box::new(Statement::ForStatement {
        initiation: None,
        condition: Some(block("{ }")),
        increment: None,
        body: block("{ }"),
    });
    assert_eq!(run(vec![odd]).0.unwrap_err(), EvalError::TypeError);
}

#[test]
fn a_statement_alone_is_executed_within_the_budget() {
    let mut interpreter = StatementInterpreter::new_default();
    let program = parse("var x = 2; print x * 21;");
    for statement in program.iter() {
        assert!(matches!(interpreter.eval(statement), Ok(StatementRes::Void)));
    }
    assert_eq!(interpreter.expression_visitor.output().clone(), vec!["42"]);
    let own = StatementInterpreter::new(ExpressionInterpreter::new());
    assert_eq!(own.expression_visitor.limit(), DEFAULT_LIMIT);
    let mut over = StatementInterpreter::new_with_envs(ProgramEnvs::new());
    over.insert_variable("a".to_string(), ExpressionRes::from_number(1));
    assert_eq!(over.lookup_variable("a".to_string()), Ok(0));
    assert_eq!(over.lookup_variable("b".to_string()), Err(EvalError::UndefinedVariable));
}

fn captured_by(body: &str, params: &[&str], envs: &ProgramEnvs) -> Vec<(String, usize)> {
    let params: Vec<ExpressionRes> =
        params.iter().map(|p| ExpressionRes::from_variable(p.to_string())).collect();
    let mut resolver = CaptureResolver::new_with_environment(envs, &params);
    resolver.resolve_statement(&block(body));
    resolver.get_captured()
}

#[test]
fn the_resolver_captures_free_variables_with_their_cells() {
    let mut envs = ProgramEnvs::new();
    envs.define_at_top("a".to_string(), ExpressionRes::from_number(1));
    envs.define_at_top("b".to_string(), ExpressionRes::from_number(2));
    envs.push();
    envs.define_at_top("c".to_string(), ExpressionRes::from_number(3));
    assert_eq!(
        captured_by("{ print c + a; print a; }", &[], &envs),
        vec![("a".to_string(), 0), ("c".to_string(), 2)]
    );
    assert_eq!(captured_by("{ print p + b; }", &["p"], &envs), vec![("b".to_string(), 1)]);
    assert_eq!(captured_by("{ print unknown; }", &[], &envs), vec![]);
}

#[test]
fn a_name_is_local_from_its_declaration_on() {
    let mut envs = ProgramEnvs::new();
    envs.define_at_top("a".to_string(), ExpressionRes::from_number(1));
    envs.define_at_top("b".to_string(), ExpressionRes::from_number(2));
    assert_eq!(captured_by("{ var a = 1; print a; }", &[], &envs), vec![]);
    assert_eq!(captured_by("{ print a; var a = 1; }", &[], &envs), vec![("a".to_string(), 0)]);
    assert_eq!(captured_by("{ a = b; print a; }", &[], &envs), vec![("b".to_string(), 1)]);
    assert_eq!(captured_by("{ var a = a; }", &[], &envs), vec![]);
    assert_eq!(
        captured_by("{ if (a == 1) { var b; } else { print b; } }", &[], &envs),
        vec![("a".to_string(), 0)]
    );
    assert_eq!(
        captured_by("{ while (b < 1) { f(a); } }", &[], &envs),
        vec![("b".to_string(), 1), ("a".to_string(), 0)]
    );
}

#[test]
fn the_resolver_walks_an_expression_alone() {
    let mut envs = ProgramEnvs::new();
    envs.define_at_top("a".to_string(), ExpressionRes::from_number(1));
    let params = vec![];
    let mut resolver = CaptureResolver::new_with_environment(&envs, &params);
    resolver.resolve_expression(&name("a"));
    resolver.resolve_expression(&name("a"));
    assert_eq!(resolver.get_captured(), vec![("a".to_string(), 0)]);
}

#[test]
fn function_values_carry_their_parameters() {
    let f = Method::new(
        "add".to_string(),
        vec![
            ExpressionRes::from_variable("a".to_string()),
            ExpressionRes::from_variable("b".to_string()),
        ],
        *block("{ print a + b; }"),
        0,
    );
    let rebound = f.prepare_for_call(3);
    assert_eq!(rebound.captured_env, 3);
    assert_eq!(rebound.name, "add");
    let value = ExpressionRes::from_method(f);
    assert_eq!(value.type_, ExprResType::Function);
    assert_eq!(value.str, "funadd");
    assert_eq!(value.print(), "funadd");
    assert_eq!(value.get_params(), vec!["a".to_string(), "b".to_string()]);
    assert_eq!(value.get_method().unwrap().name, "add");
    assert!(ExpressionRes::copy(&value).get_method().is_none());
    assert!(value.clone().get_method().is_some());

    let mut machine = ExpressionInterpreter::new();
    let result = machine.call_function(
        value.get_method().unwrap(),
        vec![ExpressionRes::from_number(2), ExpressionRes::from_number(3)],
        100,
    );
    assert_eq!(result.unwrap().type_, ExprResType::Nil);
    assert_eq!(machine.output().clone(), vec!["5"]);
    assert_eq!(machine.envs.get_top(), 0);
}

#[test]
fn a_function_whose_environment_is_missing_cannot_be_called() {
    let f = Method::new("f".to_string(), vec![], *block("{ }"), 9);
    let mut machine = ExpressionInterpreter::new();
    assert_eq!(machine.call_function(&f, vec![], 100).unwrap_err(), EvalError::TypeError);
}

#[test]
fn a_method_body_runs_in_the_current_scope() {
    let f = Method::new("f".to_string(), vec![], *block("{ print a; }"), 0);
    let mut machine = ExpressionInterpreter::new();
    machine.insert("a".to_string(), ExpressionRes::from_number(4));
    assert!(matches!(f.call(&mut machine), Ok(StatementRes::Void)));
    assert_eq!(machine.output().clone(), vec!["4"]);
}

#[test]
fn an_instance_calls_the_methods_of_its_class() {
    let mut machine = ExpressionInterpreter::new();
    machine.insert("greeting".to_string(), ExpressionRes::from_str("Hello ".to_string()));
    let mut class = Class::new("Hello".to_string());
    class.add_method(
        "world".to_string(),
        vec![ExpressionRes::from_variable("who".to_string())],
        *block("{ print greeting + who; }"),
        &mut machine.envs,
    );
    assert_eq!(class.methods.len(), 1);
    assert_eq!(class.methods[0].captured_env, 1);
    let class = Rc::new(class);
    let instance = Instance::new(class.clone(), &mut machine.envs);
    assert_eq!(instance.env, 2);
    assert_eq!(machine.envs.get_top(), 0);
    assert!(instance.get_function_def(&"world".to_string()).is_some());
    assert!(instance.get_function_def(&"other".to_string()).is_none());
    let result = instance.call(
        "world".to_string(),
        vec![ExpressionRes::from_str("world".to_string())],
        &mut machine,
    );
    assert_eq!(result.unwrap().type_, ExprResType::Nil);
    assert_eq!(machine.output().clone(), vec!["Hello world"]);
    assert_eq!(
        instance.call("other".to_string(), vec![], &mut machine).unwrap_err(),
        EvalError::UndefinedVariable
    );
    let made = class.call(2, class.clone()).unwrap();
    assert_eq!(made.env, 2);
    assert!(made.get_child_env(&mut machine.envs));
    assert_eq!(machine.envs.get_top(), 3);
    let other = Class::new_class("Other".to_string(), vec![], vec![]);
    assert_eq!(other.name, "Other");
}
