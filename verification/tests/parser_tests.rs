use treewalk::expression::Expression;
use treewalk::grammar::{ParseError, ParseErrorKind};
use treewalk::parser::Parser;
use treewalk::statement::Statement;
use treewalk::statement::Statement::{BlockStatement, IfStatement, WhileStatement};
use treewalk::token::{Scanner, Token, TokenType};

#[test]
fn equality_test() {
    let vec = get_bang_equal_tokens();
    let mut parser = Parser::new(vec);
    let option = parser.equality();
    println!("{:?}", option.unwrap())
}

fn get_bang_equal_tokens() -> Vec<Token> {
    let token = Token::new(TokenType::Number, "1".to_string(), 0);
    let bang_equal = Token::new(TokenType::BangEqual, "!=".to_string(), 0);
    let second_comparison = Token::new(TokenType::Number, "2".to_string(), 0);
    vec![token, bang_equal, second_comparison]
}

#[test]
fn parse_var_tokens() {
    let mut tokenizer = Scanner::new();
    let variable = tokenizer.tokenize_string("var x = 1;".to_string());
    let mut parser = Parser::new(variable);
    println!("{:?}", parser.program())
}

#[test]
fn parse_scope() {
    let program =
        "var x;\
    { x = 1; }\
    ";
    let vec = Scanner::new().tokenize_string(String::from(program));
    let parser = Parser::new(vec).program();
    assert!(matches!(*parser[1], BlockStatement {..}))
}

#[test]
fn parse_if_else() {
    let x1 =
        "if (true) {
        var x;
        } else {
        var y;
        }    ";
    let vec = Scanner::new().tokenize_string(x1.to_string());
    let parser = Parser::new(vec).program();
    assert_eq!(parser.len(), 1);
    assert!(matches!(*parser[0], IfStatement { ..}));
    println!("{:#?}", parser)
}

#[test]
fn parse_logical() {
    let x1 = "if (true or false) {
        print \"true\";
     } else {
        print \"false\";
     }";
    let vec = Scanner::new().tokenize_string(x1.to_string());
    let parser = Parser::new(vec).program();
    println!("{:#?}", parser);
    assert_eq!(parser.len(), 1);
    assert!(matches!(*parser[0], IfStatement { ..}));
}

#[test]
fn parse_while() {
    let x1 =
        "while(x) {
        print \"hello\"
        }";
    let vec = Scanner::new().tokenize_string(x1.to_string());
    let parser = Parser::new(vec).program();
    println!("{:#?}", parser);
    assert_eq!(parser.len(), 1);
    assert!(matches!(*parser[0], WhileStatement { ..}));
}

#[test]
fn parse_for() {
    let x1 =
        "for(var x = 0; x < 10; x = x + 1) {
        print \"hello\"
        }";
    let vec = Scanner::new().tokenize_string(x1.to_string());
    let parser = Parser::new(vec).program();
    println!("{:#?}", parser);
    assert_eq!(parser.len(), 1);
    assert!(matches!(&*parser[0], BlockStatement { statements }
        if statements.len() == 2
            && matches!(*statements[0], Statement::VarDeclaration { .. })
            && matches!(*statements[1], WhileStatement { .. })));
}

#[test]
fn parse_desug_for() {
    let x1 =
        "var x = 0;
        while(x < 100) {
        print x;
        x = x + 1;
        };".to_string();
    let vec = Scanner::new().tokenize_string(x1.to_string());
    let parser = Parser::new(vec).program();
    println!("{:#?}", parser);
    assert_eq!(parser.len(), 2);
    assert!(matches!(*parser[1], WhileStatement { ..}));
}

#[test]
fn parse_mod() {
    let statement =
    "var x = 3;
        if (x % 3 == 0) {
        print \"fizz\";
        }";
    let vec = Scanner::new().tokenize_string(statement.to_string());
    let parser = Parser::new(vec).program();
    println!("{:#?}", parser);
}

fn parse(source: &str) -> (Vec<Box<Statement>>, Vec<ParseError>) {
    let tokens = Scanner::new().tokenize_string(source.to_string());
    let mut parser = Parser::new(tokens);
    let program = parser.program();
    (program, parser.errors().clone())
}

fn expression(source: &str) -> Expression {
    let tokens = Scanner::new().tokenize_string(source.to_string());
    let mut parser = Parser::new(tokens);
    *parser.expression().unwrap()
}

fn shape(e: &Expression) -> String {
    match e {
        Expression::GroupingExpr { value } => format!("({})", shape(value)),
        Expression::BinaryExpr { token, rhs, lhs } => {
            format!("[{} {} {}]", shape(lhs), token.value, shape(rhs))
        }
        Expression::UnaryExpr { token, rhs } => format!("[{} {}]", token.value, shape(rhs)),
        Expression::LiteralExpr { value, .. } => value.clone(),
        Expression::VariableExpr { value, .. } => value.clone(),
        Expression::Assignment { identifier, value } => {
            format!("[{} = {}]", shape(identifier), shape(value))
        }
        Expression::Logical { token, rhs, lhs } => {
            format!("[{} {} {}]", shape(lhs), token.value, shape(rhs))
        }
        Expression::Call { identifier, args } => format!(
            "{}<{}>",
            shape(identifier),
            args.iter().map(|a| shape(a)).collect::<Vec<_>>().join(",")
        ),
    }
}

#[test]
fn factor_binds_tighter_than_term() {
    assert_eq!(shape(&expression("1 + 2 * 3")), "[1 + [2 * 3]]");
    assert_eq!(shape(&expression("1 * 2 + 3")), "[[1 * 2] + 3]");
}

#[test]
fn operators_of_one_level_lean_left() {
    assert_eq!(shape(&expression("1 - 2 - 3")), "[[1 - 2] - 3]");
    assert_eq!(shape(&expression("8 / 4 / 2 % 3")), "[[[8 / 4] / 2] % 3]");
    assert_eq!(shape(&expression("a or b or c")), "[[a or b] or c]");
}

#[test]
fn the_precedence_ladder() {
    assert_eq!(
        shape(&expression("a = b or c and d == e < f + g * -h")),
        "[a = [b or [c and [d == [e < [f + [g * [- h]]]]]]]]"
    );
}

#[test]
fn assignment_leans_right() {
    assert_eq!(shape(&expression("a = b = c")), "[a = [b = c]]");
}

#[test]
fn unary_chains_nest() {
    assert_eq!(shape(&expression("!!a")), "[! [! a]]");
    assert_eq!(shape(&expression("--1")), "[- [- 1]]");
}

#[test]
fn grouping_is_kept() {
    assert_eq!(shape(&expression("(1 + 2) * 3")), "[([1 + 2]) * 3]");
}

#[test]
fn call_collects_arguments() {
    assert_eq!(shape(&expression("f()")), "f<>");
    assert_eq!(shape(&expression("f(1, a + 2)")), "f<1,[a + 2]>");
    assert_eq!(shape(&expression("f(1)(2)")), "f<1><2>");
}

#[test]
fn any_other_token_is_a_name() {
    assert!(matches!(
        expression("this"),
        Expression::VariableExpr { token_type: TokenType::This, .. }
    ));
}

#[test]
fn literals_keep_their_kind_and_text() {
    assert!(matches!(
        expression("\"hi\""),
        Expression::LiteralExpr { token_type: TokenType::String, value } if value == "hi"
    ));
    assert!(matches!(
        expression("nil"),
        Expression::LiteralExpr { token_type: TokenType::Nil, .. }
    ));
}

#[test]
fn well_formed_program_reports_nothing() {
    let (program, errors) = parse("var x = 1; { print x; } if (x == 1) { x = 2; }");
    assert_eq!(program.len(), 3);
    assert_eq!(errors, vec![]);
}

#[test]
fn missing_terminator_is_reported_and_parsing_goes_on() {
    let (program, errors) = parse("print 1\nprint 2;");
    assert_eq!(program.len(), 2);
    assert_eq!(errors, vec![ParseError { kind: ParseErrorKind::MissingTerminator, line: 1 }]);
}

#[test]
fn unbalanced_parens_are_reported() {
    let (program, errors) = parse("print (1 + 2;");
    assert_eq!(program.len(), 1);
    assert_eq!(errors, vec![ParseError { kind: ParseErrorKind::UnbalancedParens, line: 0 }]);
}

#[test]
fn missing_parenthesis_of_a_condition_is_reported() {
    let (program, errors) = parse("while x) { }");
    assert_eq!(program.len(), 1);
    assert_eq!(errors, vec![ParseError { kind: ParseErrorKind::UnexpectedToken, line: 0 }]);
}

#[test]
fn end_of_input_inside_an_expression_is_reported() {
    let (program, errors) = parse("print 1 +");
    assert_eq!(program.len(), 0);
    assert_eq!(errors, vec![ParseError { kind: ParseErrorKind::UnexpectedEnd, line: 0 }]);
}

#[test]
fn if_without_a_block_is_reported_and_takes_the_statement() {
    let tokens = Scanner::new().tokenize_string("if (a) print 1; print 2;".to_string());
    let mut parser = Parser::new(tokens);
    let parsed = parser.if_statement().unwrap();
    assert!(matches!(&*parsed, IfStatement { body, else_body: None, .. }
        if matches!(&**body, Statement::PrintStatement { .. })));
    assert_eq!(
        parser.errors().clone(),
        vec![ParseError { kind: ParseErrorKind::UnexpectedToken, line: 0 }]
    );
    assert_eq!(parser.program().len(), 1);
}

#[test]
fn if_at_the_end_of_the_tokens_is_refused() {
    let tokens = Scanner::new().tokenize_string("if (a)".to_string());
    let mut parser = Parser::new(tokens);
    assert!(parser.if_statement().is_none());
    assert_eq!(
        parser.errors().clone(),
        vec![ParseError { kind: ParseErrorKind::UnexpectedEnd, line: 0 }]
    );
}

#[test]
fn else_without_a_block_is_no_branch() {
    let (program, errors) = parse("if (a) { } else;");
    assert_eq!(program.len(), 2);
    assert!(matches!(&*program[0], IfStatement { else_body: None, .. }));
    assert!(matches!(&*program[1], Statement::Stmt { expr }
        if matches!(&**expr, Expression::VariableExpr { token_type: TokenType::Else, .. })));
    assert_eq!(errors, vec![]);
}

#[test]
fn statement_parsers_refuse_another_keyword() {
    let tokens = Scanner::new().tokenize_string("var x;".to_string());
    let mut parser = Parser::new(tokens);
    assert!(parser.print_statement().is_none());
    assert!(parser.block().is_none());
    assert!(parser.if_statement().is_none());
    assert_eq!(parser.errors().len(), 3);
    assert!(parser.errors().iter().all(|e| e.kind == ParseErrorKind::UnexpectedToken));
    assert!(parser.declaration().is_some());
}

#[test]
fn var_without_initializer_has_none() {
    let (program, errors) = parse("var x;");
    assert!(matches!(&*program[0], Statement::VarDeclaration { expr: None, .. }));
    assert_eq!(errors, vec![]);
}

#[test]
fn var_name_that_is_no_identifier_is_reported() {
    let (program, errors) = parse("var 1 = 2;");
    assert_eq!(program.len(), 1);
    assert_eq!(errors, vec![ParseError { kind: ParseErrorKind::UnexpectedToken, line: 0 }]);
}

#[test]
fn for_without_clauses_loops_on_true() {
    let (program, errors) = parse("for (;;) { }");
    assert_eq!(errors, vec![]);
    assert!(matches!(&*program[0], WhileStatement { expr, .. }
        if matches!(&**expr, Expression::LiteralExpr { token_type: TokenType::True, .. })));
}

#[test]
fn for_puts_the_step_after_the_body() {
    let (program, errors) = parse("for (; a; a = b) print a;");
    assert_eq!(errors, vec![]);
    assert!(matches!(&*program[0], WhileStatement { body, .. }
        if matches!(&**body, BlockStatement { statements }
            if statements.len() == 2
                && matches!(*statements[0], Statement::PrintStatement { .. })
                && matches!(*statements[1], Statement::Stmt { .. }))));
}

#[test]
fn else_needs_a_block_right_after() {
    let (program, errors) = parse("if (a) { } else { print 1; } print 2;");
    assert_eq!(program.len(), 2);
    assert_eq!(errors, vec![]);
    assert!(matches!(&*program[0], IfStatement { else_body: Some(_), .. }));
}

#[test]
fn program_stops_at_an_end_token() {
    let tokens = vec![
        Token::new(TokenType::Print, "print".to_string(), 0),
        Token::new(TokenType::Number, "1".to_string(), 0),
        Token::new(TokenType::Semicolon, ";".to_string(), 0),
        Token::new(TokenType::EOF, "".to_string(), 0),
        Token::new(TokenType::Print, "print".to_string(), 0),
    ];
    let mut parser = Parser::new(tokens);
    assert_eq!(parser.program().len(), 1);
}

#[test]
fn block_cut_short_is_kept_with_an_error() {
    let (program, errors) = parse("{ print 1;");
    assert_eq!(program.len(), 1);
    assert_eq!(errors, vec![ParseError { kind: ParseErrorKind::UnexpectedEnd, line: 0 }]);
}
