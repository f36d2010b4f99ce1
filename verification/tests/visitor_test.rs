use treewalk::error::EvalError;
use treewalk::expression::Expression;
use treewalk::expression::Expression::{BinaryExpr, LiteralExpr, Logical, UnaryExpr};
use treewalk::interpreter::{ExpressionInterpreter, Visitor};
use treewalk::parser::Parser;
use treewalk::statement::Statement;
use treewalk::token::{Scanner, Token, TokenType};
use treewalk::value::{ExprResType, ExpressionRes};

#[test]
fn unary_bang() {
    let expr = UnaryExpr {
        token: Token {
            token_type: TokenType::Bang,
            value: "".to_string(),
            line: 0,
        },
        rhs: Box::new(LiteralExpr { token_type: TokenType::False, value: "".to_string() }),
    };
    let mut visitor = ExpressionInterpreter::new();
    assert!(visitor.eval(expr).unwrap().boolean);
}

#[test]
fn string_binary_plus() {
    let expr = BinaryExpr {
        token: Token {
            token_type: TokenType::Plus,
            value: "".to_string(),
            line: 0,
        },
        lhs: Box::new(LiteralExpr { token_type: TokenType::String, value: "hello ".to_string() }),
        rhs: Box::new(LiteralExpr { token_type: TokenType::String, value: "world".to_string() }),
    };
    let mut visitor = ExpressionInterpreter::new();
    assert_eq!(visitor.eval(expr).unwrap().str, "hello world");
}


#[test]
fn visitor_test() {
    let token = Token {
        token_type: TokenType::Minus,
        value: "".to_string(),
        line: 0,
    };
    let equality =  Box::new(BinaryExpr {
        token,
        rhs: Box::new(LiteralExpr {
            token_type: TokenType::Number,
            value: "10".to_string(),
        }),
        lhs:  Box::new(LiteralExpr {
            token_type: TokenType::Number,
            value: "1".to_string(),
        }),
    });
    let _label = String::from("here");

    println!("{:?}", get_visitor().eval(*equality))
}

#[test]
fn logical_test() {
  let logical_false = Box::new(Logical {
        token: Token::new(TokenType::And, "".to_string(), 0),
        rhs: get_false_literal(),
        lhs: get_true_literal(),
    });

    assert!(!get_visitor().eval(*logical_false.clone()).unwrap().boolean);

    let logical_true = Box::new(Logical {
        token: Token::new(TokenType::And, "".to_string(), 0),
        rhs: get_true_literal(),
        lhs: get_true_literal()
    });


    println!("{:#?}", get_visitor().eval(*logical_true.clone()));
    assert!(get_visitor().eval(*logical_true.clone()).unwrap().boolean);

    let logical = Logical {
        token: Token::new(TokenType::Or, "".to_string(), 0),
        rhs: logical_false,
        lhs: logical_true,
    };
    assert!(get_visitor().eval(logical).unwrap().boolean);
}

#[test]
fn variable_propagation() {
    let string = "var x  = 1;\
         var y = x;\
         print y;\
         EOF;".to_string();
    let _parser = get_statements(string);
    let _x1 = get_visitor();
}

fn get_statements(statement: String) -> Vec<Box<Statement>> {
    let vec = Scanner::new().tokenize_string(statement.to_string());
    Parser::new(vec).program()
}

fn get_false_literal() ->  Box<Expression>{
    Box::new(LiteralExpr { token_type: TokenType::False, value: "".to_string() })
}

fn get_visitor() -> ExpressionInterpreter {
   ExpressionInterpreter::new()
}

fn get_true_literal() ->  Box<Expression> {
    Box::new(LiteralExpr { token_type: TokenType::True, value: "".to_string() })
}

fn value_of(source: &str) -> Result<ExpressionRes, EvalError> {
    let tokens = Scanner::new().tokenize_string(source.to_string());
    let expr = *Parser::new(tokens).expression().unwrap();
    ExpressionInterpreter::new().eval(expr)
}

fn number_of(source: &str) -> isize {
    let v = value_of(source).unwrap();
    assert_eq!(v.type_, ExprResType::Number);
    v.number
}

fn truth_of(source: &str) -> bool {
    let v = value_of(source).unwrap();
    assert_eq!(v.type_, ExprResType::Boolean);
    v.boolean
}

#[test]
fn one_plus_two_is_three() {
    assert_eq!(number_of("1 + 2"), 3);
}

#[test]
fn strings_join() {
    let v = value_of("\"hello \" + \"world\"").unwrap();
    assert_eq!(v.type_, ExprResType::String);
    assert_eq!(v.str, "hello world");
}

#[test]
fn remainder_is_never_negative() {
    assert_eq!(number_of("-5 % 3"), 1);
    assert_eq!(number_of("5 % 3"), 2);
    assert_eq!(number_of("-5 % -3"), 1);
    assert_eq!(number_of("5 % -3"), 2);
    assert_eq!(number_of("7 % -1"), 0);
    assert_eq!(number_of("6 % 3"), 0);
}

#[test]
fn division_rounds_towards_zero() {
    assert_eq!(number_of("7 / 2"), 3);
    assert_eq!(number_of("-7 / 2"), -3);
    assert_eq!(number_of("7 / -2"), -3);
    assert_eq!(number_of("-7 / -2"), 3);
    assert_eq!(number_of("0 / 5"), 0);
}

#[test]
fn the_other_operators_on_numbers() {
    assert_eq!(number_of("10 - 1"), 9);
    assert_eq!(number_of("6 * 7"), 42);
    assert!(truth_of("2 > 1"));
    assert!(!truth_of("1 > 1"));
    assert!(truth_of("1 >= 1"));
    assert!(truth_of("1 < 2"));
    assert!(truth_of("2 <= 2"));
    assert!(!truth_of("3 <= 2"));
    assert!(truth_of("2 == 2"));
    assert!(!truth_of("2 == 3"));
}

#[test]
fn not_false_is_true() {
    assert!(truth_of("!false"));
    assert!(!truth_of("!true"));
}

#[test]
fn minus_of_a_difference() {
    assert_eq!(number_of("-(10-1)"), -9);
}

#[test]
fn strings_compare_by_value() {
    assert!(truth_of("\"ok\" == \"ok\""));
    assert!(!truth_of("\"ok\" == \"no\""));
}

#[test]
fn kinds_that_do_not_match_are_a_type_error() {
    assert_eq!(value_of("1 + \"a\"").unwrap_err(), EvalError::TypeError);
    assert_eq!(value_of("true + false").unwrap_err(), EvalError::TypeError);
    assert_eq!(value_of("-true").unwrap_err(), EvalError::TypeError);
    assert_eq!(value_of("!1").unwrap_err(), EvalError::TypeError);
    assert_eq!(value_of("-\"a\"").unwrap_err(), EvalError::TypeError);
}

#[test]
fn operators_without_a_meaning_are_unsupported() {
    assert_eq!(value_of("1 != 2").unwrap_err(), EvalError::UnsupportedOperation);
    assert_eq!(value_of("\"a\" - \"b\"").unwrap_err(), EvalError::UnsupportedOperation);
    assert_eq!(value_of("1 and true").unwrap_err(), EvalError::UnsupportedOperation);
    assert_eq!(value_of("true and 1").unwrap_err(), EvalError::UnsupportedOperation);
    assert_eq!(value_of("1 / 0").unwrap_err(), EvalError::UnsupportedOperation);
    assert_eq!(value_of("1 % 0").unwrap_err(), EvalError::UnsupportedOperation);
}

#[test]
fn a_result_that_does_not_fit_is_unsupported() {
    let max = isize::MAX.to_string();
    assert_eq!(number_of(&max), isize::MAX);
    assert_eq!(value_of(&format!("{} + 1", max)).unwrap_err(), EvalError::UnsupportedOperation);
    assert_eq!(value_of(&format!("{} * 2", max)).unwrap_err(), EvalError::UnsupportedOperation);
    assert_eq!(
        value_of(&format!("(0 - {} - 1) / (0 - 1)", max)).unwrap_err(),
        EvalError::UnsupportedOperation
    );
    assert_eq!(number_of(&format!("(0 - {} - 1) % (0 - 1)", max)), 0);
    assert_eq!(value_of(&format!("-(0 - {} - 1)", max)).unwrap_err(), EvalError::UnsupportedOperation);
}

#[test]
fn a_number_literal_that_does_not_fit_is_a_type_error() {
    assert_eq!(
        value_of("99999999999999999999999999999999999999999").unwrap_err(),
        EvalError::TypeError
    );
    let odd = LiteralExpr { token_type: TokenType::Number, value: "12a".to_string() };
    assert_eq!(get_visitor().eval(odd).unwrap_err(), EvalError::TypeError);
    let none = LiteralExpr { token_type: TokenType::Number, value: "".to_string() };
    assert_eq!(get_visitor().eval(none).unwrap_err(), EvalError::TypeError);
}

#[test]
fn an_unknown_name_is_an_error_not_nil() {
    assert_eq!(value_of("x + 1").unwrap_err(), EvalError::UndefinedVariable);
    assert_eq!(value_of("x = 1").unwrap_err(), EvalError::UndefinedVariable);
    assert_eq!(value_of("x = nil").unwrap_err(), EvalError::UndefinedVariable);
    assert_eq!(value_of("!x").unwrap_err(), EvalError::UndefinedVariable);
}

#[test]
fn a_bare_name_is_a_reference() {
    let v = value_of("x").unwrap();
    assert_eq!(v.type_, ExprResType::Identifier);
    assert_eq!(v.str, "x");
}

#[test]
fn or_does_not_touch_the_right_operand_after_true() {
    assert!(truth_of("true or missing"));
    assert!(truth_of("true or (1 / 0 == 1)"));
    assert_eq!(value_of("false or missing").unwrap_err(), EvalError::UndefinedVariable);
    assert!(truth_of("false or true"));
    assert!(!truth_of("false or false"));
}

#[test]
fn and_does_not_touch_the_right_operand_after_false() {
    assert!(!truth_of("false and missing"));
    assert!(!truth_of("false and (1 / 0 == 1)"));
    assert_eq!(value_of("true and missing").unwrap_err(), EvalError::UndefinedVariable);
    assert!(truth_of("true and true"));
}

#[test]
fn a_logical_node_with_another_operator_is_unsupported() {
    let odd = Logical {
        token: Token::new(TokenType::Plus, "+".to_string(), 0),
        rhs: get_true_literal(),
        lhs: get_true_literal(),
    };
    assert_eq!(get_visitor().eval(odd).unwrap_err(), EvalError::UnsupportedOperation);
}

#[test]
fn calling_what_is_no_function_is_a_type_error() {
    assert_eq!(value_of("1(2)").unwrap_err(), EvalError::TypeError);
    assert_eq!(value_of("f(2)").unwrap_err(), EvalError::UndefinedVariable);
}

#[test]
fn assigning_to_what_is_no_name_is_a_type_error() {
    assert_eq!(value_of("1 = 2").unwrap_err(), EvalError::TypeError);
}

#[test]
fn without_budget_nothing_is_evaluated() {
    let mut visitor = ExpressionInterpreter::new();
    visitor.set_limit(0);
    assert_eq!(visitor.eval(*get_true_literal()).unwrap_err(), EvalError::ResourceExhausted);
    visitor.set_limit(1);
    assert!(visitor.eval(*get_true_literal()).unwrap().boolean);
    let nested = UnaryExpr {
        token: Token::new(TokenType::Bang, "!".to_string(), 0),
        rhs: get_true_literal(),
    };
    assert_eq!(visitor.eval(nested.clone()).unwrap_err(), EvalError::ResourceExhausted);
    visitor.set_limit(2);
    assert!(!visitor.eval(nested).unwrap().boolean);
    assert_eq!(visitor.limit(), 2);
}

#[test]
fn values_print_as_written() {
    assert_eq!(ExpressionRes::from_str("a b".to_string()).print(), "a b");
    assert_eq!(ExpressionRes::from_number(0).print(), "0");
    assert_eq!(ExpressionRes::from_number(-150).print(), "-150");
    assert_eq!(ExpressionRes::from_number(7).print(), "7");
    assert_eq!(ExpressionRes::from_number(1234567890).print(), "1234567890");
    assert_eq!(ExpressionRes::from_number(isize::MIN).print(), isize::MIN.to_string());
    assert_eq!(ExpressionRes::from_number(isize::MAX).print(), isize::MAX.to_string());
    assert_eq!(ExpressionRes::from_bool(true).print(), "true");
    assert_eq!(ExpressionRes::from_bool(false).print(), "false");
    assert_eq!(ExpressionRes::from_none().print(), "nil");
    assert_eq!(ExpressionRes::from_variable("x".to_string()).print(), "x");
}

#[test]
fn constructors_set_the_kind() {
    assert_eq!(ExpressionRes::from_str("a".to_string()).type_, ExprResType::String);
    assert_eq!(ExpressionRes::from_number(1).type_, ExprResType::Number);
    assert_eq!(ExpressionRes::from_bool(true).type_, ExprResType::Boolean);
    assert_eq!(ExpressionRes::from_variable("a".to_string()).type_, ExprResType::Identifier);
    assert_eq!(ExpressionRes::from_none().type_, ExprResType::Nil);
    assert_eq!(ExpressionRes::from_none().str, "nil");
    assert!(ExpressionRes::from_number(1).eq_type(&ExpressionRes::from_number(2)));
    assert!(!ExpressionRes::from_number(1).eq_type(&ExpressionRes::from_bool(true)));
    assert!(ExpressionRes::from_number(1).get_method().is_none());
    assert_eq!(ExpressionRes::from_number(1).get_params(), Vec::<String>::new());
    let copy = ExpressionRes::copy(&ExpressionRes::from_number(5));
    assert_eq!(copy.number, 5);
    assert_eq!(copy.type_, ExprResType::Number);
}
