use treewalk::token::TokenType::{
    Else, Equal, Identifier, If, LeftBrace, LeftParen, Number, RightBrace, RightParen, Semicolon,
    Var,
};
use treewalk::token::{LexError, Scanner, Token, TokenType};

#[test]
fn test_tokenizing_one_token() {
    let mut tokenizer = Scanner::new();
    tokenizer.tokenize_string("+".to_string());
    let variable = tokenizer.tokenize_single_char(0);
    assert_eq!(variable, Some(TokenType::Plus));
}

#[test]
fn tokenize_two_char_token() {
    let mut tokenizer = Scanner::new();
    tokenizer.tokenize_string("!=".to_string());
    let variable = tokenizer.tokenize_two_chars(0);
    println!("{:?}", variable)
}

#[test]
fn tokenize() {
    let mut tokenizer = Scanner::new();
    let variable = tokenizer.tokenize_string("+".to_string());
    let token = Token {
        token_type: TokenType::Plus,
        value: "+".to_string(),
        line: 0,
    };
    assert_eq!(vec![token], variable)
}

#[test]
fn tokenize_two_chars() {
    let mut tokenizer = Scanner::new();
    let variable = tokenizer.tokenize_string("!= ".to_string());
    let token = Token {
        token_type: TokenType::BangEqual,
        value: "!=".to_string(),
        line: 0,
    };
    assert_eq!(vec![token], variable)
}

#[test]
fn get_range() {
    let tokenizer = Scanner::new();
    let chars = vec!['a', 'n', 'd'];
    let string_from_range = tokenizer.get_string_from_char_range(0, 3, &chars);
    assert_eq!("and", string_from_range)
}

#[test]
fn get_range_short() {
    let tokenizer = Scanner::new();
    let chars = vec!['a', 'n', 'd'];
    let string_from_range = tokenizer.get_string_from_char_range(0, 1, &chars);
    assert_eq!("a", string_from_range)
}

#[test]
fn tokenize_and() {
    let mut tokenizer = Scanner::new();
    let variable = tokenizer.tokenize_string(" and ".to_string());
    let token = Token {
        token_type: TokenType::And,
        value: "and".to_string(),
        line: 0,
    };
    assert_eq!(vec![token], variable)
}

#[test]
fn remove_comment() {
    let mut tokenizer = Scanner::new();
    let variable = tokenizer.tokenize_string(" and // lots of text ".to_string());
    let token = Token {
        token_type: TokenType::And,
        value: "and".to_string(),
        line: 0,
    };
    assert_eq!(vec![token], variable)
}

#[test]
fn remove_comment_keep_next() {
    let mut tokenizer = Scanner::new();
    let variable = tokenizer.tokenize_string(
        " and // lots of text
    and"
            .to_string(),
    );
    let token = Token {
        token_type: TokenType::And,
        value: "and".to_string(),
        line: 0,
    };
    let token2 = Token {
        token_type: TokenType::And,
        value: "and".to_string(),
        line: 1,
    };
    assert_eq!(vec![token, token2], variable)
}

#[test]
fn check_correct_line_tokenizing() {
    let mut tokenizer = Scanner::new();
    let variable = tokenizer.tokenize_string(
        " and
    and"
            .to_string(),
    );
    let token = Token {
        token_type: TokenType::And,
        value: "and".to_string(),
        line: 0,
    };
    let token2 = Token {
        token_type: TokenType::And,
        value: "and".to_string(),
        line: 1,
    };
    assert_eq!(vec![token, token2], variable)
}

#[test]
fn handle_example() {
    let mut tokenizer = Scanner::new();
    let variable = tokenizer.tokenize_string("(( )){}".to_string());
    let token1 = Token {
        token_type: TokenType::LeftParen,
        value: "(".to_string(),
        line: 0,
    };
    let token2 = Token {
        token_type: TokenType::LeftParen,
        value: "(".to_string(),
        line: 0,
    };
    let token3 = Token {
        token_type: TokenType::RightParen,
        value: ")".to_string(),
        line: 0,
    };
    let token4 = Token {
        token_type: TokenType::RightParen,
        value: ")".to_string(),
        line: 0,
    };
    let token5 = Token {
        token_type: TokenType::LeftBrace,
        value: "{".to_string(),
        line: 0,
    };
    let token6 = Token {
        token_type: TokenType::RightBrace,
        value: "}".to_string(),
        line: 0,
    };
    assert_eq!(
        vec![token1, token2, token3, token4, token5, token6],
        variable
    )
}

#[test]
fn tokenize_numeric() {
    let mut tokenizer = Scanner::new();
    let variable = tokenizer.tokenize_string(" a 1".to_string());
    let token = Token {
        token_type: TokenType::Identifier,
        value: "a".to_string(),
        line: 0,
    };
    let token2 = Token {
        token_type: TokenType::Number,
        value: "1".to_string(),
        line: 0,
    };
    assert_eq!(vec![token, token2], variable)
}

#[test]
fn tokenize_string_empty() {
    let mut tokenizer = Scanner::new();
    let variable = tokenizer.tokenize_string(" \"hello\"".to_string());
    let token = Token {
        token_type: TokenType::String,
        value: "hello".to_string(),
        line: 0,
    };
    assert_eq!(vec![token], variable)
}

#[test]
fn tokenize_string_multiline() {
    let mut tokenizer = Scanner::new();
    let variable = tokenizer.tokenize_string(
        " \"
    \""
            .to_string(),
    );
    let token = Token {
        token_type: TokenType::String,
        value: "
    "
            .to_string(),
        line: 0,
    };
    assert_eq!(vec![token], variable)
}

#[test]
fn tokenize_string_throws_unterminated_string() {
    let mut tokenizer = Scanner::new();
    let variable = tokenizer.tokenize_string(" \"".to_string());
    assert_eq!(Vec::<Token>::new(), variable)
}

#[test]
fn tokenize_var_declaration() {
    let mut tokenizer = Scanner::new();
    let variable = tokenizer.tokenize_string("var x = 1".to_string());
    let var = Token::new(Var, String::from("var"), 0);
    let x = Token::new(Identifier, String::from("x"), 0);
    let equals = Token::new(Equal, String::from("="), 0);
    let one = Token::new(Number, String::from("1"), 0);
    assert_eq!(vec![var, x, equals, one], variable)
}

#[test]
fn tokenize_scope_declaration() {
    let mut tokenizer = Scanner::new();
    let variable = tokenizer.tokenize_string("var x;\
     { x = 1; }\
     ".to_string());
    let var = Token::new(Var, String::from("var"), 0);
    let x = Token::new(Identifier, String::from("x"), 0);
    let semi = Token::new(Semicolon, String::from(";"), 0);
    let semi2 = Token::new(Semicolon, String::from(";"), 0);
    let brace = Token::new(LeftBrace, String::from("{"), 0);
    let x_assign = Token::new(Identifier, String::from("x"), 0);
    let equals = Token::new(Equal, String::from("="), 0);
    let one = Token::new(Number, String::from("1"), 0);
    let brace2 = Token::new(RightBrace, String::from("}"), 0);
    assert_eq!(vec![var, x, semi, brace, x_assign, equals, one, semi2, brace2], variable)
}

#[test]
fn tokenize_if() {
    let x1 =
        "if (true) {
        var x;
        } else {
        var y;
        }    ";
    let variable = Scanner::new().tokenize_string(x1.to_string());


    let if_tok = Token::new(If, String::from("if"), 0);
    let l = Token::new(LeftParen, String::from("("), 0);
    let boo = Token::new(TokenType::True, String::from("true"), 0);
    let r = Token::new(RightParen, String::from(")"), 0);
    let bracel = Token::new(LeftBrace, String::from("{"), 0);
    let var = Token::new(Var, String::from("var"), 1);
    let x = Token::new(Identifier, String::from("x"), 1);
    let semi = Token::new(Semicolon, String::from(";"), 1);
    let bracer = Token::new(RightBrace, String::from("}"), 2);
    let else_tok = Token::new(Else, String::from("else"), 2);

    let bracel2 = Token::new(LeftBrace, String::from("{"), 2);
    let vary = Token::new(Var, String::from("var"), 3);
    let y = Token::new(Identifier, String::from("y"), 3);
    let sem2 = Token::new(Semicolon, String::from(";"), 3);
    let bracer2 = Token::new(RightBrace, String::from("}"), 4);

    assert_eq!(vec![if_tok, l, boo, r, bracel, var, x, semi, bracer, else_tok, bracel2, vary,
                    y, sem2, bracer2], variable)
}

fn kinds(source: &str) -> Vec<TokenType> {
    Scanner::new()
        .tokenize_string(source.to_string())
        .iter()
        .map(|t| t.token_type)
        .collect()
}

#[test]
fn every_keyword_has_its_kind() {
    assert_eq!(
        kinds("and class else false fun for if nil or print return super this true var while"),
        vec![
            TokenType::And,
            TokenType::Class,
            TokenType::Else,
            TokenType::False,
            TokenType::Fun,
            TokenType::For,
            TokenType::If,
            TokenType::Nil,
            TokenType::Or,
            TokenType::Print,
            TokenType::Return,
            TokenType::Super,
            TokenType::This,
            TokenType::True,
            TokenType::Var,
            TokenType::While,
        ]
    );
}

#[test]
fn every_operator_has_its_kind() {
    assert_eq!(
        kinds("! != = == < <= > >= / * % - + . ,"),
        vec![
            TokenType::Bang,
            TokenType::BangEqual,
            TokenType::Equal,
            TokenType::EqualEqual,
            TokenType::Less,
            TokenType::LessEqual,
            TokenType::Greater,
            TokenType::GreaterEqual,
            TokenType::Slash,
            TokenType::Star,
            TokenType::Percent,
            TokenType::Minus,
            TokenType::Plus,
            TokenType::Dot,
            TokenType::Comma,
        ]
    );
}

#[test]
fn operator_at_the_end_is_the_short_form() {
    assert_eq!(kinds("a ="), vec![TokenType::Identifier, TokenType::Equal]);
    assert_eq!(kinds("a ! b"), vec![TokenType::Identifier, TokenType::Bang, TokenType::Identifier]);
}

#[test]
fn identifier_takes_letters_digits_and_underscores() {
    let tokens = Scanner::new().tokenize_string("_a1b2 x_y 12ab".to_string());
    assert_eq!(tokens[0], Token::new(Identifier, "_a1b2".to_string(), 0));
    assert_eq!(tokens[1], Token::new(Identifier, "x_y".to_string(), 0));
    assert_eq!(tokens[2], Token::new(Number, "12".to_string(), 0));
    assert_eq!(tokens[3], Token::new(Identifier, "ab".to_string(), 0));
    assert_eq!(tokens.len(), 4);
}

#[test]
fn letters_beyond_ascii_are_identifier_characters() {
    let tokens = Scanner::new().tokenize_string("caf\u{e9} = 1".to_string());
    assert_eq!(tokens[0], Token::new(Identifier, "caf\u{e9}".to_string(), 0));
    assert_eq!(tokens.len(), 3);
}

#[test]
fn unknown_characters_are_skipped() {
    assert_eq!(
        kinds("a # b @ ~ c"),
        vec![TokenType::Identifier, TokenType::Identifier, TokenType::Identifier]
    );
}

#[test]
fn a_word_that_only_starts_like_a_keyword_is_an_identifier() {
    assert_eq!(kinds("andy iff eof EOF"), vec![TokenType::Identifier; 4]);
}

#[test]
fn unterminated_string_reports_its_line_and_keeps_earlier_tokens() {
    let mut tokenizer = Scanner::new();
    let tokens = tokenizer.tokenize_string("var x\n= \"abc".to_string());
    assert_eq!(
        tokens,
        vec![
            Token::new(Var, "var".to_string(), 0),
            Token::new(Identifier, "x".to_string(), 0),
            Token::new(Equal, "=".to_string(), 1),
        ]
    );
    assert_eq!(tokenizer.error(), Some(LexError { line: 1 }));
}

#[test]
fn a_complete_scan_reports_no_error() {
    let mut tokenizer = Scanner::new();
    tokenizer.tokenize_string("\"abc\" 1".to_string());
    assert_eq!(tokenizer.error(), None);
}

#[test]
fn escaped_quote_stays_inside_the_string() {
    let tokens = Scanner::new().tokenize_string("\"a\\\"b\" c".to_string());
    assert_eq!(tokens[0], Token::new(TokenType::String, "a\\\"b".to_string(), 0));
    assert_eq!(tokens[1], Token::new(Identifier, "c".to_string(), 0));
    assert_eq!(tokens.len(), 2);
}

#[test]
fn line_feeds_inside_a_string_count_for_later_tokens() {
    let tokens = Scanner::new().tokenize_string("\"a\nb\n\" c".to_string());
    assert_eq!(tokens[0].line, 0);
    assert_eq!(tokens[1], Token::new(Identifier, "c".to_string(), 2));
}

#[test]
fn slash_alone_is_a_token_and_a_comment_ends_at_the_line() {
    let tokens = Scanner::new().tokenize_string("a / b // c / d\ne".to_string());
    assert_eq!(
        tokens.iter().map(|t| t.token_type).collect::<Vec<_>>(),
        vec![
            TokenType::Identifier,
            TokenType::Slash,
            TokenType::Identifier,
            TokenType::Identifier
        ]
    );
    assert_eq!(tokens[3], Token::new(Identifier, "e".to_string(), 1));
}

#[test]
fn and_after_a_comment_is_on_the_next_line() {
    let tokens = Scanner::new().tokenize_string(" and // text\n and".to_string());
    assert_eq!(
        tokens,
        vec![
            Token::new(TokenType::And, "and".to_string(), 0),
            Token::new(TokenType::And, "and".to_string(), 1),
        ]
    );
}

#[test]
fn new_simple_is_on_line_zero() {
    assert_eq!(
        Token::new_simple(TokenType::Plus, "+".to_string()),
        Token::new(TokenType::Plus, "+".to_string(), 0)
    );
}

#[test]
fn tokenize_goes_on_from_the_position() {
    let mut tokenizer = Scanner::new();
    tokenizer.tokenize_string("a b".to_string());
    assert_eq!(tokenizer.tokenize(), Vec::<Token>::new());
    assert_eq!(tokenizer.tokenize_single_char(7), None);
    assert_eq!(tokenizer.tokenize_two_chars(7), None);
}
