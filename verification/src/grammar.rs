use vstd::prelude::*;
use crate::expression::ExprView;
use crate::statement::StmtView;
use crate::token::{TokenType, TokenView};

verus! {

/// What went wrong at a place in the token stream.
#[derive(Debug, PartialEq, Eq, Structural, Copy, Clone)]
pub enum ParseErrorKind {
    /// A token other than the one the grammar asks for.
    UnexpectedToken,
    /// A `(` without its `)`.
    UnbalancedParens,
    /// A statement without its closing `;`.
    MissingTerminator,
    /// The tokens ended inside an expression or a statement.
    UnexpectedEnd,
}

/// A parse error and the line it was found on.
#[derive(Debug, PartialEq, Eq, Structural, Copy, Clone)]
pub struct ParseError {
    pub kind: ParseErrorKind,
    pub line: usize,
}

/// The mathematical value of a parse error.
pub struct ParseErrorView {
    pub kind: ParseErrorKind,
    pub line: nat,
}

impl View for ParseError {
    type V = ParseErrorView;

    open spec fn view(&self) -> ParseErrorView {
        ParseErrorView { kind: self.kind, line: self.line as nat }
    }
}

/// The views of a sequence of parse errors.
pub open spec fn error_views(errors: Seq<ParseError>) -> Seq<ParseErrorView> {
    errors.map_values(|e: ParseError| e@)
}

/// The outcome of parsing one construct: what was built, if anything, where
/// the parse stopped, and the errors reported up to there, oldest first.
///
/// Where the grammar goes on after a part, it asks that the part stopped
/// after its start and inside the tokens. That always holds: the module
/// `progress` proves it of every construct.
pub struct Parsed<T> {
    pub value: Option<T>,
    pub pos: int,
    pub errors: Seq<ParseErrorView>,
}

/// The kind of the token at `pos`, if there is one.
pub open spec fn kind_at(tokens: Seq<TokenView>, pos: int) -> Option<TokenType> {
    if 0 <= pos < tokens.len() {
        Some(tokens[pos].token_type)
    } else {
        None
    }
}

/// The line to report for `pos`: that of the token there, or of the last
/// token when `pos` is past the end.
pub open spec fn line_at(tokens: Seq<TokenView>, pos: int) -> nat {
    if 0 <= pos < tokens.len() {
        tokens[pos].line
    } else if tokens.len() > 0 {
        tokens.last().line
    } else {
        0
    }
}

/// An error of kind `kind` at `pos`.
pub open spec fn error_at(tokens: Seq<TokenView>, pos: int, kind: ParseErrorKind) -> ParseErrorView {
    ParseErrorView { kind, line: line_at(tokens, pos) }
}

/// A failed parse that stopped at `pos`.
pub open spec fn failed<T>(pos: int, errors: Seq<ParseErrorView>) -> Parsed<T> {
    Parsed { value: None, pos, errors }
}

/// A parse that built `value` and stopped at `pos`.
pub open spec fn built<T>(value: T, pos: int, errors: Seq<ParseErrorView>) -> Parsed<T> {
    Parsed { value: Some(value), pos, errors }
}

/// The error for a token that is not the one asked for: the end of the
/// tokens is reported as such.
pub open spec fn wrong_token(tokens: Seq<TokenView>, pos: int) -> ParseErrorView {
    if 0 <= pos < tokens.len() {
        error_at(tokens, pos, ParseErrorKind::UnexpectedToken)
    } else {
        error_at(tokens, pos, ParseErrorKind::UnexpectedEnd)
    }
}

/// A parse that fails at `pos` because the token there is not the one
/// asked for.
pub open spec fn refused<T>(tokens: Seq<TokenView>, pos: int, errors: Seq<ParseErrorView>) -> Parsed<
    T,
> {
    failed(pos, errors.push(wrong_token(tokens, pos)))
}

/// Takes the token at `pos` if it is of kind `kind`; otherwise stays at
/// `pos` and reports `missing`.
pub open spec fn expect(
    tokens: Seq<TokenView>,
    pos: int,
    errors: Seq<ParseErrorView>,
    kind: TokenType,
    missing: ParseErrorKind,
) -> Parsed<()> {
    if kind_at(tokens, pos) == Some(kind) {
        built((), pos + 1, errors)
    } else {
        built((), pos, errors.push(error_at(tokens, pos, missing)))
    }
}

/// Whether a token kind is a literal.
pub open spec fn is_literal(kind: TokenType) -> bool {
    kind == TokenType::False || kind == TokenType::True || kind == TokenType::Nil || kind
        == TokenType::String || kind == TokenType::Number
}

/// Whether `kind` is an infix operator of the precedence level `level`:
/// 0 for `/ * %`, 1 for `- +`, 2 for the comparisons, 3 for `!= ==`,
/// 4 for `and`, 5 for `or`.
pub open spec fn is_infix(level: nat, kind: TokenType) -> bool {
    if level == 0 {
        kind == TokenType::Slash || kind == TokenType::Star || kind == TokenType::Percent
    } else if level == 1 {
        kind == TokenType::Minus || kind == TokenType::Plus
    } else if level == 2 {
        kind == TokenType::Greater || kind == TokenType::GreaterEqual || kind == TokenType::Less
            || kind == TokenType::LessEqual
    } else if level == 3 {
        kind == TokenType::BangEqual || kind == TokenType::EqualEqual
    } else if level == 4 {
        kind == TokenType::And
    } else if level == 5 {
        kind == TokenType::Or
    } else {
        false
    }
}

/// The node for `lhs op rhs` at a precedence level: a logical node for
/// `and` and `or`, a binary node below them.
pub open spec fn infix_node(level: nat, op: TokenView, lhs: ExprView, rhs: ExprView) -> ExprView {
    if level >= 4 {
        ExprView::Logical { token: op, rhs: Box::new(rhs), lhs: Box::new(lhs) }
    } else {
        ExprView::Binary { token: op, rhs: Box::new(rhs), lhs: Box::new(lhs) }
    }
}

/// primary := literal | `(` expression `)` | any other token, as a name.
#[verifier::opaque]
pub open spec fn parse_primary(
    tokens: Seq<TokenView>,
    pos: int,
    errors: Seq<ParseErrorView>,
) -> Parsed<ExprView>
    decreases tokens.len() - pos, 0nat,
{
    match kind_at(tokens, pos) {
        None => failed(pos, errors.push(error_at(tokens, pos, ParseErrorKind::UnexpectedEnd))),
        Some(kind) => if is_literal(kind) {
            built(ExprView::Literal { token_type: kind, value: tokens[pos].value }, pos + 1, errors)
        } else if kind == TokenType::LeftParen {
            let inner = parse_expression(tokens, pos + 1, errors);
            match inner.value {
                None => inner,
                Some(e) => {
                    let close = expect(
                        tokens,
                        inner.pos,
                        inner.errors,
                        TokenType::RightParen,
                        ParseErrorKind::UnbalancedParens,
                    );
                    built(ExprView::Grouping { value: Box::new(e) }, close.pos, close.errors)
                },
            }
        } else {
            built(ExprView::Variable { token_type: kind, value: tokens[pos].value }, pos + 1, errors)
        },
    }
}

/// arguments := expression ( `,` expression )*, added to `acc`.
#[verifier::opaque]
pub open spec fn parse_args(
    tokens: Seq<TokenView>,
    pos: int,
    errors: Seq<ParseErrorView>,
    acc: Seq<ExprView>,
) -> Parsed<Seq<ExprView>>
    decreases tokens.len() - pos, 21nat,
{
    let first = parse_expression(tokens, pos, errors);
    match first.value {
        None => failed(first.pos, first.errors),
        Some(e) => if kind_at(tokens, first.pos) == Some(TokenType::Comma) && first.pos >= pos {
            parse_args(tokens, first.pos + 1, first.errors, acc.push(e))
        } else {
            built(acc.push(e), first.pos, first.errors)
        },
    }
}

/// The argument list that opens at `pos`: `(` arguments? `)`.
#[verifier::opaque]
pub open spec fn parse_arg_list(
    tokens: Seq<TokenView>,
    pos: int,
    errors: Seq<ParseErrorView>,
) -> Parsed<Seq<ExprView>>
    decreases tokens.len() - pos, 22nat,
{
    if kind_at(tokens, pos) != Some(TokenType::LeftParen) {
        refused(tokens, pos, errors)
    } else if kind_at(tokens, pos + 1) == Some(TokenType::RightParen) {
        built(Seq::empty(), pos + 2, errors)
    } else {
        let args = parse_args(tokens, pos + 1, errors, Seq::empty());
        match args.value {
            None => args,
            Some(list) => {
                let close = expect(
                    tokens,
                    args.pos,
                    args.errors,
                    TokenType::RightParen,
                    ParseErrorKind::UnbalancedParens,
                );
                built(list, close.pos, close.errors)
            },
        }
    }
}

/// The calls that follow `callee`: each argument list wraps what stands
/// before it.
#[verifier::opaque]
pub open spec fn parse_call_rest(
    tokens: Seq<TokenView>,
    pos: int,
    errors: Seq<ParseErrorView>,
    callee: ExprView,
) -> Parsed<ExprView>
    decreases tokens.len() - pos, 23nat,
{
    if kind_at(tokens, pos) == Some(TokenType::LeftParen) {
        let args = parse_arg_list(tokens, pos, errors);
        match args.value {
            None => failed(args.pos, args.errors),
            Some(list) => {
                let node = ExprView::Call { identifier: Box::new(callee), args: list };
                if pos < args.pos <= tokens.len() {
                    parse_call_rest(tokens, args.pos, args.errors, node)
                } else {
                    built(node, args.pos, args.errors)
                }
            },
        }
    } else {
        built(callee, pos, errors)
    }
}

/// call := primary ( `(` arguments? `)` )*
#[verifier::opaque]
pub open spec fn parse_call(
    tokens: Seq<TokenView>,
    pos: int,
    errors: Seq<ParseErrorView>,
) -> Parsed<ExprView>
    decreases tokens.len() - pos, 3nat,
{
    let head = parse_primary(tokens, pos, errors);
    match head.value {
        None => head,
        Some(e) => if pos < head.pos <= tokens.len() {
            parse_call_rest(tokens, head.pos, head.errors, e)
        } else {
            head
        },
    }
}

/// unary := ( `!` | `-` ) unary | call
#[verifier::opaque]
pub open spec fn parse_unary(
    tokens: Seq<TokenView>,
    pos: int,
    errors: Seq<ParseErrorView>,
) -> Parsed<ExprView>
    decreases tokens.len() - pos, 4nat,
{
    if kind_at(tokens, pos) == Some(TokenType::Bang) || kind_at(tokens, pos) == Some(
        TokenType::Minus,
    ) {
        let operand = parse_unary(tokens, pos + 1, errors);
        match operand.value {
            None => operand,
            Some(e) => built(
                ExprView::Unary { token: tokens[pos], rhs: Box::new(e) },
                operand.pos,
                operand.errors,
            ),
        }
    } else {
        parse_call(tokens, pos, errors)
    }
}

/// One operand of the precedence level `level`: the next tighter level.
#[verifier::opaque]
pub open spec fn parse_operand(
    tokens: Seq<TokenView>,
    pos: int,
    errors: Seq<ParseErrorView>,
    level: nat,
) -> Parsed<ExprView>
    decreases tokens.len() - pos, 6 + 2 * level,
{
    if level == 0 {
        parse_unary(tokens, pos, errors)
    } else {
        parse_infix(tokens, pos, errors, (level - 1) as nat)
    }
}

/// The operators of level `level` that follow `lhs`, each with its right
/// operand, folded to the left.
#[verifier::opaque]
pub open spec fn parse_infix_rest(
    tokens: Seq<TokenView>,
    pos: int,
    errors: Seq<ParseErrorView>,
    level: nat,
    lhs: ExprView,
) -> Parsed<ExprView>
    decreases tokens.len() - pos, 5 + 2 * level,
{
    if 0 <= pos < tokens.len() && is_infix(level, tokens[pos].token_type) {
        let operand = parse_operand(tokens, pos + 1, errors, level);
        match operand.value {
            None => operand,
            Some(rhs) => {
                let node = infix_node(level, tokens[pos], lhs, rhs);
                if pos < operand.pos <= tokens.len() {
                    parse_infix_rest(tokens, operand.pos, operand.errors, level, node)
                } else {
                    built(node, operand.pos, operand.errors)
                }
            },
        }
    } else {
        built(lhs, pos, errors)
    }
}

/// level := operand ( operator operand )*, left-associative.
#[verifier::opaque]
pub open spec fn parse_infix(
    tokens: Seq<TokenView>,
    pos: int,
    errors: Seq<ParseErrorView>,
    level: nat,
) -> Parsed<ExprView>
    decreases tokens.len() - pos, 7 + 2 * level,
{
    let first = parse_operand(tokens, pos, errors, level);
    match first.value {
        None => first,
        Some(lhs) => if pos < first.pos <= tokens.len() {
            parse_infix_rest(tokens, first.pos, first.errors, level, lhs)
        } else {
            first
        },
    }
}

/// assignment := logic_or ( `=` assignment )?, right-associative.
#[verifier::opaque]
pub open spec fn parse_assignment(
    tokens: Seq<TokenView>,
    pos: int,
    errors: Seq<ParseErrorView>,
) -> Parsed<ExprView>
    decreases tokens.len() - pos, 19nat,
{
    let target = parse_infix(tokens, pos, errors, 5);
    match target.value {
        None => target,
        Some(lhs) => if kind_at(tokens, target.pos) == Some(TokenType::Equal) && target.pos
            >= pos {
            let value = parse_assignment(tokens, target.pos + 1, target.errors);
            match value.value {
                None => value,
                Some(rhs) => built(
                    ExprView::Assignment { identifier: Box::new(lhs), value: Box::new(rhs) },
                    value.pos,
                    value.errors,
                ),
            }
        } else {
            target
        },
    }
}

/// expression := assignment
#[verifier::opaque]
pub open spec fn parse_expression(
    tokens: Seq<TokenView>,
    pos: int,
    errors: Seq<ParseErrorView>,
) -> Parsed<ExprView>
    decreases tokens.len() - pos, 20nat,
{
    parse_assignment(tokens, pos, errors)
}

/// An expression and the `;` that ends a statement. A missing `;` is
/// reported and parsing goes on from where it stands.
#[verifier::opaque]
pub open spec fn parse_terminated(
    tokens: Seq<TokenView>,
    pos: int,
    errors: Seq<ParseErrorView>,
) -> Parsed<ExprView>
    decreases tokens.len() - pos, 26nat,
{
    let e = parse_expression(tokens, pos, errors);
    match e.value {
        None => e,
        Some(value) => {
            let end = expect(
                tokens,
                e.pos,
                e.errors,
                TokenType::Semicolon,
                ParseErrorKind::MissingTerminator,
            );
            built(value, end.pos, end.errors)
        },
    }
}

/// exprStmt := expression `;`
#[verifier::opaque]
pub open spec fn parse_expression_statement(
    tokens: Seq<TokenView>,
    pos: int,
    errors: Seq<ParseErrorView>,
) -> Parsed<StmtView>
    decreases tokens.len() - pos, 27nat,
{
    let e = parse_terminated(tokens, pos, errors);
    match e.value {
        None => failed(e.pos, e.errors),
        Some(value) => built(StmtView::Stmt { expr: value }, e.pos, e.errors),
    }
}

/// print := `print` expression `;`
#[verifier::opaque]
pub open spec fn parse_print(
    tokens: Seq<TokenView>,
    pos: int,
    errors: Seq<ParseErrorView>,
) -> Parsed<StmtView>
    decreases tokens.len() - pos, 27nat,
{
    if kind_at(tokens, pos) != Some(TokenType::Print) {
        refused(tokens, pos, errors)
    } else {
        let e = parse_terminated(tokens, pos + 1, errors);
        match e.value {
            None => failed(e.pos, e.errors),
            Some(value) => built(StmtView::Print { expr: value }, e.pos, e.errors),
        }
    }
}

/// The statements of a block up to its `}`, added to `acc`. Stray `;` are
/// skipped. A block that the end of the tokens cuts short is kept, with an
/// error.
#[verifier::opaque]
pub open spec fn parse_block_rest(
    tokens: Seq<TokenView>,
    pos: int,
    errors: Seq<ParseErrorView>,
    acc: Seq<StmtView>,
) -> Parsed<StmtView>
    decreases tokens.len() - pos, 37nat,
{
    match kind_at(tokens, pos) {
        None => built(
            StmtView::Block { statements: acc },
            pos,
            errors.push(error_at(tokens, pos, ParseErrorKind::UnexpectedEnd)),
        ),
        Some(kind) => if kind == TokenType::RightBrace {
            built(StmtView::Block { statements: acc }, pos + 1, errors)
        } else if kind == TokenType::Semicolon {
            parse_block_rest(tokens, pos + 1, errors, acc)
        } else {
            let d = parse_declaration(tokens, pos, errors);
            match d.value {
                None => d,
                Some(s) => if pos < d.pos <= tokens.len() {
                    parse_block_rest(tokens, d.pos, d.errors, acc.push(s))
                } else {
                    built(StmtView::Block { statements: acc.push(s) }, d.pos, d.errors)
                },
            }
        },
    }
}

/// block := `{` declaration* `}`
#[verifier::opaque]
pub open spec fn parse_block(
    tokens: Seq<TokenView>,
    pos: int,
    errors: Seq<ParseErrorView>,
) -> Parsed<StmtView>
    decreases tokens.len() - pos, 27nat,
{
    if kind_at(tokens, pos) != Some(TokenType::LeftBrace) {
        refused(tokens, pos, errors)
    } else {
        parse_block_rest(tokens, pos + 1, errors, Seq::empty())
    }
}

/// The parenthesised condition that follows the keyword at `pos`. A missing
/// parenthesis is reported and parsing goes on.
#[verifier::opaque]
pub open spec fn parse_condition(
    tokens: Seq<TokenView>,
    pos: int,
    errors: Seq<ParseErrorView>,
) -> Parsed<ExprView>
    decreases tokens.len() - pos, 26nat,
{
    let open = expect(
        tokens,
        pos + 1,
        errors,
        TokenType::LeftParen,
        ParseErrorKind::UnexpectedToken,
    );
    let e = parse_expression(tokens, open.pos, open.errors);
    match e.value {
        None => e,
        Some(value) => {
            let close = expect(
                tokens,
                e.pos,
                e.errors,
                TokenType::RightParen,
                ParseErrorKind::UnexpectedToken,
            );
            built(value, close.pos, close.errors)
        },
    }
}

/// The body of an `if`: a block. A statement that is no block is reported
/// and taken as the body all the same.
#[verifier::opaque]
pub open spec fn parse_body(
    tokens: Seq<TokenView>,
    pos: int,
    errors: Seq<ParseErrorView>,
) -> Parsed<StmtView>
    decreases tokens.len() - pos, 36nat,
{
    match kind_at(tokens, pos) {
        None => refused(tokens, pos, errors),
        Some(kind) => if kind == TokenType::LeftBrace {
            parse_block(tokens, pos, errors)
        } else {
            parse_declaration(tokens, pos, errors.push(wrong_token(tokens, pos)))
        },
    }
}

/// The branches of an `if` whose condition `cond` has been read: a body,
/// and a block after `else` where `else` and a `{` follow at once.
#[verifier::opaque]
pub open spec fn parse_branches(
    tokens: Seq<TokenView>,
    pos: int,
    errors: Seq<ParseErrorView>,
    cond: ExprView,
) -> Parsed<StmtView>
    decreases tokens.len() - pos, 40nat,
{
    let b = parse_body(tokens, pos, errors);
    match b.value {
        None => b,
        Some(body) => if kind_at(tokens, b.pos) == Some(TokenType::Else) && kind_at(
            tokens,
            b.pos + 1,
        ) == Some(TokenType::LeftBrace) && b.pos >= pos {
            let e = parse_block(tokens, b.pos + 1, b.errors);
            match e.value {
                None => e,
                Some(other) => built(
                    StmtView::If {
                        expr: cond,
                        body: Box::new(body),
                        else_body: Some(Box::new(other)),
                    },
                    e.pos,
                    e.errors,
                ),
            }
        } else {
            built(
                StmtView::If { expr: cond, body: Box::new(body), else_body: None },
                b.pos,
                b.errors,
            )
        },
    }
}

/// if := `if` `(` expression `)` body ( `else` block )?
#[verifier::opaque]
pub open spec fn parse_if(
    tokens: Seq<TokenView>,
    pos: int,
    errors: Seq<ParseErrorView>,
) -> Parsed<StmtView>
    decreases tokens.len() - pos, 27nat,
{
    if kind_at(tokens, pos) != Some(TokenType::If) {
        refused(tokens, pos, errors)
    } else {
        let c = parse_condition(tokens, pos, errors);
        match c.value {
            None => failed(c.pos, c.errors),
            Some(cond) => if pos < c.pos <= tokens.len() {
                parse_branches(tokens, c.pos, c.errors, cond)
            } else {
                failed(c.pos, c.errors)
            },
        }
    }
}

/// while := `while` `(` expression `)` declaration
#[verifier::opaque]
pub open spec fn parse_while(
    tokens: Seq<TokenView>,
    pos: int,
    errors: Seq<ParseErrorView>,
) -> Parsed<StmtView>
    decreases tokens.len() - pos, 27nat,
{
    if kind_at(tokens, pos) != Some(TokenType::While) {
        refused(tokens, pos, errors)
    } else {
        let c = parse_condition(tokens, pos, errors);
        match c.value {
            None => failed(c.pos, c.errors),
            Some(cond) => if pos < c.pos <= tokens.len() {
                let b = parse_declaration(tokens, c.pos, c.errors);
                match b.value {
                    None => b,
                    Some(body) => built(
                        StmtView::While { expr: cond, body: Box::new(body) },
                        b.pos,
                        b.errors,
                    ),
                }
            } else {
                failed(c.pos, c.errors)
            },
        }
    }
}

/// The first clause of a `for`: a declaration, an expression statement, or
/// nothing before the `;`.
#[verifier::opaque]
pub open spec fn parse_for_start(
    tokens: Seq<TokenView>,
    pos: int,
    errors: Seq<ParseErrorView>,
) -> Parsed<Option<StmtView>>
    decreases tokens.len() - pos, 38nat,
{
    if kind_at(tokens, pos) == Some(TokenType::Semicolon) {
        built(None, pos + 1, errors)
    } else {
        let s = if kind_at(tokens, pos) == Some(TokenType::Var) {
            parse_declaration(tokens, pos, errors)
        } else {
            parse_expression_statement(tokens, pos, errors)
        };
        match s.value {
            None => failed(s.pos, s.errors),
            Some(init) => built(Some(init), s.pos, s.errors),
        }
    }
}

/// The second clause of a `for`: a condition and its `;`, or the `;` alone.
#[verifier::opaque]
pub open spec fn parse_for_condition(
    tokens: Seq<TokenView>,
    pos: int,
    errors: Seq<ParseErrorView>,
) -> Parsed<Option<ExprView>>
    decreases tokens.len() - pos, 27nat,
{
    if kind_at(tokens, pos) == Some(TokenType::Semicolon) {
        built(None, pos + 1, errors)
    } else {
        let e = parse_terminated(tokens, pos, errors);
        match e.value {
            None => failed(e.pos, e.errors),
            Some(cond) => built(Some(cond), e.pos, e.errors),
        }
    }
}

/// The third clause of a `for` and the `)` after it: a step, or nothing.
#[verifier::opaque]
pub open spec fn parse_for_step(
    tokens: Seq<TokenView>,
    pos: int,
    errors: Seq<ParseErrorView>,
) -> Parsed<Option<ExprView>>
    decreases tokens.len() - pos, 27nat,
{
    if kind_at(tokens, pos) == Some(TokenType::RightParen) {
        built(None, pos + 1, errors)
    } else {
        let e = parse_expression(tokens, pos, errors);
        match e.value {
            None => failed(e.pos, e.errors),
            Some(step) => {
                let close = expect(
                    tokens,
                    e.pos,
                    e.errors,
                    TokenType::RightParen,
                    ParseErrorKind::UnexpectedToken,
                );
                built(Some(step), close.pos, close.errors)
            },
        }
    }
}

/// The three clauses in the heading of a `for` loop.
pub struct ForHeading {
    pub start: Option<StmtView>,
    pub condition: Option<ExprView>,
    pub step: Option<ExprView>,
}

/// The heading of a `for` whose keyword stands at `pos`:
/// `(` start condition step `)`.
#[verifier::opaque]
pub open spec fn parse_for_heading(
    tokens: Seq<TokenView>,
    pos: int,
    errors: Seq<ParseErrorView>,
) -> Parsed<ForHeading>
    decreases tokens.len() - pos, 32nat,
{
    let open = expect(
        tokens,
        pos + 1,
        errors,
        TokenType::LeftParen,
        ParseErrorKind::UnexpectedToken,
    );
    let start = if open.pos <= tokens.len() {
        parse_for_start(tokens, open.pos, open.errors)
    } else {
        failed(open.pos, open.errors)
    };
    match start.value {
        None => failed(start.pos, start.errors),
        Some(init) => if pos < start.pos <= tokens.len() {
            let cond = parse_for_condition(tokens, start.pos, start.errors);
            match cond.value {
                None => failed(cond.pos, cond.errors),
                Some(test) => if pos < cond.pos <= tokens.len() {
                    let step = parse_for_step(tokens, cond.pos, cond.errors);
                    match step.value {
                        None => failed(step.pos, step.errors),
                        Some(inc) => built(
                            ForHeading { start: init, condition: test, step: inc },
                            step.pos,
                            step.errors,
                        ),
                    }
                } else {
                    failed(cond.pos, cond.errors)
                },
            }
        } else {
            failed(start.pos, start.errors)
        },
    }
}

/// The literal `true` that stands for an omitted loop condition.
pub open spec fn always_true() -> ExprView {
    ExprView::Literal { token_type: TokenType::True, value: "true"@ }
}

/// A `for` loop written with `while`: the start, if any, then a loop on the
/// condition (`true` when omitted) whose body is the original body followed
/// by the step, if any. A start puts the whole into a block of its own.
pub open spec fn desugar_for(
    start: Option<StmtView>,
    condition: Option<ExprView>,
    step: Option<ExprView>,
    body: StmtView,
) -> StmtView {
    let test = match condition {
        Some(c) => c,
        None => always_true(),
    };
    let inner = match step {
        Some(s) => StmtView::Block { statements: seq![body, StmtView::Stmt { expr: s }] },
        None => body,
    };
    let looping = StmtView::While { expr: test, body: Box::new(inner) };
    match start {
        Some(s) => StmtView::Block { statements: seq![s, looping] },
        None => looping,
    }
}

/// for := `for` `(` start condition step `)` declaration, rewritten with
/// `while`.
#[verifier::opaque]
pub open spec fn parse_for(
    tokens: Seq<TokenView>,
    pos: int,
    errors: Seq<ParseErrorView>,
) -> Parsed<StmtView>
    decreases tokens.len() - pos, 33nat,
{
    if kind_at(tokens, pos) != Some(TokenType::For) {
        refused(tokens, pos, errors)
    } else {
        let h = parse_for_heading(tokens, pos, errors);
        match h.value {
            None => failed(h.pos, h.errors),
            Some(heading) => if pos < h.pos <= tokens.len() {
                let b = parse_declaration(tokens, h.pos, h.errors);
                match b.value {
                    None => b,
                    Some(body) => built(
                        desugar_for(heading.start, heading.condition, heading.step, body),
                        b.pos,
                        b.errors,
                    ),
                }
            } else {
                failed(h.pos, h.errors)
            },
        }
    }
}

/// varDecl := `var` name ( `=` expression )? `;`. A name that is no
/// identifier is reported and taken as it stands.
#[verifier::opaque]
pub open spec fn parse_var(
    tokens: Seq<TokenView>,
    pos: int,
    errors: Seq<ParseErrorView>,
) -> Parsed<StmtView>
    decreases tokens.len() - pos, 27nat,
{
    if kind_at(tokens, pos) != Some(TokenType::Var) {
        refused(tokens, pos, errors)
    } else {
        match kind_at(tokens, pos + 1) {
            None => failed(
                pos + 1,
                errors.push(error_at(tokens, pos + 1, ParseErrorKind::UnexpectedEnd)),
            ),
            Some(kind) => {
                let named = if kind == TokenType::Identifier {
                    errors
                } else {
                    errors.push(error_at(tokens, pos + 1, ParseErrorKind::UnexpectedToken))
                };
                let name = ExprView::Variable { token_type: kind, value: tokens[pos + 1].value };
                if kind_at(tokens, pos + 2) == Some(TokenType::Equal) {
                    let e = parse_terminated(tokens, pos + 3, named);
                    match e.value {
                        None => failed(e.pos, e.errors),
                        Some(value) => built(
                            StmtView::VarDeclaration { identifier: name, expr: Some(value) },
                            e.pos,
                            e.errors,
                        ),
                    }
                } else {
                    let end = expect(
                        tokens,
                        pos + 2,
                        named,
                        TokenType::Semicolon,
                        ParseErrorKind::MissingTerminator,
                    );
                    built(
                        StmtView::VarDeclaration { identifier: name, expr: None },
                        end.pos,
                        end.errors,
                    )
                }
            },
        }
    }
}

/// statement := print | if | while | for | block | exprStmt
#[verifier::opaque]
pub open spec fn parse_statement(
    tokens: Seq<TokenView>,
    pos: int,
    errors: Seq<ParseErrorView>,
) -> Parsed<StmtView>
    decreases tokens.len() - pos, 34nat,
{
    match kind_at(tokens, pos) {
        Some(TokenType::Print) => parse_print(tokens, pos, errors),
        Some(TokenType::If) => parse_if(tokens, pos, errors),
        Some(TokenType::While) => parse_while(tokens, pos, errors),
        Some(TokenType::For) => parse_for(tokens, pos, errors),
        Some(TokenType::LeftBrace) => parse_block(tokens, pos, errors),
        _ => parse_expression_statement(tokens, pos, errors),
    }
}

/// declaration := varDecl | statement
#[verifier::opaque]
pub open spec fn parse_declaration(
    tokens: Seq<TokenView>,
    pos: int,
    errors: Seq<ParseErrorView>,
) -> Parsed<StmtView>
    decreases tokens.len() - pos, 35nat,
{
    if kind_at(tokens, pos) == Some(TokenType::Var) {
        parse_var(tokens, pos, errors)
    } else {
        parse_statement(tokens, pos, errors)
    }
}

/// What parsing a whole program yields.
pub struct ParsedProgram {
    pub statements: Seq<StmtView>,
    pub pos: int,
    pub errors: Seq<ParseErrorView>,
}

/// program := declaration*, up to the end of the tokens or an `EOF` token,
/// added to `acc`. Stray `;` are skipped; a declaration that fails adds
/// nothing.
#[verifier::opaque]
pub open spec fn parse_program(
    tokens: Seq<TokenView>,
    pos: int,
    errors: Seq<ParseErrorView>,
    acc: Seq<StmtView>,
) -> ParsedProgram
    decreases tokens.len() - pos, 39nat,
{
    match kind_at(tokens, pos) {
        None => ParsedProgram { statements: acc, pos, errors },
        Some(kind) => if kind == TokenType::EOF {
            ParsedProgram { statements: acc, pos, errors }
        } else if kind == TokenType::Semicolon {
            parse_program(tokens, pos + 1, errors, acc)
        } else {
            let d = parse_declaration(tokens, pos, errors);
            let grown = match d.value {
                Some(s) => acc.push(s),
                None => acc,
            };
            if pos < d.pos <= tokens.len() {
                parse_program(tokens, d.pos, d.errors, grown)
            } else {
                ParsedProgram { statements: grown, pos: d.pos, errors: d.errors }
            }
        },
    }
}

} // verus!
