use vstd::prelude::*;
use vstd::string::StringExecFns;
use crate::expression::{boxed_expr_views, expr_view, Expression, ExprView};
use crate::grammar::{
    desugar_for, error_at, error_views, expect, is_infix, is_literal, kind_at, line_at,
    parse_arg_list, parse_args, parse_assignment, parse_block, parse_block_rest, parse_body,
    parse_branches,
    parse_call, parse_call_rest, parse_condition, parse_declaration, parse_expression,
    parse_expression_statement, parse_for, parse_for_condition, parse_for_heading,
    parse_for_start, parse_for_step, parse_if, parse_infix, parse_infix_rest, parse_operand,
    parse_primary, parse_print, parse_program, parse_statement, parse_terminated, parse_unary,
    parse_var, parse_while, wrong_token, ForHeading, Parsed, ParseError, ParseErrorKind,
    ParseErrorView,
};
use crate::statement::{
    boxed_stmt_views, maybe_stmt_view, opt_expr_view, opt_stmt_view, stmt_view, Statement,
    StmtView,
};
use crate::progress::declaration_moves_on;
use crate::token::{token_views, Token, TokenType, TokenView};

verus! {

/// A recursive-descent parser over a token stream. Errors are collected
/// and parsing goes on from where it stands.
pub struct Parser {
    tokens: Vec<Token>,
    current: usize,
    size: usize,
    errors: Vec<ParseError>,
}

impl Parser {
    /// The tokens that the parser reads.
    pub closed spec fn stream(&self) -> Seq<TokenView> {
        token_views(self.tokens@)
    }

    /// The position of the next token to read.
    pub closed spec fn position(&self) -> int {
        self.current as int
    }

    /// The errors reported so far, oldest first.
    pub closed spec fn reported(&self) -> Seq<ParseErrorView> {
        error_views(self.errors@)
    }

    /// The number of tokens not yet read.
    pub closed spec fn remaining(&self) -> int {
        self.size - self.current
    }

    /// The parser's invariant: the position lies inside the stream.
    pub closed spec fn wf(&self) -> bool {
        self.size == self.tokens.len() && self.current <= self.size
    }

    /// `after` is `before` once the parse `g` has run: the same tokens, the
    /// position where `g` stopped and the errors that `g` ends with. A parse
    /// never moves backwards.
    pub open spec fn advanced<T>(before: Parser, after: Parser, g: Parsed<T>) -> bool {
        &&& after.wf()
        &&& after.stream() == before.stream()
        &&& after.position() == g.pos
        &&& after.reported() == g.errors
        &&& before.position() <= after.position()
    }

    /// The parser has run the expression parse `g` and returned `res`. An
    /// expression that was built took at least one token.
    pub open spec fn expr_outcome(
        before: Parser,
        after: Parser,
        res: Option<Box<Expression>>,
        g: Parsed<ExprView>,
    ) -> bool {
        &&& Self::advanced(before, after, g)
        &&& opt_expr_view(res) == g.value
        &&& res is Some ==> before.position() < after.position()
    }

    /// The parser has run the statement parse `g` and returned `res`. A
    /// statement that was built took at least one token.
    pub open spec fn stmt_outcome(
        before: Parser,
        after: Parser,
        res: Option<Box<Statement>>,
        g: Parsed<StmtView>,
    ) -> bool {
        &&& Self::advanced(before, after, g)
        &&& maybe_stmt_view(res) == g.value
        &&& res is Some ==> before.position() < after.position()
    }

    /// The views of an argument list that may be missing.
    pub open spec fn list_view(list: Option<Vec<Box<Expression>>>) -> Option<Seq<ExprView>> {
        match list {
            Some(l) => Some(boxed_expr_views(l@)),
            None => None,
        }
    }

    /// A parser at the start of `tokens`, with no error reported.
    pub fn new(tokens: Vec<Token>) -> (p: Parser)
        ensures
            p.wf(),
            p.stream() == token_views(tokens@),
            p.position() == 0,
            p.reported() == Seq::<ParseErrorView>::empty(),
    {
        let i = tokens.len();
        let p = Parser { tokens, current: 0, size: i, errors: Vec::new() };
        assert(p.reported() =~= Seq::<ParseErrorView>::empty());
        p
    }

    /// The errors reported so far, oldest first.
    pub fn errors(&self) -> (errors: &Vec<ParseError>)
        ensures
            error_views(errors@) == self.reported(),
    {
        &self.errors
    }

    fn line_here(&self) -> (line: usize)
        requires
            self.wf(),
        ensures
            line as nat == line_at(self.stream(), self.position()),
    {
        if self.current < self.size {
            self.tokens[self.current].line
        } else if self.size > 0 {
            self.tokens[self.size - 1].line
        } else {
            0
        }
    }

    fn report(&mut self, kind: ParseErrorKind)
        requires
            old(self).wf(),
        ensures
            final(self).wf(),
            final(self).tokens == old(self).tokens,
            final(self).current == old(self).current,
            final(self).size == old(self).size,
            final(self).reported() == old(self).reported().push(
                error_at(old(self).stream(), old(self).position(), kind),
            ),
    {
        let line = self.line_here();
        self.errors.push(ParseError { kind, line });
        assert(self.reported() =~= old(self).reported().push(
            error_at(old(self).stream(), old(self).position(), kind),
        ));
    }

    fn report_wrong_token(&mut self)
        requires
            old(self).wf(),
        ensures
            final(self).wf(),
            final(self).tokens == old(self).tokens,
            final(self).current == old(self).current,
            final(self).size == old(self).size,
            final(self).reported() == old(self).reported().push(
                wrong_token(old(self).stream(), old(self).position()),
            ),
    {
        if self.current < self.size {
            self.report(ParseErrorKind::UnexpectedToken);
        } else {
            self.report(ParseErrorKind::UnexpectedEnd);
        }
    }

    fn get_current(&self) -> (t: &Token)
        requires
            self.wf(),
            self.current < self.size,
        ensures
            t@ == self.stream()[self.position()],
            *t == self.tokens@[self.current as int],
    {
        &self.tokens[self.current]
    }

    fn peek_next(&self, token: TokenType) -> (b: bool)
        requires
            self.wf(),
        ensures
            b == (kind_at(self.stream(), self.position()) == Some(token)),
    {
        self.current < self.size && self.tokens[self.current].token_type == token
    }

    fn advance(&mut self)
        requires
            old(self).wf(),
            old(self).current < old(self).size,
        ensures
            final(self).wf(),
            final(self).tokens == old(self).tokens,
            final(self).errors == old(self).errors,
            final(self).size == old(self).size,
            final(self).current == old(self).current + 1,
    {
        self.current += 1;
    }

    fn consume(&mut self, token: TokenType, missing: ParseErrorKind)
        requires
            old(self).wf(),
        ensures
            Self::advanced(
                *old(self),
                *final(self),
                expect(
                    old(self).stream(),
                    old(self).position(),
                    old(self).reported(),
                    token,
                    missing,
                ),
            ),
            final(self).tokens == old(self).tokens,
            final(self).size == old(self).size,
    {
        if self.peek_next(token) {
            self.advance();
        } else {
            self.report(missing);
        }
    }

    fn is_literal_kind(kind: TokenType) -> (b: bool)
        ensures
            b == is_literal(kind),
    {
        match kind {
            TokenType::False
            | TokenType::True
            | TokenType::Nil
            | TokenType::String
            | TokenType::Number => true,
            _ => false,
        }
    }

    fn is_infix_kind(level: u8, kind: TokenType) -> (b: bool)
        ensures
            b == is_infix(level as nat, kind),
    {
        if level == 0 {
            kind == TokenType::Slash || kind == TokenType::Star || kind == TokenType::Percent
        } else if level == 1 {
            kind == TokenType::Minus || kind == TokenType::Plus
        } else if level == 2 {
            kind == TokenType::Greater || kind == TokenType::GreaterEqual || kind
                == TokenType::Less || kind == TokenType::LessEqual
        } else if level == 3 {
            kind == TokenType::BangEqual || kind == TokenType::EqualEqual
        } else if level == 4 {
            kind == TokenType::And
        } else if level == 5 {
            kind == TokenType::Or
        } else {
            false
        }
    }

    /// primary := literal | `(` expression `)` | any other token, as a name.
    fn primary(&mut self) -> (res: Option<Box<Expression>>)
        requires
            old(self).wf(),
        ensures
            Self::expr_outcome(
                *old(self),
                *final(self),
                res,
                parse_primary(old(self).stream(), old(self).position(), old(self).reported()),
            ),
        decreases old(self).remaining(), 0nat,
    {
        reveal(parse_primary);
        reveal(parse_expression);
        if self.current >= self.size {
            self.report(ParseErrorKind::UnexpectedEnd);
            return None;
        }
        let kind = self.tokens[self.current].token_type;
        if Self::is_literal_kind(kind) {
            let value = self.tokens[self.current].value.clone();
            self.advance();
            Some(Box::new(Expression::LiteralExpr { token_type: kind, value }))
        } else if kind == TokenType::LeftParen {
            self.advance();
            match self.expression() {
                None => None,
                Some(inner) => {
                    self.consume(TokenType::RightParen, ParseErrorKind::UnbalancedParens);
                    Some(Box::new(Expression::GroupingExpr { value: inner }))
                },
            }
        } else {
            let value = self.tokens[self.current].value.clone();
            self.advance();
            Some(Box::new(Expression::VariableExpr { token_type: kind, value }))
        }
    }

    /// The arguments of a call, from the first argument on.
    fn arguments(&mut self) -> (res: Option<Vec<Box<Expression>>>)
        requires
            old(self).wf(),
        ensures
            Self::advanced(
                *old(self),
                *final(self),
                parse_args(
                    old(self).stream(),
                    old(self).position(),
                    old(self).reported(),
                    Seq::empty(),
                ),
            ),
            Self::list_view(res) == parse_args(
                old(self).stream(),
                old(self).position(),
                old(self).reported(),
                Seq::empty(),
            ).value,
        decreases old(self).remaining(), 21nat,
    {
        reveal(parse_args);
        reveal(parse_expression);
        let mut list: Vec<Box<Expression>> = Vec::new();
        let ghost whole = parse_args(
            self.stream(),
            self.position(),
            self.reported(),
            Seq::empty(),
        );
        assert(boxed_expr_views(list@) =~= Seq::<ExprView>::empty());
        loop
            invariant
                self.wf(),
                self.stream() == old(self).stream(),
                old(self).position() <= self.position(),
                self.remaining() <= old(self).remaining(),
                whole == parse_args(
                    old(self).stream(),
                    old(self).position(),
                    old(self).reported(),
                    Seq::empty(),
                ),
                whole == parse_args(
                    self.stream(),
                    self.position(),
                    self.reported(),
                    boxed_expr_views(list@),
                ),
            decreases self.remaining(),
        {
            reveal(parse_args);
            reveal(parse_expression);
            let ghost before = boxed_expr_views(list@);
            let ghost step = parse_expression(self.stream(), self.position(), self.reported());
            match self.expression() {
                None => {
                    return None;
                },
                Some(e) => {
                    list.push(e);
                    proof {
                        assert(boxed_expr_views(list@) =~= before.push(step.value->0));
                    }
                    if self.peek_next(TokenType::Comma) {
                        self.advance();
                    } else {
                        return Some(list);
                    }
                },
            }
        }
    }

    /// `(` arguments? `)`
    fn argument_list(&mut self) -> (res: Option<Vec<Box<Expression>>>)
        requires
            old(self).wf(),
        ensures
            Self::advanced(
                *old(self),
                *final(self),
                parse_arg_list(old(self).stream(), old(self).position(), old(self).reported()),
            ),
            Self::list_view(res) == parse_arg_list(
                old(self).stream(),
                old(self).position(),
                old(self).reported(),
            ).value,
            res is Some ==> old(self).position() < final(self).position(),
        decreases old(self).remaining(), 22nat,
    {
        reveal(parse_arg_list);
        reveal(parse_args);
        if !self.peek_next(TokenType::LeftParen) {
            self.report_wrong_token();
            return None;
        }
        self.advance();
        if self.peek_next(TokenType::RightParen) {
            self.advance();
            let list: Vec<Box<Expression>> = Vec::new();
            assert(boxed_expr_views(list@) =~= Seq::<ExprView>::empty());
            return Some(list);
        }
        match self.arguments() {
            None => None,
            Some(list) => {
                self.consume(TokenType::RightParen, ParseErrorKind::UnbalancedParens);
                Some(list)
            },
        }
    }

    /// call := primary ( `(` arguments? `)` )*
    fn call(&mut self) -> (res: Option<Box<Expression>>)
        requires
            old(self).wf(),
        ensures
            Self::expr_outcome(
                *old(self),
                *final(self),
                res,
                parse_call(old(self).stream(), old(self).position(), old(self).reported()),
            ),
        decreases old(self).remaining(), 3nat,
    {
        reveal(parse_call);
        reveal(parse_call_rest);
        reveal(parse_primary);
        reveal(parse_arg_list);
        let ghost whole = parse_call(self.stream(), self.position(), self.reported());
        let head = self.primary();
        let mut callee = match head {
            None => {
                return None;
            },
            Some(e) => e,
        };
        while self.peek_next(TokenType::LeftParen)
            invariant
                self.wf(),
                self.stream() == old(self).stream(),
                old(self).position() < self.position(),
                self.remaining() < old(self).remaining(),
                whole == parse_call(old(self).stream(), old(self).position(), old(self).reported()),
                whole == parse_call_rest(
                    self.stream(),
                    self.position(),
                    self.reported(),
                    expr_view(*callee),
                ),
            decreases self.remaining(),
        {
            reveal(parse_call);
            reveal(parse_call_rest);
            reveal(parse_primary);
            reveal(parse_arg_list);
            match self.argument_list() {
                None => {
                    return None;
                },
                Some(args) => {
                    let ghost node = ExprView::Call {
                        identifier: Box::new(expr_view(*callee)),
                        args: boxed_expr_views(args@),
                    };
                    callee = Box::new(Expression::Call { identifier: callee, args });
                    proof {
                        assert(expr_view(*callee)->Call_args =~= boxed_expr_views(args@));
                        assert(expr_view(*callee) == node);
                    }
                },
            }
        }
        Some(callee)
    }

    /// unary := ( `!` | `-` ) unary | call
    fn unary(&mut self) -> (res: Option<Box<Expression>>)
        requires
            old(self).wf(),
        ensures
            Self::expr_outcome(
                *old(self),
                *final(self),
                res,
                parse_unary(old(self).stream(), old(self).position(), old(self).reported()),
            ),
        decreases old(self).remaining(), 4nat,
    {
        reveal(parse_unary);
        reveal(parse_call);
        if self.peek_next(TokenType::Bang) || self.peek_next(TokenType::Minus) {
            let token = self.get_current().clone();
            self.advance();
            match self.unary() {
                None => None,
                Some(rhs) => Some(Box::new(Expression::UnaryExpr { token, rhs })),
            }
        } else {
            self.call()
        }
    }

    /// One operand of a precedence level: the next tighter level.
    fn operand(&mut self, level: u8) -> (res: Option<Box<Expression>>)
        requires
            old(self).wf(),
            level <= 5,
        ensures
            Self::expr_outcome(
                *old(self),
                *final(self),
                res,
                parse_operand(old(self).stream(), old(self).position(), old(self).reported(), level as nat),
            ),
        decreases old(self).remaining(), 6 + 2 * (level as nat),
    {
        reveal(parse_operand);
        reveal(parse_unary);
        reveal(parse_infix);
        if level == 0 {
            self.unary()
        } else {
            self.infix(level - 1)
        }
    }

    /// One precedence level of infix operators, left-associative.
    fn infix(&mut self, level: u8) -> (res: Option<Box<Expression>>)
        requires
            old(self).wf(),
            level <= 5,
        ensures
            Self::expr_outcome(
                *old(self),
                *final(self),
                res,
                parse_infix(
                    old(self).stream(),
                    old(self).position(),
                    old(self).reported(),
                    level as nat,
                ),
            ),
        decreases old(self).remaining(), 7 + 2 * (level as nat),
    {
        reveal(parse_infix);
        reveal(parse_infix_rest);
        reveal(parse_operand);
        let ghost whole = parse_infix(
            self.stream(),
            self.position(),
            self.reported(),
            level as nat,
        );
        let first = self.operand(level);
        let mut lhs = match first {
            None => {
                return None;
            },
            Some(e) => e,
        };
        while self.current < self.size && Self::is_infix_kind(
            level,
            self.tokens[self.current].token_type,
        )
            invariant
                self.wf(),
                level <= 5,
                self.stream() == old(self).stream(),
                old(self).position() < self.position(),
                self.remaining() < old(self).remaining(),
                whole == parse_infix(
                    old(self).stream(),
                    old(self).position(),
                    old(self).reported(),
                    level as nat,
                ),
                whole == parse_infix_rest(
                    self.stream(),
                    self.position(),
                    self.reported(),
                    level as nat,
                    expr_view(*lhs),
                ),
            decreases self.remaining(),
        {
            reveal(parse_infix);
            reveal(parse_infix_rest);
            reveal(parse_operand);
            let token = self.get_current().clone();
            self.advance();
            match self.operand(level) {
                None => {
                    return None;
                },
                Some(rhs) => {
                    lhs = if level >= 4 {
                        Box::new(Expression::Logical { token, rhs, lhs })
                    } else {
                        Box::new(Expression::BinaryExpr { token, rhs, lhs })
                    };
                },
            }
        }
        Some(lhs)
    }

    /// factor := unary ( ( `/` | `*` | `%` ) unary )*
    pub fn factor(&mut self) -> (res: Option<Box<Expression>>)
        requires
            old(self).wf(),
        ensures
            Self::expr_outcome(
                *old(self),
                *final(self),
                res,
                parse_infix(old(self).stream(), old(self).position(), old(self).reported(), 0),
            ),
    {
        self.infix(0)
    }

    /// term := factor ( ( `-` | `+` ) factor )*
    pub fn term(&mut self) -> (res: Option<Box<Expression>>)
        requires
            old(self).wf(),
        ensures
            Self::expr_outcome(
                *old(self),
                *final(self),
                res,
                parse_infix(old(self).stream(), old(self).position(), old(self).reported(), 1),
            ),
    {
        self.infix(1)
    }

    /// comparison := term ( ( `>` | `>=` | `<` | `<=` ) term )*
    pub fn comparison(&mut self) -> (res: Option<Box<Expression>>)
        requires
            old(self).wf(),
        ensures
            Self::expr_outcome(
                *old(self),
                *final(self),
                res,
                parse_infix(old(self).stream(), old(self).position(), old(self).reported(), 2),
            ),
    {
        self.infix(2)
    }

    /// equality := comparison ( ( `!=` | `==` ) comparison )*
    pub fn equality(&mut self) -> (res: Option<Box<Expression>>)
        requires
            old(self).wf(),
        ensures
            Self::expr_outcome(
                *old(self),
                *final(self),
                res,
                parse_infix(old(self).stream(), old(self).position(), old(self).reported(), 3),
            ),
    {
        self.infix(3)
    }

    /// logic_and := equality ( `and` equality )*
    pub fn logic_and(&mut self) -> (res: Option<Box<Expression>>)
        requires
            old(self).wf(),
        ensures
            Self::expr_outcome(
                *old(self),
                *final(self),
                res,
                parse_infix(old(self).stream(), old(self).position(), old(self).reported(), 4),
            ),
    {
        self.infix(4)
    }

    /// logic_or := logic_and ( `or` logic_and )*
    pub fn logic_or(&mut self) -> (res: Option<Box<Expression>>)
        requires
            old(self).wf(),
        ensures
            Self::expr_outcome(
                *old(self),
                *final(self),
                res,
                parse_infix(old(self).stream(), old(self).position(), old(self).reported(), 5),
            ),
    {
        self.infix(5)
    }

    /// assignment := logic_or ( `=` assignment )?
    pub fn assignment(&mut self) -> (res: Option<Box<Expression>>)
        requires
            old(self).wf(),
        ensures
            Self::expr_outcome(
                *old(self),
                *final(self),
                res,
                parse_assignment(old(self).stream(), old(self).position(), old(self).reported()),
            ),
        decreases old(self).remaining(), 19nat,
    {
        reveal(parse_assignment);
        reveal(parse_infix);
        let target = match self.infix(5) {
            None => {
                return None;
            },
            Some(e) => e,
        };
        if self.peek_next(TokenType::Equal) {
            self.advance();
            match self.assignment() {
                None => None,
                Some(value) => Some(Box::new(Expression::Assignment { identifier: target, value })),
            }
        } else {
            Some(target)
        }
    }

    /// expression := assignment
    pub fn expression(&mut self) -> (res: Option<Box<Expression>>)
        requires
            old(self).wf(),
        ensures
            Self::expr_outcome(
                *old(self),
                *final(self),
                res,
                parse_expression(old(self).stream(), old(self).position(), old(self).reported()),
            ),
        decreases old(self).remaining(), 20nat,
    {
        reveal(parse_expression);
        reveal(parse_assignment);
        self.assignment()
    }

    /// An expression and the `;` after it.
    fn terminated(&mut self) -> (res: Option<Box<Expression>>)
        requires
            old(self).wf(),
        ensures
            Self::expr_outcome(
                *old(self),
                *final(self),
                res,
                parse_terminated(old(self).stream(), old(self).position(), old(self).reported()),
            ),
        decreases old(self).remaining(), 26nat,
    {
        reveal(parse_terminated);
        reveal(parse_expression);
        match self.expression() {
            None => None,
            Some(e) => {
                self.consume(TokenType::Semicolon, ParseErrorKind::MissingTerminator);
                Some(e)
            },
        }
    }

    /// exprStmt := expression `;`
    pub fn expression_statement(&mut self) -> (res: Option<Box<Statement>>)
        requires
            old(self).wf(),
        ensures
            Self::stmt_outcome(
                *old(self),
                *final(self),
                res,
                parse_expression_statement(old(self).stream(), old(self).position(), old(self).reported()),
            ),
        decreases old(self).remaining(), 27nat,
    {
        reveal(parse_expression_statement);
        reveal(parse_terminated);
        match self.terminated() {
            None => None,
            Some(expr) => Some(Box::new(Statement::Stmt { expr })),
        }
    }

    /// print := `print` expression `;`
    pub fn print_statement(&mut self) -> (res: Option<Box<Statement>>)
        requires
            old(self).wf(),
        ensures
            Self::stmt_outcome(
                *old(self),
                *final(self),
                res,
                parse_print(old(self).stream(), old(self).position(), old(self).reported()),
            ),
        decreases old(self).remaining(), 27nat,
    {
        reveal(parse_print);
        reveal(parse_terminated);
        if !self.peek_next(TokenType::Print) {
            self.report_wrong_token();
            return None;
        }
        self.advance();
        match self.terminated() {
            None => None,
            Some(expr) => Some(Box::new(Statement::PrintStatement { expr })),
        }
    }

    /// block := `{` declaration* `}`
    pub fn block(&mut self) -> (res: Option<Box<Statement>>)
        requires
            old(self).wf(),
        ensures
            Self::stmt_outcome(
                *old(self),
                *final(self),
                res,
                parse_block(old(self).stream(), old(self).position(), old(self).reported()),
            ),
        decreases old(self).remaining(), 27nat,
    {
        reveal(parse_block);
        reveal(parse_block_rest);
        reveal(parse_declaration);
        if !self.peek_next(TokenType::LeftBrace) {
            self.report_wrong_token();
            return None;
        }
        let ghost whole = parse_block(self.stream(), self.position(), self.reported());
        self.advance();
        let mut list: Vec<Box<Statement>> = Vec::new();
        assert(boxed_stmt_views(list@) =~= Seq::<StmtView>::empty());
        while self.current < self.size && self.tokens[self.current].token_type
            != TokenType::RightBrace
            invariant
                self.wf(),
                self.stream() == old(self).stream(),
                old(self).position() < self.position(),
                self.remaining() < old(self).remaining(),
                whole == parse_block(old(self).stream(), old(self).position(), old(self).reported()),
                whole == parse_block_rest(
                    self.stream(),
                    self.position(),
                    self.reported(),
                    boxed_stmt_views(list@),
                ),
            decreases self.remaining(),
        {
            reveal(parse_block);
            reveal(parse_block_rest);
            reveal(parse_declaration);
            if self.tokens[self.current].token_type == TokenType::Semicolon {
                self.advance();
            } else {
                let ghost before = boxed_stmt_views(list@);
                let ghost step = parse_declaration(
                    self.stream(),
                    self.position(),
                    self.reported(),
                );
                match self.declaration() {
                    None => {
                        return None;
                    },
                    Some(s) => {
                        list.push(s);
                        proof {
                            assert(boxed_stmt_views(list@) =~= before.push(step.value->0));
                        }
                    },
                }
            }
        }
        if self.current < self.size {
            self.advance();
        } else {
            self.report(ParseErrorKind::UnexpectedEnd);
        }
        let block = Statement::BlockStatement { statements: list };
        proof {
            assert(stmt_view(block)->Block_statements =~= boxed_stmt_views(list@));
        }
        Some(Box::new(block))
    }

    /// The parenthesised condition after the keyword at the current position.
    fn condition(&mut self) -> (res: Option<Box<Expression>>)
        requires
            old(self).wf(),
            old(self).current < old(self).size,
        ensures
            Self::expr_outcome(
                *old(self),
                *final(self),
                res,
                parse_condition(old(self).stream(), old(self).position(), old(self).reported()),
            ),
        decreases old(self).remaining(), 26nat,
    {
        reveal(parse_condition);
        reveal(parse_expression);
        self.advance();
        self.consume(TokenType::LeftParen, ParseErrorKind::UnexpectedToken);
        match self.expression() {
            None => None,
            Some(e) => {
                self.consume(TokenType::RightParen, ParseErrorKind::UnexpectedToken);
                Some(e)
            },
        }
    }

    /// The body of an `if`: a block, or, reported, another statement.
    fn body(&mut self) -> (res: Option<Box<Statement>>)
        requires
            old(self).wf(),
        ensures
            Self::stmt_outcome(
                *old(self),
                *final(self),
                res,
                parse_body(old(self).stream(), old(self).position(), old(self).reported()),
            ),
        decreases old(self).remaining(), 36nat,
    {
        reveal(parse_body);
        reveal(parse_block);
        reveal(parse_declaration);
        if self.peek_next(TokenType::LeftBrace) {
            self.block()
        } else {
            self.report_wrong_token();
            if self.current >= self.size {
                None
            } else {
                self.declaration()
            }
        }
    }

    /// The branches of an `if` whose condition has been read.
    fn branches(&mut self, expr: Box<Expression>) -> (res: Option<Box<Statement>>)
        requires
            old(self).wf(),
        ensures
            Self::stmt_outcome(
                *old(self),
                *final(self),
                res,
                parse_branches(
                    old(self).stream(),
                    old(self).position(),
                    old(self).reported(),
                    expr_view(*expr),
                ),
            ),
        decreases old(self).remaining(), 40nat,
    {
        reveal(parse_branches);
        reveal(parse_body);
        reveal(parse_block);
        let body = match self.body() {
            None => {
                return None;
            },
            Some(b) => b,
        };
        if self.peek_next(TokenType::Else) && self.current + 1 < self.size
            && self.tokens[self.current + 1].token_type == TokenType::LeftBrace {
            self.advance();
            match self.block() {
                None => None,
                Some(other) => {
                    let else_body = Some(other);
                    assert(opt_stmt_view(else_body) == Some(Box::new(stmt_view(*other))));
                    Some(Box::new(Statement::IfStatement { expr: *expr, body, else_body }))
                },
            }
        } else {
            let else_body: Option<Box<Statement>> = None;
            assert(opt_stmt_view(else_body) is None);
            Some(Box::new(Statement::IfStatement { expr: *expr, body, else_body }))
        }
    }

    /// if := `if` `(` expression `)` body ( `else` block )?
    pub fn if_statement(&mut self) -> (res: Option<Box<Statement>>)
        requires
            old(self).wf(),
        ensures
            Self::stmt_outcome(
                *old(self),
                *final(self),
                res,
                parse_if(old(self).stream(), old(self).position(), old(self).reported()),
            ),
        decreases old(self).remaining(), 27nat,
    {
        reveal(parse_if);
        reveal(parse_condition);
        reveal(parse_branches);
        if !self.peek_next(TokenType::If) {
            self.report_wrong_token();
            return None;
        }
        match self.condition() {
            None => None,
            Some(expr) => self.branches(expr),
        }
    }

    /// while := `while` `(` expression `)` declaration
    fn while_block(&mut self) -> (res: Option<Box<Statement>>)
        requires
            old(self).wf(),
        ensures
            Self::stmt_outcome(
                *old(self),
                *final(self),
                res,
                parse_while(old(self).stream(), old(self).position(), old(self).reported()),
            ),
        decreases old(self).remaining(), 27nat,
    {
        reveal(parse_while);
        reveal(parse_condition);
        reveal(parse_declaration);
        if !self.peek_next(TokenType::While) {
            self.report_wrong_token();
            return None;
        }
        let expr = match self.condition() {
            None => {
                return None;
            },
            Some(e) => e,
        };
        match self.declaration() {
            None => None,
            Some(body) => Some(Box::new(Statement::WhileStatement { expr, body })),
        }
    }

    /// `for` written with `while`.
    fn desugar(heading: ForClauses, body: Box<Statement>) -> (res: Box<Statement>)
        ensures
            stmt_view(*res) == desugar_for(
                heading@.start,
                heading@.condition,
                heading@.step,
                stmt_view(*body),
            ),
    {
        let test = match heading.condition {
            Some(c) => c,
            None => Box::new(
                Expression::LiteralExpr {
                    token_type: TokenType::True,
                    value: String::from_str("true"),
                },
            ),
        };
        let inner = match heading.step {
            Some(s) => {
                let ghost b = stmt_view(*body);
                let ghost sv = expr_view(*s);
                let stepping = Box::new(Statement::Stmt { expr: s });
                assert(stmt_view(*stepping) == StmtView::Stmt { expr: sv });
                let mut both: Vec<Box<Statement>> = Vec::new();
                both.push(body);
                both.push(stepping);
                let block = Statement::BlockStatement { statements: both };
                proof {
                    assert(stmt_view(block)->Block_statements =~= seq![
                        b,
                        StmtView::Stmt { expr: sv },
                    ]);
                }
                Box::new(block)
            },
            None => body,
        };
        let looping = Box::new(Statement::WhileStatement { expr: test, body: inner });
        match heading.start {
            Some(s) => {
                let ghost first = stmt_view(*s);
                let ghost second = stmt_view(*looping);
                let mut both: Vec<Box<Statement>> = Vec::new();
                both.push(s);
                both.push(looping);
                let block = Statement::BlockStatement { statements: both };
                proof {
                    assert(stmt_view(block)->Block_statements =~= seq![first, second]);
                }
                Box::new(block)
            },
            None => looping,
        }
    }

    /// The first clause of a `for`.
    fn for_start(&mut self) -> (res: Option<Option<Box<Statement>>>)
        requires
            old(self).wf(),
        ensures
            Self::advanced(
                *old(self),
                *final(self),
                parse_for_start(old(self).stream(), old(self).position(), old(self).reported()),
            ),
            match res {
                Some(s) => Some(maybe_stmt_view(s)),
                None => None,
            } == parse_for_start(
                old(self).stream(),
                old(self).position(),
                old(self).reported(),
            ).value,
            res is Some ==> old(self).position() < final(self).position(),
        decreases old(self).remaining(), 38nat,
    {
        reveal(parse_for_start);
        reveal(parse_declaration);
        reveal(parse_expression_statement);
        if self.peek_next(TokenType::Semicolon) {
            self.advance();
            return Some(None);
        }
        let first = if self.peek_next(TokenType::Var) {
            self.declaration()
        } else {
            self.expression_statement()
        };
        match first {
            None => None,
            Some(s) => Some(Some(s)),
        }
    }

    /// The second clause of a `for`.
    fn for_condition(&mut self) -> (res: Option<Option<Box<Expression>>>)
        requires
            old(self).wf(),
        ensures
            Self::advanced(
                *old(self),
                *final(self),
                parse_for_condition(
                    old(self).stream(),
                    old(self).position(),
                    old(self).reported(),
                ),
            ),
            match res {
                Some(e) => Some(opt_expr_view(e)),
                None => None,
            } == parse_for_condition(
                old(self).stream(),
                old(self).position(),
                old(self).reported(),
            ).value,
            res is Some ==> old(self).position() < final(self).position(),
        decreases old(self).remaining(), 27nat,
    {
        reveal(parse_for_condition);
        reveal(parse_terminated);
        if self.peek_next(TokenType::Semicolon) {
            self.advance();
            return Some(None);
        }
        match self.terminated() {
            None => None,
            Some(e) => Some(Some(e)),
        }
    }

    /// The third clause of a `for` and the `)` after it.
    fn for_step(&mut self) -> (res: Option<Option<Box<Expression>>>)
        requires
            old(self).wf(),
        ensures
            Self::advanced(
                *old(self),
                *final(self),
                parse_for_step(old(self).stream(), old(self).position(), old(self).reported()),
            ),
            match res {
                Some(e) => Some(opt_expr_view(e)),
                None => None,
            } == parse_for_step(
                old(self).stream(),
                old(self).position(),
                old(self).reported(),
            ).value,
        decreases old(self).remaining(), 27nat,
    {
        reveal(parse_for_step);
        reveal(parse_expression);
        if self.peek_next(TokenType::RightParen) {
            self.advance();
            return Some(None);
        }
        match self.expression() {
            None => None,
            Some(e) => {
                self.consume(TokenType::RightParen, ParseErrorKind::UnexpectedToken);
                Some(Some(e))
            },
        }
    }

    /// The heading of a `for` whose keyword stands at the current position.
    fn for_heading(&mut self) -> (res: Option<ForClauses>)
        requires
            old(self).wf(),
            old(self).current < old(self).size,
        ensures
            Self::advanced(
                *old(self),
                *final(self),
                parse_for_heading(old(self).stream(), old(self).position(), old(self).reported()),
            ),
            match res {
                Some(h) => Some(h@),
                None => None,
            } == parse_for_heading(
                old(self).stream(),
                old(self).position(),
                old(self).reported(),
            ).value,
            res is Some ==> old(self).position() < final(self).position(),
        decreases old(self).remaining(), 32nat,
    {
        reveal(parse_for_heading);
        reveal(parse_for_start);
        reveal(parse_for_condition);
        reveal(parse_for_step);
        self.advance();
        self.consume(TokenType::LeftParen, ParseErrorKind::UnexpectedToken);
        let start = match self.for_start() {
            None => {
                return None;
            },
            Some(s) => s,
        };
        let condition = match self.for_condition() {
            None => {
                return None;
            },
            Some(c) => c,
        };
        match self.for_step() {
            None => None,
            Some(step) => Some(ForClauses { start, condition, step }),
        }
    }

    /// for := `for` `(` start condition step `)` declaration, rewritten with `while`.
    fn for_loop(&mut self) -> (res: Option<Box<Statement>>)
        requires
            old(self).wf(),
        ensures
            Self::stmt_outcome(
                *old(self),
                *final(self),
                res,
                parse_for(old(self).stream(), old(self).position(), old(self).reported()),
            ),
        decreases old(self).remaining(), 33nat,
    {
        reveal(parse_for);
        reveal(parse_for_heading);
        reveal(parse_declaration);
        if !self.peek_next(TokenType::For) {
            self.report_wrong_token();
            return None;
        }
        let heading = match self.for_heading() {
            None => {
                return None;
            },
            Some(h) => h,
        };
        match self.declaration() {
            None => None,
            Some(body) => Some(Self::desugar(heading, body)),
        }
    }

    /// varDecl := `var` name ( `=` expression )? `;`
    fn var_declaration(&mut self) -> (res: Option<Box<Statement>>)
        requires
            old(self).wf(),
        ensures
            Self::stmt_outcome(
                *old(self),
                *final(self),
                res,
                parse_var(old(self).stream(), old(self).position(), old(self).reported()),
            ),
        decreases old(self).remaining(), 27nat,
    {
        reveal(parse_var);
        reveal(parse_terminated);
        if !self.peek_next(TokenType::Var) {
            self.report_wrong_token();
            return None;
        }
        self.advance();
        if self.current >= self.size {
            self.report(ParseErrorKind::UnexpectedEnd);
            return None;
        }
        let kind = self.tokens[self.current].token_type;
        if kind != TokenType::Identifier {
            self.report(ParseErrorKind::UnexpectedToken);
        }
        let value = self.tokens[self.current].value.clone();
        let identifier = Box::new(Expression::VariableExpr { token_type: kind, value });
        self.advance();
        if self.peek_next(TokenType::Equal) {
            self.advance();
            match self.terminated() {
                None => None,
                Some(e) => Some(Box::new(Statement::VarDeclaration { identifier, expr: Some(e) })),
            }
        } else {
            self.consume(TokenType::Semicolon, ParseErrorKind::MissingTerminator);
            Some(Box::new(Statement::VarDeclaration { identifier, expr: None }))
        }
    }

    /// statement := print | if | while | for | block | exprStmt
    pub fn statement_get(&mut self) -> (res: Option<Box<Statement>>)
        requires
            old(self).wf(),
        ensures
            Self::stmt_outcome(
                *old(self),
                *final(self),
                res,
                parse_statement(old(self).stream(), old(self).position(), old(self).reported()),
            ),
        decreases old(self).remaining(), 34nat,
    {
        reveal(parse_statement);
        reveal(parse_print);
        reveal(parse_if);
        reveal(parse_while);
        reveal(parse_for);
        reveal(parse_block);
        reveal(parse_expression_statement);
        if self.current >= self.size {
            return self.expression_statement();
        }
        match self.tokens[self.current].token_type {
            TokenType::Print => self.print_statement(),
            TokenType::If => self.if_statement(),
            TokenType::While => self.while_block(),
            TokenType::For => self.for_loop(),
            TokenType::LeftBrace => self.block(),
            _ => self.expression_statement(),
        }
    }

    /// declaration := varDecl | statement
    pub fn declaration(&mut self) -> (res: Option<Box<Statement>>)
        requires
            old(self).wf(),
        ensures
            Self::stmt_outcome(
                *old(self),
                *final(self),
                res,
                parse_declaration(old(self).stream(), old(self).position(), old(self).reported()),
            ),
        decreases old(self).remaining(), 35nat,
    {
        reveal(parse_declaration);
        reveal(parse_var);
        reveal(parse_statement);
        if self.peek_next(TokenType::Var) {
            self.var_declaration()
        } else {
            self.statement_get()
        }
    }

    /// program := declaration*, up to the end of the tokens or an `EOF`
    /// token.
    pub fn program(&mut self) -> (declarations: Vec<Box<Statement>>)
        requires
            old(self).wf(),
        ensures
            final(self).wf(),
            final(self).stream() == old(self).stream(),
            ({
                let g = parse_program(
                    old(self).stream(),
                    old(self).position(),
                    old(self).reported(),
                    Seq::empty(),
                );
                &&& boxed_stmt_views(declarations@) == g.statements
                &&& final(self).position() == g.pos
                &&& final(self).reported() == g.errors
            }),
    {
        reveal(parse_program);
        reveal(parse_declaration);
        let mut declarations: Vec<Box<Statement>> = Vec::new();
        let ghost whole = parse_program(
            self.stream(),
            self.position(),
            self.reported(),
            Seq::empty(),
        );
        assert(boxed_stmt_views(declarations@) =~= Seq::<StmtView>::empty());
        while self.current < self.size && self.tokens[self.current].token_type != TokenType::EOF
            invariant
                self.wf(),
                self.stream() == old(self).stream(),
                whole == parse_program(
                    old(self).stream(),
                    old(self).position(),
                    old(self).reported(),
                    Seq::empty(),
                ),
                whole == parse_program(
                    self.stream(),
                    self.position(),
                    self.reported(),
                    boxed_stmt_views(declarations@),
                ),
            decreases self.remaining(),
        {
            reveal(parse_program);
            reveal(parse_declaration);
            if self.tokens[self.current].token_type == TokenType::Semicolon {
                self.advance();
            } else {
                let ghost before = boxed_stmt_views(declarations@);
                let ghost step = parse_declaration(
                    self.stream(),
                    self.position(),
                    self.reported(),
                );
                proof {
                    declaration_moves_on(self.stream(), self.position(), self.reported());
                }
                match self.declaration() {
                    Some(s) => {
                        declarations.push(s);
                        proof {
                            assert(boxed_stmt_views(declarations@) =~= before.push(step.value->0));
                        }
                    },
                    None => {},
                }
            }
        }
        proof {
            reveal(parse_program);
        }
        declarations
    }
}

/// The three clauses in the heading of a `for` loop, as parsed.
pub struct ForClauses {
    pub start: Option<Box<Statement>>,
    pub condition: Option<Box<Expression>>,
    pub step: Option<Box<Expression>>,
}

impl View for ForClauses {
    type V = ForHeading;

    open spec fn view(&self) -> ForHeading {
        ForHeading {
            start: maybe_stmt_view(self.start),
            condition: opt_expr_view(self.condition),
            step: opt_expr_view(self.step),
        }
    }
}

} // verus!
