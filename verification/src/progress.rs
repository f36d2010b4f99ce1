use vstd::prelude::*;
use crate::expression::ExprView;
use crate::grammar::{
    expect, kind_at, parse_arg_list, parse_args, parse_assignment, parse_block, parse_block_rest,
    parse_body,
    parse_branches, parse_call, parse_call_rest, parse_condition, parse_declaration,
    parse_expression, parse_expression_statement, parse_for, parse_for_condition,
    parse_for_heading, parse_for_start, parse_for_step, parse_if, parse_infix, parse_infix_rest,
    parse_operand, parse_primary, parse_print, parse_program, parse_statement, parse_terminated,
    parse_unary, parse_var, parse_while, Parsed, ParseErrorKind, ParseErrorView,
};
use crate::statement::StmtView;
use crate::token::{TokenType, TokenView};

verus! {

/// The parse `r` that started at `pos` stopped at or after `pos`, inside
/// the tokens.
pub open spec fn stays_inside<T>(tokens: Seq<TokenView>, pos: int, r: Parsed<T>) -> bool {
    pos <= r.pos <= tokens.len()
}

/// The parse `r` that started at `pos` stopped inside the tokens and, if
/// there was a token at `pos`, after it.
pub open spec fn moves_on<T>(tokens: Seq<TokenView>, pos: int, r: Parsed<T>) -> bool {
    stays_inside(tokens, pos, r) && (pos < tokens.len() ==> pos < r.pos)
}

/// A primary takes at least one token, if there is one.
pub proof fn primary_moves_on(tokens: Seq<TokenView>, pos: int, errors: Seq<ParseErrorView>)
    requires
        0 <= pos <= tokens.len(),
    ensures
        moves_on(tokens, pos, parse_primary(tokens, pos, errors)),
    decreases tokens.len() - pos, 0nat,
{
    reveal(parse_primary);
    reveal(parse_expression);
    if kind_at(tokens, pos) == Some(TokenType::LeftParen) {
        expression_moves_on(tokens, pos + 1, errors);
    }
}

/// A list of arguments takes at least one token, if there is one.
pub proof fn args_move_on(
    tokens: Seq<TokenView>,
    pos: int,
    errors: Seq<ParseErrorView>,
    acc: Seq<ExprView>,
)
    requires
        0 <= pos <= tokens.len(),
    ensures
        moves_on(tokens, pos, parse_args(tokens, pos, errors, acc)),
    decreases tokens.len() - pos, 21nat,
{
    reveal(parse_args);
    reveal(parse_expression);
    expression_moves_on(tokens, pos, errors);
    let first = parse_expression(tokens, pos, errors);
    if first.value is Some && kind_at(tokens, first.pos) == Some(TokenType::Comma) {
        args_move_on(tokens, first.pos + 1, first.errors, acc.push(first.value->0));
    }
}

/// An argument list stops inside the tokens, and after its `(` if it
/// stands on one.
pub proof fn arg_list_moves_on(tokens: Seq<TokenView>, pos: int, errors: Seq<ParseErrorView>)
    requires
        0 <= pos <= tokens.len(),
    ensures
        stays_inside(tokens, pos, parse_arg_list(tokens, pos, errors)),
        kind_at(tokens, pos) == Some(TokenType::LeftParen) ==> pos < parse_arg_list(
            tokens,
            pos,
            errors,
        ).pos,
    decreases tokens.len() - pos, 22nat,
{
    reveal(parse_arg_list);
    reveal(parse_args);
    if kind_at(tokens, pos) == Some(TokenType::LeftParen) && kind_at(tokens, pos + 1) != Some(
        TokenType::RightParen,
    ) {
        args_move_on(tokens, pos + 1, errors, Seq::empty());
    }
}

/// The calls after a callee stop inside the tokens.
pub proof fn call_rest_stays_inside(
    tokens: Seq<TokenView>,
    pos: int,
    errors: Seq<ParseErrorView>,
    callee: ExprView,
)
    requires
        0 <= pos <= tokens.len(),
    ensures
        stays_inside(tokens, pos, parse_call_rest(tokens, pos, errors, callee)),
    decreases tokens.len() - pos, 23nat,
{
    reveal(parse_call_rest);
    reveal(parse_arg_list);
    if kind_at(tokens, pos) == Some(TokenType::LeftParen) {
        arg_list_moves_on(tokens, pos, errors);
        let args = parse_arg_list(tokens, pos, errors);
        if args.value is Some {
            call_rest_stays_inside(
                tokens,
                args.pos,
                args.errors,
                ExprView::Call { identifier: Box::new(callee), args: args.value->0 },
            );
        }
    }
}

/// A call takes at least one token, if there is one.
pub proof fn call_moves_on(tokens: Seq<TokenView>, pos: int, errors: Seq<ParseErrorView>)
    requires
        0 <= pos <= tokens.len(),
    ensures
        moves_on(tokens, pos, parse_call(tokens, pos, errors)),
    decreases tokens.len() - pos, 3nat,
{
    reveal(parse_call);
    reveal(parse_primary);
    reveal(parse_call_rest);
    primary_moves_on(tokens, pos, errors);
    let head = parse_primary(tokens, pos, errors);
    if head.value is Some && pos < head.pos {
        call_rest_stays_inside(tokens, head.pos, head.errors, head.value->0);
    }
}

/// A unary expression takes at least one token, if there is one.
pub proof fn unary_moves_on(tokens: Seq<TokenView>, pos: int, errors: Seq<ParseErrorView>)
    requires
        0 <= pos <= tokens.len(),
    ensures
        moves_on(tokens, pos, parse_unary(tokens, pos, errors)),
    decreases tokens.len() - pos, 4nat,
{
    reveal(parse_unary);
    reveal(parse_call);
    if kind_at(tokens, pos) == Some(TokenType::Bang) || kind_at(tokens, pos) == Some(
        TokenType::Minus,
    ) {
        unary_moves_on(tokens, pos + 1, errors);
    } else {
        call_moves_on(tokens, pos, errors);
    }
}

/// An operand takes at least one token, if there is one.
pub proof fn operand_moves_on(
    tokens: Seq<TokenView>,
    pos: int,
    errors: Seq<ParseErrorView>,
    level: nat,
)
    requires
        0 <= pos <= tokens.len(),
    ensures
        moves_on(tokens, pos, parse_operand(tokens, pos, errors, level)),
    decreases tokens.len() - pos, 6 + 2 * level,
{
    reveal(parse_operand);
    reveal(parse_unary);
    reveal(parse_infix);
    if level == 0 {
        unary_moves_on(tokens, pos, errors);
    } else {
        infix_moves_on(tokens, pos, errors, (level - 1) as nat);
    }
}

/// The operators after a left operand stop inside the tokens.
pub proof fn infix_rest_stays_inside(
    tokens: Seq<TokenView>,
    pos: int,
    errors: Seq<ParseErrorView>,
    level: nat,
    lhs: ExprView,
)
    requires
        0 <= pos <= tokens.len(),
    ensures
        stays_inside(tokens, pos, parse_infix_rest(tokens, pos, errors, level, lhs)),
    decreases tokens.len() - pos, 5 + 2 * level,
{
    reveal(parse_infix_rest);
    reveal(parse_operand);
    if pos < tokens.len() && crate::grammar::is_infix(level, tokens[pos].token_type) {
        operand_moves_on(tokens, pos + 1, errors, level);
        let operand = parse_operand(tokens, pos + 1, errors, level);
        if operand.value is Some {
            infix_rest_stays_inside(
                tokens,
                operand.pos,
                operand.errors,
                level,
                crate::grammar::infix_node(level, tokens[pos], lhs, operand.value->0),
            );
        }
    }
}

/// A level of infix operators takes at least one token, if there is one.
pub proof fn infix_moves_on(tokens: Seq<TokenView>, pos: int, errors: Seq<ParseErrorView>, level: nat)
    requires
        0 <= pos <= tokens.len(),
    ensures
        moves_on(tokens, pos, parse_infix(tokens, pos, errors, level)),
    decreases tokens.len() - pos, 7 + 2 * level,
{
    reveal(parse_infix);
    reveal(parse_operand);
    reveal(parse_infix_rest);
    operand_moves_on(tokens, pos, errors, level);
    let first = parse_operand(tokens, pos, errors, level);
    if first.value is Some && pos < first.pos {
        infix_rest_stays_inside(tokens, first.pos, first.errors, level, first.value->0);
    }
}

/// An assignment takes at least one token, if there is one.
pub proof fn assignment_moves_on(tokens: Seq<TokenView>, pos: int, errors: Seq<ParseErrorView>)
    requires
        0 <= pos <= tokens.len(),
    ensures
        moves_on(tokens, pos, parse_assignment(tokens, pos, errors)),
    decreases tokens.len() - pos, 19nat,
{
    reveal(parse_assignment);
    reveal(parse_infix);
    infix_moves_on(tokens, pos, errors, 5);
    let target = parse_infix(tokens, pos, errors, 5);
    if target.value is Some && kind_at(tokens, target.pos) == Some(TokenType::Equal) {
        assignment_moves_on(tokens, target.pos + 1, target.errors);
    }
}

/// An expression takes at least one token, if there is one.
pub proof fn expression_moves_on(tokens: Seq<TokenView>, pos: int, errors: Seq<ParseErrorView>)
    requires
        0 <= pos <= tokens.len(),
    ensures
        moves_on(tokens, pos, parse_expression(tokens, pos, errors)),
    decreases tokens.len() - pos, 20nat,
{
    reveal(parse_expression);
    reveal(parse_assignment);
    assignment_moves_on(tokens, pos, errors);
}

/// An expression with its `;` takes at least one token, if there is one.
pub proof fn terminated_moves_on(tokens: Seq<TokenView>, pos: int, errors: Seq<ParseErrorView>)
    requires
        0 <= pos <= tokens.len(),
    ensures
        moves_on(tokens, pos, parse_terminated(tokens, pos, errors)),
    decreases tokens.len() - pos, 26nat,
{
    reveal(parse_terminated);
    reveal(parse_expression);
    expression_moves_on(tokens, pos, errors);
}

/// An expression statement takes at least one token, if there is one.
pub proof fn expression_statement_moves_on(
    tokens: Seq<TokenView>,
    pos: int,
    errors: Seq<ParseErrorView>,
)
    requires
        0 <= pos <= tokens.len(),
    ensures
        moves_on(tokens, pos, parse_expression_statement(tokens, pos, errors)),
    decreases tokens.len() - pos, 27nat,
{
    reveal(parse_expression_statement);
    reveal(parse_terminated);
    terminated_moves_on(tokens, pos, errors);
}

/// A print statement stops inside the tokens, and after its keyword if it
/// stands on it.
pub proof fn print_moves_on(tokens: Seq<TokenView>, pos: int, errors: Seq<ParseErrorView>)
    requires
        0 <= pos <= tokens.len(),
    ensures
        stays_inside(tokens, pos, parse_print(tokens, pos, errors)),
        kind_at(tokens, pos) == Some(TokenType::Print) ==> pos < parse_print(tokens, pos, errors).pos,
    decreases tokens.len() - pos, 27nat,
{
    reveal(parse_print);
    reveal(parse_terminated);
    if kind_at(tokens, pos) == Some(TokenType::Print) {
        terminated_moves_on(tokens, pos + 1, errors);
    }
}

/// The statements of a block take at least one token, if there is one.
pub proof fn block_rest_moves_on(
    tokens: Seq<TokenView>,
    pos: int,
    errors: Seq<ParseErrorView>,
    acc: Seq<StmtView>,
)
    requires
        0 <= pos <= tokens.len(),
    ensures
        moves_on(tokens, pos, parse_block_rest(tokens, pos, errors, acc)),
    decreases tokens.len() - pos, 37nat,
{
    reveal(parse_block_rest);
    reveal(parse_declaration);
    match kind_at(tokens, pos) {
        None => {},
        Some(kind) => {
            if kind == TokenType::RightBrace {
            } else if kind == TokenType::Semicolon {
                block_rest_moves_on(tokens, pos + 1, errors, acc);
            } else {
                declaration_moves_on(tokens, pos, errors);
                let d = parse_declaration(tokens, pos, errors);
                if d.value is Some {
                    block_rest_moves_on(tokens, d.pos, d.errors, acc.push(d.value->0));
                }
            }
        },
    }
}

/// A block stops inside the tokens, and after its `{` if it stands on one.
pub proof fn block_moves_on(tokens: Seq<TokenView>, pos: int, errors: Seq<ParseErrorView>)
    requires
        0 <= pos <= tokens.len(),
    ensures
        stays_inside(tokens, pos, parse_block(tokens, pos, errors)),
        kind_at(tokens, pos) == Some(TokenType::LeftBrace) ==> pos < parse_block(
            tokens,
            pos,
            errors,
        ).pos,
    decreases tokens.len() - pos, 27nat,
{
    reveal(parse_block);
    reveal(parse_block_rest);
    if kind_at(tokens, pos) == Some(TokenType::LeftBrace) {
        block_rest_moves_on(tokens, pos + 1, errors, Seq::empty());
    }
}

/// A condition stops inside the tokens, after the keyword before it.
pub proof fn condition_moves_on(tokens: Seq<TokenView>, pos: int, errors: Seq<ParseErrorView>)
    requires
        0 <= pos < tokens.len(),
    ensures
        stays_inside(tokens, pos, parse_condition(tokens, pos, errors)),
        pos < parse_condition(tokens, pos, errors).pos,
    decreases tokens.len() - pos, 26nat,
{
    reveal(parse_condition);
    reveal(parse_expression);
    let open = expect(
        tokens,
        pos + 1,
        errors,
        TokenType::LeftParen,
        ParseErrorKind::UnexpectedToken,
    );
    expression_moves_on(tokens, open.pos, open.errors);
}

/// The body of an `if` takes at least one token, if there is one.
pub proof fn body_moves_on(tokens: Seq<TokenView>, pos: int, errors: Seq<ParseErrorView>)
    requires
        0 <= pos <= tokens.len(),
    ensures
        moves_on(tokens, pos, parse_body(tokens, pos, errors)),
    decreases tokens.len() - pos, 36nat,
{
    reveal(parse_body);
    reveal(parse_block);
    reveal(parse_declaration);
    match kind_at(tokens, pos) {
        None => {},
        Some(kind) => {
            if kind == TokenType::LeftBrace {
                block_moves_on(tokens, pos, errors);
            } else {
                declaration_moves_on(
                    tokens,
                    pos,
                    errors.push(crate::grammar::wrong_token(tokens, pos)),
                );
            }
        },
    }
}

/// The branches of an `if` take at least one token, if there is one.
pub proof fn branches_move_on(
    tokens: Seq<TokenView>,
    pos: int,
    errors: Seq<ParseErrorView>,
    cond: ExprView,
)
    requires
        0 <= pos <= tokens.len(),
    ensures
        moves_on(tokens, pos, parse_branches(tokens, pos, errors, cond)),
    decreases tokens.len() - pos, 40nat,
{
    reveal(parse_branches);
    reveal(parse_body);
    reveal(parse_block);
    body_moves_on(tokens, pos, errors);
    let b = parse_body(tokens, pos, errors);
    if b.value is Some && kind_at(tokens, b.pos) == Some(TokenType::Else) {
        block_moves_on(tokens, b.pos + 1, b.errors);
    }
}

/// An `if` stops inside the tokens, and after its keyword if it stands on
/// it.
pub proof fn if_moves_on(tokens: Seq<TokenView>, pos: int, errors: Seq<ParseErrorView>)
    requires
        0 <= pos <= tokens.len(),
    ensures
        stays_inside(tokens, pos, parse_if(tokens, pos, errors)),
        kind_at(tokens, pos) == Some(TokenType::If) ==> pos < parse_if(tokens, pos, errors).pos,
    decreases tokens.len() - pos, 27nat,
{
    reveal(parse_if);
    reveal(parse_condition);
    reveal(parse_branches);
    if kind_at(tokens, pos) == Some(TokenType::If) {
        condition_moves_on(tokens, pos, errors);
        let c = parse_condition(tokens, pos, errors);
        if c.value is Some {
            branches_move_on(tokens, c.pos, c.errors, c.value->0);
        }
    }
}

/// A `while` stops inside the tokens, and after its keyword if it stands
/// on it.
pub proof fn while_moves_on(tokens: Seq<TokenView>, pos: int, errors: Seq<ParseErrorView>)
    requires
        0 <= pos <= tokens.len(),
    ensures
        stays_inside(tokens, pos, parse_while(tokens, pos, errors)),
        kind_at(tokens, pos) == Some(TokenType::While) ==> pos < parse_while(tokens, pos, errors).pos,
    decreases tokens.len() - pos, 27nat,
{
    reveal(parse_while);
    reveal(parse_condition);
    reveal(parse_declaration);
    if kind_at(tokens, pos) == Some(TokenType::While) {
        condition_moves_on(tokens, pos, errors);
        let c = parse_condition(tokens, pos, errors);
        if c.value is Some {
            declaration_moves_on(tokens, c.pos, c.errors);
        }
    }
}

/// The first clause of a `for` takes at least one token, if there is one.
pub proof fn for_start_moves_on(tokens: Seq<TokenView>, pos: int, errors: Seq<ParseErrorView>)
    requires
        0 <= pos <= tokens.len(),
    ensures
        moves_on(tokens, pos, parse_for_start(tokens, pos, errors)),
    decreases tokens.len() - pos, 38nat,
{
    reveal(parse_for_start);
    reveal(parse_declaration);
    reveal(parse_expression_statement);
    if kind_at(tokens, pos) == Some(TokenType::Semicolon) {
    } else if kind_at(tokens, pos) == Some(TokenType::Var) {
        declaration_moves_on(tokens, pos, errors);
    } else {
        expression_statement_moves_on(tokens, pos, errors);
    }
}

/// The second clause of a `for` takes at least one token, if there is
/// one.
pub proof fn for_condition_moves_on(tokens: Seq<TokenView>, pos: int, errors: Seq<ParseErrorView>)
    requires
        0 <= pos <= tokens.len(),
    ensures
        moves_on(tokens, pos, parse_for_condition(tokens, pos, errors)),
    decreases tokens.len() - pos, 27nat,
{
    reveal(parse_for_condition);
    reveal(parse_terminated);
    if kind_at(tokens, pos) != Some(TokenType::Semicolon) {
        terminated_moves_on(tokens, pos, errors);
    }
}

/// The third clause of a `for` takes at least one token, if there is one.
pub proof fn for_step_moves_on(tokens: Seq<TokenView>, pos: int, errors: Seq<ParseErrorView>)
    requires
        0 <= pos <= tokens.len(),
    ensures
        moves_on(tokens, pos, parse_for_step(tokens, pos, errors)),
    decreases tokens.len() - pos, 27nat,
{
    reveal(parse_for_step);
    reveal(parse_expression);
    if kind_at(tokens, pos) != Some(TokenType::RightParen) {
        expression_moves_on(tokens, pos, errors);
    }
}

/// The heading of a `for` stops inside the tokens, after its keyword.
pub proof fn for_heading_moves_on(tokens: Seq<TokenView>, pos: int, errors: Seq<ParseErrorView>)
    requires
        0 <= pos < tokens.len(),
    ensures
        stays_inside(tokens, pos, parse_for_heading(tokens, pos, errors)),
        pos < parse_for_heading(tokens, pos, errors).pos,
    decreases tokens.len() - pos, 32nat,
{
    reveal(parse_for_heading);
    reveal(parse_for_start);
    reveal(parse_for_condition);
    reveal(parse_for_step);
    let open = expect(
        tokens,
        pos + 1,
        errors,
        TokenType::LeftParen,
        ParseErrorKind::UnexpectedToken,
    );
    for_start_moves_on(tokens, open.pos, open.errors);
    let start = parse_for_start(tokens, open.pos, open.errors);
    if start.value is Some {
        for_condition_moves_on(tokens, start.pos, start.errors);
        let cond = parse_for_condition(tokens, start.pos, start.errors);
        if cond.value is Some {
            for_step_moves_on(tokens, cond.pos, cond.errors);
        }
    }
}

/// A `for` stops inside the tokens, and after its keyword if it stands on
/// it.
pub proof fn for_moves_on(tokens: Seq<TokenView>, pos: int, errors: Seq<ParseErrorView>)
    requires
        0 <= pos <= tokens.len(),
    ensures
        stays_inside(tokens, pos, parse_for(tokens, pos, errors)),
        kind_at(tokens, pos) == Some(TokenType::For) ==> pos < parse_for(tokens, pos, errors).pos,
    decreases tokens.len() - pos, 33nat,
{
    reveal(parse_for);
    reveal(parse_for_heading);
    reveal(parse_declaration);
    if kind_at(tokens, pos) == Some(TokenType::For) {
        for_heading_moves_on(tokens, pos, errors);
        let h = parse_for_heading(tokens, pos, errors);
        if h.value is Some {
            declaration_moves_on(tokens, h.pos, h.errors);
        }
    }
}

/// A variable declaration stops inside the tokens, and after its keyword
/// if it stands on it.
pub proof fn var_moves_on(tokens: Seq<TokenView>, pos: int, errors: Seq<ParseErrorView>)
    requires
        0 <= pos <= tokens.len(),
    ensures
        stays_inside(tokens, pos, parse_var(tokens, pos, errors)),
        kind_at(tokens, pos) == Some(TokenType::Var) ==> pos < parse_var(tokens, pos, errors).pos,
    decreases tokens.len() - pos, 27nat,
{
    reveal(parse_var);
    reveal(parse_terminated);
    if kind_at(tokens, pos) == Some(TokenType::Var) {
        match kind_at(tokens, pos + 1) {
            None => {},
            Some(kind) => {
                let named = if kind == TokenType::Identifier {
                    errors
                } else {
                    errors.push(
                        crate::grammar::error_at(tokens, pos + 1, ParseErrorKind::UnexpectedToken),
                    )
                };
                if kind_at(tokens, pos + 2) == Some(TokenType::Equal) {
                    terminated_moves_on(tokens, pos + 3, named);
                }
            },
        }
    }
}

/// A statement takes at least one token, if there is one.
pub proof fn statement_moves_on(tokens: Seq<TokenView>, pos: int, errors: Seq<ParseErrorView>)
    requires
        0 <= pos <= tokens.len(),
    ensures
        moves_on(tokens, pos, parse_statement(tokens, pos, errors)),
    decreases tokens.len() - pos, 34nat,
{
    reveal(parse_statement);
    reveal(parse_print);
    reveal(parse_if);
    reveal(parse_while);
    reveal(parse_for);
    reveal(parse_block);
    reveal(parse_expression_statement);
    match kind_at(tokens, pos) {
        Some(TokenType::Print) => {
            print_moves_on(tokens, pos, errors);
        },
        Some(TokenType::If) => {
            if_moves_on(tokens, pos, errors);
        },
        Some(TokenType::While) => {
            while_moves_on(tokens, pos, errors);
        },
        Some(TokenType::For) => {
            for_moves_on(tokens, pos, errors);
        },
        Some(TokenType::LeftBrace) => {
            block_moves_on(tokens, pos, errors);
        },
        _ => {
            expression_statement_moves_on(tokens, pos, errors);
        },
    }
}

/// A declaration takes at least one token, if there is one.
pub proof fn declaration_moves_on(tokens: Seq<TokenView>, pos: int, errors: Seq<ParseErrorView>)
    requires
        0 <= pos <= tokens.len(),
    ensures
        moves_on(tokens, pos, parse_declaration(tokens, pos, errors)),
    decreases tokens.len() - pos, 35nat,
{
    reveal(parse_declaration);
    reveal(parse_var);
    reveal(parse_statement);
    if kind_at(tokens, pos) == Some(TokenType::Var) {
        var_moves_on(tokens, pos, errors);
    } else {
        statement_moves_on(tokens, pos, errors);
    }
}

/// A program is read to the end: parsing stops only where the tokens end
/// or where an `EOF` token stands.
pub proof fn program_is_read_to_the_end(
    tokens: Seq<TokenView>,
    pos: int,
    errors: Seq<ParseErrorView>,
    acc: Seq<StmtView>,
)
    requires
        0 <= pos <= tokens.len(),
    ensures
        ({
            let end = parse_program(tokens, pos, errors, acc).pos;
            pos <= end <= tokens.len() && (end == tokens.len() || kind_at(tokens, end) == Some(
                TokenType::EOF,
            ))
        }),
    decreases tokens.len() - pos, 39nat,
{
    reveal(parse_program);
    reveal(parse_declaration);
    match kind_at(tokens, pos) {
        None => {},
        Some(kind) => {
            if kind == TokenType::EOF {
            } else if kind == TokenType::Semicolon {
                program_is_read_to_the_end(tokens, pos + 1, errors, acc);
            } else {
                declaration_moves_on(tokens, pos, errors);
                let d = parse_declaration(tokens, pos, errors);
                let grown = match d.value {
                    Some(s) => acc.push(s),
                    None => acc,
                };
                program_is_read_to_the_end(tokens, d.pos, d.errors, grown);
            }
        },
    }
}

} // verus!
