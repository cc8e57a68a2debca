//! The grammar of the `sim2` language, written from the program to its
//! tokens, and the proof that the parser is its inverse.
//!
//! `statement_tokens` writes a statement out as the sequence of tokens that
//! the grammar gives it. The parser accepts exactly these sequences and
//! yields the statement that was written: `lemma_parse_statement_sound` and
//! `lemma_parse_statement_complete` for statements, `lemma_parse_program`
//! for whole programs.

use vstd::prelude::*;
use crate::compiler::{
    behind, parse_arithmetic, parse_block, parse_condition, parse_expression, parse_identifier,
    parse_ifthen, parse_program, parse_statement, CompilerError,
};
use crate::program::{
    Action, ArithmeticOp, ArithmeticView, ConditionOp, ConditionView, Direction, ExpressionView, IdentifierView,
    SpecialIdentifier, StatementView,
};
use crate::token::TokenView;

verus! {

/// The token that names a direction.
pub open spec fn direction_token(dir: Direction) -> TokenView {
    match dir {
        Direction::N => TokenView::DirN,
        Direction::NE => TokenView::DirNE,
        Direction::E => TokenView::DirE,
        Direction::SE => TokenView::DirSE,
        Direction::S => TokenView::DirS,
        Direction::SW => TokenView::DirSW,
        Direction::W => TokenView::DirW,
        Direction::NW => TokenView::DirNW,
    }
}

/// The token that denotes an identifier.
pub open spec fn identifier_token(identifier: IdentifierView) -> TokenView {
    match identifier {
        IdentifierView::Variable(key) => TokenView::Id(key),
        IdentifierView::Constant(value) => TokenView::Int(value),
        IdentifierView::Special(SpecialIdentifier::DailyRest) => TokenView::IdRest,
        IdentifierView::Special(SpecialIdentifier::Energy) => TokenView::IdEnergy,
        IdentifierView::Special(SpecialIdentifier::Rand) => TokenView::Rand,
    }
}

/// The token that names a comparison.
pub open spec fn condition_op_token(op: ConditionOp) -> TokenView {
    match op {
        ConditionOp::Lt => TokenView::Lt,
        ConditionOp::Gt => TokenView::Gt,
        ConditionOp::Eq => TokenView::TwoEq,
    }
}

/// The token that names an arithmetic operation.
pub open spec fn arithmetic_op_token(op: ArithmeticOp) -> TokenView {
    match op {
        ArithmeticOp::Add => TokenView::Add,
        ArithmeticOp::Sub => TokenView::Sub,
    }
}

/// `( a op b )`
pub open spec fn condition_tokens(condition: ConditionView) -> Seq<TokenView> {
    seq![
        TokenView::Lpar,
        identifier_token(condition.a),
        condition_op_token(condition.op),
        identifier_token(condition.b),
        TokenView::Rpar,
    ]
}

/// `add a b` or `sub a b`
pub open spec fn arithmetic_tokens(arithmetic: ArithmeticView) -> Seq<TokenView> {
    seq![arithmetic_op_token(arithmetic.op), identifier_token(arithmetic.a), identifier_token(arithmetic.b)]
}

/// An identifier, an arithmetic expression or a condition.
pub open spec fn expression_tokens(expression: ExpressionView) -> Seq<TokenView> {
    match expression {
        ExpressionView::Identifier(identifier) => seq![identifier_token(identifier)],
        ExpressionView::Arithmetic(arithmetic) => arithmetic_tokens(arithmetic),
        ExpressionView::Condition(condition) => condition_tokens(condition),
    }
}

/// `move d`, `hunt d`, `breed d` or `rest n`. The grammar has no way to
/// write that nothing is done.
pub open spec fn action_tokens(action: Action) -> Seq<TokenView> {
    match action {
        Action::Move(dir) => seq![TokenView::Move, direction_token(dir)],
        Action::Hunt(dir) => seq![TokenView::Hunt, direction_token(dir)],
        Action::Breed(dir) => seq![TokenView::Breed, direction_token(dir)],
        Action::Rest(count) => seq![TokenView::Rest, TokenView::Int(count)],
        Action::Nothing => Seq::empty(),
    }
}

/// The tokens of a statement:
///
/// - an action as above;
/// - `name = expression`;
/// - `if condition then statement end`, or
///   `if condition then statement else statement end`;
/// - `block statement ... statement end`.
pub open spec fn statement_tokens(statement: StatementView) -> Seq<TokenView>
    decreases statement, 0nat,
{
    match statement {
        StatementView::Action(action) => action_tokens(action),
        StatementView::Assign { key, expression } => seq![TokenView::Id(key), TokenView::OneEq] + expression_tokens(
            expression,
        ),
        StatementView::IfThen { condition, then_statement, else_statement } => seq![TokenView::If]
            + condition_tokens(condition) + seq![TokenView::Then] + statement_tokens(*then_statement)
            + match else_statement {
            Some(statement) => seq![TokenView::Else] + statement_tokens(*statement),
            None => Seq::empty(),
        } + seq![TokenView::End],
        StatementView::Block(statements) => seq![TokenView::Block] + block_tokens(statements, 0),
    }
}

/// The tokens of the statements of a block from the `k`-th on, and the
/// closing `end`.
pub open spec fn block_tokens(statements: Seq<StatementView>, k: nat) -> Seq<TokenView>
    decreases statements, statements.len() - k,
{
    if k >= statements.len() {
        seq![TokenView::End]
    } else {
        statement_tokens(statements[k as int]) + block_tokens(statements, k + 1)
    }
}

/// `sim statement end`
pub open spec fn program_tokens(statement: StatementView) -> Seq<TokenView> {
    seq![TokenView::Sim] + statement_tokens(statement) + seq![TokenView::End]
}

/// The statement can be written in the grammar: wherever it holds an
/// action, that action does something.
pub open spec fn written(statement: StatementView) -> bool
    decreases statement, 0nat,
{
    match statement {
        StatementView::Action(action) => action != Action::Nothing,
        StatementView::Assign { key, expression } => true,
        StatementView::IfThen { condition, then_statement, else_statement } => written(*then_statement)
            && match else_statement {
            Some(statement) => written(*statement),
            None => true,
        },
        StatementView::Block(statements) => written_from(statements, 0),
    }
}

/// The statements of a block from the `k`-th on can be written.
pub open spec fn written_from(statements: Seq<StatementView>, k: nat) -> bool
    decreases statements, statements.len() - k,
{
    if k >= statements.len() {
        true
    } else {
        written(statements[k as int]) && written_from(statements, k + 1)
    }
}

/// What stands behind the first `k` tokens.
pub open spec fn from(tokens: Seq<TokenView>, k: int) -> Seq<TokenView> {
    tokens.subrange(k, tokens.len() as int)
}

/// The first token behind the first `k` tokens is the `k`-th, and behind it
/// stands what stands behind the first `k + 1` tokens.
proof fn lemma_from(tokens: Seq<TokenView>, k: int)
    requires
        0 <= k < tokens.len(),
    ensures
        from(tokens, k)[0] == tokens[k],
        behind(from(tokens, k)) == from(tokens, k + 1),
        from(tokens, 0) == tokens,
{
    assert(behind(from(tokens, k)) =~= from(tokens, k + 1));
    assert(from(tokens, 0) =~= tokens);
}

/// A parsed identifier is the first token, read as an identifier.
pub proof fn lemma_parse_identifier_sound(tokens: Seq<TokenView>)
    ensures
        parse_identifier(tokens) matches Ok(parsed) ==> tokens.len() > 0 && tokens[0] == identifier_token(parsed.0)
            && parsed.1 == behind(tokens),
{
}

/// A parsed condition stands at the front of the tokens.
pub proof fn lemma_parse_condition_sound(tokens: Seq<TokenView>)
    ensures
        parse_condition(tokens) matches Ok(parsed) ==> tokens == condition_tokens(parsed.0) + parsed.1,
{
    if let Ok(parsed) = parse_condition(tokens) {
        lemma_from(tokens, 0);
        lemma_from(tokens, 1);
        lemma_from(tokens, 2);
        lemma_from(tokens, 3);
        lemma_from(tokens, 4);
        assert(parsed.1 == from(tokens, 5));
        assert(tokens =~= condition_tokens(parsed.0) + parsed.1);
    }
}

/// A parsed arithmetic expression stands at the front of the tokens.
pub proof fn lemma_parse_arithmetic_sound(tokens: Seq<TokenView>)
    ensures
        parse_arithmetic(tokens) matches Ok(parsed) ==> tokens == arithmetic_tokens(parsed.0) + parsed.1,
{
    if let Ok(parsed) = parse_arithmetic(tokens) {
        lemma_from(tokens, 0);
        lemma_from(tokens, 1);
        lemma_from(tokens, 2);
        assert(parsed.1 == from(tokens, 3));
        assert(tokens =~= arithmetic_tokens(parsed.0) + parsed.1);
    }
}

/// A parsed expression stands at the front of the tokens.
pub proof fn lemma_parse_expression_sound(tokens: Seq<TokenView>)
    ensures
        parse_expression(tokens) matches Ok(parsed) ==> tokens == expression_tokens(parsed.0) + parsed.1,
{
    if let Ok(parsed) = parse_expression(tokens) {
        lemma_parse_condition_sound(tokens);
        lemma_parse_arithmetic_sound(tokens);
        lemma_from(tokens, 0);
        if parsed.0 is Identifier {
            assert(tokens =~= expression_tokens(parsed.0) + parsed.1);
        }
    }
}

/// A parsed statement stands at the front of the tokens, and it is one that
/// can be written.
pub proof fn lemma_parse_statement_sound(tokens: Seq<TokenView>)
    ensures
        parse_statement(tokens) matches Ok(parsed) ==> tokens == statement_tokens(parsed.0) + parsed.1 && written(
            parsed.0,
        ),
    decreases tokens.len(), 0nat,
{
    if let Ok(parsed) = parse_statement(tokens) {
        lemma_from(tokens, 0);
        let rest = behind(tokens);
        match tokens[0] {
            TokenView::Block => {
                lemma_parse_block_sound(rest, Seq::empty());
                assert(tokens =~= seq![TokenView::Block] + rest);
                let statements = parsed.0->Block_0;
                assert(tokens =~= statement_tokens(parsed.0) + parsed.1);
            },
            TokenView::If => {
                lemma_parse_ifthen_sound(rest);
                assert(tokens =~= seq![TokenView::If] + rest);
            },
            TokenView::Id(key) => {
                let r1 = behind(rest);
                lemma_parse_expression_sound(r1);
                lemma_from(tokens, 1);
                assert(tokens =~= seq![TokenView::Id(key), TokenView::OneEq] + r1);
                assert(tokens =~= statement_tokens(parsed.0) + parsed.1);
            },
            _ => {
                lemma_from(tokens, 1);
                assert(parsed.1 == from(tokens, 2));
                assert(tokens =~= statement_tokens(parsed.0) + parsed.1);
            },
        }
    }
}

/// The rest of a parsed block stands at the front of the tokens: the
/// statements behind those that were done, and the closing `end`.
pub proof fn lemma_parse_block_sound(tokens: Seq<TokenView>, done: Seq<StatementView>)
    ensures
        parse_block(tokens, done) matches Ok(parsed) ==> parsed.0 matches StatementView::Block(statements)
            && done.len() <= statements.len() && statements.subrange(0, done.len() as int) == done && tokens
            == block_tokens(statements, done.len()) + parsed.1 && written_from(statements, done.len()),
    decreases tokens.len(), 1nat,
{
    if let Ok(parsed) = parse_block(tokens, done) {
        lemma_from(tokens, 0);
        if tokens[0] == TokenView::End {
            assert(done.subrange(0, done.len() as int) =~= done);
            assert(tokens =~= seq![TokenView::End] + behind(tokens));
        } else {
            lemma_parse_statement_sound(tokens);
            let first = parse_statement(tokens)->Ok_0;
            let longer = done.push(first.0);
            lemma_parse_block_sound(first.1, longer);
            let statements = parsed.0->Block_0;
            assert(statements.subrange(0, longer.len() as int) == longer);
            assert(statements[done.len() as int] == longer[done.len() as int]);
            assert(statements.subrange(0, done.len() as int) =~= done) by {
                assert forall|i: int| 0 <= i < done.len() implies statements[i] == done[i] by {
                    assert(longer[i] == done[i]);
                    assert(statements.subrange(0, longer.len() as int)[i] == statements[i]);
                }
            }
            assert(tokens =~= block_tokens(statements, done.len()) + parsed.1);
        }
    }
}

/// Joining sequences of tokens is associative.
proof fn lemma_join(x: Seq<TokenView>, y: Seq<TokenView>, z: Seq<TokenView>)
    ensures
        (x + y) + z == x + (y + z),
        x + Seq::<TokenView>::empty() == x,
{
    assert((x + y) + z =~= x + (y + z));
    assert(x + Seq::<TokenView>::empty() =~= x);
}

/// The tokens of a conditional, joined from the right.
proof fn lemma_if_tokens(
    condition: ConditionView,
    then_statement: StatementView,
    else_statement: Option<StatementView>,
    rest: Seq<TokenView>,
)
    ensures
        statement_tokens(crate::compiler::if_then(condition, then_statement, else_statement)) + rest == seq![
            TokenView::If,
        ] + (condition_tokens(condition) + (seq![TokenView::Then] + (statement_tokens(then_statement) + (
        match else_statement {
            Some(statement) => seq![TokenView::Else] + (statement_tokens(statement) + (seq![TokenView::End] + rest)),
            None => seq![TokenView::End] + rest,
        })))),
{
    let head = seq![TokenView::If];
    let c = condition_tokens(condition);
    let then = seq![TokenView::Then];
    let t = statement_tokens(then_statement);
    let end = seq![TokenView::End];
    let e = match else_statement {
        Some(statement) => seq![TokenView::Else] + statement_tokens(statement),
        None => Seq::empty(),
    };
    assert(statement_tokens(crate::compiler::if_then(condition, then_statement, else_statement)) == head + c + then
        + t + e + end);
    lemma_join(head + c + then + t + e, end, rest);
    lemma_join(head + c + then + t, e, end + rest);
    lemma_join(head + c + then, t, e + (end + rest));
    lemma_join(head + c, then, t + (e + (end + rest)));
    lemma_join(head, c, then + (t + (e + (end + rest))));
    match else_statement {
        Some(statement) => {
            lemma_join(seq![TokenView::Else], statement_tokens(statement), end + rest);
        },
        None => {
            assert(e + (end + rest) =~= end + rest);
        },
    }
}

/// A parsed conditional stands at the front of the tokens.
pub proof fn lemma_parse_ifthen_sound(tokens: Seq<TokenView>)
    ensures
        parse_ifthen(tokens) matches Ok(parsed) ==> seq![TokenView::If] + tokens == statement_tokens(parsed.0)
            + parsed.1 && written(parsed.0),
    decreases tokens.len(), 1nat,
{
    if let Ok(parsed) = parse_ifthen(tokens) {
        lemma_parse_condition_sound(tokens);
        let (condition, r1) = parse_condition(tokens)->Ok_0;
        let r2 = behind(r1);
        lemma_from(r1, 0);
        lemma_parse_statement_sound(r2);
        let (then_statement, r3) = parse_statement(r2)->Ok_0;
        let r4 = behind(r3);
        lemma_from(r3, 0);
        assert(r1 == seq![TokenView::Then] + r2) by {
            assert(r1 =~= seq![TokenView::Then] + r2);
        }
        if r3[0] == TokenView::End {
            assert(r3 == seq![TokenView::End] + r4) by {
                assert(r3 =~= seq![TokenView::End] + r4);
            }
            lemma_if_tokens(condition, then_statement, None, r4);
            assert(parsed.0 == crate::compiler::if_then(condition, then_statement, None));
            assert(parsed.1 == r4);
        } else {
            lemma_parse_statement_sound(r4);
            let (else_statement, r5) = parse_statement(r4)->Ok_0;
            let r6 = behind(r5);
            lemma_from(r5, 0);
            assert(r3 == seq![TokenView::Else] + r4) by {
                assert(r3 =~= seq![TokenView::Else] + r4);
            }
            assert(r5 == seq![TokenView::End] + r6) by {
                assert(r5 =~= seq![TokenView::End] + r6);
            }
            lemma_if_tokens(condition, then_statement, Some(else_statement), r6);
            assert(parsed.0 == crate::compiler::if_then(condition, then_statement, Some(else_statement)));
            assert(parsed.1 == r6);
        }
    }
}


/// What stands behind a token that was put in front is what it was put in
/// front of.
proof fn lemma_behind_front(token: TokenView, rest: Seq<TokenView>)
    ensures
        (seq![token] + rest).len() == rest.len() + 1,
        (seq![token] + rest)[0] == token,
        behind(seq![token] + rest) == rest,
{
    assert(behind(seq![token] + rest) =~= rest);
}

/// The token of an identifier parses to the identifier.
pub proof fn lemma_parse_identifier_complete(identifier: IdentifierView, rest: Seq<TokenView>)
    ensures
        parse_identifier(seq![identifier_token(identifier)] + rest) == Ok::<
            (IdentifierView, Seq<TokenView>),
            CompilerError,
        >((identifier, rest)),
{
    lemma_behind_front(identifier_token(identifier), rest);
}

/// The tokens of a condition parse to the condition.
pub proof fn lemma_parse_condition_complete(condition: ConditionView, rest: Seq<TokenView>)
    ensures
        parse_condition(condition_tokens(condition) + rest) == Ok::<(ConditionView, Seq<TokenView>), CompilerError>(
            (condition, rest),
        ),
{
    let r5 = rest;
    let r4 = seq![TokenView::Rpar] + r5;
    let r3 = seq![identifier_token(condition.b)] + r4;
    let r2 = seq![condition_op_token(condition.op)] + r3;
    let r1 = seq![identifier_token(condition.a)] + r2;
    let r0 = seq![TokenView::Lpar] + r1;
    assert(condition_tokens(condition) + rest =~= r0);
    lemma_behind_front(TokenView::Lpar, r1);
    lemma_parse_identifier_complete(condition.a, r2);
    lemma_behind_front(condition_op_token(condition.op), r3);
    lemma_parse_identifier_complete(condition.b, r4);
    lemma_behind_front(TokenView::Rpar, r5);
}

/// The tokens of an arithmetic expression parse to the expression.
pub proof fn lemma_parse_arithmetic_complete(arithmetic: ArithmeticView, rest: Seq<TokenView>)
    ensures
        parse_arithmetic(arithmetic_tokens(arithmetic) + rest) == Ok::<
            (ArithmeticView, Seq<TokenView>),
            CompilerError,
        >((arithmetic, rest)),
{
    let r2 = seq![identifier_token(arithmetic.b)] + rest;
    let r1 = seq![identifier_token(arithmetic.a)] + r2;
    let r0 = seq![arithmetic_op_token(arithmetic.op)] + r1;
    assert(arithmetic_tokens(arithmetic) + rest =~= r0);
    lemma_behind_front(arithmetic_op_token(arithmetic.op), r1);
    lemma_parse_identifier_complete(arithmetic.a, r2);
    lemma_parse_identifier_complete(arithmetic.b, rest);
}

/// The tokens of an expression parse to the expression.
pub proof fn lemma_parse_expression_complete(expression: ExpressionView, rest: Seq<TokenView>)
    ensures
        parse_expression(expression_tokens(expression) + rest) == Ok::<
            (ExpressionView, Seq<TokenView>),
            CompilerError,
        >((expression, rest)),
{
    let tokens = expression_tokens(expression) + rest;
    match expression {
        ExpressionView::Identifier(identifier) => {
            lemma_parse_identifier_complete(identifier, rest);
            lemma_behind_front(identifier_token(identifier), rest);
        },
        ExpressionView::Arithmetic(arithmetic) => {
            lemma_parse_arithmetic_complete(arithmetic, rest);
            assert(tokens[0] == arithmetic_op_token(arithmetic.op));
        },
        ExpressionView::Condition(condition) => {
            lemma_parse_condition_complete(condition, rest);
            assert(tokens[0] == TokenView::Lpar);
        },
    }
}

/// A statement that can be written begins with a token that begins a
/// statement.
pub proof fn lemma_statement_begins(statement: StatementView)
    requires
        written(statement),
    ensures
        statement_tokens(statement).len() > 0,
        statement_tokens(statement)[0] != TokenView::End,
        statement_tokens(statement)[0] != TokenView::Else,
{
}

/// The tokens of an action that does something parse to the action.
pub proof fn lemma_parse_action_complete(action: Action, rest: Seq<TokenView>)
    requires
        action != Action::Nothing,
    ensures
        parse_statement(action_tokens(action) + rest) == Ok::<(StatementView, Seq<TokenView>), CompilerError>(
            (StatementView::Action(action), rest),
        ),
{
    let tokens = action_tokens(action) + rest;
    match action {
        Action::Move(dir) => {
            assert(tokens =~= seq![TokenView::Move] + (seq![direction_token(dir)] + rest));
            lemma_behind_front(TokenView::Move, seq![direction_token(dir)] + rest);
            lemma_behind_front(direction_token(dir), rest);
        },
        Action::Hunt(dir) => {
            assert(tokens =~= seq![TokenView::Hunt] + (seq![direction_token(dir)] + rest));
            lemma_behind_front(TokenView::Hunt, seq![direction_token(dir)] + rest);
            lemma_behind_front(direction_token(dir), rest);
        },
        Action::Breed(dir) => {
            assert(tokens =~= seq![TokenView::Breed] + (seq![direction_token(dir)] + rest));
            lemma_behind_front(TokenView::Breed, seq![direction_token(dir)] + rest);
            lemma_behind_front(direction_token(dir), rest);
        },
        Action::Rest(count) => {
            assert(tokens =~= seq![TokenView::Rest] + (seq![TokenView::Int(count)] + rest));
            lemma_behind_front(TokenView::Rest, seq![TokenView::Int(count)] + rest);
            lemma_behind_front(TokenView::Int(count), rest);
        },
        Action::Nothing => {},
    }
}

/// The tokens of an assignment parse to the assignment.
pub proof fn lemma_parse_assign_complete(key: Seq<char>, expression: ExpressionView, rest: Seq<TokenView>)
    ensures
        parse_statement(statement_tokens(StatementView::Assign { key, expression }) + rest) == Ok::<
            (StatementView, Seq<TokenView>),
            CompilerError,
        >((StatementView::Assign { key, expression }, rest)),
{
    let tokens = statement_tokens(StatementView::Assign { key, expression }) + rest;
    let r2 = expression_tokens(expression) + rest;
    let r1 = seq![TokenView::OneEq] + r2;
    assert(tokens =~= seq![TokenView::Id(key)] + r1);
    lemma_behind_front(TokenView::Id(key), r1);
    lemma_behind_front(TokenView::OneEq, r2);
    lemma_parse_expression_complete(expression, rest);
}

/// The tokens of a conditional parse to the conditional, where the tokens of
/// its branches parse to its branches.
proof fn lemma_parse_ifthen_complete(
    condition: ConditionView,
    then_statement: StatementView,
    else_statement: Option<StatementView>,
    rest: Seq<TokenView>,
)
    requires
        written(then_statement),
        forall|behind_it: Seq<TokenView>| #[trigger]
            parse_statement(statement_tokens(then_statement) + behind_it) == Ok::<
                (StatementView, Seq<TokenView>),
                CompilerError,
            >((then_statement, behind_it)),
        else_statement matches Some(statement) ==> written(statement) && parse_statement(
            statement_tokens(statement) + (seq![TokenView::End] + rest),
        ) == Ok::<(StatementView, Seq<TokenView>), CompilerError>((statement, seq![TokenView::End] + rest)),
    ensures
        parse_statement(
            statement_tokens(crate::compiler::if_then(condition, then_statement, else_statement)) + rest,
        ) == Ok::<(StatementView, Seq<TokenView>), CompilerError>(
            (crate::compiler::if_then(condition, then_statement, else_statement), rest),
        ),
{
    let whole = crate::compiler::if_then(condition, then_statement, else_statement);
    let tokens = statement_tokens(whole) + rest;
    lemma_if_tokens(condition, then_statement, else_statement, rest);
    let end = seq![TokenView::End] + rest;
    let r3 = match else_statement {
        Some(statement) => seq![TokenView::Else] + (statement_tokens(statement) + end),
        None => end,
    };
    let r2 = statement_tokens(then_statement) + r3;
    let r1 = seq![TokenView::Then] + r2;
    let r0 = condition_tokens(condition) + r1;
    assert(tokens == seq![TokenView::If] + r0);
    lemma_behind_front(TokenView::If, r0);
    lemma_parse_condition_complete(condition, r1);
    lemma_behind_front(TokenView::Then, r2);
    assert(parse_statement(r2) == Ok::<(StatementView, Seq<TokenView>), CompilerError>((then_statement, r3)));
    lemma_behind_front(TokenView::End, rest);
    lemma_statement_begins(then_statement);
    match else_statement {
        Some(statement) => {
            let r4 = statement_tokens(statement) + end;
            lemma_behind_front(TokenView::Else, r4);
            assert(r4.len() < r0.len());
            assert(parse_ifthen(r0) == Ok::<(StatementView, Seq<TokenView>), CompilerError>((whole, rest)));
        },
        None => {
            assert(parse_ifthen(r0) == Ok::<(StatementView, Seq<TokenView>), CompilerError>((whole, rest)));
        },
    }
}

/// The tokens of a statement that can be written parse to the statement.
pub proof fn lemma_parse_statement_complete(statement: StatementView, rest: Seq<TokenView>)
    requires
        written(statement),
    ensures
        parse_statement(statement_tokens(statement) + rest) == Ok::<(StatementView, Seq<TokenView>), CompilerError>(
            (statement, rest),
        ),
    decreases statement, 1nat,
{
    match statement {
        StatementView::Action(action) => {
            lemma_parse_action_complete(action, rest);
        },
        StatementView::Assign { key, expression } => {
            lemma_parse_assign_complete(key, expression, rest);
        },
        StatementView::IfThen { condition, then_statement, else_statement } => {
            let other = match else_statement {
                Some(statement) => Some(*statement),
                None => None,
            };
            assert(statement == crate::compiler::if_then(condition, *then_statement, other));
            assert forall|behind_it: Seq<TokenView>| #[trigger]
                parse_statement(statement_tokens(*then_statement) + behind_it) == Ok::<
                    (StatementView, Seq<TokenView>),
                    CompilerError,
                >((*then_statement, behind_it)) by {
                lemma_parse_statement_complete(*then_statement, behind_it);
            }
            if let Some(other_statement) = other {
                lemma_parse_statement_complete(other_statement, seq![TokenView::End] + rest);
            }
            lemma_parse_ifthen_complete(condition, *then_statement, other, rest);
        },
        StatementView::Block(statements) => {
            let tokens = statement_tokens(statement) + rest;
            let r0 = block_tokens(statements, 0) + rest;
            assert(tokens == seq![TokenView::Block] + r0) by {
                lemma_join(seq![TokenView::Block], block_tokens(statements, 0), rest);
            }
            lemma_behind_front(TokenView::Block, r0);
            assert(statements.subrange(0, 0) =~= Seq::<StatementView>::empty());
            lemma_parse_block_complete(statements, 0, rest);
        },
    }
}

/// The tokens of the statements of a block from the `k`-th on, with the
/// closing `end`, complete the block whose first `k` statements are done.
pub proof fn lemma_parse_block_complete(statements: Seq<StatementView>, k: nat, rest: Seq<TokenView>)
    requires
        k <= statements.len(),
        written_from(statements, k),
    ensures
        parse_block(block_tokens(statements, k) + rest, statements.subrange(0, k as int)) == Ok::<
            (StatementView, Seq<TokenView>),
            CompilerError,
        >((StatementView::Block(statements), rest)),
    decreases statements, statements.len() - k, 0nat,
{
    let tokens = block_tokens(statements, k) + rest;
    let done = statements.subrange(0, k as int);
    if k == statements.len() {
        assert(done =~= statements);
        lemma_behind_front(TokenView::End, rest);
    } else {
        let first = statements[k as int];
        let after = block_tokens(statements, k + 1) + rest;
        lemma_join(statement_tokens(first), block_tokens(statements, k + 1), rest);
        assert(tokens == statement_tokens(first) + after);
        lemma_statement_begins(first);
        assert(tokens[0] == statement_tokens(first)[0]);
        lemma_parse_statement_complete(first, after);
        assert(done.push(first) =~= statements.subrange(0, (k + 1) as int));
        lemma_parse_block_complete(statements, k + 1, rest);
    }
}

/// The parser accepts exactly the programs of the grammar: a sequence of
/// tokens parses to a statement if, and only if, the statement can be written
/// and the tokens are `sim`, the tokens of the statement, and `end`.
pub proof fn lemma_parse_program(tokens: Seq<TokenView>, statement: StatementView)
    ensures
        parse_program(tokens) == Ok::<StatementView, CompilerError>(statement) <==> written(statement) && tokens
            == program_tokens(statement),
{
    if parse_program(tokens) == Ok::<StatementView, CompilerError>(statement) {
        lemma_from(tokens, 0);
        let r1 = behind(tokens);
        lemma_parse_statement_sound(r1);
        let r2 = parse_statement(r1)->Ok_0.1;
        lemma_from(r2, 0);
        assert(behind(r2).len() == 0);
        assert(tokens == seq![TokenView::Sim] + r1) by {
            assert(tokens =~= seq![TokenView::Sim] + r1);
        }
        assert(r2 == seq![TokenView::End]) by {
            assert(r2 =~= seq![TokenView::End]);
        }
        lemma_join(seq![TokenView::Sim], statement_tokens(statement), seq![TokenView::End]);
    }
    if written(statement) && tokens == program_tokens(statement) {
        let end = seq![TokenView::End];
        let r1 = statement_tokens(statement) + end;
        lemma_join(seq![TokenView::Sim], statement_tokens(statement), end);
        lemma_behind_front(TokenView::Sim, r1);
        lemma_parse_statement_complete(statement, end);
        lemma_behind_front(TokenView::End, Seq::empty());
        assert(end =~= seq![TokenView::End] + Seq::<TokenView>::empty());
    }
}

} // verus!
