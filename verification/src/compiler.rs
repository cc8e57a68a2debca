//! The compiler of the `sim2` language: a recursive-descent parser from
//! tokens to a [`Program`].
//!
//! ```text
//! program    := "sim" statement "end"
//! statement  := block | if_then | assign | action
//! block      := "block" statement* "end"
//! if_then    := "if" condition "then" statement ("else" statement)? "end"
//! assign     := name "=" expression
//! action     := "move" direction | "hunt" direction | "breed" direction | "rest" integer
//! condition  := "(" identifier cond_op identifier ")"
//! expression := condition | arithmetic | identifier
//! arithmetic := ("add" | "sub") identifier identifier
//! identifier := name | integer | "awakeDaily" | "energy" | "rand"
//! ```
//!
//! Each `parse_*` spec function says what one rule of the grammar makes of a
//! sequence of tokens: the node and the tokens left behind it, or the error of
//! the first expectation that the tokens do not meet. Each `get_*` function
//! computes exactly that.

use vstd::prelude::*;
use vstd::slice::slice_subrange;
use vstd::string::StringExecFns;
use crate::lexer::{lex, tokenize, LexerError};
use crate::program::{
    views_of, Action, Arithmetic, ArithmeticOp, ArithmeticView, Assign, Block, Condition, ConditionOp,
    ConditionView, Direction, ExpressionKind, ExpressionView, Identifier, IdentifierView, IfThen, Program,
    SpecialIdentifier, StatementKind, StatementView, Variable,
};
use crate::token::{token_views, Token, TokenView};

verus! {

/// The expectation of the grammar that a sequence of tokens does not meet.
#[derive(Clone, Copy, Debug, PartialEq, Eq, Structural)]
pub enum CompilerError {
    BreedNotFollowedByDirection,
    ConditionMissingLPar,
    ConditionMissingOperator,
    ConditionMissingRPar,
    EndOfProgramNotLastToken,
    HuntNotFollowedByDirection,
    ImproperStartOfStatment,
    InvalidAssignStatement,
    InvalidIdentifier,
    MoveNotFollowedByDirection,
    NoAddOrSubstract,
    NoConditionOperator,
    NoEndBlockFound,
    NoEndKeyword,
    NoElseOrEnd,
    NoExpressionFound,
    NoThenKeyword,
    NotADirectionToken,
    NoSimKeyword,
    RestNotFollowedByCount,
}

/// Why a text is not a program.
#[derive(Clone, Copy, Debug, PartialEq, Eq, Structural)]
pub enum CompilerOrLexerError {
    C(CompilerError),
    L(LexerError),
}

impl CompilerError {
    /// The name of the error.
    pub open spec fn name(self) -> Seq<char> {
        match self {
            CompilerError::BreedNotFollowedByDirection => "BreedNotFollowedByDirection"@,
            CompilerError::ConditionMissingLPar => "ConditionMissingLPar"@,
            CompilerError::ConditionMissingOperator => "ConditionMissingOperator"@,
            CompilerError::ConditionMissingRPar => "ConditionMissingRPar"@,
            CompilerError::EndOfProgramNotLastToken => "EndOfProgramNotLastToken"@,
            CompilerError::HuntNotFollowedByDirection => "HuntNotFollowedByDirection"@,
            CompilerError::ImproperStartOfStatment => "ImproperStartOfStatment"@,
            CompilerError::InvalidAssignStatement => "InvalidAssignStatement"@,
            CompilerError::InvalidIdentifier => "InvalidIdentifier"@,
            CompilerError::MoveNotFollowedByDirection => "MoveNotFollowedByDirection"@,
            CompilerError::NoAddOrSubstract => "NoAddOrSubstract"@,
            CompilerError::NoConditionOperator => "NoConditionOperator"@,
            CompilerError::NoEndBlockFound => "NoEndBlockFound"@,
            CompilerError::NoEndKeyword => "NoEndKeyword"@,
            CompilerError::NoElseOrEnd => "NoElseOrEnd"@,
            CompilerError::NoExpressionFound => "NoExpressionFound"@,
            CompilerError::NoThenKeyword => "NoThenKeyword"@,
            CompilerError::NotADirectionToken => "NotADirectionToken"@,
            CompilerError::NoSimKeyword => "NoSimKeyword"@,
            CompilerError::RestNotFollowedByCount => "RestNotFollowedByCount"@,
        }
    }

    /// The name of the error, as shown to a user.
    pub fn to_string(&self) -> (text: String)
        ensures
            text@ == self.name(),
    {
        let s = match self {
            CompilerError::BreedNotFollowedByDirection => "BreedNotFollowedByDirection",
            CompilerError::ConditionMissingLPar => "ConditionMissingLPar",
            CompilerError::ConditionMissingOperator => "ConditionMissingOperator",
            CompilerError::ConditionMissingRPar => "ConditionMissingRPar",
            CompilerError::EndOfProgramNotLastToken => "EndOfProgramNotLastToken",
            CompilerError::HuntNotFollowedByDirection => "HuntNotFollowedByDirection",
            CompilerError::ImproperStartOfStatment => "ImproperStartOfStatment",
            CompilerError::InvalidAssignStatement => "InvalidAssignStatement",
            CompilerError::InvalidIdentifier => "InvalidIdentifier",
            CompilerError::MoveNotFollowedByDirection => "MoveNotFollowedByDirection",
            CompilerError::NoAddOrSubstract => "NoAddOrSubstract",
            CompilerError::NoConditionOperator => "NoConditionOperator",
            CompilerError::NoEndBlockFound => "NoEndBlockFound",
            CompilerError::NoEndKeyword => "NoEndKeyword",
            CompilerError::NoElseOrEnd => "NoElseOrEnd",
            CompilerError::NoExpressionFound => "NoExpressionFound",
            CompilerError::NoThenKeyword => "NoThenKeyword",
            CompilerError::NotADirectionToken => "NotADirectionToken",
            CompilerError::NoSimKeyword => "NoSimKeyword",
            CompilerError::RestNotFollowedByCount => "RestNotFollowedByCount",
        };
        s.to_owned()
    }
}

impl CompilerOrLexerError {
    /// The kind of the error and its name: `C(..)` for an error of the
    /// parser, `L(..)` for an error of the lexer.
    pub open spec fn text(self) -> Seq<char> {
        match self {
            CompilerOrLexerError::C(e) => "C("@ + e.name() + ")"@,
            CompilerOrLexerError::L(e) => "L("@ + e.name() + ")"@,
        }
    }

    /// The error as shown to a user.
    pub fn to_string(&self) -> (text: String)
        ensures
            text@ == self.text(),
    {
        match self {
            CompilerOrLexerError::C(e) => {
                let mut s = "C(".to_owned();
                s.append(e.to_string().as_str());
                s.append(")");
                s
            },
            CompilerOrLexerError::L(e) => {
                let mut s = "L(".to_owned();
                s.append(e.to_string().as_str());
                s.append(")");
                s
            },
        }
    }
}

/// The direction that a token names.
pub open spec fn direction_of(token: TokenView) -> Result<Direction, CompilerError> {
    match token {
        TokenView::DirN => Ok(Direction::N),
        TokenView::DirNE => Ok(Direction::NE),
        TokenView::DirE => Ok(Direction::E),
        TokenView::DirSE => Ok(Direction::SE),
        TokenView::DirS => Ok(Direction::S),
        TokenView::DirSW => Ok(Direction::SW),
        TokenView::DirW => Ok(Direction::W),
        TokenView::DirNW => Ok(Direction::NW),
        _ => Err(CompilerError::NotADirectionToken),
    }
}

/// The comparison that a token names.
pub open spec fn condition_op_of(token: TokenView) -> Result<ConditionOp, CompilerError> {
    match token {
        TokenView::Lt => Ok(ConditionOp::Lt),
        TokenView::Gt => Ok(ConditionOp::Gt),
        TokenView::TwoEq => Ok(ConditionOp::Eq),
        _ => Err(CompilerError::NoConditionOperator),
    }
}

/// The arithmetic operation that a token names.
pub open spec fn arithmetic_op_of(token: TokenView) -> Result<ArithmeticOp, CompilerError> {
    match token {
        TokenView::Add => Ok(ArithmeticOp::Add),
        TokenView::Sub => Ok(ArithmeticOp::Sub),
        _ => Err(CompilerError::NoAddOrSubstract),
    }
}

/// The tokens behind the first one.
pub open spec fn behind(tokens: Seq<TokenView>) -> Seq<TokenView> {
    tokens.subrange(1, tokens.len() as int)
}

/// The first token and the tokens behind it, or `error` where there is none.
pub open spec fn head(tokens: Seq<TokenView>, error: CompilerError) -> Result<
    (TokenView, Seq<TokenView>),
    CompilerError,
> {
    if tokens.len() == 0 {
        Err(error)
    } else {
        Ok((tokens[0], behind(tokens)))
    }
}

/// The tokens behind the first one where that is `token`, else `error`.
pub open spec fn consume(token: TokenView, tokens: Seq<TokenView>, error: CompilerError) -> Result<
    Seq<TokenView>,
    CompilerError,
> {
    if tokens.len() == 0 || tokens[0] != token {
        Err(error)
    } else {
        Ok(behind(tokens))
    }
}

/// An identifier: a name, an integer, or one of `awakeDaily`, `energy` and
/// `rand`.
pub open spec fn parse_identifier(tokens: Seq<TokenView>) -> Result<
    (IdentifierView, Seq<TokenView>),
    CompilerError,
> {
    if tokens.len() == 0 {
        Err(CompilerError::InvalidIdentifier)
    } else {
        match tokens[0] {
            TokenView::Id(key) => Ok((IdentifierView::Variable(key), behind(tokens))),
            TokenView::Int(value) => Ok((IdentifierView::Constant(value), behind(tokens))),
            TokenView::IdRest => Ok((IdentifierView::Special(SpecialIdentifier::DailyRest), behind(tokens))),
            TokenView::IdEnergy => Ok((IdentifierView::Special(SpecialIdentifier::Energy), behind(tokens))),
            TokenView::Rand => Ok((IdentifierView::Special(SpecialIdentifier::Rand), behind(tokens))),
            _ => Err(CompilerError::InvalidIdentifier),
        }
    }
}

/// A condition: `(`, an identifier, a comparison, an identifier, `)`.
pub open spec fn parse_condition(tokens: Seq<TokenView>) -> Result<
    (ConditionView, Seq<TokenView>),
    CompilerError,
> {
    match consume(TokenView::Lpar, tokens, CompilerError::ConditionMissingLPar) {
        Err(e) => Err(e),
        Ok(r1) => match parse_identifier(r1) {
            Err(e) => Err(e),
            Ok((a, r2)) => match head(r2, CompilerError::ConditionMissingOperator) {
                Err(e) => Err(e),
                Ok((token, r3)) => match condition_op_of(token) {
                    Err(e) => Err(e),
                    Ok(op) => match parse_identifier(r3) {
                        Err(e) => Err(e),
                        Ok((b, r4)) => match consume(TokenView::Rpar, r4, CompilerError::ConditionMissingRPar) {
                            Err(e) => Err(e),
                            Ok(r5) => Ok((ConditionView { a, b, op }, r5)),
                        },
                    },
                },
            },
        },
    }
}

/// An arithmetic expression: `add` or `sub`, and two identifiers.
pub open spec fn parse_arithmetic(tokens: Seq<TokenView>) -> Result<
    (ArithmeticView, Seq<TokenView>),
    CompilerError,
> {
    match head(tokens, CompilerError::NoAddOrSubstract) {
        Err(e) => Err(e),
        Ok((token, r1)) => match arithmetic_op_of(token) {
            Err(e) => Err(e),
            Ok(op) => match parse_identifier(r1) {
                Err(e) => Err(e),
                Ok((a, r2)) => match parse_identifier(r2) {
                    Err(e) => Err(e),
                    Ok((b, r3)) => Ok((ArithmeticView { a, b, op }, r3)),
                },
            },
        },
    }
}

/// The first token decides the kind of expression and is not consumed.
pub open spec fn parse_expression(tokens: Seq<TokenView>) -> Result<
    (ExpressionView, Seq<TokenView>),
    CompilerError,
> {
    if tokens.len() == 0 {
        Err(CompilerError::NoExpressionFound)
    } else {
        match tokens[0] {
            TokenView::Lpar => match parse_condition(tokens) {
                Err(e) => Err(e),
                Ok((condition, rest)) => Ok((ExpressionView::Condition(condition), rest)),
            },
            TokenView::Add | TokenView::Sub => match parse_arithmetic(tokens) {
                Err(e) => Err(e),
                Ok((arithmetic, rest)) => Ok((ExpressionView::Arithmetic(arithmetic), rest)),
            },
            _ => match parse_identifier(tokens) {
                Err(e) => Err(e),
                Ok((identifier, rest)) => Ok((ExpressionView::Identifier(identifier), rest)),
            },
        }
    }
}

/// The direction behind `move`, `hunt` or `breed`.
pub open spec fn parse_direction(tokens: Seq<TokenView>, missing: CompilerError) -> Result<
    (Direction, Seq<TokenView>),
    CompilerError,
> {
    match head(tokens, missing) {
        Err(e) => Err(e),
        Ok((token, rest)) => match direction_of(token) {
            Err(e) => Err(e),
            Ok(dir) => Ok((dir, rest)),
        },
    }
}

/// The direction of a `move`, whose keyword has been consumed.
pub open spec fn parse_move(tokens: Seq<TokenView>) -> Result<(StatementView, Seq<TokenView>), CompilerError> {
    match parse_direction(tokens, CompilerError::MoveNotFollowedByDirection) {
        Err(e) => Err(e),
        Ok((dir, rest)) => Ok((StatementView::Action(Action::Move(dir)), rest)),
    }
}

/// The direction of a `hunt`, whose keyword has been consumed.
pub open spec fn parse_hunt(tokens: Seq<TokenView>) -> Result<(StatementView, Seq<TokenView>), CompilerError> {
    match parse_direction(tokens, CompilerError::HuntNotFollowedByDirection) {
        Err(e) => Err(e),
        Ok((dir, rest)) => Ok((StatementView::Action(Action::Hunt(dir)), rest)),
    }
}

/// The direction of a `breed`, whose keyword has been consumed.
pub open spec fn parse_breed(tokens: Seq<TokenView>) -> Result<(StatementView, Seq<TokenView>), CompilerError> {
    match parse_direction(tokens, CompilerError::BreedNotFollowedByDirection) {
        Err(e) => Err(e),
        Ok((dir, rest)) => Ok((StatementView::Action(Action::Breed(dir)), rest)),
    }
}

/// The count of a `rest`, whose keyword has been consumed.
pub open spec fn parse_rest(tokens: Seq<TokenView>) -> Result<(StatementView, Seq<TokenView>), CompilerError> {
    if tokens.len() == 0 {
        Err(CompilerError::RestNotFollowedByCount)
    } else {
        match tokens[0] {
            TokenView::Int(count) => Ok((StatementView::Action(Action::Rest(count)), behind(tokens))),
            _ => Err(CompilerError::RestNotFollowedByCount),
        }
    }
}

/// The assignment to `key`, whose name has been consumed.
pub open spec fn parse_assign(tokens: Seq<TokenView>, key: Seq<char>) -> Result<
    (StatementView, Seq<TokenView>),
    CompilerError,
> {
    match consume(TokenView::OneEq, tokens, CompilerError::InvalidAssignStatement) {
        Err(e) => Err(e),
        Ok(r1) => match parse_expression(r1) {
            Err(e) => Err(e),
            Ok((expression, r2)) => Ok((StatementView::Assign { key, expression }, r2)),
        },
    }
}

/// A statement. Its first token decides the kind.
///
/// A successful parse leaves fewer tokens than it was given. The definitions
/// of the nested rules ask for that before they go on, which is what makes
/// them well founded; `lemma_parse_consumes` shows that the question is always
/// answered with yes.
pub open spec fn parse_statement(tokens: Seq<TokenView>) -> Result<
    (StatementView, Seq<TokenView>),
    CompilerError,
>
    decreases tokens.len(), 0nat,
{
    if tokens.len() == 0 {
        Err(CompilerError::ImproperStartOfStatment)
    } else {
        match tokens[0] {
            TokenView::Block => parse_block(behind(tokens), Seq::empty()),
            TokenView::If => parse_ifthen(behind(tokens)),
            TokenView::Id(key) => parse_assign(behind(tokens), key),
            TokenView::Move => parse_move(behind(tokens)),
            TokenView::Hunt => parse_hunt(behind(tokens)),
            TokenView::Breed => parse_breed(behind(tokens)),
            TokenView::Rest => parse_rest(behind(tokens)),
            _ => Err(CompilerError::ImproperStartOfStatment),
        }
    }
}

/// The rest of a block whose keyword has been consumed and whose first
/// statements are `done`: statements up to the closing `end`.
pub open spec fn parse_block(tokens: Seq<TokenView>, done: Seq<StatementView>) -> Result<
    (StatementView, Seq<TokenView>),
    CompilerError,
>
    decreases tokens.len(), 1nat,
{
    if tokens.len() == 0 {
        Err(CompilerError::NoEndBlockFound)
    } else if tokens[0] == TokenView::End {
        Ok((StatementView::Block(done), behind(tokens)))
    } else {
        match parse_statement(tokens) {
            Err(e) => Err(e),
            Ok((statement, rest)) => if rest.len() < tokens.len() {
                parse_block(rest, done.push(statement))
            } else {
                Err(CompilerError::NoEndBlockFound)
            },
        }
    }
}

/// The conditional with the given parts.
pub open spec fn if_then(
    condition: ConditionView,
    then_statement: StatementView,
    else_statement: Option<StatementView>,
) -> StatementView {
    StatementView::IfThen {
        condition,
        then_statement: Box::new(then_statement),
        else_statement: match else_statement {
            Some(statement) => Some(Box::new(statement)),
            None => None,
        },
    }
}

/// A conditional whose `if` has been consumed.
pub open spec fn parse_ifthen(tokens: Seq<TokenView>) -> Result<(StatementView, Seq<TokenView>), CompilerError>
    decreases tokens.len(), 1nat,
{
    match parse_condition(tokens) {
        Err(e) => Err(e),
        Ok((condition, r1)) => match consume(TokenView::Then, r1, CompilerError::NoThenKeyword) {
            Err(e) => Err(e),
            Ok(r2) => match parse_statement(r2) {
                Err(e) => Err(e),
                Ok((then_statement, r3)) => match head(r3, CompilerError::NoElseOrEnd) {
                    Err(e) => Err(e),
                    Ok((token, r4)) => if token == TokenView::End {
                        Ok((if_then(condition, then_statement, None), r4))
                    } else if token != TokenView::Else || r4.len() >= tokens.len() {
                        Err(CompilerError::NoElseOrEnd)
                    } else {
                        match parse_statement(r4) {
                            Err(e) => Err(e),
                            Ok((else_statement, r5)) => match consume(
                                TokenView::End,
                                r5,
                                CompilerError::NoEndKeyword,
                            ) {
                                Err(e) => Err(e),
                                Ok(r6) => Ok((if_then(condition, then_statement, Some(else_statement)), r6)),
                            },
                        }
                    },
                },
            },
        },
    }
}

/// A program: `sim`, one statement, and `end` as the last token.
pub open spec fn parse_program(tokens: Seq<TokenView>) -> Result<StatementView, CompilerError> {
    match consume(TokenView::Sim, tokens, CompilerError::NoSimKeyword) {
        Err(e) => Err(e),
        Ok(r1) => match parse_statement(r1) {
            Err(e) => Err(e),
            Ok((statement, r2)) => match consume(TokenView::End, r2, CompilerError::EndOfProgramNotLastToken) {
                Err(e) => Err(e),
                Ok(r3) => if r3.len() == 0 {
                    Ok(statement)
                } else {
                    Err(CompilerError::EndOfProgramNotLastToken)
                },
            },
        },
    }
}

/// The program that a text denotes, or why it denotes none.
pub open spec fn compile(text: Seq<char>) -> Result<StatementView, CompilerOrLexerError> {
    match lex(text) {
        Err(e) => Err(CompilerOrLexerError::L(e)),
        Ok(tokens) => match parse_program(tokens) {
            Err(e) => Err(CompilerOrLexerError::C(e)),
            Ok(statement) => Ok(statement),
        },
    }
}


/// The views of the tokens behind the first one are the views behind the
/// first view.
pub proof fn lemma_views_behind(tokens: Seq<Token>)
    requires
        tokens.len() > 0,
    ensures
        token_views(tokens)[0] == tokens[0]@,
        token_views(tokens.subrange(1, tokens.len() as int)) == behind(token_views(tokens)),
{
    assert(token_views(tokens.subrange(1, tokens.len() as int)) =~= behind(token_views(tokens)));
}

/// The direction that a token names.
pub fn map_direction_token(x: &Token) -> (result: Result<Direction, CompilerError>)
    ensures
        result == direction_of(x@),
{
    match x {
        Token::DirN => Ok(Direction::N),
        Token::DirNE => Ok(Direction::NE),
        Token::DirE => Ok(Direction::E),
        Token::DirSE => Ok(Direction::SE),
        Token::DirS => Ok(Direction::S),
        Token::DirSW => Ok(Direction::SW),
        Token::DirW => Ok(Direction::W),
        Token::DirNW => Ok(Direction::NW),
        _ => Err(CompilerError::NotADirectionToken),
    }
}

/// The comparison that a token names.
pub fn map_operator_token(x: &Token) -> (result: Result<ConditionOp, CompilerError>)
    ensures
        result == condition_op_of(x@),
{
    match x {
        Token::Lt => Ok(ConditionOp::Lt),
        Token::Gt => Ok(ConditionOp::Gt),
        Token::TwoEq => Ok(ConditionOp::Eq),
        _ => Err(CompilerError::NoConditionOperator),
    }
}

/// The arithmetic operation that a token names.
pub fn map_arithmetic_operator_token(x: &Token) -> (result: Result<ArithmeticOp, CompilerError>)
    ensures
        result == arithmetic_op_of(x@),
{
    match x {
        Token::Add => Ok(ArithmeticOp::Add),
        Token::Sub => Ok(ArithmeticOp::Sub),
        _ => Err(CompilerError::NoAddOrSubstract),
    }
}

/// Splits the tokens into the first one and those behind it.
pub fn head_token<'a>(tokens: &'a [Token], error: CompilerError) -> (result: Result<
    (&'a Token, &'a [Token]),
    CompilerError,
>)
    ensures
        match result {
            Ok((token, rest)) => {
                &&& tokens@.len() > 0
                &&& *token == tokens@[0]
                &&& rest@ == tokens@.subrange(1, tokens@.len() as int)
                &&& head(token_views(tokens@), error) matches Ok(split)
                &&& split.0 == token@
                &&& split.1 == token_views(rest@)
            },
            Err(e) => tokens@.len() == 0 && e == error,
        },
{
    if tokens.len() == 0 {
        return Err(error);
    }
    proof {
        lemma_views_behind(tokens@);
    }
    Ok((&tokens[0], slice_subrange(tokens, 1, tokens.len())))
}

/// Takes `token` from the front of the tokens.
pub fn consume_token<'a>(token: Token, tokens: &'a [Token], error: CompilerError) -> (result: Result<
    &'a [Token],
    CompilerError,
>)
    ensures
        match result {
            Ok(rest) => consume(token@, token_views(tokens@), error) matches Ok(left) && left == token_views(
                rest@,
            ) && rest@.len() < tokens@.len(),
            Err(e) => consume(token@, token_views(tokens@), error) == Err::<Seq<TokenView>, CompilerError>(e),
        },
{
    let (first_token, tokens) = head_token(tokens, error)?;
    if *first_token != token {
        Err(error)
    } else {
        Ok(tokens)
    }
}

/// Finds an identifier at the start of the tokens.
pub fn get_identifier<'a>(tokens: &'a [Token]) -> (result: Result<(Identifier, &'a [Token]), CompilerError>)
    ensures
        match result {
            Ok((node, rest)) => parse_identifier(token_views(tokens@)) matches Ok(parsed) && parsed.0 == node@ && parsed.1
                == token_views(rest@) && rest@.len() < tokens@.len(),
            Err(e) => parse_identifier(token_views(tokens@)) matches Err(refused) && refused == e,
        },
{
    let (token, tokens) = head_token(tokens, CompilerError::InvalidIdentifier)?;
    match token {
        Token::Id(key) => Ok((Identifier::new_variable(key.clone()), tokens)),
        Token::Int(val) => Ok((Identifier::new_constant(*val), tokens)),
        Token::IdRest => Ok((Identifier::new_specialized(SpecialIdentifier::DailyRest), tokens)),
        Token::IdEnergy => Ok((Identifier::new_specialized(SpecialIdentifier::Energy), tokens)),
        Token::Rand => Ok((Identifier::new_specialized(SpecialIdentifier::Rand), tokens)),
        _ => Err(CompilerError::InvalidIdentifier),
    }
}

/// Finds a condition at the start of the tokens.
pub fn get_condition<'a>(tokens: &'a [Token]) -> (result: Result<(Condition, &'a [Token]), CompilerError>)
    ensures
        match result {
            Ok((node, rest)) => parse_condition(token_views(tokens@)) matches Ok(parsed) && parsed.0 == node@ && parsed.1
                == token_views(rest@) && rest@.len() < tokens@.len(),
            Err(e) => parse_condition(token_views(tokens@)) matches Err(refused) && refused == e,
        },
{
    let tokens = consume_token(Token::Lpar, tokens, CompilerError::ConditionMissingLPar)?;
    let (identifier_a, tokens) = get_identifier(tokens)?;
    let (token, tokens) = head_token(tokens, CompilerError::ConditionMissingOperator)?;
    let op = map_operator_token(token)?;
    let (identifier_b, tokens) = get_identifier(tokens)?;
    let tokens = consume_token(Token::Rpar, tokens, CompilerError::ConditionMissingRPar)?;
    Ok((Condition::new(identifier_a, identifier_b, op), tokens))
}

/// Finds an arithmetic expression at the start of the tokens.
pub fn get_arithmetic<'a>(tokens: &'a [Token]) -> (result: Result<(Arithmetic, &'a [Token]), CompilerError>)
    ensures
        match result {
            Ok((node, rest)) => parse_arithmetic(token_views(tokens@)) matches Ok(parsed) && parsed.0 == node@ && parsed.1
                == token_views(rest@) && rest@.len() < tokens@.len(),
            Err(e) => parse_arithmetic(token_views(tokens@)) matches Err(refused) && refused == e,
        },
{
    let (token, tokens) = head_token(tokens, CompilerError::NoAddOrSubstract)?;
    let op = map_arithmetic_operator_token(token)?;
    let (identifier_a, tokens) = get_identifier(tokens)?;
    let (identifier_b, tokens) = get_identifier(tokens)?;
    Ok((Arithmetic::new(identifier_a, identifier_b, op), tokens))
}

/// Finds an expression at the start of the tokens. The first token decides
/// its kind and is not consumed.
pub fn get_expression<'a>(tokens: &'a [Token]) -> (result: Result<(ExpressionKind, &'a [Token]), CompilerError>)
    ensures
        match result {
            Ok((node, rest)) => parse_expression(token_views(tokens@)) matches Ok(parsed) && parsed.0 == node@ && parsed.1
                == token_views(rest@) && rest@.len() < tokens@.len(),
            Err(e) => parse_expression(token_views(tokens@)) matches Err(refused) && refused == e,
        },
{
    if tokens.len() == 0 {
        return Err(CompilerError::NoExpressionFound);
    }
    proof {
        lemma_views_behind(tokens@);
    }
    match &tokens[0] {
        Token::Lpar => {
            let (condition, rest) = get_condition(tokens)?;
            Ok((ExpressionKind::Condition(condition), rest))
        },
        Token::Add | Token::Sub => {
            let (arithmetic, rest) = get_arithmetic(tokens)?;
            Ok((ExpressionKind::Arithmetic(arithmetic), rest))
        },
        _ => {
            let (identifier, rest) = get_identifier(tokens)?;
            Ok((ExpressionKind::Identifier(identifier), rest))
        },
    }
}

/// The direction of a `move`, whose keyword has been consumed.
pub fn get_move<'a>(tokens: &'a [Token]) -> (result: Result<(StatementKind, &'a [Token]), CompilerError>)
    ensures
        match result {
            Ok((node, rest)) => parse_move(token_views(tokens@)) matches Ok(parsed) && parsed.0 == node@ && parsed.1
                == token_views(rest@) && rest@.len() < tokens@.len(),
            Err(e) => parse_move(token_views(tokens@)) matches Err(refused) && refused == e,
        },
{
    let (token, tokens) = head_token(tokens, CompilerError::MoveNotFollowedByDirection)?;
    let dir = map_direction_token(token)?;
    Ok((StatementKind::Action(Action::Move(dir)), tokens))
}

/// The direction of a `hunt`, whose keyword has been consumed.
pub fn get_hunt<'a>(tokens: &'a [Token]) -> (result: Result<(StatementKind, &'a [Token]), CompilerError>)
    ensures
        match result {
            Ok((node, rest)) => parse_hunt(token_views(tokens@)) matches Ok(parsed) && parsed.0 == node@ && parsed.1
                == token_views(rest@) && rest@.len() < tokens@.len(),
            Err(e) => parse_hunt(token_views(tokens@)) matches Err(refused) && refused == e,
        },
{
    let (token, tokens) = head_token(tokens, CompilerError::HuntNotFollowedByDirection)?;
    let dir = map_direction_token(token)?;
    Ok((StatementKind::Action(Action::Hunt(dir)), tokens))
}

/// The direction of a `breed`, whose keyword has been consumed.
pub fn get_breed<'a>(tokens: &'a [Token]) -> (result: Result<(StatementKind, &'a [Token]), CompilerError>)
    ensures
        match result {
            Ok((node, rest)) => parse_breed(token_views(tokens@)) matches Ok(parsed) && parsed.0 == node@ && parsed.1
                == token_views(rest@) && rest@.len() < tokens@.len(),
            Err(e) => parse_breed(token_views(tokens@)) matches Err(refused) && refused == e,
        },
{
    let (token, tokens) = head_token(tokens, CompilerError::BreedNotFollowedByDirection)?;
    let dir = map_direction_token(token)?;
    Ok((StatementKind::Action(Action::Breed(dir)), tokens))
}

/// The count of a `rest`, whose keyword has been consumed.
pub fn get_rest<'a>(tokens: &'a [Token]) -> (result: Result<(StatementKind, &'a [Token]), CompilerError>)
    ensures
        match result {
            Ok((node, rest)) => parse_rest(token_views(tokens@)) matches Ok(parsed) && parsed.0 == node@ && parsed.1
                == token_views(rest@) && rest@.len() < tokens@.len(),
            Err(e) => parse_rest(token_views(tokens@)) matches Err(refused) && refused == e,
        },
{
    let (token, tokens) = head_token(tokens, CompilerError::RestNotFollowedByCount)?;
    if let Token::Int(count) = token {
        Ok((StatementKind::Action(Action::Rest(*count)), tokens))
    } else {
        Err(CompilerError::RestNotFollowedByCount)
    }
}

/// The assignment to the variable `key`, whose name has been consumed.
pub fn get_assign<'a>(tokens: &'a [Token], key: &String) -> (result: Result<
    (StatementKind, &'a [Token]),
    CompilerError,
>)
    ensures
        match result {
            Ok((node, rest)) => parse_assign(token_views(tokens@), key@) matches Ok(parsed) && parsed.0 == node@ && parsed.1
                == token_views(rest@) && rest@.len() < tokens@.len(),
            Err(e) => parse_assign(token_views(tokens@), key@) matches Err(refused) && refused == e,
        },
{
    let var = Variable::new(key.clone());
    let tokens = consume_token(Token::OneEq, tokens, CompilerError::InvalidAssignStatement)?;
    let (expr, tokens) = get_expression(tokens)?;
    Ok((StatementKind::Assign(Assign::new(var, expr)), tokens))
}

/// The conditional whose `if` has been consumed.
pub fn get_ifthen<'a>(tokens: &'a [Token]) -> (result: Result<(StatementKind, &'a [Token]), CompilerError>)
    ensures
        match result {
            Ok((node, rest)) => parse_ifthen(token_views(tokens@)) matches Ok(parsed) && parsed.0 == node@ && parsed.1
                == token_views(rest@) && rest@.len() < tokens@.len(),
            Err(e) => parse_ifthen(token_views(tokens@)) matches Err(refused) && refused == e,
        },
    decreases tokens@.len(), 1nat,
{
    let (condition, tokens) = get_condition(tokens)?;
    let tokens = consume_token(Token::Then, tokens, CompilerError::NoThenKeyword)?;
    let (then_statement, tokens) = get_statement(tokens)?;
    let (else_or_end, tokens) = head_token(tokens, CompilerError::NoElseOrEnd)?;
    if *else_or_end == Token::End {
        return Ok((StatementKind::IfThen(IfThen::new(condition, then_statement, None)), tokens));
    } else if *else_or_end != Token::Else {
        return Err(CompilerError::NoElseOrEnd);
    }
    let (else_statement, tokens) = get_statement(tokens)?;
    let tokens = consume_token(Token::End, tokens, CompilerError::NoEndKeyword)?;
    Ok((StatementKind::IfThen(IfThen::new(condition, then_statement, Some(else_statement))), tokens))
}

/// The block whose keyword has been consumed.
pub fn get_block<'a>(tokens: &'a [Token]) -> (result: Result<(StatementKind, &'a [Token]), CompilerError>)
    ensures
        match result {
            Ok((node, rest)) => parse_block(token_views(tokens@), Seq::empty()) matches Ok(parsed) && parsed.0 == node@ && parsed.1
                == token_views(rest@) && rest@.len() < tokens@.len(),
            Err(e) => parse_block(token_views(tokens@), Seq::empty()) matches Err(refused) && refused == e,
        },
    decreases tokens@.len(), 1nat,
{
    let mut statements: Vec<StatementKind> = Vec::new();
    let mut loop_tokens = tokens;
    assert(views_of(statements@) =~= Seq::<StatementView>::empty());
    loop
        invariant
            loop_tokens@.len() <= tokens@.len(),
            parse_block(token_views(tokens@), Seq::empty()) == parse_block(
                token_views(loop_tokens@),
                views_of(statements@),
            ),
        decreases loop_tokens@.len(),
    {
        if loop_tokens.len() == 0 {
            return Err(CompilerError::NoEndBlockFound);
        }
        proof {
            lemma_views_behind(loop_tokens@);
        }
        if loop_tokens[0] == Token::End {
            return Ok(
                (StatementKind::Block(Block::new(statements)), slice_subrange(loop_tokens, 1, loop_tokens.len())),
            );
        }
        let (statement, rest) = get_statement(loop_tokens)?;
        proof {
            assert(views_of(statements@.push(statement)) =~= views_of(statements@).push(statement@));
        }
        loop_tokens = rest;
        statements.push(statement);
    }
}

/// Finds a statement at the start of the tokens. The first token decides its
/// kind.
pub fn get_statement<'a>(tokens: &'a [Token]) -> (result: Result<(StatementKind, &'a [Token]), CompilerError>)
    ensures
        match result {
            Ok((node, rest)) => parse_statement(token_views(tokens@)) matches Ok(parsed) && parsed.0 == node@ && parsed.1
                == token_views(rest@) && rest@.len() < tokens@.len(),
            Err(e) => parse_statement(token_views(tokens@)) matches Err(refused) && refused == e,
        },
    decreases tokens@.len(), 0nat,
{
    let (token, tokens) = head_token(tokens, CompilerError::ImproperStartOfStatment)?;
    match token {
        Token::Block => get_block(tokens),
        Token::If => get_ifthen(tokens),
        Token::Id(key) => get_assign(tokens, key),
        Token::Move => get_move(tokens),
        Token::Hunt => get_hunt(tokens),
        Token::Breed => get_breed(tokens),
        Token::Rest => get_rest(tokens),
        _ => Err(CompilerError::ImproperStartOfStatment),
    }
}

/// Compiles the text of a program: the keyword `sim`, one statement, and the
/// keyword `end` as the last token.
pub fn get_program(text: &str) -> (result: Result<Program, CompilerOrLexerError>)
    ensures
        match result {
            Ok(program) => compile(text@) == Ok::<StatementView, CompilerOrLexerError>(program@),
            Err(e) => compile(text@) == Err::<StatementView, CompilerOrLexerError>(e),
        },
{
    let tokens = match tokenize(text) {
        Ok(tokens) => tokens,
        Err(e) => {
            return Err(CompilerOrLexerError::L(e));
        },
    };
    match parse_tokens(tokens.as_slice()) {
        Ok(statement) => Ok(Program::new(statement)),
        Err(e) => Err(CompilerOrLexerError::C(e)),
    }
}

/// Parses the tokens of a whole program.
pub fn parse_tokens(tokens: &[Token]) -> (result: Result<StatementKind, CompilerError>)
    ensures
        match result {
            Ok(statement) => parse_program(token_views(tokens@)) == Ok::<StatementView, CompilerError>(statement@),
            Err(e) => parse_program(token_views(tokens@)) == Err::<StatementView, CompilerError>(e),
        },
{
    let tokens = consume_token(Token::Sim, tokens, CompilerError::NoSimKeyword)?;
    let (statement, tokens) = get_statement(tokens)?;
    let tokens = consume_token(Token::End, tokens, CompilerError::EndOfProgramNotLastToken)?;
    if tokens.len() != 0 {
        return Err(CompilerError::EndOfProgramNotLastToken);
    }
    Ok(statement)
}


/// The identifier that a token denotes, if it denotes one.
pub open spec fn identifier_of(token: TokenView) -> Option<IdentifierView> {
    match token {
        TokenView::Id(key) => Some(IdentifierView::Variable(key)),
        TokenView::Int(value) => Some(IdentifierView::Constant(value)),
        TokenView::IdRest => Some(IdentifierView::Special(SpecialIdentifier::DailyRest)),
        TokenView::IdEnergy => Some(IdentifierView::Special(SpecialIdentifier::Energy)),
        TokenView::Rand => Some(IdentifierView::Special(SpecialIdentifier::Rand)),
        _ => None,
    }
}

/// `add` or `sub` before two identifiers parses to the arithmetic expression
/// over these identifiers, and that expression evaluates to the sum or the
/// difference of their values, where it fits the 32 bits of the language.
pub proof fn lemma_arithmetic_adds_and_subtracts(
    op: TokenView,
    first: TokenView,
    second: TokenView,
    rest: Seq<TokenView>,
    cs: crate::program::CreatureStats,
    vars: Map<Seq<char>, i32>,
    draws: Seq<i32>,
)
    requires
        op == TokenView::Add || op == TokenView::Sub,
        identifier_of(first) is Some,
        identifier_of(second) is Some,
        crate::program::eval_operands(
            identifier_of(first)->Some_0,
            identifier_of(second)->Some_0,
            cs,
            vars,
            draws,
        ).values is Ok,
    ensures
        ({
            let a = identifier_of(first)->Some_0;
            let b = identifier_of(second)->Some_0;
            let values = crate::program::eval_operands(a, b, cs, vars, draws).values->Ok_0;
            let sum = values.0 + values.1;
            let difference = values.0 - values.1;
            &&& parse_arithmetic(seq![op, first, second] + rest) matches Ok(parsed)
            &&& parsed.1 == rest
            &&& parsed.0.a == a
            &&& parsed.0.b == b
            &&& op == TokenView::Add ==> parsed.0.op == ArithmeticOp::Add
            &&& op == TokenView::Sub ==> parsed.0.op == ArithmeticOp::Sub
            &&& op == TokenView::Add && i32::MIN <= sum <= i32::MAX ==> parsed.0.eval(cs, vars, draws).value == Ok::<
                i32,
                crate::program::RuntimeError,
            >(sum as i32)
            &&& op == TokenView::Sub && i32::MIN <= difference <= i32::MAX ==> parsed.0.eval(cs, vars, draws).value
                == Ok::<i32, crate::program::RuntimeError>(difference as i32)
        }),
{
    let tokens = seq![op, first, second] + rest;
    let r1 = behind(tokens);
    let r2 = behind(r1);
    let r3 = behind(r2);
    assert(r1 =~= seq![first, second] + rest);
    assert(r2 =~= seq![second] + rest);
    assert(r3 =~= rest);
    assert(tokens[0] == op);
    assert(r1[0] == first);
    assert(r2[0] == second);
}

/// A successful parse of a statement leaves fewer tokens than it was given.
pub proof fn lemma_parse_consumes(tokens: Seq<TokenView>)
    ensures
        parse_statement(tokens) matches Ok(parsed) ==> parsed.1.len() < tokens.len(),
    decreases tokens.len(), 0nat,
{
    if tokens.len() > 0 {
        match tokens[0] {
            TokenView::Block => {
                lemma_parse_block_consumes(behind(tokens), Seq::empty());
            },
            TokenView::If => {
                lemma_parse_ifthen_consumes(behind(tokens));
            },
            _ => {},
        }
    }
}

/// A successful parse of the rest of a block leaves fewer tokens than it was
/// given.
pub proof fn lemma_parse_block_consumes(tokens: Seq<TokenView>, done: Seq<StatementView>)
    ensures
        parse_block(tokens, done) matches Ok(parsed) ==> parsed.1.len() < tokens.len(),
    decreases tokens.len(), 1nat,
{
    if tokens.len() > 0 && tokens[0] != TokenView::End {
        lemma_parse_consumes(tokens);
        if let Ok((statement, rest)) = parse_statement(tokens) {
            lemma_parse_block_consumes(rest, done.push(statement));
        }
    }
}

/// A successful parse of a conditional leaves fewer tokens than it was
/// given.
pub proof fn lemma_parse_ifthen_consumes(tokens: Seq<TokenView>)
    ensures
        parse_ifthen(tokens) matches Ok(parsed) ==> parsed.1.len() < tokens.len(),
    decreases tokens.len(), 1nat,
{
    if let Ok((condition, r1)) = parse_condition(tokens) {
        if let Ok(r2) = consume(TokenView::Then, r1, CompilerError::NoThenKeyword) {
            lemma_parse_consumes(r2);
            if let Ok((then_statement, r3)) = parse_statement(r2) {
                if let Ok((token, r4)) = head(r3, CompilerError::NoElseOrEnd) {
                    if token == TokenView::Else {
                        lemma_parse_consumes(r4);
                    }
                }
            }
        }
    }
}

/// A program whose statement is not followed by `end`, or whose `end` is not
/// its last token, does not compile: it is refused as
/// `EndOfProgramNotLastToken`.
pub proof fn lemma_program_needs_final_end(tokens: Seq<TokenView>)
    requires
        tokens.len() > 0,
        tokens[0] == TokenView::Sim,
        parse_statement(behind(tokens)) is Ok,
        ({
            let rest = parse_statement(behind(tokens))->Ok_0.1;
            rest.len() != 1 || rest[0] != TokenView::End
        }),
    ensures
        parse_program(tokens) == Err::<StatementView, CompilerError>(CompilerError::EndOfProgramNotLastToken),
{
}

} // verus!
