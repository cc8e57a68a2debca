//! Where compiling stops: how far the lexer and the parser get in a text
//! that is no program.
//!
//! An error of the lexer or the parser says what was expected. The functions
//! of this module say where: `lex_reach` is the number of characters that
//! the lexer has read when it stops, `reach_program` the number of tokens
//! that the parser has consumed when it stops. In a text that is no program
//! these are the index of the character, and the index of the token, at which
//! the error arose.

use vstd::prelude::*;
use vstd::std_specs::iter::IteratorSpec;
use vstd::string::StringExecFns;
use crate::compiler::{
    arithmetic_op_of, behind, compile, condition_op_of, consume, consume_token, direction_of, get_condition,
    get_identifier, get_statement, head, head_token, lemma_views_behind, map_arithmetic_operator_token,
    map_direction_token, map_operator_token, parse_block, parse_condition, parse_identifier, parse_ifthen,
    parse_program, parse_statement, parse_tokens, CompilerError, CompilerOrLexerError,
};
use crate::lexer::{
    char_type, lemma_scan_error_stays, lex, scan_first, str2token, tokenize, transition, LexerError, Scan, State,
};
use crate::program::{capped, Program, StatementView};
use crate::render::{digits_text, push_digits};
use crate::token::{token_views, Token, TokenView};

verus! {

/// 1 where an identifier stands at the front of the tokens, else 0.
pub open spec fn reach_identifier(tokens: Seq<TokenView>) -> nat {
    if parse_identifier(tokens) is Ok {
        1
    } else {
        0
    }
}

/// How many tokens of a condition stand at the front of the tokens.
pub open spec fn reach_condition(tokens: Seq<TokenView>) -> nat {
    match consume(TokenView::Lpar, tokens, CompilerError::ConditionMissingLPar) {
        Err(_) => 0,
        Ok(r1) => match parse_identifier(r1) {
            Err(_) => 1,
            Ok((_, r2)) => match head(r2, CompilerError::ConditionMissingOperator) {
                Err(_) => 2,
                Ok((token, r3)) => match condition_op_of(token) {
                    Err(_) => 2,
                    Ok(_) => match parse_identifier(r3) {
                        Err(_) => 3,
                        Ok((_, r4)) => match consume(TokenView::Rpar, r4, CompilerError::ConditionMissingRPar) {
                            Err(_) => 4,
                            Ok(_) => 5,
                        },
                    },
                },
            },
        },
    }
}

/// How many tokens of an arithmetic expression stand at the front of the
/// tokens.
pub open spec fn reach_arithmetic(tokens: Seq<TokenView>) -> nat {
    match head(tokens, CompilerError::NoAddOrSubstract) {
        Err(_) => 0,
        Ok((token, r1)) => match arithmetic_op_of(token) {
            Err(_) => 0,
            Ok(_) => match parse_identifier(r1) {
                Err(_) => 1,
                Ok((_, r2)) => match parse_identifier(r2) {
                    Err(_) => 2,
                    Ok(_) => 3,
                },
            },
        },
    }
}

/// How many tokens of an expression stand at the front of the tokens.
pub open spec fn reach_expression(tokens: Seq<TokenView>) -> nat {
    if tokens.len() == 0 {
        0
    } else {
        match tokens[0] {
            TokenView::Lpar => reach_condition(tokens),
            TokenView::Add | TokenView::Sub => reach_arithmetic(tokens),
            _ => reach_identifier(tokens),
        }
    }
}

/// 1 where a direction stands at the front of the tokens, else 0.
pub open spec fn reach_direction(tokens: Seq<TokenView>) -> nat {
    if tokens.len() > 0 && direction_of(tokens[0]) is Ok {
        1
    } else {
        0
    }
}

/// 1 where an integer stands at the front of the tokens, else 0.
pub open spec fn reach_count(tokens: Seq<TokenView>) -> nat {
    if tokens.len() > 0 && tokens[0] is Int {
        1
    } else {
        0
    }
}

/// How many tokens of an assignment, behind its name, stand at the front of
/// the tokens.
pub open spec fn reach_assign(tokens: Seq<TokenView>) -> nat {
    match consume(TokenView::OneEq, tokens, CompilerError::InvalidAssignStatement) {
        Err(_) => 0,
        Ok(r1) => 1 + reach_expression(r1),
    }
}

/// How many tokens the parser has consumed when it stops on a statement:
/// all the tokens of the statement where there is one, else the tokens in
/// front of the one that the grammar does not allow there.
pub open spec fn reach_statement(tokens: Seq<TokenView>) -> nat
    decreases tokens.len(), 0nat,
{
    if tokens.len() == 0 {
        0
    } else {
        match tokens[0] {
            TokenView::Block => 1 + reach_block(behind(tokens)),
            TokenView::If => 1 + reach_ifthen(behind(tokens)),
            TokenView::Id(_) => 1 + reach_assign(behind(tokens)),
            TokenView::Move | TokenView::Hunt | TokenView::Breed => 1 + reach_direction(behind(tokens)),
            TokenView::Rest => 1 + reach_count(behind(tokens)),
            _ => 0,
        }
    }
}

/// How many tokens the parser has consumed when it stops on the rest of a
/// block.
pub open spec fn reach_block(tokens: Seq<TokenView>) -> nat
    decreases tokens.len(), 1nat,
{
    if tokens.len() == 0 {
        0
    } else if tokens[0] == TokenView::End {
        1
    } else {
        match parse_statement(tokens) {
            Err(_) => reach_statement(tokens),
            Ok((_, rest)) => if rest.len() < tokens.len() {
                (tokens.len() - rest.len()) as nat + reach_block(rest)
            } else {
                0
            },
        }
    }
}

/// How many tokens the parser has consumed when it stops on a conditional,
/// behind its `if`.
pub open spec fn reach_ifthen(tokens: Seq<TokenView>) -> nat
    decreases tokens.len(), 1nat,
{
    match parse_condition(tokens) {
        Err(_) => reach_condition(tokens),
        Ok((_, r1)) => match consume(TokenView::Then, r1, CompilerError::NoThenKeyword) {
            Err(_) => (tokens.len() - r1.len()) as nat,
            Ok(r2) => match parse_statement(r2) {
                Err(_) => (tokens.len() - r2.len()) as nat + reach_statement(r2),
                Ok((_, r3)) => {
                    let done = (tokens.len() - r3.len()) as nat;
                    match head(r3, CompilerError::NoElseOrEnd) {
                        Err(_) => done,
                        Ok((token, r4)) => if token == TokenView::End {
                            done + 1
                        } else if token != TokenView::Else || r4.len() >= tokens.len() {
                            done
                        } else {
                            match parse_statement(r4) {
                                Err(_) => done + 1 + reach_statement(r4),
                                Ok((_, r5)) => match consume(TokenView::End, r5, CompilerError::NoEndKeyword) {
                                    Err(_) => (tokens.len() - r5.len()) as nat,
                                    Ok(r6) => (tokens.len() - r6.len()) as nat,
                                },
                            }
                        },
                    }
                },
            },
        },
    }
}

/// How many tokens the parser has consumed when it stops on a program. In a
/// sequence of tokens that is no program this is the index of the token at
/// which the error arose; for a program it is the number of its tokens.
pub open spec fn reach_program(tokens: Seq<TokenView>) -> nat {
    match consume(TokenView::Sim, tokens, CompilerError::NoSimKeyword) {
        Err(_) => 0,
        Ok(r1) => match parse_statement(r1) {
            Err(_) => 1 + reach_statement(r1),
            Ok((_, r2)) => match consume(TokenView::End, r2, CompilerError::EndOfProgramNotLastToken) {
                Err(_) => (tokens.len() - r2.len()) as nat,
                Ok(r3) => (tokens.len() - r3.len()) as nat,
            },
        },
    }
}

/// The parser stops inside the tokens; and where it finds a statement, it
/// stops behind the statement.
pub proof fn lemma_reach_statement(tokens: Seq<TokenView>)
    ensures
        reach_statement(tokens) <= tokens.len(),
        parse_statement(tokens) matches Ok(parsed) ==> reach_statement(tokens) + parsed.1.len() == tokens.len(),
    decreases tokens.len(), 0nat,
{
    if tokens.len() > 0 {
        match tokens[0] {
            TokenView::Block => {
                lemma_reach_block(behind(tokens), Seq::empty());
            },
            TokenView::If => {
                lemma_reach_ifthen(behind(tokens));
            },
            _ => {},
        }
    }
}

/// The parser stops inside the rest of a block; and where it finds the end
/// of the block, it stops behind it.
pub proof fn lemma_reach_block(tokens: Seq<TokenView>, done: Seq<StatementView>)
    ensures
        reach_block(tokens) <= tokens.len(),
        parse_block(tokens, done) matches Ok(parsed) ==> reach_block(tokens) + parsed.1.len() == tokens.len(),
    decreases tokens.len(), 1nat,
{
    if tokens.len() > 0 && tokens[0] != TokenView::End {
        lemma_reach_statement(tokens);
        if let Ok((statement, rest)) = parse_statement(tokens) {
            lemma_reach_block(rest, done.push(statement));
        }
    }
}

/// The parser stops inside a conditional; and where it finds its end, it
/// stops behind it.
pub proof fn lemma_reach_ifthen(tokens: Seq<TokenView>)
    ensures
        reach_ifthen(tokens) <= tokens.len(),
        parse_ifthen(tokens) matches Ok(parsed) ==> reach_ifthen(tokens) + parsed.1.len() == tokens.len(),
    decreases tokens.len(), 1nat,
{
    if let Ok((condition, r1)) = parse_condition(tokens) {
        if let Ok(r2) = consume(TokenView::Then, r1, CompilerError::NoThenKeyword) {
            lemma_reach_statement(r2);
            if let Ok((then_statement, r3)) = parse_statement(r2) {
                if let Ok((token, r4)) = head(r3, CompilerError::NoElseOrEnd) {
                    if token == TokenView::Else {
                        lemma_reach_statement(r4);
                    }
                }
            }
        }
    }
}

/// The parser stops inside the tokens. It gets to the end of a program, and
/// it stops short of the end, or at the end with something missing, where
/// the tokens are no program.
pub proof fn lemma_reach_program(tokens: Seq<TokenView>)
    ensures
        reach_program(tokens) <= tokens.len(),
        parse_program(tokens) is Ok ==> reach_program(tokens) == tokens.len(),
{
    if let Ok(r1) = consume(TokenView::Sim, tokens, CompilerError::NoSimKeyword) {
        lemma_reach_statement(r1);
    }
}


/// How many tokens of a condition stand at the front of the tokens.
fn locate_condition(tokens: &[Token]) -> (reach: usize)
    ensures
        reach == reach_condition(token_views(tokens@)),
        reach <= tokens@.len(),
{
    let r1 = match consume_token(Token::Lpar, tokens, CompilerError::ConditionMissingLPar) {
        Ok(rest) => rest,
        Err(_) => {
            return 0;
        },
    };
    let r2 = match get_identifier(r1) {
        Ok((_, rest)) => rest,
        Err(_) => {
            return 1;
        },
    };
    let (token, r3) = match head_token(r2, CompilerError::ConditionMissingOperator) {
        Ok(split) => split,
        Err(_) => {
            return 2;
        },
    };
    if map_operator_token(token).is_err() {
        return 2;
    }
    let r4 = match get_identifier(r3) {
        Ok((_, rest)) => rest,
        Err(_) => {
            return 3;
        },
    };
    match consume_token(Token::Rpar, r4, CompilerError::ConditionMissingRPar) {
        Ok(_) => 5,
        Err(_) => 4,
    }
}

/// How many tokens of an arithmetic expression stand at the front of the
/// tokens.
fn locate_arithmetic(tokens: &[Token]) -> (reach: usize)
    ensures
        reach == reach_arithmetic(token_views(tokens@)),
        reach <= tokens@.len(),
{
    let (token, r1) = match head_token(tokens, CompilerError::NoAddOrSubstract) {
        Ok(split) => split,
        Err(_) => {
            return 0;
        },
    };
    if map_arithmetic_operator_token(token).is_err() {
        return 0;
    }
    let r2 = match get_identifier(r1) {
        Ok((_, rest)) => rest,
        Err(_) => {
            return 1;
        },
    };
    match get_identifier(r2) {
        Ok(_) => 3,
        Err(_) => 2,
    }
}

/// How many tokens of an expression stand at the front of the tokens.
fn locate_expression(tokens: &[Token]) -> (reach: usize)
    ensures
        reach == reach_expression(token_views(tokens@)),
        reach <= tokens@.len(),
{
    if tokens.len() == 0 {
        return 0;
    }
    proof {
        lemma_views_behind(tokens@);
    }
    match &tokens[0] {
        Token::Lpar => locate_condition(tokens),
        Token::Add | Token::Sub => locate_arithmetic(tokens),
        _ => match get_identifier(tokens) {
            Ok(_) => 1,
            Err(_) => 0,
        },
    }
}

/// How many tokens the parser has consumed when it stops on a statement.
fn locate_statement(tokens: &[Token]) -> (reach: usize)
    ensures
        reach == reach_statement(token_views(tokens@)),
        reach <= tokens@.len(),
    decreases tokens@.len(), 0nat,
{
    let total = tokens.len();
    let (token, rest) = match head_token(tokens, CompilerError::ImproperStartOfStatment) {
        Ok(split) => split,
        Err(_) => {
            return 0;
        },
    };
    proof {
        lemma_views_behind(tokens@);
    }
    match token {
        Token::Block => 1 + locate_block(rest),
        Token::If => 1 + locate_ifthen(rest),
        Token::Id(_) => match consume_token(Token::OneEq, rest, CompilerError::InvalidAssignStatement) {
            Ok(r1) => 2 + locate_expression(r1),
            Err(_) => 1,
        },
        Token::Move | Token::Hunt | Token::Breed => {
            if rest.len() > 0 {
                proof {
                    lemma_views_behind(rest@);
                }
                if map_direction_token(&rest[0]).is_ok() {
                    return 2;
                }
            }
            1
        },
        Token::Rest => {
            if rest.len() > 0 {
                proof {
                    lemma_views_behind(rest@);
                }
                if let Token::Int(_) = &rest[0] {
                    return 2;
                }
            }
            1
        },
        _ => 0,
    }
}

/// How many tokens the parser has consumed when it stops on the rest of a
/// block.
fn locate_block(tokens: &[Token]) -> (reach: usize)
    ensures
        reach == reach_block(token_views(tokens@)),
        reach <= tokens@.len(),
    decreases tokens@.len(), 1nat,
{
    let total = tokens.len();
    let mut consumed: usize = 0;
    let mut loop_tokens = tokens;
    loop
        invariant
            total == tokens@.len(),
            consumed + loop_tokens@.len() == tokens@.len(),
            reach_block(token_views(tokens@)) == consumed + reach_block(token_views(loop_tokens@)),
        decreases loop_tokens@.len(),
    {
        if loop_tokens.len() == 0 {
            return consumed;
        }
        proof {
            lemma_views_behind(loop_tokens@);
        }
        if loop_tokens[0] == Token::End {
            return consumed + 1;
        }
        match get_statement(loop_tokens) {
            Ok((_, rest)) => {
                consumed = consumed + (loop_tokens.len() - rest.len());
                loop_tokens = rest;
            },
            Err(_) => {
                return consumed + locate_statement(loop_tokens);
            },
        }
    }
}

/// How many tokens the parser has consumed when it stops on a conditional,
/// behind its `if`.
fn locate_ifthen(tokens: &[Token]) -> (reach: usize)
    ensures
        reach == reach_ifthen(token_views(tokens@)),
        reach <= tokens@.len(),
    decreases tokens@.len(), 1nat,
{
    let total = tokens.len();
    let r1 = match get_condition(tokens) {
        Ok((_, rest)) => rest,
        Err(_) => {
            return locate_condition(tokens);
        },
    };
    let r2 = match consume_token(Token::Then, r1, CompilerError::NoThenKeyword) {
        Ok(rest) => rest,
        Err(_) => {
            return total - r1.len();
        },
    };
    let r3 = match get_statement(r2) {
        Ok((_, rest)) => rest,
        Err(_) => {
            return (total - r2.len()) + locate_statement(r2);
        },
    };
    let done = total - r3.len();
    let (token, r4) = match head_token(r3, CompilerError::NoElseOrEnd) {
        Ok(split) => split,
        Err(_) => {
            return done;
        },
    };
    if *token == Token::End {
        return done + 1;
    } else if *token != Token::Else {
        return done;
    }
    match get_statement(r4) {
        Err(_) => done + 1 + locate_statement(r4),
        Ok((_, r5)) => match consume_token(Token::End, r5, CompilerError::NoEndKeyword) {
            Err(_) => total - r5.len(),
            Ok(r6) => total - r6.len(),
        },
    }
}

/// How many tokens the parser has consumed when it stops on a program: in a
/// sequence of tokens that is no program, the index of the token at which the
/// error arose.
pub fn locate_program(tokens: &[Token]) -> (reach: usize)
    ensures
        reach == reach_program(token_views(tokens@)),
        reach <= tokens@.len(),
{
    let total = tokens.len();
    let r1 = match consume_token(Token::Sim, tokens, CompilerError::NoSimKeyword) {
        Ok(rest) => rest,
        Err(_) => {
            return 0;
        },
    };
    let r2 = match get_statement(r1) {
        Ok((_, rest)) => rest,
        Err(_) => {
            return 1 + locate_statement(r1);
        },
    };
    match consume_token(Token::End, r2, CompilerError::EndOfProgramNotLastToken) {
        Err(_) => total - r2.len(),
        Ok(r3) => total - r3.len(),
    }
}


/// How many of the first `n` characters the automaton has read when it
/// stops: all of them where it meets no error, else those in front of the
/// character at which it meets one.
pub open spec fn scan_reach(text: Seq<char>, n: nat) -> nat
    decreases n,
{
    if n == 0 {
        0
    } else if scan_first(text, n) is Ok {
        n
    } else {
        scan_reach(text, (n - 1) as nat)
    }
}

/// How many characters the lexer has read when it stops. In a text that the
/// automaton does not get through, this is the index of the character at
/// which the error arose; else it is the length of the text.
pub open spec fn lex_reach(text: Seq<char>) -> nat {
    scan_reach(text, text.len())
}

/// The automaton stops inside the text.
pub proof fn lemma_scan_reach(text: Seq<char>, n: nat)
    ensures
        scan_reach(text, n) <= n,
        scan_reach(text, n) == 0 || scan_first(text, scan_reach(text, n)) is Ok,
        scan_reach(text, n) < n ==> scan_first(text, scan_reach(text, n) + 1) is Err,
    decreases n,
{
    if n > 0 && scan_first(text, n) is Err {
        lemma_scan_reach(text, (n - 1) as nat);
    }
}

/// Where the automaton meets an error at the character `k`, it has read `k`
/// characters however long the text is.
proof fn lemma_scan_reach_stops(text: Seq<char>, k: nat, n: nat)
    requires
        k < n,
        scan_first(text, k) is Ok,
        scan_first(text, k + 1) is Err,
    ensures
        scan_reach(text, n) == k,
    decreases n,
{
    lemma_scan_error_stays(text, k + 1, n);
    if n > k + 1 {
        lemma_scan_reach_stops(text, k, (n - 1) as nat);
    } else {
        assert(scan_reach(text, n) == scan_reach(text, k));
        assert(scan_reach(text, k) == k);
    }
}

/// How many characters the lexer has read when it stops on the text.
pub fn locate_lexer_error(contents: &str) -> (reach: usize)
    ensures
        reach == capped(lex_reach(contents@)),
{
    let ghost mut head: nat = 0;
    let ghost mut tail: int = 0;
    let ghost mut tokens: Seq<TokenView> = Seq::empty();
    let mut reach: usize = 0;
    let mut state = State::Initial;
    let mut framed = String::new();
    let mut chars = contents.chars();
    loop
        invariant_except_break
            0 <= tail <= head <= contents@.len(),
            reach == capped(head),
            chars.remaining() == contents@.skip(head as int),
            scan_first(contents@, head) == Ok::<Scan, LexerError>(Scan { state, tail, tokens }),
            state == State::Initial ==> framed@ == Seq::<char>::empty(),
            state != State::Initial ==> framed@ == contents@.subrange(tail, head as int),
            state != State::Stop,
        ensures
            reach == capped(lex_reach(contents@)),
        decreases contents@.len() - head,
    {
        let c = match chars.next() {
            Some(c) => c,
            None => {
                proof {
                    assert(head == contents@.len());
                    assert(scan_reach(contents@, head) == head);
                }
                break ;
            },
        };
        assert(c == contents@[head as int]);
        proof {
            if scan_first(contents@, head + 1) is Err {
                lemma_scan_reach_stops(contents@, head, contents@.len());
            }
        }
        let ct = match char_type(c) {
            Ok(ct) => ct,
            Err(_) => {
                return reach;
            },
        };
        let mut new_state = match transition(&ct, &state) {
            Ok(new_state) => new_state,
            Err(_) => {
                return reach;
            },
        };
        match new_state {
            State::Initial => {
                proof {
                    tail = head as int;
                }
            },
            State::Stop => {
                let token = match str2token(framed.as_str(), &state) {
                    Ok(token) => token,
                    Err(_) => {
                        return reach;
                    },
                };
                proof {
                    tokens = tokens.push(token@);
                    tail = head as int;
                }
                framed = String::new();
                new_state = match transition(&ct, &State::Initial) {
                    Ok(restart) => restart,
                    Err(_) => {
                        return reach;
                    },
                };
                if new_state != State::Initial {
                    framed.push(c);
                }
            },
            _ => {
                proof {
                    if state == State::Initial {
                        tail = head as int;
                    }
                }
                framed.push(c);
            },
        }
        proof {
            if new_state != State::Initial {
                assert(framed@ =~= contents@.subrange(tail, (head + 1) as int));
            }
            head = head + 1;
        }
        state = new_state;
        reach = reach.saturating_add(1);
    }
    reach
}

/// What went wrong in a text that is no program, and where.
#[derive(Clone, Copy, Debug, PartialEq, Eq, Structural)]
pub struct Diagnosis {
    /// The error of the lexer or of the parser.
    pub error: CompilerOrLexerError,
    /// For an error of the lexer, the index of the character at which it
    /// arose; for an error of the parser, the index of the token.
    pub position: usize,
}

/// What is wrong with a text, if it is no program.
pub open spec fn diagnosis_of(text: Seq<char>) -> Option<Diagnosis> {
    match lex(text) {
        Err(e) => Some(Diagnosis { error: CompilerOrLexerError::L(e), position: capped(lex_reach(text)) }),
        Ok(tokens) => match parse_program(tokens) {
            Err(e) => Some(
                Diagnosis { error: CompilerOrLexerError::C(e), position: capped(reach_program(tokens)) },
            ),
            Ok(_) => None,
        },
    }
}

impl Diagnosis {
    /// The error, and the character or the token at which it arose.
    pub open spec fn text(self) -> Seq<char> {
        match self.error {
            CompilerOrLexerError::L(_) => self.error.text() + " at character "@ + digits_text(self.position as nat),
            CompilerOrLexerError::C(_) => self.error.text() + " at token "@ + digits_text(self.position as nat),
        }
    }

    /// The diagnosis as shown to a user.
    pub fn to_string(&self) -> (text: String)
        ensures
            text@ == self.text(),
    {
        let mut text = self.error.to_string();
        match self.error {
            CompilerOrLexerError::L(_) => text.append(" at character "),
            CompilerOrLexerError::C(_) => text.append(" at token "),
        }
        push_digits(&mut text, self.position as u64);
        text
    }
}

/// Compiles the text of a program, or says what is wrong with it and where.
pub fn diagnose(text: &str) -> (result: Result<Program, Diagnosis>)
    ensures
        match result {
            Ok(program) => compile(text@) == Ok::<StatementView, CompilerOrLexerError>(program@) && diagnosis_of(
                text@,
            ) is None,
            Err(diagnosis) => diagnosis_of(text@) == Some(diagnosis) && compile(text@) == Err::<
                StatementView,
                CompilerOrLexerError,
            >(diagnosis.error),
        },
{
    let tokens = match tokenize(text) {
        Ok(tokens) => tokens,
        Err(e) => {
            return Err(Diagnosis { error: CompilerOrLexerError::L(e), position: locate_lexer_error(text) });
        },
    };
    match parse_tokens(tokens.as_slice()) {
        Ok(statement) => Ok(Program::new(statement)),
        Err(e) => Err(Diagnosis { error: CompilerOrLexerError::C(e), position: locate_program(tokens.as_slice()) }),
    }
}

} // verus!
