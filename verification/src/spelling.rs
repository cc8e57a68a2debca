//! Programs written out as text, and the proof that compiling the text gives
//! the program back.
//!
//! `spell` writes a sequence of tokens as text, with one blank between two
//! tokens. `lemma_lex_spelled` shows that the lexer reads the tokens back, and
//! `lemma_compile_spelled` that the compiler reads a program back from its
//! spelling.

use vstd::prelude::*;
use crate::compiler::{compile, CompilerOrLexerError};
use crate::grammar::{lemma_parse_program, program_tokens, written};
use crate::lexer::{
    all_digits, decimal, framed_token, identifier_token, is_digit, is_run, lemma_lex_blank_separates,
    lemma_lex_empty, lemma_lex_run, lex, LexerError, State,
};
use crate::program::StatementView;
use crate::render::{digit_text, digits_text};
use crate::token::TokenView;

verus! {

/// The text of a token: the word of a keyword, the characters of an
/// operator, a name as it is, a number in decimal notation.
pub open spec fn token_text(token: TokenView) -> Seq<char> {
    match token {
        TokenView::Id(name) => name,
        TokenView::Int(value) => digits_text(value as nat),
        TokenView::Sim => "sim"@,
        TokenView::If => "if"@,
        TokenView::End => "end"@,
        TokenView::Then => "then"@,
        TokenView::Else => "else"@,
        TokenView::Move => "move"@,
        TokenView::Block => "block"@,
        TokenView::Rest => "rest"@,
        TokenView::Breed => "breed"@,
        TokenView::Hunt => "hunt"@,
        TokenView::Add => "add"@,
        TokenView::Sub => "sub"@,
        TokenView::Rand => "rand"@,
        TokenView::IdRest => "awakeDaily"@,
        TokenView::IdEnergy => "energy"@,
        TokenView::DirN => "N"@,
        TokenView::DirNE => "NE"@,
        TokenView::DirE => "E"@,
        TokenView::DirSE => "SE"@,
        TokenView::DirS => "S"@,
        TokenView::DirSW => "SW"@,
        TokenView::DirW => "W"@,
        TokenView::DirNW => "NW"@,
        TokenView::Lpar => "("@,
        TokenView::Rpar => ")"@,
        TokenView::OneEq => "="@,
        TokenView::TwoEq => "=="@,
        TokenView::Lt => "<"@,
        TokenView::Gt => ">"@,
    }
}

/// The state in which the automaton reads the text of a token.
pub open spec fn token_state(token: TokenView) -> State {
    match token {
        TokenView::Int(_) => State::Number,
        TokenView::Lpar | TokenView::Rpar | TokenView::OneEq | TokenView::TwoEq | TokenView::Lt | TokenView::Gt =>
            State::Operator,
        _ => State::Identifier,
    }
}

/// The token can be written as text and read back: a name is a word that is
/// not reserved, and a number is not negative.
pub open spec fn spellable(token: TokenView) -> bool {
    match token {
        TokenView::Id(name) => is_run(name, State::Identifier) && identifier_token(name) == TokenView::Id(name),
        TokenView::Int(value) => value >= 0,
        _ => true,
    }
}

/// The decimal digits of a number are digits, and they denote the number.
pub proof fn lemma_digits_denote(n: nat)
    ensures
        digits_text(n).len() > 0,
        all_digits(digits_text(n)),
        decimal(digits_text(n)) == n,
    decreases n,
{
    reveal_strlit("0");
    reveal_strlit("1");
    reveal_strlit("2");
    reveal_strlit("3");
    reveal_strlit("4");
    reveal_strlit("5");
    reveal_strlit("6");
    reveal_strlit("7");
    reveal_strlit("8");
    reveal_strlit("9");
    let last = digit_text((n % 10) as int);
    assert(last.len() == 1 && is_digit(last[0]) && last[0] as int - '0' as int == n % 10);
    if n < 10 {
        let text = digits_text(n);
        assert(text.drop_last() =~= Seq::<char>::empty());
        assert(decimal(text.drop_last()) == 0);
    } else {
        lemma_digits_denote(n / 10);
        let front = digits_text(n / 10);
        let text = front + last;
        assert(text.drop_last() =~= front);
        assert(text.last() == last[0]);
        assert forall|i: int| 0 <= i < text.len() implies is_digit(#[trigger] text[i]) by {
            if i < front.len() {
                assert(text[i] == front[i]);
            }
        }
    }
}

/// The text of a keyword is a word, and the word is that keyword.
proof fn lemma_keyword_text(token: TokenView)
    requires
        token_state(token) == State::Identifier,
        !(token is Id),
    ensures
        is_run(token_text(token), State::Identifier),
        identifier_token(token_text(token)) == token,
{
    reveal_strlit("sim");
    reveal_strlit("if");
    reveal_strlit("end");
    reveal_strlit("then");
    reveal_strlit("else");
    reveal_strlit("move");
    reveal_strlit("block");
    reveal_strlit("rest");
    reveal_strlit("breed");
    reveal_strlit("hunt");
    reveal_strlit("add");
    reveal_strlit("sub");
    reveal_strlit("rand");
    reveal_strlit("awakeDaily");
    reveal_strlit("energy");
    reveal_strlit("N");
    reveal_strlit("NE");
    reveal_strlit("E");
    reveal_strlit("SE");
    reveal_strlit("S");
    reveal_strlit("SW");
    reveal_strlit("W");
    reveal_strlit("NW");
    assert("sim"@.len() == 3);
    assert("if"@.len() == 2);
    assert("end"@.len() == 3);
    assert("then"@.len() == 4);
    assert("else"@.len() == 4);
    assert("move"@.len() == 4);
    assert("block"@.len() == 5);
    assert("rest"@.len() == 4);
    assert("breed"@.len() == 5);
    assert("hunt"@.len() == 4);
    assert("add"@.len() == 3);
    assert("sub"@.len() == 3);
    assert("rand"@.len() == 4);
    assert("awakeDaily"@.len() == 10);
    assert("energy"@.len() == 6);
    assert("N"@.len() == 1);
    assert("NE"@.len() == 2);
    assert("E"@.len() == 1);
    assert("SE"@.len() == 2);
    assert("S"@.len() == 1);
    assert("SW"@.len() == 2);
    assert("W"@.len() == 1);
    assert("NW"@.len() == 2);
    match token {
        TokenView::Sim => {},
        TokenView::If => {},
        TokenView::End => {
            assert("end"@[0] != "sim"@[0]);
        },
        TokenView::Then => {},
        TokenView::Else => {
            assert("else"@[0] != "then"@[0]);
        },
        TokenView::Move => {
            assert("move"@[0] != "then"@[0]);
            assert("move"@[0] != "else"@[0]);
        },
        TokenView::Block => {},
        TokenView::Rest => {
            assert("rest"@[0] != "then"@[0]);
            assert("rest"@[0] != "else"@[0]);
            assert("rest"@[0] != "move"@[0]);
        },
        TokenView::Breed => {
            assert("breed"@[1] != "block"@[1]);
        },
        TokenView::Hunt => {
            assert("hunt"@[0] != "then"@[0]);
            assert("hunt"@[0] != "else"@[0]);
            assert("hunt"@[0] != "move"@[0]);
            assert("hunt"@[0] != "rest"@[0]);
        },
        TokenView::Add => {
            assert("add"@[0] != "sim"@[0]);
            assert("add"@[0] != "end"@[0]);
        },
        TokenView::Sub => {
            assert("sub"@[1] != "sim"@[1]);
            assert("sub"@[0] != "end"@[0]);
            assert("sub"@[0] != "add"@[0]);
        },
        TokenView::Rand => {
            assert("rand"@[0] != "then"@[0]);
            assert("rand"@[0] != "else"@[0]);
            assert("rand"@[0] != "move"@[0]);
            assert("rand"@[1] != "rest"@[1]);
            assert("rand"@[0] != "hunt"@[0]);
        },
        TokenView::IdRest => {},
        TokenView::IdEnergy => {},
        TokenView::DirN => {},
        TokenView::DirNE => {
            assert("NE"@[0] != "if"@[0]);
        },
        TokenView::DirE => {
            assert("E"@[0] != "N"@[0]);
        },
        TokenView::DirSE => {
            assert("SE"@[0] != "if"@[0]);
            assert("SE"@[0] != "NE"@[0]);
        },
        TokenView::DirS => {
            assert("S"@[0] != "N"@[0]);
            assert("S"@[0] != "E"@[0]);
        },
        TokenView::DirSW => {
            assert("SW"@[0] != "if"@[0]);
            assert("SW"@[0] != "NE"@[0]);
            assert("SW"@[1] != "SE"@[1]);
        },
        TokenView::DirW => {
            assert("W"@[0] != "N"@[0]);
            assert("W"@[0] != "E"@[0]);
            assert("W"@[0] != "S"@[0]);
        },
        TokenView::DirNW => {
            assert("NW"@[0] != "if"@[0]);
            assert("NW"@[1] != "NE"@[1]);
            assert("NW"@[0] != "SE"@[0]);
            assert("NW"@[0] != "SW"@[0]);
        },
        _ => {},
    }
}

/// The text of an operator is a run of punctuation, and the run is that
/// operator.
proof fn lemma_operator_text(token: TokenView)
    requires
        token_state(token) == State::Operator,
    ensures
        is_run(token_text(token), State::Operator),
        framed_token(token_text(token), State::Operator) == Ok::<TokenView, LexerError>(token),
{
    reveal_strlit("(");
    reveal_strlit(")");
    reveal_strlit("=");
    reveal_strlit("==");
    reveal_strlit("<");
    reveal_strlit(">");
}

/// The text of a token that can be spelled is one run, and the run is that
/// token.
pub proof fn lemma_token_text(token: TokenView)
    requires
        spellable(token),
    ensures
        is_run(token_text(token), token_state(token)),
        framed_token(token_text(token), token_state(token)) == Ok::<TokenView, LexerError>(token),
{
    match token {
        TokenView::Id(name) => {},
        TokenView::Int(value) => {
            lemma_digits_denote(value as nat);
        },
        _ => {
            if token_state(token) == State::Operator {
                lemma_operator_text(token);
            } else {
                lemma_keyword_text(token);
            }
        },
    }
}

/// The texts of the tokens, with one blank between two tokens.
pub open spec fn spell(tokens: Seq<TokenView>) -> Seq<char>
    decreases tokens.len(),
{
    if tokens.len() == 0 {
        Seq::empty()
    } else if tokens.len() == 1 {
        token_text(tokens[0])
    } else {
        token_text(tokens[0]) + seq![' '] + spell(tokens.drop_first())
    }
}

/// Every token of the sequence can be spelled.
pub open spec fn all_spellable(tokens: Seq<TokenView>) -> bool {
    forall|i: int| 0 <= i < tokens.len() ==> spellable(#[trigger] tokens[i])
}

/// The lexer reads back what was spelled.
pub proof fn lemma_lex_spelled(tokens: Seq<TokenView>)
    requires
        all_spellable(tokens),
    ensures
        lex(spell(tokens)) == Ok::<Seq<TokenView>, LexerError>(tokens),
    decreases tokens.len(),
{
    if tokens.len() == 0 {
        lemma_lex_empty();
        assert(tokens =~= Seq::<TokenView>::empty());
    } else {
        let first = tokens[0];
        assert(spellable(first));
        lemma_token_text(first);
        lemma_lex_run(token_text(first), token_state(first));
        if tokens.len() == 1 {
            assert(tokens =~= seq![first]);
        } else {
            let rest = tokens.drop_first();
            assert forall|i: int| 0 <= i < rest.len() implies spellable(#[trigger] rest[i]) by {
                assert(rest[i] == tokens[i + 1]);
            }
            lemma_lex_spelled(rest);
            lemma_lex_blank_separates(token_text(first), spell(rest));
            assert(seq![first] + rest =~= tokens);
        }
    }
}

/// The compiler reads a program back from its spelling: a statement that can
/// be written, spelled as a program with names that are no keywords and
/// numbers that are not negative, compiles to that statement.
pub proof fn lemma_compile_spelled(statement: StatementView)
    requires
        written(statement),
        all_spellable(program_tokens(statement)),
    ensures
        compile(spell(program_tokens(statement))) == Ok::<StatementView, CompilerOrLexerError>(statement),
{
    lemma_lex_spelled(program_tokens(statement));
    lemma_parse_program(program_tokens(statement), statement);
}

} // verus!
