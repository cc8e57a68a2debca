//! Two small programs, followed from their text to what they do.

use vstd::prelude::*;
use crate::compiler::{behind, compile, parse_program, CompilerError, CompilerOrLexerError};
use crate::lexer::{identifier_token, lex, scan_first, LexerError, Scan, State};
use crate::program::{Action, Direction, RuntimeError, StatementView};
use crate::token::TokenView;

verus! {

/// The words of the two programs are the keywords they look like.
proof fn lemma_words()
    ensures
        identifier_token("sim"@) == TokenView::Sim,
        identifier_token("move"@) == TokenView::Move,
        identifier_token("E"@) == TokenView::DirE,
        identifier_token("end"@) == TokenView::End,
{
    reveal_strlit("sim");
    reveal_strlit("if");
    reveal_strlit("end");
    reveal_strlit("then");
    reveal_strlit("else");
    reveal_strlit("move");
    reveal_strlit("block");
    reveal_strlit("rest");
    reveal_strlit("breed");
    reveal_strlit("hunt");
    reveal_strlit("add");
    reveal_strlit("sub");
    reveal_strlit("rand");
    reveal_strlit("awakeDaily");
    reveal_strlit("energy");
    reveal_strlit("N");
    reveal_strlit("NE");
    reveal_strlit("E");
    assert("sim"@[0] != "end"@[0]);
    assert("move"@[0] != "then"@[0]);
    assert("move"@[0] != "else"@[0]);
    assert("move"@[0] != "rest"@[0]);
    assert("move"@[0] != "hunt"@[0]);
    assert("move"@[0] != "rand"@[0]);
    assert("E"@[0] != "N"@[0]);
    assert("end"@[0] != "sim"@[0]);
}

/// The automaton on `sim move E`, up to the character behind the `E`.
proof fn lemma_scan_sim_move_e(text: Seq<char>)
    requires
        text.len() >= 10,
        text.subrange(0, 10) == "sim move E"@,
    ensures
        scan_first(text, 10) == Ok::<Scan, LexerError>(
            Scan { state: State::Identifier, tail: 9, tokens: seq![TokenView::Sim, TokenView::Move] },
        ),
        text.subrange(9, 10) == "E"@,
{
    reveal_strlit("sim move E");
    reveal_strlit("sim");
    reveal_strlit("move");
    reveal_strlit("E");
    lemma_words();
    let head = text.subrange(0, 10);
    assert forall|i: int| 0 <= i < 10 implies text[i] == "sim move E"@[i] by {
        assert(head[i] == text[i]);
    }
    assert(scan_first(text, 0) == Ok::<Scan, LexerError>(
        Scan { state: State::Initial, tail: 0, tokens: Seq::empty() },
    ));
    assert(scan_first(text, 1) == Ok::<Scan, LexerError>(
        Scan { state: State::Identifier, tail: 0, tokens: Seq::empty() },
    ));
    assert(scan_first(text, 2) == Ok::<Scan, LexerError>(
        Scan { state: State::Identifier, tail: 0, tokens: Seq::empty() },
    ));
    assert(scan_first(text, 3) == Ok::<Scan, LexerError>(
        Scan { state: State::Identifier, tail: 0, tokens: Seq::empty() },
    ));
    assert(text.subrange(0, 3) =~= "sim"@);
    assert(Seq::<TokenView>::empty().push(TokenView::Sim) =~= seq![TokenView::Sim]);
    assert(scan_first(text, 4) == Ok::<Scan, LexerError>(
        Scan { state: State::Initial, tail: 3, tokens: seq![TokenView::Sim] },
    ));
    assert(scan_first(text, 5) == Ok::<Scan, LexerError>(
        Scan { state: State::Identifier, tail: 4, tokens: seq![TokenView::Sim] },
    ));
    assert(scan_first(text, 6) == Ok::<Scan, LexerError>(
        Scan { state: State::Identifier, tail: 4, tokens: seq![TokenView::Sim] },
    ));
    assert(scan_first(text, 7) == Ok::<Scan, LexerError>(
        Scan { state: State::Identifier, tail: 4, tokens: seq![TokenView::Sim] },
    ));
    assert(scan_first(text, 8) == Ok::<Scan, LexerError>(
        Scan { state: State::Identifier, tail: 4, tokens: seq![TokenView::Sim] },
    ));
    assert(text.subrange(4, 8) =~= "move"@);
    assert(seq![TokenView::Sim].push(TokenView::Move) =~= seq![TokenView::Sim, TokenView::Move]);
    assert(scan_first(text, 9) == Ok::<Scan, LexerError>(
        Scan { state: State::Initial, tail: 8, tokens: seq![TokenView::Sim, TokenView::Move] },
    ));
    assert(scan_first(text, 10) == Ok::<Scan, LexerError>(
        Scan { state: State::Identifier, tail: 9, tokens: seq![TokenView::Sim, TokenView::Move] },
    ));
    assert(text.subrange(9, 10) =~= "E"@);
}

/// The text `sim move E end` is the program that moves east.
pub proof fn lemma_move_east_compiles()
    ensures
        lex("sim move E end"@) == Ok::<Seq<TokenView>, LexerError>(
            seq![TokenView::Sim, TokenView::Move, TokenView::DirE, TokenView::End],
        ),
        compile("sim move E end"@) == Ok::<StatementView, CompilerOrLexerError>(
            StatementView::Action(Action::Move(Direction::E)),
        ),
{
    let text = "sim move E end"@;
    reveal_strlit("sim move E end");
    reveal_strlit("sim move E");
    reveal_strlit("E");
    reveal_strlit("end");
    assert(text.subrange(0, 10) =~= "sim move E"@);
    lemma_scan_sim_move_e(text);
    lemma_words();
    let two = seq![TokenView::Sim, TokenView::Move];
    let three = seq![TokenView::Sim, TokenView::Move, TokenView::DirE];
    let four = seq![TokenView::Sim, TokenView::Move, TokenView::DirE, TokenView::End];
    assert(two.push(TokenView::DirE) =~= three);
    assert(three.push(TokenView::End) =~= four);
    assert(scan_first(text, 11) == Ok::<Scan, LexerError>(Scan { state: State::Initial, tail: 10, tokens: three }));
    assert(scan_first(text, 12) == Ok::<Scan, LexerError>(
        Scan { state: State::Identifier, tail: 11, tokens: three },
    ));
    assert(scan_first(text, 13) == Ok::<Scan, LexerError>(
        Scan { state: State::Identifier, tail: 11, tokens: three },
    ));
    assert(scan_first(text, 14) == Ok::<Scan, LexerError>(
        Scan { state: State::Identifier, tail: 11, tokens: three },
    ));
    assert(text.subrange(11, 14) =~= "end"@);
    assert(lex(text) == Ok::<Seq<TokenView>, LexerError>(four));
    let r1 = behind(four);
    assert(r1 =~= seq![TokenView::Move, TokenView::DirE, TokenView::End]);
    let r2 = behind(r1);
    assert(r2 =~= seq![TokenView::DirE, TokenView::End]);
    let r3 = behind(r2);
    assert(r3 =~= seq![TokenView::End]);
    assert(behind(r3) =~= Seq::<TokenView>::empty());
    assert(parse_program(four) == Ok::<StatementView, CompilerError>(
        StatementView::Action(Action::Move(Direction::E)),
    ));
}

/// Compiled and run, `sim move E end` moves east, whatever the energy and the
/// time awake of the creature and whatever chance contributes.
pub proof fn lemma_move_east_runs(energy: i32, daily_rest: i32, draws: Seq<i32>)
    ensures
        compile("sim move E end"@) matches Ok(program) && program.run(energy, daily_rest, draws) == Ok::<
            Action,
            RuntimeError,
        >(Action::Move(Direction::E)),
{
    lemma_move_east_compiles();
}

/// The text `sim move E`, which lacks the final `end`, is no program: it is
/// refused as `EndOfProgramNotLastToken`.
pub proof fn lemma_missing_end_is_refused()
    ensures
        compile("sim move E"@) == Err::<StatementView, CompilerOrLexerError>(
            CompilerOrLexerError::C(CompilerError::EndOfProgramNotLastToken),
        ),
{
    let text = "sim move E"@;
    reveal_strlit("sim move E");
    assert(text.subrange(0, 10) =~= text);
    lemma_scan_sim_move_e(text);
    lemma_words();
    let two = seq![TokenView::Sim, TokenView::Move];
    let three = seq![TokenView::Sim, TokenView::Move, TokenView::DirE];
    assert(two.push(TokenView::DirE) =~= three);
    assert(lex(text) == Ok::<Seq<TokenView>, LexerError>(three));
    let r1 = behind(three);
    assert(r1 =~= seq![TokenView::Move, TokenView::DirE]);
    let r2 = behind(r1);
    assert(r2 =~= seq![TokenView::DirE]);
    assert(behind(r2) =~= Seq::<TokenView>::empty());
    assert(parse_program(three) == Err::<StatementView, CompilerError>(
        CompilerError::EndOfProgramNotLastToken,
    ));
}

} // verus!
