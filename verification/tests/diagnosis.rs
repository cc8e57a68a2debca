use sim2::compiler::{CompilerError, CompilerOrLexerError};
use sim2::diagnosis::{diagnose, locate_lexer_error, locate_program, Diagnosis};
use sim2::lexer::{tokenize, LexerError};
use sim2::program::{Action, Direction};

fn parser_stops(text: &str, error: CompilerError, position: usize) {
    let expected = Diagnosis { error: CompilerOrLexerError::C(error), position };
    assert_eq!(diagnose(text).unwrap_err(), expected);
    assert_eq!(locate_program(&tokenize(text).unwrap()), position);
}

fn lexer_stops(text: &str, error: LexerError, position: usize) {
    let expected = Diagnosis { error: CompilerOrLexerError::L(error), position };
    assert_eq!(diagnose(text).unwrap_err(), expected);
    assert_eq!(locate_lexer_error(text), position);
}

#[test]
fn diagnose_compiles_programs() {
    let program = diagnose("sim move E end").unwrap();
    assert_eq!(program.execute(1, 1), Ok(Action::Move(Direction::E)));
    assert_eq!(locate_program(&tokenize("sim move E end").unwrap()), 4);
    assert_eq!(locate_lexer_error("sim move E end"), 14);
    assert_eq!(locate_lexer_error(""), 0);
}

#[test]
fn parser_stops_at_the_start() {
    parser_stops("", CompilerError::NoSimKeyword, 0);
    parser_stops("move E end", CompilerError::NoSimKeyword, 0);
    parser_stops("sim", CompilerError::ImproperStartOfStatment, 1);
    parser_stops("sim end", CompilerError::ImproperStartOfStatment, 1);
    parser_stops("sim energy = 1 end", CompilerError::ImproperStartOfStatment, 1);
}

#[test]
fn parser_stops_in_actions() {
    parser_stops("sim move", CompilerError::MoveNotFollowedByDirection, 2);
    parser_stops("sim move 5 end", CompilerError::NotADirectionToken, 2);
    parser_stops("sim hunt", CompilerError::HuntNotFollowedByDirection, 2);
    parser_stops("sim breed end", CompilerError::NotADirectionToken, 2);
    parser_stops("sim rest", CompilerError::RestNotFollowedByCount, 2);
    parser_stops("sim rest N end", CompilerError::RestNotFollowedByCount, 2);
}

#[test]
fn parser_stops_at_the_end_of_a_program() {
    parser_stops("sim move E", CompilerError::EndOfProgramNotLastToken, 3);
    parser_stops("sim move E end end", CompilerError::EndOfProgramNotLastToken, 4);
    parser_stops("sim move E rest 1 end", CompilerError::EndOfProgramNotLastToken, 3);
    parser_stops("sim rest 3 end sim rest 3 end", CompilerError::EndOfProgramNotLastToken, 4);
}

#[test]
fn parser_stops_in_assignments() {
    parser_stops("sim x 5 end", CompilerError::InvalidAssignStatement, 2);
    parser_stops("sim x", CompilerError::InvalidAssignStatement, 2);
    parser_stops("sim x =", CompilerError::NoExpressionFound, 3);
    parser_stops("sim x = end", CompilerError::InvalidIdentifier, 3);
    parser_stops("sim x = add end", CompilerError::InvalidIdentifier, 4);
    parser_stops("sim x = add 1 end", CompilerError::InvalidIdentifier, 5);
    parser_stops("sim x = sub 1 2", CompilerError::EndOfProgramNotLastToken, 6);
    parser_stops("sim x = ( 1 = 2 ) end", CompilerError::NoConditionOperator, 5);
}

#[test]
fn parser_stops_in_conditionals() {
    parser_stops("sim if energy > 0 ) then rest 8 end end", CompilerError::ConditionMissingLPar, 2);
    parser_stops("sim if ( then", CompilerError::InvalidIdentifier, 3);
    parser_stops("sim if ( energy", CompilerError::ConditionMissingOperator, 4);
    parser_stops("sim if ( energy = 0 ) then rest 8 end end", CompilerError::NoConditionOperator, 4);
    parser_stops("sim if ( energy > ) then rest 8 end end", CompilerError::InvalidIdentifier, 5);
    parser_stops("sim if ( energy > 0 then rest 8 end end", CompilerError::ConditionMissingRPar, 6);
    parser_stops("sim if ( energy > 0 ) rest 8 end end", CompilerError::NoThenKeyword, 7);
    parser_stops("sim if ( energy > 0 ) then end end", CompilerError::ImproperStartOfStatment, 8);
    parser_stops("sim if ( energy > 0 ) then rest end end", CompilerError::RestNotFollowedByCount, 9);
    parser_stops("sim if ( energy > 0 ) then rest 8", CompilerError::NoElseOrEnd, 10);
    parser_stops("sim if ( energy > 0 ) then rest 8 move E end", CompilerError::NoElseOrEnd, 10);
    parser_stops("sim if ( energy > 0 ) then rest 8 else end", CompilerError::ImproperStartOfStatment, 11);
    parser_stops("sim if ( energy > 0 ) then rest 8 else move", CompilerError::MoveNotFollowedByDirection, 12);
    parser_stops("sim if ( energy > 0 ) then rest 8 else move E", CompilerError::NoEndKeyword, 13);
    parser_stops("sim if ( energy > 0 ) then rest 8 else move E else", CompilerError::NoEndKeyword, 13);
    parser_stops("sim if ( energy > 0 ) then rest 8 else move E end", CompilerError::EndOfProgramNotLastToken, 14);
}

#[test]
fn parser_stops_in_blocks() {
    parser_stops("sim block", CompilerError::NoEndBlockFound, 2);
    parser_stops("sim block move E", CompilerError::NoEndBlockFound, 4);
    parser_stops("sim block move E hunt", CompilerError::HuntNotFollowedByDirection, 5);
    parser_stops("sim block move E then end", CompilerError::ImproperStartOfStatment, 4);
    parser_stops("sim block move E end", CompilerError::EndOfProgramNotLastToken, 5);
    parser_stops(
        "sim block if ( 1 < 2 ) then block rest x end end end end",
        CompilerError::RestNotFollowedByCount,
        11,
    );
    parser_stops(
        "sim block x = 1 block y = 2 block z = end end end end",
        CompilerError::InvalidIdentifier,
        12,
    );
}

#[test]
fn lexer_stops_at_the_offending_character() {
    lexer_stops("sim $ end", LexerError::InvalidCharType, 4);
    lexer_stops("$", LexerError::InvalidCharType, 0);
    lexer_stops("sim move E end\n# done", LexerError::InvalidCharType, 15);
    lexer_stops("sim 12ab", LexerError::InvalidTransition, 6);
    lexer_stops("sim (( 1", LexerError::InvalidOperatorString, 6);
    lexer_stops("sim ((1", LexerError::InvalidOperatorString, 6);
    lexer_stops("99999999999 x", LexerError::ParseNumberError, 11);
    lexer_stops("caf\u{e9} au lait", LexerError::InvalidCharType, 3);
}

#[test]
fn lexer_stops_at_the_end_of_the_text() {
    lexer_stops("sim ((", LexerError::InvalidOperatorString, 6);
    lexer_stops("rest 99999999999", LexerError::ParseNumberError, 16);
}

#[test]
fn diagnosis_texts() {
    assert_eq!(diagnose("move").unwrap_err().to_string(), "C(NoSimKeyword) at token 0");
    assert_eq!(diagnose("sim $ end").unwrap_err().to_string(), "L(InvalidCharType) at character 4");
    assert_eq!(
        diagnose("sim if ( energy > 0 ) then rest 8 else move E").unwrap_err().to_string(),
        "C(NoEndKeyword) at token 13"
    );
    let far = Diagnosis { error: CompilerOrLexerError::L(LexerError::InvalidTransition), position: 1234567890 };
    assert_eq!(far.to_string(), "L(InvalidTransition) at character 1234567890");
}
