use sim2::compiler::{
    consume_token, get_arithmetic, get_assign, get_block, get_breed, get_condition, get_expression, get_hunt,
    get_identifier, get_ifthen, get_move, get_program, get_rest, get_statement, head_token, map_arithmetic_operator_token,
    map_direction_token, map_operator_token, parse_tokens, CompilerError, CompilerOrLexerError,
};
use sim2::lexer::LexerError;
use sim2::program::{Action, ArithmeticOp, ConditionOp, Direction, RuntimeError};
use sim2::random::Draws;
use sim2::token::Token;

#[test]
fn test_consume_token() {
    let tokens = vec![Token::DirE];
    let tokens = consume_token(Token::DirE, &tokens, CompilerError::NotADirectionToken).unwrap();
    assert_eq!(tokens.len(), 0);
}

#[test]
fn test_move() {
    let tokens = vec![Token::DirE];
    let (statement, _) = get_move(&tokens[..]).unwrap();
    assert_eq!(statement.to_string(), "Move(E)");
}

#[test]
fn test_hunt() {
    let tokens = vec![Token::DirNW];
    let (statement, _) = get_hunt(&tokens[..]).unwrap();
    assert_eq!(statement.to_string(), "Hunt(NW)");
}

#[test]
fn test_breed() {
    let tokens = vec![Token::DirNE];
    let (statement, _) = get_breed(&tokens[..]).unwrap();
    assert_eq!(statement.to_string(), "Breed(NE)");
}

#[test]
fn test_rest() {
    let tokens = vec![Token::Int(7)];
    let (statement, _) = get_rest(&tokens[..]).unwrap();
    assert_eq!(statement.to_string(), "Rest(7)");
}

#[test]
fn test_identifier_rand() {
    let tokens = vec![Token::Rand];
    let (id, _) = get_identifier(&tokens).unwrap();
    assert_eq!(id.to_string(), "Rand");
}

#[test]
fn test_identifier_constant() {
    let tokens = vec![Token::Int(7)];
    let (id, _) = get_identifier(&tokens).unwrap();
    assert_eq!(id.to_string(), "7");
}

#[test]
fn test_condition() {
    let tokens = vec![Token::Lpar, Token::Int(7), Token::Lt, Token::Int(30), Token::Rpar];
    let (cond, _) = get_condition(&tokens).unwrap();
    assert_eq!(cond.to_string(), "( 7 < 30 )");
}

#[test]
fn test_ifthen() {
    let tokens = vec![
        Token::If,
        Token::Lpar,
        Token::Int(7),
        Token::Lt,
        Token::Int(30),
        Token::Rpar,
        Token::Then,
        Token::Move,
        Token::DirNE,
        Token::End,
    ];
    let (statement, _) = get_ifthen(&tokens[1..]).unwrap();
    assert_eq!(statement.to_string(), "if ( 7 < 30 ) then Move(NE) end");
}

#[test]
fn test_assign() {
    let tokens = vec![Token::OneEq, Token::Int(7)];
    let key = "myvar".to_string();
    let (statement, _) = get_assign(&tokens, &key).unwrap();
    assert_eq!(statement.to_string(), "myvar = 7");
}

#[test]
fn test_block() {
    let tokens = vec![Token::Move, Token::DirE, Token::Hunt, Token::DirSW, Token::End];
    let (statement, _) = get_block(&tokens).unwrap();
    assert_eq!(statement.to_string(), "Block Move(E) Hunt(SW) End");
}

#[test]
fn map_direction_token_all() {
    assert_eq!(map_direction_token(&Token::DirN), Ok(Direction::N));
    assert_eq!(map_direction_token(&Token::DirNE), Ok(Direction::NE));
    assert_eq!(map_direction_token(&Token::DirE), Ok(Direction::E));
    assert_eq!(map_direction_token(&Token::DirSE), Ok(Direction::SE));
    assert_eq!(map_direction_token(&Token::DirS), Ok(Direction::S));
    assert_eq!(map_direction_token(&Token::DirSW), Ok(Direction::SW));
    assert_eq!(map_direction_token(&Token::DirW), Ok(Direction::W));
    assert_eq!(map_direction_token(&Token::DirNW), Ok(Direction::NW));
    assert_eq!(map_direction_token(&Token::Int(1)), Err(CompilerError::NotADirectionToken));
    assert_eq!(map_direction_token(&Token::Id("N".to_string())), Err(CompilerError::NotADirectionToken));
}

#[test]
fn map_operator_tokens() {
    assert_eq!(map_operator_token(&Token::Lt), Ok(ConditionOp::Lt));
    assert_eq!(map_operator_token(&Token::Gt), Ok(ConditionOp::Gt));
    assert_eq!(map_operator_token(&Token::TwoEq), Ok(ConditionOp::Eq));
    assert_eq!(map_operator_token(&Token::OneEq), Err(CompilerError::NoConditionOperator));
    assert_eq!(map_arithmetic_operator_token(&Token::Add), Ok(ArithmeticOp::Add));
    assert_eq!(map_arithmetic_operator_token(&Token::Sub), Ok(ArithmeticOp::Sub));
    assert_eq!(map_arithmetic_operator_token(&Token::Lt), Err(CompilerError::NoAddOrSubstract));
}

#[test]
fn head_token_splits() {
    let tokens = vec![Token::Move, Token::DirE];
    let (first, rest) = head_token(&tokens, CompilerError::NoSimKeyword).unwrap();
    assert_eq!(*first, Token::Move);
    assert_eq!(rest, &[Token::DirE][..]);
    let none: Vec<Token> = vec![];
    assert_eq!(head_token(&none, CompilerError::NoSimKeyword).unwrap_err(), CompilerError::NoSimKeyword);
}

#[test]
fn consume_token_refuses_other_token() {
    let tokens = vec![Token::DirE, Token::End];
    assert_eq!(
        consume_token(Token::DirW, &tokens, CompilerError::NotADirectionToken).unwrap_err(),
        CompilerError::NotADirectionToken
    );
    let none: Vec<Token> = vec![];
    assert_eq!(
        consume_token(Token::DirW, &none, CompilerError::NoEndKeyword).unwrap_err(),
        CompilerError::NoEndKeyword
    );
    let named = vec![Token::Id("a".to_string()), Token::End];
    let rest = consume_token(Token::Id("a".to_string()), &named, CompilerError::NoEndKeyword).unwrap();
    assert_eq!(rest, &[Token::End][..]);
    assert_eq!(
        consume_token(Token::Id("a".to_string()), &[Token::Id("b".to_string())], CompilerError::NoEndKeyword)
            .unwrap_err(),
        CompilerError::NoEndKeyword
    );
}

#[test]
fn get_identifier_kinds() {
    let tokens = vec![Token::Id("x".to_string()), Token::End];
    let (id, rest) = get_identifier(&tokens).unwrap();
    assert_eq!(id.to_string(), "x");
    assert_eq!(rest.len(), 1);
    assert_eq!(get_identifier(&[Token::IdRest]).unwrap().0.to_string(), "DailyRest");
    assert_eq!(get_identifier(&[Token::IdEnergy]).unwrap().0.to_string(), "Energy");
    assert_eq!(get_identifier(&[Token::Int(-0)]).unwrap().0.to_string(), "0");
    assert_eq!(get_identifier(&[Token::Int(i32::MAX)]).unwrap().0.to_string(), "2147483647");
    assert_eq!(get_identifier(&[Token::Int(i32::MIN)]).unwrap().0.to_string(), "-2147483648");
    assert_eq!(get_identifier(&[Token::Int(-305)]).unwrap().0.to_string(), "-305");
    assert_eq!(get_identifier(&[Token::Lpar]).unwrap_err(), CompilerError::InvalidIdentifier);
    assert_eq!(get_identifier(&[]).unwrap_err(), CompilerError::InvalidIdentifier);
}

#[test]
fn get_condition_errors() {
    assert_eq!(get_condition(&[]).unwrap_err(), CompilerError::ConditionMissingLPar);
    assert_eq!(get_condition(&[Token::Int(1)]).unwrap_err(), CompilerError::ConditionMissingLPar);
    assert_eq!(get_condition(&[Token::Lpar]).unwrap_err(), CompilerError::InvalidIdentifier);
    assert_eq!(get_condition(&[Token::Lpar, Token::Int(1)]).unwrap_err(), CompilerError::ConditionMissingOperator);
    assert_eq!(
        get_condition(&[Token::Lpar, Token::Int(1), Token::OneEq, Token::Int(2), Token::Rpar]).unwrap_err(),
        CompilerError::NoConditionOperator
    );
    assert_eq!(
        get_condition(&[Token::Lpar, Token::Int(1), Token::Lt]).unwrap_err(),
        CompilerError::InvalidIdentifier
    );
    assert_eq!(
        get_condition(&[Token::Lpar, Token::Int(1), Token::Lt, Token::Int(2)]).unwrap_err(),
        CompilerError::ConditionMissingRPar
    );
    assert_eq!(
        get_condition(&[Token::Lpar, Token::Int(1), Token::Lt, Token::Int(2), Token::End]).unwrap_err(),
        CompilerError::ConditionMissingRPar
    );
}

#[test]
fn get_condition_operators() {
    let (cond, rest) =
        get_condition(&[Token::Lpar, Token::IdEnergy, Token::Gt, Token::Rand, Token::Rpar, Token::Then]).unwrap();
    assert_eq!(cond.to_string(), "( Energy > Rand )");
    assert_eq!(rest, &[Token::Then][..]);
    let (cond, _) =
        get_condition(&[Token::Lpar, Token::Id("a".to_string()), Token::TwoEq, Token::IdRest, Token::Rpar]).unwrap();
    assert_eq!(cond.to_string(), "( a == DailyRest )");
}

#[test]
fn get_arithmetic_errors() {
    assert_eq!(get_arithmetic(&[]).unwrap_err(), CompilerError::NoAddOrSubstract);
    assert_eq!(get_arithmetic(&[Token::Int(1)]).unwrap_err(), CompilerError::NoAddOrSubstract);
    assert_eq!(get_arithmetic(&[Token::Add, Token::Int(1)]).unwrap_err(), CompilerError::InvalidIdentifier);
    assert_eq!(get_arithmetic(&[Token::Sub]).unwrap_err(), CompilerError::InvalidIdentifier);
}

#[test]
fn get_expression_kinds() {
    assert_eq!(get_expression(&[]).unwrap_err(), CompilerError::NoExpressionFound);
    let (e, rest) = get_expression(&[Token::Int(4), Token::End]).unwrap();
    assert_eq!(e.to_string(), "4");
    assert_eq!(rest, &[Token::End][..]);
    let (e, _) = get_expression(&[Token::Lpar, Token::Int(4), Token::Lt, Token::Int(5), Token::Rpar]).unwrap();
    assert_eq!(e.to_string(), "( 4 < 5 )");
    let (e, rest) = get_expression(&[Token::Add, Token::Int(4), Token::Int(5), Token::End]).unwrap();
    assert_eq!(rest, &[Token::End][..]);
    assert_eq!(e.to_string(), "Action");
    assert_eq!(get_expression(&[Token::Then]).unwrap_err(), CompilerError::InvalidIdentifier);
}

#[test]
fn action_statements_errors() {
    assert_eq!(get_move(&[]).unwrap_err(), CompilerError::MoveNotFollowedByDirection);
    assert_eq!(get_move(&[Token::Int(3)]).unwrap_err(), CompilerError::NotADirectionToken);
    assert_eq!(get_hunt(&[]).unwrap_err(), CompilerError::HuntNotFollowedByDirection);
    assert_eq!(get_hunt(&[Token::End]).unwrap_err(), CompilerError::NotADirectionToken);
    assert_eq!(get_breed(&[]).unwrap_err(), CompilerError::BreedNotFollowedByDirection);
    assert_eq!(get_breed(&[Token::Rest]).unwrap_err(), CompilerError::NotADirectionToken);
    assert_eq!(get_rest(&[]).unwrap_err(), CompilerError::RestNotFollowedByCount);
    assert_eq!(get_rest(&[Token::DirE]).unwrap_err(), CompilerError::RestNotFollowedByCount);
}

#[test]
fn get_assign_errors() {
    let key = "v".to_string();
    assert_eq!(get_assign(&[], &key).unwrap_err(), CompilerError::InvalidAssignStatement);
    assert_eq!(get_assign(&[Token::Int(1)], &key).unwrap_err(), CompilerError::InvalidAssignStatement);
    assert_eq!(get_assign(&[Token::TwoEq, Token::Int(1)], &key).unwrap_err(), CompilerError::InvalidAssignStatement);
    assert_eq!(get_assign(&[Token::OneEq], &key).unwrap_err(), CompilerError::NoExpressionFound);
}

#[test]
fn get_ifthen_with_else() {
    let tokens = tokenize_ok("( energy > 50 ) then hunt N else rest 3 end move E");
    let (statement, rest) = get_ifthen(&tokens).unwrap();
    assert_eq!(statement.to_string(), "if ( Energy > 50 ) then Hunt(N) else Rest(3) end");
    assert_eq!(rest, &[Token::Move, Token::DirE][..]);
}

fn tokenize_ok(text: &str) -> Vec<Token> {
    sim2::lexer::tokenize(text).unwrap()
}

#[test]
fn get_ifthen_errors() {
    assert_eq!(get_ifthen(&tokenize_ok("energy > 50 ) then")).unwrap_err(), CompilerError::ConditionMissingLPar);
    assert_eq!(get_ifthen(&tokenize_ok("( energy > 50 ) hunt N end")).unwrap_err(), CompilerError::NoThenKeyword);
    assert_eq!(get_ifthen(&tokenize_ok("( energy > 50 )")).unwrap_err(), CompilerError::NoThenKeyword);
    assert_eq!(get_ifthen(&tokenize_ok("( energy > 50 ) then")).unwrap_err(), CompilerError::ImproperStartOfStatment);
    assert_eq!(get_ifthen(&tokenize_ok("( energy > 50 ) then hunt N")).unwrap_err(), CompilerError::NoElseOrEnd);
    assert_eq!(
        get_ifthen(&tokenize_ok("( energy > 50 ) then hunt N rest 3 end")).unwrap_err(),
        CompilerError::NoElseOrEnd
    );
    assert_eq!(
        get_ifthen(&tokenize_ok("( energy > 50 ) then hunt N else rest 3")).unwrap_err(),
        CompilerError::NoEndKeyword
    );
    assert_eq!(
        get_ifthen(&tokenize_ok("( energy > 50 ) then hunt N else rest 3 else")).unwrap_err(),
        CompilerError::NoEndKeyword
    );
    assert_eq!(
        get_ifthen(&tokenize_ok("( energy > 50 ) then hunt N else end")).unwrap_err(),
        CompilerError::ImproperStartOfStatment
    );
}

#[test]
fn get_block_forms() {
    let (statement, rest) = get_block(&[Token::End, Token::End]).unwrap();
    assert_eq!(statement.to_string(), "Block End");
    assert_eq!(rest, &[Token::End][..]);
    let tokens = tokenize_ok("x = 3 block rest 1 end if ( x < 4 ) then move N end end hunt S");
    let (statement, rest) = get_block(&tokens).unwrap();
    assert_eq!(statement.to_string(), "Block x = 3 Block Rest(1) End if ( x < 4 ) then Move(N) end End");
    assert_eq!(rest, &[Token::Hunt, Token::DirS][..]);
    assert_eq!(get_block(&[]).unwrap_err(), CompilerError::NoEndBlockFound);
    assert_eq!(get_block(&tokenize_ok("move E hunt SW")).unwrap_err(), CompilerError::NoEndBlockFound);
    assert_eq!(get_block(&tokenize_ok("move E then end")).unwrap_err(), CompilerError::ImproperStartOfStatment);
    assert_eq!(get_block(&tokenize_ok("move end")).unwrap_err(), CompilerError::NotADirectionToken);
}

#[test]
fn get_statement_dispatch() {
    assert_eq!(get_statement(&tokenize_ok("move SE")).unwrap().0.to_string(), "Move(SE)");
    assert_eq!(get_statement(&tokenize_ok("hunt S")).unwrap().0.to_string(), "Hunt(S)");
    assert_eq!(get_statement(&tokenize_ok("breed W")).unwrap().0.to_string(), "Breed(W)");
    assert_eq!(get_statement(&tokenize_ok("rest 24")).unwrap().0.to_string(), "Rest(24)");
    assert_eq!(get_statement(&tokenize_ok("n = rand")).unwrap().0.to_string(), "n = Rand");
    assert_eq!(get_statement(&tokenize_ok("block end")).unwrap().0.to_string(), "Block End");
    assert_eq!(
        get_statement(&tokenize_ok("if ( 1 == 1 ) then rest 1 end")).unwrap().0.to_string(),
        "if ( 1 == 1 ) then Rest(1) end"
    );
    assert_eq!(get_statement(&[]).unwrap_err(), CompilerError::ImproperStartOfStatment);
    assert_eq!(get_statement(&tokenize_ok("end")).unwrap_err(), CompilerError::ImproperStartOfStatment);
    assert_eq!(get_statement(&tokenize_ok("7 = x")).unwrap_err(), CompilerError::ImproperStartOfStatment);
    assert_eq!(get_statement(&tokenize_ok("energy = 1")).unwrap_err(), CompilerError::ImproperStartOfStatment);
    assert_eq!(get_statement(&tokenize_ok("x 1")).unwrap_err(), CompilerError::InvalidAssignStatement);
}

#[test]
fn program_needs_sim_and_final_end() {
    assert_eq!(get_program("move E end").unwrap_err(), CompilerOrLexerError::C(CompilerError::NoSimKeyword));
    assert_eq!(get_program("").unwrap_err(), CompilerOrLexerError::C(CompilerError::NoSimKeyword));
    assert_eq!(get_program("sim").unwrap_err(), CompilerOrLexerError::C(CompilerError::ImproperStartOfStatment));
    assert_eq!(
        get_program("sim move E").unwrap_err(),
        CompilerOrLexerError::C(CompilerError::EndOfProgramNotLastToken)
    );
    assert_eq!(
        get_program("sim move E\n").unwrap_err(),
        CompilerOrLexerError::C(CompilerError::EndOfProgramNotLastToken)
    );
    assert_eq!(
        get_program("sim move E end end").unwrap_err(),
        CompilerOrLexerError::C(CompilerError::EndOfProgramNotLastToken)
    );
    assert_eq!(
        get_program("sim move E end rest 1").unwrap_err(),
        CompilerOrLexerError::C(CompilerError::EndOfProgramNotLastToken)
    );
    assert_eq!(
        get_program("sim move E rest 1 end").unwrap_err(),
        CompilerOrLexerError::C(CompilerError::EndOfProgramNotLastToken)
    );
    assert_eq!(
        get_program("sim if ( energy > 0 ) then rest 8 end").unwrap_err(),
        CompilerOrLexerError::C(CompilerError::EndOfProgramNotLastToken)
    );
}

#[test]
fn program_reports_lexer_errors() {
    assert_eq!(get_program("sim move E end ?").unwrap_err(), CompilerOrLexerError::L(LexerError::InvalidCharType));
    assert_eq!(get_program("sim rest 8x end").unwrap_err(), CompilerOrLexerError::L(LexerError::InvalidTransition));
    assert_eq!(
        get_program("sim if ((energy > 0)) then rest 8 end end").unwrap_err(),
        CompilerOrLexerError::L(LexerError::InvalidOperatorString)
    );
    assert_eq!(
        get_program("sim rest 4294967296 end").unwrap_err(),
        CompilerOrLexerError::L(LexerError::ParseNumberError)
    );
}

#[test]
fn move_east_program_ignores_stats() {
    let program = get_program("sim move E end").unwrap();
    for (energy, daily_rest) in [(0, 0), (100, 1), (-5, 7), (i32::MAX, i32::MIN), (i32::MIN, i32::MAX), (25, 16)] {
        assert_eq!(program.execute(energy, daily_rest), Ok(Action::Move(Direction::E)));
        let mut draws = Draws::new(vec![]);
        assert_eq!(program.execute_with(energy, daily_rest, &mut draws), Ok(Action::Move(Direction::E)));
    }
}

#[test]
fn parse_tokens_whole_program() {
    let tokens = vec![Token::Sim, Token::Rest, Token::Int(8), Token::End];
    assert_eq!(parse_tokens(&tokens).unwrap().to_string(), "Rest(8)");
    assert_eq!(
        parse_tokens(&[Token::Sim, Token::Rest, Token::Int(8)]).unwrap_err(),
        CompilerError::EndOfProgramNotLastToken
    );
}

#[test]
fn arithmetic_adds_and_subtracts() {
    let cs = sim2::program::CreatureStats { energy: 40, daily_rest: 2 };
    let vars = sim2::bindings::Bindings::new();
    for (a, b) in [(2, 3), (0, 0), (-7, 7), (i32::MAX, 0), (i32::MAX - 1, 1), (i32::MIN, 0), (1000, -2000)] {
        let mut draws = Draws::new(vec![]);
        let (add, _) = get_arithmetic(&[Token::Add, Token::Int(a), Token::Int(b)]).unwrap();
        assert_eq!(sim2::program::Expression::execute(&add, &cs, &vars, &mut draws), Ok(a + b));
    }
    for (a, b) in [(2, 3), (0, 0), (-7, 7), (i32::MAX, 0), (i32::MIN + 1, 1), (i32::MIN, 0), (1000, -2000)] {
        let mut draws = Draws::new(vec![]);
        let (sub, _) = get_arithmetic(&[Token::Sub, Token::Int(a), Token::Int(b)]).unwrap();
        assert_eq!(sim2::program::Expression::execute(&sub, &cs, &vars, &mut draws), Ok(a - b));
    }
    let mut draws = Draws::new(vec![]);
    let (add, _) = get_arithmetic(&[Token::Add, Token::IdEnergy, Token::IdRest]).unwrap();
    assert_eq!(sim2::program::Expression::execute(&add, &cs, &vars, &mut draws), Ok(42));
    let (sub, _) = get_arithmetic(&[Token::Sub, Token::IdRest, Token::IdEnergy]).unwrap();
    assert_eq!(sim2::program::Expression::execute(&sub, &cs, &vars, &mut draws), Ok(-38));
}

#[test]
fn arithmetic_overflow_is_an_error() {
    let cs = sim2::program::CreatureStats { energy: 0, daily_rest: 0 };
    let vars = sim2::bindings::Bindings::new();
    let mut draws = Draws::new(vec![]);
    let (add, _) = get_arithmetic(&[Token::Add, Token::Int(i32::MAX), Token::Int(1)]).unwrap();
    assert_eq!(sim2::program::Expression::execute(&add, &cs, &vars, &mut draws), Err(RuntimeError::Overflow));
    let (sub, _) = get_arithmetic(&[Token::Sub, Token::Int(i32::MIN), Token::Int(1)]).unwrap();
    assert_eq!(sim2::program::Expression::execute(&sub, &cs, &vars, &mut draws), Err(RuntimeError::Overflow));
    let (sub, _) = get_arithmetic(&[Token::Sub, Token::Int(0), Token::Int(i32::MIN)]).unwrap();
    assert_eq!(sim2::program::Expression::execute(&sub, &cs, &vars, &mut draws), Err(RuntimeError::Overflow));
}

#[test]
fn compiler_error_names() {
    assert_eq!(CompilerError::NoSimKeyword.to_string(), "NoSimKeyword");
    assert_eq!(CompilerError::ImproperStartOfStatment.to_string(), "ImproperStartOfStatment");
    assert_eq!(CompilerError::EndOfProgramNotLastToken.to_string(), "EndOfProgramNotLastToken");
    assert_eq!(CompilerOrLexerError::C(CompilerError::NoThenKeyword).to_string(), "C(NoThenKeyword)");
    assert_eq!(CompilerOrLexerError::L(LexerError::InvalidCharType).to_string(), "L(InvalidCharType)");
    let all = [
        CompilerError::BreedNotFollowedByDirection,
        CompilerError::ConditionMissingLPar,
        CompilerError::ConditionMissingOperator,
        CompilerError::ConditionMissingRPar,
        CompilerError::EndOfProgramNotLastToken,
        CompilerError::HuntNotFollowedByDirection,
        CompilerError::ImproperStartOfStatment,
        CompilerError::InvalidAssignStatement,
        CompilerError::InvalidIdentifier,
        CompilerError::MoveNotFollowedByDirection,
        CompilerError::NoAddOrSubstract,
        CompilerError::NoConditionOperator,
        CompilerError::NoEndBlockFound,
        CompilerError::NoEndKeyword,
        CompilerError::NoElseOrEnd,
        CompilerError::NoExpressionFound,
        CompilerError::NoThenKeyword,
        CompilerError::NotADirectionToken,
        CompilerError::NoSimKeyword,
        CompilerError::RestNotFollowedByCount,
    ];
    for e in all {
        assert_eq!(e.to_string(), format!("{:?}", e));
        assert_eq!(CompilerOrLexerError::C(e).to_string(), format!("{:?}", CompilerOrLexerError::C(e)));
    }
}
