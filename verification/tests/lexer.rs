use sim2::lexer::{
    char_type, process_identifier, process_number, process_operator, str2token, tokenize, transition, CharType,
    LexerError, State,
};
use sim2::token::Token;

fn code() -> &'static str {
    "\
sim
   if (energy > 0) then
      if (awakeDaily > 16) then
         rest 8
      else 
         if (energy > 100) then
            if (rand < 125) then
               breed N
            else 
               if (rand < 143) then
		  breed NE
	       else 
                  if (rand < 167) then
		     breed E
 		  else
		     if (rand < 200) then
		        breed SE
		     else
			if (rand < 250) then
			   breed S
			else
			   if (rand < 333) then
               		      breed SW
                           else 
               		      if (rand < 500) then
		  	         breed W
	       		      else 
		     		 breed NW
			      end
 		  	   end
         	        end
            	     end
                  end
               end
            end
         else
            if (rand < 125) then
               hunt N
            else 
               if (rand < 143) then
		  hunt NE
	       else 
                  if (rand < 167) then
		     hunt E
 		  else
		     if (rand < 200) then
		        hunt SE
		     else
			if (rand < 250) then
			   hunt S
			else
			   if (rand < 333) then
               		      hunt SW
                           else 
               		      if (rand < 500) then
		  	         hunt W
	       		      else 
		     		 hunt NW
			      end
 		  	   end
         	        end
            	     end
                  end
               end
            end
         end
      end
   end
end
    "
}

#[test]
fn test_tokenize() {
    let expected_tokens: [Token; 25] = [
        Token::Sim,
        Token::If,
        Token::Lpar,
        Token::IdEnergy,
        Token::Gt,
        Token::Int(0),
        Token::Rpar,
        Token::Then,
        Token::If,
        Token::Lpar,
        Token::IdRest,
        Token::Gt,
        Token::Int(16),
        Token::Rpar,
        Token::Then,
        Token::Rest,
        Token::Int(8),
        Token::Else,
        Token::If,
        Token::Lpar,
        Token::IdEnergy,
        Token::Gt,
        Token::Int(100),
        Token::Rpar,
        Token::Then,
    ];
    let tokens = tokenize(code()).unwrap();
    for (t, et) in std::iter::zip(&tokens, &expected_tokens) {
        assert_eq!(et, t);
    }
}

#[test]
fn tokenize_whole_sample_program() {
    let tokens = tokenize(code()).unwrap();
    assert_eq!(tokens.len(), 188);
    assert_eq!(tokens[185], Token::End);
    assert_eq!(tokens[186], Token::End);
    assert_eq!(tokens[187], Token::End);
}

#[test]
fn tokenize_conditional_rest() {
    let tokens = tokenize("sim if ( energy > 0 ) then rest 8 end end").unwrap();
    assert_eq!(
        tokens,
        vec![
            Token::Sim,
            Token::If,
            Token::Lpar,
            Token::IdEnergy,
            Token::Gt,
            Token::Int(0),
            Token::Rpar,
            Token::Then,
            Token::Rest,
            Token::Int(8),
            Token::End,
            Token::End,
        ]
    );
}

#[test]
fn tokenize_completes_last_token_at_end_of_text() {
    assert_eq!(tokenize("end").unwrap(), vec![Token::End]);
    assert_eq!(tokenize("rest 42").unwrap(), vec![Token::Rest, Token::Int(42)]);
    assert_eq!(tokenize("x ==").unwrap(), vec![Token::Id("x".to_string()), Token::TwoEq]);
    assert_eq!(tokenize("end ").unwrap(), vec![Token::End]);
}

#[test]
fn tokenize_empty_and_blank_text() {
    assert_eq!(tokenize("").unwrap(), vec![]);
    assert_eq!(tokenize(" \t\r\n\x0c ").unwrap(), vec![]);
}

#[test]
fn tokenize_without_blanks_between_classes() {
    assert_eq!(
        tokenize("x=5").unwrap(),
        vec![Token::Id("x".to_string()), Token::OneEq, Token::Int(5)]
    );
    assert_eq!(
        tokenize("(energy<100)then").unwrap(),
        vec![Token::Lpar, Token::IdEnergy, Token::Lt, Token::Int(100), Token::Rpar, Token::Then]
    );
    assert_eq!(tokenize("5(").unwrap(), vec![Token::Int(5), Token::Lpar]);
}

#[test]
fn tokenize_keywords() {
    let tokens = tokenize(
        "sim if end then else move block rest breed hunt add sub rand awakeDaily energy N NE E SE S SW W NW",
    )
    .unwrap();
    assert_eq!(
        tokens,
        vec![
            Token::Sim,
            Token::If,
            Token::End,
            Token::Then,
            Token::Else,
            Token::Move,
            Token::Block,
            Token::Rest,
            Token::Breed,
            Token::Hunt,
            Token::Add,
            Token::Sub,
            Token::Rand,
            Token::IdRest,
            Token::IdEnergy,
            Token::DirN,
            Token::DirNE,
            Token::DirE,
            Token::DirSE,
            Token::DirS,
            Token::DirSW,
            Token::DirW,
            Token::DirNW,
        ]
    );
}

#[test]
fn tokenize_names() {
    assert_eq!(
        tokenize("Sim n a1b2 Energy ends").unwrap(),
        vec![
            Token::Id("Sim".to_string()),
            Token::Id("n".to_string()),
            Token::Id("a1b2".to_string()),
            Token::Id("Energy".to_string()),
            Token::Id("ends".to_string()),
        ]
    );
}

#[test]
fn tokenize_operators() {
    assert_eq!(
        tokenize("( ) = == < >").unwrap(),
        vec![Token::Lpar, Token::Rpar, Token::OneEq, Token::TwoEq, Token::Lt, Token::Gt]
    );
}

#[test]
fn tokenize_numbers() {
    assert_eq!(tokenize("0 007 2147483647").unwrap(), vec![Token::Int(0), Token::Int(7), Token::Int(2147483647)]);
}

#[test]
fn tokenize_invalid_char_type() {
    assert_eq!(tokenize("sim $"), Err(LexerError::InvalidCharType));
    assert_eq!(tokenize("a-b"), Err(LexerError::InvalidCharType));
    assert_eq!(tokenize("caf\u{e9}"), Err(LexerError::InvalidCharType));
    assert_eq!(tokenize("rest 8;"), Err(LexerError::InvalidCharType));
}

#[test]
fn tokenize_invalid_transition() {
    assert_eq!(tokenize("12ab"), Err(LexerError::InvalidTransition));
    assert_eq!(tokenize("rest 8x end"), Err(LexerError::InvalidTransition));
}

#[test]
fn tokenize_invalid_operator_string() {
    assert_eq!(tokenize("(( 1"), Err(LexerError::InvalidOperatorString));
    assert_eq!(tokenize("a => b"), Err(LexerError::InvalidOperatorString));
    assert_eq!(tokenize("a <="), Err(LexerError::InvalidOperatorString));
    assert_eq!(tokenize("((1 < 2))"), Err(LexerError::InvalidOperatorString));
}

#[test]
fn tokenize_parse_number_error() {
    assert_eq!(tokenize("2147483648 "), Err(LexerError::ParseNumberError));
    assert_eq!(tokenize("rest 99999999999999999999"), Err(LexerError::ParseNumberError));
}

#[test]
fn tokenize_reports_the_first_error() {
    // The bad character comes before the operator run is framed.
    assert_eq!(tokenize("(($"), Err(LexerError::InvalidCharType));
    // The operator run is framed before the bad character is reached.
    assert_eq!(tokenize("(( $"), Err(LexerError::InvalidOperatorString));
    // The letter behind the number is met before the number is framed.
    assert_eq!(tokenize("99999999999x"), Err(LexerError::InvalidTransition));
}

#[test]
fn char_type_classes() {
    assert_eq!(char_type(' '), Ok(CharType::White));
    assert_eq!(char_type('\n'), Ok(CharType::White));
    assert_eq!(char_type('\t'), Ok(CharType::White));
    assert_eq!(char_type('a'), Ok(CharType::Letter));
    assert_eq!(char_type('Z'), Ok(CharType::Letter));
    assert_eq!(char_type('0'), Ok(CharType::Digit));
    assert_eq!(char_type('9'), Ok(CharType::Digit));
    for c in ['(', ')', '<', '>', '='] {
        assert_eq!(char_type(c), Ok(CharType::Punc));
    }
    for c in ['_', '+', '-', '!', '\u{b}', '\u{e9}', '[', '`', '{', '@', '/', ':'] {
        assert_eq!(char_type(c), Err(LexerError::InvalidCharType));
    }
}

#[test]
fn transition_table() {
    let classes = [CharType::White, CharType::Digit, CharType::Letter, CharType::Punc];
    let from_start = [State::Initial, State::Number, State::Identifier, State::Operator];
    for (ct, next) in std::iter::zip(&classes, &from_start) {
        assert_eq!(transition(ct, &State::Initial), Ok(*next));
        assert_eq!(transition(ct, &State::Stop), Ok(*next));
    }
    assert_eq!(transition(&CharType::White, &State::Identifier), Ok(State::Stop));
    assert_eq!(transition(&CharType::Digit, &State::Identifier), Ok(State::Identifier));
    assert_eq!(transition(&CharType::Letter, &State::Identifier), Ok(State::Identifier));
    assert_eq!(transition(&CharType::Punc, &State::Identifier), Ok(State::Stop));
    assert_eq!(transition(&CharType::White, &State::Operator), Ok(State::Stop));
    assert_eq!(transition(&CharType::Digit, &State::Operator), Ok(State::Stop));
    assert_eq!(transition(&CharType::Letter, &State::Operator), Ok(State::Stop));
    assert_eq!(transition(&CharType::Punc, &State::Operator), Ok(State::Operator));
    assert_eq!(transition(&CharType::White, &State::Number), Ok(State::Stop));
    assert_eq!(transition(&CharType::Digit, &State::Number), Ok(State::Number));
    assert_eq!(transition(&CharType::Letter, &State::Number), Err(LexerError::InvalidTransition));
    assert_eq!(transition(&CharType::Punc, &State::Number), Ok(State::Stop));
}

#[test]
fn str2token_by_state() {
    assert_eq!(str2token("hunt", &State::Identifier), Ok(Token::Hunt));
    assert_eq!(str2token("prey", &State::Identifier), Ok(Token::Id("prey".to_string())));
    assert_eq!(str2token("==", &State::Operator), Ok(Token::TwoEq));
    assert_eq!(str2token("=<", &State::Operator), Err(LexerError::InvalidOperatorString));
    assert_eq!(str2token("125", &State::Number), Ok(Token::Int(125)));
    assert_eq!(str2token("hunt", &State::Initial), Err(LexerError::InvalidTokenState));
    assert_eq!(str2token("hunt", &State::Stop), Err(LexerError::InvalidTokenState));
}

#[test]
fn process_identifier_is_case_sensitive() {
    assert_eq!(process_identifier("energy"), Token::IdEnergy);
    assert_eq!(process_identifier("awakeDaily"), Token::IdRest);
    assert_eq!(process_identifier("awakedaily"), Token::Id("awakedaily".to_string()));
    assert_eq!(process_identifier("n"), Token::Id("n".to_string()));
    assert_eq!(process_identifier("N"), Token::DirN);
}

#[test]
fn process_operator_table() {
    assert_eq!(process_operator("("), Ok(Token::Lpar));
    assert_eq!(process_operator(")"), Ok(Token::Rpar));
    assert_eq!(process_operator("="), Ok(Token::OneEq));
    assert_eq!(process_operator("=="), Ok(Token::TwoEq));
    assert_eq!(process_operator("<"), Ok(Token::Lt));
    assert_eq!(process_operator(">"), Ok(Token::Gt));
    assert_eq!(process_operator("==="), Err(LexerError::InvalidOperatorString));
    assert_eq!(process_operator(""), Err(LexerError::InvalidOperatorString));
}

#[test]
fn process_number_limits() {
    assert_eq!(process_number("2147483647"), Ok(Token::Int(i32::MAX)));
    assert_eq!(process_number("2147483648"), Err(LexerError::ParseNumberError));
    assert_eq!(process_number("0000000000000000012"), Ok(Token::Int(12)));
    assert_eq!(process_number(""), Err(LexerError::ParseNumberError));
    assert_eq!(process_number("12a"), Err(LexerError::ParseNumberError));
    assert_eq!(process_number("-1"), Err(LexerError::ParseNumberError));
}

#[test]
fn lexer_error_names() {
    assert_eq!(LexerError::InvalidCharType.to_string(), "InvalidCharType");
    assert_eq!(LexerError::InvalidTransition.to_string(), "InvalidTransition");
    assert_eq!(LexerError::InvalidOperatorString.to_string(), "InvalidOperatorString");
    assert_eq!(LexerError::InvalidTokenState.to_string(), "InvalidTokenState");
    assert_eq!(LexerError::ParseNumberError.to_string(), "ParseNumberError");
}

#[test]
fn token_equality_compares_payloads() {
    assert_eq!(Token::Id("a".to_string()), Token::Id("a".to_string()));
    assert_ne!(Token::Id("a".to_string()), Token::Id("b".to_string()));
    assert_eq!(Token::Int(3), Token::Int(3));
    assert_ne!(Token::Int(3), Token::Int(4));
    assert_eq!(Token::Sim, Token::Sim);
    assert_ne!(Token::Sim, Token::End);
    assert_ne!(Token::Id("sim".to_string()), Token::Sim);
    assert_ne!(Token::Int(0), Token::Id("0".to_string()));
}
