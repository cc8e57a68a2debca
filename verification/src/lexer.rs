//! The lexer of the `sim2` language.
//!
//! The lexer is a finite automaton over four classes of characters. It reads
//! the text once from left to right. When a character ends the token that is
//! being read, the characters framed so far become a token and the automaton
//! starts again on that same character. A token that is still being read when
//! the text ends is completed there.

use vstd::prelude::*;
use vstd::std_specs::iter::IteratorSpec;
use crate::token::{token_views, Token, TokenView};

verus! {

/// Why a text is not a sequence of tokens.
#[derive(Clone, Copy, Debug, PartialEq, Eq, Structural)]
pub enum LexerError {
    /// A character that belongs to no class.
    InvalidCharType,
    /// A letter directly behind a number.
    InvalidTransition,
    /// A run of punctuation that is no operator.
    InvalidOperatorString,
    /// A token was framed in a state that frames none.
    InvalidTokenState,
    /// A number that does not fit 32 bits.
    ParseNumberError,
}

/// The states of the automaton.
#[derive(Clone, Copy, Debug, PartialEq, Eq, Structural)]
pub enum State {
    Initial,
    Identifier,
    Operator,
    Number,
    Stop,
}

/// The classes of characters.
#[derive(Clone, Copy, Debug, PartialEq, Eq, Structural)]
pub enum CharType {
    White,
    Digit,
    Letter,
    Punc,
}

/// An ASCII digit.
pub open spec fn is_digit(c: char) -> bool {
    '0' <= c && c <= '9'
}

/// An ASCII letter.
pub open spec fn is_letter(c: char) -> bool {
    ('a' <= c && c <= 'z') || ('A' <= c && c <= 'Z')
}

/// The class of a character: ASCII white space, an ASCII letter, an ASCII
/// digit, or one of `( ) < > =`.
pub open spec fn char_class(c: char) -> Result<CharType, LexerError> {
    if c == ' ' || c == '\t' || c == '\n' || c == '\x0C' || c == '\r' {
        Ok(CharType::White)
    } else if is_letter(c) {
        Ok(CharType::Letter)
    } else if is_digit(c) {
        Ok(CharType::Digit)
    } else if c == '(' || c == ')' || c == '<' || c == '>' || c == '=' {
        Ok(CharType::Punc)
    } else {
        Err(LexerError::InvalidCharType)
    }
}

/// The transition table. `Stop` says that the character ends the token that
/// was being read.
pub open spec fn next_state(ct: CharType, s: State) -> Result<State, LexerError> {
    match s {
        State::Initial | State::Stop => match ct {
            CharType::White => Ok(State::Initial),
            CharType::Digit => Ok(State::Number),
            CharType::Letter => Ok(State::Identifier),
            CharType::Punc => Ok(State::Operator),
        },
        State::Identifier => match ct {
            CharType::White => Ok(State::Stop),
            CharType::Digit => Ok(State::Identifier),
            CharType::Letter => Ok(State::Identifier),
            CharType::Punc => Ok(State::Stop),
        },
        State::Operator => match ct {
            CharType::White => Ok(State::Stop),
            CharType::Digit => Ok(State::Stop),
            CharType::Letter => Ok(State::Stop),
            CharType::Punc => Ok(State::Operator),
        },
        State::Number => match ct {
            CharType::White => Ok(State::Stop),
            CharType::Digit => Ok(State::Number),
            CharType::Letter => Err(LexerError::InvalidTransition),
            CharType::Punc => Ok(State::Stop),
        },
    }
}

/// The token of a word: a keyword where the word is reserved, else a name.
pub open spec fn identifier_token(text: Seq<char>) -> TokenView {
    if text == "sim"@ {
        TokenView::Sim
    } else if text == "if"@ {
        TokenView::If
    } else if text == "end"@ {
        TokenView::End
    } else if text == "then"@ {
        TokenView::Then
    } else if text == "else"@ {
        TokenView::Else
    } else if text == "move"@ {
        TokenView::Move
    } else if text == "block"@ {
        TokenView::Block
    } else if text == "rest"@ {
        TokenView::Rest
    } else if text == "breed"@ {
        TokenView::Breed
    } else if text == "hunt"@ {
        TokenView::Hunt
    } else if text == "add"@ {
        TokenView::Add
    } else if text == "sub"@ {
        TokenView::Sub
    } else if text == "rand"@ {
        TokenView::Rand
    } else if text == "awakeDaily"@ {
        TokenView::IdRest
    } else if text == "energy"@ {
        TokenView::IdEnergy
    } else if text == "N"@ {
        TokenView::DirN
    } else if text == "NE"@ {
        TokenView::DirNE
    } else if text == "E"@ {
        TokenView::DirE
    } else if text == "SE"@ {
        TokenView::DirSE
    } else if text == "S"@ {
        TokenView::DirS
    } else if text == "SW"@ {
        TokenView::DirSW
    } else if text == "W"@ {
        TokenView::DirW
    } else if text == "NW"@ {
        TokenView::DirNW
    } else {
        TokenView::Id(text)
    }
}

/// The token of a run of punctuation.
pub open spec fn operator_token(text: Seq<char>) -> Result<TokenView, LexerError> {
    if text == "("@ {
        Ok(TokenView::Lpar)
    } else if text == ")"@ {
        Ok(TokenView::Rpar)
    } else if text == "="@ {
        Ok(TokenView::OneEq)
    } else if text == "=="@ {
        Ok(TokenView::TwoEq)
    } else if text == "<"@ {
        Ok(TokenView::Lt)
    } else if text == ">"@ {
        Ok(TokenView::Gt)
    } else {
        Err(LexerError::InvalidOperatorString)
    }
}

/// The number that a sequence of decimal digits denotes.
pub open spec fn decimal(text: Seq<char>) -> int
    decreases text.len(),
{
    if text.len() == 0 {
        0
    } else {
        decimal(text.drop_last()) * 10 + (text.last() as int - '0' as int)
    }
}

/// Every character is an ASCII digit.
pub open spec fn all_digits(text: Seq<char>) -> bool {
    forall|i: int| 0 <= i < text.len() ==> is_digit(#[trigger] text[i])
}

/// The token of a run of digits, where the number fits 32 bits.
pub open spec fn number_token(text: Seq<char>) -> Result<TokenView, LexerError> {
    if text.len() > 0 && all_digits(text) && decimal(text) <= i32::MAX {
        Ok(TokenView::Int(decimal(text) as i32))
    } else {
        Err(LexerError::ParseNumberError)
    }
}

/// The token of the characters that were framed while the automaton was in
/// `state`.
pub open spec fn framed_token(text: Seq<char>, state: State) -> Result<TokenView, LexerError> {
    match state {
        State::Identifier => Ok(identifier_token(text)),
        State::Operator => operator_token(text),
        State::Number => number_token(text),
        _ => Err(LexerError::InvalidTokenState),
    }
}

/// The automaton between two characters: its state, where the token that is
/// being read began, and the tokens completed so far.
pub struct Scan {
    pub state: State,
    pub tail: int,
    pub tokens: Seq<TokenView>,
}

/// What the character at `head` does to the automaton.
pub open spec fn scan_step(scan: Scan, text: Seq<char>, head: int) -> Result<Scan, LexerError> {
    match char_class(text[head]) {
        Err(e) => Err(e),
        Ok(ct) => match next_state(ct, scan.state) {
            Err(e) => Err(e),
            Ok(State::Initial) => Ok(Scan { state: State::Initial, tail: head, tokens: scan.tokens }),
            Ok(State::Stop) => match framed_token(text.subrange(scan.tail, head), scan.state) {
                Err(e) => Err(e),
                Ok(token) => match next_state(ct, State::Initial) {
                    Err(e) => Err(e),
                    Ok(restart) => Ok(Scan { state: restart, tail: head, tokens: scan.tokens.push(token) }),
                },
            },
            Ok(state) => Ok(
                Scan {
                    state,
                    tail: if scan.state == State::Initial {
                        head
                    } else {
                        scan.tail
                    },
                    tokens: scan.tokens,
                },
            ),
        },
    }
}

/// The automaton after the first `n` characters of `text`.
pub open spec fn scan_first(text: Seq<char>, n: nat) -> Result<Scan, LexerError>
    decreases n,
{
    if n == 0 {
        Ok(Scan { state: State::Initial, tail: 0, tokens: Seq::empty() })
    } else {
        match scan_first(text, (n - 1) as nat) {
            Err(e) => Err(e),
            Ok(scan) => scan_step(scan, text, n - 1),
        }
    }
}

/// The end of the text completes the token that is being read.
pub open spec fn scan_end(scan: Scan, text: Seq<char>) -> Result<Seq<TokenView>, LexerError> {
    match scan.state {
        State::Identifier | State::Operator | State::Number => match framed_token(
            text.subrange(scan.tail, text.len() as int),
            scan.state,
        ) {
            Err(e) => Err(e),
            Ok(token) => Ok(scan.tokens.push(token)),
        },
        _ => Ok(scan.tokens),
    }
}

/// The tokens of a text, or the first error that the automaton meets.
pub open spec fn lex(text: Seq<char>) -> Result<Seq<TokenView>, LexerError> {
    match scan_first(text, text.len()) {
        Err(e) => Err(e),
        Ok(scan) => scan_end(scan, text),
    }
}

/// An error stays: the automaton does not go on after it.
pub proof fn lemma_scan_error_stays(text: Seq<char>, k: nat, n: nat)
    requires
        k <= n,
        scan_first(text, k) is Err,
    ensures
        scan_first(text, n) == scan_first(text, k),
    decreases n,
{
    if n > k {
        lemma_scan_error_stays(text, k, (n - 1) as nat);
    }
}

impl LexerError {
    /// The name of the error.
    pub open spec fn name(self) -> Seq<char> {
        match self {
            LexerError::InvalidCharType => "InvalidCharType"@,
            LexerError::InvalidTransition => "InvalidTransition"@,
            LexerError::InvalidOperatorString => "InvalidOperatorString"@,
            LexerError::InvalidTokenState => "InvalidTokenState"@,
            LexerError::ParseNumberError => "ParseNumberError"@,
        }
    }

    /// The name of the error, as shown to a user.
    pub fn to_string(&self) -> (text: String)
        ensures
            text@ == self.name(),
    {
        let s = match self {
            LexerError::InvalidCharType => "InvalidCharType",
            LexerError::InvalidTransition => "InvalidTransition",
            LexerError::InvalidOperatorString => "InvalidOperatorString",
            LexerError::InvalidTokenState => "InvalidTokenState",
            LexerError::ParseNumberError => "ParseNumberError",
        };
        s.to_owned()
    }
}

/// `String::push`: appends one character to the end of the string.
pub assume_specification[ String::push ](text: &mut String, ch: char)
    ensures
        final(text)@ == old(text)@.push(ch),
;

/// Converts the text of a program into its tokens, in one pass over its
/// characters.
pub fn tokenize(contents: &str) -> (result: Result<Vec<Token>, LexerError>)
    ensures
        match result {
            Ok(tokens) => lex(contents@) == Ok::<Seq<TokenView>, LexerError>(token_views(tokens@)),
            Err(e) => lex(contents@) == Err::<Seq<TokenView>, LexerError>(e),
        },
{
    let ghost mut head: int = 0;
    let ghost mut tail: int = 0;
    let mut state = State::Initial;
    let mut tokens: Vec<Token> = Vec::new();
    // The characters of the token that is being read.
    let mut framed = String::new();
    let mut chars = contents.chars();
    assert(token_views(tokens@) =~= Seq::<TokenView>::empty());
    loop
        invariant
            0 <= tail <= head <= contents@.len(),
            chars.remaining() == contents@.skip(head),
            scan_first(contents@, head as nat) == Ok::<Scan, LexerError>(
                Scan { state, tail, tokens: token_views(tokens@) },
            ),
            state == State::Initial ==> framed@ == Seq::<char>::empty(),
            state != State::Initial ==> framed@ == contents@.subrange(tail, head),
            state != State::Stop,
        ensures
            head == contents@.len(),
        decreases contents@.len() - head,
    {
        let c = match chars.next() {
            Some(c) => c,
            None => {
                break ;
            },
        };
        assert(c == contents@[head]);
        proof {
            if scan_first(contents@, (head + 1) as nat) is Err {
                lemma_scan_error_stays(contents@, (head + 1) as nat, contents@.len());
            }
        }
        let ct = char_type(c)?;
        let mut new_state = transition(&ct, &state)?;
        match new_state {
            State::Initial => {
                proof {
                    tail = head;
                }
            },
            State::Stop => {
                let token = str2token(framed.as_str(), &state)?;
                proof {
                    assert(token_views(tokens@.push(token)) =~= token_views(tokens@).push(token@));
                    tail = head;
                }
                tokens.push(token);
                framed = String::new();
                // The character that ended the token begins what follows.
                new_state = transition(&ct, &State::Initial)?;
                if new_state != State::Initial {
                    framed.push(c);
                }
            },
            _ => {
                proof {
                    if state == State::Initial {
                        tail = head;
                    }
                }
                framed.push(c);
            },
        }
        proof {
            if new_state != State::Initial {
                assert(framed@ =~= contents@.subrange(tail, head + 1));
            }
            head = head + 1;
        }
        state = new_state;
    }
    match state {
        State::Identifier | State::Operator | State::Number => {
            let token = str2token(framed.as_str(), &state)?;
            proof {
                assert(token_views(tokens@.push(token)) =~= token_views(tokens@).push(token@));
            }
            tokens.push(token);
        },
        _ => {},
    }
    Ok(tokens)
}

/// Converts the framed characters of a token to the token.
pub fn str2token(slice: &str, state: &State) -> (result: Result<Token, LexerError>)
    ensures
        match result {
            Ok(token) => framed_token(slice@, *state) == Ok::<TokenView, LexerError>(token@),
            Err(e) => framed_token(slice@, *state) == Err::<TokenView, LexerError>(e),
        },
{
    match state {
        State::Identifier => Ok(process_identifier(slice)),
        State::Operator => process_operator(slice),
        State::Number => process_number(slice),
        _ => Err(LexerError::InvalidTokenState),
    }
}

/// Labels a character with its class.
pub fn char_type(c: char) -> (result: Result<CharType, LexerError>)
    ensures
        result == char_class(c),
{
    if c == ' ' || c == '\t' || c == '\n' || c == '\x0C' || c == '\r' {
        Ok(CharType::White)
    } else if (c >= 'a' && c <= 'z') || (c >= 'A' && c <= 'Z') {
        Ok(CharType::Letter)
    } else if c >= '0' && c <= '9' {
        Ok(CharType::Digit)
    } else if c == '(' || c == ')' || c == '<' || c == '>' || c == '=' {
        Ok(CharType::Punc)
    } else {
        Err(LexerError::InvalidCharType)
    }
}

/// The state of the automaton after a character of class `ct` in state `s`.
pub fn transition(ct: &CharType, s: &State) -> (result: Result<State, LexerError>)
    ensures
        result == next_state(*ct, *s),
{
    match s {
        State::Initial => match ct {
            CharType::White => Ok(State::Initial),
            CharType::Digit => Ok(State::Number),
            CharType::Letter => Ok(State::Identifier),
            CharType::Punc => Ok(State::Operator),
        },
        State::Identifier => match ct {
            CharType::White => Ok(State::Stop),
            CharType::Digit => Ok(State::Identifier),
            CharType::Letter => Ok(State::Identifier),
            CharType::Punc => Ok(State::Stop),
        },
        State::Operator => match ct {
            CharType::White => Ok(State::Stop),
            CharType::Digit => Ok(State::Stop),
            CharType::Letter => Ok(State::Stop),
            CharType::Punc => Ok(State::Operator),
        },
        State::Number => match ct {
            CharType::White => Ok(State::Stop),
            CharType::Digit => Ok(State::Number),
            CharType::Letter => Err(LexerError::InvalidTransition),
            CharType::Punc => Ok(State::Stop),
        },
        State::Stop => match ct {
            CharType::White => Ok(State::Initial),
            CharType::Digit => Ok(State::Number),
            CharType::Letter => Ok(State::Identifier),
            CharType::Punc => Ok(State::Operator),
        },
    }
}

/// Tells the keywords from the names.
pub fn process_identifier(identifier_str: &str) -> (token: Token)
    ensures
        token@ == identifier_token(identifier_str@),
{
    if identifier_str.eq("sim") {
        Token::Sim
    } else if identifier_str.eq("if") {
        Token::If
    } else if identifier_str.eq("end") {
        Token::End
    } else if identifier_str.eq("then") {
        Token::Then
    } else if identifier_str.eq("else") {
        Token::Else
    } else if identifier_str.eq("move") {
        Token::Move
    } else if identifier_str.eq("block") {
        Token::Block
    } else if identifier_str.eq("rest") {
        Token::Rest
    } else if identifier_str.eq("breed") {
        Token::Breed
    } else if identifier_str.eq("hunt") {
        Token::Hunt
    } else if identifier_str.eq("add") {
        Token::Add
    } else if identifier_str.eq("sub") {
        Token::Sub
    } else if identifier_str.eq("rand") {
        Token::Rand
    } else if identifier_str.eq("awakeDaily") {
        Token::IdRest
    } else if identifier_str.eq("energy") {
        Token::IdEnergy
    } else if identifier_str.eq("N") {
        Token::DirN
    } else if identifier_str.eq("NE") {
        Token::DirNE
    } else if identifier_str.eq("E") {
        Token::DirE
    } else if identifier_str.eq("SE") {
        Token::DirSE
    } else if identifier_str.eq("S") {
        Token::DirS
    } else if identifier_str.eq("SW") {
        Token::DirSW
    } else if identifier_str.eq("W") {
        Token::DirW
    } else if identifier_str.eq("NW") {
        Token::DirNW
    } else {
        Token::Id(identifier_str.to_owned())
    }
}

/// Identifies an operator.
pub fn process_operator(operator_str: &str) -> (result: Result<Token, LexerError>)
    ensures
        match result {
            Ok(token) => operator_token(operator_str@) == Ok::<TokenView, LexerError>(token@),
            Err(e) => operator_token(operator_str@) == Err::<TokenView, LexerError>(e),
        },
{
    if operator_str.eq("(") {
        Ok(Token::Lpar)
    } else if operator_str.eq(")") {
        Ok(Token::Rpar)
    } else if operator_str.eq("=") {
        Ok(Token::OneEq)
    } else if operator_str.eq("==") {
        Ok(Token::TwoEq)
    } else if operator_str.eq("<") {
        Ok(Token::Lt)
    } else if operator_str.eq(">") {
        Ok(Token::Gt)
    } else {
        Err(LexerError::InvalidOperatorString)
    }
}

/// Appending a digit cannot make a number smaller.
proof fn lemma_decimal_grows(text: Seq<char>, n: int)
    requires
        all_digits(text),
        0 <= n <= text.len(),
    ensures
        0 <= decimal(text.subrange(0, n)) <= decimal(text),
    decreases text.len() - n,
{
    if n == 0 {
        lemma_decimal_nonnegative(text);
        assert(text.subrange(0, 0) =~= Seq::<char>::empty());
    } else if n < text.len() {
        lemma_decimal_grows(text, n + 1);
        let longer = text.subrange(0, n + 1);
        assert(longer.drop_last() =~= text.subrange(0, n));
        assert(is_digit(text[n]));
        lemma_decimal_nonnegative(text.subrange(0, n));
    } else {
        assert(text.subrange(0, n) =~= text);
        lemma_decimal_nonnegative(text);
    }
}

/// A sequence of digits denotes no negative number.
proof fn lemma_decimal_nonnegative(text: Seq<char>)
    requires
        all_digits(text),
    ensures
        0 <= decimal(text),
    decreases text.len(),
{
    if text.len() > 0 {
        lemma_decimal_nonnegative(text.drop_last());
        assert(is_digit(text[text.len() - 1]));
    }
}

/// Reads a run of digits as a number.
pub fn process_number(number_str: &str) -> (result: Result<Token, LexerError>)
    ensures
        match result {
            Ok(token) => number_token(number_str@) == Ok::<TokenView, LexerError>(token@),
            Err(e) => number_token(number_str@) == Err::<TokenView, LexerError>(e),
        },
{
    let mut chars = number_str.chars();
    let mut value: i32 = 0;
    let ghost mut i: int = 0;
    let mut fits = true;
    let mut empty = true;
    loop
        invariant
            0 <= i <= number_str@.len(),
            chars.remaining() == number_str@.skip(i),
            all_digits(number_str@.subrange(0, i)),
            fits ==> value == decimal(number_str@.subrange(0, i)),
            !fits ==> decimal(number_str@.subrange(0, i)) > i32::MAX,
            0 <= value,
            empty <==> i == 0,
        ensures
            i == number_str@.len(),
        decreases number_str@.len() - i,
    {
        let c = match chars.next() {
            Some(c) => c,
            None => {
                break ;
            },
        };
        assert(c == number_str@[i]);
        if !(c >= '0' && c <= '9') {
            assert(!is_digit(number_str@[i]));
            return Err(LexerError::ParseNumberError);
        }
        let digit: i32 = (c as u32 - '0' as u32) as i32;
        proof {
            let shorter = number_str@.subrange(0, i);
            let longer = number_str@.subrange(0, i + 1);
            assert(longer.drop_last() =~= shorter);
            assert(longer.last() == c);
            assert forall|j: int| 0 <= j < longer.len() implies is_digit(#[trigger] longer[j]) by {
                if j < i {
                    assert(longer[j] == shorter[j]);
                }
            }
        }
        if fits && value <= (i32::MAX - digit) / 10 {
            value = value * 10 + digit;
        } else {
            fits = false;
        }
        empty = false;
        proof {
            i = i + 1;
        }
    }
    proof {
        assert(number_str@.subrange(0, i) =~= number_str@);
    }
    if fits && !empty {
        Ok(Token::Int(value))
    } else {
        Err(LexerError::ParseNumberError)
    }
}


/// The token that is being read begins inside what has been read.
pub proof fn lemma_scan_tail(text: Seq<char>, n: nat)
    ensures
        scan_first(text, n) matches Ok(scan) ==> 0 <= scan.tail <= n && scan.state != State::Stop,
    decreases n,
{
    if n > 0 {
        lemma_scan_tail(text, (n - 1) as nat);
    }
}

/// The automaton after `n` characters has seen nothing but these.
pub proof fn lemma_scan_prefix(a: Seq<char>, b: Seq<char>, n: nat)
    requires
        n <= a.len(),
        n <= b.len(),
        a.subrange(0, n as int) == b.subrange(0, n as int),
    ensures
        scan_first(a, n) == scan_first(b, n),
    decreases n,
{
    if n > 0 {
        assert(a.subrange(0, n - 1) =~= a.subrange(0, n as int).subrange(0, n - 1));
        assert(b.subrange(0, n - 1) =~= b.subrange(0, n as int).subrange(0, n - 1));
        lemma_scan_prefix(a, b, (n - 1) as nat);
        lemma_scan_tail(a, (n - 1) as nat);
        assert(a[n - 1] == a.subrange(0, n as int)[n - 1]);
        assert(b[n - 1] == b.subrange(0, n as int)[n - 1]);
        if let Ok(scan) = scan_first(a, (n - 1) as nat) {
            assert(a.subrange(scan.tail, n - 1) =~= a.subrange(0, n as int).subrange(scan.tail, n - 1));
            assert(b.subrange(scan.tail, n - 1) =~= b.subrange(0, n as int).subrange(scan.tail, n - 1));
        }
    }
}

/// A part of what stands behind the first `offset` characters of a text is
/// the part of the text that lies `offset` characters further on.
proof fn lemma_subrange_behind(text: Seq<char>, b: Seq<char>, offset: int, lo: int, hi: int)
    requires
        0 <= offset,
        text.len() == offset + b.len(),
        text.subrange(offset, text.len() as int) == b,
        0 <= lo <= hi <= b.len(),
    ensures
        text.subrange(offset + lo, offset + hi) == b.subrange(lo, hi),
{
    assert(text.subrange(offset + lo, offset + hi) =~= text.subrange(offset, text.len() as int).subrange(lo, hi));
}

/// What the automaton makes of `b` behind a text that it has read up to a
/// blank: what it makes of `b` alone, with the tokens of the text in front.
proof fn lemma_scan_behind(text: Seq<char>, b: Seq<char>, offset: int, before: Seq<TokenView>, k: nat)
    requires
        0 <= offset,
        text.len() == offset + b.len(),
        text.subrange(offset, text.len() as int) == b,
        k <= b.len(),
        scan_first(text, offset as nat) matches Ok(scan) && scan.state == State::Initial && scan.tokens == before,
    ensures
        match scan_first(b, k) {
            Err(e) => scan_first(text, (offset + k) as nat) == Err::<Scan, LexerError>(e),
            Ok(alone) => scan_first(text, (offset + k) as nat) matches Ok(joined) && joined.state == alone.state
                && joined.tokens == before + alone.tokens && (alone.state != State::Initial ==> joined.tail
                == alone.tail + offset),
        },
    decreases k,
{
    if k == 0 {
        assert(before + Seq::<TokenView>::empty() =~= before);
    } else {
        lemma_scan_behind(text, b, offset, before, (k - 1) as nat);
        lemma_scan_tail(b, (k - 1) as nat);
        assert(text[offset + k - 1] == b[k - 1]) by {
            assert(text.subrange(offset, text.len() as int)[k - 1] == text[offset + k - 1]);
        }
        if let Ok(alone) = scan_first(b, (k - 1) as nat) {
            let joined = scan_first(text, (offset + k - 1) as nat)->Ok_0;
            if alone.state != State::Initial {
                lemma_subrange_behind(text, b, offset, alone.tail, k - 1);
            }
            if let Ok(token) = framed_token(b.subrange(alone.tail, k - 1), alone.state) {
                assert((before + alone.tokens).push(token) =~= before + alone.tokens.push(token));
            }
        }
    }
}

/// A blank separates: the tokens of two texts with a blank between them are
/// the tokens of the first text and then the tokens of the second, and the
/// first error of either text is the error of the whole.
pub proof fn lemma_lex_blank_separates(a: Seq<char>, b: Seq<char>)
    ensures
        lex(a + seq![' '] + b) == match lex(a) {
            Err(e) => Err::<Seq<TokenView>, LexerError>(e),
            Ok(first) => match lex(b) {
                Err(e) => Err(e),
                Ok(second) => Ok(first + second),
            },
        },
{
    let text = a + seq![' '] + b;
    let n = a.len();
    let offset = n + 1;
    assert(text.subrange(0, n as int) =~= a);
    assert(a.subrange(0, n as int) =~= a);
    lemma_scan_prefix(text, a, n);
    lemma_scan_tail(a, n);
    assert(text[n as int] == ' ');
    match scan_first(a, n) {
        Err(e) => {
            lemma_scan_error_stays(text, n, text.len());
        },
        Ok(scan) => {
            assert(text.subrange(scan.tail, n as int) =~= a.subrange(scan.tail, n as int));
            match lex(a) {
                Err(e) => {
                    assert(scan_first(text, offset) == Err::<Scan, LexerError>(e));
                    lemma_scan_error_stays(text, offset, text.len());
                },
                Ok(first) => {
                    assert(scan_first(text, offset) == Ok::<Scan, LexerError>(
                        Scan { state: State::Initial, tail: n as int, tokens: first },
                    ));
                    assert(text.subrange(offset as int, text.len() as int) =~= b);
                    lemma_scan_behind(text, b, offset as int, first, b.len());
                    lemma_scan_tail(b, b.len());
                    if let Ok(alone) = scan_first(b, b.len()) {
                        let joined = scan_first(text, text.len())->Ok_0;
                        if alone.state != State::Initial {
                            lemma_subrange_behind(text, b, offset as int, alone.tail, b.len() as int);
                        }
                        if let Ok(token) = framed_token(b.subrange(alone.tail, b.len() as int), alone.state) {
                            assert((first + alone.tokens).push(token) =~= first + alone.tokens.push(token));
                        }
                    }
                },
            }
        },
    }
}


/// One of `( ) < > =`.
pub open spec fn is_punctuation(c: char) -> bool {
    c == '(' || c == ')' || c == '<' || c == '>' || c == '='
}

/// A run of characters that the automaton reads as one token: a letter
/// followed by letters and digits, or digits only, or punctuation only.
pub open spec fn is_run(text: Seq<char>, state: State) -> bool {
    &&& text.len() > 0
    &&& match state {
        State::Identifier => is_letter(text[0]) && forall|i: int|
            0 <= i < text.len() ==> is_letter(#[trigger] text[i]) || is_digit(text[i]),
        State::Number => all_digits(text),
        State::Operator => forall|i: int| 0 <= i < text.len() ==> is_punctuation(#[trigger] text[i]),
        _ => false,
    }
}

/// While the automaton reads a run, it stays in the state of the run and has
/// completed no token.
proof fn lemma_scan_run(text: Seq<char>, state: State, n: nat)
    requires
        is_run(text, state),
        0 < n <= text.len(),
    ensures
        scan_first(text, n) == Ok::<Scan, LexerError>(Scan { state, tail: 0, tokens: Seq::empty() }),
    decreases n,
{
    if n > 1 {
        lemma_scan_run(text, state, (n - 1) as nat);
    } else {
        assert(scan_first(text, 0) == Ok::<Scan, LexerError>(
            Scan { state: State::Initial, tail: 0, tokens: Seq::empty() },
        ));
    }
    let c = text[n - 1];
    match state {
        State::Identifier => {
            assert(is_letter(c) || is_digit(c));
            assert(n == 1 ==> is_letter(c));
        },
        State::Number => {
            assert(is_digit(c));
        },
        _ => {
            assert(is_punctuation(c));
        },
    }
}

/// A text that is one run is one token: the token of the run.
pub proof fn lemma_lex_run(text: Seq<char>, state: State)
    requires
        is_run(text, state),
    ensures
        lex(text) == match framed_token(text, state) {
            Err(e) => Err::<Seq<TokenView>, LexerError>(e),
            Ok(token) => Ok(seq![token]),
        },
{
    lemma_scan_run(text, state, text.len());
    assert(text.subrange(0, text.len() as int) =~= text);
    if let Ok(token) = framed_token(text, state) {
        assert(Seq::<TokenView>::empty().push(token) =~= seq![token]);
    }
}

/// The empty text has no tokens.
pub proof fn lemma_lex_empty()
    ensures
        lex(Seq::empty()) == Ok::<Seq<TokenView>, LexerError>(Seq::empty()),
{
}

} // verus!
