//! The tokens of the `sim2` language.

use vstd::prelude::*;
use vstd::std_specs::cmp::PartialEqSpecImpl;

verus! {

/// A token: a keyword or punctuation mark, a name, or an integer literal.
#[derive(Clone, Debug)]
pub enum Token {
    Id(String),
    Int(i32),
    Sim,
    Lpar,
    Rpar,
    End,
    If,
    Block,
    Then,
    Else,
    Rand,
    OneEq,
    Add,
    Sub,
    Lt,
    Gt,
    TwoEq,
    Move,
    Hunt,
    Rest,
    Breed,
    IdRest,
    IdEnergy,
    DirN,
    DirNE,
    DirE,
    DirSE,
    DirS,
    DirSW,
    DirW,
    DirNW,
}

/// A token as a mathematical value: a name is its sequence of characters.
pub enum TokenView {
    Id(Seq<char>),
    Int(i32),
    Sim,
    Lpar,
    Rpar,
    End,
    If,
    Block,
    Then,
    Else,
    Rand,
    OneEq,
    Add,
    Sub,
    Lt,
    Gt,
    TwoEq,
    Move,
    Hunt,
    Rest,
    Breed,
    IdRest,
    IdEnergy,
    DirN,
    DirNE,
    DirE,
    DirSE,
    DirS,
    DirSW,
    DirW,
    DirNW,
}

impl View for Token {
    type V = TokenView;

    open spec fn view(&self) -> TokenView {
        match self {
            Token::Id(name) => TokenView::Id(name@),
            Token::Int(value) => TokenView::Int(*value),
            Token::Sim => TokenView::Sim,
            Token::Lpar => TokenView::Lpar,
            Token::Rpar => TokenView::Rpar,
            Token::End => TokenView::End,
            Token::If => TokenView::If,
            Token::Block => TokenView::Block,
            Token::Then => TokenView::Then,
            Token::Else => TokenView::Else,
            Token::Rand => TokenView::Rand,
            Token::OneEq => TokenView::OneEq,
            Token::Add => TokenView::Add,
            Token::Sub => TokenView::Sub,
            Token::Lt => TokenView::Lt,
            Token::Gt => TokenView::Gt,
            Token::TwoEq => TokenView::TwoEq,
            Token::Move => TokenView::Move,
            Token::Hunt => TokenView::Hunt,
            Token::Rest => TokenView::Rest,
            Token::Breed => TokenView::Breed,
            Token::IdRest => TokenView::IdRest,
            Token::IdEnergy => TokenView::IdEnergy,
            Token::DirN => TokenView::DirN,
            Token::DirNE => TokenView::DirNE,
            Token::DirE => TokenView::DirE,
            Token::DirSE => TokenView::DirSE,
            Token::DirS => TokenView::DirS,
            Token::DirSW => TokenView::DirSW,
            Token::DirW => TokenView::DirW,
            Token::DirNW => TokenView::DirNW,
        }
    }
}

/// The views of a sequence of tokens, in order.
pub open spec fn token_views(tokens: Seq<Token>) -> Seq<TokenView> {
    Seq::new(tokens.len(), |i: int| tokens[i]@)
}

/// Two tokens are equal when they are of the same kind and, for a name or an
/// integer literal, carry the same payload.
impl PartialEq for Token {
    fn eq(&self, other: &Self) -> (equal: bool) {
        match (self, other) {
            (Token::Id(a), Token::Id(b)) => a.as_str().eq(b.as_str()),
            (Token::Int(a), Token::Int(b)) => *a == *b,
            (Token::Sim, Token::Sim) => true,
            (Token::Lpar, Token::Lpar) => true,
            (Token::Rpar, Token::Rpar) => true,
            (Token::End, Token::End) => true,
            (Token::If, Token::If) => true,
            (Token::Block, Token::Block) => true,
            (Token::Then, Token::Then) => true,
            (Token::Else, Token::Else) => true,
            (Token::Rand, Token::Rand) => true,
            (Token::OneEq, Token::OneEq) => true,
            (Token::Add, Token::Add) => true,
            (Token::Sub, Token::Sub) => true,
            (Token::Lt, Token::Lt) => true,
            (Token::Gt, Token::Gt) => true,
            (Token::TwoEq, Token::TwoEq) => true,
            (Token::Move, Token::Move) => true,
            (Token::Hunt, Token::Hunt) => true,
            (Token::Rest, Token::Rest) => true,
            (Token::Breed, Token::Breed) => true,
            (Token::IdRest, Token::IdRest) => true,
            (Token::IdEnergy, Token::IdEnergy) => true,
            (Token::DirN, Token::DirN) => true,
            (Token::DirNE, Token::DirNE) => true,
            (Token::DirE, Token::DirE) => true,
            (Token::DirSE, Token::DirSE) => true,
            (Token::DirS, Token::DirS) => true,
            (Token::DirSW, Token::DirSW) => true,
            (Token::DirW, Token::DirW) => true,
            (Token::DirNW, Token::DirNW) => true,
            _ => false,
        }
    }
}

impl PartialEqSpecImpl for Token {
    open spec fn obeys_eq_spec() -> bool {
        true
    }

    open spec fn eq_spec(&self, other: &Self) -> bool {
        self@ == other@
    }
}

} // verus!
