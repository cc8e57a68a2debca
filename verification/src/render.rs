//! How programs are written out, for messages and for inspection.

use vstd::prelude::*;
use vstd::string::StringExecFns;
use crate::program::{
    Action, ArithmeticOp, ArithmeticView, ConditionOp, ConditionView, Direction, ExpressionView, IdentifierView,
    SpecialIdentifier, StatementView,
};

verus! {

/// The decimal digit `d` as a text.
pub open spec fn digit_text(d: int) -> Seq<char> {
    if d == 0 {
        "0"@
    } else if d == 1 {
        "1"@
    } else if d == 2 {
        "2"@
    } else if d == 3 {
        "3"@
    } else if d == 4 {
        "4"@
    } else if d == 5 {
        "5"@
    } else if d == 6 {
        "6"@
    } else if d == 7 {
        "7"@
    } else if d == 8 {
        "8"@
    } else {
        "9"@
    }
}

/// The decimal digits of a natural number, without leading zeros.
pub open spec fn digits_text(n: nat) -> Seq<char>
    decreases n,
{
    if n < 10 {
        digit_text(n as int)
    } else {
        digits_text(n / 10) + digit_text((n % 10) as int)
    }
}

/// An integer in decimal notation, with a minus sign where it is negative.
pub open spec fn decimal_text(v: int) -> Seq<char> {
    if v < 0 {
        "-"@ + digits_text((-v) as nat)
    } else {
        digits_text(v as nat)
    }
}

/// The text of one decimal digit.
pub fn digit_str(d: u64) -> (text: &'static str)
    requires
        d < 10,
    ensures
        text@ == digit_text(d as int),
{
    if d == 0 {
        "0"
    } else if d == 1 {
        "1"
    } else if d == 2 {
        "2"
    } else if d == 3 {
        "3"
    } else if d == 4 {
        "4"
    } else if d == 5 {
        "5"
    } else if d == 6 {
        "6"
    } else if d == 7 {
        "7"
    } else if d == 8 {
        "8"
    } else {
        "9"
    }
}

/// Appends the decimal digits of `n` to a text.
pub fn push_digits(text: &mut String, n: u64)
    ensures
        final(text)@ == old(text)@ + digits_text(n as nat),
    decreases n,
{
    if n >= 10 {
        push_digits(text, n / 10);
    }
    text.append(digit_str(n % 10));
}

/// Writes an integer in decimal notation.
pub fn decimal_string(v: i32) -> (text: String)
    ensures
        text@ == decimal_text(v as int),
{
    let mut text = String::new();
    let wide = v as i64;
    if wide < 0 {
        text.append("-");
        push_digits(&mut text, (-wide) as u64);
    } else {
        push_digits(&mut text, wide as u64);
    }
    text
}

impl Direction {
    /// The name of the direction.
    pub open spec fn text(self) -> Seq<char> {
        match self {
            Direction::N => "N"@,
            Direction::NE => "NE"@,
            Direction::E => "E"@,
            Direction::SE => "SE"@,
            Direction::S => "S"@,
            Direction::SW => "SW"@,
            Direction::W => "W"@,
            Direction::NW => "NW"@,
        }
    }

    /// The name of the direction.
    pub fn to_string(&self) -> (text: String)
        ensures
            text@ == self.text(),
    {
        let s = match self {
            Direction::N => "N",
            Direction::NE => "NE",
            Direction::E => "E",
            Direction::SE => "SE",
            Direction::S => "S",
            Direction::SW => "SW",
            Direction::W => "W",
            Direction::NW => "NW",
        };
        s.to_owned()
    }
}

impl ConditionOp {
    /// The operator as it is written in a program.
    pub open spec fn text(self) -> Seq<char> {
        match self {
            ConditionOp::Lt => "<"@,
            ConditionOp::Gt => ">"@,
            ConditionOp::Eq => "=="@,
        }
    }

    /// The operator as it is written in a program.
    pub fn to_string(&self) -> (text: String)
        ensures
            text@ == self.text(),
    {
        let s = match self {
            ConditionOp::Lt => "<",
            ConditionOp::Gt => ">",
            ConditionOp::Eq => "==",
        };
        s.to_owned()
    }
}

impl ArithmeticOp {
    /// The name of the operation.
    pub open spec fn text(self) -> Seq<char> {
        match self {
            ArithmeticOp::Add => "Add"@,
            ArithmeticOp::Sub => "Sub"@,
        }
    }

    /// The name of the operation.
    pub fn to_string(&self) -> (text: String)
        ensures
            text@ == self.text(),
    {
        let s = match self {
            ArithmeticOp::Add => "Add",
            ArithmeticOp::Sub => "Sub",
        };
        s.to_owned()
    }
}

impl SpecialIdentifier {
    /// The name of the identifier.
    pub open spec fn text(self) -> Seq<char> {
        match self {
            SpecialIdentifier::DailyRest => "DailyRest"@,
            SpecialIdentifier::Energy => "Energy"@,
            SpecialIdentifier::Rand => "Rand"@,
        }
    }

    /// The name of the identifier.
    pub fn to_string(&self) -> (text: String)
        ensures
            text@ == self.text(),
    {
        let s = match self {
            SpecialIdentifier::DailyRest => "DailyRest",
            SpecialIdentifier::Energy => "Energy",
            SpecialIdentifier::Rand => "Rand",
        };
        s.to_owned()
    }
}

impl Action {
    /// The name of the action with its direction or count in parentheses;
    /// `None` for no action.
    pub open spec fn text(self) -> Seq<char> {
        match self {
            Action::Move(dir) => "Move("@ + dir.text() + ")"@,
            Action::Hunt(dir) => "Hunt("@ + dir.text() + ")"@,
            Action::Breed(dir) => "Breed("@ + dir.text() + ")"@,
            Action::Rest(count) => "Rest("@ + decimal_text(count as int) + ")"@,
            Action::Nothing => "None"@,
        }
    }

    /// Writes the action out.
    pub fn to_string(&self) -> (text: String)
        ensures
            text@ == self.text(),
    {
        match self {
            Action::Move(dir) => {
                let mut text = "Move(".to_owned();
                text.append(dir.to_string().as_str());
                text.append(")");
                text
            },
            Action::Hunt(dir) => {
                let mut text = "Hunt(".to_owned();
                text.append(dir.to_string().as_str());
                text.append(")");
                text
            },
            Action::Breed(dir) => {
                let mut text = "Breed(".to_owned();
                text.append(dir.to_string().as_str());
                text.append(")");
                text
            },
            Action::Rest(count) => {
                let mut text = "Rest(".to_owned();
                text.append(decimal_string(*count).as_str());
                text.append(")");
                text
            },
            Action::Nothing => "None".to_owned(),
        }
    }
}

impl IdentifierView {
    /// The name of a variable or of a special identifier, or a literal in
    /// decimal notation.
    pub open spec fn text(self) -> Seq<char> {
        match self {
            IdentifierView::Special(special) => special.text(),
            IdentifierView::Variable(key) => key,
            IdentifierView::Constant(value) => decimal_text(value as int),
        }
    }
}

impl ConditionView {
    /// The comparison in parentheses, its parts set apart by blanks.
    pub open spec fn text(self) -> Seq<char> {
        "( "@ + self.a.text() + " "@ + self.op.text() + " "@ + self.b.text() + " )"@
    }
}

impl ArithmeticView {
    /// Arithmetic is not spelled out: every arithmetic expression is shown
    /// by the same word.
    pub open spec fn text(self) -> Seq<char> {
        "Action"@
    }
}

impl ExpressionView {
    /// The text of the expression, by its kind.
    pub open spec fn text(self) -> Seq<char> {
        match self {
            ExpressionView::Identifier(identifier) => identifier.text(),
            ExpressionView::Arithmetic(arithmetic) => arithmetic.text(),
            ExpressionView::Condition(condition) => condition.text(),
        }
    }
}

impl StatementView {
    /// The statement written out on one line.
    pub open spec fn text(self) -> Seq<char>
        decreases self, 0nat,
    {
        match self {
            StatementView::Action(action) => action.text(),
            StatementView::Assign { key, expression } => key + " = "@ + expression.text(),
            StatementView::IfThen { condition, then_statement, else_statement } => "if "@ + condition.text()
                + " then "@ + then_statement.text() + " "@ + match else_statement {
                Some(statement) => "else "@ + statement.text() + " "@,
                None => Seq::empty(),
            } + "end"@,
            StatementView::Block(statements) => "Block "@ + Self::text_first(statements, statements.len())
                + "End"@,
        }
    }

    /// The first `n` statements of a block, each followed by a blank.
    pub open spec fn text_first(statements: Seq<StatementView>, n: nat) -> Seq<char>
        decreases statements, n,
    {
        if n == 0 || n > statements.len() {
            Seq::empty()
        } else {
            Self::text_first(statements, (n - 1) as nat) + statements[n - 1].text() + " "@
        }
    }
}

} // verus!
