//! Programs of the `sim2` language: the syntax tree and its evaluation.
//!
//! A program is a tree of statements over expressions. Running it against the
//! state of a creature yields one [`Action`]. The meaning of every node is a
//! spec function on the node's view, and the executable evaluators are proved
//! to compute exactly those functions. Chance enters only through the
//! [`Draws`] that a run consumes: the same state and the same draws give the
//! same action.

use vstd::prelude::*;
use vstd::string::StringExecFns;
use crate::bindings::Bindings;
use crate::render::{decimal_string, decimal_text};
use crate::random::{draws_in_range, Draws};

verus! {

/// The comparison of a condition.
#[derive(Clone, Copy, Debug, PartialEq, Eq, Structural)]
pub enum ConditionOp {
    Lt,
    Gt,
    Eq,
}

/// The operation of an arithmetic expression.
#[derive(Clone, Copy, Debug, PartialEq, Eq, Structural)]
pub enum ArithmeticOp {
    Add,
    Sub,
}

/// The state of a creature that a program can read.
#[derive(Clone, Copy, Debug, PartialEq, Eq, Structural)]
pub struct CreatureStats {
    pub energy: i32,
    pub daily_rest: i32,
}

/// One of the eight compass points.
#[derive(Clone, Copy, Debug, PartialEq, Eq, Structural)]
pub enum Direction {
    N,
    NE,
    E,
    SE,
    S,
    SW,
    W,
    NW,
}

/// What a creature does in a tick, as decided by its program.
#[derive(Clone, Copy, Debug, PartialEq, Eq, Structural)]
pub enum Action {
    Move(Direction),
    Hunt(Direction),
    Breed(Direction),
    Rest(i32),
    /// No action: the creature stays as it is.
    Nothing,
}

/// Identifiers whose value does not come from an assignment.
#[derive(Clone, Copy, Debug, PartialEq, Eq, Structural)]
pub enum SpecialIdentifier {
    Rand,
    Energy,
    DailyRest,
}

/// Why a run of a program stopped without an action.
#[derive(Clone, Copy, Debug, PartialEq, Eq, Structural)]
pub enum RuntimeError {
    /// A variable was read before anything was assigned to it.
    UnboundVariable,
    /// A sum or difference does not fit the language's 32-bit integers.
    Overflow,
    /// `rand` was evaluated after the last draw had been consumed.
    OutOfDraws,
}

/// The value of an expression, or the error that stopped its evaluation, and
/// the draws that are left after it.
pub struct Evaluation {
    pub value: Result<i32, RuntimeError>,
    pub draws: Seq<i32>,
}

/// The action of a statement, or the error that stopped it, together with the
/// variables and the draws that it leaves behind.
pub struct Execution {
    pub action: Result<Action, RuntimeError>,
    pub vars: Map<Seq<char>, i32>,
    pub draws: Seq<i32>,
}

/// `v` as a value of the language, if it fits.
pub open spec fn checked(v: int) -> Result<i32, RuntimeError> {
    if i32::MIN <= v <= i32::MAX {
        Ok(v as i32)
    } else {
        Err(RuntimeError::Overflow)
    }
}

/// 1 for true and 0 for false.
pub open spec fn truth(b: bool) -> i32 {
    if b {
        1
    } else {
        0
    }
}

impl ArithmeticOp {
    /// The sum or the difference, where it fits 32 bits.
    pub open spec fn apply(self, a: i32, b: i32) -> Result<i32, RuntimeError> {
        match self {
            ArithmeticOp::Add => checked(a + b),
            ArithmeticOp::Sub => checked(a - b),
        }
    }
}

impl ConditionOp {
    /// Whether the comparison holds of the two values.
    pub open spec fn holds(self, a: i32, b: i32) -> bool {
        match self {
            ConditionOp::Lt => a < b,
            ConditionOp::Gt => a > b,
            ConditionOp::Eq => a == b,
        }
    }
}

impl SpecialIdentifier {
    /// `energy` and `awakeDaily` read the creature; `rand` consumes one draw.
    pub open spec fn eval(self, cs: CreatureStats, draws: Seq<i32>) -> Evaluation {
        match self {
            SpecialIdentifier::Energy => Evaluation { value: Ok(cs.energy), draws },
            SpecialIdentifier::DailyRest => Evaluation { value: Ok(cs.daily_rest), draws },
            SpecialIdentifier::Rand => if draws.len() > 0 {
                Evaluation { value: Ok(draws[0]), draws: draws.drop_first() }
            } else {
                Evaluation { value: Err(RuntimeError::OutOfDraws), draws }
            },
        }
    }

    /// How often a run may ask for a draw because of this identifier.
    pub open spec fn rand_sites(self) -> nat {
        if self == SpecialIdentifier::Rand {
            1
        } else {
            0
        }
    }
}

/// An identifier as a mathematical value.
pub enum IdentifierView {
    Special(SpecialIdentifier),
    Variable(Seq<char>),
    Constant(i32),
}

impl IdentifierView {
    /// The value of a constant is the constant, the value of a variable is what
    /// was assigned to it, and a special identifier reads the creature or takes
    /// a draw.
    pub open spec fn eval(self, cs: CreatureStats, vars: Map<Seq<char>, i32>, draws: Seq<i32>) -> Evaluation {
        match self {
            IdentifierView::Special(s) => s.eval(cs, draws),
            IdentifierView::Variable(key) => if vars.contains_key(key) {
                Evaluation { value: Ok(vars[key]), draws }
            } else {
                Evaluation { value: Err(RuntimeError::UnboundVariable), draws }
            },
            IdentifierView::Constant(value) => Evaluation { value: Ok(value), draws },
        }
    }

    /// 1 for `rand`, else 0.
    pub open spec fn rand_sites(self) -> nat {
        match self {
            IdentifierView::Special(s) => s.rand_sites(),
            _ => 0,
        }
    }
}

/// The values of two identifiers, the left one evaluated first, or the first
/// error, and the draws left after them.
pub struct Operands {
    pub values: Result<(i32, i32), RuntimeError>,
    pub draws: Seq<i32>,
}

/// The values of two operands, the left one evaluated first: the draws
/// that the left one leaves are those that the right one sees.
pub open spec fn eval_operands(
    a: IdentifierView,
    b: IdentifierView,
    cs: CreatureStats,
    vars: Map<Seq<char>, i32>,
    draws: Seq<i32>,
) -> Operands {
    let left = a.eval(cs, vars, draws);
    match left.value {
        Err(e) => Operands { values: Err(e), draws: left.draws },
        Ok(x) => {
            let right = b.eval(cs, vars, left.draws);
            match right.value {
                Err(e) => Operands { values: Err(e), draws: right.draws },
                Ok(y) => Operands { values: Ok((x, y)), draws: right.draws },
            }
        },
    }
}

/// An arithmetic expression as a mathematical value.
pub struct ArithmeticView {
    pub a: IdentifierView,
    pub b: IdentifierView,
    pub op: ArithmeticOp,
}

impl ArithmeticView {
    /// The sum or the difference of the two operands.
    pub open spec fn eval(self, cs: CreatureStats, vars: Map<Seq<char>, i32>, draws: Seq<i32>) -> Evaluation {
        let operands = eval_operands(self.a, self.b, cs, vars, draws);
        match operands.values {
            Err(e) => Evaluation { value: Err(e), draws: operands.draws },
            Ok((x, y)) => Evaluation { value: self.op.apply(x, y), draws: operands.draws },
        }
    }

    /// The number of operands that are `rand`.
    pub open spec fn rand_sites(self) -> nat {
        self.a.rand_sites() + self.b.rand_sites()
    }
}

/// A condition as a mathematical value.
pub struct ConditionView {
    pub a: IdentifierView,
    pub b: IdentifierView,
    pub op: ConditionOp,
}

impl ConditionView {
    /// 1 where the comparison of the two operands holds, else 0.
    pub open spec fn eval(self, cs: CreatureStats, vars: Map<Seq<char>, i32>, draws: Seq<i32>) -> Evaluation {
        let operands = eval_operands(self.a, self.b, cs, vars, draws);
        match operands.values {
            Err(e) => Evaluation { value: Err(e), draws: operands.draws },
            Ok((x, y)) => Evaluation { value: Ok(truth(self.op.holds(x, y))), draws: operands.draws },
        }
    }

    /// The number of operands that are `rand`.
    pub open spec fn rand_sites(self) -> nat {
        self.a.rand_sites() + self.b.rand_sites()
    }
}

/// An expression as a mathematical value.
pub enum ExpressionView {
    Identifier(IdentifierView),
    Arithmetic(ArithmeticView),
    Condition(ConditionView),
}

impl ExpressionView {
    /// The value of the expression, by its kind.
    pub open spec fn eval(self, cs: CreatureStats, vars: Map<Seq<char>, i32>, draws: Seq<i32>) -> Evaluation {
        match self {
            ExpressionView::Identifier(id) => id.eval(cs, vars, draws),
            ExpressionView::Arithmetic(arithmetic) => arithmetic.eval(cs, vars, draws),
            ExpressionView::Condition(condition) => condition.eval(cs, vars, draws),
        }
    }

    /// The number of places in the expression at which `rand` stands.
    pub open spec fn rand_sites(self) -> nat {
        match self {
            ExpressionView::Identifier(id) => id.rand_sites(),
            ExpressionView::Arithmetic(arithmetic) => arithmetic.rand_sites(),
            ExpressionView::Condition(condition) => condition.rand_sites(),
        }
    }
}

/// A statement as a mathematical value.
pub enum StatementView {
    Block(Seq<StatementView>),
    IfThen {
        condition: ConditionView,
        then_statement: Box<StatementView>,
        else_statement: Option<Box<StatementView>>,
    },
    Assign { key: Seq<char>, expression: ExpressionView },
    Action(Action),
}

impl StatementView {
    /// What running the statement does.
    ///
    /// - An action yields itself.
    /// - An assignment evaluates its expression, binds the variable to the
    ///   value and yields no action.
    /// - A conditional runs its first branch where the condition evaluates to
    ///   1, else its second branch; without a second branch it yields no
    ///   action.
    /// - A block runs its statements in order and yields the action of the
    ///   last one (no action where it is empty).
    ///
    /// The first error stops the run.
    pub open spec fn exec(self, cs: CreatureStats, vars: Map<Seq<char>, i32>, draws: Seq<i32>) -> Execution
        decreases self, 0nat,
    {
        match self {
            StatementView::Action(action) => Execution { action: Ok(action), vars, draws },
            StatementView::Assign { key, expression } => {
                let evaluation = expression.eval(cs, vars, draws);
                match evaluation.value {
                    Err(e) => Execution { action: Err(e), vars, draws: evaluation.draws },
                    Ok(value) => Execution {
                        action: Ok(Action::Nothing),
                        vars: vars.insert(key, value),
                        draws: evaluation.draws,
                    },
                }
            },
            StatementView::IfThen { condition, then_statement, else_statement } => {
                let evaluation = condition.eval(cs, vars, draws);
                match evaluation.value {
                    Err(e) => Execution { action: Err(e), vars, draws: evaluation.draws },
                    Ok(value) => if value == 1 {
                        then_statement.exec(cs, vars, evaluation.draws)
                    } else {
                        match else_statement {
                            Some(statement) => statement.exec(cs, vars, evaluation.draws),
                            None => Execution { action: Ok(Action::Nothing), vars, draws: evaluation.draws },
                        }
                    },
                }
            },
            StatementView::Block(statements) => Self::exec_first(statements, statements.len(), cs, vars, draws),
        }
    }

    /// What running the first `n` statements of a block does.
    pub open spec fn exec_first(
        statements: Seq<StatementView>,
        n: nat,
        cs: CreatureStats,
        vars: Map<Seq<char>, i32>,
        draws: Seq<i32>,
    ) -> Execution
        decreases statements, n,
    {
        if n == 0 || n > statements.len() {
            Execution { action: Ok(Action::Nothing), vars, draws }
        } else {
            let before = Self::exec_first(statements, (n - 1) as nat, cs, vars, draws);
            match before.action {
                Err(_) => before,
                Ok(_) => statements[n - 1].exec(cs, before.vars, before.draws),
            }
        }
    }

    /// The number of places in the statement at which `rand` stands. A run
    /// evaluates each place at most once.
    pub open spec fn rand_sites(self) -> nat
        decreases self, 0nat,
    {
        match self {
            StatementView::Action(_) => 0,
            StatementView::Assign { key, expression } => expression.rand_sites(),
            StatementView::IfThen { condition, then_statement, else_statement } => condition.rand_sites()
                + then_statement.rand_sites() + match else_statement {
                Some(statement) => statement.rand_sites(),
                None => 0,
            },
            StatementView::Block(statements) => Self::rand_sites_first(statements, statements.len()),
        }
    }

    /// The number of places at which `rand` stands in the first `n`
    /// statements of a block.
    pub open spec fn rand_sites_first(statements: Seq<StatementView>, n: nat) -> nat
        decreases statements, n,
    {
        if n == 0 || n > statements.len() {
            0
        } else {
            Self::rand_sites_first(statements, (n - 1) as nat) + statements[n - 1].rand_sites()
        }
    }

    /// What a run of the statement as a whole program yields: it starts with
    /// no variable bound.
    pub open spec fn run(self, energy: i32, daily_rest: i32, draws: Seq<i32>) -> Result<Action, RuntimeError> {
        self.exec(CreatureStats { energy, daily_rest }, Map::empty(), draws).action
    }
}


/// `n` as a count that a machine can hold: `usize::MAX` stands for every
/// larger number.
pub open spec fn capped(n: nat) -> usize {
    if n <= usize::MAX {
        n as usize
    } else {
        usize::MAX
    }
}

/// The views of the statements of a block, in order.
pub open spec fn views_of(statements: Seq<StatementKind>) -> Seq<StatementView> {
    Seq::new(statements.len(), |i: int| statements[i]@)
}

/// Expressions evaluate to an integer.
pub trait Expression {
    /// The expression as a mathematical value.
    spec fn expression(&self) -> ExpressionView;

    /// Evaluates the expression for a creature, under the given variables,
    /// taking from `draws` what `rand` asks for.
    fn execute(&self, cs: &CreatureStats, vars: &Bindings, draws: &mut Draws) -> (value: Result<
        i32,
        RuntimeError,
    >)
        ensures
            (Evaluation { value, draws: final(draws)@ }) == self.expression().eval(*cs, vars@, old(draws)@),
    ;
}

/// Statements yield an action and may bind variables.
pub trait Statement {
    /// The statement as a mathematical value.
    spec fn statement(&self) -> StatementView;

    /// Runs the statement for a creature.
    fn execute(&self, cs: &CreatureStats, vars: &mut Bindings, draws: &mut Draws) -> (action: Result<
        Action,
        RuntimeError,
    >)
        ensures
            (Execution { action, vars: final(vars)@, draws: final(draws)@ }) == self.statement().exec(
                *cs,
                old(vars)@,
                old(draws)@,
            ),
    ;
}

impl Statement for Action {
    open spec fn statement(&self) -> StatementView {
        StatementView::Action(*self)
    }

    fn execute(&self, cs: &CreatureStats, vars: &mut Bindings, draws: &mut Draws) -> (action: Result<
        Action,
        RuntimeError,
    >) {
        Ok(*self)
    }
}

impl Expression for SpecialIdentifier {
    open spec fn expression(&self) -> ExpressionView {
        ExpressionView::Identifier(IdentifierView::Special(*self))
    }

    fn execute(&self, cs: &CreatureStats, vars: &Bindings, draws: &mut Draws) -> (value: Result<
        i32,
        RuntimeError,
    >) {
        match self {
            SpecialIdentifier::Energy => Ok(cs.energy),
            SpecialIdentifier::DailyRest => Ok(cs.daily_rest),
            SpecialIdentifier::Rand => match draws.next() {
                Some(n) => Ok(n),
                None => Err(RuntimeError::OutOfDraws),
            },
        }
    }
}

/// A literal value.
#[derive(Debug)]
pub struct Constant {
    value: i32,
}

impl View for Constant {
    type V = i32;

    closed spec fn view(&self) -> i32 {
        self.value
    }
}

impl Constant {
    /// The constant with the given value.
    pub fn new(value: i32) -> (constant: Constant)
        ensures
            constant@ == value,
    {
        Constant { value }
    }
}

impl Expression for Constant {
    open spec fn expression(&self) -> ExpressionView {
        ExpressionView::Identifier(IdentifierView::Constant(self@))
    }

    fn execute(&self, cs: &CreatureStats, vars: &Bindings, draws: &mut Draws) -> (value: Result<
        i32,
        RuntimeError,
    >) {
        Ok(self.value)
    }
}

/// A variable, which an assignment binds to a value.
#[derive(Debug)]
pub struct Variable {
    key: String,
}

impl View for Variable {
    type V = Seq<char>;

    closed spec fn view(&self) -> Seq<char> {
        self.key@
    }
}

impl Variable {
    /// The variable with the given name.
    pub fn new(key: String) -> (variable: Variable)
        ensures
            variable@ == key@,
    {
        Variable { key }
    }
}

impl Expression for Variable {
    open spec fn expression(&self) -> ExpressionView {
        ExpressionView::Identifier(IdentifierView::Variable(self@))
    }

    fn execute(&self, cs: &CreatureStats, vars: &Bindings, draws: &mut Draws) -> (value: Result<
        i32,
        RuntimeError,
    >) {
        match vars.get(self.key.as_str()) {
            Some(value) => Ok(value),
            None => Err(RuntimeError::UnboundVariable),
        }
    }
}

/// A name, a literal or one of the special identifiers.
#[derive(Debug)]
pub enum Identifier {
    Special(SpecialIdentifier),
    Variable(Variable),
    Constant(Constant),
}

impl View for Identifier {
    type V = IdentifierView;

    open spec fn view(&self) -> IdentifierView {
        match self {
            Identifier::Special(special) => IdentifierView::Special(*special),
            Identifier::Variable(variable) => IdentifierView::Variable(variable@),
            Identifier::Constant(constant) => IdentifierView::Constant(constant@),
        }
    }
}

impl Identifier {
    /// The identifier that reads the creature or takes a draw.
    pub fn new_specialized(ident: SpecialIdentifier) -> (identifier: Identifier)
        ensures
            identifier@ == IdentifierView::Special(ident),
    {
        Identifier::Special(ident)
    }

    /// The identifier that reads the variable with the given name.
    pub fn new_variable(key: String) -> (identifier: Identifier)
        ensures
            identifier@ == IdentifierView::Variable(key@),
    {
        Identifier::Variable(Variable::new(key))
    }

    /// The identifier that stands for the given value.
    pub fn new_constant(val: i32) -> (identifier: Identifier)
        ensures
            identifier@ == IdentifierView::Constant(val),
    {
        Identifier::Constant(Constant::new(val))
    }
}

impl Expression for Identifier {
    open spec fn expression(&self) -> ExpressionView {
        ExpressionView::Identifier(self@)
    }

    fn execute(&self, cs: &CreatureStats, vars: &Bindings, draws: &mut Draws) -> (value: Result<
        i32,
        RuntimeError,
    >) {
        match self {
            Identifier::Special(special) => special.execute(cs, vars, draws),
            Identifier::Variable(variable) => variable.execute(cs, vars, draws),
            Identifier::Constant(constant) => constant.execute(cs, vars, draws),
        }
    }
}

/// Evaluates two identifiers, the left one first.
fn operands(a: &Identifier, b: &Identifier, cs: &CreatureStats, vars: &Bindings, draws: &mut Draws) -> (values:
    Result<(i32, i32), RuntimeError>)
    ensures
        (Operands { values, draws: final(draws)@ }) == eval_operands(a@, b@, *cs, vars@, old(draws)@),
{
    let x = match a.execute(cs, vars, draws) {
        Ok(x) => x,
        Err(e) => {
            return Err(e);
        },
    };
    match b.execute(cs, vars, draws) {
        Ok(y) => Ok((x, y)),
        Err(e) => Err(e),
    }
}

/// The sum or the difference of two identifiers.
#[derive(Debug)]
pub struct Arithmetic {
    a: Identifier,
    b: Identifier,
    op: ArithmeticOp,
}

impl View for Arithmetic {
    type V = ArithmeticView;

    closed spec fn view(&self) -> ArithmeticView {
        ArithmeticView { a: self.a@, b: self.b@, op: self.op }
    }
}

impl Arithmetic {
    /// The sum or the difference of `a` and `b`.
    pub fn new(a: Identifier, b: Identifier, op: ArithmeticOp) -> (arithmetic: Arithmetic)
        ensures
            arithmetic@ == (ArithmeticView { a: a@, b: b@, op }),
    {
        Arithmetic { a, b, op }
    }
}

impl Expression for Arithmetic {
    open spec fn expression(&self) -> ExpressionView {
        ExpressionView::Arithmetic(self@)
    }

    fn execute(&self, cs: &CreatureStats, vars: &Bindings, draws: &mut Draws) -> (value: Result<
        i32,
        RuntimeError,
    >) {
        let (x, y) = match operands(&self.a, &self.b, cs, vars, draws) {
            Ok(values) => values,
            Err(e) => {
                return Err(e);
            },
        };
        let result = match self.op {
            ArithmeticOp::Add => x.checked_add(y),
            ArithmeticOp::Sub => x.checked_sub(y),
        };
        match result {
            Some(value) => Ok(value),
            None => Err(RuntimeError::Overflow),
        }
    }
}

/// A comparison of two identifiers. It evaluates to 1 where it holds and to
/// 0 where it does not.
#[derive(Debug)]
pub struct Condition {
    a: Identifier,
    b: Identifier,
    op: ConditionOp,
}

impl View for Condition {
    type V = ConditionView;

    closed spec fn view(&self) -> ConditionView {
        ConditionView { a: self.a@, b: self.b@, op: self.op }
    }
}

impl Condition {
    /// The comparison of `a` with `b`.
    pub fn new(a: Identifier, b: Identifier, op: ConditionOp) -> (condition: Condition)
        ensures
            condition@ == (ConditionView { a: a@, b: b@, op }),
    {
        Condition { a, b, op }
    }
}

impl Expression for Condition {
    open spec fn expression(&self) -> ExpressionView {
        ExpressionView::Condition(self@)
    }

    fn execute(&self, cs: &CreatureStats, vars: &Bindings, draws: &mut Draws) -> (value: Result<
        i32,
        RuntimeError,
    >) {
        let (x, y) = match operands(&self.a, &self.b, cs, vars, draws) {
            Ok(values) => values,
            Err(e) => {
                return Err(e);
            },
        };
        let istrue = match self.op {
            ConditionOp::Lt => x < y,
            ConditionOp::Gt => x > y,
            ConditionOp::Eq => x == y,
        };
        if istrue {
            Ok(1)
        } else {
            Ok(0)
        }
    }
}

/// The closed set of expressions.
#[derive(Debug)]
pub enum ExpressionKind {
    Identifier(Identifier),
    Arithmetic(Arithmetic),
    Condition(Condition),
}

impl View for ExpressionKind {
    type V = ExpressionView;

    open spec fn view(&self) -> ExpressionView {
        match self {
            ExpressionKind::Identifier(identifier) => ExpressionView::Identifier(identifier@),
            ExpressionKind::Arithmetic(arithmetic) => ExpressionView::Arithmetic(arithmetic@),
            ExpressionKind::Condition(condition) => ExpressionView::Condition(condition@),
        }
    }
}

impl Expression for ExpressionKind {
    open spec fn expression(&self) -> ExpressionView {
        self@
    }

    fn execute(&self, cs: &CreatureStats, vars: &Bindings, draws: &mut Draws) -> (value: Result<
        i32,
        RuntimeError,
    >) {
        match self {
            ExpressionKind::Identifier(identifier) => identifier.execute(cs, vars, draws),
            ExpressionKind::Arithmetic(arithmetic) => arithmetic.execute(cs, vars, draws),
            ExpressionKind::Condition(condition) => condition.execute(cs, vars, draws),
        }
    }
}

/// Binds a variable to the value of an expression.
#[derive(Debug)]
pub struct Assign {
    var: Variable,
    expression: ExpressionKind,
}

/// Runs one of two statements, as a condition decides.
#[derive(Debug)]
pub struct IfThen {
    condition: Condition,
    then_statement: Box<StatementKind>,
    else_statement: Option<Box<StatementKind>>,
}

/// Runs statements one after the other.
#[derive(Debug)]
pub struct Block {
    statements: Vec<StatementKind>,
}

/// The closed set of statements.
#[derive(Debug)]
pub enum StatementKind {
    Block(Block),
    IfThen(IfThen),
    Assign(Assign),
    Action(Action),
}

impl View for Assign {
    type V = StatementView;

    closed spec fn view(&self) -> StatementView {
        StatementView::Assign { key: self.var@, expression: self.expression@ }
    }
}

impl IfThen {
    /// The conditional as a mathematical value.
    pub closed spec fn model(&self) -> StatementView
        decreases self,
    {
        StatementView::IfThen {
            condition: self.condition@,
            then_statement: Box::new(self.then_statement.model()),
            else_statement: match self.else_statement {
                Some(statement) => Some(Box::new(statement.model())),
                None => None,
            },
        }
    }
}

impl Block {
    /// The block as a mathematical value.
    pub closed spec fn model(&self) -> StatementView
        decreases self,
    {
        StatementView::Block(
            Seq::new(
                self.statements@.len(),
                |i: int|
                    if 0 <= i < self.statements.len() {
                        self.statements[i].model()
                    } else {
                        StatementView::Action(Action::Nothing)
                    },
            ),
        )
    }
}

impl StatementKind {
    /// The statement as a mathematical value.
    pub open spec fn model(&self) -> StatementView
        decreases self,
    {
        match self {
            StatementKind::Block(block) => block.model(),
            StatementKind::IfThen(if_then) => if_then.model(),
            StatementKind::Assign(assign) => assign@,
            StatementKind::Action(action) => StatementView::Action(*action),
        }
    }
}

impl View for IfThen {
    type V = StatementView;

    open spec fn view(&self) -> StatementView {
        self.model()
    }
}

impl View for Block {
    type V = StatementView;

    open spec fn view(&self) -> StatementView {
        self.model()
    }
}

impl View for StatementKind {
    type V = StatementView;

    open spec fn view(&self) -> StatementView {
        self.model()
    }
}

impl Assign {
    /// The assignment of the value of `expression` to `var`.
    pub fn new(var: Variable, expression: ExpressionKind) -> (assign: Assign)
        ensures
            assign@ == (StatementView::Assign { key: var@, expression: expression@ }),
    {
        Assign { var, expression }
    }

    /// Runs the assignment.
    pub fn run(&self, cs: &CreatureStats, vars: &mut Bindings, draws: &mut Draws) -> (action: Result<
        Action,
        RuntimeError,
    >)
        ensures
            (Execution { action, vars: final(vars)@, draws: final(draws)@ }) == self@.exec(
                *cs,
                old(vars)@,
                old(draws)@,
            ),
    {
        let value = match self.expression.execute(cs, vars, draws) {
            Ok(value) => value,
            Err(e) => {
                return Err(e);
            },
        };
        vars.insert(self.var.key.clone(), value);
        Ok(Action::Nothing)
    }
}

impl IfThen {
    /// The conditional that runs `then_statement` where `condition` holds and
    /// `else_statement`, if there is one, where it does not.
    pub fn new(condition: Condition, then_statement: StatementKind, else_statement: Option<StatementKind>) -> (if_then:
        IfThen)
        ensures
            if_then@ == (StatementView::IfThen {
                condition: condition@,
                then_statement: Box::new(then_statement@),
                else_statement: match else_statement {
                    Some(statement) => Some(Box::new(statement@)),
                    None => None,
                },
            }),
    {
        IfThen {
            condition,
            then_statement: Box::new(then_statement),
            else_statement: match else_statement {
                Some(statement) => Some(Box::new(statement)),
                None => None,
            },
        }
    }

    /// Runs the conditional.
    pub fn run(&self, cs: &CreatureStats, vars: &mut Bindings, draws: &mut Draws) -> (action: Result<
        Action,
        RuntimeError,
    >)
        ensures
            (Execution { action, vars: final(vars)@, draws: final(draws)@ }) == self@.exec(
                *cs,
                old(vars)@,
                old(draws)@,
            ),
        decreases self,
    {
        let value = match self.condition.execute(cs, vars, draws) {
            Ok(value) => value,
            Err(e) => {
                return Err(e);
            },
        };
        if value == 1 {
            self.then_statement.run(cs, vars, draws)
        } else {
            match &self.else_statement {
                Some(statement) => statement.run(cs, vars, draws),
                None => Ok(Action::Nothing),
            }
        }
    }
}

/// Once a statement of a block has failed, the statements after it do not
/// run.
pub proof fn lemma_exec_first_stops(
    statements: Seq<StatementView>,
    k: nat,
    n: nat,
    cs: CreatureStats,
    vars: Map<Seq<char>, i32>,
    draws: Seq<i32>,
)
    requires
        k <= n <= statements.len(),
        StatementView::exec_first(statements, k, cs, vars, draws).action is Err,
    ensures
        StatementView::exec_first(statements, n, cs, vars, draws) == StatementView::exec_first(
            statements,
            k,
            cs,
            vars,
            draws,
        ),
    decreases n,
{
    if n > k {
        lemma_exec_first_stops(statements, k, (n - 1) as nat, cs, vars, draws);
    }
}

impl Block {
    /// The block of the given statements.
    pub fn new(statements: Vec<StatementKind>) -> (block: Block)
        ensures
            block@ == StatementView::Block(views_of(statements@)),
    {
        let block = Block { statements };
        assert(block@->Block_0 =~= views_of(statements@));
        block
    }

    /// Runs the statements in order.
    pub fn run(&self, cs: &CreatureStats, vars: &mut Bindings, draws: &mut Draws) -> (action: Result<
        Action,
        RuntimeError,
    >)
        ensures
            (Execution { action, vars: final(vars)@, draws: final(draws)@ }) == self@.exec(
                *cs,
                old(vars)@,
                old(draws)@,
            ),
        decreases self,
    {
        let ghost views = self@->Block_0;
        let ghost vars0 = vars@;
        let ghost draws0 = draws@;
        let mut action = Action::Nothing;
        let mut i: usize = 0;
        while i < self.statements.len()
            invariant
                i <= self.statements.len(),
                vars0 == old(vars)@,
                draws0 == old(draws)@,
                views == self@->Block_0,
                views.len() == self.statements.len(),
                forall|j: int| 0 <= j < views.len() ==> views[j] == #[trigger] self.statements[j]@,
                (Execution { action: Ok(action), vars: vars@, draws: draws@ }) == StatementView::exec_first(
                    views,
                    i as nat,
                    *cs,
                    vars0,
                    draws0,
                ),
            decreases self.statements.len() - i,
        {
            match self.statements[i].run(cs, vars, draws) {
                Ok(next) => {
                    action = next;
                },
                Err(e) => {
                    proof {
                        assert(views[i as int] == self.statements[i as int]@);
                        assert(StatementView::exec_first(views, (i + 1) as nat, *cs, vars0, draws0).action is Err);
                        lemma_exec_first_stops(views, (i + 1) as nat, views.len(), *cs, vars0, draws0);
                    }
                    return Err(e);
                },
            }
            i += 1;
        }
        Ok(action)
    }
}

impl StatementKind {
    /// Runs the statement.
    pub fn run(&self, cs: &CreatureStats, vars: &mut Bindings, draws: &mut Draws) -> (action: Result<
        Action,
        RuntimeError,
    >)
        ensures
            (Execution { action, vars: final(vars)@, draws: final(draws)@ }) == self@.exec(
                *cs,
                old(vars)@,
                old(draws)@,
            ),
        decreases self,
    {
        match self {
            StatementKind::Block(block) => block.run(cs, vars, draws),
            StatementKind::IfThen(if_then) => if_then.run(cs, vars, draws),
            StatementKind::Assign(assign) => assign.run(cs, vars, draws),
            StatementKind::Action(action) => Ok(*action),
        }
    }
}

impl Statement for Assign {
    open spec fn statement(&self) -> StatementView {
        self@
    }

    fn execute(&self, cs: &CreatureStats, vars: &mut Bindings, draws: &mut Draws) -> (action: Result<
        Action,
        RuntimeError,
    >) {
        self.run(cs, vars, draws)
    }
}

impl Statement for IfThen {
    open spec fn statement(&self) -> StatementView {
        self@
    }

    fn execute(&self, cs: &CreatureStats, vars: &mut Bindings, draws: &mut Draws) -> (action: Result<
        Action,
        RuntimeError,
    >) {
        self.run(cs, vars, draws)
    }
}

impl Statement for Block {
    open spec fn statement(&self) -> StatementView {
        self@
    }

    fn execute(&self, cs: &CreatureStats, vars: &mut Bindings, draws: &mut Draws) -> (action: Result<
        Action,
        RuntimeError,
    >) {
        self.run(cs, vars, draws)
    }
}

impl Statement for StatementKind {
    open spec fn statement(&self) -> StatementView {
        self@
    }

    fn execute(&self, cs: &CreatureStats, vars: &mut Bindings, draws: &mut Draws) -> (action: Result<
        Action,
        RuntimeError,
    >) {
        self.run(cs, vars, draws)
    }
}


impl Identifier {
    /// 1 for `rand`, else 0.
    pub fn rand_count(&self) -> (n: usize)
        ensures
            n == self@.rand_sites(),
    {
        match self {
            Identifier::Special(SpecialIdentifier::Rand) => 1,
            _ => 0,
        }
    }
}

impl ExpressionKind {
    /// The number of places in the expression at which `rand` stands.
    pub fn rand_count(&self) -> (n: usize)
        ensures
            n == self@.rand_sites(),
    {
        match self {
            ExpressionKind::Identifier(identifier) => identifier.rand_count(),
            ExpressionKind::Arithmetic(arithmetic) => arithmetic.a.rand_count() + arithmetic.b.rand_count(),
            ExpressionKind::Condition(condition) => condition.a.rand_count() + condition.b.rand_count(),
        }
    }
}

impl StatementKind {
    /// The number of places in the statement at which `rand` stands, as far
    /// as a machine can count.
    pub fn rand_count(&self) -> (n: usize)
        ensures
            n == capped(self@.rand_sites()),
        decreases self,
    {
        match self {
            StatementKind::Action(_) => 0,
            StatementKind::Assign(assign) => assign.expression.rand_count(),
            StatementKind::IfThen(if_then) => {
                let in_condition = if_then.condition.a.rand_count() + if_then.condition.b.rand_count();
                let in_then = if_then.then_statement.rand_count();
                let in_else = match &if_then.else_statement {
                    Some(statement) => statement.rand_count(),
                    None => 0,
                };
                in_condition.saturating_add(in_then).saturating_add(in_else)
            },
            StatementKind::Block(block) => block.rand_count(),
        }
    }
}

impl Block {
    /// The number of places in the block at which `rand` stands, as far as a
    /// machine can count.
    pub fn rand_count(&self) -> (n: usize)
        ensures
            n == capped(self@.rand_sites()),
        decreases self,
    {
        let ghost views = self@->Block_0;
        let mut n: usize = 0;
        let mut i: usize = 0;
        while i < self.statements.len()
            invariant
                i <= self.statements.len(),
                views == self@->Block_0,
                views.len() == self.statements.len(),
                forall|j: int| 0 <= j < views.len() ==> views[j] == #[trigger] self.statements[j]@,
                n == capped(StatementView::rand_sites_first(views, i as nat)),
            decreases self.statements.len() - i,
        {
            assert(views[i as int] == self.statements[i as int]@);
            n = n.saturating_add(self.statements[i].rand_count());
            i += 1;
        }
        n
    }
}

/// A compiled program: one statement, run afresh in every tick.
#[derive(Debug)]
pub struct Program {
    statement: StatementKind,
    rand_sites: usize,
}

impl View for Program {
    type V = StatementView;

    closed spec fn view(&self) -> StatementView {
        self.statement@
    }
}

impl Program {
    /// The number of draws for a run was counted when the program was made.
    #[verifier::type_invariant]
    spec fn counted(&self) -> bool {
        self.rand_sites == capped(self.statement@.rand_sites())
    }

    /// The program that runs `statement`.
    pub fn new(statement: StatementKind) -> (program: Program)
        ensures
            program@ == statement@,
    {
        let rand_sites = statement.rand_count();
        Program { statement, rand_sites }
    }

    /// The number of draws that [`Program::execute`] takes for one run: one
    /// for each place at which `rand` stands.
    pub fn draw_count(&self) -> (n: usize)
        ensures
            n == capped(self@.rand_sites()),
    {
        proof {
            use_type_invariant(self);
        }
        self.rand_sites
    }

    /// Runs the program for a creature with the given energy and time awake,
    /// taking from `draws` what `rand` asks for. No variable is bound when
    /// the run starts.
    pub fn execute_with(&self, energy: i32, daily_rest: i32, draws: &mut Draws) -> (action: Result<
        Action,
        RuntimeError,
    >)
        ensures
            action == self@.run(energy, daily_rest, old(draws)@),
            final(draws)@ == self@.exec(CreatureStats { energy, daily_rest }, Map::empty(), old(draws)@).draws,
    {
        let cs = CreatureStats { energy, daily_rest };
        let mut vars = Bindings::new();
        self.statement.run(&cs, &mut vars, draws)
    }

    /// Runs the program for a creature with the given energy and time awake.
    /// Each place at which `rand` stands gets a fresh random number below
    /// [`RAND_LIMIT`](crate::random::RAND_LIMIT).
    ///
    /// The action is the one that the program yields for some such numbers.
    /// The run does not fail for want of a number.
    pub fn execute(&self, energy: i32, daily_rest: i32) -> (action: Result<Action, RuntimeError>)
        ensures
            self@.yields(energy, daily_rest, action),
            self@.rand_sites() <= usize::MAX ==> action != Err::<Action, RuntimeError>(RuntimeError::OutOfDraws),
    {
        let mut draws = Draws::roll(self.draw_count());
        let ghost rolled = draws@;
        proof {
            if self@.rand_sites() <= usize::MAX {
                lemma_enough_draws(self@, CreatureStats { energy, daily_rest }, Map::empty(), rolled);
            }
        }
        let action = self.execute_with(energy, daily_rest, &mut draws);
        assert(draws_in_range(rolled) && rolled.len() == capped(self@.rand_sites()) && self@.run(
            energy,
            daily_rest,
            rolled,
        ) == action);
        action
    }
}

impl StatementView {
    /// `outcome` is what the program yields for some random numbers, one for
    /// each place at which `rand` stands.
    pub open spec fn yields(self, energy: i32, daily_rest: i32, outcome: Result<Action, RuntimeError>) -> bool {
        exists|draws: Seq<i32>|
            draws_in_range(draws) && draws.len() == capped(self.rand_sites()) && #[trigger] self.run(
                energy,
                daily_rest,
                draws,
            ) == outcome
    }
}

/// An expression takes at most as many draws as it has places for `rand`,
/// and does not run out of draws when it is given that many.
pub proof fn lemma_enough_draws_expression(
    expression: ExpressionView,
    cs: CreatureStats,
    vars: Map<Seq<char>, i32>,
    draws: Seq<i32>,
)
    requires
        draws.len() >= expression.rand_sites(),
    ensures
        expression.eval(cs, vars, draws).value != Err::<i32, RuntimeError>(RuntimeError::OutOfDraws),
        expression.eval(cs, vars, draws).draws.len() + expression.rand_sites() >= draws.len(),
{
}

/// A statement takes at most as many draws as it has places for `rand`, and
/// does not run out of draws when it is given that many.
pub proof fn lemma_enough_draws(
    statement: StatementView,
    cs: CreatureStats,
    vars: Map<Seq<char>, i32>,
    draws: Seq<i32>,
)
    requires
        draws.len() >= statement.rand_sites(),
    ensures
        statement.exec(cs, vars, draws).action != Err::<Action, RuntimeError>(RuntimeError::OutOfDraws),
        statement.exec(cs, vars, draws).draws.len() + statement.rand_sites() >= draws.len(),
    decreases statement, 0nat,
{
    match statement {
        StatementView::Action(_) => {},
        StatementView::Assign { key, expression } => {
            lemma_enough_draws_expression(expression, cs, vars, draws);
        },
        StatementView::IfThen { condition, then_statement, else_statement } => {
            lemma_enough_draws_expression(ExpressionView::Condition(condition), cs, vars, draws);
            let evaluation = condition.eval(cs, vars, draws);
            if evaluation.value is Ok {
                if evaluation.value->Ok_0 == 1 {
                    lemma_enough_draws(*then_statement, cs, vars, evaluation.draws);
                } else if let Some(statement) = else_statement {
                    lemma_enough_draws(*statement, cs, vars, evaluation.draws);
                }
            }
        },
        StatementView::Block(statements) => {
            lemma_enough_draws_first(statements, statements.len(), cs, vars, draws);
        },
    }
}

/// The first `n` statements of a block take at most as many draws as they
/// have places for `rand`, and do not run out of draws when they are given
/// that many.
pub proof fn lemma_enough_draws_first(
    statements: Seq<StatementView>,
    n: nat,
    cs: CreatureStats,
    vars: Map<Seq<char>, i32>,
    draws: Seq<i32>,
)
    requires
        n <= statements.len(),
        draws.len() >= StatementView::rand_sites_first(statements, n),
    ensures
        StatementView::exec_first(statements, n, cs, vars, draws).action != Err::<Action, RuntimeError>(
            RuntimeError::OutOfDraws,
        ),
        StatementView::exec_first(statements, n, cs, vars, draws).draws.len() + StatementView::rand_sites_first(
            statements,
            n,
        ) >= draws.len(),
    decreases statements, n,
{
    if n > 0 {
        lemma_enough_draws_first(statements, (n - 1) as nat, cs, vars, draws);
        let before = StatementView::exec_first(statements, (n - 1) as nat, cs, vars, draws);
        if before.action is Ok {
            lemma_enough_draws(statements[n - 1], cs, before.vars, before.draws);
        }
    }
}


impl Constant {
    /// Writes the literal in decimal notation.
    pub fn to_string(&self) -> (text: String)
        ensures
            text@ == decimal_text(self@ as int),
    {
        decimal_string(self.value)
    }
}

impl Variable {
    /// The name of the variable.
    pub fn to_string(&self) -> (text: String)
        ensures
            text@ == self@,
    {
        self.key.clone()
    }
}

impl Identifier {
    /// Writes the identifier out.
    pub fn to_string(&self) -> (text: String)
        ensures
            text@ == self@.text(),
    {
        match self {
            Identifier::Special(special) => special.to_string(),
            Identifier::Variable(variable) => variable.to_string(),
            Identifier::Constant(constant) => constant.to_string(),
        }
    }
}

impl Arithmetic {
    /// Writes the expression out.
    pub fn to_string(&self) -> (text: String)
        ensures
            text@ == self@.text(),
    {
        "Action".to_owned()
    }
}

impl Condition {
    /// Writes the condition out.
    pub fn to_string(&self) -> (text: String)
        ensures
            text@ == self@.text(),
    {
        let mut text = "( ".to_owned();
        text.append(self.a.to_string().as_str());
        text.append(" ");
        text.append(self.op.to_string().as_str());
        text.append(" ");
        text.append(self.b.to_string().as_str());
        text.append(" )");
        text
    }
}

impl ExpressionKind {
    /// Writes the expression out.
    pub fn to_string(&self) -> (text: String)
        ensures
            text@ == self@.text(),
    {
        match self {
            ExpressionKind::Identifier(identifier) => identifier.to_string(),
            ExpressionKind::Arithmetic(arithmetic) => arithmetic.to_string(),
            ExpressionKind::Condition(condition) => condition.to_string(),
        }
    }
}

impl Assign {
    /// Writes the assignment out.
    pub fn to_string(&self) -> (text: String)
        ensures
            text@ == self@.text(),
    {
        let mut text = self.var.to_string();
        text.append(" = ");
        text.append(self.expression.to_string().as_str());
        text
    }
}

impl IfThen {
    /// Writes the conditional out.
    pub fn to_string(&self) -> (text: String)
        ensures
            text@ == self@.text(),
        decreases self,
    {
        let mut text = "if ".to_owned();
        text.append(self.condition.to_string().as_str());
        text.append(" then ");
        text.append(self.then_statement.to_string().as_str());
        text.append(" ");
        if let Some(else_statement) = &self.else_statement {
            text.append("else ");
            text.append(else_statement.to_string().as_str());
            text.append(" ");
        }
        text.append("end");
        proof {
            assert(text@ =~= self@.text());
        }
        text
    }
}

impl Block {
    /// Writes the block out.
    pub fn to_string(&self) -> (text: String)
        ensures
            text@ == self@.text(),
        decreases self,
    {
        let ghost views = self@->Block_0;
        let mut text = "Block ".to_owned();
        let mut i: usize = 0;
        while i < self.statements.len()
            invariant
                i <= self.statements.len(),
                views == self@->Block_0,
                views.len() == self.statements.len(),
                forall|j: int| 0 <= j < views.len() ==> views[j] == #[trigger] self.statements[j]@,
                text@ == "Block "@ + StatementView::text_first(views, i as nat),
            decreases self.statements.len() - i,
        {
            assert(views[i as int] == self.statements[i as int]@);
            let ghost before = text@;
            text.append(self.statements[i].to_string().as_str());
            text.append(" ");
            proof {
                assert(text@ =~= "Block "@ + StatementView::text_first(views, (i + 1) as nat));
            }
            i += 1;
        }
        text.append("End");
        text
    }
}

impl StatementKind {
    /// Writes the statement out.
    pub fn to_string(&self) -> (text: String)
        ensures
            text@ == self@.text(),
        decreases self,
    {
        match self {
            StatementKind::Block(block) => block.to_string(),
            StatementKind::IfThen(if_then) => if_then.to_string(),
            StatementKind::Assign(assign) => assign.to_string(),
            StatementKind::Action(action) => action.to_string(),
        }
    }
}

} // verus!
