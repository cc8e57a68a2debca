use sim2::bindings::Bindings;
use sim2::compiler::get_program;
use sim2::program::{
    Action, Arithmetic, ArithmeticOp, Assign, Block, Condition, ConditionOp, Constant, CreatureStats, Direction,
    Expression, ExpressionKind, Identifier, IfThen, Program, RuntimeError, SpecialIdentifier, Statement,
    StatementKind, Variable,
};
use sim2::random::{Draws, RAND_LIMIT};

fn stats(energy: i32, daily_rest: i32) -> CreatureStats {
    CreatureStats { energy, daily_rest }
}

fn no_draws() -> Draws {
    Draws::new(vec![])
}

#[test]
fn constant_evaluates_to_itself() {
    let vars = Bindings::new();
    assert_eq!(Constant::new(42).execute(&stats(1, 2), &vars, &mut no_draws()), Ok(42));
    assert_eq!(Constant::new(-1).to_string(), "-1");
    assert_eq!(Identifier::new_constant(i32::MIN).execute(&stats(1, 2), &vars, &mut no_draws()), Ok(i32::MIN));
}

#[test]
fn special_identifiers_read_the_creature() {
    let vars = Bindings::new();
    let cs = stats(77, 13);
    assert_eq!(SpecialIdentifier::Energy.execute(&cs, &vars, &mut no_draws()), Ok(77));
    assert_eq!(SpecialIdentifier::DailyRest.execute(&cs, &vars, &mut no_draws()), Ok(13));
    assert_eq!(Identifier::new_specialized(SpecialIdentifier::Energy).execute(&cs, &vars, &mut no_draws()), Ok(77));
}

#[test]
fn rand_takes_the_next_draw() {
    let vars = Bindings::new();
    let cs = stats(0, 0);
    let mut draws = Draws::new(vec![5, 999, 0]);
    assert_eq!(draws.remaining(), 3);
    assert_eq!(SpecialIdentifier::Rand.execute(&cs, &vars, &mut draws), Ok(5));
    assert_eq!(SpecialIdentifier::Rand.execute(&cs, &vars, &mut draws), Ok(999));
    assert_eq!(draws.remaining(), 1);
    assert_eq!(SpecialIdentifier::Rand.execute(&cs, &vars, &mut draws), Ok(0));
    assert_eq!(SpecialIdentifier::Rand.execute(&cs, &vars, &mut draws), Err(RuntimeError::OutOfDraws));
    assert_eq!(draws.remaining(), 0);
}

#[test]
fn rand_is_not_memoized() {
    let program = get_program("sim if ( rand == rand ) then move N else move S end end").unwrap();
    assert_eq!(program.draw_count(), 2);
    assert_eq!(program.execute_with(0, 0, &mut Draws::new(vec![3, 3])), Ok(Action::Move(Direction::N)));
    assert_eq!(program.execute_with(0, 0, &mut Draws::new(vec![3, 4])), Ok(Action::Move(Direction::S)));
}

#[test]
fn operands_take_draws_from_left_to_right() {
    let vars = Bindings::new();
    let cs = stats(0, 0);
    let sub = Arithmetic::new(
        Identifier::new_specialized(SpecialIdentifier::Rand),
        Identifier::new_specialized(SpecialIdentifier::Rand),
        ArithmeticOp::Sub,
    );
    assert_eq!(sub.execute(&cs, &vars, &mut Draws::new(vec![10, 4])), Ok(6));
    let lt = Condition::new(
        Identifier::new_specialized(SpecialIdentifier::Rand),
        Identifier::new_specialized(SpecialIdentifier::Rand),
        ConditionOp::Lt,
    );
    assert_eq!(lt.execute(&cs, &vars, &mut Draws::new(vec![10, 4])), Ok(0));
    assert_eq!(lt.execute(&cs, &vars, &mut Draws::new(vec![4, 10])), Ok(1));
    let mut one = Draws::new(vec![4]);
    assert_eq!(lt.execute(&cs, &vars, &mut one), Err(RuntimeError::OutOfDraws));
    assert_eq!(one.remaining(), 0);
}

#[test]
fn variable_reads_its_binding() {
    let mut vars = Bindings::new();
    let cs = stats(0, 0);
    let x = Variable::new("x".to_string());
    assert_eq!(x.execute(&cs, &vars, &mut no_draws()), Err(RuntimeError::UnboundVariable));
    vars.insert("x".to_string(), 12);
    assert_eq!(x.execute(&cs, &vars, &mut no_draws()), Ok(12));
    assert_eq!(Identifier::new_variable("x".to_string()).execute(&cs, &vars, &mut no_draws()), Ok(12));
    assert_eq!(
        Identifier::new_variable("y".to_string()).execute(&cs, &vars, &mut no_draws()),
        Err(RuntimeError::UnboundVariable)
    );
    assert_eq!(x.to_string(), "x");
}

#[test]
fn bindings_keep_the_last_value() {
    let mut vars = Bindings::new();
    assert_eq!(vars.get("a"), None);
    vars.insert("a".to_string(), 1);
    vars.insert("b".to_string(), 2);
    assert_eq!(vars.get("a"), Some(1));
    assert_eq!(vars.get("b"), Some(2));
    vars.insert("a".to_string(), 3);
    assert_eq!(vars.get("a"), Some(3));
    assert_eq!(vars.get("b"), Some(2));
    assert_eq!(vars.get("ab"), None);
    assert_eq!(vars.get(""), None);
}

#[test]
fn conditions_are_one_or_zero() {
    let vars = Bindings::new();
    let cs = stats(30, 5);
    let cases = [
        (ConditionOp::Lt, 1, 2, 1),
        (ConditionOp::Lt, 2, 2, 0),
        (ConditionOp::Lt, 3, 2, 0),
        (ConditionOp::Gt, 1, 2, 0),
        (ConditionOp::Gt, 2, 2, 0),
        (ConditionOp::Gt, 3, 2, 1),
        (ConditionOp::Eq, 1, 2, 0),
        (ConditionOp::Eq, 2, 2, 1),
        (ConditionOp::Lt, i32::MIN, i32::MAX, 1),
        (ConditionOp::Gt, i32::MIN, i32::MAX, 0),
    ];
    for (op, a, b, expected) in cases {
        let condition = Condition::new(Identifier::new_constant(a), Identifier::new_constant(b), op);
        assert_eq!(condition.execute(&cs, &vars, &mut no_draws()), Ok(expected));
    }
    let condition = Condition::new(
        Identifier::new_specialized(SpecialIdentifier::Energy),
        Identifier::new_constant(25),
        ConditionOp::Gt,
    );
    assert_eq!(condition.execute(&cs, &vars, &mut no_draws()), Ok(1));
    assert_eq!(ExpressionKind::Condition(condition).execute(&cs, &vars, &mut no_draws()), Ok(1));
}

#[test]
fn condition_stops_at_unbound_variable() {
    let vars = Bindings::new();
    let condition = Condition::new(
        Identifier::new_variable("nope".to_string()),
        Identifier::new_specialized(SpecialIdentifier::Rand),
        ConditionOp::Lt,
    );
    let mut draws = Draws::new(vec![1]);
    assert_eq!(condition.execute(&stats(0, 0), &vars, &mut draws), Err(RuntimeError::UnboundVariable));
    assert_eq!(draws.remaining(), 1);
}

#[test]
fn action_statement_yields_itself() {
    let mut vars = Bindings::new();
    for action in [
        Action::Move(Direction::N),
        Action::Hunt(Direction::SW),
        Action::Breed(Direction::E),
        Action::Rest(-3),
        Action::Nothing,
    ] {
        assert_eq!(action.execute(&stats(1, 1), &mut vars, &mut no_draws()), Ok(action));
        assert_eq!(StatementKind::Action(action).execute(&stats(1, 1), &mut vars, &mut no_draws()), Ok(action));
    }
}

#[test]
fn action_texts() {
    assert_eq!(Action::Move(Direction::N).to_string(), "Move(N)");
    assert_eq!(Action::Hunt(Direction::SE).to_string(), "Hunt(SE)");
    assert_eq!(Action::Breed(Direction::W).to_string(), "Breed(W)");
    assert_eq!(Action::Rest(0).to_string(), "Rest(0)");
    assert_eq!(Action::Rest(120).to_string(), "Rest(120)");
    assert_eq!(Action::Rest(-45).to_string(), "Rest(-45)");
    assert_eq!(Action::Rest(i32::MIN).to_string(), "Rest(-2147483648)");
    assert_eq!(Action::Nothing.to_string(), "None");
    assert_eq!(ConditionOp::Eq.to_string(), "==");
    assert_eq!(ArithmeticOp::Add.to_string(), "Add");
    assert_eq!(ArithmeticOp::Sub.to_string(), "Sub");
    assert_eq!(SpecialIdentifier::DailyRest.to_string(), "DailyRest");
    assert_eq!(Direction::NW.to_string(), "NW");
}

#[test]
fn assign_binds_and_yields_nothing() {
    let mut vars = Bindings::new();
    let assign = Assign::new(
        Variable::new("x".to_string()),
        ExpressionKind::Arithmetic(Arithmetic::new(
            Identifier::new_specialized(SpecialIdentifier::Energy),
            Identifier::new_constant(5),
            ArithmeticOp::Add,
        )),
    );
    assert_eq!(assign.execute(&stats(10, 0), &mut vars, &mut no_draws()), Ok(Action::Nothing));
    assert_eq!(vars.get("x"), Some(15));
    assert_eq!(assign.to_string(), "x = Action");
}

#[test]
fn assign_that_fails_binds_nothing() {
    let mut vars = Bindings::new();
    let assign = Assign::new(
        Variable::new("x".to_string()),
        ExpressionKind::Identifier(Identifier::new_variable("y".to_string())),
    );
    assert_eq!(assign.execute(&stats(10, 0), &mut vars, &mut no_draws()), Err(RuntimeError::UnboundVariable));
    assert_eq!(vars.get("x"), None);
}

fn energy_above(limit: i32) -> Condition {
    Condition::new(
        Identifier::new_specialized(SpecialIdentifier::Energy),
        Identifier::new_constant(limit),
        ConditionOp::Gt,
    )
}

#[test]
fn if_then_picks_a_branch() {
    let mut vars = Bindings::new();
    let with_else = IfThen::new(
        energy_above(50),
        StatementKind::Action(Action::Hunt(Direction::N)),
        Some(StatementKind::Action(Action::Rest(3))),
    );
    assert_eq!(with_else.execute(&stats(51, 0), &mut vars, &mut no_draws()), Ok(Action::Hunt(Direction::N)));
    assert_eq!(with_else.execute(&stats(50, 0), &mut vars, &mut no_draws()), Ok(Action::Rest(3)));
    assert_eq!(with_else.to_string(), "if ( Energy > 50 ) then Hunt(N) else Rest(3) end");
    let without_else = IfThen::new(energy_above(50), StatementKind::Action(Action::Hunt(Direction::N)), None);
    assert_eq!(without_else.execute(&stats(51, 0), &mut vars, &mut no_draws()), Ok(Action::Hunt(Direction::N)));
    assert_eq!(without_else.execute(&stats(50, 0), &mut vars, &mut no_draws()), Ok(Action::Nothing));
    assert_eq!(without_else.to_string(), "if ( Energy > 50 ) then Hunt(N) end");
}

#[test]
fn block_yields_last_action() {
    let mut vars = Bindings::new();
    let block = Block::new(vec![
        StatementKind::Action(Action::Move(Direction::E)),
        StatementKind::Action(Action::Hunt(Direction::SW)),
    ]);
    assert_eq!(block.execute(&stats(0, 0), &mut vars, &mut no_draws()), Ok(Action::Hunt(Direction::SW)));
    let empty = Block::new(vec![]);
    assert_eq!(empty.execute(&stats(0, 0), &mut vars, &mut no_draws()), Ok(Action::Nothing));
    assert_eq!(empty.to_string(), "Block End");
    let ends_with_assign = Block::new(vec![
        StatementKind::Action(Action::Move(Direction::E)),
        StatementKind::Assign(Assign::new(
            Variable::new("x".to_string()),
            ExpressionKind::Identifier(Identifier::new_constant(1)),
        )),
    ]);
    assert_eq!(ends_with_assign.execute(&stats(0, 0), &mut vars, &mut no_draws()), Ok(Action::Nothing));
}

#[test]
fn block_passes_variables_on() {
    let program = get_program(
        "sim block x = add energy 1 y = sub x awakeDaily if ( y == 8 ) then breed NE else rest 2 end end end",
    )
    .unwrap();
    assert_eq!(program.execute_with(10, 3, &mut no_draws()), Ok(Action::Breed(Direction::NE)));
    assert_eq!(program.execute_with(10, 4, &mut no_draws()), Ok(Action::Rest(2)));
    assert_eq!(program.execute(10, 3), Ok(Action::Breed(Direction::NE)));
}

#[test]
fn block_stops_at_first_error() {
    let program = get_program("sim block x = y z = rand move N end end").unwrap();
    let mut draws = Draws::new(vec![1]);
    assert_eq!(program.execute_with(0, 0, &mut draws), Err(RuntimeError::UnboundVariable));
    assert_eq!(draws.remaining(), 1);
    assert_eq!(program.execute(0, 0), Err(RuntimeError::UnboundVariable));
}

#[test]
fn variables_do_not_outlive_a_run() {
    let program = get_program("sim block if ( energy > 0 ) then x = 1 end if ( x == 1 ) then move N end end end").unwrap();
    assert_eq!(program.execute_with(5, 0, &mut no_draws()), Ok(Action::Move(Direction::N)));
    assert_eq!(program.execute_with(0, 0, &mut no_draws()), Err(RuntimeError::UnboundVariable));
    assert_eq!(program.execute_with(5, 0, &mut no_draws()), Ok(Action::Move(Direction::N)));
}

#[test]
fn overflow_stops_a_program() {
    let program = get_program("sim block x = add energy 2147483647 move N end end").unwrap();
    assert_eq!(program.execute(1, 0), Err(RuntimeError::Overflow));
    assert_eq!(program.execute(0, 0), Ok(Action::Move(Direction::N)));
    assert_eq!(program.execute(-1, 0), Ok(Action::Move(Direction::N)));
}

#[test]
fn program_with_draws_is_a_function_of_them() {
    let program = get_program(
        "sim if ( rand < 500 ) then if ( rand < 10 ) then hunt N else hunt S end else rest 1 end end",
    )
    .unwrap();
    assert_eq!(program.draw_count(), 2);
    for _ in 0..3 {
        assert_eq!(program.execute_with(0, 0, &mut Draws::new(vec![499, 9])), Ok(Action::Hunt(Direction::N)));
        assert_eq!(program.execute_with(0, 0, &mut Draws::new(vec![499, 10])), Ok(Action::Hunt(Direction::S)));
        assert_eq!(program.execute_with(0, 0, &mut Draws::new(vec![500, 9])), Ok(Action::Rest(1)));
    }
    let mut draws = Draws::new(vec![500, 9]);
    let _ = program.execute_with(0, 0, &mut draws);
    assert_eq!(draws.remaining(), 1);
    assert_eq!(program.execute_with(0, 0, &mut Draws::new(vec![0])), Err(RuntimeError::OutOfDraws));
    assert_eq!(program.execute_with(0, 0, &mut Draws::new(vec![])), Err(RuntimeError::OutOfDraws));
}

#[test]
fn program_execute_draws_within_range() {
    let program = get_program("sim block x = rand if ( x < 0 ) then move N end if ( x > 999 ) then move S end end end")
        .unwrap();
    for _ in 0..2000 {
        assert_eq!(program.execute(0, 0), Ok(Action::Nothing));
    }
    let both = get_program("sim if ( rand < 500 ) then move N else move S end end").unwrap();
    let mut north = 0;
    let mut south = 0;
    for _ in 0..2000 {
        match both.execute(0, 0) {
            Ok(Action::Move(Direction::N)) => north += 1,
            Ok(Action::Move(Direction::S)) => south += 1,
            other => panic!("unexpected outcome {:?}", other),
        }
    }
    assert_eq!(north + south, 2000);
    assert!(north > 0);
    assert!(south > 0);
}

#[test]
fn draws_roll_is_in_range() {
    let mut draws = Draws::roll(5000);
    assert_eq!(draws.remaining(), 5000);
    let mut seen_other_than_first = false;
    let first = draws.next().unwrap();
    assert!(0 <= first && first < RAND_LIMIT);
    while let Some(n) = draws.next() {
        assert!(0 <= n && n < RAND_LIMIT);
        if n != first {
            seen_other_than_first = true;
        }
    }
    assert!(seen_other_than_first);
    assert_eq!(draws.next(), None);
    assert_eq!(Draws::roll(0).remaining(), 0);
}

#[test]
fn rand_count_counts_places() {
    assert_eq!(get_program("sim move E end").unwrap().draw_count(), 0);
    assert_eq!(get_program("sim x = rand end").unwrap().draw_count(), 1);
    assert_eq!(get_program("sim x = add rand rand end").unwrap().draw_count(), 2);
    assert_eq!(
        get_program("sim block x = rand if ( rand < x ) then y = sub 1 rand else rest 2 end end end")
            .unwrap()
            .draw_count(),
        3
    );
    let statement = StatementKind::IfThen(IfThen::new(
        Condition::new(
            Identifier::new_specialized(SpecialIdentifier::Rand),
            Identifier::new_constant(1),
            ConditionOp::Lt,
        ),
        StatementKind::Action(Action::Nothing),
        None,
    ));
    assert_eq!(statement.rand_count(), 1);
    assert_eq!(Program::new(statement).draw_count(), 1);
}

#[test]
fn program_new_runs_its_statement() {
    let program = Program::new(StatementKind::Action(Action::Rest(9)));
    assert_eq!(program.execute(0, 0), Ok(Action::Rest(9)));
}
