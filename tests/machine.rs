use bb_machine::beaver::{transition_functions, BeaverState, Direction, Symbol, TransitionFx, TransitionFxTable};
use bb_machine::{Ctx, State, Transition, TuringMachine};

/// A rule that never halts: it flips the cell under the head and moves right.
struct Wander;

impl Transition<BeaverState, Symbol> for Wander {
    fn apply(&mut self, ctx: &mut Ctx<BeaverState, Symbol>) -> bool {
        let head = ctx.head;
        let symbol = *ctx.read_at(head);
        ctx.write(if symbol == Symbol::Zero { Symbol::One } else { Symbol::Zero });
        ctx.move_head(1);
        ctx.state = BeaverState::B;
        true
    }
}

/// A rule that does nothing at all.
struct Idle;

impl Transition<BeaverState, Symbol> for Idle {
    fn apply(&mut self, _ctx: &mut Ctx<BeaverState, Symbol>) -> bool {
        true
    }
}

fn busy_beaver() -> TuringMachine<BeaverState, Symbol, TransitionFxTable> {
    TuringMachine::new(Vec::new(), TransitionFxTable::from_entries(transition_functions()))
}

#[test]
fn new_machine_starts_fresh() {
    let m = TuringMachine::new(vec![Symbol::One, Symbol::Zero], Idle);
    assert_eq!(m.steps(), 0);
    assert_eq!(*m.state(), BeaverState::A);
    let cells: Vec<Symbol> = m.tape().iter().copied().collect();
    assert_eq!(cells, vec![Symbol::One, Symbol::Zero]);
}

#[test]
fn steps_count_one_per_step_whatever_the_rule() {
    let mut idle = TuringMachine::new(Vec::new(), Idle);
    let mut wander = TuringMachine::new(Vec::new(), Wander);
    for n in 1..=5usize {
        assert!(idle.step());
        assert!(wander.step());
        assert_eq!(idle.steps(), n);
        assert_eq!(wander.steps(), n);
    }
    assert_eq!(idle.tape().len(), 0);
}

#[test]
fn busy_beaver_halts_after_six_steps() {
    let mut m = busy_beaver();
    assert!(m.run());
    assert_eq!(m.steps(), 6);
    assert_eq!(*m.state(), BeaverState::Halt);
    assert_eq!(m.count_non_zeros(), 3);
    let cells: Vec<Symbol> = m.tape().iter().copied().collect();
    assert_eq!(cells, vec![Symbol::One, Symbol::Zero, Symbol::One, Symbol::One]);
}

#[test]
fn run_on_halted_machine_does_nothing() {
    let mut m = busy_beaver();
    assert!(m.run());
    assert!(m.run());
    assert_eq!(m.steps(), 6);
}

#[test]
fn step_on_halted_state_only_counts() {
    let mut m = busy_beaver();
    assert!(m.run());
    assert!(!m.step());
    assert_eq!(m.steps(), 7);
    assert_eq!(*m.state(), BeaverState::Halt);
    assert_eq!(m.count_non_zeros(), 3);
}

#[test]
fn rule_that_never_halts_keeps_running() {
    let mut m = TuringMachine::new(Vec::new(), Wander);
    let bound: usize = 1000;
    while !m.state().is_halt() && m.steps() < bound {
        assert!(m.step());
        assert!(!m.state().is_halt());
    }
    assert_eq!(m.steps(), bound);
    assert_eq!(*m.state(), BeaverState::B);
    assert_eq!(m.count_non_zeros(), bound);
}

#[test]
fn count_non_zeros_counts_ones() {
    let m = TuringMachine::new(vec![Symbol::One, Symbol::Zero, Symbol::One, Symbol::One], Idle);
    assert_eq!(m.count_non_zeros(), 3);
    let empty = TuringMachine::new(Vec::new(), Idle);
    assert_eq!(empty.count_non_zeros(), 0);
}

#[test]
fn table_get_finds_entries() {
    let t = TransitionFxTable::from_entries(transition_functions());
    let fx = t.get(BeaverState::B, Symbol::One).unwrap();
    assert_eq!(fx.write, Symbol::Zero);
    assert_eq!(fx.new_state, BeaverState::Halt);
    assert_eq!(fx.direction, Direction::Left);
    let fx = t.get(BeaverState::A, Symbol::Zero).unwrap();
    assert_eq!(fx.direction, Direction::Right);
    assert!(t.get(BeaverState::Halt, Symbol::Zero).is_none());
}

#[test]
fn table_later_entry_wins() {
    let first = TransitionFx { write: Symbol::One, new_state: BeaverState::B, direction: Direction::Left };
    let second = TransitionFx { write: Symbol::Zero, new_state: BeaverState::Halt, direction: Direction::Right };
    let t = TransitionFxTable::from_entries(vec![
        ((BeaverState::A, Symbol::Zero), first),
        ((BeaverState::A, Symbol::Zero), second),
    ]);
    assert_eq!(*t.get(BeaverState::A, Symbol::Zero).unwrap(), second);
}

#[test]
fn table_rule_moves_left_off_the_first_cell() {
    let fx = TransitionFx { write: Symbol::One, new_state: BeaverState::Halt, direction: Direction::Left };
    let mut t = TransitionFxTable::from_entries(vec![((BeaverState::A, Symbol::Zero), fx)]);
    let mut ctx = Ctx { head: 0, state: BeaverState::A, tape: std::collections::VecDeque::from(vec![Symbol::Zero]) };
    assert!(t.apply(&mut ctx));
    let cells: Vec<Symbol> = ctx.tape.iter().copied().collect();
    assert_eq!(cells, vec![Symbol::Zero, Symbol::Zero, Symbol::One]);
    assert_eq!(ctx.head, 1);
    assert_eq!(ctx.state, BeaverState::Halt);
}

#[test]
fn run_stops_on_missing_transition() {
    let fx = TransitionFx { write: Symbol::One, new_state: BeaverState::B, direction: Direction::Right };
    let t = TransitionFxTable::from_entries(vec![((BeaverState::A, Symbol::Zero), fx)]);
    let mut m = TuringMachine::new(Vec::new(), t);
    assert!(!m.run());
    assert_eq!(m.steps(), 2);
    assert_eq!(*m.state(), BeaverState::B);
    let cells: Vec<Symbol> = m.tape().iter().copied().collect();
    assert_eq!(cells, vec![Symbol::One, Symbol::Zero]);
}

#[test]
fn table_step_keeps_head_on_tape() {
    let t = TransitionFxTable::from_entries(transition_functions());
    let mut ctx = Ctx { head: 5, state: BeaverState::B, tape: std::collections::VecDeque::new() };
    assert!(t.step_on(&mut ctx));
    assert_eq!(ctx.head, 4);
    assert_eq!(ctx.tape.len(), 6);
    assert_eq!(ctx.tape[5], Symbol::One);
    assert_eq!(ctx.state, BeaverState::A);
}
