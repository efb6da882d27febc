use vstd::prelude::*;
use std::collections::HashMap;
use crate::alphabet::{Color, State};
use crate::context::{expanded, Ctx};
use crate::machine::{is_run, non_blank_count, runs, Transition, TuringMachine};

verus! {

broadcast use vstd::std_specs::hash::group_hash_axioms;

/// The two tape symbols of a binary machine; `Zero` is blank.
#[derive(Clone, Copy, Debug, PartialEq, Eq, Structural, Hash)]
pub enum Symbol {
    Zero,
    One,
}

/// Two working states and a halting one; `A` is initial.
#[derive(Clone, Copy, Debug, PartialEq, Eq, Structural, Hash)]
pub enum BeaverState {
    A,
    B,
    Halt,
}

#[derive(Clone, Copy, Debug, PartialEq, Eq, Structural)]
pub enum Direction {
    Left,
    Right,
}

/// What one table entry does: the symbol to write, the next state and the
/// way the head moves.
#[derive(Clone, Copy, Debug, PartialEq, Eq, Structural)]
pub struct TransitionFx {
    pub write: Symbol,
    pub new_state: BeaverState,
    pub direction: Direction,
}

impl Color for Symbol {
    open spec fn spec_blank() -> Self {
        Symbol::Zero
    }

    fn blank() -> (r: Self) {
        Symbol::Zero
    }

    fn same(&self, other: &Self) -> (r: bool) {
        *self == *other
    }
}

impl State for BeaverState {
    open spec fn spec_initial() -> Self {
        BeaverState::A
    }

    open spec fn spec_is_halt(&self) -> bool {
        *self == BeaverState::Halt
    }

    fn initial() -> (r: Self) {
        BeaverState::A
    }

    fn is_halt(&self) -> (r: bool) {
        *self == BeaverState::Halt
    }
}

/// The integer under which the table keeps the pair `(state, symbol)`.
pub open spec fn key_code(state: BeaverState, symbol: Symbol) -> u64 {
    let s: u64 = match state {
        BeaverState::A => 0,
        BeaverState::B => 1,
        BeaverState::Halt => 2,
    };
    let c: u64 = match symbol {
        Symbol::Zero => 0,
        Symbol::One => 1,
    };
    (2 * s + c) as u64
}

fn code(state: BeaverState, symbol: Symbol) -> (r: u64)
    ensures
        r == key_code(state, symbol),
{
    let s: u64 = match state {
        BeaverState::A => 0,
        BeaverState::B => 1,
        BeaverState::Halt => 2,
    };
    let c: u64 = match symbol {
        Symbol::Zero => 0,
        Symbol::One => 1,
    };
    2 * s + c
}

/// The transitions that `entries` give, keyed by `key_code`: where two
/// entries share a key, the later one replaces the earlier.
pub open spec fn entries_map(entries: Seq<((BeaverState, Symbol), TransitionFx)>) -> Map<
    u64,
    TransitionFx,
>
    decreases entries.len(),
{
    if entries.len() == 0 {
        Map::empty()
    } else {
        entries_map(entries.drop_last()).insert(
            key_code(entries.last().0.0, entries.last().0.1),
            entries.last().1,
        )
    }
}

/// The effect that `transitions` give to `(state, symbol)`, if any.
pub open spec fn lookup(transitions: Map<u64, TransitionFx>, state: BeaverState, symbol: Symbol) -> Option<
    TransitionFx,
> {
    if transitions.contains_key(key_code(state, symbol)) {
        Some(transitions[key_code(state, symbol)])
    } else {
        None
    }
}

/// The canonical two-state, two-symbol busy beaver.
pub open spec fn busy_beaver_entries() -> Seq<((BeaverState, Symbol), TransitionFx)> {
    seq![
        ((BeaverState::A, Symbol::Zero), TransitionFx { write: Symbol::One, new_state: BeaverState::B, direction: Direction::Right }),
        ((BeaverState::A, Symbol::One), TransitionFx { write: Symbol::One, new_state: BeaverState::B, direction: Direction::Left }),
        ((BeaverState::B, Symbol::Zero), TransitionFx { write: Symbol::One, new_state: BeaverState::A, direction: Direction::Left }),
        ((BeaverState::B, Symbol::One), TransitionFx { write: Symbol::Zero, new_state: BeaverState::Halt, direction: Direction::Left }),
    ]
}

/// A transition rule given as a table from (state, symbol) to an effect,
/// held in a hash map keyed by `key_code` of the pair.
pub struct TransitionFxTable {
    table: HashMap<u64, TransitionFx>,
}

impl TransitionFxTable {
    /// The transitions, keyed by `key_code`.
    pub closed spec fn transitions(&self) -> Map<u64, TransitionFx> {
        self.table@
    }

    /// A table of `entries`; where two share a key, the later one counts.
    pub fn from_entries(entries: Vec<((BeaverState, Symbol), TransitionFx)>) -> (r: Self)
        ensures
            r.transitions() == entries_map(entries@),
    {
        let mut table: HashMap<u64, TransitionFx> = HashMap::new();
        let mut i: usize = 0;
        while i < entries.len()
            invariant
                i <= entries@.len(),
                table@ == entries_map(entries@.take(i as int)),
            decreases entries@.len() - i,
        {
            let entry = entries[i];
            proof {
                assert(entries@.take(i + 1).drop_last() =~= entries@.take(i as int));
            }
            table.insert(code(entry.0.0, entry.0.1), entry.1);
            i = i + 1;
        }
        proof {
            assert(entries@.take(i as int) =~= entries@);
        }
        TransitionFxTable { table }
    }

    /// The effect for `(state, symbol)`, if the table has one.
    pub fn get(&self, state: BeaverState, symbol: Symbol) -> (r: Option<&TransitionFx>)
        ensures
            match r {
                Some(fx) => lookup(self.transitions(), state, symbol) == Some(*fx),
                None => lookup(self.transitions(), state, symbol) is None,
            },
    {
        let key = code(state, symbol);
        self.table.get(&key)
    }
}

/// The entries of the canonical two-state, two-symbol busy beaver.
pub fn transition_functions() -> (r: Vec<((BeaverState, Symbol), TransitionFx)>)
    ensures
        r@ == busy_beaver_entries(),
{
    let r = vec![
        ((BeaverState::A, Symbol::Zero), TransitionFx { write: Symbol::One, new_state: BeaverState::B, direction: Direction::Right }),
        ((BeaverState::A, Symbol::One), TransitionFx { write: Symbol::One, new_state: BeaverState::B, direction: Direction::Left }),
        ((BeaverState::B, Symbol::Zero), TransitionFx { write: Symbol::One, new_state: BeaverState::A, direction: Direction::Left }),
        ((BeaverState::B, Symbol::One), TransitionFx { write: Symbol::Zero, new_state: BeaverState::Halt, direction: Direction::Left }),
    ];
    proof {
        assert(r@ =~= busy_beaver_entries());
    }
    r
}

/// Moves the head one cell to the left of the cell it is on. On the first
/// cell the tape first grows at the front, and the head follows the cell it
/// left rather than staying pinned at index 0.
fn step_left<S: State, C: Color>(ctx: &mut Ctx<S, C>)
    requires
        0 < old(ctx).head <= isize::MAX || old(ctx).tape@.len() + 2 <= usize::MAX,
    ensures
        old(ctx).head > 0 ==> final(ctx).tape@ == old(ctx).tape@ && final(ctx).head
            == old(ctx).head - 1,
        old(ctx).head == 0 ==> final(ctx).tape@ == seq![C::spec_blank(), C::spec_blank()]
            + old(ctx).tape@ && final(ctx).head == 1,
        final(ctx).state == old(ctx).state,
{
    if ctx.head == 0 {
        ctx.expand_tape_till_offset(-1);
        proof {
            assert(ctx.tape@ =~= seq![C::spec_blank(), C::spec_blank()] + old(ctx).tape@);
        }
        ctx.head = 1;
    } else {
        ctx.head = ctx.head - 1;
    }
}

/// The tape, head and state after one step of `transitions` from `tape`, `head`
/// and `state`: the cell under the head is read (the tape growing to cover
/// it), and the table's entry for the pair writes it, moves the head one cell
/// and sets the state. Without an entry only the growth remains.
pub open spec fn table_step(
    transitions: Map<u64, TransitionFx>,
    tape: Seq<Symbol>,
    head: int,
    state: BeaverState,
) -> (Seq<Symbol>, int, BeaverState) {
    let t = expanded(tape, head);
    match lookup(transitions, state, t[head]) {
        None => (t, head, state),
        Some(fx) => {
            let w = t.update(head, fx.write);
            match fx.direction {
                Direction::Right => (expanded(w, head + 1), head + 1, fx.new_state),
                Direction::Left => if head > 0 {
                    (w, head - 1, fx.new_state)
                } else {
                    (seq![Symbol::Zero, Symbol::Zero] + w, 1, fx.new_state)
                },
            }
        },
    }
}

impl TransitionFxTable {
    /// One step of the table on `ctx`. Returns whether the table has an
    /// entry for the state and the symbol under the head; without one only
    /// the tape's growth to cover the head remains. Afterwards the head is on
    /// the tape, and the tape has not shrunk.
    pub fn step_on(&self, ctx: &mut Ctx<BeaverState, Symbol>) -> (handled: bool)
        requires
            old(ctx).head < isize::MAX - 2,
            old(ctx).tape@.len() < isize::MAX - 2,
        ensures
            (final(ctx).tape@, final(ctx).head as int, final(ctx).state) == table_step(
                self.transitions(),
                old(ctx).tape@,
                old(ctx).head as int,
                old(ctx).state,
            ),
            handled == lookup(
                self.transitions(),
                old(ctx).state,
                expanded(old(ctx).tape@, old(ctx).head as int)[old(ctx).head as int],
            ) is Some,
            final(ctx).head < final(ctx).tape@.len(),
            final(ctx).tape@.len() >= old(ctx).tape@.len(),
    {
        let symbol = *ctx.read_at(ctx.head);
        match self.get(ctx.state, symbol) {
            None => false,
            Some(fx) => {
                let fx = *fx;
                ctx.write(fx.write);
                match fx.direction {
                    Direction::Right => ctx.move_head(1),
                    Direction::Left => step_left(ctx),
                }
                ctx.state = fx.new_state;
                true
            },
        }
    }
}

/// Whether the table rule may run on `ctx`: head and tape stay below the
/// largest length that an index can address.
pub open spec fn within_bounds(ctx: Ctx<BeaverState, Symbol>) -> bool {
    ctx.head < isize::MAX - 2 && ctx.tape@.len() < isize::MAX - 2
}

impl Transition<BeaverState, Symbol> for TransitionFxTable {
    /// The table is not changed. Within bounds, the context becomes
    /// `table_step` of it, with the head on the tape and no cell lost, and
    /// the step is handled exactly when the table has an entry for the state
    /// and the symbol under the head; outside
    /// them nothing changes and the step is not handled.
    open spec fn effect(
        &self,
        before: Ctx<BeaverState, Symbol>,
        rule_after: Self,
        after: Ctx<BeaverState, Symbol>,
        handled: bool,
    ) -> bool {
        &&& rule_after == *self
        &&& if within_bounds(before) {
            &&& (after.tape@, after.head as int, after.state) == table_step(
                self.transitions(),
                before.tape@,
                before.head as int,
                before.state,
            )
            &&& handled == lookup(
                self.transitions(),
                before.state,
                expanded(before.tape@, before.head as int)[before.head as int],
            ) is Some
            &&& after.head < after.tape@.len()
            &&& after.tape@.len() >= before.tape@.len()
        } else {
            after == before && !handled
        }
    }

    /// One step of the table; see `step_on`.
    fn apply(&mut self, ctx: &mut Ctx<BeaverState, Symbol>) -> (handled: bool) {
        if ctx.head < (isize::MAX as usize) - 2 && ctx.tape.len() < (isize::MAX as usize) - 2 {
            self.step_on(ctx)
        } else {
            false
        }
    }
}

/// The tape, head and state of the canonical busy beaver after `i` steps
/// from an empty tape, for `i` up to six, where it halts.
pub open spec fn busy_beaver_config(i: nat) -> (Seq<Symbol>, int, BeaverState) {
    if i == 0 {
        (seq![], 0, BeaverState::A)
    } else if i == 1 {
        (seq![Symbol::One, Symbol::Zero], 1, BeaverState::B)
    } else if i == 2 {
        (seq![Symbol::One, Symbol::One], 0, BeaverState::A)
    } else if i == 3 {
        (seq![Symbol::Zero, Symbol::Zero, Symbol::One, Symbol::One], 1, BeaverState::B)
    } else if i == 4 {
        (seq![Symbol::Zero, Symbol::One, Symbol::One, Symbol::One], 0, BeaverState::A)
    } else if i == 5 {
        (seq![Symbol::One, Symbol::One, Symbol::One, Symbol::One], 1, BeaverState::B)
    } else {
        (seq![Symbol::One, Symbol::Zero, Symbol::One, Symbol::One], 0, BeaverState::Halt)
    }
}

/// Each of the first six configurations has an entry in the table, and one
/// table step leads to the next.
#[verifier::rlimit(40)]
proof fn lemma_busy_beaver_step(i: nat)
    requires
        i < 6,
    ensures
        ({
            let (tape, head, state) = busy_beaver_config(i);
            &&& lookup(entries_map(busy_beaver_entries()), state, expanded(tape, head)[head]) is Some
            &&& table_step(entries_map(busy_beaver_entries()), tape, head, state) == busy_beaver_config(
                i + 1,
            )
        }),
{
    reveal_with_fuel(entries_map, 5);
    let (tape, head, state) = busy_beaver_config(i);
    let (t2, h2, s2) = busy_beaver_config(i + 1);
    let (t1, h1, s1) = table_step(entries_map(busy_beaver_entries()), tape, head, state);
    assert(expanded(tape, head) =~= if i == 0 {
        seq![Symbol::Zero]
    } else {
        tape
    });
    assert(t1 =~= t2);
}

/// Along a run of the busy-beaver table from an empty tape, the entry after
/// `i` steps holds the table and `busy_beaver_config(i)`.
proof fn lemma_busy_beaver_trace(trace: Seq<(TransitionFxTable, Ctx<BeaverState, Symbol>)>, i: nat)
    requires
        is_run(trace),
        i < trace.len(),
        i <= 6,
        trace[0].0.transitions() == entries_map(busy_beaver_entries()),
        (trace[0].1.tape@, trace[0].1.head as int, trace[0].1.state) == busy_beaver_config(0),
    ensures
        trace[i as int].0 == trace[0].0,
        (trace[i as int].1.tape@, trace[i as int].1.head as int, trace[i as int].1.state)
            == busy_beaver_config(i),
    decreases i,
{
    if i > 0 {
        let j = (i - 1) as nat;
        lemma_busy_beaver_trace(trace, j);
        lemma_busy_beaver_step(j);
        assert(!trace[j as int].1.state.spec_is_halt() && trace[j as int].0.effect(
            trace[j as int].1,
            trace[i as int].0,
            trace[i as int].1,
            true,
        ));
        assert(within_bounds(trace[j as int].1));
    }
}

/// Any run of the busy-beaver table from an empty tape in the initial state
/// has at most six steps, and after `k` of them the table is unchanged and
/// the tape, head and state are `busy_beaver_config(k)`.
pub proof fn lemma_busy_beaver_runs(
    table: TransitionFxTable,
    ctx0: Ctx<BeaverState, Symbol>,
    table1: TransitionFxTable,
    ctx1: Ctx<BeaverState, Symbol>,
    k: nat,
)
    requires
        table.transitions() == entries_map(busy_beaver_entries()),
        ctx0.tape@ == Seq::<Symbol>::empty(),
        ctx0.head == 0,
        ctx0.state == BeaverState::A,
        runs(table, ctx0, table1, ctx1, k),
    ensures
        k <= 6,
        table1 == table,
        (ctx1.tape@, ctx1.head as int, ctx1.state) == busy_beaver_config(k),
{
    let trace = choose|trace: Seq<(TransitionFxTable, Ctx<BeaverState, Symbol>)>|
        #[trigger] is_run(trace) && trace.len() == k + 1 && trace[0] == (table, ctx0)
            && trace.last() == (table1, ctx1);
    assert(ctx0.tape@ =~= seq![]);
    if k > 6 {
        lemma_busy_beaver_trace(trace, 6);
        assert(!trace[6].1.state.spec_is_halt());
    }
    lemma_busy_beaver_trace(trace, k);
}

/// The canonical busy beaver, run on an empty tape, halts: `run` reports no
/// coverage gap, takes six steps, ends in `Halt` and leaves the tape
/// `1 0 1 1`, three cells holding one. The requirements are what `new` and
/// `run` ensure of a fresh machine `m0` on an empty tape with the table of
/// `transition_functions`, and of the machine `m1` and result `r` of `run`.
#[verifier::rlimit(40)]
pub proof fn lemma_busy_beaver_halts_after_six_steps(
    m0: TuringMachine<BeaverState, Symbol, TransitionFxTable>,
    m1: TuringMachine<BeaverState, Symbol, TransitionFxTable>,
    r: bool,
)
    requires
        m0.step_count() == 0,
        m0.head_index() == 0,
        m0.control() == BeaverState::A,
        m0.cells() == Seq::<Symbol>::empty(),
        m0.rule().transitions() == entries_map(busy_beaver_entries()),
        r ==> runs(
            m0.rule(),
            m0.context(),
            m1.rule(),
            m1.context(),
            (m1.step_count() - m0.step_count()) as nat,
        ),
        r ==> m1.control().spec_is_halt() || m1.step_count() == usize::MAX,
        !r ==> m1.step_count() > m0.step_count() && exists|
            rm: TransitionFxTable,
            cm: Ctx<BeaverState, Symbol>,
        |
            #[trigger] runs(
                m0.rule(),
                m0.context(),
                rm,
                cm,
                (m1.step_count() - m0.step_count() - 1) as nat,
            ) && !cm.state.spec_is_halt() && rm.effect(cm, m1.rule(), m1.context(), false),
    ensures
        r,
        m1.step_count() == 6,
        m1.control() == BeaverState::Halt,
        m1.cells() == seq![Symbol::One, Symbol::Zero, Symbol::One, Symbol::One],
        non_blank_count(m1.cells()) == 3,
{
    if r {
        lemma_busy_beaver_runs(m0.rule(), m0.context(), m1.rule(), m1.context(), m1.step_count());
    } else {
        let k = (m1.step_count() - 1) as nat;
        let (rm, cm) = choose|rm: TransitionFxTable, cm: Ctx<BeaverState, Symbol>|
            #[trigger] runs(m0.rule(), m0.context(), rm, cm, k) && !cm.state.spec_is_halt()
                && rm.effect(cm, m1.rule(), m1.context(), false);
        lemma_busy_beaver_runs(m0.rule(), m0.context(), rm, cm, k);
        lemma_busy_beaver_step(k);
        assert(within_bounds(cm));
    }
    lemma_final_tape_count();
}

/// The tape the busy beaver leaves holds three non-blank cells.
proof fn lemma_final_tape_count()
    ensures
        non_blank_count(seq![Symbol::One, Symbol::Zero, Symbol::One, Symbol::One]) == 3,
{
    let t = seq![Symbol::One, Symbol::Zero, Symbol::One, Symbol::One];
    reveal_with_fuel(non_blank_count, 5);
    assert(t.drop_last() =~= seq![Symbol::One, Symbol::Zero, Symbol::One]);
    assert(t.drop_last().drop_last() =~= seq![Symbol::One, Symbol::Zero]);
    assert(t.drop_last().drop_last().drop_last() =~= seq![Symbol::One]);
    assert(t.drop_last().drop_last().drop_last().drop_last() =~= seq![]);
}

} // verus!
