use vstd::prelude::*;
use std::collections::VecDeque;
use crate::alphabet::{Color, State};

verus! {

/// `n` blank cells.
pub open spec fn blanks<C: Color>(n: nat) -> Seq<C> {
    Seq::new(n, |_i: int| C::spec_blank())
}

/// The tape after growing it so that `offset` is an index of it.
pub open spec fn expanded<C: Color>(tape: Seq<C>, offset: int) -> Seq<C> {
    if offset < 0 {
        blanks::<C>((-offset + 1) as nat) + tape
    } else if offset >= tape.len() {
        tape + blanks::<C>((offset - tape.len() + 1) as nat)
    } else {
        tape
    }
}

/// How many cells `expanded` adds.
pub open spec fn growth(len: int, offset: int) -> int {
    if offset < 0 {
        -offset + 1
    } else if offset >= len {
        offset - len + 1
    } else {
        0
    }
}

/// The head after moving to `candidate`: clamped at the first cell.
pub open spec fn clamped(candidate: int) -> int {
    if candidate > 0 { candidate } else { 0 }
}

/// Reading any index of a tape that starts empty gives the blank symbol,
/// and leaves at least `i + 1` cells.
pub proof fn lemma_empty_tape_reads_blank<C: Color>(i: nat)
    ensures
        expanded(Seq::<C>::empty(), i as int).len() >= i + 1,
        expanded(Seq::<C>::empty(), i as int)[i as int] == C::spec_blank(),
{
}

/// Moving the head left from the first cell by any amount leaves it on the
/// first cell, and the tape grows at the front by that amount plus one blank
/// cells.
pub proof fn lemma_left_move_from_first_cell<C: Color>(tape: Seq<C>, delta: int)
    requires
        delta < 0,
    ensures
        clamped(0 + delta) == 0,
        expanded(tape, 0 + delta) == blanks::<C>((-delta + 1) as nat) + tape,
{
}

/// The machine's head, control state and tape, as the transition rule sees
/// them for one step.
pub struct Ctx<S, C> {
    pub head: usize,
    pub state: S,
    pub tape: VecDeque<C>,
}

impl<S: State, C: Color> Ctx<S, C> {
    /// Grows the tape with blank cells until `offset` is an index of it,
    /// and returns the number of cells added. A negative offset prepends
    /// `-offset + 1` cells; an offset at or past the end appends up to it.
    pub fn expand_tape_till_offset(&mut self, offset: isize) -> (r: usize)
        requires
            offset > isize::MIN,
            old(self).tape@.len() + growth(old(self).tape@.len() as int, offset as int)
                <= usize::MAX,
        ensures
            r == growth(old(self).tape@.len() as int, offset as int),
            final(self).tape@ == expanded(old(self).tape@, offset as int),
            final(self).head == old(self).head,
            final(self).state == old(self).state,
    {
        let len = self.tape.len();
        if offset < 0 {
            let expand_by: usize = (-offset) as usize + 1;
            let mut i: usize = 0;
            while i < expand_by
                invariant
                    i <= expand_by,
                    expand_by == -offset + 1,
                    len == old(self).tape@.len(),
                    len + expand_by <= usize::MAX,
                    self.tape@ == blanks::<C>(i as nat) + old(self).tape@,
                    self.head == old(self).head,
                    self.state == old(self).state,
                decreases expand_by - i,
            {
                self.tape.push_front(C::blank());
                proof {
                    assert(self.tape@ =~= blanks::<C>((i + 1) as nat) + old(self).tape@);
                }
                i = i + 1;
            }
            return expand_by;
        }
        if offset as usize >= len {
            let expand_by: usize = (offset as usize - len) + 1;
            let mut i: usize = 0;
            while i < expand_by
                invariant
                    i <= expand_by,
                    expand_by == offset - len + 1,
                    len == old(self).tape@.len(),
                    len + expand_by <= usize::MAX,
                    self.tape@ == old(self).tape@ + blanks::<C>(i as nat),
                    self.head == old(self).head,
                    self.state == old(self).state,
                decreases expand_by - i,
            {
                self.tape.push_back(C::blank());
                proof {
                    assert(self.tape@ =~= old(self).tape@ + blanks::<C>((i + 1) as nat));
                }
                i = i + 1;
            }
            return expand_by;
        }
        proof {
            assert(expanded(old(self).tape@, offset as int) == old(self).tape@);
        }
        0
    }
    /// Returns the symbol at `index`, first growing the tape with blank cells
    /// so that `index` is an index of it.
    pub fn read_at(&mut self, index: usize) -> (r: &C)
        requires
            index <= isize::MAX,
            old(self).tape@.len() + growth(old(self).tape@.len() as int, index as int)
                <= usize::MAX,
        ensures
            final(self).tape@ == expanded(old(self).tape@, index as int),
            index < final(self).tape@.len(),
            *r == final(self).tape@[index as int],
            index < old(self).tape@.len() ==> *r == old(self).tape@[index as int],
            index >= old(self).tape@.len() ==> *r == C::spec_blank(),
            final(self).head == old(self).head,
            final(self).state == old(self).state,
    {
        self.expand_tape_till_offset(index as isize);
        &self.tape[index]
    }

    /// Moves the head by `offset`. The tape first grows so that the target
    /// `head + offset` is covered; a target that is not positive puts the
    /// head on the first cell.
    pub fn move_head(&mut self, offset: isize)
        requires
            old(self).head <= isize::MAX,
            isize::MIN < old(self).head + offset <= isize::MAX,
            old(self).tape@.len() + growth(
                old(self).tape@.len() as int,
                old(self).head + offset,
            ) <= usize::MAX,
        ensures
            final(self).tape@ == expanded(old(self).tape@, old(self).head + offset),
            final(self).head == clamped(old(self).head + offset),
            final(self).state == old(self).state,
    {
        let new_position: isize = (self.head as isize) + offset;
        self.expand_tape_till_offset(new_position);
        if new_position > 0 {
            self.head = new_position as usize;
        } else {
            self.head = 0;
        }
    }

    /// Writes `symbol` into the cell under the head.
    pub fn write(&mut self, symbol: C)
        requires
            old(self).head < old(self).tape@.len(),
        ensures
            final(self).tape@ == old(self).tape@.update(old(self).head as int, symbol),
            final(self).head == old(self).head,
            final(self).state == old(self).state,
    {
        let h = self.head;
        self.tape.remove(h);
        self.tape.insert(h, symbol);
        proof {
            assert(self.tape@ =~= old(self).tape@.update(h as int, symbol));
        }
    }
}

} // verus!
