use vstd::prelude::*;

verus! {

/// A tape-symbol alphabet with a designated blank symbol.
pub trait Color: Sized {
    /// The blank symbol that fills every cell not yet written.
    spec fn spec_blank() -> Self;

    fn blank() -> (r: Self)
        ensures
            r == Self::spec_blank(),
    ;

    /// Symbol equality.
    fn same(&self, other: &Self) -> (r: bool)
        ensures
            r == (*self == *other),
    ;
}

/// A control-state alphabet with an initial state and halting states.
pub trait State: Sized {
    /// The state a machine starts in.
    spec fn spec_initial() -> Self;

    /// Whether this state stops the machine.
    spec fn spec_is_halt(&self) -> bool;

    fn initial() -> (r: Self)
        ensures
            r == Self::spec_initial(),
    ;

    fn is_halt(&self) -> (r: bool)
        ensures
            r == self.spec_is_halt(),
    ;
}

} // verus!
