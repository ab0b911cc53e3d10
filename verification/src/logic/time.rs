use vstd::prelude::*;

verus! {

/// The clock of a level, counted in sub-ticks.
#[derive(PartialEq, Eq, Structural, Clone, Copy, Debug)]
pub struct LogicTime {
    pub sub_tick: i32,
}

} // verus!
