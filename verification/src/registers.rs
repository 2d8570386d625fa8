use vstd::prelude::*;

use crate::buffer::filled;

verus! {

/// The register file of the machine: the address register `I` (held as 16
/// bits, only the low 12 are address-significant), the 16 general-purpose
/// 8-bit registers `V0..VF` (`VF` doubles as the carry/borrow/collision
/// flag), the 8 flag-storage registers `R0..R7`, and the two timers.
///
/// `dt` and `st` are deadline-style timers: each holds the absolute
/// wall-clock instant (in nanoseconds) at which the timer expires, not a
/// decrementing counter. A timer is active while `now < deadline`, and its
/// visible countdown value is derived on read (see `crate::clock`).
pub struct Registers {
    /// The address register.
    pub i: u16,
    /// The 16 general-purpose registers `V0..VF`.
    pub v: Vec<u8>,
    /// The 8 flag-storage registers `R0..R7`.
    pub r: Vec<u8>,
    /// The delay timer, as an absolute expiry instant in nanoseconds.
    pub dt: u64,
    /// The sound timer, as an absolute expiry instant in nanoseconds.
    pub st: u64,
}

impl Registers {
    /// The register file always holds exactly 16 general registers and
    /// 8 flag registers.
    pub open spec fn wf(&self) -> bool {
        &&& self.v@.len() == 16
        &&& self.r@.len() == 8
    }

    /// Every register and both timers are zero.
    pub open spec fn all_zero(&self) -> bool {
        &&& self.i == 0
        &&& self.dt == 0
        &&& self.st == 0
        &&& self.v@ =~= Seq::new(16, |k: int| 0u8)
        &&& self.r@ =~= Seq::new(8, |k: int| 0u8)
    }

    /// A fresh register file, with every register and timer zero.
    pub fn new() -> (r: Registers)
        ensures
            r.wf(),
            r.all_zero(),
    {
        Registers { i: 0, v: filled(16, 0u8), r: filled(8, 0u8), dt: 0, st: 0 }
    }
}

} // verus!
