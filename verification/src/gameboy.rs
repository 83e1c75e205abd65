//! The part of the Game Boy that the pixel-processing unit works with: its own
//! state, the 64 KiB address space and the clock.
use crate::ppu::Ppu;
use vstd::prelude::*;

verus! {

pub struct GameBoy {
    pub ppu: Ppu,
    /// The address space, read by the unit for tiles and sprite attributes and
    /// written for interrupt requests.
    pub memory: [u8; 65536],
    /// The number of clock cycles run so far.
    pub clock_count: u64,
}

impl GameBoy {
    /// A machine at power-on: all memory zero and the clock at 0.
    pub fn new() -> (gb: Self)
        ensures
            gb.ppu@ == crate::ppu::power_on_model(),
            gb.memory@ == Seq::new(65536, |i: int| 0u8),
            gb.clock_count == 0,
    {
        let gb = GameBoy { ppu: Ppu::default(), memory: [0u8; 65536], clock_count: 0 };
        assert(gb.memory@ =~= Seq::new(65536, |i: int| 0u8));
        gb
    }
}

} // verus!
