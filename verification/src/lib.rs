pub mod consts;
pub mod fifo;
pub mod gameboy;
pub mod model;
pub mod ppu;
pub mod update;
pub mod draw;
pub mod scanline;
pub mod save_state;
pub mod laws;
pub mod display_laws;
pub mod jit;
pub mod ui;
pub mod listing;
