//! What one clock cycle of the pixel-processing unit does, stated over `PpuModel`
//! and the 64 KiB address space.
//!
//! Integer arithmetic on the registers wraps, as in a release build (the
//! sprite-row computation relies on it for sprites that stand partly above the
//! top edge of the screen). An index out of range, which stops the emulator, is
//! a fault.
use crate::consts::IF;
use crate::fifo::{background_row, mix_sprite_row};
use crate::ppu::{PpuModel, Sprite, SCREEN_LEN};
use vstd::prelude::*;

verus! {

/// How a clock cycle ends.
#[derive(PartialEq, Eq, Structural, Clone, Copy, Debug)]
pub enum ClockOutcome {
    /// The cycle completed; the next one follows.
    Continue,
    /// The unit entered V-Blank: the V-Blank hook runs now, then the V-Blank
    /// interrupt is requested.
    VBlank,
    /// The cycle indexes out of range.
    Fault,
}

/// The model and the memory after a clock cycle, and how the cycle ended.
pub struct StepResult {
    pub ppu: PpuModel,
    pub memory: Seq<u8>,
    pub outcome: ClockOutcome,
}

/// The scanline (LY) of a clock cycle.
pub open spec fn line_of_clock(clock: u64) -> u8 {
    ((clock / 456) % 154) as u8
}

/// The memory with the LCD STAT interrupt requested, if the STAT source `bit` is enabled.
pub open spec fn stat_interrupt(p: PpuModel, memory: Seq<u8>, bit: u8) -> Seq<u8> {
    if p.stat & (1u8 << bit) != 0 {
        memory.update(IF as int, memory[IF as int] | 2u8)
    } else {
        memory
    }
}

/// The shade that palette `palette` gives to colour index `color`.
pub open spec fn palette_shade(palette: u8, color: u8) -> u8 {
    (palette >> ((color * 2) as u8)) & 3u8
}

/// The height in pixels of the sprites under LCD control value `lcdc`.
pub open spec fn sprite_height(lcdc: u8) -> u16 {
    if lcdc & 4u8 != 0 {
        16
    } else {
        8
    }
}

/// Entry `i` of the object attribute memory.
pub open spec fn oam_entry(memory: Seq<u8>, i: int) -> Sprite {
    let a = 0xFE00 + i * 4;
    Sprite { sy: memory[a], sx: memory[a + 1], t: memory[a + 2], flags: memory[a + 3] }
}

/// Whether a sprite shows on scanline `ly`.
pub open spec fn sprite_on_line(s: Sprite, ly: u8, height: u16) -> bool {
    &&& s.sx > 0
    &&& ly as int + 16 >= s.sy as int
    &&& (ly as int + 16) < s.sy as int + height as int
}

/// The first (at most ten) of the first `n` OAM entries that show on scanline `ly`,
/// in OAM order.
pub open spec fn sprites_on_line(memory: Seq<u8>, ly: u8, height: u16, n: nat) -> Seq<Sprite>
    decreases n,
{
    if n == 0 {
        Seq::empty()
    } else {
        let prev = sprites_on_line(memory, ly, height, (n - 1) as nat);
        let s = oam_entry(memory, n - 1);
        if prev.len() < 10 && sprite_on_line(s, ly, height) {
            prev.push(s)
        } else {
            prev
        }
    }
}

/// Where a sprite goes in a buffer ordered by decreasing x: before the first
/// entry whose x is not greater than its own.
pub open spec fn priority_position(buf: Seq<Sprite>, s: Sprite) -> int
    decreases buf.len(),
{
    if buf.len() == 0 || buf[0].sx <= s.sx {
        0
    } else {
        1 + priority_position(buf.drop_first(), s)
    }
}

/// The sprites of `sel` (in OAM order) ordered for drawing: by decreasing x, and
/// among equal x the later OAM entry first, so that the last entry has the highest
/// priority.
pub open spec fn priority_order(sel: Seq<Sprite>) -> Seq<Sprite>
    decreases sel.len(),
{
    if sel.len() == 0 {
        sel
    } else {
        let b = priority_order(sel.drop_last());
        b.insert(priority_position(b, sel.last()), sel.last())
    }
}

/// The OAM search of mode 2: the sprite buffer gets the sprites on the current line,
/// ordered by priority; entries past them keep their old value.
pub open spec fn search_objects(p: PpuModel, memory: Seq<u8>) -> PpuModel {
    let sel = sprites_on_line(memory, p.ly, sprite_height(p.lcdc), 40);
    let ord = priority_order(sel);
    PpuModel {
        sprite_buffer: Seq::new(
            10,
            |i: int|
                if i < ord.len() {
                    ord[i]
                } else {
                    p.sprite_buffer[i]
                },
        ),
        sprite_buffer_len: sel.len() as u8,
        ..p
    }
}

/// Entering a mode: the mode bits of STAT change and the mode's entry work is done.
#[verifier::opaque]
pub open spec fn enter_mode(p: PpuModel, memory: Seq<u8>, mode: u8) -> (PpuModel, Seq<u8>) {
    let p1 = PpuModel { stat: (p.stat & !3u8) | mode, ..p };
    if mode == 0 {
        // H-Blank
        let p2 = if p1.is_in_window {
            PpuModel { wyc: p1.wyc.wrapping_add(1), ..p1 }
        } else {
            p1
        };
        (p2, stat_interrupt(p2, memory, 3))
    } else if mode == 1 {
        // V-Blank
        let p2 = PpuModel { wyc: 0, reach_window: false, ..p1 };
        (p2, stat_interrupt(p2, memory, 4))
    } else if mode == 2 {
        // OAM search
        let p2 = search_objects(p1, memory);
        (p2, stat_interrupt(p2, memory, 5))
    } else {
        // Draw
        (
            PpuModel {
                background_fifo: Seq::empty(),
                sprite_fifo: Seq::empty(),
                fetcher_step: 0,
                fetcher_skipped_first_push: false,
                sprite_fetching: false,
                fetcher_cycle: false,
                fetcher_x: 0,
                reach_window: if p1.wy == p1.ly {
                    true
                } else {
                    p1.reach_window
                },
                is_in_window: false,
                curr_x: 0,
                discarting: true,
                ..p1
            },
            memory,
        )
    }
}

/// The bits of `x` in reverse order.
pub open spec fn reversed_bits(x: u8) -> u8 {
    ((x & 1u8) << 7u8) | ((x & 2u8) << 5u8) | ((x & 4u8) << 3u8) | ((x & 8u8) << 1u8) | ((x
        & 16u8) >> 1u8) | ((x & 32u8) >> 3u8) | ((x & 64u8) >> 5u8) | ((x & 128u8) >> 7u8)
}

/// The tile-data index of background tile number `n` (the 8800 addressing method
/// when bit 4 of LCDC is clear).
pub open spec fn bg_tile_index(n: u8, lcdc: u8) -> int {
    if lcdc & 0x10u8 == 0 && n < 0x80 {
        n + 0x100
    } else {
        n as int
    }
}

/// The row of the current sprite that the fetcher reads.
pub open spec fn sprite_row(p: PpuModel, sprite: Sprite) -> u8 {
    let row = p.ly.wrapping_sub(sprite.sy.wrapping_sub(16));
    if sprite.flags & 0x40u8 != 0 {
        (if p.lcdc & 4u8 != 0 {
            15u8
        } else {
            7u8
        }).wrapping_sub(row)
    } else {
        row
    }
}

/// One step of the pixel fetcher while it fetches a sprite; `None` when the
/// fetch reads out of range.
pub open spec fn sprite_fetch_step(p: PpuModel, memory: Seq<u8>) -> Option<PpuModel> {
    if p.sprite_buffer_len >= 10 {
        None
    } else {
        let sprite = p.sprite_buffer[p.sprite_buffer_len as int];
        let py = sprite_row(p, sprite);
        if p.fetcher_step == 0 {
            let tile = if p.lcdc & 4u8 != 0 {
                (sprite.t & !1u8).wrapping_add(py / 8)
            } else {
                sprite.t
            };
            Some(PpuModel { fetch_tile_number: tile, fetcher_step: 1, ..p })
        } else if p.fetcher_step == 1 {
            let address = (p.fetch_tile_number as int * 16 + 0x8000 + (py % 8) as int * 2) as u16;
            Some(
                PpuModel {
                    fetch_tile_address: address,
                    fetch_tile_data_low: memory[address as int],
                    fetcher_step: 2,
                    ..p
                },
            )
        } else if p.fetcher_step == 2 {
            Some(
                PpuModel {
                    fetch_tile_data_hight: memory[p.fetch_tile_address.wrapping_add(1) as int],
                    fetcher_step: 3,
                    ..p
                },
            )
        } else if p.fetcher_step == 3 {
            let flip_x = sprite.flags & 0x20u8 != 0;
            let lo = if flip_x {
                reversed_bits(p.fetch_tile_data_low)
            } else {
                p.fetch_tile_data_low
            };
            let hi = if flip_x {
                reversed_bits(p.fetch_tile_data_hight)
            } else {
                p.fetch_tile_data_hight
            };
            let cut_off = if sprite.sx < 8 {
                (8 - sprite.sx) as u8
            } else {
                0u8
            };
            Some(
                PpuModel {
                    sprite_fifo: mix_sprite_row(
                        p.sprite_fifo,
                        lo,
                        hi,
                        cut_off,
                        sprite.flags & 0x10u8 != 0,
                        sprite.flags & 0x80u8 != 0,
                    ),
                    fetcher_step: 0,
                    sprite_fetching: false,
                    ..p
                },
            )
        } else {
            None
        }
    }
}

/// The background (or window) line the fetcher reads from.
pub open spec fn bg_fetch_line(p: PpuModel) -> u8 {
    if p.is_in_window {
        p.wyc
    } else {
        p.ly.wrapping_add(p.scy)
    }
}

/// One step of the pixel fetcher while it fetches background or window tiles;
/// `None` on an unknown step.
pub open spec fn background_fetch_step(p: PpuModel, memory: Seq<u8>) -> Option<PpuModel> {
    let win = p.is_in_window;
    if p.fetcher_step == 0 {
        let tile_map: int = if (!win && p.lcdc & 0x08u8 != 0) || (win && p.lcdc & 0x40u8 != 0) {
            0x9C00
        } else {
            0x9800
        };
        let tx: u8 = if win {
            p.fetcher_x
        } else {
            p.fetcher_x.wrapping_add(p.scx / 8) & 0x1fu8
        };
        let ty: u8 = bg_fetch_line(p) / 8;
        let offset = ((32 * ty as int + tx as int) as u16) & 0x03ffu16;
        Some(
            PpuModel {
                fetch_tile_number: memory[tile_map + offset as int],
                fetcher_step: 1,
                ..p
            },
        )
    } else if p.fetcher_step == 1 {
        let address = (bg_tile_index(p.fetch_tile_number, p.lcdc) * 16 + 0x8000 + 2 * (
        bg_fetch_line(p) % 8) as int) as u16;
        Some(
            PpuModel {
                fetch_tile_address: address,
                fetch_tile_data_low: memory[address as int],
                fetcher_step: 2,
                ..p
            },
        )
    } else if p.fetcher_step == 2 {
        let hi = memory[p.fetch_tile_address.wrapping_add(1) as int];
        if !p.fetcher_skipped_first_push {
            Some(
                PpuModel {
                    fetch_tile_data_hight: hi,
                    fetcher_skipped_first_push: true,
                    fetcher_step: 0,
                    ..p
                },
            )
        } else {
            Some(PpuModel { fetch_tile_data_hight: hi, fetcher_step: 3, ..p })
        }
    } else if p.fetcher_step == 3 {
        if p.background_fifo.len() != 0 {
            Some(p)
        } else {
            Some(
                PpuModel {
                    background_fifo: background_row(
                        p.fetch_tile_data_low,
                        p.fetch_tile_data_hight,
                    ),
                    fetcher_x: p.fetcher_x.wrapping_add(1),
                    fetcher_step: 0,
                    ..p
                },
            )
        }
    } else {
        None
    }
}

/// The screen position of the pixel that the unit outputs next.
pub open spec fn pixel_index(p: PpuModel) -> int {
    p.ly as int * 160 + p.curr_x as int
}

/// Mixing a background pixel with the front of the sprite FIFO and writing the
/// shade to the screen.
pub open spec fn output_pixel(p: PpuModel, pixel: u8) -> PpuModel {
    let bcolor: u8 = if p.lcdc & 1u8 != 0 {
        pixel & 3u8
    } else {
        0u8
    };
    let bg = palette_shade(p.bgp, bcolor);
    if p.sprite_fifo.len() == 0 {
        PpuModel { screen: p.screen.update(pixel_index(p), bg), ..p }
    } else {
        let sp = p.sprite_fifo[0];
        let scolor = sp & 3u8;
        let behind = (sp >> 3u8) & 1u8 != 0;
        let shade = if scolor == 0 || behind && bcolor != 0 {
            bg
        } else {
            palette_shade(
                if (sp >> 4u8) & 1u8 == 0 {
                    p.obp0
                } else {
                    p.obp1
                },
                scolor,
            )
        };
        PpuModel {
            screen: p.screen.update(pixel_index(p), shade),
            sprite_fifo: p.sprite_fifo.drop_first(),
            ..p
        }
    }
}

/// Shifting one pixel out of the background FIFO (mode 3, when no sprite is being
/// fetched).
pub open spec fn pixel_step(p: PpuModel) -> (PpuModel, ClockOutcome) {
    if p.sprite_fetching || p.background_fifo.len() == 0 {
        (p, ClockOutcome::Continue)
    } else {
        let pixel = p.background_fifo[0];
        let p1 = PpuModel { background_fifo: p.background_fifo.drop_first(), ..p };
        let p2 = if p1.discarting && p1.curr_x == p1.scx % 8 {
            PpuModel { discarting: false, curr_x: 0, ..p1 }
        } else {
            p1
        };
        if !p2.discarting && pixel_index(p2) >= SCREEN_LEN {
            (p2, ClockOutcome::Fault)
        } else {
            let p3 = if p2.discarting {
                p2
            } else {
                output_pixel(p2, pixel)
            };
            let p4 = PpuModel { curr_x: p3.curr_x.wrapping_add(1), ..p3 };
            if !p4.is_in_window && p4.lcdc & 0x20u8 != 0 && p4.reach_window && p4.curr_x
                >= p4.wx.saturating_sub(7) {
                (
                    PpuModel {
                        is_in_window: true,
                        fetcher_step: 0,
                        discarting: false,
                        fetcher_x: 0,
                        background_fifo: Seq::empty(),
                        ..p4
                    },
                    ClockOutcome::Continue,
                )
            } else {
                (p4, ClockOutcome::Continue)
            }
        }
    }
}

/// Whether the sprite at the end of the buffer starts being fetched at this cycle.
pub open spec fn sprite_fetch_starts(p: PpuModel) -> bool {
    &&& !p.sprite_fetching
    &&& p.sprite_buffer_len != 0
    &&& p.lcdc & 2u8 != 0
}

/// One cycle of mode 3 (drawing).
#[verifier::opaque]
pub open spec fn draw_step(p: PpuModel, memory: Seq<u8>) -> (PpuModel, ClockOutcome) {
    if sprite_fetch_starts(p) && p.sprite_buffer_len > 10 {
        (p, ClockOutcome::Fault)
    } else if sprite_fetch_starts(p) && p.sprite_buffer[p.sprite_buffer_len - 1].sx
        <= p.curr_x.wrapping_add(8) {
        (
            PpuModel {
                sprite_fetching: true,
                sprite_buffer_len: (p.sprite_buffer_len - 1) as u8,
                fetcher_step: 0,
                fetcher_cycle: false,
                ..p
            },
            ClockOutcome::Continue,
        )
    } else {
        let p1 = PpuModel { fetcher_cycle: !p.fetcher_cycle, ..p };
        if p1.fetcher_cycle {
            let fetched = if p1.sprite_fetching {
                sprite_fetch_step(p1, memory)
            } else {
                background_fetch_step(p1, memory)
            };
            match fetched {
                Some(p2) => pixel_step(p2),
                None => (p1, ClockOutcome::Fault),
            }
        } else {
            pixel_step(p1)
        }
    }
}

/// The mode transition at the start of a cycle, for a unit that is not entering V-Blank.
#[verifier::opaque]
pub open spec fn mode_transition(p: PpuModel, memory: Seq<u8>, lx: u64) -> (PpuModel, Seq<u8>) {
    let mode = p.stat & 3u8;
    if mode == 0 {
        if lx == 0 {
            enter_mode(p, memory, 2)
        } else {
            (p, memory)
        }
    } else if mode == 1 {
        if p.ly == 0 {
            enter_mode(PpuModel { wyc: 0, ..p }, memory, 2)
        } else {
            (p, memory)
        }
    } else if mode == 2 {
        if lx == 80 {
            enter_mode(p, memory, 3)
        } else {
            (p, memory)
        }
    } else {
        if p.curr_x == 160 {
            enter_mode(p, memory, 0)
        } else {
            (p, memory)
        }
    }
}

/// Whether the LY == LYC coincidence fires at this cycle.
pub open spec fn coincidence(p: PpuModel, lx: u64) -> bool {
    p.ly != 0 && (lx == 4 && p.ly == p.lyc || p.ly == 153 && lx == 12 && 0 == p.lyc)
}

/// The start of a clock cycle: LY takes the cycle's line, and the LY == LYC
/// coincidence sets the STAT flag and requests its interrupt.
pub open spec fn cycle_start(p: PpuModel, memory: Seq<u8>, clock: u64) -> (PpuModel, Seq<u8>) {
    let lx = clock % 456;
    let p0 = PpuModel { ly: line_of_clock(clock), ..p };
    if coincidence(p0, lx) {
        let p1 = PpuModel { stat: p0.stat | 4u8, ..p0 };
        (p1, stat_interrupt(p1, memory, 6))
    } else {
        (p0, memory)
    }
}

/// One clock cycle of the pixel-processing unit.
pub open spec fn clock_step(p: PpuModel, memory: Seq<u8>, clock: u64) -> StepResult {
    let lx = clock % 456;
    let (p1, m1) = cycle_start(p, memory, clock);
    if p1.stat & 3u8 == 0 && p1.ly == 144 {
        let (p2, m2) = enter_mode(p1, m1, 1);
        StepResult { ppu: p2, memory: m2, outcome: ClockOutcome::VBlank }
    } else {
        let (p2, m2) = mode_transition(p1, m1, lx);
        if p2.stat & 3u8 == 3 {
            let (p3, outcome) = draw_step(p2, m2);
            StepResult { ppu: p3, memory: m2, outcome }
        } else {
            StepResult { ppu: p2, memory: m2, outcome: ClockOutcome::Continue }
        }
    }
}

/// The cycles `from..to`, run until one enters V-Blank or faults. The outcome is
/// `Continue` when the run reached `to`.
pub open spec fn run_clocks(p: PpuModel, memory: Seq<u8>, from: u64, to: u64) -> StepResult
    decreases to - from,
{
    if from >= to {
        StepResult {
            ppu: PpuModel { last_clock_count: to, ..p },
            memory,
            outcome: ClockOutcome::Continue,
        }
    } else {
        let r = clock_step(p, memory, from);
        match r.outcome {
            ClockOutcome::Continue => run_clocks(r.ppu, r.memory, (from + 1) as u64, to),
            ClockOutcome::VBlank => StepResult {
                ppu: PpuModel { last_clock_count: (from + 1) as u64, ..r.ppu },
                memory: r.memory,
                outcome: ClockOutcome::VBlank,
            },
            ClockOutcome::Fault => r,
        }
    }
}

} // verus!
