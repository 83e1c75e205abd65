//! Running the pixel-processing unit clock cycle by clock cycle.
use crate::consts::IF;
use crate::gameboy::GameBoy;
use crate::model::{
    background_fetch_step, clock_step, cycle_start, draw_step, enter_mode, mode_transition,
    oam_entry, pixel_step, priority_order, priority_position, reversed_bits, run_clocks,
    search_objects, sprite_fetch_step, sprite_height, sprite_row, sprites_on_line,
    stat_interrupt, ClockOutcome,
};
use crate::ppu::{Ppu, PpuModel, Sprite};
use vstd::prelude::*;

verus! {

broadcast use crate::ppu::PpuInternals::lemma_view_is_fields;

/// Why `Ppu::update` returned.
#[derive(PartialEq, Eq, Structural, Clone, Copy, Debug)]
pub enum PpuEvent {
    /// All the pending clock cycles ran.
    Finished,
    /// The unit entered V-Blank. Run the V-Blank hook, if any, then call
    /// `Ppu::end_v_blank` and `Ppu::update` again.
    VBlank,
}

/// A clock cycle indexed out of range (the emulator stops).
#[derive(PartialEq, Eq, Structural, Clone, Copy, Debug)]
pub struct PpuFault;

/// The bits of `x` in reverse order.
pub fn reverse_bits_u8(x: u8) -> (r: u8)
    ensures
        r == reversed_bits(x),
{
    ((x & 1) << 7) | ((x & 2) << 5) | ((x & 4) << 3) | ((x & 8) << 1) | ((x & 16) >> 1) | ((x & 32)
        >> 3) | ((x & 64) >> 5) | ((x & 128) >> 7)
}

pub proof fn lemma_sprites_on_line_len(memory: Seq<u8>, ly: u8, height: u16, n: nat)
    ensures
        sprites_on_line(memory, ly, height, n).len() <= 10,
        sprites_on_line(memory, ly, height, n).len() <= n,
    decreases n,
{
    if n > 0 {
        lemma_sprites_on_line_len(memory, ly, height, (n - 1) as nat);
    }
}

pub proof fn lemma_sprites_on_line_full(memory: Seq<u8>, ly: u8, height: u16, n: nat, m: nat)
    requires
        n <= m,
        sprites_on_line(memory, ly, height, n).len() == 10,
    ensures
        sprites_on_line(memory, ly, height, m) == sprites_on_line(memory, ly, height, n),
    decreases m - n,
{
    if n < m {
        lemma_sprites_on_line_full(memory, ly, height, n, (m - 1) as nat);
    }
}

pub proof fn lemma_priority_position_bounds(buf: Seq<Sprite>, s: Sprite)
    ensures
        0 <= priority_position(buf, s) <= buf.len(),
    decreases buf.len(),
{
    if buf.len() > 0 && buf[0].sx > s.sx {
        lemma_priority_position_bounds(buf.drop_first(), s);
    }
}

pub proof fn lemma_priority_position_is_first(buf: Seq<Sprite>, s: Sprite, p: int)
    requires
        0 <= p <= buf.len(),
        forall|k: int| 0 <= k < p ==> buf[k].sx > s.sx,
        p == buf.len() || buf[p].sx <= s.sx,
    ensures
        priority_position(buf, s) == p,
    decreases p,
{
    if p > 0 {
        lemma_priority_position_is_first(buf.drop_first(), s, p - 1);
    }
}

pub proof fn lemma_priority_order_len(sel: Seq<Sprite>)
    ensures
        priority_order(sel).len() == sel.len(),
    decreases sel.len(),
{
    if sel.len() > 0 {
        let b = priority_order(sel.drop_last());
        lemma_priority_order_len(sel.drop_last());
        lemma_priority_position_bounds(b, sel.last());
    }
}

impl Ppu {
    fn request_stat_interrupt(&self, memory: &mut [u8; 65536], bit: u8)
        requires
            bit < 8,
        ensures
            final(memory)@ == stat_interrupt(self@, old(memory)@, bit),
    {
        if self.stat & (1u8 << bit) != 0 {
            memory[IF] = memory[IF] | 2;
        }
    }

    /// Insert `s` into the ordered part of the sprite buffer.
    fn insert_sprite(&mut self, s: Sprite)
        requires
            old(self).sprite_buffer_len < 10,
        ensures
            final(self)@ == (PpuModel {
                sprite_buffer: final(self)@.sprite_buffer,
                sprite_buffer_len: (old(self).sprite_buffer_len + 1) as u8,
                ..old(self)@
            }),
            final(self)@.sprite_buffer.subrange(0, final(self).sprite_buffer_len as int) == ({
                let b = old(self)@.sprite_buffer.subrange(0, old(self).sprite_buffer_len as int);
                b.insert(priority_position(b, s), s)
            }),
            forall|k: int|
                final(self).sprite_buffer_len <= k < 10 ==> #[trigger] final(self)@.sprite_buffer[k]
                    == old(self)@.sprite_buffer[k],
    {
        let len = self.sprite_buffer_len as usize;
        let ghost b = self.sprite_buffer@.subrange(0, len as int);
        let mut p: usize = 0;
        while p < len && self.sprite_buffer[p].sx > s.sx
            invariant
                p <= len,
                len < 10,
                b == self.sprite_buffer@.subrange(0, len as int),
                forall|k: int| 0 <= k < p ==> b[k].sx > s.sx,
            decreases len - p,
        {
            p = p + 1;
        }
        proof {
            lemma_priority_position_is_first(b, s, p as int);
        }
        let ghost before = self.sprite_buffer@;
        let mut k: usize = len;
        while k > p
            invariant
                p <= k <= len,
                len < 10,
                self.sprite_buffer_len == old(self).sprite_buffer_len,
                self@ == (PpuModel { sprite_buffer: self.sprite_buffer@, ..old(self)@ }),
                before == old(self).sprite_buffer@,
                forall|j: int| 0 <= j <= k ==> #[trigger] self.sprite_buffer@[j] == before[j],
                forall|j: int| k < j <= len ==> #[trigger] self.sprite_buffer@[j] == before[j - 1],
                forall|j: int| len < j < 10 ==> #[trigger] self.sprite_buffer@[j] == before[j],
            decreases k,
        {
            let prev = self.sprite_buffer[k - 1];
            self.sprite_buffer[k] = prev;
            k = k - 1;
        }
        self.sprite_buffer[p] = s;
        self.sprite_buffer_len = self.sprite_buffer_len + 1;
        assert(self.sprite_buffer@.subrange(0, self.sprite_buffer_len as int) =~= b.insert(
            p as int,
            s,
        ));
    }

    /// The OAM search of mode 2.
    fn search_objects(&mut self, memory: &[u8; 65536])
        ensures
            final(self)@ == search_objects(old(self)@, memory@),
    {
        let ghost start = self@;
        let height: u16 = if self.lcdc & 0x04 != 0 {
            16
        } else {
            8
        };
        let ghost h = sprite_height(self.lcdc);
        self.sprite_buffer_len = 0;
        let mut i: usize = 0;
        while i < 40 && self.sprite_buffer_len < 10
            invariant
                i <= 40,
                height == h,
                h == sprite_height(start.lcdc),
                memory@.len() == 65536,
                self@ == (PpuModel {
                    sprite_buffer: self@.sprite_buffer,
                    sprite_buffer_len: self.sprite_buffer_len,
                    ..start
                }),
                self.sprite_buffer_len as int == sprites_on_line(memory@, start.ly, h, i as nat).len(),
                self@.sprite_buffer.subrange(0, self.sprite_buffer_len as int) == priority_order(
                    sprites_on_line(memory@, start.ly, h, i as nat),
                ),
                forall|k: int|
                    self.sprite_buffer_len <= k < 10 ==> #[trigger] self@.sprite_buffer[k]
                        == start.sprite_buffer[k],
            decreases 40 - i,
        {
            let a = 0xFE00 + i * 4;
            let sy = memory[a];
            let sx = memory[a + 1];
            let t = memory[a + 2];
            let flags = memory[a + 3];
            let ghost prev = sprites_on_line(memory@, start.ly, h, i as nat);
            proof {
                lemma_priority_order_len(prev);
            }
            if sx > 0 && self.ly as u16 + 16 >= sy as u16 && (self.ly as u16 + 16) < sy as u16
                + height {
                let s = Sprite { sy, sx, t, flags };
                assert(s == oam_entry(memory@, i as int));
                self.insert_sprite(s);
                assert(prev.push(s).drop_last() =~= prev);
            }
            i = i + 1;
        }
        let ghost sel = sprites_on_line(memory@, start.ly, h, 40);
        proof {
            lemma_sprites_on_line_len(memory@, start.ly, h, i as nat);
            if i < 40 {
                lemma_sprites_on_line_full(memory@, start.ly, h, i as nat, 40);
            }
            lemma_priority_order_len(sel);
        }
        assert(self@.sprite_buffer =~= search_objects(start, memory@).sprite_buffer);
    }

    /// Enter mode `mode`.
    fn set_mode(&mut self, memory: &mut [u8; 65536], mode: u8)
        requires
            mode <= 3,
        ensures
            (final(self)@, final(memory)@) == enter_mode(old(self)@, old(memory)@, mode),
    {
        reveal(enter_mode);
        self.stat = (self.stat & !0b11) | mode;
        if mode == 0 {
            // H-Blank
            if self.internals.is_in_window {
                self.wyc = self.wyc.wrapping_add(1);
            }
            self.request_stat_interrupt(memory, 3);
        } else if mode == 1 {
            // V-Blank
            self.wyc = 0;
            self.internals.reach_window = false;
            self.request_stat_interrupt(memory, 4);
        } else if mode == 2 {
            // OAM search
            self.search_objects(memory);
            self.request_stat_interrupt(memory, 5);
        } else {
            // Draw
            self.internals.background_fifo.clear();
            self.internals.sprite_fifo.clear();
            self.internals.fetcher_step = 0;
            self.internals.fetcher_skipped_first_push = false;
            self.internals.sprite_fetching = false;
            self.internals.fetcher_cycle = false;
            self.internals.fetcher_x = 0;
            if self.wy == self.ly {
                self.internals.reach_window = true;
            }
            self.internals.is_in_window = false;
            self.internals.curr_x = 0;
            self.internals.discarting = true;
        }
    }

    /// One step of the fetcher on a sprite; false when the sprite index is out of
    /// range or the step is unknown.
    fn fetch_sprite(&mut self, memory: &[u8; 65536]) -> (ok: bool)
        ensures
            ok == sprite_fetch_step(old(self)@, memory@) is Some,
            ok ==> final(self)@ == sprite_fetch_step(old(self)@, memory@)->0,
    {
        if self.sprite_buffer_len >= 10 {
            return false;
        }
        let sprite = self.sprite_buffer[self.sprite_buffer_len as usize];
        let tall = self.lcdc & 0x04 != 0;
        let flip_y = sprite.flags & 0x40 != 0;
        let flip_x = sprite.flags & 0x20 != 0;
        let row = self.ly.wrapping_sub(sprite.sy.wrapping_sub(16));
        let py = if flip_y {
            let last_row: u8 = if tall {
                15
            } else {
                7
            };
            last_row.wrapping_sub(row)
        } else {
            row
        };
        assert(py == sprite_row(old(self)@, sprite));
        if self.internals.fetcher_step == 0 {
            // fetch tile number
            let tile = if tall {
                (sprite.t & !1).wrapping_add(py / 8)
            } else {
                sprite.t
            };
            self.internals.fetch_tile_number = tile;
            self.internals.fetcher_step = 1;
        } else if self.internals.fetcher_step == 1 {
            // fetch tile data (low)
            let tile = self.internals.fetch_tile_number as u16;
            let address = tile * 0x10 + 0x8000;
            let offset = (py % 8) as u16 * 2;
            self.internals.fetch_tile_address = address + offset;
            self.internals.fetch_tile_data_low = memory[self.internals.fetch_tile_address as usize];
            self.internals.fetcher_step = 2;
        } else if self.internals.fetcher_step == 2 {
            // fetch tile data (hight)
            self.internals.fetch_tile_data_hight = memory[self.internals.fetch_tile_address.wrapping_add(1) as usize];
            self.internals.fetcher_step = 3;
        } else if self.internals.fetcher_step == 3 {
            // push to fifo
            let tile_low = if flip_x {
                reverse_bits_u8(self.internals.fetch_tile_data_low)
            } else {
                self.internals.fetch_tile_data_low
            };
            let tile_hight = if flip_x {
                reverse_bits_u8(self.internals.fetch_tile_data_hight)
            } else {
                self.internals.fetch_tile_data_hight
            };
            let cut_off = if sprite.sx < 8 {
                8 - sprite.sx
            } else {
                0
            };
            self.internals.sprite_fifo.push_sprite(
                tile_low,
                tile_hight,
                cut_off,
                sprite.flags & 0x10 != 0,
                sprite.flags & 0x80 != 0,
            );
            self.internals.fetcher_step = 0;
            self.internals.sprite_fetching = false;
        } else {
            return false;
        }
        true
    }

    /// One step of the fetcher on background or window tiles; false on an unknown step.
    fn fetch_background(&mut self, memory: &[u8; 65536]) -> (ok: bool)
        ensures
            ok == background_fetch_step(old(self)@, memory@) is Some,
            ok ==> final(self)@ == background_fetch_step(old(self)@, memory@)->0,
    {
        let is_in_window = self.internals.is_in_window;
        let line = if is_in_window {
            self.wyc
        } else {
            self.ly.wrapping_add(self.scy)
        };
        if self.internals.fetcher_step == 0 {
            // fetch tile number
            let tile_map: u16 = if !is_in_window {
                if self.lcdc & 0x08 != 0 {
                    0x9C00
                } else {
                    0x9800
                }
            } else {
                if self.lcdc & 0x40 != 0 {
                    0x9C00
                } else {
                    0x9800
                }
            };
            let tx = if is_in_window {
                self.internals.fetcher_x
            } else {
                self.internals.fetcher_x.wrapping_add(self.scx / 8) & 0x1f
            };
            let ty = line / 8;
            let raw: u16 = 32 * ty as u16 + tx as u16;
            let offset = raw & 0x03ff;
            assert(raw & 0x3ff <= 0x3ff) by (bit_vector);
            self.internals.fetch_tile_number = memory[(tile_map + offset) as usize];
            self.internals.fetcher_step = 1;
        } else if self.internals.fetcher_step == 1 {
            // fetch tile data (low)
            let mut tile = self.internals.fetch_tile_number as u16;
            // if is using 8800 method
            if self.lcdc & 0x10 == 0 {
                tile += 0x100;
                if tile >= 0x180 {
                    tile -= 0x100;
                }
            }
            let address = tile * 0x10 + 0x8000;
            let offset = 2 * (line % 8) as u16;
            self.internals.fetch_tile_address = address + offset;
            self.internals.fetch_tile_data_low = memory[self.internals.fetch_tile_address as usize];
            self.internals.fetcher_step = 2;
        } else if self.internals.fetcher_step == 2 {
            // fetch tile data (hight)
            self.internals.fetch_tile_data_hight = memory[self.internals.fetch_tile_address.wrapping_add(1) as usize];
            if !self.internals.fetcher_skipped_first_push {
                self.internals.fetcher_skipped_first_push = true;
                self.internals.fetcher_step = 0;
            } else {
                self.internals.fetcher_step = 3;
            }
        } else if self.internals.fetcher_step == 3 {
            // push to fifo
            if !self.internals.background_fifo.is_empty() {
                self.internals.fetcher_step = 3;
            } else {
                let low = self.internals.fetch_tile_data_low;
                let hight = self.internals.fetch_tile_data_hight;
                self.internals.background_fifo.push_background(low, hight);
                self.internals.fetcher_x = self.internals.fetcher_x.wrapping_add(1);
                self.internals.fetcher_step = 0;
                assert(self.internals.background_fifo@ =~= crate::fifo::background_row(low, hight));
            }
        } else {
            return false;
        }
        true
    }

    /// Shift a pixel out of the background FIFO and, unless it is discarded, draw it.
    fn shift_pixel(&mut self) -> (out: ClockOutcome)
        ensures
            out == pixel_step(old(self)@).1,
            out != ClockOutcome::Fault ==> final(self)@ == pixel_step(old(self)@).0,
    {
        if self.internals.sprite_fetching {
            return ClockOutcome::Continue;
        }
        let pixel = match self.internals.background_fifo.pop_front() {
            Some(pixel) => pixel,
            None => {
                return ClockOutcome::Continue;
            },
        };
        if self.internals.discarting && self.internals.curr_x == self.scx % 8 {
            self.internals.discarting = false;
            self.internals.curr_x = 0;
        }
        if !self.internals.discarting {
            let i = (self.ly as usize) * 160 + self.internals.curr_x as usize;
            if i >= 23040 {
                return ClockOutcome::Fault;
            }
            let background_enable = self.lcdc & 0x01 != 0;
            let bcolor = if background_enable {
                pixel & 0b11
            } else {
                0
            };
            assert(pixel & 0b11 < 4) by (bit_vector);
            // background color, with pallete applied
            let mut color = (self.bgp >> (bcolor * 2)) & 0b11;
            let sprite_pixel = self.internals.sprite_fifo.pop_front();
            if let Some(sprite_pixel) = sprite_pixel {
                let scolor = sprite_pixel & 0b11;
                assert(sprite_pixel & 0b11 < 4) by (bit_vector);
                let background_priority = (sprite_pixel >> 3) & 0x01 != 0;
                if scolor == 0 || background_priority && bcolor != 0 {
                    // use background color
                } else {
                    // use sprite color
                    let palette = if (sprite_pixel >> 4) & 0x1 == 0 {
                        self.obp0
                    } else {
                        self.obp1
                    };
                    color = (palette >> (scolor * 2)) & 0b11;
                }
            }
            self.screen[i] = color;
        }
        self.internals.curr_x = self.internals.curr_x.wrapping_add(1);
        let window_enabled = self.lcdc & 0x20 != 0;
        if !self.internals.is_in_window && window_enabled && self.internals.reach_window && self.internals.curr_x
            >= self.wx.saturating_sub(7) {
            self.internals.is_in_window = true;
            self.internals.fetcher_step = 0;
            self.internals.discarting = false;
            self.internals.fetcher_x = 0;
            self.internals.background_fifo.clear();
        }
        ClockOutcome::Continue
    }

    /// One cycle of mode 3.
    fn draw_cycle(&mut self, memory: &[u8; 65536]) -> (out: ClockOutcome)
        ensures
            out == draw_step(old(self)@, memory@).1,
            out != ClockOutcome::Fault ==> final(self)@ == draw_step(old(self)@, memory@).0,
    {
        reveal(draw_step);
        let sprite_enable = self.lcdc & 0x02 != 0;
        if !self.internals.sprite_fetching && self.sprite_buffer_len != 0 && sprite_enable {
            if self.sprite_buffer_len > 10 {
                return ClockOutcome::Fault;
            }
            let sprite = self.sprite_buffer[self.sprite_buffer_len as usize - 1];
            if sprite.sx <= self.internals.curr_x.wrapping_add(8) {
                self.internals.sprite_fetching = true;
                self.sprite_buffer_len -= 1;
                self.internals.fetcher_step = 0;
                self.internals.fetcher_cycle = false;
                return ClockOutcome::Continue;
            }
        }
        self.internals.fetcher_cycle = !self.internals.fetcher_cycle;
        // Pixel Fetching
        if self.internals.fetcher_cycle {
            let ok = if self.internals.sprite_fetching {
                self.fetch_sprite(memory)
            } else {
                self.fetch_background(memory)
            };
            if !ok {
                return ClockOutcome::Fault;
            }
        }
        self.shift_pixel()
    }

    fn begin_cycle(&mut self, memory: &mut [u8; 65536], clock: u64)
        ensures
            (final(self)@, final(memory)@) == cycle_start(old(self)@, old(memory)@, clock),
    {
        self.ly = ((clock / 456) % 154) as u8;
        let lx = clock % 456;
        // LY==LYC Interrupt
        let ly = self.ly;
        let lyc = self.lyc;
        if ly != 0 && (lx == 4 && ly == lyc || ly == 153 && lx == 12 && 0 == lyc) {
            // STAT Coincidente Flag
            self.stat = self.stat | 4;
            // LY == LYC STAT Interrupt
            self.request_stat_interrupt(memory, 6);
        }
    }

    fn transition(&mut self, memory: &mut [u8; 65536], lx: u64)
        ensures
            (final(self)@, final(memory)@) == mode_transition(old(self)@, old(memory)@, lx),
    {
        reveal(mode_transition);
        let mode = self.stat & 0b11;
        if mode == 0 {
            if lx == 0 {
                self.set_mode(memory, 2);
            }
        } else if mode == 1 {
            if self.ly == 0 {
                self.wyc = 0;
                self.set_mode(memory, 2);
            }
        } else if mode == 2 {
            if lx == 80 {
                self.set_mode(memory, 3);
            }
        } else {
            if self.internals.curr_x == 160 {
                self.set_mode(memory, 0);
            }
        }
    }

    /// One clock cycle.
    fn clock_step(&mut self, memory: &mut [u8; 65536], clock: u64) -> (out: ClockOutcome)
        ensures
            out == clock_step(old(self)@, old(memory)@, clock).outcome,
            out != ClockOutcome::Fault ==> final(self)@ == clock_step(
                old(self)@,
                old(memory)@,
                clock,
            ).ppu && final(memory)@ == clock_step(old(self)@, old(memory)@, clock).memory,
    {
        self.begin_cycle(memory, clock);
        let lx = clock % 456;
        if self.stat & 0b11 == 0 && self.ly == 144 {
            self.set_mode(memory, 1);
            return ClockOutcome::VBlank;
        }
        self.transition(memory, lx);
        // mode operation
        if self.stat & 0b11 == 3 {
            self.draw_cycle(memory)
        } else {
            ClockOutcome::Continue
        }
    }

    /// Run the clock cycles from the last update up to `gb.clock_count`.
    ///
    /// The run stops early when the unit enters V-Blank (`Ok(PpuEvent::VBlank)`): the
    /// caller then runs its V-Blank hook, calls `Ppu::end_v_blank`, and calls
    /// `update` again for the remaining cycles. `Err` means a cycle indexed out of
    /// range.
    pub fn update(gb: &mut GameBoy) -> (r: Result<PpuEvent, PpuFault>)
        ensures
            final(gb).clock_count == old(gb).clock_count,
            r is Err <==> run_clocks(
                old(gb).ppu@,
                old(gb).memory@,
                old(gb).ppu@.last_clock_count,
                old(gb).clock_count,
            ).outcome == ClockOutcome::Fault,
            r == Ok::<PpuEvent, PpuFault>(PpuEvent::VBlank) <==> run_clocks(
                old(gb).ppu@,
                old(gb).memory@,
                old(gb).ppu@.last_clock_count,
                old(gb).clock_count,
            ).outcome == ClockOutcome::VBlank,
            r is Ok ==> final(gb).ppu@ == run_clocks(
                old(gb).ppu@,
                old(gb).memory@,
                old(gb).ppu@.last_clock_count,
                old(gb).clock_count,
            ).ppu && final(gb).memory@ == run_clocks(
                old(gb).ppu@,
                old(gb).memory@,
                old(gb).ppu@.last_clock_count,
                old(gb).clock_count,
            ).memory,
    {
        let ghost target = run_clocks(
            gb.ppu@,
            gb.memory@,
            gb.ppu@.last_clock_count,
            gb.clock_count,
        );
        let end = gb.clock_count;
        let mut clock = gb.ppu.internals.last_clock_count;
        while clock < end
            invariant
                gb.clock_count == end,
                end == old(gb).clock_count,
                target == run_clocks(
                    old(gb).ppu@,
                    old(gb).memory@,
                    old(gb).ppu@.last_clock_count,
                    old(gb).clock_count,
                ),
                target == run_clocks(gb.ppu@, gb.memory@, clock, end),
            decreases end - clock,
        {
            let out = gb.ppu.clock_step(&mut gb.memory, clock);
            match out {
                ClockOutcome::Continue => {
                    clock = clock + 1;
                },
                ClockOutcome::VBlank => {
                    gb.ppu.internals.last_clock_count = clock + 1;
                    return Ok(PpuEvent::VBlank);
                },
                ClockOutcome::Fault => {
                    return Err(PpuFault);
                },
            }
        }
        gb.ppu.internals.last_clock_count = end;
        Ok(PpuEvent::Finished)
    }

    /// Finish the V-Blank entry that `update` stopped at: request the V-Blank interrupt.
    pub fn end_v_blank(gb: &mut GameBoy)
        ensures
            final(gb).ppu@ == old(gb).ppu@,
            final(gb).clock_count == old(gb).clock_count,
            final(gb).memory@ == old(gb).memory@.update(IF as int, old(gb).memory@[IF as int] | 1u8),
    {
        gb.memory[IF] = gb.memory[IF] | 1;
    }
}

} // verus!
