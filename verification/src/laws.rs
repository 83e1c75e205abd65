//! Properties of the pixel-processing unit that hold of every state and every input.
use crate::consts::IF;
use crate::draw::{tile_pixel_color, tile_pixels, tile_pixels_upto};
use crate::fifo::lemma_tile_color_small;
use crate::model::{
    bg_tile_index, clock_step, cycle_start, draw_step, enter_mode, line_of_clock,
    mode_transition, output_pixel, palette_shade, pixel_step, priority_order, priority_position,
    run_clocks, search_objects, sprite_height, sprite_on_line, sprites_on_line, stat_interrupt,
    ClockOutcome, StepResult,
};
use crate::ppu::{PpuModel, Sprite};
use crate::scanline::{
    apply_sprite, apply_sprites, line_after_background, line_after_window, line_start,
    scan_line_screen, sprite_line_color, sprite_palette,
};
use crate::update::{
    lemma_priority_order_len, lemma_priority_position_bounds, lemma_sprites_on_line_len,
};
use vstd::prelude::*;

verus! {

/// Every pixel of `screen` is a shade of gray, from 0 to 3.
pub open spec fn shades_valid(screen: Seq<u8>) -> bool {
    forall|i: int| 0 <= i < screen.len() ==> #[trigger] screen[i] < 4
}

/// `after` is `before` with, at most, the LCD STAT interrupt requested (bit 1 of IF).
pub open spec fn only_stat_requested(before: Seq<u8>, after: Seq<u8>) -> bool {
    &&& after.len() == before.len()
    &&& forall|a: int| 0 <= a < before.len() && a != IF ==> #[trigger] after[a] == before[a]
    &&& (after[IF as int] == before[IF as int] || after[IF as int] == before[IF as int] | 2u8)
}

/// A palette gives a shade from 0 to 3.
pub proof fn lemma_palette_shade_small(palette: u8, color: u8)
    ensures
        palette_shade(palette, color) < 4,
{
    let s = (color * 2) as u8;
    assert((palette >> s) & 3u8 < 4) by (bit_vector);
}

proof fn lemma_stat_interrupt(p: PpuModel, memory: Seq<u8>, bit: u8)
    requires
        memory.len() == 65536,
    ensures
        only_stat_requested(memory, stat_interrupt(p, memory, bit)),
{
}

proof fn lemma_only_stat_requested_trans(a: Seq<u8>, b: Seq<u8>, c: Seq<u8>)
    requires
        a.len() == 65536,
        only_stat_requested(a, b),
        only_stat_requested(b, c),
    ensures
        only_stat_requested(a, c),
{
    let x = a[IF as int];
    assert((x | 2u8) | 2u8 == x | 2u8) by (bit_vector);
}

proof fn lemma_enter_mode(p: PpuModel, memory: Seq<u8>, mode: u8)
    requires
        memory.len() == 65536,
    ensures
        enter_mode(p, memory, mode).0.screen == p.screen,
        enter_mode(p, memory, mode).0.ly == p.ly,
        only_stat_requested(memory, enter_mode(p, memory, mode).1),
{
    reveal(enter_mode);
    let p1 = PpuModel { stat: (p.stat & !3u8) | mode, ..p };
    if mode == 0 {
        let p2 = if p1.is_in_window {
            PpuModel { wyc: p1.wyc.wrapping_add(1), ..p1 }
        } else {
            p1
        };
        lemma_stat_interrupt(p2, memory, 3);
    } else if mode == 1 {
        lemma_stat_interrupt(PpuModel { wyc: 0, reach_window: false, ..p1 }, memory, 4);
    } else if mode == 2 {
        lemma_stat_interrupt(search_objects(p1, memory), memory, 5);
    }
}

proof fn lemma_pixel_step(p: PpuModel)
    requires
        p.screen.len() == 23040,
    ensures
        shades_valid(p.screen) ==> shades_valid(pixel_step(p).0.screen),
        pixel_step(p).0.screen.len() == p.screen.len(),
        pixel_step(p).0.ly == p.ly,
{
    if !(p.sprite_fetching || p.background_fifo.len() == 0) {
        let pixel = p.background_fifo[0];
        let p1 = PpuModel { background_fifo: p.background_fifo.drop_first(), ..p };
        let p2 = if p1.discarting && p1.curr_x == p1.scx % 8 {
            PpuModel { discarting: false, curr_x: 0, ..p1 }
        } else {
            p1
        };
        if !p2.discarting && crate::model::pixel_index(p2) < 23040 {
            let bcolor: u8 = if p2.lcdc & 1u8 != 0 {
                pixel & 3u8
            } else {
                0u8
            };
            lemma_palette_shade_small(p2.bgp, bcolor);
            if p2.sprite_fifo.len() != 0 {
                let sp = p2.sprite_fifo[0];
                lemma_palette_shade_small(p2.obp0, sp & 3u8);
                lemma_palette_shade_small(p2.obp1, sp & 3u8);
            }
            let q = output_pixel(p2, pixel);
            assert(shades_valid(p.screen) ==> shades_valid(q.screen));
        }
    }
}

/// Every clock cycle sets LY to the line of the cycle, keeps the screen made of
/// shades 0 to 3, and writes to memory nothing but, at most, the LCD STAT interrupt
/// request.
pub proof fn lemma_clock_step(p: PpuModel, memory: Seq<u8>, clock: u64)
    requires
        memory.len() == 65536,
        p.screen.len() == 23040,
    ensures
        clock_step(p, memory, clock).ppu.ly == line_of_clock(clock),
        line_of_clock(clock) < 154,
        clock_step(p, memory, clock).ppu.screen.len() == 23040,
        shades_valid(p.screen) ==> shades_valid(clock_step(p, memory, clock).ppu.screen),
        only_stat_requested(memory, clock_step(p, memory, clock).memory),
{
    let lx = clock % 456;
    let (p1, m1) = cycle_start(p, memory, clock);
    let p0 = PpuModel { ly: line_of_clock(clock), ..p };
    let ly = line_of_clock(clock);
    lemma_stat_interrupt(PpuModel { stat: p0.stat | 4u8, ..p0 }, memory, 6);
    assert(only_stat_requested(memory, m1));
    if p1.stat & 3u8 == 0 && p1.ly == 144 {
        lemma_enter_mode(p1, m1, 1);
        lemma_only_stat_requested_trans(memory, m1, enter_mode(p1, m1, 1).1);
    } else {
        reveal(mode_transition);
        let mode = p1.stat & 3u8;
        if mode == 0 {
            lemma_enter_mode(p1, m1, 2);
            lemma_only_stat_requested_trans(memory, m1, enter_mode(p1, m1, 2).1);
        } else if mode == 1 {
            lemma_enter_mode(PpuModel { wyc: 0, ..p1 }, m1, 2);
            lemma_only_stat_requested_trans(
                memory,
                m1,
                enter_mode(PpuModel { wyc: 0, ..p1 }, m1, 2).1,
            );
        } else if mode == 2 {
            lemma_enter_mode(p1, m1, 3);
            lemma_only_stat_requested_trans(memory, m1, enter_mode(p1, m1, 3).1);
        } else {
            lemma_enter_mode(p1, m1, 0);
            lemma_only_stat_requested_trans(memory, m1, enter_mode(p1, m1, 0).1);
        }
        let (p2, m2) = mode_transition(p1, m1, lx);
        if p2.stat & 3u8 == 3 {
            reveal(draw_step);
            let p1d = PpuModel { fetcher_cycle: !p2.fetcher_cycle, ..p2 };
            lemma_pixel_step(p2);
            lemma_pixel_step(p1d);
            if p1d.fetcher_cycle {
                let fetched = if p1d.sprite_fetching {
                    crate::model::sprite_fetch_step(p1d, m2)
                } else {
                    crate::model::background_fetch_step(p1d, m2)
                };
                if let Some(p3) = fetched {
                    lemma_pixel_step(p3);
                }
            }
        }
    }
}

/// A run of clock cycles keeps the screen made of shades 0 to 3 and writes to
/// memory nothing but, at most, the LCD STAT interrupt request. A run that reaches
/// its end leaves the clock of the last update at that end; a run that stops at
/// V-Blank leaves the unit in mode 1 on line 144, with the window line counter reset.
pub proof fn lemma_run_clocks(p: PpuModel, memory: Seq<u8>, from: u64, to: u64)
    requires
        memory.len() == 65536,
        p.screen.len() == 23040,
    ensures
        run_clocks(p, memory, from, to).ppu.screen.len() == 23040,
        shades_valid(p.screen) ==> shades_valid(run_clocks(p, memory, from, to).ppu.screen),
        only_stat_requested(memory, run_clocks(p, memory, from, to).memory),
        run_clocks(p, memory, from, to).outcome != ClockOutcome::Fault ==> run_clocks(
            p,
            memory,
            from,
            to,
        ).ppu.last_clock_count <= to,
        run_clocks(p, memory, from, to).outcome == ClockOutcome::Continue ==> run_clocks(
            p,
            memory,
            from,
            to,
        ).ppu.last_clock_count == to,
        run_clocks(p, memory, from, to).outcome == ClockOutcome::VBlank ==> {
            &&& run_clocks(p, memory, from, to).ppu.stat & 3u8 == 1
            &&& run_clocks(p, memory, from, to).ppu.ly == 144
            &&& run_clocks(p, memory, from, to).ppu.wyc == 0
            &&& !run_clocks(p, memory, from, to).ppu.reach_window
        },
    decreases to - from,
{
    if from < to {
        let r = clock_step(p, memory, from);
        lemma_clock_step(p, memory, from);
        if r.outcome == ClockOutcome::Continue {
            lemma_run_clocks(r.ppu, r.memory, (from + 1) as u64, to);
            lemma_only_stat_requested_trans(
                memory,
                r.memory,
                run_clocks(r.ppu, r.memory, (from + 1) as u64, to).memory,
            );
        } else if r.outcome == ClockOutcome::VBlank {
            lemma_vblank_mode(p, memory, from);
        }
    }
}

proof fn lemma_vblank_mode(p: PpuModel, memory: Seq<u8>, clock: u64)
    requires
        clock_step(p, memory, clock).outcome == ClockOutcome::VBlank,
    ensures
        clock_step(p, memory, clock).ppu.stat & 3u8 == 1,
        clock_step(p, memory, clock).ppu.ly == 144,
        clock_step(p, memory, clock).ppu.wyc == 0,
        !clock_step(p, memory, clock).ppu.reach_window,
{
    reveal(enter_mode);
    reveal(draw_step);
    let (p1, m1) = cycle_start(p, memory, clock);
    let s = p1.stat;
    assert(((s & !3u8) | 1u8) & 3u8 == 1) by (bit_vector);
}

/// `buf` is ordered by decreasing x.
pub open spec fn by_decreasing_x(buf: Seq<Sprite>) -> bool {
    forall|i: int, j: int| 0 <= i < j < buf.len() ==> buf[i].sx >= buf[j].sx
}

proof fn lemma_insert_keeps_order(b: Seq<Sprite>, s: Sprite)
    requires
        by_decreasing_x(b),
    ensures
        by_decreasing_x(b.insert(priority_position(b, s), s)),
        b.insert(priority_position(b, s), s).to_multiset() =~= b.to_multiset().insert(s),
    decreases b.len(),
{
    let pos = priority_position(b, s);
    lemma_priority_position_bounds(b, s);
    let r = b.insert(pos, s);
    b.insert_ensures(pos, s);
    if b.len() > 0 && b[0].sx > s.sx {
        let t = b.drop_first();
        lemma_insert_keeps_order(t, s);
        lemma_priority_position_bounds(t, s);
        t.insert_ensures(priority_position(t, s), s);
        assert(pos == 1 + priority_position(t, s));
        assert(r =~= seq![b[0]] + t.insert(priority_position(t, s), s));
        // every element after the head is at most the head
        assert forall|j: int| 0 < j < r.len() implies r[0].sx >= #[trigger] r[j].sx by {
            assert(r[j] == t.insert(priority_position(t, s), s)[j - 1]);
            t.insert_ensures(priority_position(t, s), s);
            lemma_priority_position_bounds(t, s);
        }
    } else {
        assert(pos == 0);
    }
    assert(r.remove(pos) =~= b);
    broadcast use vstd::seq_lib::group_to_multiset_ensures;
    assert(r.remove(pos).to_multiset() =~= r.to_multiset().remove(s));
    assert(r.to_multiset().count(s) > 0) by {
        assert(r.contains(s));
    }
}

/// The priority order is ordered by decreasing x and holds the same sprites.
pub proof fn lemma_priority_order(sel: Seq<Sprite>)
    ensures
        by_decreasing_x(priority_order(sel)),
        priority_order(sel).to_multiset() =~= sel.to_multiset(),
        priority_order(sel).len() == sel.len(),
    decreases sel.len(),
{
    lemma_priority_order_len(sel);
    if sel.len() > 0 {
        lemma_priority_order(sel.drop_last());
        lemma_insert_keeps_order(priority_order(sel.drop_last()), sel.last());
        broadcast use vstd::seq_lib::group_to_multiset_ensures;
        assert(sel.drop_last().push(sel.last()) =~= sel);
    }
}

/// The positions in `sel` of the sprites of `priority_order(sel)`, in that order.
pub open spec fn priority_order_positions(sel: Seq<Sprite>) -> Seq<int>
    decreases sel.len(),
{
    if sel.len() == 0 {
        Seq::empty()
    } else {
        let b = priority_order(sel.drop_last());
        let idx = priority_order_positions(sel.drop_last());
        idx.insert(priority_position(b, sel.last()), sel.len() - 1)
    }
}

/// Sprite position `i` of `sel` comes before position `j` in drawing order: it has a
/// greater x, or the same x and a later position.
pub open spec fn drawn_before(sel: Seq<Sprite>, i: int, j: int) -> bool {
    sel[i].sx > sel[j].sx || (sel[i].sx == sel[j].sx && i > j)
}

/// The priority order is `sel` sorted by decreasing x, and among sprites of equal x
/// by decreasing position in `sel` (the later OAM entry first): entry `k` of it is
/// the sprite at position `idx[k]` of `sel`, with `idx` a permutation of the
/// positions of `sel` that follows that order.
pub proof fn lemma_priority_order_stable(sel: Seq<Sprite>)
    ensures
        ({
            let r = priority_order(sel);
            let idx = priority_order_positions(sel);
            &&& idx.len() == sel.len()
            &&& r.len() == sel.len()
            &&& forall|k: int| 0 <= k < idx.len() ==> 0 <= #[trigger] idx[k] < sel.len()
            &&& forall|k: int, l: int| 0 <= k < l < idx.len() ==> idx[k] != idx[l]
            &&& forall|k: int| 0 <= k < r.len() ==> #[trigger] r[k] == sel[idx[k]]
            &&& forall|k: int, l: int|
                0 <= k < l < idx.len() ==> drawn_before(sel, #[trigger] idx[k], #[trigger] idx[l])
        }),
    decreases sel.len(),
{
    lemma_priority_order_len(sel);
    if sel.len() > 0 {
        let pre = sel.drop_last();
        let s = sel.last();
        let n = sel.len() - 1;
        lemma_priority_order_stable(pre);
        lemma_priority_order(pre);
        let b = priority_order(pre);
        let bi = priority_order_positions(pre);
        let pos = priority_position(b, s);
        lemma_priority_position_bounds(b, s);
        b.insert_ensures(pos, s);
        bi.insert_ensures(pos, n);
        lemma_priority_position_facts(b, s);
        let r = priority_order(sel);
        let idx = priority_order_positions(sel);
        assert forall|k: int| 0 <= k < r.len() implies #[trigger] r[k] == sel[idx[k]] by {
            if k < pos {
                assert(r[k] == b[k] && idx[k] == bi[k]);
            } else if k > pos {
                assert(r[k] == b[k - 1] && idx[k] == bi[k - 1]);
            }
        }
        assert forall|k: int, l: int|
            0 <= k < l < idx.len() implies drawn_before(sel, #[trigger] idx[k], #[trigger] idx[l]) by {
            if k < pos && l < pos {
                assert(idx[k] == bi[k] && idx[l] == bi[l]);
                assert(drawn_before(pre, bi[k], bi[l]));
            } else if k < pos && l == pos {
                assert(idx[k] == bi[k] && idx[l] == n);
                assert(b[k].sx > s.sx);
            } else if k < pos && l > pos {
                assert(idx[k] == bi[k] && idx[l] == bi[l - 1]);
                assert(drawn_before(pre, bi[k], bi[l - 1]));
            } else if k == pos {
                assert(idx[k] == n && idx[l] == bi[l - 1]);
                assert(b[l - 1].sx <= s.sx);
                assert(bi[l - 1] < n);
            } else {
                assert(idx[k] == bi[k - 1] && idx[l] == bi[l - 1]);
                assert(drawn_before(pre, bi[k - 1], bi[l - 1]));
            }
        }
        assert forall|k: int, l: int| 0 <= k < l < idx.len() implies idx[k] != idx[l] by {
            assert(drawn_before(sel, idx[k], idx[l]));
        }
    }
}

/// The entries of a buffer before the priority position of `s` have a greater x,
/// and, in a buffer ordered by decreasing x, those from it on have an x that is not
/// greater.
proof fn lemma_priority_position_facts(b: Seq<Sprite>, s: Sprite)
    requires
        by_decreasing_x(b),
    ensures
        forall|k: int| 0 <= k < priority_position(b, s) ==> #[trigger] b[k].sx > s.sx,
        forall|k: int| priority_position(b, s) <= k < b.len() ==> #[trigger] b[k].sx <= s.sx,
    decreases b.len(),
{
    lemma_priority_position_bounds(b, s);
    if b.len() > 0 && b[0].sx > s.sx {
        let t = b.drop_first();
        lemma_priority_position_facts(t, s);
        assert forall|k: int| 0 <= k < priority_position(b, s) implies #[trigger] b[k].sx > s.sx by {
            if k > 0 {
                assert(b[k] == t[k - 1]);
            }
        }
        assert forall|k: int| priority_position(b, s) <= k < b.len() implies #[trigger] b[k].sx <= s.sx by {
            assert(b[k] == t[k - 1]);
        }
    }
}

/// Every sprite that the OAM search selects shows on the line.
proof fn lemma_sprites_on_line_show(memory: Seq<u8>, ly: u8, height: u16, n: nat)
    ensures
        forall|i: int|
            0 <= i < sprites_on_line(memory, ly, height, n).len() ==> sprite_on_line(
                #[trigger] sprites_on_line(memory, ly, height, n)[i],
                ly,
                height,
            ),
    decreases n,
{
    if n > 0 {
        lemma_sprites_on_line_show(memory, ly, height, (n - 1) as nat);
        let prev = sprites_on_line(memory, ly, height, (n - 1) as nat);
        let cur = sprites_on_line(memory, ly, height, n);
        assert forall|i: int| 0 <= i < cur.len() implies sprite_on_line(
            #[trigger] cur[i],
            ly,
            height,
        ) by {
            if i < prev.len() {
                assert(cur[i] == prev[i]);
            }
        }
    }
}

/// After the OAM search, the first `sprite_buffer_len` entries of the sprite buffer
/// are the first (at most ten) OAM sprites that show on line LY, ordered by
/// decreasing x, so that the last one (the lowest x) has the highest priority.
pub proof fn lemma_search_objects(p: PpuModel, memory: Seq<u8>)
    requires
        p.sprite_buffer.len() == 10,
    ensures
        ({
            let q = search_objects(p, memory);
            let sel = sprites_on_line(memory, p.ly, sprite_height(p.lcdc), 40);
            let buf = q.sprite_buffer.subrange(0, q.sprite_buffer_len as int);
            &&& q.sprite_buffer.len() == 10
            &&& q.sprite_buffer_len <= 10
            &&& q.sprite_buffer_len == sel.len()
            &&& buf.to_multiset() =~= sel.to_multiset()
            &&& by_decreasing_x(buf)
            &&& forall|i: int|
                0 <= i < buf.len() ==> sprite_on_line(#[trigger] buf[i], p.ly, sprite_height(p.lcdc))
        }),
{
    let h = sprite_height(p.lcdc);
    let sel = sprites_on_line(memory, p.ly, h, 40);
    lemma_sprites_on_line_len(memory, p.ly, h, 40);
    lemma_priority_order(sel);
    lemma_sprites_on_line_show(memory, p.ly, h, 40);
    let q = search_objects(p, memory);
    let buf = q.sprite_buffer.subrange(0, q.sprite_buffer_len as int);
    assert(buf =~= priority_order(sel));
    broadcast use vstd::seq_lib::group_to_multiset_ensures;
    assert forall|i: int| 0 <= i < buf.len() implies sprite_on_line(#[trigger] buf[i], p.ly, h) by {
        assert(priority_order(sel).to_multiset().count(buf[i]) > 0);
        assert(sel.contains(buf[i]));
    }
}

/// Drawing sprites on line `ly` changes nothing outside that line and keeps the
/// screen made of shades 0 to 3.
proof fn lemma_apply_sprites(
    rom: Seq<u8>,
    ly: u8,
    lcdc: u8,
    screen: Seq<u8>,
    sprites: Seq<Sprite>,
)
    ensures
        apply_sprites(rom, ly, lcdc, screen, sprites).len() == screen.len(),
        shades_valid(screen) ==> shades_valid(apply_sprites(rom, ly, lcdc, screen, sprites)),
        forall|i: int|
            0 <= i < screen.len() && !(line_start(ly) <= i < line_start(ly) + 160)
                ==> #[trigger] apply_sprites(rom, ly, lcdc, screen, sprites)[i] == screen[i],
    decreases sprites.len(),
{
    if sprites.len() > 0 {
        let prev = apply_sprites(rom, ly, lcdc, screen, sprites.drop_last());
        lemma_apply_sprites(rom, ly, lcdc, screen, sprites.drop_last());
        let s = sprites.last();
        let r = apply_sprite(rom, ly, lcdc, prev, s);
        assert forall|i: int| shades_valid(screen) && 0 <= i < r.len() implies #[trigger] r[i] < 4 by {
            let x = i - line_start(ly) - (s.sx as int - 8);
            lemma_palette_shade_small(sprite_palette(rom, s), sprite_line_color(rom, ly, lcdc, s, x));
        }
    }
}

/// `draw_scan_line` changes nothing outside line LY and keeps the screen made of
/// shades 0 to 3.
pub proof fn lemma_scan_line(rom: Seq<u8>, p: PpuModel)
    requires
        p.screen.len() == 23040,
    ensures
        scan_line_screen(rom, p).len() == 23040,
        shades_valid(p.screen) ==> shades_valid(scan_line_screen(rom, p)),
        forall|i: int|
            0 <= i < 23040 && !(line_start(p.ly) <= i < line_start(p.ly) + 160)
                ==> #[trigger] scan_line_screen(rom, p)[i] == p.screen[i],
{
    let s1 = line_after_background(rom, p);
    let map: int = if p.lcdc & 0x08u8 != 0 {
        0x9C00
    } else {
        0x9800
    };
    let wmap: int = if p.lcdc & 0x40u8 != 0 {
        0x9C00
    } else {
        0x9800
    };
    assert forall|i: int| shades_valid(p.screen) && 0 <= i < s1.len() implies #[trigger] s1[i] < 4 by {
        let lx = i - line_start(p.ly);
        let px = (lx + p.scx) % 256;
        let py = (p.scy + p.ly) % 256;
        let tile = bg_tile_index(rom[map + px / 8 + (py / 8) * 32], p.lcdc);
        lemma_palette_shade_small(p.bgp, tile_pixel_color(rom, tile, px % 8, py % 8));
    }
    let s2 = line_after_window(rom, p, s1);
    assert forall|i: int| shades_valid(s1) && 0 <= i < s2.len() implies #[trigger] s2[i] < 4 by {
        let lx = i - line_start(p.ly);
        let px = lx + 7 - p.wx;
        let py = p.wyc as int;
        let tile = bg_tile_index(rom[wmap + px / 8 + (py / 8) * 32], p.lcdc);
        lemma_palette_shade_small(p.bgp, tile_pixel_color(rom, tile, px % 8, py % 8));
    }
    lemma_apply_sprites(
        rom,
        p.ly,
        p.lcdc,
        s2,
        p.sprite_buffer.subrange(0, p.sprite_buffer_len as int),
    );
}

proof fn lemma_tile_pixels_upto(
    rom: Seq<u8>,
    tx: int,
    ty: int,
    index: int,
    palette: u8,
    alpha: bool,
    n: nat,
)
    requires
        n <= 64,
        tx + 7 <= i32::MAX,
        ty + 7 <= i32::MAX,
        i32::MIN <= tx,
        i32::MIN <= ty,
    ensures
        tile_pixels_upto(rom, tx, ty, index, palette, alpha, n).len() <= n,
        !alpha ==> tile_pixels_upto(rom, tx, ty, index, palette, alpha, n).len() == n,
        !alpha ==> forall|k: int|
            0 <= k < n ==> #[trigger] tile_pixels_upto(rom, tx, ty, index, palette, alpha, n)[k]
                == ((tx + k % 8) as i32, (ty + k / 8) as i32, palette_shade(
                palette,
                tile_pixel_color(rom, index, k % 8, k / 8),
            )),
        forall|k: int|
            0 <= k < tile_pixels_upto(rom, tx, ty, index, palette, alpha, n).len() ==> {
                let px = #[trigger] tile_pixels_upto(rom, tx, ty, index, palette, alpha, n)[k];
                &&& tx <= px.0 < tx + 8
                &&& ty <= px.1 < ty + 8
                &&& px.2 < 4
            },
    decreases n,
{
    if n > 0 {
        lemma_tile_pixels_upto(rom, tx, ty, index, palette, alpha, (n - 1) as nat);
        let x = (n - 1) % 8;
        let y = (n - 1) / 8;
        lemma_palette_shade_small(palette, tile_pixel_color(rom, index, x, y));
        let prev = tile_pixels_upto(rom, tx, ty, index, palette, alpha, (n - 1) as nat);
        let cur = tile_pixels_upto(rom, tx, ty, index, palette, alpha, n);
        assert forall|k: int| 0 <= k < cur.len() implies {
            let px = #[trigger] cur[k];
            &&& tx <= px.0 < tx + 8
            &&& ty <= px.1 < ty + 8
            &&& px.2 < 4
        } by {
            if k < prev.len() {
                assert(cur[k] == prev[k]);
            }
        }
    }
}

/// A drawn tile has its pixels inside the 8x8 square at (`tx`, `ty`), in shades 0
/// to 3; without transparency it has all 64 of them, pixel `k` being column `k % 8`
/// of row `k / 8` of the tile.
pub proof fn lemma_tile_pixels(rom: Seq<u8>, tx: int, ty: int, index: int, palette: u8, alpha: bool)
    requires
        tx + 7 <= i32::MAX,
        ty + 7 <= i32::MAX,
        i32::MIN <= tx,
        i32::MIN <= ty,
    ensures
        tile_pixels(rom, tx, ty, index, palette, alpha).len() <= 64,
        !alpha ==> tile_pixels(rom, tx, ty, index, palette, alpha).len() == 64,
        !alpha ==> forall|k: int|
            0 <= k < 64 ==> #[trigger] tile_pixels(rom, tx, ty, index, palette, alpha)[k] == (
                (tx + k % 8) as i32,
                (ty + k / 8) as i32,
                palette_shade(palette, tile_pixel_color(rom, index, k % 8, k / 8)),
            ),
        forall|k: int|
            0 <= k < tile_pixels(rom, tx, ty, index, palette, alpha).len() ==> {
                let px = #[trigger] tile_pixels(rom, tx, ty, index, palette, alpha)[k];
                &&& tx <= px.0 < tx + 8
                &&& ty <= px.1 < ty + 8
                &&& px.2 < 4
            },
{
    lemma_tile_pixels_upto(rom, tx, ty, index, palette, alpha, 64);
}

/// The registers that only the CPU writes, and the interrupt-enable bits of STAT,
/// are the same in `a` and `b`.
pub open spec fn same_cpu_registers(a: PpuModel, b: PpuModel) -> bool {
    &&& a.lcdc == b.lcdc
    &&& a.scy == b.scy
    &&& a.scx == b.scx
    &&& a.lyc == b.lyc
    &&& a.bgp == b.bgp
    &&& a.obp0 == b.obp0
    &&& a.obp1 == b.obp1
    &&& a.wy == b.wy
    &&& a.wx == b.wx
    &&& a.stat & 0xF8u8 == b.stat & 0xF8u8
}

proof fn lemma_enter_mode_registers(p: PpuModel, memory: Seq<u8>, mode: u8)
    requires
        mode <= 3,
    ensures
        same_cpu_registers(p, enter_mode(p, memory, mode).0),
{
    reveal(enter_mode);
    let s = p.stat;
    assert(((s & !3u8) | mode) & 0xF8u8 == s & 0xF8u8) by (bit_vector)
        requires
            mode <= 3,
    ;
}

proof fn lemma_pixel_step_registers(p: PpuModel)
    ensures
        same_cpu_registers(p, pixel_step(p).0),
{
}

/// A clock cycle changes none of the registers that only the CPU writes (LCDC, SCY,
/// SCX, LYC, BGP, OBP0, OBP1, WY, WX), nor the interrupt-enable bits of STAT.
pub proof fn lemma_clock_step_registers(p: PpuModel, memory: Seq<u8>, clock: u64)
    ensures
        same_cpu_registers(p, clock_step(p, memory, clock).ppu),
{
    let lx = clock % 456;
    let (p1, m1) = cycle_start(p, memory, clock);
    let s = p.stat;
    assert((s | 4u8) & 0xF8u8 == s & 0xF8u8) by (bit_vector);
    assert(same_cpu_registers(p, p1));
    if p1.stat & 3u8 == 0 && p1.ly == 144 {
        lemma_enter_mode_registers(p1, m1, 1);
    } else {
        reveal(mode_transition);
        let mode = p1.stat & 3u8;
        if mode == 0 {
            lemma_enter_mode_registers(p1, m1, 2);
        } else if mode == 1 {
            lemma_enter_mode_registers(PpuModel { wyc: 0, ..p1 }, m1, 2);
        } else if mode == 2 {
            lemma_enter_mode_registers(p1, m1, 3);
        } else {
            lemma_enter_mode_registers(p1, m1, 0);
        }
        let (p2, m2) = mode_transition(p1, m1, lx);
        assert(same_cpu_registers(p, p2));
        if p2.stat & 3u8 == 3 {
            reveal(draw_step);
            let p1d = PpuModel { fetcher_cycle: !p2.fetcher_cycle, ..p2 };
            lemma_pixel_step_registers(p1d);
            if p1d.fetcher_cycle {
                let fetched = if p1d.sprite_fetching {
                    crate::model::sprite_fetch_step(p1d, m2)
                } else {
                    crate::model::background_fetch_step(p1d, m2)
                };
                if let Some(p3) = fetched {
                    lemma_pixel_step_registers(p3);
                }
            }
        }
    }
}

/// A run of clock cycles changes none of the registers that only the CPU writes,
/// nor the interrupt-enable bits of STAT.
pub proof fn lemma_run_clocks_registers(p: PpuModel, memory: Seq<u8>, from: u64, to: u64)
    ensures
        same_cpu_registers(p, run_clocks(p, memory, from, to).ppu),
    decreases to - from,
{
    if from < to {
        let r = clock_step(p, memory, from);
        lemma_clock_step_registers(p, memory, from);
        if r.outcome == ClockOutcome::Continue {
            lemma_run_clocks_registers(r.ppu, r.memory, (from + 1) as u64, to);
        }
    }
}

/// Cycles `from..to` all run to completion: none enters V-Blank or faults.
pub open spec fn runs_through(p: PpuModel, memory: Seq<u8>, from: u64, to: u64) -> bool
    decreases to - from,
{
    if from >= to {
        true
    } else {
        let r = clock_step(p, memory, from);
        r.outcome == ClockOutcome::Continue && runs_through(r.ppu, r.memory, (from + 1) as u64, to)
    }
}

/// `p` with the clock of the last update set to `t`.
pub open spec fn with_last(p: PpuModel, t: u64) -> PpuModel {
    PpuModel { last_clock_count: t, ..p }
}

proof fn lemma_enter_mode_last(p: PpuModel, memory: Seq<u8>, mode: u8, t: u64)
    ensures
        enter_mode(with_last(p, t), memory, mode).0 == with_last(enter_mode(p, memory, mode).0, t),
        enter_mode(with_last(p, t), memory, mode).1 == enter_mode(p, memory, mode).1,
{
    reveal(enter_mode);
}

/// A clock cycle does not depend on the clock of the last update, and keeps it.
proof fn lemma_clock_step_last(p: PpuModel, memory: Seq<u8>, clock: u64, t: u64)
    ensures
        clock_step(with_last(p, t), memory, clock).ppu == with_last(
            clock_step(p, memory, clock).ppu,
            t,
        ),
        clock_step(with_last(p, t), memory, clock).memory == clock_step(p, memory, clock).memory,
        clock_step(with_last(p, t), memory, clock).outcome == clock_step(
            p,
            memory,
            clock,
        ).outcome,
{
    let lx = clock % 456;
    let q = with_last(p, t);
    let (p1, m1) = cycle_start(p, memory, clock);
    let (q1, n1) = cycle_start(q, memory, clock);
    assert(q1 == with_last(p1, t));
    assert(n1 == m1);
    if p1.stat & 3u8 == 0 && p1.ly == 144 {
        lemma_enter_mode_last(p1, m1, 1, t);
    } else {
        reveal(mode_transition);
        lemma_enter_mode_last(p1, m1, 0, t);
        lemma_enter_mode_last(p1, m1, 2, t);
        lemma_enter_mode_last(p1, m1, 3, t);
        lemma_enter_mode_last(PpuModel { wyc: 0, ..p1 }, m1, 2, t);
        assert(with_last(PpuModel { wyc: 0, ..p1 }, t) == PpuModel { wyc: 0, ..q1 });
        let (p2, m2) = mode_transition(p1, m1, lx);
        let (q2, n2) = mode_transition(q1, n1, lx);
        assert(q2 == with_last(p2, t) && n2 == m2);
        if p2.stat & 3u8 == 3 {
            lemma_draw_step_last(p2, m2, t);
        }
    }
}

proof fn lemma_pixel_step_last(p: PpuModel, t: u64)
    ensures
        pixel_step(with_last(p, t)).0 == with_last(pixel_step(p).0, t),
        pixel_step(with_last(p, t)).1 == pixel_step(p).1,
{
}

proof fn lemma_fetch_last(p: PpuModel, memory: Seq<u8>, t: u64)
    ensures
        crate::model::sprite_fetch_step(with_last(p, t), memory) == match crate::model::sprite_fetch_step(
            p,
            memory,
        ) {
            Some(q) => Some(with_last(q, t)),
            None => None,
        },
        crate::model::background_fetch_step(with_last(p, t), memory) == match crate::model::background_fetch_step(
            p,
            memory,
        ) {
            Some(q) => Some(with_last(q, t)),
            None => None,
        },
{
}

proof fn lemma_draw_step_last(p: PpuModel, memory: Seq<u8>, t: u64)
    ensures
        draw_step(with_last(p, t), memory).0 == with_last(draw_step(p, memory).0, t),
        draw_step(with_last(p, t), memory).1 == draw_step(p, memory).1,
{
    reveal(draw_step);
    let p1 = PpuModel { fetcher_cycle: !p.fetcher_cycle, ..p };
    assert(with_last(p1, t) == PpuModel { fetcher_cycle: !p.fetcher_cycle, ..with_last(p, t) });
    lemma_pixel_step_last(p1, t);
    lemma_fetch_last(p1, memory, t);
    let fetched = if p1.sprite_fetching {
        crate::model::sprite_fetch_step(p1, memory)
    } else {
        crate::model::background_fetch_step(p1, memory)
    };
    if let Some(p2) = fetched {
        lemma_pixel_step_last(p2, t);
    }
}

proof fn lemma_run_clocks_last(p: PpuModel, memory: Seq<u8>, from: u64, to: u64, t: u64)
    ensures
        run_clocks(with_last(p, t), memory, from, to).outcome == run_clocks(
            p,
            memory,
            from,
            to,
        ).outcome,
        run_clocks(with_last(p, t), memory, from, to).memory == run_clocks(
            p,
            memory,
            from,
            to,
        ).memory,
        run_clocks(p, memory, from, to).outcome != ClockOutcome::Fault ==> run_clocks(
            with_last(p, t),
            memory,
            from,
            to,
        ).ppu == run_clocks(p, memory, from, to).ppu,
    decreases to - from,
{
    if from < to {
        lemma_clock_step_last(p, memory, from, t);
        let r = clock_step(p, memory, from);
        if r.outcome == ClockOutcome::Continue {
            lemma_run_clocks_last(r.ppu, r.memory, (from + 1) as u64, to, t);
        }
    }
}

proof fn lemma_finished_runs_through(p: PpuModel, memory: Seq<u8>, from: u64, to: u64)
    requires
        run_clocks(p, memory, from, to).outcome == ClockOutcome::Continue,
    ensures
        runs_through(p, memory, from, to),
    decreases to - from,
{
    if from < to {
        let r = clock_step(p, memory, from);
        lemma_finished_runs_through(r.ppu, r.memory, (from + 1) as u64, to);
    }
}

/// Updating in two steps, first to `mid` then to `to`, gives the state that one
/// update to `to` gives, whenever the first update finished (stopped neither at
/// V-Blank nor at a fault).
pub proof fn lemma_update_split(p: PpuModel, memory: Seq<u8>, from: u64, mid: u64, to: u64)
    requires
        from <= mid <= to,
        run_clocks(p, memory, from, mid).outcome == ClockOutcome::Continue,
    ensures
        ({
            let first = run_clocks(p, memory, from, mid);
            let second = run_clocks(first.ppu, first.memory, mid, to);
            let whole = run_clocks(p, memory, from, to);
            &&& second.outcome == whole.outcome
            &&& second.memory == whole.memory
            &&& whole.outcome != ClockOutcome::Fault ==> second.ppu == whole.ppu
        }),
{
    lemma_finished_runs_through(p, memory, from, mid);
    lemma_run_clocks_split(p, memory, from, mid, to);
}

proof fn lemma_run_clocks_split(p: PpuModel, memory: Seq<u8>, from: u64, mid: u64, to: u64)
    requires
        from <= mid <= to,
        runs_through(p, memory, from, mid),
    ensures
        ({
            let first = run_clocks(p, memory, from, mid);
            let second = run_clocks(first.ppu, first.memory, mid, to);
            let whole = run_clocks(p, memory, from, to);
            &&& first.outcome == ClockOutcome::Continue
            &&& second.outcome == whole.outcome
            &&& second.memory == whole.memory
            &&& whole.outcome != ClockOutcome::Fault ==> second.ppu == whole.ppu
        }),
    decreases mid - from,
{
    if from < mid {
        let r = clock_step(p, memory, from);
        lemma_run_clocks_split(r.ppu, r.memory, (from + 1) as u64, mid, to);
    } else {
        lemma_run_clocks_last(p, memory, mid, to, mid);
    }
}

/// The memory with the V-Blank interrupt requested (bit 0 of IF).
pub open spec fn request_v_blank(memory: Seq<u8>) -> Seq<u8> {
    memory.update(IF as int, memory[IF as int] | 1u8)
}

/// The cycles `from..to` run without a stop at V-Blank: at each V-Blank entry the
/// V-Blank interrupt is requested and the run goes on. The outcome is `Continue`
/// when the run reached `to`, `Fault` when a cycle faulted.
pub open spec fn run_with_v_blank(p: PpuModel, memory: Seq<u8>, from: u64, to: u64) -> StepResult
    decreases to - from,
{
    if from >= to {
        StepResult { ppu: with_last(p, to), memory, outcome: ClockOutcome::Continue }
    } else {
        let r = clock_step(p, memory, from);
        match r.outcome {
            ClockOutcome::Continue => run_with_v_blank(r.ppu, r.memory, (from + 1) as u64, to),
            ClockOutcome::VBlank => run_with_v_blank(
                r.ppu,
                request_v_blank(r.memory),
                (from + 1) as u64,
                to,
            ),
            ClockOutcome::Fault => r,
        }
    }
}

proof fn lemma_run_with_v_blank_last(p: PpuModel, memory: Seq<u8>, from: u64, to: u64, t: u64)
    ensures
        run_with_v_blank(with_last(p, t), memory, from, to).outcome == run_with_v_blank(
            p,
            memory,
            from,
            to,
        ).outcome,
        run_with_v_blank(with_last(p, t), memory, from, to).memory == run_with_v_blank(
            p,
            memory,
            from,
            to,
        ).memory,
        run_with_v_blank(p, memory, from, to).outcome != ClockOutcome::Fault ==> run_with_v_blank(
            with_last(p, t),
            memory,
            from,
            to,
        ).ppu == run_with_v_blank(p, memory, from, to).ppu,
    decreases to - from,
{
    if from < to {
        lemma_clock_step_last(p, memory, from, t);
        let r = clock_step(p, memory, from);
        if r.outcome == ClockOutcome::Continue {
            lemma_run_with_v_blank_last(r.ppu, r.memory, (from + 1) as u64, to, t);
        } else if r.outcome == ClockOutcome::VBlank {
            lemma_run_with_v_blank_last(r.ppu, request_v_blank(r.memory), (from + 1) as u64, to, t);
        }
    }
}

/// One step of the update protocol (`Ppu::update`, then, after a V-Blank stop,
/// `Ppu::end_v_blank` and `Ppu::update` again, until it finishes) keeps to the
/// uninterrupted run over all pending cycles: a finished update is that run; an
/// update that stops at V-Blank has moved the clock of the last update forward, and
/// requesting the V-Blank interrupt and running on from there gives the same run;
/// an update that faults is a run that faults.
pub proof fn lemma_update_protocol(p: PpuModel, memory: Seq<u8>, from: u64, to: u64)
    ensures
        ({
            let first = run_clocks(p, memory, from, to);
            let whole = run_with_v_blank(p, memory, from, to);
            &&& first.outcome == ClockOutcome::Continue ==> {
                &&& whole.outcome == ClockOutcome::Continue
                &&& whole.ppu == first.ppu
                &&& whole.memory == first.memory
            }
            &&& first.outcome == ClockOutcome::Fault ==> whole.outcome == ClockOutcome::Fault
            &&& first.outcome == ClockOutcome::VBlank ==> {
                let rest = run_with_v_blank(
                    first.ppu,
                    request_v_blank(first.memory),
                    first.ppu.last_clock_count,
                    to,
                );
                &&& from < first.ppu.last_clock_count <= to
                &&& rest.outcome == whole.outcome
                &&& rest.memory == whole.memory
                &&& whole.outcome != ClockOutcome::Fault ==> rest.ppu == whole.ppu
            }
        }),
    decreases to - from,
{
    if from < to {
        let r = clock_step(p, memory, from);
        if r.outcome == ClockOutcome::Continue {
            lemma_update_protocol(r.ppu, r.memory, (from + 1) as u64, to);
            let first = run_clocks(r.ppu, r.memory, (from + 1) as u64, to);
            assert(first.outcome == ClockOutcome::VBlank ==> from + 1 < first.ppu.last_clock_count);
        } else if r.outcome == ClockOutcome::VBlank {
            lemma_run_with_v_blank_last(
                r.ppu,
                request_v_blank(r.memory),
                (from + 1) as u64,
                to,
                (from + 1) as u64,
            );
        }
    }
}

proof fn lemma_finished_last(p: PpuModel, memory: Seq<u8>, from: u64, to: u64)
    requires
        run_clocks(p, memory, from, to).outcome == ClockOutcome::Continue,
    ensures
        run_clocks(p, memory, from, to).ppu.last_clock_count == to,
    decreases to - from,
{
    if from < to {
        let r = clock_step(p, memory, from);
        lemma_finished_last(r.ppu, r.memory, (from + 1) as u64, to);
    }
}

/// Updating again, with no new clock cycle, after an update that finished changes
/// nothing.
pub proof fn lemma_update_again(p: PpuModel, memory: Seq<u8>, to: u64)
    requires
        run_clocks(p, memory, p.last_clock_count, to).outcome == ClockOutcome::Continue,
    ensures
        ({
            let first = run_clocks(p, memory, p.last_clock_count, to);
            let second = run_clocks(first.ppu, first.memory, first.ppu.last_clock_count, to);
            &&& second.ppu == first.ppu
            &&& second.memory == first.memory
            &&& second.outcome == ClockOutcome::Continue
        }),
{
    lemma_finished_last(p, memory, p.last_clock_count, to);
    let first = run_clocks(p, memory, p.last_clock_count, to);
    assert(with_last(first.ppu, to) == first.ppu);
}

proof fn lemma_enter_mode_buffer_len(p: PpuModel, memory: Seq<u8>, mode: u8)
    requires
        p.sprite_buffer_len <= 10,
    ensures
        enter_mode(p, memory, mode).0.sprite_buffer_len <= 10,
{
    reveal(enter_mode);
    let p1 = PpuModel { stat: (p.stat & !3u8) | mode, ..p };
    lemma_sprites_on_line_len(memory, p1.ly, sprite_height(p1.lcdc), 40);
}

proof fn lemma_draw_step_buffer_len(p: PpuModel, memory: Seq<u8>)
    requires
        p.sprite_buffer_len <= 10,
    ensures
        draw_step(p, memory).0.sprite_buffer_len <= 10,
{
    reveal(draw_step);
}

/// A clock cycle keeps the sprite buffer length at most ten.
pub proof fn lemma_clock_step_buffer_len(p: PpuModel, memory: Seq<u8>, clock: u64)
    requires
        p.sprite_buffer_len <= 10,
    ensures
        clock_step(p, memory, clock).ppu.sprite_buffer_len <= 10,
{
    let lx = clock % 456;
    let (p1, m1) = cycle_start(p, memory, clock);
    if p1.stat & 3u8 == 0 && p1.ly == 144 {
        lemma_enter_mode_buffer_len(p1, m1, 1);
    } else {
        reveal(mode_transition);
        lemma_enter_mode_buffer_len(p1, m1, 0);
        lemma_enter_mode_buffer_len(p1, m1, 2);
        lemma_enter_mode_buffer_len(p1, m1, 3);
        lemma_enter_mode_buffer_len(PpuModel { wyc: 0, ..p1 }, m1, 2);
        let (p2, m2) = mode_transition(p1, m1, lx);
        if p2.stat & 3u8 == 3 {
            lemma_draw_step_buffer_len(p2, m2);
        }
    }
}

/// A run of clock cycles keeps the sprite buffer length at most ten.
pub proof fn lemma_run_clocks_buffer_len(p: PpuModel, memory: Seq<u8>, from: u64, to: u64)
    requires
        p.sprite_buffer_len <= 10,
    ensures
        run_clocks(p, memory, from, to).ppu.sprite_buffer_len <= 10,
    decreases to - from,
{
    if from < to {
        lemma_clock_step_buffer_len(p, memory, from);
        let r = clock_step(p, memory, from);
        if r.outcome == ClockOutcome::Continue {
            lemma_run_clocks_buffer_len(r.ppu, r.memory, (from + 1) as u64, to);
        }
    }
}

/// What the update protocol gives over the cycles `from..to`: `Ppu::update`, and
/// after each V-Blank stop `Ppu::end_v_blank` and `Ppu::update` again, until an
/// update finishes or faults (with no V-Blank hook, or a hook that changes neither
/// the unit nor the memory). The guard on the recursion always holds
/// (`lemma_update_protocol`).
pub open spec fn update_loop(p: PpuModel, memory: Seq<u8>, from: u64, to: u64) -> StepResult
    decreases to - from,
{
    let r = run_clocks(p, memory, from, to);
    if r.outcome == ClockOutcome::VBlank && from < r.ppu.last_clock_count
        && r.ppu.last_clock_count <= to {
        update_loop(r.ppu, request_v_blank(r.memory), r.ppu.last_clock_count, to)
    } else {
        r
    }
}

proof fn lemma_run_with_v_blank_finished_last(p: PpuModel, memory: Seq<u8>, from: u64, to: u64)
    requires
        run_with_v_blank(p, memory, from, to).outcome == ClockOutcome::Continue,
    ensures
        run_with_v_blank(p, memory, from, to).ppu.last_clock_count == to,
    decreases to - from,
{
    if from < to {
        let r = clock_step(p, memory, from);
        if r.outcome == ClockOutcome::Continue {
            lemma_run_with_v_blank_finished_last(r.ppu, r.memory, (from + 1) as u64, to);
        } else if r.outcome == ClockOutcome::VBlank {
            lemma_run_with_v_blank_finished_last(
                r.ppu,
                request_v_blank(r.memory),
                (from + 1) as u64,
                to,
            );
        }
    }
}

/// The update protocol runs every pending cycle once, requesting the V-Blank
/// interrupt at each V-Blank entry: it faults when the uninterrupted run faults,
/// and gives its state otherwise.
pub proof fn lemma_update_loop_is_run(p: PpuModel, memory: Seq<u8>, from: u64, to: u64)
    ensures
        ({
            let l = update_loop(p, memory, from, to);
            let whole = run_with_v_blank(p, memory, from, to);
            &&& (l.outcome == ClockOutcome::Fault) == (whole.outcome == ClockOutcome::Fault)
            &&& l.outcome != ClockOutcome::VBlank
            &&& whole.outcome != ClockOutcome::Fault ==> l.ppu == whole.ppu && l.memory
                == whole.memory
        }),
    decreases to - from,
{
    lemma_update_protocol(p, memory, from, to);
    lemma_run_with_v_blank_not_vblank(p, memory, from, to);
    let r = run_clocks(p, memory, from, to);
    if r.outcome == ClockOutcome::VBlank {
        lemma_update_loop_is_run(
            r.ppu,
            request_v_blank(r.memory),
            r.ppu.last_clock_count,
            to,
        );
    }
}

proof fn lemma_run_with_v_blank_not_vblank(p: PpuModel, memory: Seq<u8>, from: u64, to: u64)
    ensures
        run_with_v_blank(p, memory, from, to).outcome != ClockOutcome::VBlank,
    decreases to - from,
{
    if from < to {
        let r = clock_step(p, memory, from);
        if r.outcome == ClockOutcome::Continue {
            lemma_run_with_v_blank_not_vblank(r.ppu, r.memory, (from + 1) as u64, to);
        } else if r.outcome == ClockOutcome::VBlank {
            lemma_run_with_v_blank_not_vblank(
                r.ppu,
                request_v_blank(r.memory),
                (from + 1) as u64,
                to,
            );
        }
    }
}

proof fn lemma_run_with_v_blank_split(p: PpuModel, memory: Seq<u8>, from: u64, mid: u64, to: u64)
    requires
        from <= mid <= to,
        run_with_v_blank(p, memory, from, mid).outcome == ClockOutcome::Continue,
    ensures
        ({
            let first = run_with_v_blank(p, memory, from, mid);
            let second = run_with_v_blank(first.ppu, first.memory, mid, to);
            let whole = run_with_v_blank(p, memory, from, to);
            &&& second.outcome == whole.outcome
            &&& second.memory == whole.memory
            &&& whole.outcome != ClockOutcome::Fault ==> second.ppu == whole.ppu
        }),
    decreases mid - from,
{
    if from < mid {
        let r = clock_step(p, memory, from);
        if r.outcome == ClockOutcome::Continue {
            lemma_run_with_v_blank_split(r.ppu, r.memory, (from + 1) as u64, mid, to);
        } else {
            lemma_run_with_v_blank_split(
                r.ppu,
                request_v_blank(r.memory),
                (from + 1) as u64,
                mid,
                to,
            );
        }
    } else {
        lemma_run_with_v_blank_last(p, memory, mid, to, mid);
    }
}

/// Updating up to `mid` and then up to `to`, each time with the full update
/// protocol, gives what updating up to `to` at once gives, V-Blank stops included:
/// every cycle from the last update on is run exactly once, however the range is
/// split across calls (when the first part does not fault).
pub proof fn lemma_update_loop_split(p: PpuModel, memory: Seq<u8>, from: u64, mid: u64, to: u64)
    requires
        from <= mid <= to,
        update_loop(p, memory, from, mid).outcome != ClockOutcome::Fault,
    ensures
        ({
            let first = update_loop(p, memory, from, mid);
            let second = update_loop(first.ppu, first.memory, first.ppu.last_clock_count, to);
            let whole = update_loop(p, memory, from, to);
            &&& first.ppu.last_clock_count == mid
            &&& second.outcome == whole.outcome
            &&& whole.outcome != ClockOutcome::Fault ==> second.ppu == whole.ppu
                && second.memory == whole.memory
        }),
{
    let first = update_loop(p, memory, from, mid);
    lemma_update_loop_is_run(p, memory, from, mid);
    lemma_run_with_v_blank_not_vblank(p, memory, from, mid);
    let rfirst = run_with_v_blank(p, memory, from, mid);
    assert(rfirst.outcome == ClockOutcome::Continue);
    lemma_run_with_v_blank_finished_last(p, memory, from, mid);
    lemma_run_with_v_blank_split(p, memory, from, mid, to);
    lemma_update_loop_is_run(first.ppu, first.memory, mid, to);
    lemma_update_loop_is_run(p, memory, from, to);
}

} // verus!
