//! Drawing one whole scanline of the screen at once from the registers and the
//! video memory.
use crate::draw::tile_pixel_color;
use crate::fifo::{lemma_tile_color_small, tile_color};
use crate::model::{bg_tile_index, palette_shade};
use crate::ppu::{Ppu, PpuModel, Sprite, SCREEN_LEN};
use vstd::prelude::*;

verus! {

broadcast use crate::ppu::PpuInternals::lemma_view_is_fields;

/// The shade of pixel (`px`, `py`) of the 32x32 tile map at `map`.
pub open spec fn map_pixel_shade(rom: Seq<u8>, map: int, lcdc: u8, palette: u8, px: int, py: int) -> u8 {
    let i = px / 8 + (py / 8) * 32;
    let tile = bg_tile_index(rom[map + i], lcdc);
    palette_shade(palette, tile_pixel_color(rom, tile, px % 8, py % 8))
}

/// The first screen index of line `ly`.
pub open spec fn line_start(ly: u8) -> int {
    ly as int * 160
}

/// The screen after the background pass: line LY holds the background shifted by
/// (SCX, SCY), or shade 0 when the background is disabled.
pub open spec fn line_after_background(rom: Seq<u8>, p: PpuModel) -> Seq<u8> {
    let map: int = if p.lcdc & 0x08u8 != 0 {
        0x9C00
    } else {
        0x9800
    };
    Seq::new(
        p.screen.len(),
        |i: int|
            if line_start(p.ly) <= i < line_start(p.ly) + 160 {
                if p.lcdc & 0x01u8 != 0 {
                    let lx = i - line_start(p.ly);
                    map_pixel_shade(
                        rom,
                        map,
                        p.lcdc,
                        p.bgp,
                        (lx + p.scx) % 256,
                        (p.scy + p.ly) % 256,
                    )
                } else {
                    0u8
                }
            } else {
                p.screen[i]
            },
    )
}

/// Whether the window shows on line LY.
pub open spec fn window_on_line(p: PpuModel) -> bool {
    p.lcdc & 0x21u8 == 0x21 && p.ly >= p.wy && p.wx <= 166
}

/// The screen after the window pass: from x = WX - 7 on, line LY holds line WYC of
/// the window.
pub open spec fn line_after_window(rom: Seq<u8>, p: PpuModel, screen: Seq<u8>) -> Seq<u8> {
    let map: int = if p.lcdc & 0x40u8 != 0 {
        0x9C00
    } else {
        0x9800
    };
    Seq::new(
        screen.len(),
        |i: int|
            if window_on_line(p) && line_start(p.ly) + p.wx.saturating_sub(7) <= i < line_start(
                p.ly,
            ) + 160 {
                let lx = i - line_start(p.ly);
                map_pixel_shade(rom, map, p.lcdc, p.bgp, lx + 7 - p.wx, p.wyc as int)
            } else {
                screen[i]
            },
    )
}

/// The remainder of `a` divided by 8, with the sign of `a`.
pub open spec fn rem8(a: int) -> int {
    if a >= 0 {
        a % 8
    } else {
        -((-a) % 8)
    }
}

/// The sprite row that line `ly` shows (before wrapping into a tile).
pub open spec fn sprite_line_row(ly: u8, lcdc: u8, s: Sprite) -> int {
    let sy = s.sy as int - 16;
    if s.flags & 0x40u8 != 0 {
        let height = if lcdc & 0x04u8 != 0 {
            16int
        } else {
            8int
        };
        height - 1 - (ly - sy)
    } else {
        ly - sy
    }
}

/// The tile that line `ly` shows of sprite `s`.
pub open spec fn sprite_line_tile(ly: u8, lcdc: u8, s: Sprite) -> int {
    if lcdc & 0x04u8 != 0 {
        (s.t & !1u8).wrapping_add((sprite_line_row(ly, lcdc, s) as u8) / 8) as int
    } else {
        s.t as int
    }
}

/// The address of the tile-data row that line `ly` shows of sprite `s`.
pub open spec fn sprite_line_address(ly: u8, lcdc: u8, s: Sprite) -> int {
    sprite_line_tile(ly, lcdc, s) * 16 + 0x8000 + 2 * rem8(sprite_line_row(ly, lcdc, s))
}

/// The colour index of column `x` (0 to 7, left to right on the screen) of sprite `s`
/// on line `ly`.
pub open spec fn sprite_line_color(rom: Seq<u8>, ly: u8, lcdc: u8, s: Sprite, x: int) -> u8 {
    let a = sprite_line_address(ly, lcdc, s);
    let bit = if s.flags & 0x20u8 != 0 {
        x
    } else {
        7 - x
    };
    tile_color(rom[a], rom[a + 1], bit as u8)
}

/// The palette of sprite `s`, read from the palette registers in memory.
pub open spec fn sprite_palette(rom: Seq<u8>, s: Sprite) -> u8 {
    if s.flags & 0x10u8 != 0 {
        rom[0xFF49]
    } else {
        rom[0xFF48]
    }
}

/// The screen after drawing sprite `s` on line `ly`: its non-transparent pixels
/// replace the screen, except where the sprite is behind a non-zero background.
pub open spec fn apply_sprite(rom: Seq<u8>, ly: u8, lcdc: u8, screen: Seq<u8>, s: Sprite) -> Seq<
    u8,
> {
    Seq::new(
        screen.len(),
        |i: int|
            {
                let x = i - line_start(ly) - (s.sx as int - 8);
                if line_start(ly) <= i < line_start(ly) + 160 && 0 <= x < 8 {
                    let c = sprite_line_color(rom, ly, lcdc, s, x);
                    if c == 0 || (s.flags & 0x80u8 != 0 && screen[i] != 0) {
                        screen[i]
                    } else {
                        palette_shade(sprite_palette(rom, s), c)
                    }
                } else {
                    screen[i]
                }
            },
    )
}

/// The screen after drawing `sprites` in order on line `ly`.
pub open spec fn apply_sprites(
    rom: Seq<u8>,
    ly: u8,
    lcdc: u8,
    screen: Seq<u8>,
    sprites: Seq<Sprite>,
) -> Seq<u8>
    decreases sprites.len(),
{
    if sprites.len() == 0 {
        screen
    } else {
        apply_sprite(
            rom,
            ly,
            lcdc,
            apply_sprites(rom, ly, lcdc, screen, sprites.drop_last()),
            sprites.last(),
        )
    }
}

/// The screen after `draw_scan_line`: background, then window, then the buffered
/// sprites when sprites are enabled.
pub open spec fn scan_line_screen(rom: Seq<u8>, p: PpuModel) -> Seq<u8> {
    let s = line_after_window(rom, p, line_after_background(rom, p));
    if p.lcdc & 0x02u8 != 0 {
        apply_sprites(rom, p.ly, p.lcdc, s, p.sprite_buffer.subrange(0, p.sprite_buffer_len as int))
    } else {
        s
    }
}

/// The address of the last tile-map entry that the background pass of line LY
/// reads.
pub open spec fn background_line_last(p: PpuModel) -> int {
    let map: int = if p.lcdc & 0x08u8 != 0 {
        0x9C00
    } else {
        0x9800
    };
    let last_column = if p.scx as int + 159 >= 256 {
        31
    } else {
        (p.scx as int + 159) / 8
    };
    map + last_column + (((p.scy as int + p.ly as int) % 256) / 8) * 32
}

/// The address of the last tile-map entry that the window pass of line LY reads.
pub open spec fn window_line_last(p: PpuModel) -> int {
    let map: int = if p.lcdc & 0x40u8 != 0 {
        0x9C00
    } else {
        0x9800
    };
    map + (166 - p.wx) / 8 + (p.wyc / 8) * 32
}

/// The shade of map pixel (`px`, `py`).
fn map_shade(rom: &[u8], map: usize, lcdc: u8, palette: u8, px: u8, py: u8) -> (shade: u8)
    requires
        map == 0x9800 || map == 0x9C00,
        map + px / 8 + (py / 8) * 32 < rom@.len(),
    ensures
        shade == map_pixel_shade(rom@, map as int, lcdc, palette, px as int, py as int),
        shade < 4,
{
    let i = (px as usize / 8) + (py as usize / 8) * 32;
    let mut tile = rom[map + i] as usize;
    // if is using 8800 method
    if lcdc & 0x10 == 0 {
        tile += 0x100;
        if tile >= 0x180 {
            tile -= 0x100;
        }
    }
    let i = tile * 0x10 + 0x8000;
    let y = py % 8;
    let a = rom[i + y as usize * 2];
    let b = rom[i + y as usize * 2 + 1];
    let x = px % 8;
    let shift = 7 - x;
    let color = (((b >> shift) << 1) & 0b10) | ((a >> shift) & 0b1);
    assert(color == tile_color(a, b, shift)) by (bit_vector)
        requires
            color == (((b >> shift) << 1) & 0b10) | ((a >> shift) & 0b1),
    ;
    proof {
        lemma_tile_color_small(a, b, shift);
    }
    let shade = (palette >> (color * 2)) & 0b11;
    assert(shade < 4) by (bit_vector)
        requires
            shade == (palette >> (color * 2)) & 0b11,
    ;
    shade
}

fn draw_line_background(rom: &[u8], ppu: &mut Ppu)
    requires
        old(ppu).ly < 144,
        old(ppu).lcdc & 0x01 != 0 ==> rom@.len() > background_line_last(old(ppu)@),
    ensures
        final(ppu)@ == (PpuModel { screen: line_after_background(rom@, old(ppu)@), ..old(ppu)@ }),
{
    let ghost p = ppu@;
    let ghost target = line_after_background(rom@, p);
    let ly = ppu.ly;
    let start = ly as usize * 160;
    let background = ppu.lcdc & 0x01 != 0;
    // (py, px) is a pixel in the background map
    // (lx, ly) is a pixel in the lcd screen
    let py = ((ppu.scy as u16 + ppu.ly as u16) % 256) as u8;
    let map: usize = if ppu.lcdc & 0x08 != 0 {
        0x9C00
    } else {
        0x9800
    };
    let mut lx: usize = 0;
    while lx < 160
        invariant
            p == old(ppu)@,
            target == line_after_background(rom@, p),
            background ==> rom@.len() > background_line_last(p),
            ly == p.ly,
            ly < 144,
            start == line_start(ly),
            background == (p.lcdc & 0x01u8 != 0),
            py as int == (p.scy + p.ly) % 256,
            map as int == (if p.lcdc & 0x08u8 != 0 {
                0x9C00int
            } else {
                0x9800int
            }),
            lx <= 160,
            ppu@ == (PpuModel { screen: ppu@.screen, ..p }),
            ppu@.screen.len() == SCREEN_LEN,
            forall|i: int| start <= i < start + lx ==> #[trigger] ppu@.screen[i] == target[i],
            forall|i: int|
                0 <= i < SCREEN_LEN && !(start <= i < start + lx) ==> #[trigger] ppu@.screen[i]
                    == p.screen[i],
        decreases 160 - lx,
    {
        let shade = if background {
            let px = ((lx as u16 + ppu.scx as u16) % 256) as u8;
            map_shade(rom, map, ppu.lcdc, ppu.bgp, px, py)
        } else {
            0
        };
        ppu.screen[start + lx] = shade;
        lx = lx + 1;
    }
    assert(ppu@.screen =~= target);
}

fn draw_line_window(rom: &[u8], ppu: &mut Ppu)
    requires
        old(ppu).ly < 144,
        window_on_line(old(ppu)@) ==> rom@.len() > window_line_last(old(ppu)@),
    ensures
        final(ppu)@ == (PpuModel {
            screen: line_after_window(rom@, old(ppu)@, old(ppu)@.screen),
            ..old(ppu)@
        }),
{
    let ghost p = ppu@;
    let ghost target = line_after_window(rom@, p, p.screen);
    if ppu.lcdc & 0x21 == 0x21 && ppu.ly >= ppu.wy && ppu.wx <= 166 {
        // (py, px) is a pixel in the window map
        // (lx, ly) is a pixel in the lcd screen
        let ly = ppu.ly;
        let start = ly as usize * 160;
        let py = ppu.wyc;
        let wx = ppu.wx;
        let map: usize = if ppu.lcdc & 0x40 != 0 {
            0x9C00
        } else {
            0x9800
        };
        let first = wx.saturating_sub(7);
        let mut lx: u8 = first;
        while lx < 160
            invariant
                p == old(ppu)@,
                target == line_after_window(rom@, p, p.screen),
                window_on_line(p),
                rom@.len() > window_line_last(p),
                ly == p.ly,
                ly < 144,
                wx == p.wx,
                py == p.wyc,
                start == line_start(ly),
                first == p.wx.saturating_sub(7),
                map as int == (if p.lcdc & 0x40u8 != 0 {
                    0x9C00int
                } else {
                    0x9800int
                }),
                first <= lx <= 160,
                ppu@ == (PpuModel { screen: ppu@.screen, ..p }),
                ppu@.screen.len() == SCREEN_LEN,
                forall|i: int|
                    start + first <= i < start + lx ==> #[trigger] ppu@.screen[i] == target[i],
                forall|i: int|
                    0 <= i < SCREEN_LEN && !(start + first <= i < start + lx) ==> #[trigger] ppu@.screen[i]
                        == p.screen[i],
            decreases 160 - lx,
        {
            let px = lx + 7 - wx;
            let shade = map_shade(rom, map, ppu.lcdc, ppu.bgp, px, py);
            ppu.screen[start + lx as usize] = shade;
            lx = lx + 1;
        }
        assert(ppu@.screen =~= target);
    } else {
        assert(p.screen =~= target);
    }
}

fn draw_line_sprite(rom: &[u8], ppu: &mut Ppu, sprite: Sprite)
    requires
        old(ppu).ly < 144,
        rom@.len() >= 0xFF4A,
    ensures
        final(ppu)@ == (PpuModel {
            screen: apply_sprite(rom@, old(ppu)@.ly, old(ppu)@.lcdc, old(ppu)@.screen, sprite),
            ..old(ppu)@
        }),
{
    let ghost p = ppu@;
    let ghost target = apply_sprite(rom@, p.ly, p.lcdc, p.screen, sprite);
    let Sprite { sy, sx, t, flags } = sprite;
    let sy = sy as i32 - 16;
    let sx = sx as i32 - 8;
    // Y-Flip
    let py: i32 = if flags & 0x40 != 0 {
        let height: i32 = if ppu.lcdc & 0x04 != 0 {
            16
        } else {
            8
        };
        height - 1 - (ppu.ly as i32 - sy)
    } else {
        ppu.ly as i32 - sy
    };
    assert(py == sprite_line_row(p.ly, p.lcdc, sprite));
    let tile = if ppu.lcdc & 0x04 != 0 {
        // sprite with 2 tiles of height
        ((t & !1).wrapping_add(py as u8 / 8)) as usize
    } else {
        t as usize
    };
    let palette = if flags & 0x10 != 0 {
        // OBP1
        rom[0xFF49]
    } else {
        // OBP0
        rom[0xFF48]
    };
    let y = py % 8;
    assert(y == rem8(py as int));
    let i = tile * 0x10 + 0x8000;
    // a negative row reaches back into the previous tile, as the wrapping index does
    let row = if y >= 0 {
        i + y as usize * 2
    } else {
        i - (-y) as usize * 2
    };
    assert(row == sprite_line_address(p.ly, p.lcdc, sprite));
    let a = rom[row];
    let b = rom[row + 1];
    let ly = ppu.ly;
    let start = ly as usize * 160;
    let first: i32 = if -sx > 0 {
        -sx
    } else {
        0
    };
    let last: i32 = if 160 - sx < 8 {
        160 - sx
    } else {
        8
    };
    let mut x: i32 = first;
    while x < last
        invariant
            p == old(ppu)@,
            target == apply_sprite(rom@, p.ly, p.lcdc, p.screen, sprite),
            rom@.len() >= 0xFF4A,
            ly == p.ly,
            ly < 144,
            start == line_start(ly),
            sx == sprite.sx as int - 8,
            flags == sprite.flags,
            palette == sprite_palette(rom@, sprite),
            a == rom@[sprite_line_address(p.ly, p.lcdc, sprite)],
            b == rom@[sprite_line_address(p.ly, p.lcdc, sprite) + 1],
            first == (if -sx > 0 {
                -sx
            } else {
                0
            }),
            first <= x,
            x <= 8,
            last <= 8,
            sx + last <= 160,
            ppu@ == (PpuModel { screen: ppu@.screen, ..p }),
            ppu@.screen.len() == SCREEN_LEN,
            forall|i: int|
                start + sx + first <= i < start + sx + x ==> #[trigger] ppu@.screen[i] == target[i],
            forall|i: int|
                0 <= i < SCREEN_LEN && !(start + sx + first <= i < start + sx + x)
                    ==> #[trigger] ppu@.screen[i] == p.screen[i],
        decreases last - x,
    {
        let lx = sx + x;
        let pos = start + lx as usize;
        // X-Flip
        let bit: u8 = if flags & 0x20 != 0 {
            x as u8
        } else {
            (7 - x) as u8
        };
        let color = (((b >> bit) << 1) & 0b10) | ((a >> bit) & 0b1);
        assert(color == tile_color(a, b, bit)) by (bit_vector)
            requires
                color == (((b >> bit) << 1) & 0b10) | ((a >> bit) & 0b1),
        ;
        assert(pos - line_start(ly) - (sprite.sx as int - 8) == x);
        if color != 0 {
            // Object to Background Priority
            if !(flags & 0x80 != 0 && ppu.screen[pos] != 0) {
                proof {
                    lemma_tile_color_small(a, b, bit);
                }
                let shade = (palette >> (color * 2)) & 0b11;
                ppu.screen[pos] = shade;
            }
        }
        x = x + 1;
    }
    assert forall|i: int| 0 <= i < SCREEN_LEN implies #[trigger] ppu@.screen[i] == target[i] by {
        let xx = i - line_start(p.ly) - (sprite.sx as int - 8);
        if start + sx + first <= i < start + sx + x {
        } else {
            assert(!(line_start(ly) <= i < line_start(ly) + 160 && 0 <= xx < 8));
        }
    }
    assert(ppu@.screen =~= target);
}

/// Draw line LY of the screen at once: the background (or shade 0 when it is
/// disabled), then the window where it shows, then the sprites of the sprite buffer
/// in buffer order when sprites are enabled.
pub fn draw_scan_line(rom: &[u8], ppu: &mut Ppu)
    requires
        old(ppu)@.ly < 144,
        old(ppu)@.lcdc & 0x01 != 0 ==> rom@.len() > background_line_last(old(ppu)@),
        window_on_line(old(ppu)@) ==> rom@.len() > window_line_last(old(ppu)@),
        old(ppu)@.lcdc & 0x02 != 0 ==> old(ppu)@.sprite_buffer_len <= 10,
        old(ppu)@.lcdc & 0x02 != 0 && old(ppu)@.sprite_buffer_len > 0 ==> rom@.len() >= 0xFF4A,
    ensures
        final(ppu)@ == (PpuModel { screen: scan_line_screen(rom@, old(ppu)@), ..old(ppu)@ }),
{
    let ghost p = ppu@;
    draw_line_background(rom, ppu);
    draw_line_window(rom, ppu);
    let ghost s = ppu@.screen;
    assert(s == line_after_window(rom@, p, line_after_background(rom@, p)));
    // Draw Sprites, if enabled
    if ppu.lcdc & 0x02 != 0 {
        let len = ppu.sprite_buffer_len as usize;
        let ghost sprites = p.sprite_buffer.subrange(0, len as int);
        let mut k: usize = 0;
        while k < len
            invariant
                len == p.sprite_buffer_len,
                len <= 10,
                len > 0 ==> rom@.len() >= 0xFF4A,
                k <= len,
                sprites == p.sprite_buffer.subrange(0, len as int),
                p.ly < 144,
                ppu@ == (PpuModel {
                    screen: apply_sprites(rom@, p.ly, p.lcdc, s, sprites.subrange(0, k as int)),
                    ..p
                }),
            decreases len - k,
        {
            let sprite = ppu.sprite_buffer[k];
            draw_line_sprite(rom, ppu, sprite);
            assert(sprites.subrange(0, k + 1).drop_last() =~= sprites.subrange(0, k as int));
            k = k + 1;
        }
        assert(sprites.subrange(0, len as int) =~= sprites);
    }
}

} // verus!
