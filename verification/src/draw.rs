//! Drawing tiles, tile maps, sprites and the whole screen from the video memory,
//! for debug views. Each function returns the pixels it draws, in drawing order,
//! as `(x, y, shade)`.
use crate::fifo::{lemma_tile_color_small, tile_color};
use crate::model::{bg_tile_index, palette_shade};
use crate::ppu::Ppu;
use vstd::prelude::*;

verus! {

/// A pixel to draw: its position and its shade (0 to 3).
pub type Pixel = (i32, i32, u8);

/// The colour index of pixel (`x`, `y`) of tile `index` of the tile data at 0x8000.
pub open spec fn tile_pixel_color(rom: Seq<u8>, index: int, x: int, y: int) -> u8 {
    let i = index * 16 + 0x8000 + y * 2;
    tile_color(rom[i], rom[i + 1], (7 - x) as u8)
}

/// The pixels of tile `index` drawn with its top-left corner at (`tx`, `ty`): row by row,
/// left to right, the first `n` positions; with `alpha`, colour 0 is transparent.
pub open spec fn tile_pixels_upto(
    rom: Seq<u8>,
    tx: int,
    ty: int,
    index: int,
    palette: u8,
    alpha: bool,
    n: nat,
) -> Seq<Pixel>
    decreases n,
{
    if n == 0 {
        Seq::empty()
    } else {
        let prev = tile_pixels_upto(rom, tx, ty, index, palette, alpha, (n - 1) as nat);
        let x = (n - 1) % 8;
        let y = (n - 1) / 8;
        let c = tile_pixel_color(rom, index, x, y);
        if alpha && c == 0 {
            prev
        } else {
            prev.push(((tx + x) as i32, (ty + y) as i32, palette_shade(palette, c)))
        }
    }
}

/// The pixels of a whole tile.
pub open spec fn tile_pixels(
    rom: Seq<u8>,
    tx: int,
    ty: int,
    index: int,
    palette: u8,
    alpha: bool,
) -> Seq<Pixel> {
    tile_pixels_upto(rom, tx, ty, index, palette, alpha, 64)
}

/// The pixels of cells `0..n`, one after the other.
pub open spec fn concat_cells(n: nat, cell: spec_fn(int) -> Seq<Pixel>) -> Seq<Pixel>
    decreases n,
{
    if n == 0 {
        Seq::empty()
    } else {
        concat_cells((n - 1) as nat, cell) + cell(n - 1)
    }
}

/// Cell `i` of the tile-data view: tile `i` in a grid of 16 tiles per row.
pub open spec fn tile_data_cell(rom: Seq<u8>, palette: u8) -> spec_fn(int) -> Seq<Pixel> {
    |i: int| tile_pixels(rom, 8 * (i % 16), 8 * (i / 16), i, palette, false)
}

/// Cell `i` of a 32x32 tile map at `map`, with tile numbers used as they are.
pub open spec fn tile_map_cell(rom: Seq<u8>, map: int, palette: u8) -> spec_fn(int) -> Seq<Pixel> {
    |i: int| tile_pixels(rom, 8 * (i % 32), 8 * (i / 32), rom[map + i] as int, palette, false)
}

/// The screen coordinate of a sprite attribute byte (`offset` is 16 for y, 8 for x).
pub open spec fn sprite_origin(v: u8, offset: int) -> int {
    v as int - offset
}

/// Cell `i` of the sprite view: OAM entry `i`, transparent where its colour is 0,
/// or nothing when it stands above or left of the screen.
pub open spec fn sprite_cell(rom: Seq<u8>) -> spec_fn(int) -> Seq<Pixel> {
    |i: int|
        {
            let a = 0xFE00 + i * 4;
            let sy = sprite_origin(rom[a], 16);
            let sx = sprite_origin(rom[a + 1], 8);
            let palette = if rom[a + 3] & 0x10u8 != 0 {
                rom[0xFF49]
            } else {
                rom[0xFF48]
            };
            if sy < 0 || sx < 0 {
                Seq::empty()
            } else {
                tile_pixels(rom, sx, sy, rom[a + 2] as int, palette, true)
            }
        }
}

/// Cell `k` of the background view of the screen: 19 rows of 21 tiles from the
/// tile under (SCX, SCY).
pub open spec fn screen_background_cell(rom: Seq<u8>, lcdc: u8, scx: u8, scy: u8, bgp: u8) -> spec_fn(
    int,
) -> Seq<Pixel> {
    |k: int|
        {
            let y = scy / 8 + k / 21;
            let x = scx / 8 + k % 21;
            let map: int = if lcdc & 0x08u8 != 0 {
                0x9C00
            } else {
                0x9800
            };
            let i = x % 32 + (y % 32) * 32;
            tile_pixels(
                rom,
                8 * x - scx,
                8 * y - scy,
                bg_tile_index(rom[map + i], lcdc),
                bgp,
                false,
            )
        }
}

/// The number of window rows (or columns) drawn for position `w`, with 8-bit wrapping.
pub open spec fn window_extent(n: u8, w: u8) -> u8 {
    n.wrapping_sub(w / 8)
}

/// Cell `k` of the window view of the screen, in rows of `cols` tiles.
pub open spec fn screen_window_cell(rom: Seq<u8>, lcdc: u8, wx: u8, wy: u8, bgp: u8, cols: int) -> spec_fn(
    int,
) -> Seq<Pixel> {
    |k: int|
        {
            let y = k / cols;
            let x = k % cols;
            let map: int = if lcdc & 0x40u8 != 0 {
                0x9C00
            } else {
                0x9800
            };
            let i = x % 32 + (y % 32) * 32;
            tile_pixels(
                rom,
                8 * x + wx,
                8 * y + wy,
                bg_tile_index(rom[map + i], lcdc),
                bgp,
                false,
            )
        }
}

/// Draw tile `index` with its top-left corner at (`tx`, `ty`).
pub fn draw_tile(rom: &[u8], tx: i32, ty: i32, index: usize, palette: u8, alpha: bool) -> (out: Vec<
    Pixel,
>)
    requires
        index * 16 + 0x8000 + 16 <= rom@.len(),
        tx + 7 <= i32::MAX,
        ty + 7 <= i32::MAX,
    ensures
        out@ == tile_pixels(rom@, tx as int, ty as int, index as int, palette, alpha),
{
    let mut out: Vec<Pixel> = Vec::new();
    let _ = rom.len();
    let i = index * 0x10 + 0x8000;
    let mut y: i32 = 0;
    while y < 8
        invariant
            0 <= y <= 8,
            i == index * 16 + 0x8000,
            i + 16 <= rom@.len(),
            tx + 7 <= i32::MAX,
            ty + 7 <= i32::MAX,
            out@ == tile_pixels_upto(
                rom@,
                tx as int,
                ty as int,
                index as int,
                palette,
                alpha,
                (y * 8) as nat,
            ),
        decreases 8 - y,
    {
        let a = rom[i + y as usize * 2];
        let b = rom[i + y as usize * 2 + 1];
        let mut x: i32 = 0;
        while x < 8
            invariant
                0 <= y < 8,
                0 <= x <= 8,
                i == index * 16 + 0x8000,
                i + 16 <= rom@.len(),
                a == rom@[i + y * 2],
                b == rom@[i + y * 2 + 1],
                tx + 7 <= i32::MAX,
                ty + 7 <= i32::MAX,
                out@ == tile_pixels_upto(
                    rom@,
                    tx as int,
                    ty as int,
                    index as int,
                    palette,
                    alpha,
                    (y * 8 + x) as nat,
                ),
            decreases 8 - x,
        {
            let shift = (7 - x) as u8;
            let color = (((b >> shift) << 1) & 0b10) | ((a >> shift) & 0b1);
            assert(color == tile_color(a, b, shift)) by (bit_vector)
                requires
                    color == (((b >> shift) << 1) & 0b10) | ((a >> shift) & 0b1),
            ;
            assert(((y * 8 + x + 1) - 1) % 8 == x && ((y * 8 + x + 1) - 1) / 8 == y);
            if !(alpha && color == 0) {
                proof {
                    lemma_tile_color_small(a, b, shift);
                }
                let shade = (palette >> (color * 2)) & 0b11;
                out.push((tx + x, ty + y, shade));
            }
            x = x + 1;
        }
        y = y + 1;
    }
    out
}

/// Draw the 384 tiles of the tile data, 16 per row.
pub fn draw_tiles(rom: &[u8], palette: u8) -> (out: Vec<Pixel>)
    requires
        rom@.len() >= 0x9800,
    ensures
        out@ == concat_cells(0x180, tile_data_cell(rom@, palette)),
{
    let mut out: Vec<Pixel> = Vec::new();
    let mut i: i32 = 0;
    while i < 0x180
        invariant
            0 <= i <= 0x180,
            rom@.len() >= 0x9800,
            out@ == concat_cells(i as nat, tile_data_cell(rom@, palette)),
        decreases 0x180 - i,
    {
        let tx = 8 * (i % 16);
        let ty = 8 * (i / 16);
        let mut tile = draw_tile(rom, tx, ty, i as usize, palette, false);
        out.append(&mut tile);
        i = i + 1;
    }
    out
}

/// Draw a 32x32 tile map stored at `map`.
fn draw_tile_map(rom: &[u8], map: usize, palette: u8) -> (out: Vec<Pixel>)
    requires
        0x8000 <= map,
        map + 0x400 <= rom@.len(),
        rom@.len() >= 0x9000,
    ensures
        out@ == concat_cells(0x400, tile_map_cell(rom@, map as int, palette)),
{
    let mut out: Vec<Pixel> = Vec::new();
    let _ = rom.len();
    let mut i: i32 = 0;
    while i < 32 * 32
        invariant
            0 <= i <= 1024,
            rom@.len() <= usize::MAX,
            0x8000 <= map,
            map + 0x400 <= rom@.len(),
            rom@.len() >= 0x9000,
            out@ == concat_cells(i as nat, tile_map_cell(rom@, map as int, palette)),
        decreases 1024 - i,
    {
        let t = rom[map + i as usize];
        let tx = 8 * (i % 32);
        let ty = 8 * (i / 32);
        let mut tile = draw_tile(rom, tx, ty, t as usize, palette, false);
        out.append(&mut tile);
        i = i + 1;
    }
    out
}

/// Draw the background tile map (at 0x9800).
pub fn draw_background(rom: &[u8], palette: u8) -> (out: Vec<Pixel>)
    requires
        rom@.len() >= 0x9C00,
    ensures
        out@ == concat_cells(0x400, tile_map_cell(rom@, 0x9800, palette)),
{
    draw_tile_map(rom, 0x9800, palette)
}

/// Draw the window tile map (at 0x9C00).
pub fn draw_window(rom: &[u8], palette: u8) -> (out: Vec<Pixel>)
    requires
        rom@.len() >= 0xA000,
    ensures
        out@ == concat_cells(0x400, tile_map_cell(rom@, 0x9C00, palette)),
{
    draw_tile_map(rom, 0x9C00, palette)
}

/// Draw the 40 sprites of the OAM where they stand, colour 0 transparent.
pub fn draw_sprites(rom: &[u8]) -> (out: Vec<Pixel>)
    requires
        rom@.len() >= 0xFF4A,
    ensures
        out@ == concat_cells(40, sprite_cell(rom@)),
{
    let mut out: Vec<Pixel> = Vec::new();
    let mut k: usize = 0;
    while k < 40
        invariant
            k <= 40,
            rom@.len() >= 0xFF4A,
            out@ == concat_cells(k as nat, sprite_cell(rom@)),
        decreases 40 - k,
    {
        let i = 0xFE00 + k * 4;
        let sy = rom[i] as i32 - 16;
        let sx = rom[i + 1] as i32 - 8;
        let t = rom[i + 2];
        let f = rom[i + 3];
        let palette = if f & 0x10 != 0 {
            // OBP1
            rom[0xFF49]
        } else {
            // OBP0
            rom[0xFF48]
        };
        if !(sy < 0 || sx < 0) {
            let mut tile = draw_tile(rom, sx, sy, t as usize, palette, true);
            out.append(&mut tile);
        } else {
            assert(out@ + Seq::<Pixel>::empty() =~= out@);
        }
        k = k + 1;
    }
    out
}

/// What `draw_screen` draws: the background, then the window when it is enabled,
/// then the sprites when they are enabled.
pub open spec fn screen_pixels(rom: Seq<u8>, lcdc: u8, scx: u8, scy: u8, wx: u8, wy: u8, bgp: u8) -> Seq<
    Pixel,
> {
    let rows = window_extent(19, wy) as int;
    let cols = window_extent(21, wx) as int;
    concat_cells(19 * 21, screen_background_cell(rom, lcdc, scx, scy, bgp)) + (if lcdc & 0x20u8
        != 0 {
        concat_cells((rows * cols) as nat, screen_window_cell(rom, lcdc, wx, wy, bgp, cols))
    } else {
        Seq::empty()
    }) + (if lcdc & 0x02u8 != 0 {
        concat_cells(40, sprite_cell(rom))
    } else {
        Seq::empty()
    })
}

proof fn lemma_grid_index(r: int, c: int, cols: int)
    requires
        0 <= r,
        0 <= c < cols,
    ensures
        (r * cols + c) / cols == r,
        (r * cols + c) % cols == c,
        (r * cols + c + 1) == r * cols + (c + 1),
        (r + 1) * cols == r * cols + cols,
{
    assert((r * cols + c) / cols == r) by (nonlinear_arith)
        requires
            0 <= r,
            0 <= c < cols,
    ;
    assert((r * cols + c) % cols == c) by (nonlinear_arith)
        requires
            0 <= r,
            0 <= c < cols,
    ;
    assert((r + 1) * cols == r * cols + cols) by (nonlinear_arith);
}

/// The tile-data index of background tile number `t`.
fn background_tile(t: u8, lcdc: u8) -> (tile: usize)
    ensures
        tile == bg_tile_index(t, lcdc),
        tile < 0x180,
{
    let mut tile = t as usize;
    // if is using 8800 method
    if lcdc & 0x10 == 0 {
        tile += 0x100;
        if tile >= 0x180 {
            tile -= 0x100;
        }
    }
    tile
}

/// The tile map at 0x9C00 when bit `bit` of LCDC is set, the one at 0x9800
/// otherwise.
pub open spec fn map_base(lcdc: u8, bit: u8) -> int {
    if lcdc & bit != 0 {
        0x9C00
    } else {
        0x9800
    }
}

/// The greatest of `(start + k) % 32` for `k < count`, for `0 <= start < 32` and
/// `count > 0`: the last tile-map column (or row) that `count` tiles from `start`
/// reach.
pub open spec fn last_map_index(start: int, count: int) -> int {
    if start + count - 1 >= 32 {
        31
    } else {
        start + count - 1
    }
}

/// Draw the screen from the registers of `ppu`: the background, the window (if
/// enabled) and the sprites (if enabled).
pub fn draw_screen(rom: &[u8], ppu: &Ppu) -> (out: Vec<Pixel>)
    requires
        rom@.len() > map_base(ppu@.lcdc, 0x08) + last_map_index((ppu@.scx / 8) as int, 21)
            + last_map_index((ppu@.scy / 8) as int, 19) * 32,
        ppu@.lcdc & 0x20 != 0 && window_extent(19, ppu@.wy) > 0 && window_extent(21, ppu@.wx)
            > 0 ==> rom@.len() > map_base(ppu@.lcdc, 0x40) + last_map_index(
            0,
            window_extent(21, ppu@.wx) as int,
        ) + last_map_index(0, window_extent(19, ppu@.wy) as int) * 32,
        ppu@.lcdc & 0x02 != 0 ==> rom@.len() >= 0xFF4A,
    ensures
        out@ == screen_pixels(
            rom@,
            ppu@.lcdc,
            ppu@.scx,
            ppu@.scy,
            ppu@.wx,
            ppu@.wy,
            ppu@.bgp,
        ),
{
    let ghost r = rom@;
    let lcdc = ppu.lcdc();
    let bgp = ppu.bgp();
    // Draw Background
    let scx = ppu.scx();
    let scy = ppu.scy();
    let ghost bg_cell = screen_background_cell(r, lcdc, scx, scy, bgp);
    let mut out: Vec<Pixel> = Vec::new();
    let xs = scx / 8;
    let ys = scy / 8;
    let ghost bg_last = map_base(lcdc, 0x08) + last_map_index(xs as int, 21) + last_map_index(
        ys as int,
        19,
    ) * 32;
    let mut y: u8 = ys;
    while y < ys + 19
        invariant
            ys == scy / 8,
            xs == scx / 8,
            ys <= y <= ys + 19,
            r == rom@,
            r.len() > bg_last,
            bg_last == map_base(lcdc, 0x08) + last_map_index(xs as int, 21) + last_map_index(
                ys as int,
                19,
            ) * 32,
            bg_cell == screen_background_cell(r, lcdc, scx, scy, bgp),
            out@ == concat_cells(((y - ys) * 21) as nat, bg_cell),
        decreases ys + 19 - y,
    {
        let mut x: u8 = xs;
        while x < xs + 21
            invariant
                ys == scy / 8,
                xs == scx / 8,
                ys <= y < ys + 19,
                xs <= x <= xs + 21,
                r == rom@,
                r.len() > bg_last,
                bg_last == map_base(lcdc, 0x08) + last_map_index(xs as int, 21) + last_map_index(
                    ys as int,
                    19,
                ) * 32,
                bg_cell == screen_background_cell(r, lcdc, scx, scy, bgp),
                out@ == concat_cells(((y - ys) * 21 + (x - xs)) as nat, bg_cell),
            decreases xs + 21 - x,
        {
            let tx = 8 * x as i32 - scx as i32;
            let ty = 8 * y as i32 - scy as i32;
            let i = (x % 32) as usize + (y % 32) as usize * 32;
            // BG Tile Map Select
            let address: usize = if lcdc & 0x08 != 0 {
                0x9C00
            } else {
                0x9800
            };
            assert(x % 32 <= last_map_index(xs as int, 21));
            assert(y % 32 <= last_map_index(ys as int, 19));
            let tile = background_tile(rom[address + i], lcdc);
            proof {
                lemma_grid_index((y - ys) as int, (x - xs) as int, 21);
            }
            let mut pixels = draw_tile(rom, tx, ty, tile, bgp, false);
            out.append(&mut pixels);
            x = x + 1;
        }
        proof {
            lemma_grid_index((y - ys) as int, 0, 21);
        }
        y = y + 1;
    }
    let ghost bg_part = out@;
    // Draw Window, if enabled
    let wx = ppu.wx();
    let wy = ppu.wy();
    let rows: u8 = 19u8.wrapping_sub(wy / 8);
    let cols: u8 = 21u8.wrapping_sub(wx / 8);
    let ghost win_cell = screen_window_cell(r, lcdc, wx, wy, bgp, cols as int);
    let mut win: Vec<Pixel> = Vec::new();
    let ghost win_last = map_base(lcdc, 0x40) + last_map_index(0, cols as int) + last_map_index(
        0,
        rows as int,
    ) * 32;
    if lcdc & 0x20 != 0 {
        let mut y: u8 = 0;
        while y < rows
            invariant
                y <= rows,
                r == rom@,
                rows > 0 && cols > 0 ==> r.len() > win_last,
                r.len() > 0x9800,
                win_last == map_base(lcdc, 0x40) + last_map_index(0, cols as int)
                    + last_map_index(0, rows as int) * 32,
                win_cell == screen_window_cell(r, lcdc, wx, wy, bgp, cols as int),
                win@ == concat_cells((y * cols) as nat, win_cell),
            decreases rows - y,
        {
            let mut x: u8 = 0;
            while x < cols
                invariant
                    y < rows,
                    x <= cols,
                    r == rom@,
                    rows > 0 && cols > 0 ==> r.len() > win_last,
                    r.len() > 0x9800,
                    win_last == map_base(lcdc, 0x40) + last_map_index(0, cols as int)
                        + last_map_index(0, rows as int) * 32,
                    win_cell == screen_window_cell(r, lcdc, wx, wy, bgp, cols as int),
                    win@ == concat_cells((y * cols + x) as nat, win_cell),
                decreases cols - x,
            {
                let tx = 8 * x as i32 + wx as i32;
                let ty = 8 * y as i32 + wy as i32;
                let i = (x % 32) as usize + (y % 32) as usize * 32;
                // BG Tile Map Select
                let address: usize = if lcdc & 0x40 != 0 {
                    0x9C00
                } else {
                    0x9800
                };
                assert(x % 32 <= last_map_index(0, cols as int));
                assert(y % 32 <= last_map_index(0, rows as int));
                let tile = background_tile(rom[address + i], lcdc);
                proof {
                    lemma_grid_index(y as int, x as int, cols as int);
                }
                let mut pixels = draw_tile(rom, tx, ty, tile, bgp, false);
                win.append(&mut pixels);
                x = x + 1;
            }
            proof {
                if cols > 0 {
                    lemma_grid_index(y as int, 0, cols as int);
                } else {
                    assert(y * cols == 0 && (y + 1) * cols == 0) by (nonlinear_arith)
                        requires
                            cols == 0,
                    ;
                }
            }
            y = y + 1;
        }
    }
    out.append(&mut win);
    // Draw Sprites, if enabled
    let mut sprites: Vec<Pixel> = Vec::new();
    if lcdc & 0x02 != 0 {
        sprites = draw_sprites(rom);
    }
    out.append(&mut sprites);
    out
}

} // verus!
