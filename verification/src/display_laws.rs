//! What the pixel output, the OAM search and sprite drawing do, stated over the
//! register bits and memory bytes that they read.
use crate::fifo::{mix_sprite_row, sprite_pixel, tile_color};
use crate::laws::lemma_search_objects;
use crate::model::{
    oam_entry, output_pixel, pixel_index, reversed_bits, search_objects, sprite_fetch_step,
    sprite_row, sprites_on_line,
};
use crate::ppu::{PpuModel, Sprite};
use crate::scanline::{apply_sprite, sprite_line_address, sprite_line_color, sprite_line_row};
use crate::update::lemma_sprites_on_line_len;
use vstd::prelude::*;

verus! {

/// Whether sprite `s` covers line `ly` for sprites `h` pixels high: it is on screen
/// horizontally (x above 0) and its top, 16 lines above `sy`, is at most `ly` with
/// `ly` above its bottom.
pub open spec fn covers_line(s: Sprite, ly: u8, h: int) -> bool {
    s.sx > 0 && s.sy <= ly + 16 < s.sy + h
}

/// The output of a pixel mixes the background pixel with the front of the sprite
/// FIFO. A transparent sprite pixel (colour 0), or one with the OBJ-to-BG priority
/// bit (bit 3) over a background of non-zero colour, leaves the BGP shade of the
/// background colour (colour 0 when the background is off); any other sprite pixel
/// shows its colour through OBP0, or OBP1 when bit 4 is set. Only that screen pixel
/// changes, and the sprite pixel leaves the FIFO.
pub proof fn lemma_pixel_output(p: PpuModel, pixel: u8)
    requires
        0 <= pixel_index(p) < p.screen.len(),
    ensures
        ({
            let q = output_pixel(p, pixel);
            let i = pixel_index(p);
            let bcolor: u8 = if p.lcdc & 1 != 0 {
                pixel & 3
            } else {
                0
            };
            let bg_shade = (p.bgp >> (2 * bcolor) as u8) & 3;
            &&& q.screen.len() == p.screen.len()
            &&& forall|j: int| 0 <= j < p.screen.len() && j != i ==> q.screen[j] == p.screen[j]
            &&& p.sprite_fifo.len() == 0 ==> q.screen[i] == bg_shade && q.sprite_fifo
                == p.sprite_fifo
            &&& p.sprite_fifo.len() > 0 ==> {
                let sp = p.sprite_fifo[0];
                let scolor = sp & 3;
                let obp = if sp & 16 == 0 {
                    p.obp0
                } else {
                    p.obp1
                };
                &&& q.sprite_fifo == p.sprite_fifo.subrange(1, p.sprite_fifo.len() as int)
                &&& (scolor == 0 || (sp & 8 != 0 && bcolor != 0)) ==> q.screen[i] == bg_shade
                &&& (scolor != 0 && (sp & 8 == 0 || bcolor == 0)) ==> q.screen[i] == (obp >> (2
                    * scolor) as u8) & 3
            }
        }),
{
    if p.sprite_fifo.len() > 0 {
        let sp = p.sprite_fifo[0];
        assert(((sp >> 3u8) & 1u8 != 0) == (sp & 8 != 0)) by (bit_vector);
        assert(((sp >> 4u8) & 1u8 == 0) == (sp & 16 == 0)) by (bit_vector);
    }
}

/// A sprite pixel in the FIFO holds the tile colour of its bit (the high plane's
/// bit as the high colour bit), the OBJ-to-BG priority flag in bit 3 and the
/// palette number in bit 4.
pub proof fn lemma_sprite_pixel_bits(lo: u8, hi: u8, bit: u8, palette: bool, priority: bool)
    requires
        bit < 8,
    ensures
        sprite_pixel(lo, hi, bit, palette, priority) & 3 == 2 * ((hi >> bit) & 1) + ((lo >> bit)
            & 1),
        (sprite_pixel(lo, hi, bit, palette, priority) & 8 != 0) == priority,
        (sprite_pixel(lo, hi, bit, palette, priority) & 16 != 0) == palette,
{
    let x = sprite_pixel(lo, hi, bit, palette, priority);
    let pr: u8 = if priority {
        8
    } else {
        0
    };
    let pa: u8 = if palette {
        16
    } else {
        0
    };
    assert(x == ((((hi >> bit) & 1u8) << 1u8) | ((lo >> bit) & 1u8)) | pr | pa);
    assert(((((((hi >> bit) & 1u8) << 1u8) | ((lo >> bit) & 1u8)) | pr | pa) & 3) == 2 * ((hi
        >> bit) & 1) + ((lo >> bit) & 1)) by (bit_vector)
        requires
            pr == 0 || pr == 8,
            pa == 0 || pa == 16,
    ;
    assert((((((((hi >> bit) & 1u8) << 1u8) | ((lo >> bit) & 1u8)) | pr | pa) & 8) != 0) == (pr
        == 8)) by (bit_vector)
        requires
            pr == 0 || pr == 8,
            pa == 0 || pa == 16,
    ;
    assert((((((((hi >> bit) & 1u8) << 1u8) | ((lo >> bit) & 1u8)) | pr | pa) & 16) != 0) == (pa
        == 16)) by (bit_vector)
        requires
            pr == 0 || pr == 8,
            pa == 0 || pa == 16,
    ;
}

/// When the fetcher finishes fetching a sprite, each sprite pixel that it appends to
/// the FIFO carries the sprite's OBJ-to-BG priority flag (OAM flag 0x80) in bit 3
/// and its palette flag (OAM flag 0x10) in bit 4.
pub proof fn lemma_fetched_sprite_flags(p: PpuModel, memory: Seq<u8>)
    requires
        p.fetcher_step == 3,
        p.sprite_buffer_len < 10,
    ensures
        ({
            let s = p.sprite_buffer[p.sprite_buffer_len as int];
            let q = sprite_fetch_step(p, memory).unwrap();
            forall|j: int|
                p.sprite_fifo.len() <= j < q.sprite_fifo.len() ==> {
                    &&& (#[trigger] q.sprite_fifo[j] & 8 != 0) == (s.flags & 0x80 != 0)
                    &&& (q.sprite_fifo[j] & 16 != 0) == (s.flags & 0x10 != 0)
                }
        }),
{
    let s = p.sprite_buffer[p.sprite_buffer_len as int];
    let q = sprite_fetch_step(p, memory).unwrap();
    let flip_x = s.flags & 0x20u8 != 0;
    let lo = if flip_x {
        reversed_bits(p.fetch_tile_data_low)
    } else {
        p.fetch_tile_data_low
    };
    let hi = if flip_x {
        reversed_bits(p.fetch_tile_data_hight)
    } else {
        p.fetch_tile_data_hight
    };
    let cut_off = if s.sx < 8 {
        (8 - s.sx) as u8
    } else {
        0u8
    };
    assert forall|j: int| p.sprite_fifo.len() <= j < q.sprite_fifo.len() implies {
        &&& (#[trigger] q.sprite_fifo[j] & 8 != 0) == (s.flags & 0x80 != 0)
        &&& (q.sprite_fifo[j] & 16 != 0) == (s.flags & 0x10 != 0)
    } by {
        let n = 8 - cut_off;
        assert(q.sprite_fifo == mix_sprite_row(
            p.sprite_fifo,
            lo,
            hi,
            cut_off,
            s.flags & 0x10u8 != 0,
            s.flags & 0x80u8 != 0,
        ));
        lemma_sprite_pixel_bits(
            lo,
            hi,
            (n - 1 - j) as u8,
            s.flags & 0x10u8 != 0,
            s.flags & 0x80u8 != 0,
        );
    }
}

/// Reversing the bits of both planes of a tile row mirrors its colours: bit `b` of
/// the reversed row has the colour of bit `7 - b` of the row. This is how the
/// fetcher draws an X-flipped sprite.
pub proof fn lemma_reversed_row_mirrors(lo: u8, hi: u8, b: u8)
    requires
        b < 8,
    ensures
        tile_color(reversed_bits(lo), reversed_bits(hi), b) == tile_color(lo, hi, (7 - b) as u8),
{
    let rl = reversed_bits(lo);
    let rh = reversed_bits(hi);
    assert(b < 8 ==> (rl >> b) & 1 == (lo >> ((7 - b) as u8)) & 1) by (bit_vector)
        requires
            rl == ((lo & 1u8) << 7u8) | ((lo & 2u8) << 5u8) | ((lo & 4u8) << 3u8) | ((lo & 8u8)
                << 1u8) | ((lo & 16u8) >> 1u8) | ((lo & 32u8) >> 3u8) | ((lo & 64u8) >> 5u8) | ((lo
                & 128u8) >> 7u8),
    ;
    assert(b < 8 ==> (rh >> b) & 1 == (hi >> ((7 - b) as u8)) & 1) by (bit_vector)
        requires
            rh == ((hi & 1u8) << 7u8) | ((hi & 2u8) << 5u8) | ((hi & 4u8) << 3u8) | ((hi & 8u8)
                << 1u8) | ((hi & 16u8) >> 1u8) | ((hi & 32u8) >> 3u8) | ((hi & 64u8) >> 5u8) | ((hi
                & 128u8) >> 7u8),
    ;
}

/// Every OAM entry among the first `n` that covers the line is in the selection of
/// `sprites_on_line`, unless the selection is already full.
proof fn lemma_sprites_on_line_complete(memory: Seq<u8>, ly: u8, height: u16, n: nat, i: int)
    requires
        0 <= i < n,
        covers_line(oam_entry(memory, i), ly, height as int),
    ensures
        sprites_on_line(memory, ly, height, n).len() == 10 || sprites_on_line(
            memory,
            ly,
            height,
            n,
        ).contains(oam_entry(memory, i)),
    decreases n,
{
    let prev = sprites_on_line(memory, ly, height, (n - 1) as nat);
    let cur = sprites_on_line(memory, ly, height, n);
    lemma_sprites_on_line_len(memory, ly, height, (n - 1) as nat);
    lemma_sprites_on_line_len(memory, ly, height, n);
    if i == n - 1 {
        if prev.len() < 10 {
            assert(cur == prev.push(oam_entry(memory, i)));
            assert(cur[cur.len() - 1] == oam_entry(memory, i));
        }
    } else {
        lemma_sprites_on_line_complete(memory, ly, height, (n - 1) as nat, i);
        if prev.contains(oam_entry(memory, i)) {
            let k = choose|k: int| 0 <= k < prev.len() && prev[k] == oam_entry(memory, i);
            assert(cur[k] == prev[k]);
        }
    }
}

/// The OAM search selects sprites by the line they cover, with sprites sixteen
/// pixels high when LCDC bit 2 is set and eight otherwise: every buffered sprite
/// covers line LY, and every one of the forty OAM entries that covers it is
/// buffered, unless ten sprites already are.
pub proof fn lemma_oam_search_selects(p: PpuModel, memory: Seq<u8>)
    requires
        p.sprite_buffer.len() == 10,
    ensures
        ({
            let q = search_objects(p, memory);
            let h: int = if p.lcdc & 4 != 0 {
                16
            } else {
                8
            };
            &&& forall|k: int|
                0 <= k < q.sprite_buffer_len ==> covers_line(#[trigger] q.sprite_buffer[k], p.ly, h)
            &&& forall|i: int|
                0 <= i < 40 && covers_line(#[trigger] oam_entry(memory, i), p.ly, h) ==> (
                q.sprite_buffer_len == 10 || exists|k: int|
                    0 <= k < q.sprite_buffer_len && q.sprite_buffer[k] == oam_entry(memory, i))
        }),
{
    let q = search_objects(p, memory);
    let h: int = if p.lcdc & 4 != 0 {
        16
    } else {
        8
    };
    let height: u16 = if p.lcdc & 4u8 != 0 {
        16
    } else {
        8
    };
    lemma_search_objects(p, memory);
    let sel = sprites_on_line(memory, p.ly, height, 40);
    let buf = q.sprite_buffer.subrange(0, q.sprite_buffer_len as int);
    assert forall|k: int| 0 <= k < q.sprite_buffer_len implies covers_line(
        #[trigger] q.sprite_buffer[k],
        p.ly,
        h,
    ) by {
        assert(buf[k] == q.sprite_buffer[k]);
    }
    assert forall|i: int| 0 <= i < 40 && covers_line(#[trigger] oam_entry(memory, i), p.ly, h) implies (
    q.sprite_buffer_len == 10 || exists|k: int|
        0 <= k < q.sprite_buffer_len && q.sprite_buffer[k] == oam_entry(memory, i)) by {
        lemma_sprites_on_line_complete(memory, p.ly, height, 40, i);
        if q.sprite_buffer_len != 10 {
            broadcast use vstd::seq_lib::group_to_multiset_ensures;
            let s = oam_entry(memory, i);
            assert(sel.to_multiset().count(s) > 0);
            assert(buf.to_multiset().count(s) > 0);
            assert(buf.contains(s));
            let k = choose|k: int| 0 <= k < buf.len() && buf[k] == s;
            assert(q.sprite_buffer[k] == s);
        }
    }
}

/// X-flipping a sprite mirrors the row that it draws: with OAM flag 0x20 set, screen
/// column `x` of the sprite has the colour that column `7 - x` has without it.
pub proof fn lemma_sprite_x_flip_mirrors(rom: Seq<u8>, ly: u8, lcdc: u8, s: Sprite, x: int)
    requires
        0 <= x < 8,
    ensures
        sprite_line_color(rom, ly, lcdc, Sprite { flags: s.flags | 0x20, ..s }, x)
            == sprite_line_color(rom, ly, lcdc, Sprite { flags: s.flags & 0xDF, ..s }, 7 - x),
{
    let f = s.flags;
    assert((f | 0x20u8) & 0x40u8 == (f & 0xDFu8) & 0x40u8) by (bit_vector);
    assert((f | 0x20u8) & 0x20u8 != 0) by (bit_vector);
    assert((f & 0xDFu8) & 0x20u8 == 0) by (bit_vector);
    assert(sprite_line_address(ly, lcdc, Sprite { flags: f | 0x20, ..s }) == sprite_line_address(
        ly,
        lcdc,
        Sprite { flags: f & 0xDF, ..s },
    ));
}

/// Without X-flip, screen column `x` of a sprite (left to right) shows bit `7 - x`
/// of its tile row, the leftmost pixel being bit 7: the low colour bit comes from
/// the row's first byte and the high one from its second.
pub proof fn lemma_sprite_columns(rom: Seq<u8>, ly: u8, lcdc: u8, s: Sprite, x: int)
    requires
        0 <= x < 8,
        s.flags & 0x20 == 0,
    ensures
        ({
            let a = sprite_line_address(ly, lcdc, s);
            let b = (7 - x) as u8;
            sprite_line_color(rom, ly, lcdc, s, x) == 2 * ((rom[a + 1] >> b) & 1) + ((rom[a] >> b)
                & 1)
        }),
{
    let a = sprite_line_address(ly, lcdc, s);
    let b = (7 - x) as u8;
    let lo = rom[a];
    let hi = rom[a + 1];
    assert(b < 8 ==> (((hi >> b) & 1u8) << 1u8) | ((lo >> b) & 1u8) == 2 * ((hi >> b) & 1) + ((
    lo >> b) & 1)) by (bit_vector);
}

/// Drawing a sprite on line `ly` changes only the eight screen pixels of that line
/// that it covers, from x = `sx - 8`. There, a pixel of colour 0 leaves the screen
/// as it is, and so does a pixel of a sprite with the OBJ-to-BG priority flag (OAM
/// flag 0x80) over a non-zero screen pixel; any other pixel shows its colour through
/// OBP0 (0xFF48), or OBP1 (0xFF49) when OAM flag 0x10 is set.
pub proof fn lemma_sprite_drawing(rom: Seq<u8>, ly: u8, lcdc: u8, screen: Seq<u8>, s: Sprite, i: int)
    requires
        0 <= i < screen.len(),
    ensures
        ({
            let r = apply_sprite(rom, ly, lcdc, screen, s);
            let x = i - ly * 160 - (s.sx - 8);
            let c = sprite_line_color(rom, ly, lcdc, s, x);
            let obp = if s.flags & 0x10 != 0 {
                rom[0xFF49]
            } else {
                rom[0xFF48]
            };
            &&& r.len() == screen.len()
            &&& !(ly * 160 <= i < ly * 160 + 160 && 0 <= x < 8) ==> r[i] == screen[i]
            &&& (ly * 160 <= i < ly * 160 + 160 && 0 <= x < 8) ==> {
                &&& (c == 0 || (s.flags & 0x80 != 0 && screen[i] != 0)) ==> r[i] == screen[i]
                &&& (c != 0 && (s.flags & 0x80 == 0 || screen[i] == 0)) ==> r[i] == (obp >> (2
                    * c) as u8) & 3
            }
        }),
{
}

/// Y-flipping a sprite mirrors the rows that it shows: with OAM flag 0x40 set, line
/// `ly` shows row `h - 1 - r` of a sprite `h` pixels high (16 when LCDC bit 2 is set,
/// 8 otherwise) where it shows row `r = ly - (sy - 16)` without it.
pub proof fn lemma_sprite_y_flip(ly: u8, lcdc: u8, s: Sprite)
    ensures
        ({
            let h: int = if lcdc & 4 != 0 {
                16
            } else {
                8
            };
            let r = ly - (s.sy - 16);
            &&& sprite_line_row(ly, lcdc, Sprite { flags: s.flags & 0xBF, ..s }) == r
            &&& sprite_line_row(ly, lcdc, Sprite { flags: s.flags | 0x40, ..s }) == h - 1 - r
        }),
{
    let f = s.flags;
    assert((f | 0x40u8) & 0x40u8 != 0) by (bit_vector);
    assert((f & 0xBFu8) & 0x40u8 == 0) by (bit_vector);
}

/// The fetcher reads the same rows: without Y-flip row `ly - (sy - 16)` of the
/// sprite, with it the row counted from the bottom of a sprite 16 (LCDC bit 2 set)
/// or 8 pixels high, all in 8-bit arithmetic.
pub proof fn lemma_fetch_row_y_flip(p: PpuModel, s: Sprite)
    ensures
        ({
            let r = (p.ly - (s.sy - 16)) % 256;
            let h: int = if p.lcdc & 4 != 0 {
                16
            } else {
                8
            };
            &&& sprite_row(p, Sprite { flags: s.flags & 0xBF, ..s }) == r
            &&& sprite_row(p, Sprite { flags: s.flags | 0x40, ..s }) == (h - 1 - r) % 256
        }),
{
    let f = s.flags;
    assert((f | 0x40u8) & 0x40u8 != 0) by (bit_vector);
    assert((f & 0xBFu8) & 0x40u8 == 0) by (bit_vector);
    let row = p.ly.wrapping_sub(s.sy.wrapping_sub(16));
    assert(row == (p.ly - (s.sy - 16)) % 256);
    let h8: u8 = if p.lcdc & 4u8 != 0 {
        15
    } else {
        7
    };
    assert(h8.wrapping_sub(row) == (h8 - row) % 256);
    assert((h8 - row) % 256 == (h8 - (p.ly - (s.sy - 16))) % 256) by (nonlinear_arith)
        requires
            row == (p.ly - (s.sy - 16)) % 256,
    ;
}

} // verus!
