use gameroy::draw::{
    draw_background, draw_screen, draw_sprites, draw_tile, draw_tiles, draw_window,
};
use gameroy::ppu::Ppu;

fn memory_with_tile_one() -> Vec<u8> {
    let mut rom = vec![0u8; 0x10000];
    // tile 1, row 0: colours 1, 2, 3, 0, 0, 0, 0, 0
    rom[0x8010] = 0b1010_0000;
    rom[0x8011] = 0b0110_0000;
    rom
}

#[test]
fn draw_tile_gives_64_pixels_row_by_row() {
    let rom = memory_with_tile_one();
    let pixels = draw_tile(&rom, 100, 50, 1, 0xE4, false);
    assert_eq!(pixels.len(), 64);
    assert_eq!(pixels[0], (100, 50, 1));
    assert_eq!(pixels[1], (101, 50, 2));
    assert_eq!(pixels[2], (102, 50, 3));
    assert_eq!(pixels[3], (103, 50, 0));
    assert_eq!(pixels[8], (100, 51, 0));
    assert_eq!(pixels[63], (107, 57, 0));
}

#[test]
fn draw_tile_applies_the_palette() {
    let rom = memory_with_tile_one();
    // palette 0x1B reverses the shades: colour c -> 3 - c
    let pixels = draw_tile(&rom, 0, 0, 1, 0x1B, false);
    assert_eq!(pixels[0].2, 2);
    assert_eq!(pixels[1].2, 1);
    assert_eq!(pixels[2].2, 0);
    assert_eq!(pixels[3].2, 3);
}

#[test]
fn draw_tile_with_alpha_skips_colour_zero() {
    let rom = memory_with_tile_one();
    let pixels = draw_tile(&rom, -3, 7, 1, 0xE4, true);
    assert_eq!(pixels, vec![(-3, 7, 1), (-2, 7, 2), (-1, 7, 3)]);
}

#[test]
fn draw_tiles_draws_384_tiles_16_per_row() {
    let rom = memory_with_tile_one();
    let pixels = draw_tiles(&rom, 0xE4);
    assert_eq!(pixels.len(), 384 * 64);
    // tile 1 is the second of the first row
    assert_eq!(pixels[64], (8, 0, 1));
    // tile 17 starts the second row
    assert_eq!(pixels[17 * 64], (8, 8, 0));
}

#[test]
fn draw_background_and_window_read_their_maps() {
    let mut rom = memory_with_tile_one();
    rom[0x9800] = 1;
    rom[0x9C01] = 1;
    let bg = draw_background(&rom, 0xE4);
    assert_eq!(bg.len(), 1024 * 64);
    assert_eq!(bg[0], (0, 0, 1));
    assert_eq!(bg[64], (8, 0, 0));
    let win = draw_window(&rom, 0xE4);
    assert_eq!(win.len(), 1024 * 64);
    assert_eq!(win[0], (0, 0, 0));
    assert_eq!(win[64 + 2], (10, 0, 3));
}

#[test]
fn draw_sprites_skips_sprites_off_the_top_left() {
    let mut rom = memory_with_tile_one();
    // sprite 0 at screen (0, 0), tile 1, palette OBP1
    rom[0xFE00] = 16;
    rom[0xFE01] = 8;
    rom[0xFE02] = 1;
    rom[0xFE03] = 0x10;
    rom[0xFF49] = 0xE4;
    // the other 39 stand at (-8, -16): skipped
    let pixels = draw_sprites(&rom);
    assert_eq!(pixels, vec![(0, 0, 1), (1, 0, 2), (2, 0, 3)]);
}

#[test]
fn draw_screen_draws_background_window_and_sprites() {
    let mut rom = memory_with_tile_one();
    rom[0x9800] = 1;
    let mut ppu = Ppu::default();
    ppu.set_lcdc(0x91);
    ppu.set_bgp(0xE4);
    ppu.set_scx(4);
    let pixels = draw_screen(&rom, &ppu);
    // 19 rows of 21 tiles of background, no window, no sprites
    assert_eq!(pixels.len(), 19 * 21 * 64);
    // the first tile is shifted left by SCX
    assert_eq!(pixels[0], (-4, 0, 1));
    // with the window and sprites on
    ppu.set_lcdc(0xB3);
    ppu.set_wx(8 * 20);
    ppu.set_wy(8 * 18);
    let pixels = draw_screen(&rom, &ppu);
    // the window adds 1 x 1 tile; all sprites stand off the screen
    assert_eq!(pixels.len(), (19 * 21 + 1) * 64);
}
