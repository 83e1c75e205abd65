use gameroy::consts::{IF, SCREEN_HEIGHT, SCREEN_WIDTH};
use gameroy::gameboy::GameBoy;
use gameroy::ppu::{Ppu, Sprite};
use gameroy::scanline::draw_scan_line;
use gameroy::update::{PpuEvent, PpuFault};

const FRAME: u64 = 70224;

/// Tile 0 row data: low plane all ones, high plane all zeros (colour 1), and a
/// background map of tile 0 everywhere.
fn gameboy_with_plain_background() -> Box<GameBoy> {
    let mut gb = Box::new(GameBoy::new());
    for row in 0..8 {
        gb.memory[0x8000 + row * 2] = 0xFF;
        gb.memory[0x8000 + row * 2 + 1] = 0x00;
    }
    // LCD on, background on, tile data at 0x8000, map at 0x9800
    gb.ppu.set_lcdc(0x91);
    gb.ppu.set_bgp(0xE4);
    gb
}

/// Run the unit until the clock, running no hook at V-Blank.
fn run_until(gb: &mut GameBoy, clock: u64) -> usize {
    gb.clock_count = clock;
    let mut vblanks = 0;
    loop {
        match Ppu::update(gb) {
            Ok(PpuEvent::Finished) => return vblanks,
            Ok(PpuEvent::VBlank) => {
                vblanks += 1;
                Ppu::end_v_blank(gb);
            }
            Err(PpuFault) => panic!("ppu fault"),
        }
    }
}

#[test]
fn power_on_registers_are_zero() {
    let ppu = Ppu::default();
    assert_eq!(ppu.lcdc(), 0);
    assert_eq!(ppu.stat(), 0);
    assert_eq!(ppu.ly(), 0);
    assert!(ppu.screen.iter().all(|&p| p == 0));
    assert_eq!(ppu.sprite_buffer_len, 0);
}

#[test]
fn setters_and_getters_agree() {
    let mut ppu = Ppu::default();
    ppu.set_lcdc(0x91);
    ppu.set_stat(0x45);
    ppu.set_scy(3);
    ppu.set_scx(4);
    ppu.set_ly(5);
    ppu.set_lyc(6);
    ppu.set_bgp(0xE4);
    ppu.set_obp0(0xD2);
    ppu.set_obp1(0x1B);
    ppu.set_wx(7);
    ppu.set_wy(8);
    assert_eq!(ppu.lcdc(), 0x91);
    assert_eq!(ppu.stat(), 0x45);
    assert_eq!(ppu.scy(), 3);
    assert_eq!(ppu.scx(), 4);
    assert_eq!(ppu.ly(), 5);
    assert_eq!(ppu.lyc(), 6);
    assert_eq!(ppu.bgp(), 0xE4);
    assert_eq!(ppu.obp0(), 0xD2);
    assert_eq!(ppu.obp1(), 0x1B);
    assert_eq!(ppu.wx(), 7);
    assert_eq!(ppu.wy(), 8);
}

#[test]
fn v_blank_comes_once_per_frame_at_line_144() {
    let mut gb = gameboy_with_plain_background();
    gb.clock_count = 144 * 456 + 10;
    let r = Ppu::update(&mut gb);
    assert_eq!(r, Ok(PpuEvent::VBlank));
    assert_eq!(gb.ppu.ly(), 144);
    assert_eq!(gb.ppu.stat() & 3, 1);
    assert_eq!(gb.ppu.wyc, 0);
    // the V-Blank interrupt is requested once the hook has run
    assert_eq!(gb.memory[IF] & 1, 0);
    Ppu::end_v_blank(&mut gb);
    assert_eq!(gb.memory[IF] & 1, 1);
    assert_eq!(Ppu::update(&mut gb), Ok(PpuEvent::Finished));
    assert_eq!(gb.ppu.ly(), 144);
}

#[test]
fn a_frame_of_plain_background_has_shade_one_everywhere() {
    let mut gb = gameboy_with_plain_background();
    let vblanks = run_until(&mut gb, FRAME - 1);
    assert_eq!(vblanks, 1);
    assert_eq!(gb.ppu.screen.len(), SCREEN_WIDTH * SCREEN_HEIGHT);
    // colour 1 through palette 0xE4 is shade 1
    assert!(gb.ppu.screen.iter().all(|&p| p == 1));
}

#[test]
fn ly_follows_the_clock() {
    let mut gb = gameboy_with_plain_background();
    run_until(&mut gb, 10 * 456 + 3);
    assert_eq!(gb.ppu.ly(), 10);
    run_until(&mut gb, 152 * 456 + 400);
    assert_eq!(gb.ppu.ly(), 152);
    // a frame has 154 lines: line 153 shows before the next frame
    run_until(&mut gb, 153 * 456 + 1);
    assert_eq!(gb.ppu.ly(), 153);
    run_until(&mut gb, FRAME + 1);
    assert_eq!(gb.ppu.ly(), 0);
}

#[test]
fn lyc_zero_coincides_on_line_153() {
    let mut gb = gameboy_with_plain_background();
    gb.ppu.set_lyc(0);
    gb.ppu.set_stat(0x40);
    run_until(&mut gb, 153 * 456 + 12);
    assert_eq!(gb.memory[IF] & 2, 0);
    run_until(&mut gb, 153 * 456 + 13);
    assert_eq!(gb.ppu.stat() & 4, 4);
    assert_eq!(gb.memory[IF] & 2, 2);
}

#[test]
fn lyc_coincidence_sets_the_stat_flag_and_interrupt() {
    let mut gb = gameboy_with_plain_background();
    gb.ppu.set_lyc(2);
    gb.ppu.set_stat(0x40);
    run_until(&mut gb, 2 * 456 + 3);
    assert_eq!(gb.memory[IF] & 2, 0);
    run_until(&mut gb, 2 * 456 + 5);
    assert_eq!(gb.ppu.stat() & 4, 4);
    assert_eq!(gb.memory[IF] & 2, 2);
}

#[test]
fn scan_line_drawing_matches_the_pixel_pipeline() {
    let mut gb = gameboy_with_plain_background();
    // a second tile with a striped pattern, at the left edge of the map
    for row in 0..8 {
        gb.memory[0x8010 + row * 2] = 0xAA;
        gb.memory[0x8010 + row * 2 + 1] = 0x55;
    }
    gb.memory[0x9800] = 1;
    run_until(&mut gb, FRAME - 1);
    let pipeline_line: Vec<u8> = gb.ppu.screen[0..160].to_vec();
    // colours of tile 1, row 0: bits of 0xAA (low) and 0x55 (high)
    assert_eq!(&pipeline_line[0..8], &[1, 2, 1, 2, 1, 2, 1, 2]);
    assert!(pipeline_line[8..].iter().all(|&p| p == 1));

    let mut ppu = Ppu::default();
    ppu.set_lcdc(0x91);
    ppu.set_bgp(0xE4);
    ppu.set_ly(0);
    draw_scan_line(&gb.memory, &mut ppu);
    assert_eq!(&ppu.screen[0..160], &pipeline_line[..]);
    // other lines untouched
    assert!(ppu.screen[160..].iter().all(|&p| p == 0));
}

#[test]
fn scan_line_with_background_off_is_shade_zero() {
    let gb = gameboy_with_plain_background();
    let mut ppu = Ppu::default();
    for p in ppu.screen.iter_mut() {
        *p = 3;
    }
    ppu.set_lcdc(0x80);
    ppu.set_ly(5);
    draw_scan_line(&gb.memory, &mut ppu);
    assert!(ppu.screen[5 * 160..6 * 160].iter().all(|&p| p == 0));
    assert!(ppu.screen[..5 * 160].iter().all(|&p| p == 3));
    assert!(ppu.screen[6 * 160..].iter().all(|&p| p == 3));
}

#[test]
fn scan_line_draws_a_buffered_sprite() {
    let mut memory = vec![0u8; 0x10000];
    // tile 2: colour 3 everywhere
    for row in 0..8 {
        memory[0x8020 + row * 2] = 0xFF;
        memory[0x8020 + row * 2 + 1] = 0xFF;
    }
    memory[0xFF48] = 0x40; // OBP0: colour 3 -> shade 1
    let mut ppu = Ppu::default();
    ppu.set_lcdc(0x82); // sprites on, background off
    ppu.set_ly(20);
    ppu.sprite_buffer[0] = Sprite { sx: 18, sy: 30, t: 2, flags: 0 };
    ppu.sprite_buffer_len = 1;
    draw_scan_line(&memory, &mut ppu);
    let line = &ppu.screen[20 * 160..21 * 160];
    // the sprite covers x = 10..18
    assert!(line[..10].iter().all(|&p| p == 0));
    assert!(line[10..18].iter().all(|&p| p == 1));
    assert!(line[18..].iter().all(|&p| p == 0));
}

#[test]
fn drawing_in_mode_3_past_the_screen_faults() {
    let mut gb = gameboy_with_plain_background();
    let start = 150 * 456 + 10;
    run_until(&mut gb, start);
    // force the OAM search mode on a V-Blank line: drawing starts at dot 80
    gb.ppu.set_stat(2);
    gb.clock_count = start + 200;
    assert_eq!(Ppu::update(&mut gb), Err(PpuFault));
}

#[test]
fn oam_search_orders_sprites_by_decreasing_x() {
    let mut gb = gameboy_with_plain_background();
    // lcdc: sprites on
    gb.ppu.set_lcdc(0x93);
    let entries = [(16u8, 40u8), (16, 20), (16, 60), (16, 20), (100, 10)];
    for (i, (sy, sx)) in entries.iter().enumerate() {
        gb.memory[0xFE00 + i * 4] = *sy;
        gb.memory[0xFE00 + i * 4 + 1] = *sx;
        gb.memory[0xFE00 + i * 4 + 2] = i as u8;
    }
    // run into mode 2 of line 0 and past the search
    gb.clock_count = 3;
    Ppu::update(&mut gb).unwrap();
    assert_eq!(gb.ppu.sprite_buffer_len, 4);
    let xs: Vec<u8> = gb.ppu.sprite_buffer[..4].iter().map(|s| s.sx).collect();
    assert_eq!(xs, vec![60, 40, 20, 20]);
    // among equal x, the later OAM entry comes first
    assert_eq!(gb.ppu.sprite_buffer[2].t, 3);
    assert_eq!(gb.ppu.sprite_buffer[3].t, 1);
}

#[test]
fn oam_search_takes_at_most_ten_sprites() {
    let mut gb = gameboy_with_plain_background();
    for i in 0..40 {
        gb.memory[0xFE00 + i * 4] = 16;
        gb.memory[0xFE00 + i * 4 + 1] = 8 + i as u8;
        gb.memory[0xFE00 + i * 4 + 2] = i as u8;
    }
    gb.clock_count = 3;
    Ppu::update(&mut gb).unwrap();
    assert_eq!(gb.ppu.sprite_buffer_len, 10);
    // the first ten OAM entries, highest x first
    let ts: Vec<u8> = gb.ppu.sprite_buffer.iter().map(|s| s.t).collect();
    assert_eq!(ts, vec![9, 8, 7, 6, 5, 4, 3, 2, 1, 0]);
}

/// Run the unit one clock at a time, as an emulator that updates it after every
/// instruction would.
fn step_until(gb: &mut GameBoy, clock: u64) {
    while gb.clock_count < clock {
        gb.clock_count += 1;
        loop {
            match Ppu::update(gb) {
                Ok(PpuEvent::Finished) => break,
                Ok(PpuEvent::VBlank) => Ppu::end_v_blank(gb),
                Err(PpuFault) => panic!("ppu fault"),
            }
        }
    }
}

#[test]
fn sprites_show_over_the_background() {
    let mut gb = gameboy_with_plain_background();
    // tile 2: colour 3 everywhere
    for row in 0..8 {
        gb.memory[0x8020 + row * 2] = 0xFF;
        gb.memory[0x8020 + row * 2 + 1] = 0xFF;
    }
    gb.ppu.set_obp0(0x80); // colour 3 -> shade 2
    gb.ppu.set_lcdc(0x93); // sprites on
    // one sprite at screen (10, 0)
    gb.memory[0xFE00] = 16;
    gb.memory[0xFE01] = 18;
    gb.memory[0xFE02] = 2;
    gb.memory[0xFE03] = 0;
    step_until(&mut gb, 456 * 2);
    let line = &gb.ppu.screen[0..160];
    assert!(line[..10].iter().all(|&p| p == 1));
    assert!(line[10..18].iter().all(|&p| p == 2));
    assert!(line[18..].iter().all(|&p| p == 1));
}

#[test]
fn a_frame_leaves_the_cpu_registers_alone() {
    let mut gb = gameboy_with_plain_background();
    gb.ppu.set_scx(3);
    gb.ppu.set_scy(4);
    gb.ppu.set_lyc(200);
    gb.ppu.set_obp0(0x12);
    gb.ppu.set_obp1(0x34);
    gb.ppu.set_wx(100);
    gb.ppu.set_wy(120);
    gb.ppu.set_stat(0x78);
    run_until(&mut gb, FRAME - 1);
    assert_eq!(gb.ppu.lcdc(), 0x91);
    assert_eq!(gb.ppu.bgp(), 0xE4);
    assert_eq!(gb.ppu.scx(), 3);
    assert_eq!(gb.ppu.scy(), 4);
    assert_eq!(gb.ppu.lyc(), 200);
    assert_eq!(gb.ppu.obp0(), 0x12);
    assert_eq!(gb.ppu.obp1(), 0x34);
    assert_eq!(gb.ppu.wx(), 100);
    assert_eq!(gb.ppu.wy(), 120);
    assert_eq!(gb.ppu.stat() & 0xF8, 0x78);
    // memory changes only at IF
    assert!(gb.memory[..IF].iter().skip(0x8000 + 16).all(|&b| b == 0));
}

#[test]
fn updating_every_clock_equals_updating_once() {
    let mut once = gameboy_with_plain_background();
    once.memory[0x9800 + 33] = 1;
    let mut stepped = Box::new(GameBoy::new());
    stepped.memory.copy_from_slice(&once.memory[..]);
    stepped.ppu.set_lcdc(0x91);
    stepped.ppu.set_bgp(0xE4);
    let target = 3 * 456 + 200;
    run_until(&mut once, target);
    step_until(&mut stepped, target);
    assert!(once.ppu.screen[..] == stepped.ppu.screen[..]);
    assert_eq!(once.ppu.ly(), stepped.ppu.ly());
    assert_eq!(once.ppu.stat(), stepped.ppu.stat());
    assert!(once.memory[..] == stepped.memory[..]);
}

#[test]
fn sprites_show_when_a_whole_line_is_updated_at_once() {
    let mut gb = gameboy_with_plain_background();
    for row in 0..8 {
        gb.memory[0x8020 + row * 2] = 0xFF;
        gb.memory[0x8020 + row * 2 + 1] = 0xFF;
    }
    gb.ppu.set_obp0(0x80);
    gb.ppu.set_lcdc(0x93);
    gb.memory[0xFE00] = 16;
    gb.memory[0xFE01] = 18;
    gb.memory[0xFE02] = 2;
    let mut stepped = Box::new(GameBoy::new());
    stepped.memory.copy_from_slice(&gb.memory[..]);
    stepped.ppu.set_obp0(0x80);
    stepped.ppu.set_lcdc(0x93);
    stepped.ppu.set_bgp(0xE4);
    // one update over two lines: the sprite fetch does not drop cycles
    run_until(&mut gb, 456 * 2);
    assert_eq!(gb.ppu.ly(), 1);
    let line = &gb.ppu.screen[0..160];
    assert!(line[..10].iter().all(|&p| p == 1));
    assert!(line[10..18].iter().all(|&p| p == 2));
    assert!(line[18..].iter().all(|&p| p == 1));
    // the same as updating after every clock
    step_until(&mut stepped, 456 * 2);
    assert!(gb.ppu.screen[..] == stepped.ppu.screen[..]);
    assert!(gb.memory[..] == stepped.memory[..]);
    assert_eq!(gb.ppu.sprite_buffer_len, stepped.ppu.sprite_buffer_len);
}

#[test]
fn a_second_update_with_no_new_clock_changes_nothing() {
    let mut gb = gameboy_with_plain_background();
    run_until(&mut gb, 3 * 456 + 200);
    let screen = gb.ppu.screen.to_vec();
    let memory = gb.memory.to_vec();
    let stat = gb.ppu.stat();
    assert_eq!(Ppu::update(&mut gb), Ok(PpuEvent::Finished));
    assert!(gb.ppu.screen[..] == screen[..]);
    assert!(gb.memory[..] == memory[..]);
    assert_eq!(gb.ppu.stat(), stat);
}

#[test]
fn scan_line_with_background_off_needs_no_video_memory() {
    let memory = vec![0u8; 16];
    let mut ppu = Ppu::default();
    ppu.set_lcdc(0x80);
    ppu.set_ly(7);
    ppu.screen[7 * 160] = 2;
    draw_scan_line(&memory, &mut ppu);
    assert!(ppu.screen[7 * 160..8 * 160].iter().all(|&p| p == 0));
}

#[test]
fn updating_in_parts_across_v_blank_equals_updating_once() {
    let mut once = gameboy_with_plain_background();
    once.memory[0x9800 + 70] = 1;
    let mut parts = Box::new(GameBoy::new());
    parts.memory.copy_from_slice(&once.memory[..]);
    parts.ppu.set_lcdc(0x91);
    parts.ppu.set_bgp(0xE4);
    let target = FRAME + 145 * 456 + 17;
    assert_eq!(run_until(&mut once, target), 2);
    let mut vblanks = run_until(&mut parts, 100 * 456);
    vblanks += run_until(&mut parts, 150 * 456 + 3);
    vblanks += run_until(&mut parts, target);
    assert_eq!(vblanks, 2);
    assert!(once.ppu.screen[..] == parts.ppu.screen[..]);
    assert_eq!(once.ppu.ly(), parts.ppu.ly());
    assert_eq!(once.ppu.stat(), parts.ppu.stat());
    assert!(once.memory[..] == parts.memory[..]);
}
