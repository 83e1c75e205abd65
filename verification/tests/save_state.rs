use gameroy::ppu::{Ppu, Sprite};
use gameroy::save_state::{LoadStateError, PPU_STATE_LEN};

#[test]
fn sprite_state_round_trip() {
    let s = Sprite { sx: 1, sy: 2, t: 3, flags: 4 };
    let mut data = vec![9];
    s.save_state(&mut data);
    assert_eq!(data, vec![9, 1, 2, 3, 4]);
    let mut back = Sprite::default();
    assert_eq!(back.load_state(&data[1..]), Ok(4));
    assert_eq!(back, s);
}

#[test]
fn sprite_load_fails_on_short_data() {
    let mut s = Sprite { sx: 1, sy: 2, t: 3, flags: 4 };
    assert_eq!(s.load_state(&[7, 7, 7]), Err(LoadStateError::UnexpectedEof));
    assert_eq!(s, Sprite { sx: 1, sy: 2, t: 3, flags: 4 });
}

#[test]
fn ppu_state_round_trip() {
    let mut ppu = Ppu::default();
    ppu.screen[5] = 3;
    ppu.screen[23039] = 2;
    ppu.sprite_buffer[9] = Sprite { sx: 10, sy: 20, t: 30, flags: 40 };
    ppu.sprite_buffer_len = 10;
    ppu.set_lcdc(0x91);
    ppu.set_stat(0x42);
    ppu.set_scy(1);
    ppu.set_scx(2);
    ppu.set_ly(3);
    ppu.set_lyc(4);
    ppu.set_bgp(0xE4);
    ppu.set_wy(5);
    ppu.set_wx(6);
    ppu.set_obp0(0x11);
    let mut data = Vec::new();
    ppu.save_state(&mut data);
    assert_eq!(data.len(), PPU_STATE_LEN);
    assert_eq!(data[5], 3);
    assert_eq!(&data[23040 + 36..23040 + 40], &[10, 20, 30, 40]);
    assert_eq!(&data[23080..23091], &[10, 0, 0x91, 0x42, 1, 2, 3, 4, 0xE4, 5, 6]);
    assert_eq!(&data[23091..], &[0; 8]);

    let mut other = Ppu::default();
    other.set_obp0(0x77);
    data.extend_from_slice(&[1, 2, 3]);
    assert_eq!(other.load_state(&data), Ok(PPU_STATE_LEN));
    assert_eq!(other.screen[5], 3);
    assert_eq!(other.screen[23039], 2);
    assert_eq!(other.sprite_buffer[9], Sprite { sx: 10, sy: 20, t: 30, flags: 40 });
    assert_eq!(other.lcdc(), 0x91);
    assert_eq!(other.stat(), 0x42);
    assert_eq!(other.wx(), 6);
    // the object palettes are not part of the state
    assert_eq!(other.obp0(), 0x77);
}

#[test]
fn ppu_load_fails_on_short_data_after_loading_what_it_holds() {
    let mut ppu = Ppu::default();
    ppu.set_lcdc(0x12);
    ppu.set_bgp(0x34);
    // the data ends inside the one-byte fields: up to LCDC
    let data = vec![1u8; 23083];
    assert_eq!(ppu.load_state(&data), Err(LoadStateError::UnexpectedEof));
    assert_eq!(ppu.screen[0], 1);
    assert_eq!(ppu.sprite_buffer[9], Sprite { sx: 1, sy: 1, t: 1, flags: 1 });
    assert_eq!(ppu.lcdc(), 1);
    assert_eq!(ppu.stat(), 0);
    assert_eq!(ppu.bgp(), 0x34);
    // data that ends inside the screen loads nothing
    let mut other = Ppu::default();
    other.set_lcdc(0x12);
    assert_eq!(other.load_state(&[3u8; 100]), Err(LoadStateError::UnexpectedEof));
    assert_eq!(other.screen[0], 0);
    assert_eq!(other.lcdc(), 0x12);
    let _ = PPU_STATE_LEN;
}

#[test]
fn the_update_clock_is_saved_little_endian() {
    let mut gb = Box::new(gameroy::gameboy::GameBoy::new());
    gb.clock_count = 0x0102;
    assert_eq!(
        gameroy::ppu::Ppu::update(&mut gb),
        Ok(gameroy::update::PpuEvent::Finished)
    );
    let mut data = Vec::new();
    gb.ppu.save_state(&mut data);
    assert_eq!(&data[23091..], &[0x02, 0x01, 0, 0, 0, 0, 0, 0]);
}
