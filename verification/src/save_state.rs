//! The save-state encoding of the pixel-processing unit: the bytes that a save
//! writes, and what a load takes back from them.
use crate::ppu::{Ppu, PpuModel, Sprite};
use vstd::bytes::{
    lemma_auto_spec_u64_to_from_le_bytes, spec_u64_from_le_bytes, spec_u64_to_le_bytes,
    u64_from_le_bytes, u64_to_le_bytes,
};
use vstd::prelude::*;
use vstd::slice::slice_subrange;

verus! {

broadcast use crate::ppu::PpuInternals::lemma_view_is_fields;

/// The number of bytes of a sprite's save state.
pub const SPRITE_STATE_LEN: usize = 4;

/// The number of bytes of the pixel-processing unit's save state.
pub const PPU_STATE_LEN: usize = 23099;

/// Why a load failed.
#[derive(PartialEq, Eq, Structural, Clone, Copy, Debug)]
pub enum LoadStateError {
    /// The data ended before the state was complete.
    UnexpectedEof,
}

/// The save state of a sprite: x, y, tile, flags.
pub open spec fn sprite_state_bytes(s: Sprite) -> Seq<u8> {
    seq![s.sx, s.sy, s.t, s.flags]
}

/// The sprite that four save-state bytes describe.
pub open spec fn sprite_from_state(b: Seq<u8>) -> Sprite {
    Sprite { sx: b[0], sy: b[1], t: b[2], flags: b[3] }
}

/// The save states of `sprites`, one after the other.
pub open spec fn sprites_state_bytes(sprites: Seq<Sprite>) -> Seq<u8> {
    Seq::new(sprites.len() * 4, |i: int| sprite_state_bytes(sprites[i / 4])[i % 4])
}

/// The save state of the unit: the screen, the sprite buffer, its length, WYC, LCDC,
/// STAT, SCY, SCX, LY, LYC, BGP, WY, WX (one byte each), then the clock of the last
/// update (eight bytes, little-endian). The object palettes, the pixel FIFOs and the
/// fetcher are not saved.
pub open spec fn ppu_state_bytes(p: PpuModel) -> Seq<u8> {
    p.screen + sprites_state_bytes(p.sprite_buffer) + seq![
        p.sprite_buffer_len,
        p.wyc,
        p.lcdc,
        p.stat,
        p.scy,
        p.scx,
        p.ly,
        p.lyc,
        p.bgp,
        p.wy,
        p.wx,
    ] + spec_u64_to_le_bytes(p.last_clock_count)
}

/// The unit `q` after loading the save state at the start of `d`.
pub open spec fn ppu_from_state(q: PpuModel, d: Seq<u8>) -> PpuModel {
    PpuModel {
        screen: d.subrange(0, 23040),
        sprite_buffer: Seq::new(
            10,
            |k: int| sprite_from_state(d.subrange(23040 + 4 * k, 23040 + 4 * k + 4)),
        ),
        sprite_buffer_len: d[23080],
        wyc: d[23081],
        lcdc: d[23082],
        stat: d[23083],
        scy: d[23084],
        scx: d[23085],
        ly: d[23086],
        lyc: d[23087],
        bgp: d[23088],
        wy: d[23089],
        wx: d[23090],
        last_clock_count: spec_u64_from_le_bytes(d.subrange(23091, 23099)),
        ..q
    }
}

/// The unit `q` after loading, field by field, the save state at the start of `d`,
/// which may end early: a field is loaded when `d` holds all of its bytes, and keeps
/// its value otherwise.
pub open spec fn ppu_from_partial_state(q: PpuModel, d: Seq<u8>) -> PpuModel {
    PpuModel {
        screen: if d.len() >= 23040 {
            d.subrange(0, 23040)
        } else {
            q.screen
        },
        sprite_buffer: Seq::new(
            10,
            |k: int|
                if d.len() >= 23040 + 4 * k + 4 {
                    sprite_from_state(d.subrange(23040 + 4 * k, 23040 + 4 * k + 4))
                } else {
                    q.sprite_buffer[k]
                },
        ),
        sprite_buffer_len: if d.len() > 23080 {
            d[23080]
        } else {
            q.sprite_buffer_len
        },
        wyc: if d.len() > 23081 {
            d[23081]
        } else {
            q.wyc
        },
        lcdc: if d.len() > 23082 {
            d[23082]
        } else {
            q.lcdc
        },
        stat: if d.len() > 23083 {
            d[23083]
        } else {
            q.stat
        },
        scy: if d.len() > 23084 {
            d[23084]
        } else {
            q.scy
        },
        scx: if d.len() > 23085 {
            d[23085]
        } else {
            q.scx
        },
        ly: if d.len() > 23086 {
            d[23086]
        } else {
            q.ly
        },
        lyc: if d.len() > 23087 {
            d[23087]
        } else {
            q.lyc
        },
        bgp: if d.len() > 23088 {
            d[23088]
        } else {
            q.bgp
        },
        wy: if d.len() > 23089 {
            d[23089]
        } else {
            q.wy
        },
        wx: if d.len() > 23090 {
            d[23090]
        } else {
            q.wx
        },
        last_clock_count: if d.len() >= 23099 {
            spec_u64_from_le_bytes(d.subrange(23091, 23099))
        } else {
            q.last_clock_count
        },
        ..q
    }
}

impl Sprite {
    /// Append the sprite's save state to `data`.
    pub fn save_state(&self, data: &mut Vec<u8>)
        ensures
            final(data)@ == old(data)@ + sprite_state_bytes(*self),
    {
        data.push(self.sx);
        data.push(self.sy);
        data.push(self.t);
        data.push(self.flags);
        assert(data@ =~= old(data)@ + sprite_state_bytes(*self));
    }

    /// Load the sprite from the save state at the start of `data`; the number of bytes
    /// read on success.
    pub fn load_state(&mut self, data: &[u8]) -> (r: Result<usize, LoadStateError>)
        ensures
            r is Err <==> data@.len() < 4,
            r is Err ==> r == Err::<usize, LoadStateError>(LoadStateError::UnexpectedEof)
                && *final(self) == *old(self),
            r is Ok ==> r == Ok::<usize, LoadStateError>(4) && *final(self) == sprite_from_state(
                data@,
            ),
    {
        if data.len() < 4 {
            return Err(LoadStateError::UnexpectedEof);
        }
        let sx = data[0];
        let sy = data[1];
        let t = data[2];
        let flags = data[3];
        *self = Sprite { sx, sy, t, flags };
        Ok(4)
    }
}

impl Ppu {
    /// Append the unit's save state to `data`.
    pub fn save_state(&self, data: &mut Vec<u8>)
        ensures
            final(data)@ == old(data)@ + ppu_state_bytes(self@),
    {
        let ghost p = self@;
        let ghost start = data@;
        let mut i: usize = 0;
        while i < 23040
            invariant
                i <= 23040,
                p == self@,
                p.screen.len() == 23040,
                data@ == start + p.screen.subrange(0, i as int),
            decreases 23040 - i,
        {
            data.push(self.screen[i]);
            assert(p.screen.subrange(0, i + 1) =~= p.screen.subrange(0, i as int).push(
                p.screen[i as int],
            ));
            i = i + 1;
        }
        assert(p.screen.subrange(0, 23040) =~= p.screen);
        let ghost after_screen = data@;
        let mut k: usize = 0;
        while k < 10
            invariant
                k <= 10,
                p == self@,
                p.sprite_buffer.len() == 10,
                data@ == after_screen + sprites_state_bytes(p.sprite_buffer.subrange(0, k as int)),
            decreases 10 - k,
        {
            let ghost before = data@;
            self.sprite_buffer[k].save_state(data);
            assert(sprites_state_bytes(p.sprite_buffer.subrange(0, k + 1)) =~= sprites_state_bytes(
                p.sprite_buffer.subrange(0, k as int),
            ) + sprite_state_bytes(p.sprite_buffer[k as int]));
            k = k + 1;
        }
        assert(p.sprite_buffer.subrange(0, 10) =~= p.sprite_buffer);
        data.push(self.sprite_buffer_len);
        data.push(self.wyc);
        data.push(self.lcdc);
        data.push(self.stat);
        data.push(self.scy);
        data.push(self.scx);
        data.push(self.ly);
        data.push(self.lyc);
        data.push(self.bgp);
        data.push(self.wy);
        data.push(self.wx);
        let mut clock = u64_to_le_bytes(self.internals.last_clock_count);
        data.append(&mut clock);
        assert(data@ =~= start + ppu_state_bytes(p));
    }

    /// Load the unit from the save state at the start of `data`, field by field; the
    /// number of bytes read on success. When the data ends early, the fields that it
    /// holds in full are loaded and the others keep their values.
    pub fn load_state(&mut self, data: &[u8]) -> (r: Result<usize, LoadStateError>)
        ensures
            r is Err <==> data@.len() < PPU_STATE_LEN,
            r is Err ==> r == Err::<usize, LoadStateError>(LoadStateError::UnexpectedEof)
                && final(self)@ == ppu_from_partial_state(old(self)@, data@),
            r is Ok ==> r == Ok::<usize, LoadStateError>(PPU_STATE_LEN) && final(self)@
                == ppu_from_state(old(self)@, data@),
    {
        let ghost q = self@;
        let ghost d = data@;
        let n = data.len();
        if n >= 23040 {
            let mut i: usize = 0;
            while i < 23040
                invariant
                    i <= 23040,
                    d == data@,
                    n == d.len(),
                    n >= 23040,
                    self@ == (PpuModel { screen: self@.screen, ..q }),
                    self@.screen.len() == 23040,
                    forall|j: int| 0 <= j < i ==> #[trigger] self@.screen[j] == d[j],
                decreases 23040 - i,
            {
                self.screen[i] = data[i];
                i = i + 1;
            }
            assert(self@.screen =~= d.subrange(0, 23040));
        }
        let ghost screen = self@.screen;
        assert(screen == ppu_from_partial_state(q, d).screen);
        let mut k: usize = 0;
        while k < 10
            invariant
                k <= 10,
                d == data@,
                n == d.len(),
                screen == ppu_from_partial_state(q, d).screen,
                self@ == (PpuModel { screen, sprite_buffer: self@.sprite_buffer, ..q }),
                self@.sprite_buffer.len() == 10,
                forall|j: int|
                    0 <= j < k ==> #[trigger] self@.sprite_buffer[j] == ppu_from_partial_state(
                        q,
                        d,
                    ).sprite_buffer[j],
                forall|j: int| k <= j < 10 ==> #[trigger] self@.sprite_buffer[j] == q.sprite_buffer[j],
            decreases 10 - k,
        {
            let at = 23040 + 4 * k;
            if n >= at + 4 {
                self.sprite_buffer[k] = Sprite {
                    sx: data[at],
                    sy: data[at + 1],
                    t: data[at + 2],
                    flags: data[at + 3],
                };
            }
            k = k + 1;
        }
        assert(self@.sprite_buffer =~= ppu_from_partial_state(q, d).sprite_buffer);
        if n > 23080 {
            self.sprite_buffer_len = data[23080];
        }
        if n > 23081 {
            self.wyc = data[23081];
        }
        if n > 23082 {
            self.lcdc = data[23082];
        }
        if n > 23083 {
            self.stat = data[23083];
        }
        if n > 23084 {
            self.scy = data[23084];
        }
        if n > 23085 {
            self.scx = data[23085];
        }
        if n > 23086 {
            self.ly = data[23086];
        }
        if n > 23087 {
            self.lyc = data[23087];
        }
        if n > 23088 {
            self.bgp = data[23088];
        }
        if n > 23089 {
            self.wy = data[23089];
        }
        if n > 23090 {
            self.wx = data[23090];
        }
        if n < PPU_STATE_LEN {
            return Err(LoadStateError::UnexpectedEof);
        }
        let clock = u64_from_le_bytes(slice_subrange(data, 23091, 23099));
        self.internals.last_clock_count = clock;
        assert(self@.sprite_buffer =~= ppu_from_state(q, d).sprite_buffer);
        Ok(PPU_STATE_LEN)
    }
}

/// Loading a sprite's save state gives the sprite back.
pub proof fn lemma_sprite_round_trip(s: Sprite, rest: Seq<u8>)
    ensures
        sprite_from_state(sprite_state_bytes(s) + rest) == s,
{
}

/// Loading a unit's save state restores every field that the state holds; the
/// fields it does not hold (the object palettes, the pixel FIFOs, the fetcher) keep
/// the values of the unit that loads.
pub proof fn lemma_ppu_round_trip(saved: PpuModel, loader: PpuModel, rest: Seq<u8>)
    requires
        saved.wf(),
    ensures
        ppu_state_bytes(saved).len() == PPU_STATE_LEN,
        ppu_from_state(loader, ppu_state_bytes(saved) + rest) == (PpuModel {
            screen: saved.screen,
            sprite_buffer: saved.sprite_buffer,
            sprite_buffer_len: saved.sprite_buffer_len,
            wyc: saved.wyc,
            lcdc: saved.lcdc,
            stat: saved.stat,
            scy: saved.scy,
            scx: saved.scx,
            ly: saved.ly,
            lyc: saved.lyc,
            bgp: saved.bgp,
            wy: saved.wy,
            wx: saved.wx,
            last_clock_count: saved.last_clock_count,
            ..loader
        }),
{
    lemma_auto_spec_u64_to_from_le_bytes();
    let d = ppu_state_bytes(saved) + rest;
    let sb = sprites_state_bytes(saved.sprite_buffer);
    assert(d.subrange(0, 23040) =~= saved.screen);
    assert forall|k: int| 0 <= k < 10 implies sprite_from_state(
        #[trigger] d.subrange(23040 + 4 * k, 23040 + 4 * k + 4),
    ) == saved.sprite_buffer[k] by {
        assert(d[23040 + 4 * k] == sb[4 * k]);
        assert(d[23040 + 4 * k + 1] == sb[4 * k + 1]);
        assert(d[23040 + 4 * k + 2] == sb[4 * k + 2]);
        assert(d[23040 + 4 * k + 3] == sb[4 * k + 3]);
        assert((4 * k) / 4 == k && (4 * k) % 4 == 0);
        assert((4 * k + 1) / 4 == k && (4 * k + 1) % 4 == 1);
        assert((4 * k + 2) / 4 == k && (4 * k + 2) % 4 == 2);
        assert((4 * k + 3) / 4 == k && (4 * k + 3) % 4 == 3);
    }
    assert(ppu_from_state(loader, d).sprite_buffer =~= saved.sprite_buffer);
    assert(d.subrange(23091, 23099) =~= spec_u64_to_le_bytes(saved.last_clock_count));
}

/// Saving a unit that was just loaded writes back the bytes it was loaded from.
pub proof fn lemma_load_save_round_trip(loader: PpuModel, d: Seq<u8>)
    requires
        d.len() >= PPU_STATE_LEN,
    ensures
        ppu_state_bytes(ppu_from_state(loader, d)) == d.subrange(0, PPU_STATE_LEN as int),
{
    lemma_auto_spec_u64_to_from_le_bytes();
    let p = ppu_from_state(loader, d);
    let sb = sprites_state_bytes(p.sprite_buffer);
    assert(spec_u64_to_le_bytes(spec_u64_from_le_bytes(d.subrange(23091, 23099))) == d.subrange(
        23091,
        23099,
    ));
    assert forall|i: int| 0 <= i < 40 implies #[trigger] sb[i] == d[23040 + i] by {
        let k = i / 4;
        assert(0 <= k < 10);
        assert(23040 + 4 * k + i % 4 == 23040 + i);
    }
    assert(ppu_state_bytes(p) =~= d.subrange(0, PPU_STATE_LEN as int));
}

} // verus!
