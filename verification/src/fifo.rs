//! The pixel FIFOs of the pixel-processing unit: a circular buffer of sixteen slots
//! that holds at most fifteen pixels.
use vstd::prelude::*;

verus! {

/// The two-bit colour index that a tile row (`lo`, `hi`) gives to bit `bit`
/// (bit 7 is the leftmost pixel of the row).
pub open spec fn tile_color(lo: u8, hi: u8, bit: u8) -> u8 {
    (((hi >> bit) & 1u8) << 1u8) | ((lo >> bit) & 1u8)
}

/// The eight background pixels of a tile row, leftmost first.
pub open spec fn background_row(lo: u8, hi: u8) -> Seq<u8> {
    Seq::new(8, |i: int| tile_color(lo, hi, (7 - i) as u8))
}

/// A sprite pixel as held in the sprite FIFO: colour in bits 0-1, the
/// background-priority flag in bit 3 and the palette number in bit 4.
pub open spec fn sprite_pixel(lo: u8, hi: u8, bit: u8, palette: bool, priority: bool) -> u8 {
    tile_color(lo, hi, bit) | (if priority { 8u8 } else { 0u8 }) | (if palette { 16u8 } else { 0u8 })
}

/// The sprite FIFO after mixing in the `8 - cut_off` rightmost pixels of a sprite row:
/// queued pixels that are transparent (colour 0) take the sprite pixel at their position,
/// the others stay; sprite pixels beyond the queue are appended.
pub open spec fn mix_sprite_row(
    queue: Seq<u8>,
    lo: u8,
    hi: u8,
    cut_off: u8,
    palette: bool,
    priority: bool,
) -> Seq<u8> {
    let n = 8 - cut_off;
    let len = if queue.len() >= n { queue.len() as int } else { n };
    Seq::new(
        len as nat,
        |j: int|
            if j < queue.len() {
                if j < n && queue[j] & 3u8 == 0 {
                    sprite_pixel(lo, hi, (n - 1 - j) as u8, palette, priority)
                } else {
                    queue[j]
                }
            } else {
                sprite_pixel(lo, hi, (n - 1 - j) as u8, palette, priority)
            },
    )
}

pub proof fn lemma_tile_color_small(lo: u8, hi: u8, bit: u8)
    ensures
        tile_color(lo, hi, bit) < 4,
{
    assert((((hi >> bit) & 1u8) << 1u8) | ((lo >> bit) & 1u8) < 4) by (bit_vector);
}

#[derive(PartialEq, Eq)]
pub struct PixelFifo {
    queue: [u8; 16],
    /// next position to push
    head: u8,
    /// next position to pop
    tail: u8,
}

impl PixelFifo {
    #[verifier::type_invariant]
    spec fn inv(self) -> bool {
        self.head < 16 && self.tail < 16
    }

    spec fn len_spec(self) -> int {
        (self.head as int - self.tail as int + 16) % 16
    }

    /// The pixels in the queue, the next one to leave first.
    pub closed spec fn view(self) -> Seq<u8> {
        Seq::new(self.len_spec() as nat, |i: int| self.queue@[(self.tail as int + i) % 16])
    }

    pub proof fn lemma_capacity(self)
        ensures
            self@.len() <= 15,
    {
    }

    pub fn new() -> (f: Self)
        ensures
            f@ == Seq::<u8>::empty(),
    {
        PixelFifo { queue: [0u8; 16], head: 0, tail: 0 }
    }

    pub fn is_empty(&self) -> (b: bool)
        ensures
            b == (self@.len() == 0),
    {
        proof {
            use_type_invariant(self);
        }
        self.head == self.tail
    }

    pub fn clear(&mut self)
        ensures
            final(self)@ == Seq::<u8>::empty(),
    {
        proof {
            use_type_invariant(&*self);
        }
        self.head = 0;
        self.tail = 0;
    }

    fn push(&mut self, pixel: u8)
        requires
            old(self)@.len() < 15,
        ensures
            final(self)@ == old(self)@.push(pixel),
    {
        proof {
            use_type_invariant(&*self);
        }
        let ghost before = self@;
        let h = self.head;
        self.queue[h as usize] = pixel;
        self.head = (h + 1) % 16;
        assert(self@ =~= before.push(pixel));
    }

    /// Queue the eight pixels of a background tile row.
    pub fn push_background(&mut self, tile_low: u8, tile_hight: u8)
        requires
            old(self)@.len() + 8 <= 15,
        ensures
            final(self)@ == old(self)@ + background_row(tile_low, tile_hight),
    {
        let ghost start = self@;
        let mut i: u8 = 8;
        while i > 0
            invariant
                i <= 8,
                start.len() + 8 <= 15,
                self@ =~= start + background_row(tile_low, tile_hight).subrange(0, 8 - i),
            decreases i,
        {
            i = i - 1;
            let color = (((tile_hight >> i) & 0x01) << 1) | ((tile_low >> i) & 0x01);
            self.push(color);
            assert(background_row(tile_low, tile_hight).subrange(0, 8 - i) =~= background_row(
                tile_low,
                tile_hight,
            ).subrange(0, 8 - (i + 1)).push(color));
        }
        assert(background_row(tile_low, tile_hight).subrange(0, 8) =~= background_row(
            tile_low,
            tile_hight,
        ));
    }

    fn len(&self) -> (n: u8)
        ensures
            n == self@.len(),
            n <= 15,
    {
        proof {
            use_type_invariant(self);
        }
        (self.head + 16 - self.tail) % 16
    }

    fn get_at(&self, j: u8) -> (v: u8)
        requires
            j < self@.len(),
        ensures
            v == self@[j as int],
    {
        proof {
            use_type_invariant(self);
        }
        self.queue[((self.tail as usize) + (j as usize)) % 16]
    }

    fn set_at(&mut self, j: u8, v: u8)
        requires
            j < old(self)@.len(),
        ensures
            final(self)@ == old(self)@.update(j as int, v),
    {
        proof {
            use_type_invariant(&*self);
        }
        let ghost before = self@;
        let idx = ((self.tail as usize) + (j as usize)) % 16;
        self.queue[idx] = v;
        assert forall|k: int| 0 <= k < before.len() && k != j implies self@[k] == before[k] by {
            assert((self.tail as int + k) % 16 != idx);
        }
        assert(self@ =~= before.update(j as int, v));
    }

    /// Mix a sprite row into the queue, dropping its `cut_off` leftmost pixels.
    pub fn push_sprite(
        &mut self,
        tile_low: u8,
        tile_hight: u8,
        cut_off: u8,
        palette: bool,
        background_priority: bool,
    )
        requires
            cut_off <= 8,
        ensures
            final(self)@ == mix_sprite_row(
                old(self)@,
                tile_low,
                tile_hight,
                cut_off,
                palette,
                background_priority,
            ),
    {
        let ghost start = self@;
        let ghost target = mix_sprite_row(
            start,
            tile_low,
            tile_hight,
            cut_off,
            palette,
            background_priority,
        );
        let prio: u8 = if background_priority { 8 } else { 0 };
        let pal: u8 = if palette { 16 } else { 0 };
        let n: u8 = 8 - cut_off;
        let len = self.len();
        let mut x: u8 = n;
        let mut j: u8 = 0;
        // overwrite pixels in fifo, but only if 0
        while j < len && x != 0
            invariant
                start == old(self)@,
                n == 8 - cut_off,
                len == start.len(),
                j <= len,
                j + x == n,
                target == mix_sprite_row(
                    start,
                    tile_low,
                    tile_hight,
                    cut_off,
                    palette,
                    background_priority,
                ),
                prio == (if background_priority { 8u8 } else { 0u8 }),
                pal == (if palette { 16u8 } else { 0u8 }),
                self@.len() == start.len(),
                forall|k: int| 0 <= k < j ==> #[trigger] self@[k] == target[k],
                forall|k: int| j <= k < start.len() ==> #[trigger] self@[k] == start[k],
            decreases x,
        {
            x = x - 1;
            let c = self.get_at(j) & 0b11;
            if c == 0 {
                let color = (((tile_hight >> x) & 0x01) << 1) | ((tile_low >> x) & 0x01);
                self.set_at(j, color | prio | pal);
            }
            j = j + 1;
        }
        if x == 0 {
            assert(self@ =~= target);
            return;
        }
        // write remained
        while x > 0
            invariant
                self@.len() == j,
                j + x == n,
                n <= 8,
                start.len() <= 15,
                j >= start.len(),
                target.len() == n as int,
                target == mix_sprite_row(
                    start,
                    tile_low,
                    tile_hight,
                    cut_off,
                    palette,
                    background_priority,
                ),
                prio == (if background_priority { 8u8 } else { 0u8 }),
                pal == (if palette { 16u8 } else { 0u8 }),
                forall|k: int| 0 <= k < j ==> #[trigger] self@[k] == target[k],
            decreases x,
        {
            x = x - 1;
            let color = (((tile_hight >> x) & 0x01) << 1) | ((tile_low >> x) & 0x01);
            assert(target[j as int] == sprite_pixel(tile_low, tile_hight, x, palette, background_priority));
            self.push(color | prio | pal);
            j = j + 1;
        }
        assert(self@ =~= target);
    }

    pub fn pop_front(&mut self) -> (r: Option<u8>)
        ensures
            old(self)@.len() == 0 ==> r == None::<u8> && final(self)@ == old(self)@,
            old(self)@.len() > 0 ==> r == Some(old(self)@[0]) && final(self)@ == old(
                self,
            )@.drop_first(),
    {
        proof {
            use_type_invariant(&*self);
        }
        if self.is_empty() {
            return None;
        }
        let ghost before = self@;
        let v = self.queue[self.tail as usize];
        self.tail = (self.tail + 1) % 16;
        assert(self@ =~= before.drop_first());
        Some(v)
    }
}

} // verus!
