//! The pixel-processing unit: its registers, its internal state, and the
//! mathematical model that the contracts speak of.
use crate::fifo::PixelFifo;
use vstd::prelude::*;

verus! {

/// The number of pixels on the screen (144 lines of 160 pixels).
pub const SCREEN_LEN: usize = 23040;

/// One entry of the object attribute memory (OAM).
#[derive(PartialEq, Eq, Structural, Clone, Copy, Default, Debug)]
pub struct Sprite {
    pub sx: u8,
    pub sy: u8,
    pub t: u8,
    pub flags: u8,
}

#[derive(PartialEq, Eq)]
pub struct Ppu {
    /// The current screen been render.
    /// Each pixel is a shade of gray, from 0 to 3
    pub screen: [u8; 23040],
    /// sprites that will be rendered in the next mode 3 scanline
    pub sprite_buffer: [Sprite; 10],
    /// the length of the sprite_buffer
    pub sprite_buffer_len: u8,
    /// Window Internal Line Counter
    pub wyc: u8,
    /// FF40: LCD Control Register
    pub lcdc: u8,
    /// FF41: LCD Status Register
    pub stat: u8,
    /// FF42: Scroll Y Register
    pub scy: u8,
    /// FF43: Scroll x Register
    pub scx: u8,
    /// FF44: LCDC Y-Coordinate
    pub ly: u8,
    /// FF45: LY Compare
    pub lyc: u8,
    /// FF47: BG & Window Pallete Data
    pub bgp: u8,
    /// FF48: Object Palette 0
    pub obp0: u8,
    /// FF49: Object Palette 1
    pub obp1: u8,
    /// FF4A: Window Y Position
    pub wy: u8,
    /// FF4B: Window X Position
    pub wx: u8,
    /// The unit's internal state: the pixel FIFOs, the pixel fetcher and the
    /// position in the current scanline.
    pub internals: PpuInternals,
}

/// The internal state of the pixel-processing unit, which only the library reads
/// and writes.
#[derive(PartialEq, Eq)]
pub struct PpuInternals {
    /// Last clock cycle where the PPU was updated
    pub(crate) last_clock_count: u64,
    pub(crate) background_fifo: PixelFifo,
    pub(crate) sprite_fifo: PixelFifo,
    // pixel fetcher
    pub(crate) fetcher_step: u8,
    // the first push to fifo in a scanline is skipped
    pub(crate) fetcher_skipped_first_push: bool,
    /// If it is currentlly fetching a sprite
    pub(crate) sprite_fetching: bool,
    pub(crate) fetcher_cycle: bool,
    /// the tile x position that the pixel fetcher is in
    pub(crate) fetcher_x: u8,
    pub(crate) fetch_tile_number: u8,
    pub(crate) fetch_tile_address: u16,
    pub(crate) fetch_tile_data_low: u8,
    pub(crate) fetch_tile_data_hight: u8,
    pub(crate) reach_window: bool,
    pub(crate) is_in_window: bool,
    // the current x position in the current scanline
    pub(crate) curr_x: u8,
    // if it is currenlty discarting pixels at the start of the scanline
    pub(crate) discarting: bool,
}

/// The internal state of the unit, with each pixel FIFO taken as the sequence of
/// pixels it holds.
#[verifier::ext_equal]
pub struct InternalsModel {
    pub last_clock_count: u64,
    pub background_fifo: Seq<u8>,
    pub sprite_fifo: Seq<u8>,
    pub fetcher_step: u8,
    pub fetcher_skipped_first_push: bool,
    pub sprite_fetching: bool,
    pub fetcher_cycle: bool,
    pub fetcher_x: u8,
    pub fetch_tile_number: u8,
    pub fetch_tile_address: u16,
    pub fetch_tile_data_low: u8,
    pub fetch_tile_data_hight: u8,
    pub reach_window: bool,
    pub is_in_window: bool,
    pub curr_x: u8,
    pub discarting: bool,
}

impl View for PpuInternals {
    type V = InternalsModel;

    closed spec fn view(&self) -> InternalsModel {
        InternalsModel {
            last_clock_count: self.last_clock_count,
            background_fifo: self.background_fifo@,
            sprite_fifo: self.sprite_fifo@,
            fetcher_step: self.fetcher_step,
            fetcher_skipped_first_push: self.fetcher_skipped_first_push,
            sprite_fetching: self.sprite_fetching,
            fetcher_cycle: self.fetcher_cycle,
            fetcher_x: self.fetcher_x,
            fetch_tile_number: self.fetch_tile_number,
            fetch_tile_address: self.fetch_tile_address,
            fetch_tile_data_low: self.fetch_tile_data_low,
            fetch_tile_data_hight: self.fetch_tile_data_hight,
            reach_window: self.reach_window,
            is_in_window: self.is_in_window,
            curr_x: self.curr_x,
            discarting: self.discarting,
        }
    }
}

impl PpuInternals {
    pub(crate) broadcast proof fn lemma_view_is_fields(&self)
        ensures
            #[trigger] self@ == (InternalsModel {
                last_clock_count: self.last_clock_count,
                background_fifo: self.background_fifo@,
                sprite_fifo: self.sprite_fifo@,
                fetcher_step: self.fetcher_step,
                fetcher_skipped_first_push: self.fetcher_skipped_first_push,
                sprite_fetching: self.sprite_fetching,
                fetcher_cycle: self.fetcher_cycle,
                fetcher_x: self.fetcher_x,
                fetch_tile_number: self.fetch_tile_number,
                fetch_tile_address: self.fetch_tile_address,
                fetch_tile_data_low: self.fetch_tile_data_low,
                fetch_tile_data_hight: self.fetch_tile_data_hight,
                reach_window: self.reach_window,
                is_in_window: self.is_in_window,
                curr_x: self.curr_x,
                discarting: self.discarting,
            }),
    {
    }

    /// The pixel FIFOs hold at most fifteen pixels.
    pub proof fn lemma_capacity(&self)
        ensures
            self@.background_fifo.len() <= 15,
            self@.sprite_fifo.len() <= 15,
    {
        self.background_fifo.lemma_capacity();
        self.sprite_fifo.lemma_capacity();
    }
}

/// The whole state of the pixel-processing unit, with each pixel FIFO taken as the
/// sequence of pixels it holds.
#[verifier::ext_equal]
pub struct PpuModel {
    pub screen: Seq<u8>,
    pub sprite_buffer: Seq<Sprite>,
    pub sprite_buffer_len: u8,
    pub wyc: u8,
    pub lcdc: u8,
    pub stat: u8,
    pub scy: u8,
    pub scx: u8,
    pub ly: u8,
    pub lyc: u8,
    pub bgp: u8,
    pub obp0: u8,
    pub obp1: u8,
    pub wy: u8,
    pub wx: u8,
    pub last_clock_count: u64,
    pub background_fifo: Seq<u8>,
    pub sprite_fifo: Seq<u8>,
    pub fetcher_step: u8,
    pub fetcher_skipped_first_push: bool,
    pub sprite_fetching: bool,
    pub fetcher_cycle: bool,
    pub fetcher_x: u8,
    pub fetch_tile_number: u8,
    pub fetch_tile_address: u16,
    pub fetch_tile_data_low: u8,
    pub fetch_tile_data_hight: u8,
    pub reach_window: bool,
    pub is_in_window: bool,
    pub curr_x: u8,
    pub discarting: bool,
}

impl PpuModel {
    /// The well-formedness that every model of a `Ppu` has: the screen and the sprite
    /// buffer have their fixed sizes and a pixel FIFO holds at most fifteen pixels.
    pub open spec fn wf(self) -> bool {
        &&& self.screen.len() == SCREEN_LEN
        &&& self.sprite_buffer.len() == 10
        &&& self.background_fifo.len() <= 15
        &&& self.sprite_fifo.len() <= 15
    }
}

/// The state of a pixel-processing unit just after power-on.
pub open spec fn power_on_model() -> PpuModel {
    PpuModel {
        screen: Seq::new(SCREEN_LEN as nat, |i: int| 0u8),
        sprite_buffer: Seq::new(10, |i: int| Sprite { sx: 0, sy: 0, t: 0, flags: 0 }),
        sprite_buffer_len: 0,
        wyc: 0,
        lcdc: 0,
        stat: 0,
        scy: 0,
        scx: 0,
        ly: 0,
        lyc: 0,
        bgp: 0,
        obp0: 0,
        obp1: 0,
        wy: 0,
        wx: 0,
        last_clock_count: 0,
        background_fifo: Seq::empty(),
        sprite_fifo: Seq::empty(),
        fetcher_step: 0,
        fetcher_skipped_first_push: false,
        sprite_fetching: false,
        fetcher_cycle: false,
        fetcher_x: 0,
        fetch_tile_number: 0,
        fetch_tile_address: 0,
        fetch_tile_data_low: 0,
        fetch_tile_data_hight: 0,
        reach_window: false,
        is_in_window: false,
        curr_x: 0,
        discarting: false,
    }
}

impl View for Ppu {
    type V = PpuModel;

    open spec fn view(&self) -> PpuModel {
        PpuModel {
            screen: self.screen@,
            sprite_buffer: self.sprite_buffer@,
            sprite_buffer_len: self.sprite_buffer_len,
            wyc: self.wyc,
            lcdc: self.lcdc,
            stat: self.stat,
            scy: self.scy,
            scx: self.scx,
            ly: self.ly,
            lyc: self.lyc,
            bgp: self.bgp,
            obp0: self.obp0,
            obp1: self.obp1,
            wy: self.wy,
            wx: self.wx,
            last_clock_count: self.internals@.last_clock_count,
            background_fifo: self.internals@.background_fifo,
            sprite_fifo: self.internals@.sprite_fifo,
            fetcher_step: self.internals@.fetcher_step,
            fetcher_skipped_first_push: self.internals@.fetcher_skipped_first_push,
            sprite_fetching: self.internals@.sprite_fetching,
            fetcher_cycle: self.internals@.fetcher_cycle,
            fetcher_x: self.internals@.fetcher_x,
            fetch_tile_number: self.internals@.fetch_tile_number,
            fetch_tile_address: self.internals@.fetch_tile_address,
            fetch_tile_data_low: self.internals@.fetch_tile_data_low,
            fetch_tile_data_hight: self.internals@.fetch_tile_data_hight,
            reach_window: self.internals@.reach_window,
            is_in_window: self.internals@.is_in_window,
            curr_x: self.internals@.curr_x,
            discarting: self.internals@.discarting,
        }
    }
}

impl Ppu {
    /// Every `Ppu` has a well-formed model.
    pub proof fn lemma_wf(&self)
        ensures
            self@.wf(),
    {
        self.internals.lemma_capacity();
    }
}

impl Default for Ppu {
    fn default() -> (ppu: Self)
        ensures
            ppu@ == power_on_model(),
    {
        let ppu = Ppu {
            screen: [0u8; 23040],
            sprite_buffer: [Sprite { sx: 0, sy: 0, t: 0, flags: 0 }; 10],
            sprite_buffer_len: 0,
            wyc: 0,
            lcdc: 0,
            stat: 0,
            scy: 0,
            scx: 0,
            ly: 0,
            lyc: 0,
            bgp: 0,
            obp0: 0,
            obp1: 0,
            wy: 0,
            wx: 0,
            internals: PpuInternals {
                last_clock_count: 0,
                background_fifo: PixelFifo::new(),
                sprite_fifo: PixelFifo::new(),
                fetcher_step: 0,
                fetcher_skipped_first_push: false,
                sprite_fetching: false,
                fetcher_cycle: false,
                fetcher_x: 0,
                fetch_tile_number: 0,
                fetch_tile_address: 0,
                fetch_tile_data_low: 0,
                fetch_tile_data_hight: 0,
                reach_window: false,
                is_in_window: false,
                curr_x: 0,
                discarting: false,
            },
        };
        assert(ppu.screen@ =~= Seq::new(SCREEN_LEN as nat, |i: int| 0u8));
        assert(ppu.sprite_buffer@ =~= Seq::new(
            10,
            |i: int| Sprite { sx: 0, sy: 0, t: 0, flags: 0 },
        ));
        ppu
    }
}

impl Ppu {
    /// Set the ppu's lcdc.
    pub fn set_lcdc(&mut self, lcdc: u8)
        ensures
            final(self)@ == (PpuModel { lcdc, ..old(self)@ }),
    {
        self.lcdc = lcdc;
    }

    /// Get a reference to the ppu's lcdc.
    pub fn lcdc(&self) -> (r: u8)
        ensures
            r == self@.lcdc,
    {
        self.lcdc
    }

    /// Set the ppu's stat.
    pub fn set_stat(&mut self, stat: u8)
        ensures
            final(self)@ == (PpuModel { stat, ..old(self)@ }),
    {
        self.stat = stat;
    }

    /// Get a reference to the ppu's stat.
    pub fn stat(&self) -> (r: u8)
        ensures
            r == self@.stat,
    {
        self.stat
    }

    /// Set the ppu's scy.
    pub fn set_scy(&mut self, scy: u8)
        ensures
            final(self)@ == (PpuModel { scy, ..old(self)@ }),
    {
        self.scy = scy;
    }

    /// Get a reference to the ppu's scy.
    pub fn scy(&self) -> (r: u8)
        ensures
            r == self@.scy,
    {
        self.scy
    }

    /// Set the ppu's scx.
    pub fn set_scx(&mut self, scx: u8)
        ensures
            final(self)@ == (PpuModel { scx, ..old(self)@ }),
    {
        self.scx = scx;
    }

    /// Get a reference to the ppu's scx.
    pub fn scx(&self) -> (r: u8)
        ensures
            r == self@.scx,
    {
        self.scx
    }

    /// Set the ppu's ly.
    pub fn set_ly(&mut self, ly: u8)
        ensures
            final(self)@ == (PpuModel { ly, ..old(self)@ }),
    {
        self.ly = ly;
    }

    /// Get a reference to the ppu's ly.
    pub fn ly(&self) -> (r: u8)
        ensures
            r == self@.ly,
    {
        self.ly
    }

    /// Set the ppu's lyc.
    pub fn set_lyc(&mut self, lyc: u8)
        ensures
            final(self)@ == (PpuModel { lyc, ..old(self)@ }),
    {
        self.lyc = lyc;
    }

    /// Get a reference to the ppu's lyc.
    pub fn lyc(&self) -> (r: u8)
        ensures
            r == self@.lyc,
    {
        self.lyc
    }

    /// Set the ppu's bgp.
    pub fn set_bgp(&mut self, bgp: u8)
        ensures
            final(self)@ == (PpuModel { bgp, ..old(self)@ }),
    {
        self.bgp = bgp;
    }

    /// Get a reference to the ppu's bgp.
    pub fn bgp(&self) -> (r: u8)
        ensures
            r == self@.bgp,
    {
        self.bgp
    }

    /// Set the ppu's obp0.
    pub fn set_obp0(&mut self, obp0: u8)
        ensures
            final(self)@ == (PpuModel { obp0, ..old(self)@ }),
    {
        self.obp0 = obp0;
    }

    /// Get a reference to the ppu's obp0.
    pub fn obp0(&self) -> (r: u8)
        ensures
            r == self@.obp0,
    {
        self.obp0
    }

    /// Set the ppu's obp1.
    pub fn set_obp1(&mut self, obp1: u8)
        ensures
            final(self)@ == (PpuModel { obp1, ..old(self)@ }),
    {
        self.obp1 = obp1;
    }

    /// Get a reference to the ppu's obp1.
    pub fn obp1(&self) -> (r: u8)
        ensures
            r == self@.obp1,
    {
        self.obp1
    }

    /// Set the ppu's wx.
    pub fn set_wx(&mut self, wx: u8)
        ensures
            final(self)@ == (PpuModel { wx, ..old(self)@ }),
    {
        self.wx = wx;
    }

    /// Get a reference to the ppu's wx.
    pub fn wx(&self) -> (r: u8)
        ensures
            r == self@.wx,
    {
        self.wx
    }

    /// Set the ppu's wy.
    pub fn set_wy(&mut self, wy: u8)
        ensures
            final(self)@ == (PpuModel { wy, ..old(self)@ }),
    {
        self.wy = wy;
    }

    /// Get a reference to the ppu's wy.
    pub fn wy(&self) -> (r: u8)
        ensures
            r == self@.wy,
    {
        self.wy
    }
}

} // verus!
