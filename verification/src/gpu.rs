//! The video RAM and the cache of decoded tile pixels that is kept in step
//! with it. The pixel pipeline itself is not part of this crate.

use vstd::prelude::*;
use crate::utils::{bit_of, bit_weight, lemma_bit_weight, lemma_single_bit};

verus! {

/// Bytes of video RAM.
pub const VRAM_SIZE: usize = 0x2000;

/// Bytes of video RAM, from its start, that hold tile data.
pub const TILE_DATA_SIZE: usize = 0x1800;

/// Tiles in the cache.
pub const TILE_COUNT: usize = 384;

/// Pixels in the cache: 8 rows of 8 pixels for each tile.
pub const PIXEL_COUNT: usize = 24576;

/// One of the four shades of a pixel.
#[derive(Clone, Copy, Debug, PartialEq, Eq)]
pub enum PixelGrayScale {
    Zero,
    One,
    Two,
    Three,
}

impl PixelGrayScale {
    /// The shade whose low bit is `b1` and whose high bit is `b2`.
    pub open spec fn of_bools(b1: bool, b2: bool) -> PixelGrayScale {
        if b1 && b2 {
            PixelGrayScale::Three
        } else if b2 {
            PixelGrayScale::Two
        } else if b1 {
            PixelGrayScale::One
        } else {
            PixelGrayScale::Zero
        }
    }

    pub fn from_bools(b1: bool, b2: bool) -> (r: PixelGrayScale)
        ensures
            r == PixelGrayScale::of_bools(b1, b2),
    {
        match (b1, b2) {
            (true, true) => PixelGrayScale::Three,
            (false, true) => PixelGrayScale::Two,
            (true, false) => PixelGrayScale::One,
            (false, false) => PixelGrayScale::Zero,
        }
    }
}

/// The shade of pixel `index` of the tile data in `vram`, the pixels counted
/// row by row and tile by tile. A row of eight pixels is held in two bytes:
/// the first gives each pixel's low bit, the second its high bit, and the
/// leftmost pixel of the row sits in bit 7 of both.
pub open spec fn pixel_at(vram: Seq<u8>, index: int) -> PixelGrayScale {
    let first = (index / 8) * 2;
    let weight = bit_weight((7 - index % 8) as u8);
    PixelGrayScale::of_bools(bit_of(vram[first], weight), bit_of(vram[first + 1], weight))
}

/// The shade of the pixel in column `column` of row `row` of tile `tile`.
pub open spec fn pixel_of(vram: Seq<u8>, tile: int, row: int, column: int) -> PixelGrayScale {
    pixel_at(vram, tile * 64 + row * 8 + column)
}

pub struct GPU {
    vram: Vec<u8>,
    tile_cache: Vec<PixelGrayScale>,
}

impl GPU {
    /// The contents of video RAM.
    pub closed spec fn view(&self) -> Seq<u8> {
        self.vram@
    }

    /// Video RAM has its size, and the cache holds the shade of every pixel
    /// of the tile data as video RAM now gives it.
    pub closed spec fn wf(&self) -> bool {
        &&& self.vram@.len() == VRAM_SIZE
        &&& self.tile_cache@.len() == PIXEL_COUNT
        &&& forall|index: int|
            0 <= index < PIXEL_COUNT ==> #[trigger] self.tile_cache@[index] == pixel_at(self.vram@, index)
    }

    pub fn new() -> (g: GPU)
        ensures
            g.wf(),
            g@ == Seq::new(VRAM_SIZE as nat, |i: int| 0u8),
    {
        let vram: Vec<u8> = vec![0; VRAM_SIZE];
        let mut tile_cache: Vec<PixelGrayScale> = Vec::new();
        let mut index: usize = 0;
        while index < PIXEL_COUNT
            invariant
                index <= PIXEL_COUNT,
                tile_cache@.len() == index,
                forall|i: int| 0 <= i < index ==> #[trigger] tile_cache@[i] == PixelGrayScale::Zero,
            decreases PIXEL_COUNT - index,
        {
            tile_cache.push(PixelGrayScale::Zero);
            index += 1;
        }
        assert forall|i: int| 0 <= i < PIXEL_COUNT implies #[trigger] tile_cache@[i] == pixel_at(vram@, i) by {
            reveal(bit_of);
        }
        assert(vram@ =~= Seq::new(VRAM_SIZE as nat, |i: int| 0u8));
        GPU { vram, tile_cache }
    }

    pub fn read_vram(&self, address: usize) -> (r: u8)
        requires
            self.wf(),
            address < VRAM_SIZE,
        ensures
            r == self@[address as int],
    {
        self.vram[address]
    }

    pub fn write_vram(&mut self, address: usize, value: u8)
        requires
            old(self).wf(),
            address < VRAM_SIZE,
        ensures
            final(self).wf(),
            final(self)@ == old(self)@.update(address as int, value),
    {
        self.vram.set(address, value);

        if address < TILE_DATA_SIZE {
            self.update_tile_cache(address);
        }
    }

    /// Decodes again the row of pixels that the byte at `address` belongs to.
    fn update_tile_cache(&mut self, address: usize)
        requires
            address < TILE_DATA_SIZE,
            old(self).vram@.len() == VRAM_SIZE,
            old(self).tile_cache@.len() == PIXEL_COUNT,
            forall|index: int|
                0 <= index < PIXEL_COUNT && index / 8 != address / 2 ==> #[trigger] old(self).tile_cache@[index]
                    == pixel_at(old(self).vram@, index),
        ensures
            final(self).wf(),
            final(self).vram@ == old(self).vram@,
    {
        let first_byte_address = address & 0xfffe;
        assert(address & 0xfffe == (address / 2) * 2) by (bit_vector)
            requires
                address < 0x1800,
        ;
        let byte1 = self.vram[first_byte_address];
        let byte2 = self.vram[first_byte_address + 1];

        let tile_index = address / 16;
        let row_index = (address % 16) / 2;
        let base = tile_index * 64 + row_index * 8;
        assert(base == (address / 2) * 8);
        let mut pixel_index: u8 = 0;
        while pixel_index < 8
            invariant
                pixel_index <= 8,
                base == (address / 2) * 8,
                address < TILE_DATA_SIZE,
                first_byte_address == (address / 2) * 2,
                self.vram@ == old(self).vram@,
                self.vram@.len() == VRAM_SIZE,
                self.tile_cache@.len() == PIXEL_COUNT,
                byte1 == self.vram@[first_byte_address as int],
                byte2 == self.vram@[first_byte_address + 1],
                forall|index: int|
                    0 <= index < PIXEL_COUNT && (index / 8 != address / 2 || index < base + pixel_index)
                        ==> #[trigger] self.tile_cache@[index] == pixel_at(self.vram@, index),
            decreases 8 - pixel_index,
        {
            let mask: u8 = 1u8 << (7 - pixel_index);
            proof {
                lemma_bit_weight((7 - pixel_index) as u8);
                lemma_single_bit(byte1, mask);
                lemma_single_bit(byte2, mask);
            }
            self.tile_cache.set(
                base + pixel_index as usize,
                PixelGrayScale::from_bools(byte1 & mask != 0, byte2 & mask != 0),
            );
            pixel_index += 1;
        }
    }

    /// The cached shade of one pixel of the tile data.
    pub fn tile_pixel(&self, tile: usize, row: usize, column: usize) -> (r: PixelGrayScale)
        requires
            self.wf(),
            tile < TILE_COUNT,
            row < 8,
            column < 8,
        ensures
            r == pixel_of(self@, tile as int, row as int, column as int),
    {
        self.tile_cache[tile * 64 + row * 8 + column]
    }

    /// The pixel pipeline is not modelled: time passing leaves video RAM and
    /// the cache as they are.
    pub fn step(&self, cycles: usize) {
    }
}

} // verus!
