//! Pixel buffers in cairo's `Rgb24` layout: one 32-bit native-endian word a
//! pixel, its upper byte unused, rows a stride apart.

pub mod frames;
pub mod history;
pub mod spiral;

use vstd::prelude::*;

verus! {

/// The widest `Rgb24` row cairo will give a stride for. Past it,
/// `cairo_format_stride_for_width` reports an invalid width.
pub const MAX_RGB24_WIDTH: u32 = 67108863;

/// Why a stride could not be had.
#[derive(Debug, Clone, Copy, PartialEq, Eq, Structural)]
pub enum StrideError {
    /// The width is too large for cairo to address.
    InvalidWidth,
}

/// cairo's `Format::Rgb24.stride_for_width`: four bytes a pixel, which keeps
/// every row aligned to four bytes, for any width under
/// [`MAX_RGB24_WIDTH`]; an error for a wider one.
pub fn rgb24_stride_for_width(width: u32) -> (stride: Result<i32, StrideError>)
    requires
        width <= i32::MAX,
    ensures
        width < MAX_RGB24_WIDTH ==> stride == Ok::<i32, StrideError>((4 * width) as i32),
        width >= MAX_RGB24_WIDTH ==> stride == Err::<i32, StrideError>(StrideError::InvalidWidth),
{
    if width >= MAX_RGB24_WIDTH {
        Err(StrideError::InvalidWidth)
    } else {
        Ok((4 * width) as i32)
    }
}

/// The word whose little-endian bytes are `bytes`.
pub open spec fn le_word(bytes: [u8; 4]) -> u32 {
    (bytes[0] as int + bytes[1] as int * 0x100 + bytes[2] as int * 0x10000 + bytes[3] as int
        * 0x1000000) as u32
}

/// The word whose big-endian bytes are `bytes`.
pub open spec fn be_word(bytes: [u8; 4]) -> u32 {
    (bytes[3] as int + bytes[2] as int * 0x100 + bytes[1] as int * 0x10000 + bytes[0] as int
        * 0x1000000) as u32
}

/// The order the four bytes of a word are laid out in memory. An `Rgb24`
/// surface holds each pixel as a word in the machine's own order.
#[derive(Debug, Clone, Copy, PartialEq, Eq, Structural)]
pub enum ByteOrder {
    Little,
    Big,
}

/// The word `bytes` hold, laid out in `order`.
pub open spec fn word_in(bytes: [u8; 4], order: ByteOrder) -> u32 {
    match order {
        ByteOrder::Little => le_word(bytes),
        ByteOrder::Big => be_word(bytes),
    }
}

/// The word the four bytes hold, laid out in `order`.
pub fn word_from_bytes(bytes: [u8; 4], order: ByteOrder) -> (word: u32)
    ensures
        word == word_in(bytes, order),
{
    let (b0, b1, b2, b3) = match order {
        ByteOrder::Little => (bytes[0], bytes[1], bytes[2], bytes[3]),
        ByteOrder::Big => (bytes[3], bytes[2], bytes[1], bytes[0]),
    };
    let word = (b0 as u32) | ((b1 as u32) << 8) | ((b2 as u32) << 16) | ((b3 as u32) << 24);
    proof {
        assert(word as int == b0 as int + b1 as int * 0x100 + b2 as int * 0x10000 + b3 as int
            * 0x1000000) by (bit_vector)
            requires
                word == (b0 as u32) | ((b1 as u32) << 8) | ((b2 as u32) << 16) | ((b3 as u32) << 24),
        ;
    }
    word
}

/// The four bytes of `word`, laid out in `order`.
pub fn bytes_of_word(word: u32, order: ByteOrder) -> (bytes: [u8; 4])
    ensures
        word_in(bytes, order) == word,
{
    let b0 = (word & 0xff) as u8;
    let b1 = ((word >> 8) & 0xff) as u8;
    let b2 = ((word >> 16) & 0xff) as u8;
    let b3 = ((word >> 24) & 0xff) as u8;
    proof {
        assert(b0 as int + b1 as int * 0x100 + b2 as int * 0x10000 + b3 as int * 0x1000000
            == word as int) by (bit_vector)
            requires
                b0 == (word & 0xff) as u8,
                b1 == ((word >> 8) & 0xff) as u8,
                b2 == ((word >> 16) & 0xff) as u8,
                b3 == ((word >> 24) & 0xff) as u8,
        ;
    }
    match order {
        ByteOrder::Little => [b0, b1, b2, b3],
        ByteOrder::Big => [b3, b2, b1, b0],
    }
}

/// The `(red, green, blue)` an `Rgb24` word holds, from its bits 16-23, 8-15
/// and 0-7.
pub open spec fn rgb_of(word: u32) -> (u8, u8, u8) {
    (((word as int / 0x10000) % 0x100) as u8, ((word as int / 0x100) % 0x100) as u8, (word as int
        % 0x100) as u8)
}

/// The pixels a graphic is drawn into, and the geometry they are laid out in.
#[derive(Debug, Clone)]
pub struct GraphicBuffer {
    width: i32,
    height: i32,
    stride: i32,
    data: Vec<u8>,
}

impl GraphicBuffer {
    /// The geometry is cairo's for `Rgb24`, and the data holds every row.
    pub closed spec fn wf(&self) -> bool {
        &&& 0 <= self.width < MAX_RGB24_WIDTH
        &&& 0 <= self.height
        &&& self.stride == 4 * self.width
        &&& self.data@.len() == self.stride * self.height
        &&& self.stride * self.height <= i32::MAX
    }

    pub closed spec fn spec_width(&self) -> int {
        self.width as int
    }

    pub closed spec fn spec_height(&self) -> int {
        self.height as int
    }

    pub closed spec fn spec_stride(&self) -> int {
        self.stride as int
    }

    /// The pixel bytes, row by row.
    pub closed spec fn bytes(&self) -> Seq<u8> {
        self.data@
    }

    /// The four bytes of the pixel at `(x, y)`.
    pub open spec fn pixel_bytes(&self, x: int, y: int) -> [u8; 4] {
        let offset = y * self.spec_stride() + x * 4;
        [
            self.bytes()[offset],
            self.bytes()[offset + 1],
            self.bytes()[offset + 2],
            self.bytes()[offset + 3],
        ]
    }

    /// Whether the buffer holds `width` by `height` pixels, and nothing else
    /// stops it: the geometry fits cairo and the byte count fits an `i32`.
    pub open spec fn fits(width: i32, height: i32) -> bool {
        0 <= width < MAX_RGB24_WIDTH && 0 <= height && 4 * width * height <= i32::MAX
    }

    /// A buffer of `width` by `height` pixels, all black.
    pub fn new(width: i32, height: i32) -> (buffer: Self)
        requires
            GraphicBuffer::fits(width, height),
        ensures
            buffer.wf(),
            buffer.spec_width() == width,
            buffer.spec_height() == height,
            buffer.spec_stride() == 4 * width,
            buffer.bytes().len() == 4 * width * height,
            forall|i: int| 0 <= i < buffer.bytes().len() ==> buffer.bytes()[i] == 0,
    {
        let buffer = GraphicBuffer { width: 0, height: 0, stride: 0, data: Vec::new() };
        buffer.resize(width, height)
    }

    /// The buffer's width, in pixels.
    pub fn width(&self) -> (width: i32)
        ensures
            width == self.spec_width(),
    {
        self.width
    }

    /// The buffer's height, in pixels.
    pub fn height(&self) -> (height: i32)
        ensures
            height == self.spec_height(),
    {
        self.height
    }

    /// The bytes from one row to the next.
    pub fn stride(&self) -> (stride: i32)
        ensures
            stride == self.spec_stride(),
    {
        self.stride
    }

    /// The pixel bytes, row by row.
    pub fn data(&self) -> (data: &[u8])
        ensures
            data@ == self.bytes(),
    {
        self.data.as_slice()
    }

    /// The pixel bytes, to draw into. Their number cannot change.
    pub fn data_mut(&mut self) -> (data: &mut [u8])
        requires
            old(self).wf(),
        ensures
            data@ == old(self).bytes(),
            final(self).spec_width() == old(self).spec_width(),
            final(self).spec_height() == old(self).spec_height(),
            final(self).spec_stride() == old(self).spec_stride(),
            final(self).bytes() == final(data)@,
    {
        self.data.as_mut_slice()
    }

    /// The buffer resized to `width` by `height`, keeping its allocation when
    /// the new size fits in it. The pixels the old size held keep their bytes,
    /// wherever they now fall; new bytes are black.
    pub fn resize(self, width: i32, height: i32) -> (buffer: Self)
        requires
            GraphicBuffer::fits(width, height),
        ensures
            buffer.wf(),
            buffer.spec_width() == width,
            buffer.spec_height() == height,
            buffer.spec_stride() == 4 * width,
            buffer.bytes().len() == 4 * width * height,
            forall|i: int|
                0 <= i < buffer.bytes().len() ==> buffer.bytes()[i] == if i < self.bytes().len() {
                    self.bytes()[i]
                } else {
                    0u8
                },
    {
        let stride = match rgb24_stride_for_width(width as u32) {
            Ok(stride) => stride,
            Err(_) => {
                proof {
                    assert(false);
                }
                0
            },
        };
        proof {
            assert(0 <= stride * height <= i32::MAX) by (nonlinear_arith)
                requires
                    stride == 4 * width,
                    0 <= width,
                    0 <= height,
                    4 * width * height <= i32::MAX,
            ;
        }
        let mut data = self.data;
        let ghost old_data = data@;
        data.resize((stride * height) as usize, 0);
        proof {
            assert forall|i: int| 0 <= i < data@.len() implies data@[i] == if i < old_data.len() {
                old_data[i]
            } else {
                0u8
            } by {
                if data@.len() <= old_data.len() {
                    assert(data@ == old_data.subrange(0, data@.len() as int));
                } else if i < old_data.len() {
                    assert(data@.subrange(0, old_data.len() as int)[i] == data@[i]);
                } else {
                    assert(cloned::<u8>(0u8, data@[i]));
                }
            }
        }
        GraphicBuffer { width, height, stride, data }
    }

    /// The pixel at `(x, y)` as `(red, green, blue)`, from the word its four
    /// bytes hold, laid out in `order`: the machine's own, for a buffer cairo
    /// drew.
    pub fn pixel(&self, x: i32, y: i32, order: ByteOrder) -> (rgb: (u8, u8, u8))
        requires
            self.wf(),
            0 <= x < self.spec_width(),
            0 <= y < self.spec_height(),
        ensures
            rgb == rgb_of(word_in(self.pixel_bytes(x as int, y as int), order)),
    {
        proof {
            assert(0 <= y * self.stride && 0 <= y * self.stride + x * 4 && y * self.stride + x * 4
                + 4 <= self.data@.len()) by (nonlinear_arith)
                requires
                    self.stride == 4 * self.width,
                    self.data@.len() == self.stride * self.height,
                    0 <= x < self.width,
                    0 <= y < self.height,
            ;
        }
        let offset = (y * self.stride + x * 4) as usize;
        let bytes = [
            self.data[offset],
            self.data[offset + 1],
            self.data[offset + 2],
            self.data[offset + 3],
        ];
        let word = word_from_bytes(bytes, order);
        proof {
            assert(bytes == self.pixel_bytes(x as int, y as int));
        }
        let red = ((word >> 16) & 0xff) as u8;
        let green = ((word >> 8) & 0xff) as u8;
        let blue = (word & 0xff) as u8;
        proof {
            assert(red == ((word as int / 0x10000) % 0x100) as u8 && green == ((word as int / 0x100)
                % 0x100) as u8 && blue == (word as int % 0x100) as u8) by (bit_vector)
                requires
                    red == ((word >> 16) & 0xff) as u8,
                    green == ((word >> 8) & 0xff) as u8,
                    blue == (word & 0xff) as u8,
            ;
        }
        (red, green, blue)
    }
}

impl Default for GraphicBuffer {
    fn default() -> (buffer: Self)
        ensures
            buffer.wf(),
            buffer.spec_width() == 0,
            buffer.spec_height() == 0,
    {
        GraphicBuffer::new(0, 0)
    }
}

/// A buffer drawn into, ready to be shown.
#[derive(Debug, Clone)]
pub struct Graphic {
    buffer: GraphicBuffer,
}

impl Graphic {
    /// The graphic whose pixels `buffer` holds.
    pub fn from_buffer(buffer: GraphicBuffer) -> (graphic: Graphic)
        ensures
            graphic.buffer() == buffer,
    {
        Graphic { buffer }
    }

    /// The buffer behind the graphic.
    pub closed spec fn buffer(&self) -> GraphicBuffer {
        self.buffer
    }

    /// The buffer, to draw the next graphic into.
    pub fn into_buffer(self) -> (buffer: GraphicBuffer)
        ensures
            buffer == self.buffer(),
    {
        self.buffer
    }

    /// The graphic's width, in pixels.
    pub fn width(&self) -> (width: i32)
        ensures
            width == self.buffer().spec_width(),
    {
        self.buffer.width()
    }

    /// The graphic's height, in pixels.
    pub fn height(&self) -> (height: i32)
        ensures
            height == self.buffer().spec_height(),
    {
        self.buffer.height()
    }

    /// The pixel at `(x, y)` as `(red, green, blue)`, its word's bytes laid
    /// out in `order`.
    pub fn pixel(&self, x: i32, y: i32, order: ByteOrder) -> (rgb: (u8, u8, u8))
        requires
            self.buffer().wf(),
            0 <= x < self.buffer().spec_width(),
            0 <= y < self.buffer().spec_height(),
        ensures
            rgb == rgb_of(word_in(self.buffer().pixel_bytes(x as int, y as int), order)),
    {
        self.buffer.pixel(x, y, order)
    }
}

impl Default for Graphic {
    fn default() -> (graphic: Self)
        ensures
            graphic.buffer().wf(),
            graphic.buffer().spec_width() == 0,
            graphic.buffer().spec_height() == 0,
    {
        Graphic { buffer: GraphicBuffer::default() }
    }
}

} // verus!
