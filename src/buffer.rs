use vstd::prelude::*;

use crate::color::{channel, Rgba};

verus! {

/// Whether (x, y) names a pixel of a `width` × `height` grid.
pub open spec fn in_bounds(width: int, height: int, x: int, y: int) -> bool {
    0 <= x < width && 0 <= y < height
}

/// Row-major linear index of the pixel (x, y) in a grid `width` pixels wide.
pub open spec fn pixel_index(width: int, x: int, y: int) -> int {
    y * width + x
}

/// The colour that a row-major pixel sequence holds at (x, y).
pub open spec fn pixel_at(pixels: Seq<Rgba>, width: int, x: int, y: int) -> Rgba {
    pixels[pixel_index(width, x, y)]
}

/// A pixel sequence of length `n` holding `color` everywhere.
pub open spec fn filled(n: nat, color: Rgba) -> Seq<Rgba> {
    Seq::new(n, |_k: int| color)
}

/// The pixels after writing `color` at (x, y): one pixel replaced when (x, y)
/// lies inside the grid, nothing changed otherwise.
pub open spec fn with_pixel(
    pixels: Seq<Rgba>,
    width: int,
    height: int,
    x: int,
    y: int,
    color: Rgba,
) -> Seq<Rgba> {
    if in_bounds(width, height, x, y) {
        pixels.update(pixel_index(width, x, y), color)
    } else {
        pixels
    }
}

/// A pixel written inside the grid reads back as the colour written.
pub proof fn lemma_set_then_get(
    pixels: Seq<Rgba>,
    width: int,
    height: int,
    x: int,
    y: int,
    color: Rgba,
)
    requires
        pixels.len() == width * height,
        in_bounds(width, height, x, y),
    ensures
        pixel_at(with_pixel(pixels, width, height, x, y, color), width, x, y) == color,
{
    assert(0 <= y * width + x < width * height) by (nonlinear_arith)
        requires
            0 <= x < width,
            0 <= y < height,
    ;
}

/// A pixel written outside the grid leaves the buffer byte for byte as it
/// was.
pub proof fn lemma_set_outside_changes_nothing(
    before: PixelBuffer,
    after: PixelBuffer,
    x: int,
    y: int,
    color: Rgba,
)
    requires
        before.wf(),
        after.wf(),
        !in_bounds(before.spec_width(), before.spec_height(), x, y),
        after@ == with_pixel(before@, before.spec_width(), before.spec_height(), x, y, color),
    ensures
        after.bytes() == before.bytes(),
{
}

/// The RGBA8 byte layout of a pixel sequence: four bytes per pixel, in the
/// order red, green, blue, alpha.
pub open spec fn encode(pixels: Seq<Rgba>) -> Seq<u8> {
    Seq::new(4 * pixels.len(), |i: int| channel(pixels[i / 4], i % 4))
}

/// The pixel sequence that a byte sequence encodes, four bytes per pixel.
spec fn decode(bytes: Seq<u8>) -> Seq<Rgba> {
    Seq::new(
        bytes.len() / 4,
        |k: int| Rgba { r: bytes[4 * k], g: bytes[4 * k + 1], b: bytes[4 * k + 2], a: bytes[4 * k + 3] },
    )
}

/// A framebuffer of `width` × `height` RGBA8 pixels, stored row-major with
/// four bytes per pixel and the origin at the top left.
///
/// Its view is the sequence of its pixels: pixel (x, y) is at index
/// `y * width + x`, and its bytes start at `4 * (y * width + x)`.
pub struct PixelBuffer {
    width: u32,
    height: u32,
    data: Vec<u8>,
}

impl View for PixelBuffer {
    type V = Seq<Rgba>;

    closed spec fn view(&self) -> Seq<Rgba> {
        decode(self.data@)
    }
}

impl PixelBuffer {
    /// Width in pixels.
    pub closed spec fn spec_width(&self) -> int {
        self.width as int
    }

    /// Height in pixels.
    pub closed spec fn spec_height(&self) -> int {
        self.height as int
    }

    /// The raw RGBA8 bytes.
    pub closed spec fn bytes(&self) -> Seq<u8> {
        self.data@
    }

    /// The buffer holds exactly `width * height` pixels, and its bytes are
    /// the encoding of its pixels.
    pub open spec fn wf(&self) -> bool {
        &&& 0 <= self.spec_width() <= u32::MAX
        &&& 0 <= self.spec_height() <= u32::MAX
        &&& self@.len() == self.spec_width() * self.spec_height()
        &&& self.bytes() == encode(self@)
        &&& self.bytes().len() <= usize::MAX
    }

    proof fn lemma_decode_encode(bytes: Seq<u8>)
        requires
            bytes.len() % 4 == 0,
        ensures
            encode(decode(bytes)) == bytes,
            decode(bytes).len() * 4 == bytes.len(),
    {
        let p = decode(bytes);
        assert(encode(p) =~= bytes) by {
            assert forall|i: int| 0 <= i < bytes.len() implies #[trigger] encode(p)[i] == bytes[i] by {
                let k = i / 4;
                assert(4 * k <= i < 4 * k + 4);
            }
        }
    }

    /// Writing the four bytes of pixel `k` replaces pixel `k` of the decoded
    /// sequence and nothing else.
    proof fn lemma_write_pixel_bytes(before: Seq<u8>, after: Seq<u8>, k: int, color: Rgba)
        requires
            before.len() % 4 == 0,
            0 <= k,
            4 * k + 4 <= before.len(),
            after == before.update(4 * k, color.r).update(4 * k + 1, color.g).update(
                4 * k + 2,
                color.b,
            ).update(4 * k + 3, color.a),
        ensures
            decode(after) == decode(before).update(k, color),
            encode(decode(after)) == after,
    {
        let expected = decode(before).update(k, color);
        assert forall|j: int| 0 <= j < expected.len() implies #[trigger] decode(after)[j]
            == expected[j] by {
            if j != k {
                assert(decode(before)[j] == decode(after)[j]);
            }
        }
        assert(decode(after) =~= expected);
        Self::lemma_decode_encode(after);
    }

    /// A buffer of `width` × `height` pixels, all of them zero bytes.
    pub fn new(width: u32, height: u32) -> (buf: PixelBuffer)
        requires
            4 * (width * height) <= usize::MAX,
        ensures
            buf.wf(),
            buf.spec_width() == width,
            buf.spec_height() == height,
            buf@ == filled((width * height) as nat, Rgba { r: 0, g: 0, b: 0, a: 0 }),
    {
        let n: usize = 4 * ((width as usize) * (height as usize));
        let mut data: Vec<u8> = Vec::new();
        while data.len() < n
            invariant
                data.len() <= n,
                forall|i: int| 0 <= i < data.len() ==> data@[i] == 0u8,
            decreases n - data.len(),
        {
            data.push(0u8);
        }
        let buf = PixelBuffer { width, height, data };
        proof {
            Self::lemma_decode_encode(data@);
            assert(buf@ =~= filled((width * height) as nat, Rgba { r: 0, g: 0, b: 0, a: 0 }));
        }
        buf
    }

    /// Width in pixels.
    pub fn width(&self) -> (w: u32)
        ensures
            w == self.spec_width(),
    {
        self.width
    }

    /// Height in pixels.
    pub fn height(&self) -> (h: u32)
        ensures
            h == self.spec_height(),
    {
        self.height
    }

    /// The raw RGBA8 bytes, row-major, four per pixel.
    pub fn as_bytes(&self) -> (bytes: &[u8])
        ensures
            bytes@ == self.bytes(),
    {
        self.data.as_slice()
    }

    /// The linear pixel index of (x, y), if it lies inside the buffer.
    fn index_of(&self, x: i64, y: i64) -> (k: Option<usize>)
        requires
            self.wf(),
        ensures
            k is Some <==> in_bounds(self.spec_width(), self.spec_height(), x as int, y as int),
            k is Some ==> k->0 == pixel_index(self.spec_width(), x as int, y as int),
            k is Some ==> 4 * k->0 + 4 <= self.bytes().len(),
    {
        if x < 0 || y < 0 || x >= self.width as i64 || y >= self.height as i64 {
            return None;
        }
        let xu = x as usize;
        let yu = y as usize;
        let w = self.width as usize;
        proof {
            let (wi, hi) = (self.spec_width(), self.spec_height());
            assert(yu * wi + xu < wi * hi) by (nonlinear_arith)
                requires
                    0 <= xu < wi,
                    0 <= yu < hi,
            ;
        }
        Some(yu * w + xu)
    }

    /// The colour at (x, y), or `None` when (x, y) lies outside the buffer.
    pub fn get_pixel(&self, x: i64, y: i64) -> (c: Option<Rgba>)
        requires
            self.wf(),
        ensures
            c == if in_bounds(self.spec_width(), self.spec_height(), x as int, y as int) {
                Some(pixel_at(self@, self.spec_width(), x as int, y as int))
            } else {
                None::<Rgba>
            },
    {
        match self.index_of(x, y) {
            None => None,
            Some(k) => {
                let i = 4 * k;
                let c = Rgba {
                    r: self.data[i],
                    g: self.data[i + 1],
                    b: self.data[i + 2],
                    a: self.data[i + 3],
                };
                proof {
                    assert(self@[k as int] == decode(self.data@)[k as int]);
                }
                Some(c)
            },
        }
    }

    /// Writes `color` at (x, y) when that pixel lies inside the buffer; a
    /// pixel outside it (negative, or past the width or height) is dropped
    /// and the buffer is left as it was.
    pub fn set_pixel(&mut self, x: i64, y: i64, color: Rgba)
        requires
            old(self).wf(),
        ensures
            final(self).wf(),
            final(self).spec_width() == old(self).spec_width(),
            final(self).spec_height() == old(self).spec_height(),
            final(self)@ == with_pixel(
                old(self)@,
                old(self).spec_width(),
                old(self).spec_height(),
                x as int,
                y as int,
                color,
            ),
    {
        match self.index_of(x, y) {
            None => {},
            Some(k) => {
                let i = 4 * k;
                let ghost before = self.data@;
                self.data.set(i, color.r);
                self.data.set(i + 1, color.g);
                self.data.set(i + 2, color.b);
                self.data.set(i + 3, color.a);
                proof {
                    Self::lemma_write_pixel_bytes(before, self.data@, k as int, color);
                }
            },
        }
    }

    /// Writes `color` to every pixel.
    pub fn clear(&mut self, color: Rgba)
        requires
            old(self).wf(),
        ensures
            final(self).wf(),
            final(self).spec_width() == old(self).spec_width(),
            final(self).spec_height() == old(self).spec_height(),
            final(self)@ == filled(old(self)@.len(), color),
    {
        let n: usize = self.data.len() / 4;
        let mut k: usize = 0;
        while k < n
            invariant
                self.data@.len() == old(self).data@.len(),
                self.data@.len() == 4 * n,
                4 * n <= usize::MAX,
                k <= n,
                self.width == old(self).width,
                self.height == old(self).height,
                forall|j: int| 0 <= j < k ==> #[trigger] decode(self.data@)[j] == color,
            decreases n - k,
        {
            let ghost before = self.data@;
            let i = 4 * k;
            self.data.set(i, color.r);
            self.data.set(i + 1, color.g);
            self.data.set(i + 2, color.b);
            self.data.set(i + 3, color.a);
            proof {
                assert forall|j: int| 0 <= j < k + 1 implies #[trigger] decode(self.data@)[j]
                    == color by {
                    if j < k {
                        assert(decode(before)[j] == color);
                    }
                }
            }
            k = k + 1;
        }
        proof {
            Self::lemma_decode_encode(self.data@);
            assert(self@ =~= filled(old(self)@.len(), color));
        }
    }
}

} // verus!
