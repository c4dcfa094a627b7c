//! RGBA pixel buffers: construction, sampling, scaling and placement.

use vstd::prelude::*;

verus! {

/// Mathematical model of a pixel buffer: dimensions and row-major RGBA bytes.
pub struct RasterView {
    pub width: int,
    pub height: int,
    pub data: Seq<u8>,
}

impl RasterView {
    /// Both dimensions are positive, there are four bytes for each pixel, and
    /// the bytes fit in memory.
    pub open spec fn wf(self) -> bool {
        &&& 0 < self.width <= u32::MAX
        &&& 0 < self.height <= u32::MAX
        &&& self.data.len() == 4 * (self.width * self.height)
        &&& self.data.len() <= usize::MAX
    }

    /// Whether `(x, y)` names a pixel of this buffer.
    pub open spec fn contains(self, x: int, y: int) -> bool {
        0 <= x < self.width && 0 <= y < self.height
    }

    /// Channel `c` (0 = red, 1 = green, 2 = blue, 3 = alpha) of pixel `(x, y)`.
    pub open spec fn sample(self, x: int, y: int, c: int) -> u8 {
        self.data[4 * (y * self.width + x) + c]
    }

    /// Every pixel has the colour `(r, g, b, a)`.
    pub open spec fn is_uniform(self, r: u8, g: u8, b: u8, a: u8) -> bool {
        forall|x: int, y: int, c: int|
            self.contains(x, y) && 0 <= c < 4 ==> #[trigger] self.sample(x, y, c)
                == channel_of(r, g, b, a, c)
    }
}

/// The channel `c` of the colour `(r, g, b, a)`.
pub open spec fn channel_of(r: u8, g: u8, b: u8, a: u8, c: int) -> u8 {
    if c == 0 {
        r
    } else if c == 1 {
        g
    } else if c == 2 {
        b
    } else {
        a
    }
}

/// What pixel `(x, y)` of `bottom` shows once `top` has been placed with its
/// top-left corner on `(ox, oy)`: the pixel of `top` where `top` covers it,
/// the old pixel elsewhere. Parts of `top` beyond `bottom` are cut off.
pub open spec fn blit_sample(
    bottom: RasterView,
    top: RasterView,
    ox: int,
    oy: int,
    x: int,
    y: int,
    c: int,
) -> u8 {
    if top.contains(x - ox, y - oy) {
        top.sample(x - ox, y - oy, c)
    } else {
        bottom.sample(x, y, c)
    }
}

/// Whether a buffer of `width` by `height` pixels can be held in memory.
pub open spec fn fits(width: int, height: int) -> bool {
    0 < width && 0 < height && 4 * (width * height) <= usize::MAX
}

/// Two pixels of one row-major buffer share a position only if they are the same pixel.
proof fn lemma_position_unique(w: int, x1: int, y1: int, x2: int, y2: int)
    requires
        0 <= x1 < w,
        0 <= x2 < w,
        0 <= y1,
        0 <= y2,
        y1 * w + x1 == y2 * w + x2,
    ensures
        x1 == x2,
        y1 == y2,
{
    if y1 < y2 {
        assert(y2 * w >= y1 * w + w) by (nonlinear_arith)
            requires
                y1 < y2,
                w > 0,
        ;
    } else if y2 < y1 {
        assert(y1 * w >= y2 * w + w) by (nonlinear_arith)
            requires
                y2 < y1,
                w > 0,
        ;
    }
}

/// Every pixel of a `w` by `h` buffer lies inside its `w * h` positions.
proof fn lemma_position_bound(w: int, h: int, x: int, y: int)
    requires
        0 <= x < w,
        0 <= y < h,
    ensures
        0 <= y * w + x < w * h,
        0 <= y * w,
{
    assert(y * w + w <= w * h) by (nonlinear_arith)
        requires
            0 <= y < h,
            w > 0,
    ;
    assert(0 <= y * w) by (nonlinear_arith)
        requires
            0 <= y,
            w > 0,
    ;
}

/// The bytes of the RGBA image that the image crate's exact resize with its
/// Gaussian filter makes of the `src_width` by `src_height` image with the
/// bytes `data`, when asked for `width` by `height` pixels.
pub uninterp spec fn resampled(
    src_width: int,
    src_height: int,
    data: Seq<u8>,
    width: int,
    height: int,
) -> Seq<u8>;

/// Runs `DynamicImage::resize_exact` of the image crate with its Gaussian
/// filter on an RGBA copy of `src`. Believed of it: the result depends on the
/// source and the wanted dimensions alone and has exactly those dimensions,
/// and when `src` already has them the call copies the pixels instead of
/// resampling. The scratch image it allocates has the width of `src` and the
/// wanted height, hence the last bound.
#[verifier::external_body]
fn resize_exact(src: &Raster, width: u32, height: u32) -> (out: Raster)
    requires
        src.wf(),
        fits(width as int, height as int),
        4 * (src@.width * height) <= usize::MAX,
    ensures
        out.wf(),
        out@.width == width,
        out@.height == height,
        out@.data == resampled(src@.width, src@.height, src@.data, width as int, height as int),
        src@.width == width && src@.height == height ==> out@.data == src@.data,
{
    let copy = image::RgbaImage::from_raw(src.width, src.height, src.pixels.clone()).unwrap();
    let scaled = image::DynamicImage::ImageRgba8(copy).resize_exact(
        width,
        height,
        image::imageops::FilterType::Gaussian,
    );
    Raster { width, height, pixels: scaled.into_rgba8().into_raw() }
}

/// The PNG file that the image crate writes for an RGBA image of `width` by
/// `height` pixels with the bytes `data`; `None` where its encoder refuses.
pub uninterp spec fn png_encoding(width: int, height: int, data: Seq<u8>) -> Option<Seq<u8>>;

/// The view of optional bytes.
pub open spec fn bytes_view(bytes: Option<Vec<u8>>) -> Option<Seq<u8>> {
    match bytes {
        Some(b) => Some(b@),
        None => None,
    }
}

/// Runs `write_buffer_with_format` of the image crate on the pixels of
/// `image`, as eight-bit RGBA and in the PNG format, into memory. Believed of
/// it: the bytes depend on the dimensions and the pixels alone.
#[verifier::external_body]
fn write_png(image: &Raster) -> (bytes: Option<Vec<u8>>)
    requires
        image.wf(),
    ensures
        bytes_view(bytes) == png_encoding(image@.width, image@.height, image@.data),
{
    let mut out = std::io::Cursor::new(Vec::new());
    match image::write_buffer_with_format(
        &mut out,
        &image.pixels,
        image.width,
        image.height,
        image::ColorType::Rgba8,
        image::ImageFormat::Png,
    ) {
        Ok(()) => Some(out.into_inner()),
        Err(_) => None,
    }
}

/// An RGBA image with eight bits per channel, rows stored top to bottom.
#[derive(Debug, Clone, PartialEq, Eq)]
pub struct Raster {
    width: u32,
    height: u32,
    pixels: Vec<u8>,
}

impl View for Raster {
    type V = RasterView;

    closed spec fn view(&self) -> RasterView {
        RasterView { width: self.width as int, height: self.height as int, data: self.pixels@ }
    }
}

impl Raster {
    /// The invariant of every buffer that this module hands out.
    pub open spec fn wf(&self) -> bool {
        self@.wf()
    }

    /// Wraps row-major RGBA bytes, if they describe a non-empty `width` by
    /// `height` image exactly.
    pub fn from_raw(width: u32, height: u32, data: Vec<u8>) -> (r: Option<Raster>)
        ensures
            r.is_some() <==> (width > 0 && height > 0 && data@.len() == 4 * (width * height)),
            r.is_some() ==> r.unwrap().wf(),
            r.is_some() ==> r.unwrap()@ == (RasterView {
                width: width as int,
                height: height as int,
                data: data@,
            }),
    {
        if width == 0 || height == 0 {
            return None;
        }
        assert(width * height <= 0xffff_ffff * 0xffff_ffff) by (nonlinear_arith)
            requires
                width <= 0xffff_ffff,
                height <= 0xffff_ffff,
        ;
        let need: u128 = 4 * (width as u128 * height as u128);
        if data.len() as u128 != need {
            return None;
        }
        Some(Raster { width, height, pixels: data })
    }

    /// A buffer whose every pixel has the colour `(r, g, b, a)`.
    pub fn filled(width: u32, height: u32, r: u8, g: u8, b: u8, a: u8) -> (out: Raster)
        requires
            fits(width as int, height as int),
        ensures
            out.wf(),
            out@.width == width,
            out@.height == height,
            out@.is_uniform(r, g, b, a),
    {
        let count: usize = width as usize * height as usize;
        let mut pixels: Vec<u8> = Vec::new();
        let mut n: usize = 0;
        while n < count
            invariant
                n <= count,
                4 * count <= usize::MAX,
                pixels@.len() == 4 * n,
                forall|k: int| 0 <= k < pixels@.len() ==> #[trigger] pixels@[k] == channel_of(r, g, b, a, k % 4),
            decreases count - n,
        {
            pixels.push(r);
            pixels.push(g);
            pixels.push(b);
            pixels.push(a);
            n += 1;
        }
        let out = Raster { width, height, pixels };
        assert forall|x: int, y: int, c: int| out@.contains(x, y) && 0 <= c < 4 implies
            #[trigger] out@.sample(x, y, c) == channel_of(r, g, b, a, c) by {
            lemma_position_bound(width as int, height as int, x, y);
        }
        out
    }

    /// Width in pixels.
    pub fn width(&self) -> (w: u32)
        ensures
            w == self@.width,
    {
        self.width
    }

    /// Height in pixels.
    pub fn height(&self) -> (h: u32)
        ensures
            h == self@.height,
    {
        self.height
    }

    /// The row-major RGBA bytes.
    pub fn as_bytes(&self) -> (bytes: &Vec<u8>)
        ensures
            bytes@ == self@.data,
    {
        &self.pixels
    }

    /// Channel `c` of pixel `(x, y)`, if there is such a pixel and channel.
    pub fn get(&self, x: u32, y: u32, c: u8) -> (v: Option<u8>)
        requires
            self.wf(),
        ensures
            v.is_some() <==> (self@.contains(x as int, y as int) && c < 4),
            v.is_some() ==> v.unwrap() == self@.sample(x as int, y as int, c as int),
    {
        if x >= self.width || y >= self.height || c >= 4 {
            return None;
        }
        proof {
            lemma_position_bound(self.width as int, self.height as int, x as int, y as int);
        }
        let at: usize = 4 * (y as usize * self.width as usize + x as usize) + c as usize;
        Some(self.pixels[at])
    }

    /// This image scaled to exactly `width` by `height` pixels with a smooth
    /// filter; the aspect ratio is not kept. An image that already has the
    /// wanted size comes back pixel for pixel.
    pub fn scale_to(&self, width: u32, height: u32) -> (out: Raster)
        requires
            self.wf(),
            fits(width as int, height as int),
            4 * (self@.width * height) <= usize::MAX,
        ensures
            out.wf(),
            out@.width == width,
            out@.height == height,
            out@.data == resampled(
                self@.width,
                self@.height,
                self@.data,
                width as int,
                height as int,
            ),
            self@.width == width && self@.height == height ==> out@ == self@,
    {
        resize_exact(self, width, height)
    }

    /// This image as the bytes of a PNG file, if it can be encoded.
    pub fn encode(&self) -> (bytes: Option<Vec<u8>>)
        requires
            self.wf(),
        ensures
            bytes_view(bytes) == png_encoding(self@.width, self@.height, self@.data),
    {
        write_png(self)
    }

    /// Places `top` on this buffer with its top-left corner on `(ox, oy)`.
    /// Pixels that `top` covers take its colour; all others keep theirs. What
    /// of `top` reaches beyond this buffer is cut off.
    pub fn blit(&mut self, top: &Raster, ox: u32, oy: u32)
        requires
            old(self).wf(),
            top.wf(),
        ensures
            final(self).wf(),
            final(self)@.width == old(self)@.width,
            final(self)@.height == old(self)@.height,
            forall|x: int, y: int, c: int|
                old(self)@.contains(x, y) && 0 <= c < 4 ==> #[trigger] final(self)@.sample(x, y, c)
                    == blit_sample(old(self)@, top@, ox as int, oy as int, x, y, c),
    {
        let w = self.width;
        let h = self.height;
        if ox >= w || oy >= h {
            return ;
        }
        let cols: u32 = if top.width < w - ox { top.width } else { w - ox };
        let rows: u32 = if top.height < h - oy { top.height } else { h - oy };
        let ghost before = self@;
        let ghost over = top@;
        let mut j: u32 = 0;
        while j < rows
            invariant
                j <= rows,
                ox < w,
                oy < h,
                cols == if over.width < w - ox { over.width } else { w - ox },
                rows == if over.height < h - oy { over.height } else { h - oy },
                before.wf(),
                top.wf(),
                over == top@,
                self.wf(),
                self@.width == before.width == w,
                self@.height == before.height == h,
                forall|x: int, y: int, c: int|
                    before.contains(x, y) && 0 <= c < 4 ==> #[trigger] self@.sample(x, y, c) == (if y
                        < oy + j {
                        blit_sample(before, over, ox as int, oy as int, x, y, c)
                    } else {
                        before.sample(x, y, c)
                    }),
            decreases rows - j,
        {
            let mut i: u32 = 0;
            while i < cols
                invariant
                    i <= cols,
                    j < rows,
                    ox < w,
                    oy < h,
                    cols == if over.width < w - ox { over.width } else { w - ox },
                    rows == if over.height < h - oy { over.height } else { h - oy },
                    before.wf(),
                    top.wf(),
                    over == top@,
                    self.wf(),
                    self@.width == before.width == w,
                    self@.height == before.height == h,
                    forall|x: int, y: int, c: int|
                        before.contains(x, y) && 0 <= c < 4 ==> #[trigger] self@.sample(x, y, c)
                            == (if y < oy + j || (y == oy + j && x < ox + i) {
                            blit_sample(before, over, ox as int, oy as int, x, y, c)
                        } else {
                            before.sample(x, y, c)
                        }),
                decreases cols - i,
            {
                proof {
                    lemma_position_bound(over.width, over.height, i as int, j as int);
                    lemma_position_bound(w as int, h as int, ox + i, oy + j);
                }
                let src: usize = 4 * (j as usize * top.width as usize + i as usize);
                let dst: usize = 4 * ((oy + j) as usize * w as usize + (ox + i) as usize);
                let ghost mid = self@;
                self.pixels.set(dst, top.pixels[src]);
                self.pixels.set(dst + 1, top.pixels[src + 1]);
                self.pixels.set(dst + 2, top.pixels[src + 2]);
                self.pixels.set(dst + 3, top.pixels[src + 3]);
                assert forall|x: int, y: int, c: int|
                    before.contains(x, y) && 0 <= c < 4 implies #[trigger] self@.sample(x, y, c)
                    == (if y < oy + j || (y == oy + j && x < ox + i + 1) {
                    blit_sample(before, over, ox as int, oy as int, x, y, c)
                } else {
                    before.sample(x, y, c)
                }) by {
                    lemma_position_bound(w as int, h as int, x, y);
                    if y * w + x == (oy + j) * w + (ox + i) {
                        lemma_position_unique(w as int, x, y, ox + i, oy + j);
                    }
                    assert(mid.sample(x, y, c) == mid.data[4 * (y * w + x) + c]);
                }
                i += 1;
            }
            j += 1;
        }
    }
}

} // verus!
