use vstd::prelude::*;

verus! {

/// One pixel of a streamed frame: its place, its color, and the time of
/// capture in milliseconds.
#[derive(Clone, Copy, Debug, PartialEq, Eq, Structural)]
pub struct PixelData {
    pub x: i32,
    pub y: i32,
    pub r: u8,
    pub g: u8,
    pub b: u8,
    pub timestamp: u64,
}

/// A frame streamed pixel by pixel.
#[derive(Debug)]
pub struct ScreenFrame {
    pub width: i32,
    pub height: i32,
    pub pixels: Vec<PixelData>,
    pub frame_id: u64,
}

/// The order of the three color bytes of a pixel in a raw buffer.
#[derive(Clone, Copy, Debug, PartialEq, Eq, Structural)]
pub enum ChannelOrder {
    Rgb,
    Bgr,
}

/// Every how many frames the receiver saves one to disk.
pub const SAVE_INTERVAL: u64 = 10;

/// The pixel at `index` of a raw buffer of blue, green and red bytes, row
/// after row, of a frame `width` pixels wide.
pub open spec fn pixel_at(bgr: Seq<u8>, width: int, index: int, timestamp: u64) -> PixelData {
    PixelData {
        x: (index % width) as i32,
        y: (index / width) as i32,
        r: bgr[3 * index + 2],
        g: bgr[3 * index + 1],
        b: bgr[3 * index],
        timestamp,
    }
}

/// Reads a captured frame into its pixels, row after row, each with its
/// coordinates and the time of capture.
///
/// The buffer holds blue, green and red for each pixel. `None` where a
/// dimension is negative or the buffer's length is not three bytes per
/// pixel.
pub fn get_optimized_frame(
    width: i32,
    height: i32,
    bgr: &[u8],
    frame_id: u64,
    timestamp: u64,
) -> (frame: Option<ScreenFrame>)
    ensures
        frame is Some <==> width >= 0 && height >= 0 && bgr@.len() == width * height * 3,
        frame is Some ==> {
            &&& frame->Some_0.width == width
            &&& frame->Some_0.height == height
            &&& frame->Some_0.frame_id == frame_id
            &&& frame->Some_0.pixels@.len() == width * height
            &&& forall|i: int|
                0 <= i < width * height ==> #[trigger] frame->Some_0.pixels@[i] == pixel_at(
                    bgr@,
                    width as int,
                    i,
                    timestamp,
                )
        },
{
    if width < 0 || height < 0 {
        return None;
    }
    assert(0 <= width * height <= 0x7fff_ffff * 0x7fff_ffff && (width == 0 ==> width * height
        == 0)) by (nonlinear_arith)
        requires
            0 <= width <= 0x7fff_ffff,
            0 <= height <= 0x7fff_ffff,
    ;
    let count: u64 = (width as u64) * (height as u64);
    let len: usize = bgr.len();
    if len % 3 != 0 || (len / 3) as u64 != count {
        return None;
    }
    let mut pixels: Vec<PixelData> = Vec::new();
    let mut index: usize = 0;
    let mut x: i32 = 0;
    let mut y: i32 = 0;
    while index < len / 3
        invariant
            0 < width || len == 0,
            0 <= height,
            len == bgr@.len(),
            len == width * height * 3,
            index <= len / 3,
            index == y * width + x,
            0 <= x < width || len == 0,
            0 <= y <= height,
            pixels@.len() == index,
            forall|i: int|
                0 <= i < index ==> #[trigger] pixels@[i] == pixel_at(
                    bgr@,
                    width as int,
                    i,
                    timestamp,
                ),
        decreases len / 3 - index,
    {
        proof {
            vstd::arithmetic::div_mod::lemma_fundamental_div_mod_converse(
                index as int,
                width as int,
                y as int,
                x as int,
            );
        }
        pixels.push(
            PixelData {
                x,
                y,
                r: bgr[3 * index + 2],
                g: bgr[3 * index + 1],
                b: bgr[3 * index],
                timestamp,
            },
        );
        index = index + 1;
        if x + 1 == width {
            assert((y + 1) * width + 0 == y * width + x + 1) by (nonlinear_arith)
                requires
                    x + 1 == width,
            ;
            assert(y < height) by (nonlinear_arith)
                requires
                    y * width + x + 1 <= width * height,
                    0 <= x,
                    0 < width,
            ;
            x = 0;
            y = y + 1;
        } else {
            x = x + 1;
        }
    }
    Some(ScreenFrame { width, height, pixels, frame_id })
}

/// Whether a pixel lies on a canvas of the given dimensions.
pub open spec fn lies_within(pixel: PixelData, width: int, height: int) -> bool {
    0 <= pixel.x < width && 0 <= pixel.y < height
}

/// The three bytes of a pixel's color in the given order.
pub open spec fn color_bytes(pixel: PixelData, order: ChannelOrder) -> (u8, u8, u8) {
    match order {
        ChannelOrder::Rgb => (pixel.r, pixel.g, pixel.b),
        ChannelOrder::Bgr => (pixel.b, pixel.g, pixel.r),
    }
}

/// A canvas after one pixel was put on it; a pixel outside the canvas
/// leaves it as it was.
pub open spec fn with_pixel(
    canvas: Seq<u8>,
    width: int,
    height: int,
    pixel: PixelData,
    order: ChannelOrder,
) -> Seq<u8> {
    if lies_within(pixel, width, height) {
        let at = 3 * (pixel.y * width + pixel.x);
        let color = color_bytes(pixel, order);
        canvas.update(at, color.0).update(at + 1, color.1).update(at + 2, color.2)
    } else {
        canvas
    }
}

/// A black canvas after the first `upto` pixels were put on it, in their
/// order.
pub open spec fn painted(
    pixels: Seq<PixelData>,
    upto: nat,
    width: int,
    height: int,
    order: ChannelOrder,
) -> Seq<u8>
    decreases upto,
{
    if upto == 0 {
        Seq::new((width * height * 3) as nat, |i: int| 0u8)
    } else {
        with_pixel(
            painted(pixels, (upto - 1) as nat, width, height, order),
            width,
            height,
            pixels[upto - 1],
            order,
        )
    }
}

/// Painting keeps the canvas at three bytes per pixel.
pub proof fn painted_keeps_size(
    pixels: Seq<PixelData>,
    upto: nat,
    width: int,
    height: int,
    order: ChannelOrder,
)
    requires
        0 <= width,
        0 <= height,
    ensures
        painted(pixels, upto, width, height, order).len() == width * height * 3,
    decreases upto,
{
    if upto > 0 {
        painted_keeps_size(pixels, (upto - 1) as nat, width, height, order);
        let pixel = pixels[upto - 1];
        if lies_within(pixel, width, height) {
            assert(0 <= 3 * (pixel.y * width + pixel.x) && 3 * (pixel.y * width + pixel.x) + 2
                < width * height * 3) by (nonlinear_arith)
                requires
                    0 <= pixel.x < width,
                    0 <= pixel.y < height,
            ;
        }
    } else {
        assert(width * height * 3 >= 0) by (nonlinear_arith)
            requires
                0 <= width,
                0 <= height,
        ;
    }
}

impl ScreenFrame {
    /// Paints the frame's pixels onto a black canvas of the frame's
    /// dimensions, three bytes per pixel in the given order, row after row.
    ///
    /// Pixels outside the canvas are left out; of two pixels at one place
    /// the later one stays. `None` where a dimension is negative or the
    /// canvas would be longer than any buffer.
    pub fn paint(&self, order: ChannelOrder) -> (canvas: Option<Vec<u8>>)
        ensures
            canvas is Some <==> self.width >= 0 && self.height >= 0 && self.width * self.height * 3
                <= usize::MAX,
            canvas is Some ==> canvas->Some_0@ == painted(
                self.pixels@,
                self.pixels@.len(),
                self.width as int,
                self.height as int,
                order,
            ),
    {
        if self.width < 0 || self.height < 0 {
            return None;
        }
        let width: u64 = self.width as u64;
        let height: u64 = self.height as u64;
        assert(width * height <= 0x7fff_ffff * 0x7fff_ffff) by (nonlinear_arith)
            requires
                0 <= width <= 0x7fff_ffff,
                0 <= height <= 0x7fff_ffff,
        ;
        let bytes: u128 = (width as u128) * (height as u128) * 3;
        if bytes > usize::MAX as u128 {
            return None;
        }
        let len: usize = bytes as usize;
        let mut canvas: Vec<u8> = Vec::new();
        let mut made: usize = 0;
        while made < len
            invariant
                made <= len,
                canvas@.len() == made,
                forall|i: int| 0 <= i < made ==> canvas@[i] == 0u8,
            decreases len - made,
        {
            canvas.push(0u8);
            made = made + 1;
        }
        assert(canvas@ =~= painted(self.pixels@, 0, self.width as int, self.height as int, order));
        let mut done: usize = 0;
        while done < self.pixels.len()
            invariant
                0 <= self.width,
                0 <= self.height,
                width == self.width,
                height == self.height,
                len == width * height * 3,
                done <= self.pixels@.len(),
                canvas@ == painted(
                    self.pixels@,
                    done as nat,
                    self.width as int,
                    self.height as int,
                    order,
                ),
            decreases self.pixels@.len() - done,
        {
            let pixel = self.pixels[done];
            proof {
                painted_keeps_size(
                    self.pixels@,
                    done as nat,
                    self.width as int,
                    self.height as int,
                    order,
                );
            }
            if 0 <= pixel.x && pixel.x < self.width && 0 <= pixel.y && pixel.y < self.height {
                assert(3 * (pixel.y * width + pixel.x) + 2 < width * height * 3)
                    by (nonlinear_arith)
                    requires
                        0 <= pixel.x < width,
                        0 <= pixel.y < height,
                ;
                assert(0 <= pixel.y * width <= 0x7fff_ffff * 0x7fff_ffff) by (nonlinear_arith)
                    requires
                        0 <= pixel.y <= 0x7fff_ffff,
                        0 <= width <= 0x7fff_ffff,
                ;
                let at: usize = (3 * ((pixel.y as u64) * width + (pixel.x as u64))) as usize;
                let (first, second, third) = match order {
                    ChannelOrder::Rgb => (pixel.r, pixel.g, pixel.b),
                    ChannelOrder::Bgr => (pixel.b, pixel.g, pixel.r),
                };
                canvas[at] = first;
                canvas[at + 1] = second;
                canvas[at + 2] = third;
            }
            done = done + 1;
        }
        Some(canvas)
    }
}

/// Whether the receiver saves the frame with this identifier: every tenth
/// one.
pub fn should_save(frame_id: u64) -> (save: bool)
    ensures
        save == (frame_id % SAVE_INTERVAL == 0),
{
    frame_id % SAVE_INTERVAL == 0
}

/// How many of `count` saved frames, oldest first, are removed so that at
/// most `keep` stay.
pub fn stale_frames(count: usize, keep: usize) -> (stale: usize)
    ensures
        stale == (if count > keep {
            count - keep
        } else {
            0
        }),
{
    if count > keep {
        count - keep
    } else {
        0
    }
}

} // verus!
