//! Pixel blitting into the raw framebuffer of a screen.
//!
//! A framebuffer holds three bytes per pixel, in the order blue, green, red.
//! The bottom screen is mounted sideways: its memory is laid out column by
//! column relative to what the drawing API sees, so logical `(x, y)` lands at
//! physical column `x`, row `width - y - 1`. The top screen is stored as seen.

use vstd::prelude::*;

verus! {

/// A 24-bit colour in the red-green-blue model of the drawing API.
#[derive(Clone, Copy, Debug, PartialEq, Eq, Structural)]
pub struct Color {
    pub r: u8,
    pub g: u8,
    pub b: u8,
}

/// A logical coordinate; either axis may be negative or past the screen.
#[derive(Clone, Copy, Debug, PartialEq, Eq, Structural)]
pub struct Point {
    pub x: i32,
    pub y: i32,
}

/// One pixel to draw: where, and in which colour.
#[derive(Clone, Copy, Debug, PartialEq, Eq, Structural)]
pub struct Pixel {
    pub point: Point,
    pub color: Color,
}

/// An axis-aligned rectangle in logical coordinates.
#[derive(Clone, Copy, Debug, PartialEq, Eq, Structural)]
pub struct Rectangle {
    pub top_left: Point,
    pub width: u32,
    pub height: u32,
}

/// The three bytes that a pixel of colour `c` occupies in memory.
pub open spec fn bgr(c: Color) -> Seq<u8> {
    seq![c.b, c.g, c.r]
}

/// Reorders a colour into the byte order of the framebuffer.
pub fn reorder_channels(c: Color) -> (r: [u8; 3])
    ensures
        r@ == bgr(c),
{
    let r: [u8; 3] = [c.b, c.g, c.r];
    assert(r@ =~= bgr(c));
    r
}

/// How a screen's memory is laid out relative to what the drawing API sees.
#[derive(Clone, Copy, Debug, PartialEq, Eq, Structural)]
pub enum Orientation {
    /// Mounted sideways: logical `(x, y)` is stored at physical column `x`,
    /// row `width - y - 1`, and the logical size is the physical size swapped.
    Rotated,
    /// Laid out as seen: logical `(x, y)` is stored at physical column `y`,
    /// row `x`, and the logical size is the physical size.
    Upright,
}

/// The physical row that logical row `y` lands on, in a rotated buffer whose
/// columns are `width` pixels long.
pub open spec fn physical_row(width: int, y: int) -> int {
    width - y - 1
}

/// The physical `(column, row)` of logical `(x, y)` in a buffer whose columns
/// are `width` pixels long.
pub open spec fn physical(o: Orientation, width: int, x: int, y: int) -> (int, int) {
    match o {
        Orientation::Rotated => (x, physical_row(width, y)),
        Orientation::Upright => (y, x),
    }
}

/// Whether logical `(x, y)` lies on a screen whose physical buffer has
/// `height` columns of `width` pixels: its column and row must both be in
/// range, half-open at the high end.
pub open spec fn on_screen(o: Orientation, width: int, height: int, x: int, y: int) -> bool {
    let (col, row) = physical(o, width, x, y);
    0 <= col < height && 0 <= row < width
}

/// The byte offset of physical column `col`, row `row`, in a buffer whose
/// columns are `width` pixels long.
pub open spec fn offset_of(width: int, col: int, row: int) -> int {
    3 * (col * width + row)
}

/// The byte offset at which logical `(x, y)` is stored.
pub open spec fn pixel_offset(o: Orientation, width: int, x: int, y: int) -> int {
    offset_of(width, physical(o, width, x, y).0, physical(o, width, x, y).1)
}

/// `frame` with the pixel at byte offset `at` set to colour `c`.
pub open spec fn put_at(frame: Seq<u8>, at: int, c: Color) -> Seq<u8> {
    frame.update(at, c.b).update(at + 1, c.g).update(at + 2, c.r)
}

/// `frame` after drawing `p`: unchanged where `p` is clipped.
pub open spec fn put_pixel(frame: Seq<u8>, o: Orientation, width: int, height: int, p: Pixel) -> Seq<u8> {
    if on_screen(o, width, height, p.point.x as int, p.point.y as int) {
        put_at(frame, pixel_offset(o, width, p.point.x as int, p.point.y as int), p.color)
    } else {
        frame
    }
}

/// `frame` after drawing `pixels` in order; a later pixel overwrites an
/// earlier one at the same place.
pub open spec fn draw_pixels(frame: Seq<u8>, o: Orientation, width: int, height: int, pixels: Seq<Pixel>) -> Seq<u8>
    decreases pixels.len(),
{
    if pixels.len() == 0 {
        frame
    } else {
        put_pixel(draw_pixels(frame, o, width, height, pixels.drop_last()), o, width, height, pixels.last())
    }
}

/// A buffer of `len` bytes holding colour `c` at every pixel.
pub open spec fn filled(len: nat, c: Color) -> Seq<u8> {
    Seq::new(len, |i: int| bgr(c)[i % 3])
}

/// Maps a logical coordinate to the physical `(column, row)` of a rotated
/// buffer with `height` columns of `width` pixels, or `None` where it falls
/// off the screen.
pub fn rotate_coordinate(width: u16, height: u16, p: Point) -> (r: Option<(usize, usize)>)
    ensures
        r == (if on_screen(Orientation::Rotated, width as int, height as int, p.x as int, p.y as int) {
            Some((p.x as usize, physical_row(width as int, p.y as int) as usize))
        } else {
            None
        }),
{
    if p.x < 0 || p.y < 0 || p.x >= height as i32 || p.y >= width as i32 {
        None
    } else {
        let row: i32 = width as i32 - p.y - 1;
        Some((p.x as usize, row as usize))
    }
}

/// Maps a logical coordinate to its physical `(column, row)`, or `None` where
/// it falls off the screen.
fn locate(o: Orientation, width: u16, height: u16, p: Point) -> (r: Option<(usize, usize)>)
    ensures
        r == (if on_screen(o, width as int, height as int, p.x as int, p.y as int) {
            Some((physical(o, width as int, p.x as int, p.y as int).0 as usize,
                physical(o, width as int, p.x as int, p.y as int).1 as usize))
        } else {
            None
        }),
{
    match o {
        Orientation::Rotated => rotate_coordinate(width, height, p),
        Orientation::Upright => {
            if p.x < 0 || p.y < 0 || p.x >= width as i32 || p.y >= height as i32 {
                None
            } else {
                Some((p.y as usize, p.x as usize))
            }
        },
    }
}

/// Draws one pixel into `frame`, dropping it where it falls off the screen.
fn put(frame: &mut [u8], o: Orientation, width: u16, height: u16, p: Pixel)
    requires
        old(frame)@.len() == 3 * width * height,
    ensures
        final(frame)@ == put_pixel(old(frame)@, o, width as int, height as int, p),
        final(frame)@.len() == old(frame)@.len(),
{
    match locate(o, width, height, p.point) {
        Some((col, row)) => {
            let wu: usize = width as usize;
            let h = height;
            let n: usize = frame.len();
            proof {
                assert(col * wu + row < (h as int) * (wu as int) && col * wu <= col * wu + row)
                    by (nonlinear_arith)
                    requires col < h, row < wu;
                assert(3 * ((h as int) * (wu as int)) == 3 * (wu as int) * (h as int)) by (nonlinear_arith);
                assert(3 * (col * wu + row) + 2 < n);
            }
            let at: usize = 3 * (col * wu + row);
            let bytes = reorder_channels(p.color);
            frame[at] = bytes[0];
            frame[at + 1] = bytes[1];
            frame[at + 2] = bytes[2];
        },
        None => {},
    }
}

/// Draws `pixels` into `frame` in order.
fn put_all(frame: &mut [u8], o: Orientation, width: u16, height: u16, pixels: &[Pixel])
    requires
        old(frame)@.len() == 3 * width * height,
    ensures
        final(frame)@ == draw_pixels(old(frame)@, o, width as int, height as int, pixels@),
{
    let ghost start = frame@;
    let mut i: usize = 0;
    while i < pixels.len()
        invariant
            0 <= i <= pixels@.len(),
            frame@ == draw_pixels(start, o, width as int, height as int, pixels@.take(i as int)),
            frame@.len() == 3 * width * height,
        decreases pixels@.len() - i,
    {
        put(frame, o, width, height, pixels[i]);
        proof {
            assert(pixels@.take(i as int + 1).drop_last() =~= pixels@.take(i as int));
        }
        i = i + 1;
    }
    assert(pixels@.take(i as int) =~= pixels@);
}

/// Fills `frame` with colour `c`: a run of `height` pixels of the colour is
/// built once and copied `width` times, back to back.
fn fill(frame: &mut [u8], c: Color, width: u16, height: u16)
    requires
        old(frame)@.len() == 3 * width * height,
    ensures
        final(frame)@ == filled(old(frame)@.len(), c),
{
    let bytes = reorder_channels(c);
    let h = height as usize;
    let w = width as usize;
    let n: usize = frame.len();
    proof {
        assert(3 * (w as int) * (h as int) == (w as int) * (3 * h)) by (nonlinear_arith);
    }
    assert(bytes[0] == c.b && bytes[1] == c.g && bytes[2] == c.r);
    let col_len: usize = 3 * h;
    let mut column: Vec<u8> = Vec::new();
    let mut j: usize = 0;
    while j < h
        invariant
            j <= h,
            bytes[0] == c.b && bytes[1] == c.g && bytes[2] == c.r,
            column@.len() == 3 * j,
            forall|k: int| 0 <= k < column@.len() ==> column@[k] == bgr(c)[k % 3],
        decreases h - j,
    {
        let ghost prev = column@;
        column.push(bytes[0]);
        column.push(bytes[1]);
        column.push(bytes[2]);
        proof {
            assert(column@ == prev.push(c.b).push(c.g).push(c.r));
            vstd::arithmetic::div_mod::lemma_mod_multiples_vanish(j as int, 0, 3);
            vstd::arithmetic::div_mod::lemma_mod_multiples_vanish(j as int, 1, 3);
            vstd::arithmetic::div_mod::lemma_mod_multiples_vanish(j as int, 2, 3);
            assert forall|k: int| 0 <= k < column@.len() implies column@[k] == bgr(c)[k % 3] by {
                if k < 3 * j {
                    assert(column@[k] == prev[k]);
                }
            }
        }
        j = j + 1;
    }
    let mut pos: usize = 0;
    let mut col: usize = 0;
    while col < w
        invariant
            col <= w,
            pos == col * col_len,
            col_len == 3 * h,
            n == w * col_len,
            column@.len() == col_len,
            forall|k: int| 0 <= k < column@.len() ==> column@[k] == bgr(c)[k % 3],
            frame@.len() == n,
            forall|k: int| 0 <= k < pos ==> frame@[k] == bgr(c)[k % 3],
        decreases w - col,
    {
        let ghost t: int = col * h;
        proof {
            assert(pos + col_len <= n) by (nonlinear_arith)
                requires pos == col * col_len, col < w, n == w * col_len;
            assert(pos == 3 * t) by (nonlinear_arith)
                requires pos == col * col_len, col_len == 3 * h, t == col * h;
        }
        let mut k: usize = 0;
        while k < col_len
            invariant
                k <= col_len,
                pos + col_len <= n,
                pos == 3 * t,
                column@.len() == col_len,
                forall|m: int| 0 <= m < column@.len() ==> column@[m] == bgr(c)[m % 3],
                frame@.len() == n,
                forall|m: int| 0 <= m < pos + k ==> frame@[m] == bgr(c)[m % 3],
            decreases col_len - k,
        {
            frame[pos + k] = column[k];
            proof {
                vstd::arithmetic::div_mod::lemma_mod_multiples_vanish(t, k as int, 3);
            }
            k = k + 1;
        }
        pos = pos + col_len;
        col = col + 1;
        proof {
            assert(pos == col * col_len) by (nonlinear_arith)
                requires pos == (col - 1) * col_len + col_len;
        }
    }
    assert(frame@ =~= filled(n as nat, c));
}

/// The bottom screen: a rotated framebuffer with three bytes per pixel; its
/// logical width is the physical height.
///
/// The adapter holds the physical dimensions; the pixel memory itself is
/// handed to each call as a byte slice of `3 * width * height` bytes.
pub struct BottomDisplay3DS {
    width: u16,
    height: u16,
}

impl View for BottomDisplay3DS {
    /// The physical `(width, height)` of the buffer.
    type V = (nat, nat);

    closed spec fn view(&self) -> (nat, nat) {
        (self.width as nat, self.height as nat)
    }
}

impl BottomDisplay3DS {
    /// The number of bytes of a buffer of this screen.
    pub open spec fn frame_len(&self) -> nat {
        3 * self@.0 * self@.1
    }

    /// An adapter for a buffer whose physical dimensions are `width` by `height`.
    pub fn new(width: u16, height: u16) -> (r: Self)
        ensures
            r@ == (width as nat, height as nat),
    {
        BottomDisplay3DS { width, height }
    }

    /// The logical extent of the screen, from the origin.
    pub fn bounding_box(&self) -> (r: Rectangle)
        ensures
            r == (Rectangle { top_left: Point { x: 0, y: 0 }, width: self@.1 as u32, height: self@.0 as u32 }),
    {
        Rectangle { top_left: Point { x: 0, y: 0 }, width: self.height as u32, height: self.width as u32 }
    }

    /// Draws one pixel, dropping it where it falls off the screen.
    pub fn draw_pixel(&self, frame: &mut [u8], p: Pixel)
        requires
            old(frame)@.len() == self.frame_len(),
        ensures
            final(frame)@ == put_pixel(old(frame)@, Orientation::Rotated, self@.0 as int, self@.1 as int, p),
    {
        put(frame, Orientation::Rotated, self.width, self.height, p);
    }

    /// Draws `pixels` in order, dropping each one that falls off the screen.
    /// The error type has no values: drawing cannot fail.
    pub fn draw_iter(&self, frame: &mut [u8], pixels: &[Pixel]) -> (r: Result<(), core::convert::Infallible>)
        requires
            old(frame)@.len() == self.frame_len(),
        ensures
            r.is_ok(),
            final(frame)@ == draw_pixels(old(frame)@, Orientation::Rotated, self@.0 as int, self@.1 as int, pixels@),
    {
        put_all(frame, Orientation::Rotated, self.width, self.height, pixels);
        Ok(())
    }

    /// Fills the whole buffer with colour `c`.
    pub fn clear(&self, frame: &mut [u8], c: Color) -> (r: Result<(), core::convert::Infallible>)
        requires
            old(frame)@.len() == self.frame_len(),
        ensures
            r.is_ok(),
            final(frame)@ == filled(old(frame)@.len(), c),
    {
        fill(frame, c, self.width, self.height);
        Ok(())
    }
}

/// The top screen: an upright framebuffer with three bytes per pixel.
///
/// The adapter holds the physical dimensions; the pixel memory itself is
/// handed to each call as a byte slice of `3 * width * height` bytes.
pub struct TopDisplay3DS {
    width: u16,
    height: u16,
}

impl View for TopDisplay3DS {
    /// The physical `(width, height)` of the buffer.
    type V = (nat, nat);

    closed spec fn view(&self) -> (nat, nat) {
        (self.width as nat, self.height as nat)
    }
}

impl TopDisplay3DS {
    /// The number of bytes of a buffer of this screen.
    pub open spec fn frame_len(&self) -> nat {
        3 * self@.0 * self@.1
    }

    /// An adapter for a buffer whose physical dimensions are `width` by `height`.
    pub fn new(width: u16, height: u16) -> (r: Self)
        ensures
            r@ == (width as nat, height as nat),
    {
        TopDisplay3DS { width, height }
    }

    /// The logical extent of the screen, from the origin.
    pub fn bounding_box(&self) -> (r: Rectangle)
        ensures
            r == (Rectangle { top_left: Point { x: 0, y: 0 }, width: self@.0 as u32, height: self@.1 as u32 }),
    {
        Rectangle { top_left: Point { x: 0, y: 0 }, width: self.width as u32, height: self.height as u32 }
    }

    /// Draws one pixel, dropping it where it falls off the screen.
    pub fn draw_pixel(&self, frame: &mut [u8], p: Pixel)
        requires
            old(frame)@.len() == self.frame_len(),
        ensures
            final(frame)@ == put_pixel(old(frame)@, Orientation::Upright, self@.0 as int, self@.1 as int, p),
    {
        put(frame, Orientation::Upright, self.width, self.height, p);
    }

    /// Draws `pixels` in order, dropping each one that falls off the screen.
    /// The error type has no values: drawing cannot fail.
    pub fn draw_iter(&self, frame: &mut [u8], pixels: &[Pixel]) -> (r: Result<(), core::convert::Infallible>)
        requires
            old(frame)@.len() == self.frame_len(),
        ensures
            r.is_ok(),
            final(frame)@ == draw_pixels(old(frame)@, Orientation::Upright, self@.0 as int, self@.1 as int, pixels@),
    {
        put_all(frame, Orientation::Upright, self.width, self.height, pixels);
        Ok(())
    }

    /// Fills the whole buffer with colour `c`.
    pub fn clear(&self, frame: &mut [u8], c: Color) -> (r: Result<(), core::convert::Infallible>)
        requires
            old(frame)@.len() == self.frame_len(),
        ensures
            r.is_ok(),
            final(frame)@ == filled(old(frame)@.len(), c),
    {
        fill(frame, c, self.width, self.height);
        Ok(())
    }
}


/// Drawing a sequence of one pixel is drawing that pixel.
pub proof fn lemma_draw_single(frame: Seq<u8>, o: Orientation, width: int, height: int, p: Pixel)
    ensures
        draw_pixels(frame, o, width, height, seq![p]) == put_pixel(frame, o, width, height, p),
{
    assert(seq![p].drop_last() =~= Seq::<Pixel>::empty());
    assert(seq![p].last() == p);
    reveal_with_fuel(draw_pixels, 2);
}

/// A pixel on the screen occupies three bytes inside the buffer.
proof fn lemma_offset_in_frame(o: Orientation, width: nat, height: nat, x: int, y: int)
    requires
        on_screen(o, width as int, height as int, x, y),
    ensures
        0 <= pixel_offset(o, width as int, x, y),
        pixel_offset(o, width as int, x, y) + 3 <= 3 * width * height,
{
    let (col, row) = physical(o, width as int, x, y);
    assert(col * width + row < height * width && 0 <= col * width) by (nonlinear_arith)
        requires 0 <= col < height, 0 <= row < width;
    assert(3 * width * height == 3 * (height * width)) by (nonlinear_arith);
}

/// Drawing one pixel that lies on the screen, and reading back the three
/// bytes at its physical place, gives the pixel's colour as blue, green, red;
/// every other byte keeps its value.
pub proof fn lemma_draw_reads_back(frame: Seq<u8>, o: Orientation, width: nat, height: nat, p: Pixel)
    requires
        frame.len() == 3 * width * height,
        on_screen(o, width as int, height as int, p.point.x as int, p.point.y as int),
    ensures
        ({
            let at = pixel_offset(o, width as int, p.point.x as int, p.point.y as int);
            let after = draw_pixels(frame, o, width as int, height as int, seq![p]);
            &&& 0 <= at && at + 3 <= frame.len()
            &&& after.subrange(at, at + 3) == bgr(p.color)
            &&& after.len() == frame.len()
            &&& forall|i: int| 0 <= i < frame.len() && !(at <= i < at + 3) ==> after[i] == frame[i]
        }),
{
    lemma_draw_single(frame, o, width as int, height as int, p);
    lemma_offset_in_frame(o, width, height, p.point.x as int, p.point.y as int);
    let at = pixel_offset(o, width as int, p.point.x as int, p.point.y as int);
    let after = draw_pixels(frame, o, width as int, height as int, seq![p]);
    assert(after.subrange(at, at + 3) =~= bgr(p.color));
}

/// Drawing a pixel that falls off the screen, whether below zero or at or
/// past the high edge of either axis, leaves the whole buffer unchanged.
pub proof fn lemma_clipped_draw_unchanged(frame: Seq<u8>, o: Orientation, width: nat, height: nat, p: Pixel)
    requires
        !on_screen(o, width as int, height as int, p.point.x as int, p.point.y as int),
    ensures
        draw_pixels(frame, o, width as int, height as int, seq![p]) == frame,
{
    lemma_draw_single(frame, o, width as int, height as int, p);
}

/// After a clear with colour `c`, every pixel of the buffer reads `c` as blue,
/// green, red.
pub proof fn lemma_clear_fills(len: nat, c: Color)
    requires
        len % 3 == 0,
    ensures
        forall|q: int| 0 <= q < len / 3 ==> #[trigger] filled(len, c).subrange(3 * q, 3 * q + 3) == bgr(c),
{
    assert forall|q: int| 0 <= q < len / 3 implies #[trigger] filled(len, c).subrange(3 * q, 3 * q + 3) == bgr(c) by {
        vstd::arithmetic::div_mod::lemma_mod_multiples_vanish(q, 0, 3);
        vstd::arithmetic::div_mod::lemma_mod_multiples_vanish(q, 1, 3);
        vstd::arithmetic::div_mod::lemma_mod_multiples_vanish(q, 2, 3);
        assert(filled(len, c).subrange(3 * q, 3 * q + 3) =~= bgr(c));
    }
}

/// Clearing twice with the same colour leaves the same buffer as clearing once.
pub proof fn lemma_clear_idempotent(frame: Seq<u8>, c: Color)
    ensures
        filled(filled(frame.len(), c).len(), c) == filled(frame.len(), c),
{
}

/// Drawing the same pixel a second time changes nothing: a pixel overwrites,
/// it does not blend.
pub proof fn lemma_redraw_unchanged(frame: Seq<u8>, o: Orientation, width: nat, height: nat, p: Pixel)
    requires
        frame.len() == 3 * width * height,
    ensures
        draw_pixels(draw_pixels(frame, o, width as int, height as int, seq![p]), o, width as int, height as int, seq![p])
            == draw_pixels(frame, o, width as int, height as int, seq![p]),
{
    lemma_draw_single(frame, o, width as int, height as int, p);
    let once = draw_pixels(frame, o, width as int, height as int, seq![p]);
    lemma_draw_single(once, o, width as int, height as int, p);
    let twice = draw_pixels(once, o, width as int, height as int, seq![p]);
    if on_screen(o, width as int, height as int, p.point.x as int, p.point.y as int) {
        lemma_offset_in_frame(o, width, height, p.point.x as int, p.point.y as int);
        assert(twice =~= once);
    }
}

/// On a rotated screen the top-left logical corner lands on the last physical
/// row of the first column, and the bottom-left corner on its first row.
pub proof fn lemma_rotation_corners(width: nat, height: nat)
    requires
        width > 0,
        height > 0,
    ensures
        on_screen(Orientation::Rotated, width as int, height as int, 0, 0),
        physical(Orientation::Rotated, width as int, 0, 0) == (0int, width - 1),
        pixel_offset(Orientation::Rotated, width as int, 0, 0) == 3 * (width - 1),
        on_screen(Orientation::Rotated, width as int, height as int, 0, width - 1),
        physical(Orientation::Rotated, width as int, 0, width - 1) == (0int, 0int),
        pixel_offset(Orientation::Rotated, width as int, 0, width - 1) == 0,
{
}

} // verus!
