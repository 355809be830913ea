//! Framebuffer geometry and pixel arithmetic. The screen itself is a
//! memory-mapped region the hardware side writes; everything that decides
//! what lands where — the boot handoff record, geometry validation,
//! clipping, channel order, byte offsets and alpha blending — is here, and
//! the pixel-writing routines run on an ordinary byte buffer such as the
//! back buffer, which the hardware side copies to the screen.

use vstd::prelude::*;
use crate::paging::PML4;
use crate::paging::MAX_PAGE_BLOCK;
use crate::paging::PAGE_ADDR_MASK;
use crate::paging::WRITE_COMBINE_BIT;

verus! {

/// Magic value marking a boot-info record.
pub const BOOT_INFO_MAGIC: u64 = 0x5255_5354_4F53_4749;

/// Version of the boot-info record this kernel understands.
pub const BOOT_INFO_VERSION: u32 = 1;

/// How the firmware laid out a pixel's channels.
#[derive(Clone, Copy, Debug, PartialEq, Eq, Structural)]
pub enum BootPixelFormat {
    Rgb,
    Bgr,
    Bitmask,
    Unknown,
}

/// What the boot side hands the kernel about the framebuffer.
#[derive(Clone, Copy, Debug, PartialEq, Eq, Structural)]
pub struct FramebufferInfo {
    pub addr: u64,
    pub size: u64,
    pub back_buffer_addr: u64,
    pub back_buffer_size: u64,
    pub width: u32,
    pub height: u32,
    pub stride: u32,
    pub pixel_format: BootPixelFormat,
    pub bytes_per_pixel: u8,
}

/// The record the boot side leaves in memory for the kernel.
#[derive(Clone, Copy, Debug, PartialEq, Eq, Structural)]
pub struct BootInfo {
    pub magic: u64,
    pub version: u32,
    pub framebuffer: FramebufferInfo,
}

impl BootInfo {
    /// A fresh record carrying `framebuffer`, stamped with the magic and
    /// version the kernel checks.
    pub fn new(framebuffer: FramebufferInfo) -> (r: BootInfo)
        ensures
            r.magic == BOOT_INFO_MAGIC,
            r.version == BOOT_INFO_VERSION,
            r.framebuffer == framebuffer,
    {
        BootInfo { magic: BOOT_INFO_MAGIC, version: BOOT_INFO_VERSION, framebuffer }
    }
}

/// Whether a handed-over record carries the magic and version this kernel
/// understands; anything else is a fatal boot error.
pub fn boot_info_valid(info: &BootInfo) -> (r: bool)
    ensures
        r == (info.magic == BOOT_INFO_MAGIC && info.version == BOOT_INFO_VERSION),
{
    info.magic == BOOT_INFO_MAGIC && info.version == BOOT_INFO_VERSION
}

/// A color, one byte per channel.
#[derive(Clone, Copy, Debug, PartialEq, Eq, Structural)]
pub struct Rgb {
    pub red: u8,
    pub green: u8,
    pub blue: u8,
}

/// A pixel channel blended onto a destination byte: `alpha` parts new
/// color, `256 - alpha` parts old, in 256ths.
pub open spec fn blend(c: u8, d: u8, alpha: u8) -> u8 {
    (((c * alpha + d * (256 - alpha)) / 256) as u8)
}

/// The screen's geometry, plus where its front and back buffers live. The
/// buffer addresses are opaque to the drawing routines here, which work on
/// a byte buffer of the screen's size.
#[derive(Clone, Copy, Debug)]
pub struct Framebuffer {
    pub front_base: u64,
    pub back_base: u64,
    pub size: usize,
    pub width: usize,
    pub height: usize,
    pub stride_bytes: usize,
    pub bpp: usize,
    pub format: BootPixelFormat,
    pub use_double_buffer: bool,
}

impl Framebuffer {
    /// Coherent geometry: positive dimensions that fit the row stride and
    /// the buffer size.
    pub open spec fn wf(self) -> bool {
        &&& 1 <= self.width <= u32::MAX
        &&& 1 <= self.height <= u32::MAX
        &&& 3 <= self.bpp <= 4
        &&& self.width * self.bpp <= self.stride_bytes
        &&& self.stride_bytes * self.height <= self.size
    }

    /// Byte offset of pixel `(x, y)`.
    pub open spec fn px(self, x: int, y: int) -> int {
        y * self.stride_bytes + x * self.bpp
    }

    /// A pixel's bytes lie inside the buffer.
    proof fn lemma_px_in_bounds(self, x: int, y: int)
        requires
            self.wf(),
            0 <= x < self.width,
            0 <= y < self.height,
        ensures
            0 <= self.px(x, y),
            self.px(x, y) + self.bpp <= self.size,
    {
        let s = self.stride_bytes as int;
        let b = self.bpp as int;
        assert(x * b + b <= self.width * b) by (nonlinear_arith)
            requires
                x + 1 <= self.width,
                b >= 0,
        ;
        assert(y * s + s <= self.height * s) by (nonlinear_arith)
            requires
                y + 1 <= self.height,
                s >= 0,
        ;
        assert(self.height * s == s * self.height) by (nonlinear_arith);
        assert(0 <= y * s && 0 <= x * b) by (nonlinear_arith)
            requires
                y >= 0,
                s >= 0,
                x >= 0,
                b >= 0,
        ;
    }

    /// Distinct pixels occupy distinct bytes: a byte offset decomposes
    /// uniquely into its pixel and channel.
    proof fn lemma_px_unique(self, x1: int, y1: int, c1: int, x2: int, y2: int, c2: int)
        requires
            self.wf(),
            0 <= x1 < self.width,
            0 <= y1 < self.height,
            0 <= c1 < self.bpp,
            0 <= x2 < self.width,
            0 <= y2 < self.height,
            0 <= c2 < self.bpp,
            self.px(x1, y1) + c1 == self.px(x2, y2) + c2,
        ensures
            x1 == x2 && y1 == y2 && c1 == c2,
    {
        let s = self.stride_bytes as int;
        let b = self.bpp as int;
        let idx = self.px(x1, y1) + c1;
        assert(x1 * b + c1 < s && x1 * b + c1 >= 0) by (nonlinear_arith)
            requires
                0 <= x1,
                x1 + 1 <= self.width,
                0 <= c1 < b,
                self.width * b <= s,
        ;
        assert(x2 * b + c2 < s && x2 * b + c2 >= 0) by (nonlinear_arith)
            requires
                0 <= x2,
                x2 + 1 <= self.width,
                0 <= c2 < b,
                self.width * b <= s,
        ;
        vstd::arithmetic::div_mod::lemma_fundamental_div_mod_converse(
            idx,
            s,
            y1,
            x1 * b + c1,
        );
        vstd::arithmetic::div_mod::lemma_fundamental_div_mod_converse(
            idx,
            s,
            y2,
            x2 * b + c2,
        );
        assert(y1 == y2 && x1 * b + c1 == x2 * b + c2);
        vstd::arithmetic::div_mod::lemma_fundamental_div_mod_converse(x1 * b + c1, b, x1, c1);
        vstd::arithmetic::div_mod::lemma_fundamental_div_mod_converse(x1 * b + c1, b, x2, c2);
    }

    /// The byte a color stores for channel `ch` of a pixel: the channel in
    /// the format's order.
    pub open spec fn chan_of(self, color: Rgb, ch: int) -> u8 {
        if self.format == BootPixelFormat::Rgb {
            if ch == 0 {
                color.red
            } else if ch == 1 {
                color.green
            } else {
                color.blue
            }
        } else {
            if ch == 0 {
                color.blue
            } else if ch == 1 {
                color.green
            } else {
                color.red
            }
        }
    }

    /// What a drawn pixel's channel byte becomes: the color channel,
    /// blended over the old byte unless the draw is opaque; a fourth byte,
    /// where written, is cleared.
    pub open spec fn pixel_byte(self, old_byte: u8, color: Rgb, alpha: u8, ch: int) -> u8 {
        if ch == 3 {
            0
        } else if alpha == 255 {
            self.chan_of(color, ch)
        } else {
            blend(self.chan_of(color, ch), old_byte, alpha)
        }
    }

    /// Whether byte `i` belongs to some channel `< nb` of some pixel of
    /// the half-open box `[x0, x1) × [y0, y1)`.
    pub open spec fn box_covers(self, x0: int, y0: int, x1: int, y1: int, nb: int, i: int) -> bool {
        exists|p: (int, int, int)|
            x0 <= p.0 < x1 && y0 <= p.1 < y1 && 0 <= p.2 < nb && i == self.px(p.0, p.1) + p.2
    }

    /// The channel bytes a color writes, in the order the format stores
    /// them: red first for RGB layouts, blue first otherwise.
    pub fn color_bytes(&self, color: Rgb) -> (r: (u8, u8, u8))
        ensures
            self.format == BootPixelFormat::Rgb ==> r == (color.red, color.green, color.blue),
            self.format != BootPixelFormat::Rgb ==> r == (color.blue, color.green, color.red),
    {
        match self.format {
            BootPixelFormat::Rgb => (color.red, color.green, color.blue),
            _ => (color.blue, color.green, color.red),
        }
    }

    /// A clamp of `v` into `[0, hi]`.
    pub open spec fn clampi(v: int, hi: int) -> int {
        if v < 0 {
            0
        } else if v > hi {
            hi
        } else {
            v
        }
    }

    /// A requested rectangle clipped to the screen: the half-open pixel
    /// box `[x0, x1) × [y0, y1)`, or nothing when nothing of it is
    /// visible.
    pub fn clipped_rect(&self, x: i64, y: i64, w: u32, h: u32) -> (r: Option<
        (usize, usize, usize, usize),
    >)
        requires
            self.wf(),
        ensures
            ({
                let x0 = Self::clampi(x as int, self.width as int);
                let y0 = Self::clampi(y as int, self.height as int);
                let x1 = Self::clampi(x + w, self.width as int);
                let y1 = Self::clampi(y + h, self.height as int);
                if w == 0 || h == 0 || x0 >= x1 || y0 >= y1 {
                    r is None
                } else {
                    r == Some((x0 as usize, y0 as usize, x1 as usize, y1 as usize))
                }
            }),
            r matches Some(q) ==> {
                &&& q.0 < q.2 <= self.width
                &&& q.1 < q.3 <= self.height
            },
    {
        if w == 0 || h == 0 {
            return None;
        }

        let width = self.width as i64;
        let height = self.height as i64;

        let x0: i64 = if x < 0 {
            0
        } else if x > width {
            width
        } else {
            x
        };
        let y0: i64 = if y < 0 {
            0
        } else if y > height {
            height
        } else {
            y
        };

        let xw: i64 = if x > i64::MAX - (w as i64) {
            i64::MAX
        } else {
            x + (w as i64)
        };
        let yh: i64 = if y > i64::MAX - (h as i64) {
            i64::MAX
        } else {
            y + (h as i64)
        };

        let x1: i64 = if xw < 0 {
            0
        } else if xw > width {
            width
        } else {
            xw
        };
        let y1: i64 = if yh < 0 {
            0
        } else if yh > height {
            height
        } else {
            yh
        };

        if x0 >= x1 || y0 >= y1 {
            return None;
        }

        Some((x0 as usize, y0 as usize, x1 as usize, y1 as usize))
    }
}

/// Whether a back buffer may be used: both buffers exist, the back buffer
/// is large enough, and the two regions do not overlap.
pub fn can_use_double_buffer(front_addr: u64, back_addr: u64, size: usize, back_size: usize) -> (r:
    bool)
    ensures
        r == (front_addr != 0 && back_addr != 0 && back_addr != front_addr && back_size >= size
            && front_addr + size <= u64::MAX && back_addr + size <= u64::MAX && (back_addr
            >= front_addr + size || front_addr >= back_addr + size)),
{
    if front_addr == 0 || back_addr == 0 || back_addr == front_addr || back_size < size {
        return false;
    }

    if front_addr > u64::MAX - (size as u64) {
        return false;
    }
    let front_end = front_addr + (size as u64);
    if back_addr > u64::MAX - (size as u64) {
        return false;
    }
    let back_end = back_addr + (size as u64);

    back_addr >= front_end || front_addr >= back_end
}

/// Whether a handed-over framebuffer description is coherent: buffers and
/// dimensions present, a supported pixel depth, and a geometry that fits
/// inside the advertised size. Anything else is a fatal boot error.
pub fn framebuffer_geometry_ok(src: &FramebufferInfo) -> (r: bool)
    ensures
        r == (src.addr != 0 && src.size != 0 && src.size <= usize::MAX && src.width > 0
            && src.height > 0 && src.stride >= src.width && 3 <= src.bytes_per_pixel <= 4
            && src.stride * src.bytes_per_pixel * src.height <= src.size),
{
    if src.addr == 0 || src.size == 0 || src.size > (usize::MAX as u64) {
        return false;
    }
    if src.width == 0 || src.height == 0 || src.stride < src.width {
        return false;
    }
    if src.bytes_per_pixel < 3 || src.bytes_per_pixel > 4 {
        return false;
    }
    proof {
        assert(src.stride * src.bytes_per_pixel <= 0xFFFF_FFFFu64 * 4) by (nonlinear_arith)
            requires
                src.stride <= 0xFFFF_FFFFu32,
                src.bytes_per_pixel <= 4u8,
        ;
    }
    let stride_bytes: u64 = (src.stride as u64) * (src.bytes_per_pixel as u64);
    if stride_bytes > u64::MAX / (src.height as u64) {
        proof {
            assert(stride_bytes * src.height > u64::MAX) by (nonlinear_arith)
                requires
                    src.height >= 1u32,
                    stride_bytes > u64::MAX as int / (src.height as int),
            ;
        }
        return false;
    }
    proof {
        assert(stride_bytes * src.height <= (u64::MAX as int / (src.height as int)) * src.height
            <= u64::MAX) by (nonlinear_arith)
            requires
                src.height >= 1u32,
                stride_bytes <= u64::MAX as int / (src.height as int),
        ;
    }
    let min_size: u64 = stride_bytes * (src.height as u64);
    min_size <= src.size
}

/// The screen a coherent description defines; the back buffer is used
/// only when it exists and does not overlap the front buffer.
pub fn build_framebuffer(src: &FramebufferInfo) -> (r: Framebuffer)
    requires
        src.addr != 0,
        src.size != 0,
        src.size <= usize::MAX,
        src.width > 0,
        src.height > 0,
        src.stride >= src.width,
        3 <= src.bytes_per_pixel <= 4,
        src.stride * src.bytes_per_pixel * src.height <= src.size,
    ensures
        r.wf(),
        r.front_base == src.addr,
        r.back_base == src.back_buffer_addr,
        r.size == src.size,
        r.width == src.width,
        r.height == src.height,
        r.stride_bytes == src.stride * src.bytes_per_pixel,
        r.bpp == src.bytes_per_pixel,
        r.format == src.pixel_format,
        r.use_double_buffer == (src.addr != 0 && src.back_buffer_addr != 0
            && src.back_buffer_addr != src.addr && (src.back_buffer_size as usize) >= src.size
            && src.addr + src.size <= u64::MAX && src.back_buffer_addr + src.size <= u64::MAX && (
        src.back_buffer_addr >= src.addr + src.size || src.addr >= src.back_buffer_addr
            + src.size)),
    {
        let width = src.width as usize;
        let height = src.height as usize;
        let stride = src.stride as usize;
        let bpp = src.bytes_per_pixel as usize;
        let size = src.size as usize;

        proof {
            assert(src.stride * src.bytes_per_pixel <= 0xFFFF_FFFFu64 * 4) by (nonlinear_arith)
                requires
                    src.stride <= 0xFFFF_FFFFu32,
                    src.bytes_per_pixel <= 4u8,
            ;
            assert(src.width * src.bytes_per_pixel <= src.stride * src.bytes_per_pixel)
                by (nonlinear_arith)
                requires
                    src.width <= src.stride,
                    src.bytes_per_pixel >= 0u8,
            ;
            assert(src.stride * src.bytes_per_pixel <= (src.stride * src.bytes_per_pixel)
                * src.height) by (nonlinear_arith)
                requires
                    src.height >= 1u32,
                    src.stride * src.bytes_per_pixel >= 0,
            ;
        }
        let stride_bytes = stride * bpp;

        let use_double_buffer = can_use_double_buffer(
            src.addr,
            src.back_buffer_addr,
            size,
            src.back_buffer_size as usize,
        );

        Framebuffer {
            front_base: src.addr,
            back_base: src.back_buffer_addr,
            size,
            width,
            height,
            stride_bytes,
            bpp,
            format: src.pixel_format,
            use_double_buffer,
        }
    }


/// One channel blended onto its destination byte, as the opaque-free draw
/// paths compute it.
fn blend_byte(c: u8, d: u8, alpha: u8) -> (r: u8)
    ensures
        r == blend(c, d, alpha),
{
    let a = alpha as u16;
    let inv = 256 - a;
    proof {
        assert((c as int) * a + (d as int) * inv <= 255 * 256) by (nonlinear_arith)
            requires
                c <= 255,
                d <= 255,
                0 <= a <= 255,
                inv == 256 - a,
        ;
    }
    let v: u16 = (c as u16) * a + (d as u16) * inv;
    proof {
        assert(v >> 8 == v / 256) by (bit_vector);
    }
    (v >> 8) as u8
}

impl Framebuffer {
    /// Draw one pixel onto a buffer of the screen's bytes: its channel
    /// bytes in the format's order, blended when not opaque, and a fourth
    /// byte cleared where the depth has one. Outside the screen, or fully
    /// transparent, nothing moves.
    pub fn draw_pixel(&self, buf: &mut Vec<u8>, x: usize, y: usize, color: Rgb, alpha: u8)
        requires
            self.wf(),
            old(buf).len() == self.size,
        ensures
            final(buf).len() == old(buf).len(),
            alpha == 0 || x >= self.width || y >= self.height ==> final(buf)@ == old(buf)@,
            alpha != 0 && x < self.width && y < self.height ==> ({
                let idx = self.px(x as int, y as int);
                &&& forall|i: int|
                    0 <= i < old(buf).len() && !(idx <= i < idx + self.bpp) ==> final(buf)[i]
                        == old(buf)[i]
                &&& forall|ch: int|
                    0 <= ch < 3 ==> final(buf)[idx + ch] == (if alpha == 255 {
                        self.chan_of(color, ch)
                    } else {
                        blend(self.chan_of(color, ch), old(buf)[idx + ch], alpha)
                    })
                &&& self.bpp == 4 ==> final(buf)[idx + 3] == 0
            }),
    {
        if alpha == 0 || x >= self.width || y >= self.height {
            return;
        }
        proof {
            self.lemma_px_in_bounds(x as int, y as int);
            assert(0 <= y * self.stride_bytes && 0 <= x * self.bpp) by (nonlinear_arith)
                requires
                    x >= 0 && y >= 0 && self.stride_bytes >= 0 && self.bpp >= 0,
            ;
        }
        let idx = y * self.stride_bytes + x * self.bpp;
        let (c0, c1, c2) = self.color_bytes(color);

        if alpha == 255 {
            buf.set(idx, c0);
            buf.set(idx + 1, c1);
            buf.set(idx + 2, c2);
            if self.bpp == 4 {
                buf.set(idx + 3, 0);
            }
            return;
        }

        let d0 = buf[idx];
        let d1 = buf[idx + 1];
        let d2 = buf[idx + 2];
        buf.set(idx, blend_byte(c0, d0, alpha));
        buf.set(idx + 1, blend_byte(c1, d1, alpha));
        buf.set(idx + 2, blend_byte(c2, d2, alpha));
        if self.bpp == 4 {
            buf.set(idx + 3, 0);
        }
    }

    /// Fill a rectangle of a buffer of the screen's bytes, clipped to the
    /// screen: every covered pixel's channel bytes take the color, blended
    /// when not opaque; an opaque fill on a four-byte depth clears the
    /// fourth byte, while a blended fill leaves it. Every byte outside the
    /// clipped box keeps its value, and a transparent or invisible fill
    /// changes nothing.
    pub fn fill_rect(&self, buf: &mut Vec<u8>, x: i64, y: i64, w: u32, h: u32, color: Rgb, alpha: u8)
        requires
            self.wf(),
            old(buf).len() == self.size,
        ensures
            final(buf).len() == old(buf).len(),
            ({
                let x0 = Self::clampi(x as int, self.width as int);
                let y0 = Self::clampi(y as int, self.height as int);
                let x1 = Self::clampi(x + w, self.width as int);
                let y1 = Self::clampi(y + h, self.height as int);
                let nb: int = if alpha == 255 && self.bpp == 4 {
                    4
                } else {
                    3
                };
                if alpha == 0 || w == 0 || h == 0 || x0 >= x1 || y0 >= y1 {
                    final(buf)@ == old(buf)@
                } else {
                    &&& forall|i: int|
                        0 <= i < old(buf).len() && !self.box_covers(x0, y0, x1, y1, nb, i)
                            ==> final(buf)[i] == old(buf)[i]
                    &&& forall|p: (int, int, int)|
                        x0 <= p.0 < x1 && y0 <= p.1 < y1 && 0 <= p.2 < nb ==> final(buf)[self.px(
                            p.0,
                            p.1,
                        ) + p.2] == self.pixel_byte(
                            old(buf)[self.px(p.0, p.1) + p.2],
                            color,
                            alpha,
                            p.2,
                        )
                }
            }),
    {
        if alpha == 0 {
            return;
        }

        let clip = self.clipped_rect(x, y, w, h);
        let (x0, y0, x1, y1) = match clip {
            None => {
                return;
            },
            Some(q) => q,
        };
        let (c0, c1, c2) = self.color_bytes(color);
        let ghost nb: int = if alpha == 255 && self.bpp == 4 {
            4
        } else {
            3
        };

        let mut py = y0;
        while py < y1
            invariant
                self.wf(),
                alpha != 0,
                buf.len() == old(buf).len() == self.size,
                x0 < x1 <= self.width,
                y0 < y1 <= self.height,
                y0 <= py <= y1,
                nb == (if alpha == 255 && self.bpp == 4 {
                    4int
                } else {
                    3int
                }),
                c0 == self.chan_of(color, 0),
                c1 == self.chan_of(color, 1),
                c2 == self.chan_of(color, 2),
                forall|i: int|
                    0 <= i < buf.len() && !self.box_covers(x0 as int, y0 as int, x1 as int, py as int, nb, i)
                        ==> buf[i] == old(buf)[i],
                forall|p: (int, int, int)|
                    x0 <= p.0 < x1 && y0 <= p.1 < py && 0 <= p.2 < nb ==> buf[self.px(p.0, p.1)
                        + p.2] == self.pixel_byte(old(buf)[self.px(p.0, p.1) + p.2], color, alpha, p.2),
            decreases y1 - py,
        {
            let mut px_ = x0;
            while px_ < x1
                invariant
                    self.wf(),
                    alpha != 0,
                    buf.len() == old(buf).len() == self.size,
                    x0 < x1 <= self.width,
                    y0 < y1 <= self.height,
                    y0 <= py < y1,
                    x0 <= px_ <= x1,
                    nb == (if alpha == 255 && self.bpp == 4 {
                        4int
                    } else {
                        3int
                    }),
                    c0 == self.chan_of(color, 0),
                    c1 == self.chan_of(color, 1),
                    c2 == self.chan_of(color, 2),
                    forall|i: int|
                        0 <= i < buf.len() && !self.box_covers(x0 as int, y0 as int, x1 as int, py as int, nb, i)
                            && !self.box_covers(x0 as int, py as int, px_ as int, py + 1, nb, i)
                            ==> buf[i] == old(buf)[i],
                    forall|p: (int, int, int)|
                        (x0 <= p.0 < x1 && y0 <= p.1 < py && 0 <= p.2 < nb) || (x0 <= p.0 < px_
                            && p.1 == py && 0 <= p.2 < nb) ==> buf[self.px(p.0, p.1) + p.2]
                            == self.pixel_byte(old(buf)[self.px(p.0, p.1) + p.2], color, alpha, p.2),
                decreases x1 - px_,
            {
                proof {
                    self.lemma_px_in_bounds(px_ as int, py as int);
                    assert(0 <= py * self.stride_bytes && 0 <= px_ * self.bpp) by (nonlinear_arith)
                        requires
                            px_ >= 0 && py >= 0 && self.stride_bytes >= 0 && self.bpp >= 0,
                    ;
                }
                let idx = py * self.stride_bytes + px_ * self.bpp;

                proof {
                    let gidx = self.px(px_ as int, py as int);
                    // none of this pixel's bytes has been touched yet
                    assert forall|ch: int| 0 <= ch < self.bpp implies !(#[trigger] self.box_covers(
                        x0 as int,
                        y0 as int,
                        x1 as int,
                        py as int,
                        nb,
                        gidx + ch,
                    )) && !self.box_covers(x0 as int, py as int, px_ as int, py + 1, nb, gidx + ch) by {
                        if self.box_covers(x0 as int, y0 as int, x1 as int, py as int, nb, gidx + ch) {
                            let p = choose|p: (int, int, int)|
                                x0 <= p.0 < x1 && y0 <= p.1 < py && 0 <= p.2 < nb && gidx + ch
                                    == self.px(p.0, p.1) + p.2;
                            self.lemma_px_unique(px_ as int, py as int, ch, p.0, p.1, p.2);
                        }
                        if self.box_covers(x0 as int, py as int, px_ as int, py + 1, nb, gidx + ch) {
                            let p = choose|p: (int, int, int)|
                                x0 <= p.0 < px_ && py <= p.1 < py + 1 && 0 <= p.2 < nb && gidx + ch
                                    == self.px(p.0, p.1) + p.2;
                            self.lemma_px_unique(px_ as int, py as int, ch, p.0, p.1, p.2);
                        }
                    }
                    assert(!self.box_covers(x0 as int, y0 as int, x1 as int, py as int, nb, gidx + 0)
                        && !self.box_covers(x0 as int, py as int, px_ as int, py + 1, nb, gidx + 0));
                    assert(!self.box_covers(x0 as int, y0 as int, x1 as int, py as int, nb, gidx + 1)
                        && !self.box_covers(x0 as int, py as int, px_ as int, py + 1, nb, gidx + 1));
                    assert(!self.box_covers(x0 as int, y0 as int, x1 as int, py as int, nb, gidx + 2)
                        && !self.box_covers(x0 as int, py as int, px_ as int, py + 1, nb, gidx + 2));
                    if self.bpp == 4 {
                        assert(!self.box_covers(x0 as int, y0 as int, x1 as int, py as int, nb, gidx + 3)
                            && !self.box_covers(x0 as int, py as int, px_ as int, py + 1, nb, gidx + 3));
                    }
                    assert(buf@[gidx + 0] == old(buf)[gidx + 0]);
                    assert(buf@[gidx + 1] == old(buf)[gidx + 1]);
                    assert(buf@[gidx + 2] == old(buf)[gidx + 2]);
                    if self.bpp == 4 {
                        assert(buf@[gidx + 3] == old(buf)[gidx + 3]);
                    }
                }
                let ghost pre = buf@;
                let ghost gidx = self.px(px_ as int, py as int);

                if alpha == 255 {
                    buf.set(idx, c0);
                    buf.set(idx + 1, c1);
                    buf.set(idx + 2, c2);
                    if self.bpp == 4 {
                        buf.set(idx + 3, 0);
                    }
                } else {
                    let d0 = buf[idx];
                    let d1 = buf[idx + 1];
                    let d2 = buf[idx + 2];
                    buf.set(idx, blend_byte(c0, d0, alpha));
                    buf.set(idx + 1, blend_byte(c1, d1, alpha));
                    buf.set(idx + 2, blend_byte(c2, d2, alpha));
                }

                proof {
                    assert(buf@[gidx + 0] == self.pixel_byte(old(buf)[gidx + 0], color, alpha, 0));
                    assert(buf@[gidx + 1] == self.pixel_byte(old(buf)[gidx + 1], color, alpha, 1));
                    assert(buf@[gidx + 2] == self.pixel_byte(old(buf)[gidx + 2], color, alpha, 2));
                    if nb == 4 {
                        assert(buf@[gidx + 3] == self.pixel_byte(
                            old(buf)[gidx + 3],
                            color,
                            alpha,
                            3,
                        ));
                    }
                    // the written bytes are covered by the grown row
                    assert forall|i: int|
                        0 <= i < buf.len() && !self.box_covers(x0 as int, y0 as int, x1 as int, py as int, nb, i)
                            && !self.box_covers(x0 as int, py as int, px_ + 1, py + 1, nb, i)
                            implies buf[i] == old(buf)[i] by {
                        assert forall|ch: int| 0 <= ch < nb implies #[trigger] self.box_covers(
                            x0 as int,
                            py as int,
                            px_ + 1,
                            py + 1,
                            nb,
                            gidx + ch,
                        ) by {
                            let p = (px_ as int, py as int, ch);
                            assert(x0 <= p.0 < px_ + 1 && py <= p.1 < py + 1 && 0 <= p.2 < nb && gidx
                                + ch == self.px(p.0, p.1) + p.2);
                        }
                        assert(self.box_covers(x0 as int, py as int, px_ + 1, py + 1, nb, gidx + 0));
                        assert(self.box_covers(x0 as int, py as int, px_ + 1, py + 1, nb, gidx + 1));
                        assert(self.box_covers(x0 as int, py as int, px_ + 1, py + 1, nb, gidx + 2));
                        assert(i != gidx + 0 && i != gidx + 1 && i != gidx + 2);
                        if nb == 4 {
                            assert(self.box_covers(
                                x0 as int,
                                py as int,
                                px_ + 1,
                                py + 1,
                                nb,
                                gidx + 3,
                            ));
                            assert(i != gidx + 3);
                        }
                        assert(buf[i] == pre[i]);
                    }
                    assert forall|p: (int, int, int)|
                        (x0 <= p.0 < x1 && y0 <= p.1 < py && 0 <= p.2 < nb) || (x0 <= p.0 < px_ + 1
                            && p.1 == py && 0 <= p.2 < nb) implies buf[self.px(p.0, p.1) + p.2]
                            == self.pixel_byte(old(buf)[self.px(p.0, p.1) + p.2], color, alpha, p.2) by {
                        if p.0 == px_ && p.1 == py {
                        } else {
                            self.lemma_px_in_bounds(p.0, p.1);
                            self.lemma_px_other_pixel(p, px_ as int, py as int, 0);
                            self.lemma_px_other_pixel(p, px_ as int, py as int, 1);
                            self.lemma_px_other_pixel(p, px_ as int, py as int, 2);
                            if self.bpp == 4 {
                                self.lemma_px_other_pixel(p, px_ as int, py as int, 3);
                            }
                            assert(gidx == idx as int);
                            assert(self.px(p.0, p.1) + p.2 != gidx + 0);
                            assert(self.px(p.0, p.1) + p.2 != gidx + 1);
                            assert(self.px(p.0, p.1) + p.2 != gidx + 2);
                            if self.bpp == 4 {
                                assert(self.px(p.0, p.1) + p.2 != gidx + 3);
                            }
                            assert(buf[self.px(p.0, p.1) + p.2] == pre[self.px(p.0, p.1) + p.2]);
                        }
                    }
                }
                px_ = px_ + 1;
            }
            py = py + 1;
        }
    }

    /// Fill the whole screen's buffer with one opaque color: every pixel's
    /// channel bytes take the color, and a four-byte depth gets its fourth
    /// byte cleared.
    pub fn fill(&self, buf: &mut Vec<u8>, color: Rgb)
        requires
            self.wf(),
            old(buf).len() == self.size,
        ensures
            final(buf).len() == old(buf).len(),
            forall|p: (int, int, int)|
                0 <= p.0 < self.width && 0 <= p.1 < self.height && 0 <= p.2 < self.bpp
                    ==> final(buf)[self.px(p.0, p.1) + p.2] == self.pixel_byte(
                    old(buf)[self.px(p.0, p.1) + p.2],
                    color,
                    255,
                    p.2,
                ),
            forall|i: int|
                0 <= i < old(buf).len() && !self.box_covers(
                    0,
                    0,
                    self.width as int,
                    self.height as int,
                    (if self.bpp == 4 {
                        4int
                    } else {
                        3int
                    }),
                    i,
                ) ==> final(buf)[i] == old(buf)[i],
    {
        let w = self.width as u32;
        let h = self.height as u32;
        self.fill_rect(buf, 0, 0, w, h, color, 255);
    }

    /// A done pixel's byte is untouched by a write to a different pixel.
    proof fn lemma_px_other_pixel(self, p: (int, int, int), x2: int, y2: int, ch: int)
        requires
            self.wf(),
            0 <= p.0 < self.width,
            0 <= p.1 < self.height,
            0 <= p.2 < self.bpp,
            0 <= x2 < self.width,
            0 <= y2 < self.height,
            0 <= ch < self.bpp,
            !(p.0 == x2 && p.1 == y2),
        ensures
            self.px(p.0, p.1) + p.2 != self.px(x2, y2) + ch,
    {
        if self.px(p.0, p.1) + p.2 == self.px(x2, y2) + ch {
            self.lemma_px_unique(p.0, p.1, p.2, x2, y2, ch);
        }
    }
}

/// One rectangle of the boot banner, in pixels.
#[derive(Clone, Copy, Debug, PartialEq, Eq, Structural)]
pub struct BannerRect {
    pub x: u32,
    pub y: u32,
    pub w: u32,
    pub h: u32,
    pub color: Rgb,
}

/// The boot banner's layout for a screen of the given size: the
/// background, a top bar, a centered card, and a light strip inside the
/// card, in painting order.
pub fn boot_banner_layout(width: u32, height: u32) -> (r: Vec<BannerRect>)
    ensures
        r.len() == 4,
        r[0] == (BannerRect {
            x: 0,
            y: 0,
            w: width,
            h: height,
            color: Rgb { red: 0x12, green: 0x1a, blue: 0x26 },
        }),
        r[1] == (BannerRect {
            x: 0,
            y: 0,
            w: width,
            h: if height / 8 > 36 {
                height / 8
            } else {
                36
            },
            color: Rgb { red: 0x26, green: 0x42, blue: 0x58 },
        }),
        ({
            let card_w: u32 = if width / 3 > 120 {
                width / 3
            } else {
                120
            };
            let card_h: u32 = if height / 4 > 80 {
                height / 4
            } else {
                80
            };
            let card_x: u32 = (if width > card_w {
                (width - card_w) as u32
            } else {
                0
            }) / 2;
            let card_y: u32 = (if height > card_h {
                (height - card_h) as u32
            } else {
                0
            }) / 2;
            let strip_h: u32 = if card_h / 6 > 6 {
                card_h / 6
            } else {
                6
            };
            &&& r[2] == (BannerRect {
                x: card_x,
                y: card_y,
                w: card_w,
                h: card_h,
                color: Rgb { red: 0x39, green: 0x74, blue: 0x9a },
            })
            &&& r[3] == (BannerRect {
                x: (card_x + 8) as u32,
                y: (card_y + 8) as u32,
                w: if card_w > 16 {
                    (card_w - 16) as u32
                } else {
                    0
                },
                h: strip_h,
                color: Rgb { red: 0xa7, green: 0xd1, blue: 0xe9 },
            })
        }),
{
    let mut r: Vec<BannerRect> = Vec::new();
    r.push(
        BannerRect {
            x: 0,
            y: 0,
            w: width,
            h: height,
            color: Rgb { red: 0x12, green: 0x1a, blue: 0x26 },
        },
    );

    let top_h = if height / 8 > 36 {
        height / 8
    } else {
        36
    };
    r.push(
        BannerRect { x: 0, y: 0, w: width, h: top_h, color: Rgb { red: 0x26, green: 0x42, blue: 0x58 } },
    );

    let card_w = if width / 3 > 120 {
        width / 3
    } else {
        120
    };
    let card_h = if height / 4 > 80 {
        height / 4
    } else {
        80
    };
    let card_x = (if width > card_w {
        width - card_w
    } else {
        0
    }) / 2;
    let card_y = (if height > card_h {
        height - card_h
    } else {
        0
    }) / 2;
    r.push(
        BannerRect {
            x: card_x,
            y: card_y,
            w: card_w,
            h: card_h,
            color: Rgb { red: 0x39, green: 0x74, blue: 0x9a },
        },
    );

    let strip_h = if card_h / 6 > 6 {
        card_h / 6
    } else {
        6
    };
    let strip_w = if card_w > 16 {
        card_w - 16
    } else {
        0
    };
    r.push(
        BannerRect {
            x: card_x + 8,
            y: card_y + 8,
            w: strip_w,
            h: strip_h,
            color: Rgb { red: 0xa7, green: 0xd1, blue: 0xe9 },
        },
    );

    r
}

/// Mark the framebuffer's 2 MiB blocks write-combining: every block the
/// buffer touches gets the memory-type selector added to its mapping, and
/// no other mapping moves.
pub fn mark_framebuffer_write_combine(pml4: &mut PML4, info: FramebufferInfo)
    requires
        old(pml4).wf(),
        info.addr + info.size <= u64::MAX,
        (info.addr + (if info.size > 0 {
            info.size - 1int
        } else {
            0int
        })) / (crate::paging::HUGE_2MIB as int) < MAX_PAGE_BLOCK,
        forall|b: int|
            info.addr as int / (crate::paging::HUGE_2MIB as int) <= b <= (info.addr + (if info.size > 0 {
                info.size - 1int
            } else {
                0int
            })) / (crate::paging::HUGE_2MIB as int) ==> (old(pml4)@[b] & PAGE_ADDR_MASK) / crate::paging::HUGE_2MIB
                < MAX_PAGE_BLOCK,
    ensures
        final(pml4).wf(),
        ({
            let start = info.addr as int / (crate::paging::HUGE_2MIB as int);
            let end = (info.addr + (if info.size > 0 {
                info.size - 1int
            } else {
                0int
            })) / (crate::paging::HUGE_2MIB as int);
            &&& forall|b: int|
                start <= b <= end ==> final(pml4)@[b] == crate::paging::huge_entry(
                    (old(pml4)@[b] & PAGE_ADDR_MASK) / crate::paging::HUGE_2MIB,
                    (old(pml4)@[b] & crate::paging::PAGE_FLAGS_MASK) | WRITE_COMBINE_BIT,
                )
            &&& forall|b: int|
                0 <= b < MAX_PAGE_BLOCK && !(start <= b <= end) ==> final(pml4)@[b] == old(
                    pml4,
                )@[b]
        }),
{
    let last_byte: u64 = if info.size > 0 {
        info.size - 1
    } else {
        0
    };
    let end_addr = info.addr + last_byte;
    let start_block = info.addr / crate::paging::HUGE_2MIB;
    let end_block = end_addr / crate::paging::HUGE_2MIB;
    proof {
        assert(start_block <= end_block) by (nonlinear_arith)
            requires
                info.addr <= end_addr,
                start_block == info.addr as int / (crate::paging::HUGE_2MIB as int),
                end_block == end_addr as int / (crate::paging::HUGE_2MIB as int),
        ;
    }

    let mut block = start_block;
    while block <= end_block
        invariant
            pml4.wf(),
            start_block <= block <= end_block + 1,
            end_block < MAX_PAGE_BLOCK,
            forall|b: int|
                start_block <= b <= end_block ==> (old(pml4)@[b] & PAGE_ADDR_MASK)
                    / crate::paging::HUGE_2MIB < MAX_PAGE_BLOCK,
            forall|b: int|
                start_block <= b < block ==> pml4@[b] == crate::paging::huge_entry(
                    (old(pml4)@[b] & PAGE_ADDR_MASK) / crate::paging::HUGE_2MIB,
                    (old(pml4)@[b] & crate::paging::PAGE_FLAGS_MASK) | WRITE_COMBINE_BIT,
                ),
            forall|b: int|
                0 <= b < MAX_PAGE_BLOCK && !(start_block <= b < block) ==> pml4@[b] == old(
                    pml4,
                )@[b],
            old(pml4)@.len() == MAX_PAGE_BLOCK,
        decreases end_block + 1 - block,
    {
        pml4.add_flags(block, WRITE_COMBINE_BIT);
        block = block + 1;
    }
}

} // verus!
