//! Pixels: from the bytes of a decoded frame to packed colours, and how the rows of a frame lie in
//! its bytes.
use vstd::prelude::*;

verus! {

// ---------------------------------------------------------------------------------------------
// Colours
// ---------------------------------------------------------------------------------------------

/// A colour as one number: red, green and blue, each of one byte, from the high bits to the low.
pub open spec fn packed(r: int, g: int, b: int) -> int {
    r * 65536 + g * 256 + b
}

/// A colour as one number.
pub fn pack(r: u32, g: u32, b: u32) -> (p: u32)
    requires
        r <= 255,
        g <= 255,
        b <= 255,
    ensures
        p == packed(r as int, g as int, b as int),
{
    assert((r << 16) | (g << 8) | b == r * 65536 + g * 256 + b) by (bit_vector)
        requires
            r <= 255,
            g <= 255,
            b <= 255,
    ;
    (r << 16) | (g << 8) | b
}

/// The three parts of a colour can be told from the number.
pub proof fn law_colours_are_distinct(r: int, g: int, b: int)
    requires
        0 <= r <= 255,
        0 <= g <= 255,
        0 <= b <= 255,
    ensures
        packed(r, g, b) / 65536 == r,
        (packed(r, g, b) / 256) % 256 == g,
        packed(r, g, b) % 256 == b,
{
}

/// The nearest number from 0 to 255.
pub open spec fn byte_of(n: int) -> int {
    if n < 0 {
        0
    } else if n > 255 {
        255
    } else {
        n
    }
}

/// The colour with the given brightness and colour differences, in the fixed-point form of the
/// conversion for standard definition video.
pub open spec fn colour(y: int, u: int, v: int) -> int {
    let l = y - 16;
    let d = u - 128;
    let e = v - 128;
    packed(
        byte_of((298 * l + 409 * e + 128) / 256),
        byte_of((298 * l - 100 * d - 208 * e + 128) / 256),
        byte_of((298 * l + 516 * d + 128) / 256),
    )
}

fn scaled_byte(n: i32) -> (r: u32)
    ensures
        r == byte_of(n as int / 256),
{
    let q: i32 = n >> 8;
    assert(256 * q <= n && n < 256 * q + 256) by (bit_vector)
        requires
            q == n >> 8i32,
    ;
    assert(q == n as int / 256);
    if q < 0 {
        0
    } else if q > 255 {
        255
    } else {
        q as u32
    }
}

/// The colour with the given brightness and colour differences.
pub fn colour_of(y: u8, u: u8, v: u8) -> (p: u32)
    ensures
        p == colour(y as int, u as int, v as int),
{
    let l: i32 = y as i32 - 16;
    let d: i32 = u as i32 - 128;
    let e: i32 = v as i32 - 128;
    pack(
        scaled_byte(298 * l + 409 * e + 128),
        scaled_byte(298 * l - 100 * d - 208 * e + 128),
        scaled_byte(298 * l + 516 * d + 128),
    )
}

/// A pixel without colour differences is grey, black below the brightness 16 and white above 235.
pub proof fn law_no_colour_is_grey(y: int)
    requires
        0 <= y <= 255,
    ensures
        colour(y, 128, 128) == packed(
            byte_of((298 * (y - 16) + 128) / 256),
            byte_of((298 * (y - 16) + 128) / 256),
            byte_of((298 * (y - 16) + 128) / 256),
        ),
        y <= 16 ==> colour(y, 128, 128) == packed(0, 0, 0),
        y >= 235 ==> colour(y, 128, 128) == packed(255, 255, 255),
{
}

// ---------------------------------------------------------------------------------------------
// Whole frames of four bytes a pixel
// ---------------------------------------------------------------------------------------------

/// The colour of the pixel whose four bytes begin at `i`: blue, green, red, and one that does not
/// count.
pub open spec fn bgra_at(bytes: Seq<u8>, i: int) -> int {
    packed(bytes[i + 2] as int, bytes[i + 1] as int, bytes[i] as int)
}

/// The pixels of a frame that lies in its bytes without gaps. Bytes behind the last whole pixel do
/// not count.
pub fn bgra_frame(bytes: &[u8]) -> (data: Vec<u32>)
    ensures
        data@.len() == bytes@.len() / 4,
        forall|k: int| 0 <= k < data@.len() ==> #[trigger] data@[k] == bgra_at(bytes@, 4 * k),
{
    let n: usize = bytes.len();
    let count: usize = n / 4;
    let mut data: Vec<u32> = Vec::with_capacity(count);
    let mut k: usize = 0;
    while k < count
        invariant
            n == bytes@.len(),
            count == n / 4,
            k <= count,
            data@.len() == k,
            forall|j: int| 0 <= j < k ==> #[trigger] data@[j] == bgra_at(bytes@, 4 * j),
        decreases count - k,
    {
        let o: usize = 4 * k;
        data.push(pack(bytes[o + 2] as u32, bytes[o + 1] as u32, bytes[o] as u32));
        k = k + 1;
    }
    data
}

/// How many bytes a frame of four bytes a pixel takes.
pub fn bgra_frame_size(width: u32, height: u32) -> (r: usize)
    requires
        width * height * 4 <= usize::MAX,
    ensures
        r == width * height * 4,
{
    let w: usize = width as usize;
    let h: usize = height as usize;
    assert(w * h <= w * h * 4) by (nonlinear_arith);
    w * h * 4
}

// ---------------------------------------------------------------------------------------------
// Frames with a stride
// ---------------------------------------------------------------------------------------------

/// The pixel of a frame in a row and a column.
pub open spec fn pixel_at(pixels: Seq<u32>, width: int, row: int, col: int) -> u32 {
    pixels[row * width + col]
}

/// The row of the bytes that a row of the picture is taken from: where the stride is negative the
/// rows stand upside down.
pub open spec fn source_row(row: int, height: int, flipped: bool) -> int {
    if flipped {
        height - 1 - row
    } else {
        row
    }
}

proof fn lemma_cell(width: int, height: int, row: int, col: int)
    by (nonlinear_arith)
    requires
        0 <= row < height,
        0 <= col < width,
    ensures
        0 <= row * width + col < width * height,
{
}

proof fn lemma_cells_differ(width: int, r1: int, c1: int, r2: int, c2: int)
    by (nonlinear_arith)
    requires
        0 <= c1 < width,
        0 <= c2 < width,
        r1 != r2 || c1 != c2,
    ensures
        r1 * width + c1 != r2 * width + c2,
{
}

proof fn lemma_set_cell(prior: Seq<u32>, width: int, height: int, row: int, col: int, p: u32)
    requires
        prior.len() == width * height,
        0 <= row < height,
        0 <= col < width,
    ensures
        0 <= row * width,
        row * width + col < prior.len(),
        forall|r: int, c: int|
            0 <= r < height && 0 <= c < width ==> #[trigger] pixel_at(
                prior.update(row * width + col, p),
                width,
                r,
                c,
            ) == (if r == row && c == col {
                p
            } else {
                pixel_at(prior, width, r, c)
            }),
{
    lemma_cell(width, height, row, 0);
    lemma_cell(width, height, row, col);
    assert forall|r: int, c: int| 0 <= r < height && 0 <= c < width implies #[trigger] pixel_at(
        prior.update(row * width + col, p),
        width,
        r,
        c,
    ) == (if r == row && c == col {
        p
    } else {
        pixel_at(prior, width, r, c)
    }) by {
        lemma_cell(width, height, r, c);
        if r != row || c != col {
            lemma_cells_differ(width, r, c, row, col);
        }
    }
}

/// The buffer for the pixels of a frame: the one of the last frame where it has the right size, else
/// a new one, all black.
pub fn frame_buffer(last: Option<Vec<u32>>, width: u32, height: u32) -> (r: Vec<u32>)
    requires
        width * height <= u32::MAX,
    ensures
        r@.len() == width * height,
        r@ == (match last {
            Some(v) if v@.len() == width * height => v@,
            _ => Seq::new((width * height) as nat, |i: int| 0u32),
        }),
{
    let size: usize = (width * height) as usize;
    match last {
        Some(v) => {
            if v.len() == size {
                return v;
            }
        },
        None => {},
    }
    let r: Vec<u32> = vec![0u32; size];
    assert(r@ =~= Seq::new((width * height) as nat, |i: int| 0u32));
    r
}

/// The row `row` of the bytes holds a whole row of pixels.
pub open spec fn row_is_whole(raw: Seq<u8>, row: int, width: int, stride: int) -> bool {
    row * stride + width * 4 <= raw.len()
}

/// Takes the pixels of a frame of four bytes a pixel over into `pixels`. A row that the bytes do not
/// hold whole stays as it is.
pub fn convert_bgra(
    pixels: &mut Vec<u32>,
    raw: &[u8],
    width: u32,
    height: u32,
    stride: usize,
    flipped: bool,
)
    requires
        old(pixels)@.len() == width * height,
        (height - 1) * stride + width * 4 <= usize::MAX,
    ensures
        final(pixels)@.len() == width * height,
        forall|r: int, c: int|
            0 <= r < height && 0 <= c < width ==> #[trigger] pixel_at(
                final(pixels)@,
                width as int,
                r,
                c,
            ) == (if row_is_whole(
                raw@,
                source_row(r, height as int, flipped),
                width as int,
                stride as int,
            ) {
                bgra_at(
                    raw@,
                    source_row(r, height as int, flipped) * stride + c * 4,
                )
            } else {
                pixel_at(old(pixels)@, width as int, r, c) as int
            }),
{
    let w: usize = width as usize;
    let h: usize = height as usize;
    let len: usize = raw.len();
    let total: usize = pixels.len();
    let ghost before = pixels@;
    let mut y: usize = 0;
    while y < h
        invariant
            w == width,
            h == height,
            len == raw@.len(),
            y <= h,
            total == w * h,
            pixels@.len() == total,
            before == old(pixels)@,
            (h - 1) * stride + w * 4 <= usize::MAX,
            forall|r: int, c: int|
                0 <= r < h && 0 <= c < w ==> #[trigger] pixel_at(pixels@, w as int, r, c) == (if r
                    < y && row_is_whole(
                    raw@,
                    source_row(r, h as int, flipped),
                    w as int,
                    stride as int,
                ) {
                    bgra_at(raw@, source_row(r, h as int, flipped) * stride + c * 4)
                } else {
                    pixel_at(before, w as int, r, c) as int
                }),
        decreases h - y,
    {
        let src: usize = if flipped {
            h - 1 - y
        } else {
            y
        };
        assert(src * stride <= (h - 1) * stride) by (nonlinear_arith)
            requires
                src <= h - 1,
        ;
        let row: usize = src * stride;
        assert(w * 4 <= usize::MAX);
        if row + w * 4 <= len {
            let mut x: usize = 0;
            while x < w
                invariant
                    w == width,
                    h == height,
                    len == raw@.len(),
                    x <= w,
                    y < h,
                    src == source_row(y as int, h as int, flipped),
                    row == src * stride,
                    row + w * 4 <= len,
                    total == w * h,
                    pixels@.len() == total,
                    forall|r: int, c: int|
                        0 <= r < h && 0 <= c < w ==> #[trigger] pixel_at(pixels@, w as int, r, c)
                            == (if (r < y || (r == y && c < x)) && row_is_whole(
                            raw@,
                            source_row(r, h as int, flipped),
                            w as int,
                            stride as int,
                        ) {
                            bgra_at(raw@, source_row(r, h as int, flipped) * stride + c * 4)
                        } else {
                            pixel_at(before, w as int, r, c) as int
                        }),
                decreases w - x,
            {
                let o: usize = row + x * 4;
                let p: u32 = pack(raw[o + 2] as u32, raw[o + 1] as u32, raw[o] as u32);
                proof {
                    lemma_set_cell(pixels@, w as int, h as int, y as int, x as int, p);
                }
                pixels.set(y * w + x, p);
                x = x + 1;
            }
        }
        y = y + 1;
    }
}

/// The brightness at `i` in the plane of the first `size` bytes, that of black where the plane ends
/// before.
pub open spec fn luma(raw: Seq<u8>, size: int, i: int) -> int {
    if i < size && i < raw.len() {
        raw[i] as int
    } else {
        16
    }
}

/// The colour difference at `i` in the plane behind the first `size` bytes, none where the plane
/// ends before.
pub open spec fn chroma(raw: Seq<u8>, size: int, i: int) -> int {
    if size + i < raw.len() {
        raw[size + i] as int
    } else {
        128
    }
}

/// The colour of the pixel in a row and a column of a frame in the format NV12: a plane of
/// brightness, then one with the two colour differences of every square of four pixels.
pub open spec fn nv12_at(raw: Seq<u8>, height: int, stride: int, row: int, col: int) -> int {
    let size = stride * height;
    let pair = (row / 2) * stride + (col - col % 2);
    colour(
        luma(raw, size, row * stride + col),
        chroma(raw, size, pair),
        chroma(raw, size, pair + 1),
    )
}

/// The offsets of a frame in the format NV12 are ones of a machine integer.
pub open spec fn nv12_fits(width: int, height: int, stride: int) -> bool {
    &&& stride * height <= usize::MAX
    &&& (height - 1) * stride + width - 1 <= usize::MAX
    &&& ((height - 1) / 2) * stride + (width - 1) - (width - 1) % 2 + 1 <= usize::MAX
}

fn luma_of(raw: &[u8], size: usize, i: usize) -> (r: u8)
    ensures
        r == luma(raw@, size as int, i as int),
{
    if i < size && i < raw.len() {
        raw[i]
    } else {
        16
    }
}

fn chroma_of(raw: &[u8], size: usize, i: usize) -> (r: u8)
    ensures
        r == chroma(raw@, size as int, i as int),
{
    let len: usize = raw.len();
    if size < len && i < len - size {
        raw[size + i]
    } else {
        128
    }
}

fn nv12_pixel(raw: &[u8], size: usize, luma_row: usize, pair_row: usize, x: usize) -> (p: u32)
    requires
        luma_row + x <= usize::MAX,
        pair_row + (x - x % 2) + 1 <= usize::MAX,
    ensures
        p == colour(
            luma(raw@, size as int, luma_row + x),
            chroma(raw@, size as int, pair_row + (x - x % 2)),
            chroma(raw@, size as int, pair_row + (x - x % 2) + 1),
        ),
{
    assert(x & !1usize == x - x % 2) by (bit_vector);
    let even: usize = x & !1usize;
    let uvi: usize = pair_row + even;
    colour_of(
        luma_of(raw, size, luma_row + x),
        chroma_of(raw, size, uvi),
        chroma_of(raw, size, uvi + 1),
    )
}

/// Takes the pixels of a frame in the format NV12 over into `pixels`.
pub fn convert_nv12(
    pixels: &mut Vec<u32>,
    raw: &[u8],
    width: u32,
    height: u32,
    stride: usize,
    flipped: bool,
)
    requires
        old(pixels)@.len() == width * height,
        width > 0 && height > 0 ==> nv12_fits(width as int, height as int, stride as int),
    ensures
        final(pixels)@.len() == width * height,
        forall|r: int, c: int|
            0 <= r < height && 0 <= c < width ==> #[trigger] pixel_at(
                final(pixels)@,
                width as int,
                r,
                c,
            ) == nv12_at(
                raw@,
                height as int,
                stride as int,
                source_row(r, height as int, flipped),
                c,
            ),
{
    let w: usize = width as usize;
    let h: usize = height as usize;
    if w == 0 || h == 0 {
        return ;
    }
    let size: usize = stride * h;
    let total: usize = pixels.len();
    let mut y: usize = 0;
    while y < h
        invariant
            w == width,
            h == height,
            w > 0,
            y <= h,
            size == stride * h,
            total == w * h,
            pixels@.len() == total,
            nv12_fits(w as int, h as int, stride as int),
            forall|r: int, c: int|
                0 <= r < y && 0 <= c < w ==> #[trigger] pixel_at(pixels@, w as int, r, c)
                    == nv12_at(
                    raw@,
                    h as int,
                    stride as int,
                    source_row(r, h as int, flipped),
                    c,
                ),
        decreases h - y,
    {
        let src: usize = if flipped {
            h - 1 - y
        } else {
            y
        };
        assert(src * stride <= (h - 1) * stride && (src / 2) * stride <= ((h - 1) / 2) * stride
            && src * stride >= 0 && (src / 2) * stride >= 0) by (nonlinear_arith)
            requires
                0 <= src <= h - 1,
                stride >= 0,
        ;
        let luma_row: usize = src * stride;
        let pair_row: usize = (src / 2) * stride;
        let mut x: usize = 0;
        while x < w
            invariant
                w == width,
                h == height,
                x <= w,
                y < h,
                src == source_row(y as int, h as int, flipped),
                size == stride * h,
                luma_row == src * stride,
                pair_row == (src / 2) * stride,
                total == w * h,
                pixels@.len() == total,
                luma_row + w - 1 <= usize::MAX,
                pair_row + (w - 1) - (w - 1) % 2 + 1 <= usize::MAX,
                forall|r: int, c: int|
                    0 <= r < h && 0 <= c < w && (r < y || (r == y && c < x)) ==> #[trigger]
                    pixel_at(pixels@, w as int, r, c) == nv12_at(
                        raw@,
                        h as int,
                        stride as int,
                        source_row(r, h as int, flipped),
                        c,
                    ),
            decreases w - x,
        {
            let p: u32 = nv12_pixel(raw, size, luma_row, pair_row, x);
            proof {
                assert(p == nv12_at(raw@, h as int, stride as int, src as int, x as int));
                lemma_set_cell(pixels@, w as int, h as int, y as int, x as int, p);
            }
            pixels.set(y * w + x, p);
            x = x + 1;
        }
        y = y + 1;
    }
}

/// Whether the offsets of a frame are ones of a machine integer.
pub fn frame_fits(width: u32, height: u32, stride: usize, is_nv12: bool) -> (r: bool)
    requires
        width > 0,
        height > 0,
    ensures
        r == (if is_nv12 {
            nv12_fits(width as int, height as int, stride as int)
        } else {
            (height - 1) * stride + width * 4 <= usize::MAX
        }),
{
    let w: u128 = width as u128;
    let h: u128 = height as u128;
    let s: u128 = stride as u128;
    let max: u128 = usize::MAX as u128;
    assert(0 <= s * h <= 0xffff_ffff_ffff_ffff * 0xffff_ffff && 0 <= (h - 1) * s
        <= 0xffff_ffff_ffff_ffff * 0xffff_ffff && 0 <= ((h - 1) / 2) * s <= 0xffff_ffff_ffff_ffff
        * 0xffff_ffff) by (nonlinear_arith)
        requires
            0 < h <= 0xffff_ffff,
            0 <= s <= 0xffff_ffff_ffff_ffff,
    ;
    if is_nv12 {
        s * h <= max && (h - 1) * s + w - 1 <= max && ((h - 1) / 2) * s + (w - 1) - (w - 1) % 2 + 1
            <= max
    } else {
        (h - 1) * s + w * 4 <= max
    }
}

// ---------------------------------------------------------------------------------------------
// Strides
// ---------------------------------------------------------------------------------------------

/// The width and the height that a frame size holds: the width in the high half of the number, the
/// height in the low half.
pub open spec fn dimensions(size: u64) -> (int, int) {
    (size as int / 0x1_0000_0000, size as int % 0x1_0000_0000)
}

/// The width and the height that a frame size holds, if neither is zero.
pub fn frame_dimensions(size: u64) -> (r: Option<(u32, u32)>)
    ensures
        r is None <==> dimensions(size).0 == 0 || dimensions(size).1 == 0,
        r matches Some((w, h)) ==> (w as int, h as int) == dimensions(size),
{
    assert(size >> 32 == size / 0x1_0000_0000) by (bit_vector);
    assert(size & 0xFFFF_FFFF == size % 0x1_0000_0000) by (bit_vector);
    let width: u32 = (size >> 32) as u32;
    let height: u32 = (size & 0xFFFF_FFFF) as u32;
    if width == 0 || height == 0 {
        None
    } else {
        Some((width, height))
    }
}

/// The signed number that has the bits of `n`.
pub open spec fn signed32(n: u32) -> int {
    if n <= i32::MAX {
        n as int
    } else {
        n - 0x1_0000_0000
    }
}

fn to_signed32(n: u32) -> (r: i32)
    ensures
        r == signed32(n),
{
    assert(n <= 0x7fff_ffffu32 ==> (n as i32) == n) by (bit_vector);
    assert(n > 0x7fff_ffffu32 ==> (n as i32) == n - 0x1_0000_0000) by (bit_vector);
    #[verifier::truncate]
    (n as i32)
}

/// How many bytes a pixel takes in the first plane of a frame.
pub open spec fn plane_bytes(is_nv12: bool) -> int {
    if is_nv12 {
        1
    } else {
        4
    }
}

/// The largest multiple of 16 that is not above `n`.
pub open spec fn down_to_16(n: int) -> int {
    n - n % 16
}

/// The stride of a frame whose format names none: a row of pixels, up to a multiple of 16 bytes.
pub open spec fn assumed_stride(width: u32, is_nv12: bool) -> int {
    down_to_16(signed32(width) * plane_bytes(is_nv12) + 15)
}

/// The stride of a frame: the one that its format names, as `named`, or an assumed one where that
/// is zero. A negative stride says that the rows stand upside down.
pub open spec fn stride_of(named: u32, width: u32, is_nv12: bool) -> int {
    if named == 0 {
        assumed_stride(width, is_nv12)
    } else {
        signed32(named)
    }
}

/// The assumed stride is one of a machine integer.
pub open spec fn assumed_stride_fits(width: u32, is_nv12: bool) -> bool {
    &&& i32::MIN <= signed32(width) * plane_bytes(is_nv12)
    &&& signed32(width) * plane_bytes(is_nv12) + 15 <= i32::MAX
}

/// Whether the assumed stride is one of a machine integer.
pub fn can_assume_stride(width: u32, is_nv12: bool) -> (r: bool)
    ensures
        r == assumed_stride_fits(width, is_nv12),
{
    let w: i64 = to_signed32(width) as i64;
    let bytes: i64 = if is_nv12 {
        w
    } else {
        w * 4
    };
    i32::MIN as i64 <= bytes && bytes + 15 <= i32::MAX as i64
}

/// The stride of a frame.
pub fn media_stride(named: u32, width: u32, is_nv12: bool) -> (r: i32)
    requires
        named == 0 ==> assumed_stride_fits(width, is_nv12),
    ensures
        r == stride_of(named, width, is_nv12),
{
    let stride: i32 = to_signed32(named);
    if stride != 0 {
        return stride;
    }
    let w: i32 = to_signed32(width);
    let n: i32 = if is_nv12 {
        w + 15
    } else {
        w * 4 + 15
    };
    let low: i32 = n & 15;
    let r: i32 = n & !15;
    assert(0 <= low && low < 16 && r + low == n) by (bit_vector)
        requires
            low == n & 15i32,
            r == n & !15i32,
    ;
    let ghost k: i32 = n >> 4i32;
    assert(r == 16 * k) by (bit_vector)
        requires
            r == n & !15i32,
            k == n >> 4i32,
    ;
    assert(r % 16 == 0);
    r
}

/// How many bytes lie between the starts of two rows.
pub fn effective_stride(stride: i32) -> (r: usize)
    requires
        stride > i32::MIN,
    ensures
        r == (if stride < 0 {
            -stride
        } else {
            stride as int
        }),
{
    if stride < 0 {
        (-stride) as usize
    } else {
        stride as usize
    }
}

/// The smallest multiple of `k` that is not below `n`.
pub open spec fn up_to(n: int, k: int) -> int {
    ((n + k - 1) / k) * k
}

/// The stride that the size of a frame's bytes shows: the one that was named, unless the frame is
/// longer than its pixels and the named stride does not divide it. Then it is the row of pixels up
/// to a multiple of 16, or of 32, whichever first divides the frame, or else the height's share of
/// the frame where that is a little more than a row.
pub open spec fn shown_stride(
    named: int,
    width: int,
    height: int,
    is_nv12: bool,
    len: int,
) -> int {
    let row = width * plane_bytes(is_nv12);
    let at_16 = up_to(width, 16) * plane_bytes(is_nv12);
    let at_32 = up_to(width, 32) * plane_bytes(is_nv12);
    if len <= width * height * plane_bytes(is_nv12) || len % named == 0 {
        named
    } else if len % at_16 == 0 {
        at_16
    } else if len % at_32 == 0 {
        at_32
    } else if row <= len / height < row + 256 {
        len / height
    } else {
        named
    }
}

/// The sizes that have to do with the stride of a frame are machine integers, and where the stride
/// matters it is not zero.
pub open spec fn sizes_fit(named: usize, width: u32, height: u32, is_nv12: bool, len: usize) -> bool {
    &&& width * height * plane_bytes(is_nv12) <= usize::MAX
    &&& len > width * height * plane_bytes(is_nv12) ==> named > 0
    &&& (width + 31) * plane_bytes(is_nv12) <= usize::MAX
    &&& width * plane_bytes(is_nv12) + 256 <= usize::MAX
}

/// Whether the sizes that have to do with the stride of a frame are machine integers, and the stride
/// is not zero where it matters.
pub fn can_adjust_stride(
    named: usize,
    width: u32,
    height: u32,
    is_nv12: bool,
    len: usize,
) -> (r: bool)
    ensures
        r == sizes_fit(named, width, height, is_nv12, len),
{
    let w: u128 = width as u128;
    let bytes: u128 = if is_nv12 {
        1
    } else {
        4
    };
    let max: u128 = usize::MAX as u128;
    assert(0 <= width * height <= 0xffff_ffff * 0xffff_ffff) by (nonlinear_arith)
        requires
            0 <= width <= 0xffff_ffff,
            0 <= height <= 0xffff_ffff,
    ;
    let pixels: u128 = w * height as u128;
    assert(pixels * bytes == width * height * plane_bytes(is_nv12));
    let frame: u128 = pixels * bytes;
    frame <= max && (len as u128 <= frame || named > 0) && (w + 31) * bytes <= max && w * bytes + 256
        <= max
}

/// The stride that the size of a frame's bytes shows.
pub fn adjusted_stride(named: usize, width: u32, height: u32, is_nv12: bool, len: usize) -> (r:
    usize)
    requires
        width > 0,
        height > 0,
        sizes_fit(named, width, height, is_nv12, len),
    ensures
        r == shown_stride(named as int, width as int, height as int, is_nv12, len as int),
{
    let w: usize = width as usize;
    let h: usize = height as usize;
    let bpp: usize = if is_nv12 {
        1
    } else {
        4
    };
    assert(w * h <= w * h * bpp) by (nonlinear_arith)
        requires
            bpp >= 1,
            w >= 0,
            h >= 0,
    ;
    if len <= w * h * bpp || len % named == 0 {
        return named;
    }
    let a: usize = w + 15;
    let b: usize = w + 31;
    assert(a & !15usize == a - a % 16) by (bit_vector);
    assert(b & !31usize == b - b % 32) by (bit_vector);
    let at_16: usize = (a & !15usize) * bpp;
    let at_32: usize = (b & !31usize) * bpp;
    assert(at_16 == up_to(w as int, 16) * bpp);
    assert(at_32 == up_to(w as int, 32) * bpp);
    if len % at_16 == 0 {
        at_16
    } else if len % at_32 == 0 {
        at_32
    } else {
        let share: usize = len / h;
        if share >= w * bpp && share < w * bpp + 256 {
            share
        } else {
            named
        }
    }
}

/// How many bytes a frame has that was locked as two-dimensional memory. The number wraps at that of
/// a 32-bit integer.
pub fn locked_size(stride: usize, height: u32) -> (r: u32)
    requires
        stride * height <= usize::MAX,
    ensures
        r == (stride * height) % 0x1_0000_0000,
{
    assert(stride * height >= 0) by (nonlinear_arith);
    let n: u64 = (stride * height as usize) as u64;
    assert((n as u32) == n % 0x1_0000_0000) by (bit_vector);
    #[verifier::truncate]
    (n as u32)
}

/// A picture that is turned upside down twice is the same picture.
pub proof fn law_flipping_twice_changes_nothing(row: int, height: int)
    requires
        0 <= row < height,
    ensures
        source_row(source_row(row, height, true), height, true) == row,
        0 <= source_row(row, height, true) < height,
        source_row(row, height, false) == row,
{
}

/// Where the stride is not the one that was named, a frame that was longer than its pixels is
/// divided by the new stride, or the new stride is its share for a row.
pub proof fn law_adjusted_stride_fits_the_frame(
    named: int,
    width: int,
    height: int,
    is_nv12: bool,
    len: int,
)
    requires
        width > 0,
        height > 0,
        named > 0,
        len >= 0,
    ensures
        ({
            let s = shown_stride(named, width, height, is_nv12, len);
            s != named ==> s >= width * plane_bytes(is_nv12) && (len % s == 0 || s == len / height)
        }),
{
    assert(up_to(width, 16) >= width);
    assert(up_to(width, 32) >= width);
    let bytes = plane_bytes(is_nv12);
    let at_16 = up_to(width, 16);
    let at_32 = up_to(width, 32);
    assert(at_16 * bytes >= width * bytes && at_32 * bytes >= width * bytes) by (nonlinear_arith)
        requires
            at_16 >= width,
            at_32 >= width,
            bytes > 0,
    ;
}

// ---------------------------------------------------------------------------------------------
// What a conversion owes its input
// ---------------------------------------------------------------------------------------------

proof fn lemma_channels(y: int, u: int, v: int)
    ensures
        colour(y, u, v) / 65536 == byte_of((298 * (y - 16) + 409 * (v - 128) + 128) / 256),
        (colour(y, u, v) / 256) % 256 == byte_of(
            (298 * (y - 16) - 100 * (u - 128) - 208 * (v - 128) + 128) / 256,
        ),
        colour(y, u, v) % 256 == byte_of((298 * (y - 16) + 516 * (u - 128) + 128) / 256),
{
    law_colours_are_distinct(
        byte_of((298 * (y - 16) + 409 * (v - 128) + 128) / 256),
        byte_of((298 * (y - 16) - 100 * (u - 128) - 208 * (v - 128) + 128) / 256),
        byte_of((298 * (y - 16) + 516 * (u - 128) + 128) / 256),
    );
}

/// Every channel of a colour is the weighted sum of brightness and colour differences, in 256ths and
/// rounded, as far as a byte reaches: a channel above 0 is not larger than the sum, one below 255 not
/// smaller. The first colour difference does not touch red, the second does not touch blue.
pub proof fn law_channels_are_exact(y: int, u: int, v: int)
    ensures
        ({
            let r = colour(y, u, v) / 65536;
            let g = (colour(y, u, v) / 256) % 256;
            let b = colour(y, u, v) % 256;
            let red = 298 * y + 409 * v - 298 * 16 - 409 * 128 + 128;
            let green = 298 * y - 100 * u - 208 * v - 298 * 16 + 308 * 128 + 128;
            let blue = 298 * y + 516 * u - 298 * 16 - 516 * 128 + 128;
            &&& 0 <= r <= 255 && 0 <= g <= 255 && 0 <= b <= 255
            &&& r > 0 ==> 256 * r <= red
            &&& r < 255 ==> red < 256 * r + 256
            &&& g > 0 ==> 256 * g <= green
            &&& g < 255 ==> green < 256 * g + 256
            &&& b > 0 ==> 256 * b <= blue
            &&& b < 255 ==> blue < 256 * b + 256
        }),
{
    lemma_channels(y, u, v);
}

/// A colour difference pulls its channel one way only: a higher first one never gives less blue, a
/// higher second one never less red, and a higher one of either never more green. Red does not
/// depend on the first, blue not on the second.
pub proof fn law_tints_pull_their_channels(y: int, u: int, v: int, u2: int, v2: int)
    requires
        u <= u2,
        v <= v2,
    ensures
        colour(y, u, v) / 65536 == colour(y, u2, v) / 65536,
        colour(y, u, v) % 256 == colour(y, u, v2) % 256,
        colour(y, u, v) / 65536 <= colour(y, u, v2) / 65536,
        colour(y, u, v) % 256 <= colour(y, u2, v) % 256,
        (colour(y, u2, v2) / 256) % 256 <= (colour(y, u, v) / 256) % 256,
        v2 <= 128 ==> colour(y, u, v) / 65536 <= colour(y, 128, 128) / 65536,
        v >= 128 ==> colour(y, u, v) / 65536 >= colour(y, 128, 128) / 65536,
        u2 <= 128 ==> colour(y, u, v) % 256 <= colour(y, 128, 128) % 256,
        u >= 128 ==> colour(y, u, v) % 256 >= colour(y, 128, 128) % 256,
{
    lemma_channels(y, u, v);
    lemma_channels(y, u2, v);
    lemma_channels(y, u, v2);
    lemma_channels(y, u2, v2);
    lemma_channels(y, 128, 128);
}

/// More brightness never gives less of a channel.
pub proof fn law_brightness_lifts_every_channel(y: int, y2: int, u: int, v: int)
    requires
        y <= y2,
    ensures
        colour(y, u, v) / 65536 <= colour(y2, u, v) / 65536,
        (colour(y, u, v) / 256) % 256 <= (colour(y2, u, v) / 256) % 256,
        colour(y, u, v) % 256 <= colour(y2, u, v) % 256,
{
    lemma_channels(y, u, v);
    lemma_channels(y2, u, v);
}

/// The channels of a pixel of four bytes are its bytes, and the fourth byte does not count.
pub proof fn law_bytes_are_the_channels(bytes: Seq<u8>, other: Seq<u8>, i: int)
    ensures
        bgra_at(bytes, i) % 256 == bytes[i],
        (bgra_at(bytes, i) / 256) % 256 == bytes[i + 1],
        bgra_at(bytes, i) / 65536 == bytes[i + 2],
        bgra_at(bytes, i) == bgra_at(other, i) <==> bytes[i] == other[i] && bytes[i + 1] == other[i
            + 1] && bytes[i + 2] == other[i + 2],
{
}

/// Pixels stand row behind row: the number of a pixel says its row and its column.
pub proof fn law_pixels_lie_row_by_row(pixels: Seq<u32>, width: int, k: int)
    requires
        width > 0,
    ensures
        pixel_at(pixels, width, k / width, k % width) == pixels[k],
{
    assert((k / width) * width + k % width == k) by (nonlinear_arith)
        requires
            width > 0,
    ;
}

/// A picture that stands upside down has its rows in the other order: the first row is taken from
/// the last, and a row further down from as many rows further up.
pub proof fn law_rows_are_turned_over(row: int, below: int, height: int)
    ensures
        source_row(0, height, true) == height - 1,
        source_row(below, height, true) - source_row(row, height, true) == row - below,
        source_row(below, height, false) - source_row(row, height, false) == below - row,
{
}

/// A row is whole exactly where the frame holds every byte of each of its pixels.
pub proof fn law_whole_row_holds_its_pixels(raw: Seq<u8>, row: int, width: int, stride: int)
    requires
        width > 0,
    ensures
        row_is_whole(raw, row, width, stride) <==> (forall|c: int|
            0 <= c < width ==> row * stride + #[trigger] (c * 4) + 3 < raw.len()),
{
    if forall|c: int| 0 <= c < width ==> row * stride + #[trigger] (c * 4) + 3 < raw.len() {
        let c = width - 1;
        assert(row * stride + c * 4 + 3 < raw.len());
    }
}

/// The pixel of a frame of two planes has the brightness of its own byte in the first plane, and the
/// two colour differences of its square of four pixels in the second, which has one row for two.
pub proof fn law_planes_are_read(
    brightness: Seq<u8>,
    tints: Seq<u8>,
    height: int,
    stride: int,
    row: int,
    square: int,
    right: int,
)
    requires
        brightness.len() == stride * height,
        0 <= row < height,
        0 <= right <= 1,
        0 <= square,
        2 * square + 1 < stride,
        (row / 2) * stride + stride <= tints.len(),
    ensures
        nv12_at(brightness + tints, height, stride, row, 2 * square + right) == colour(
            brightness[row * stride + 2 * square + right] as int,
            tints[(row / 2) * stride + 2 * square] as int,
            tints[(row / 2) * stride + 2 * square + 1] as int,
        ),
{
    let col = 2 * square + right;
    assert(0 <= row * stride && row * stride + stride <= stride * height && 0 <= (row / 2)
        * stride) by (nonlinear_arith)
        requires
            0 <= row < height,
            stride >= 0,
    ;
    assert(col - col % 2 == 2 * square);
    assert((brightness + tints)[row * stride + col] == brightness[row * stride + col]);
    let pair = (row / 2) * stride + 2 * square;
    assert((brightness + tints)[brightness.len() + pair] == tints[pair]);
    assert((brightness + tints)[brightness.len() + pair + 1] == tints[pair + 1]);
}

/// A frame that ends before its second plane is grey, and black where it ends before its pixels.
pub proof fn law_missing_planes_are_grey(raw: Seq<u8>, height: int, stride: int, row: int, col: int)
    requires
        0 <= row < height,
        0 <= col < stride,
        raw.len() <= stride * height,
    ensures
        row * stride + col < raw.len() ==> nv12_at(raw, height, stride, row, col) == colour(
            raw[row * stride + col] as int,
            128,
            128,
        ),
        row * stride + col >= raw.len() ==> nv12_at(raw, height, stride, row, col) == 0,
{
    assert(0 <= row * stride && row * stride + stride <= stride * height && 0 <= (row / 2)
        * stride) by (nonlinear_arith)
        requires
            0 <= row < height,
            stride > 0,
    ;
}

/// The offsets of a frame of two planes fit exactly where those of each of its pixels do, and the
/// start of the second plane with them.
pub proof fn law_frame_fits_where_its_pixels_do(
    width: int,
    height: int,
    stride: int,
    row: int,
    col: int,
)
    requires
        0 <= col < width,
        0 <= row < height,
        stride >= 0,
    ensures
        nv12_fits(width, height, stride) ==> stride * height <= usize::MAX && row * stride + col
            <= usize::MAX && (row / 2) * stride + 2 * (col / 2) + 1 <= usize::MAX,
        row == height - 1 && col == width - 1 && stride * height <= usize::MAX && row * stride + col
            <= usize::MAX && (row / 2) * stride + 2 * (col / 2) + 1 <= usize::MAX ==> nv12_fits(
            width,
            height,
            stride,
        ),
{
    assert(row * stride <= (height - 1) * stride && (row / 2) * stride <= ((height - 1) / 2)
        * stride) by (nonlinear_arith)
        requires
            0 <= row <= height - 1,
            stride >= 0,
    ;
}

/// A frame size holds its width and its height, whatever they are.
pub proof fn law_frame_size_holds_both(width: u32, height: u32, size: u64)
    requires
        size == width * 0x1_0000_0000 + height,
    ensures
        dimensions(size) == (width as int, height as int),
{
}

/// Reading a number as a signed one keeps its bits, and the range of a signed one.
pub proof fn law_sign_keeps_the_bits(n: u32)
    ensures
        i32::MIN <= signed32(n) <= i32::MAX,
        signed32(n) == n || signed32(n) + 0x1_0000_0000 == n,
{
}

/// An assumed stride is a multiple of 16 that holds a row of pixels, and the smallest one. A pixel
/// takes one byte in the first of two planes and four where there is one plane.
pub proof fn law_assumed_stride_holds_a_row(width: u32, is_nv12: bool)
    requires
        width <= i32::MAX,
    ensures
        stride_of(0, width, is_nv12) % 16 == 0,
        is_nv12 ==> width <= stride_of(0, width, is_nv12) < width + 16,
        !is_nv12 ==> 4 * width <= stride_of(0, width, is_nv12) < 4 * width + 16,
{
}

/// A stride that the format names is taken, whatever the width: as it stands, or as the number below
/// zero that has its bits.
pub proof fn law_named_stride_is_taken(named: u32, width: u32, is_nv12: bool)
    requires
        named != 0,
    ensures
        stride_of(named, width, is_nv12) == named || stride_of(named, width, is_nv12) == named
            - 0x1_0000_0000,
        stride_of(named, width, is_nv12) < 0 <==> named > i32::MAX,
{
}

/// The next multiple is one, is not below the number, and no multiple is between them.
pub proof fn law_next_multiple_is_the_nearest(n: int, k: int)
    requires
        n >= 0,
        k > 0,
    ensures
        up_to(n, k) % k == 0,
        n <= up_to(n, k) < n + k,
{
    let q = (n + k - 1) / k;
    assert(n <= q * k < n + k) by (nonlinear_arith)
        requires
            q == (n + k - 1) / k,
            k > 0,
    ;
    vstd::arithmetic::div_mod::lemma_mod_multiples_basic(q, k);
}

/// A frame that is no longer than its pixels, or that the named stride divides, keeps that stride.
/// Any other takes the row up to a multiple of 16 pixels where that divides the frame, else the row
/// up to a multiple of 32 where that does, else its share for a row where that is less than 256
/// bytes more than a row, and keeps the named stride where none of them does.
pub proof fn law_stride_that_divides_is_shown(
    named: int,
    width: int,
    height: int,
    is_nv12: bool,
    len: int,
    bytes: int,
    wide: int,
    wider: int,
    share: int,
)
    requires
        width > 0,
        height > 0,
        named > 0,
        bytes == (if is_nv12 {
            1int
        } else {
            4int
        }),
        width <= wide < width + 16,
        wide % 16 == 0,
        width <= wider < width + 32,
        wider % 32 == 0,
        share * height <= len < share * height + height,
    ensures
        ({
            let s = shown_stride(named, width, height, is_nv12, len);
            let kept = len <= width * height * bytes || len % named == 0;
            let first = len % (wide * bytes) == 0;
            let second = len % (wider * bytes) == 0;
            let third = width * bytes <= share < width * bytes + 256;
            &&& kept ==> s == named
            &&& !kept && first ==> s == wide * bytes
            &&& !kept && !first && second ==> s == wider * bytes
            &&& !kept && !first && !second && third ==> s == share
            &&& !kept && !first && !second && !third ==> s == named
        }),
{
    assert(up_to(width, 16) == wide);
    assert(up_to(width, 32) == wider);
    assert(len / height == share) by (nonlinear_arith)
        requires
            share * height <= len < share * height + height,
            height > 0,
    ;
}

/// A stride can be assumed for every row of pixels that is no longer than half a gigabyte.
pub proof fn law_ordinary_rows_have_a_stride(width: u32, is_nv12: bool)
    ensures
        width <= 536_870_908 ==> assumed_stride_fits(width, is_nv12),
        is_nv12 && width <= 2_147_483_632 ==> assumed_stride_fits(width, is_nv12),
{
}

/// The sizes of a frame of up to 16384 pixels a side fit where a stride was named, and where none was
/// exactly if the frame is no longer than its pixels.
pub proof fn law_ordinary_frames_fit(
    named: usize,
    width: u32,
    height: u32,
    is_nv12: bool,
    len: usize,
    area: int,
)
    requires
        width <= 16384,
        height <= 16384,
        area == width * height,
    ensures
        named > 0 ==> sizes_fit(named, width, height, is_nv12, len),
        is_nv12 ==> (sizes_fit(0, width, height, is_nv12, len) <==> len <= area),
        !is_nv12 ==> (sizes_fit(0, width, height, is_nv12, len) <==> len <= 4 * area),
{
    assert(0 <= area <= 16384 * 16384) by (nonlinear_arith)
        requires
            area == width * height,
            0 <= width <= 16384,
            0 <= height <= 16384,
    ;
    let bytes = plane_bytes(is_nv12);
    let long = width + 31;
    assert((bytes == 1 || bytes == 4) ==> width * height * bytes == area * bytes && area * bytes
        <= 4 * area && long * bytes <= 4 * long && width * bytes <= 4 * width) by (nonlinear_arith)
        requires
            area == width * height,
            area >= 0,
            long >= 0,
            width >= 0,
    ;
    if is_nv12 {
        assert(area * bytes == area) by (nonlinear_arith)
            requires
                bytes == 1,
        ;
    } else {
        assert(area * bytes == 4 * area) by (nonlinear_arith)
            requires
                bytes == 4,
        ;
    }
}

} // verus!
