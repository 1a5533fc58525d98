//! Layout arithmetic for packed device-independent bitmaps (DIBs).
//!
//! All arithmetic is overflow-checked: a declared size whose derived offset,
//! stride or total length would not fit in the address space yields `None`
//! rather than a wrapped value.

use vstd::prelude::*;

verus! {

/// Byte length of the fixed bitmap info header prefix.
pub const BITMAPINFOHEADER_SIZE: usize = 40;

/// Compression mode: three-channel bit-field masks follow the header.
pub const BI_BITFIELDS: u32 = 3;

/// Compression mode: four-channel (alpha) bit-field masks follow the header.
pub const BI_ALPHABITFIELDS: u32 = 6;

/// Byte size of one color-table entry (blue, green, red, reserved).
pub const RGBQUAD_SIZE: usize = 4;

/// Per-row byte stride: `width * bit_count` bits, rounded up to the next
/// 4-byte boundary.
pub open spec fn row_size_spec(width: int, bit_count: int) -> int {
    ((width * bit_count + 31) / 32) * 4
}

/// The row stride is computable: both inputs nonzero and no intermediate
/// step of the checked computation overflows the address-sized integer.
pub open spec fn row_size_ok(width: int, bit_count: int) -> bool {
    &&& width > 0
    &&& bit_count > 0
    &&& width * bit_count + 31 <= usize::MAX
    &&& row_size_spec(width, bit_count) <= usize::MAX
}

/// Padded per-row byte stride of the pixel array, or `None` on a zero
/// input or an overflow.
pub fn calculate_row_size(width: usize, bit_count: u16) -> (r: Option<usize>)
    ensures
        r == if row_size_ok(width as int, bit_count as int) {
            Some(row_size_spec(width as int, bit_count as int) as usize)
        } else {
            None::<usize>
        },
{
    if width == 0 || bit_count == 0 {
        return None;
    }

    let row_bits = match width.checked_mul(bit_count as usize) {
        Some(v) => v,
        None => {
            return None;
        },
    };
    let padded = match row_bits.checked_add(31) {
        Some(v) => v,
        None => {
            return None;
        },
    };
    (padded / 32).checked_mul(4)
}

/// `2^n`, defined by doubling.
pub open spec fn pow2_spec(n: nat) -> nat
    decreases n,
{
    if n == 0 {
        1
    } else {
        2 * pow2_spec((n - 1) as nat)
    }
}

/// Doubling makes `2^n` monotone in the exponent.
proof fn lemma_pow2_spec_le(n: nat, m: nat)
    requires
        n <= m,
    ensures
        pow2_spec(n) <= pow2_spec(m),
    decreases m,
{
    if n < m {
        lemma_pow2_spec_le(n, (m - 1) as nat);
    }
}

/// With at most eight bits per pixel there are at most 256 colors.
proof fn lemma_pow2_spec_bounded(n: nat)
    requires
        n <= 8,
    ensures
        pow2_spec(n) <= 256,
{
    lemma_pow2_spec_le(n, 8);
    assert(pow2_spec(8) == 256) by {
        reveal_with_fuel(pow2_spec, 9);
    }
}

/// Number of color-table entries a header with these fields declares:
/// the declared count if nonzero, otherwise one entry per representable
/// pixel value.
pub open spec fn palette_entries_spec(bit_count: int, clr_used: int) -> int {
    if clr_used > 0 {
        clr_used
    } else {
        pow2_spec(bit_count as nat) as int
    }
}

/// Byte size of the color table: true-color formats carry none, paletted
/// formats carry one 4-byte entry per color.
pub open spec fn palette_size_spec(bit_count: int, clr_used: int) -> int {
    if bit_count > 8 {
        0
    } else {
        palette_entries_spec(bit_count, clr_used) * RGBQUAD_SIZE
    }
}

/// The color-table size fits in an address-sized integer.
pub open spec fn palette_size_ok(bit_count: int, clr_used: int) -> bool {
    bit_count > 8 || palette_entries_spec(bit_count, clr_used) * RGBQUAD_SIZE <= usize::MAX
}

/// Byte size of the color table declared by the header, or `None` on
/// overflow.
pub fn calculate_palette_size(bit_count: u16, clr_used: u32) -> (r: Option<usize>)
    ensures
        r == if palette_size_ok(bit_count as int, clr_used as int) {
            Some(palette_size_spec(bit_count as int, clr_used as int) as usize)
        } else {
            None::<usize>
        },
{
    if bit_count > 8 {
        return Some(0);
    }

    let entries: usize = if clr_used > 0 {
        clr_used as usize
    } else {
        let mut e: usize = 1;
        let mut i: u16 = 0;
        while i < bit_count
            invariant
                i <= bit_count,
                bit_count <= 8,
                e == pow2_spec(i as nat),
                e <= 256,
            decreases bit_count - i,
        {
            proof {
                lemma_pow2_spec_bounded((i + 1) as nat);
            }
            e = 2 * e;
            i = i + 1;
        }
        e
    };

    entries.checked_mul(RGBQUAD_SIZE)
}

/// Byte size of the channel-mask region that sits between the header and
/// the pixel array: masks are present only when the declared header is the
/// minimal fixed header and the compression mode calls for them.
pub open spec fn mask_size_spec(header_size: int, compression: int) -> int {
    if header_size == BITMAPINFOHEADER_SIZE && compression == BI_ALPHABITFIELDS {
        16
    } else if header_size == BITMAPINFOHEADER_SIZE && compression == BI_BITFIELDS {
        12
    } else {
        0
    }
}

/// The pixel-data offset is computable: the declared header size is at
/// least the minimal fixed header and no addition overflows.
pub open spec fn pixel_offset_ok(
    bi_size: int,
    bit_count: int,
    compression: int,
    clr_used: int,
) -> bool {
    &&& bi_size >= BITMAPINFOHEADER_SIZE
    &&& palette_size_ok(bit_count, clr_used)
    &&& bi_size + mask_size_spec(bi_size, compression) + palette_size_spec(bit_count, clr_used)
        <= usize::MAX
}

/// Byte offset where the pixel array begins: declared header size, then
/// the optional mask region, then the color table.
pub open spec fn pixel_offset_spec(
    bi_size: int,
    bit_count: int,
    compression: int,
    clr_used: int,
) -> int {
    bi_size + mask_size_spec(bi_size, compression) + palette_size_spec(bit_count, clr_used)
}

/// Byte offset of the pixel array, or `None` if the declared header size
/// is below the minimal fixed header or any step overflows.
pub fn calculate_dib_pixel_offset(
    bi_size: u32,
    bi_bit_count: u16,
    bi_compression: u32,
    bi_clr_used: u32,
) -> (r: Option<usize>)
    ensures
        r == if pixel_offset_ok(
            bi_size as int,
            bi_bit_count as int,
            bi_compression as int,
            bi_clr_used as int,
        ) {
            Some(
                pixel_offset_spec(
                    bi_size as int,
                    bi_bit_count as int,
                    bi_compression as int,
                    bi_clr_used as int,
                ) as usize,
            )
        } else {
            None::<usize>
        },
{
    let header_size = bi_size as usize;
    if header_size < BITMAPINFOHEADER_SIZE {
        return None;
    }

    let mask_size: usize = if header_size == BITMAPINFOHEADER_SIZE && (bi_compression
        == BI_BITFIELDS || bi_compression == BI_ALPHABITFIELDS) {
        if bi_compression == BI_ALPHABITFIELDS {
            16
        } else {
            12
        }
    } else {
        0
    };

    let palette_size = match calculate_palette_size(bi_bit_count, bi_clr_used) {
        Some(v) => v,
        None => {
            return None;
        },
    };
    let with_mask = match header_size.checked_add(mask_size) {
        Some(v) => v,
        None => {
            return None;
        },
    };
    with_mask.checked_add(palette_size)
}

/// The advisory total copy size is computable without overflow.
pub open spec fn copy_size_ok(
    bi_size: int,
    bit_count: int,
    compression: int,
    clr_used: int,
    width: int,
    height: int,
) -> bool {
    &&& pixel_offset_ok(bi_size, bit_count, compression, clr_used)
    &&& row_size_ok(width, bit_count)
    &&& row_size_spec(width, bit_count) * height <= usize::MAX
    &&& pixel_offset_spec(bi_size, bit_count, compression, clr_used) + row_size_spec(
        width,
        bit_count,
    ) * height <= usize::MAX
}

/// Total number of bytes the header claims the bitmap occupies: pixel
/// offset plus stride times height.
pub open spec fn copy_size_spec(
    bi_size: int,
    bit_count: int,
    compression: int,
    clr_used: int,
    width: int,
    height: int,
) -> int {
    pixel_offset_spec(bi_size, bit_count, compression, clr_used) + row_size_spec(
        width,
        bit_count,
    ) * height
}

/// Advisory total byte size of the bitmap, or `None` if a zero dimension
/// or an overflow makes it incomputable.
pub fn calculate_dib_copy_size(
    bi_size: u32,
    bi_bit_count: u16,
    bi_compression: u32,
    bi_clr_used: u32,
    width: usize,
    height: usize,
) -> (r: Option<usize>)
    ensures
        r == if copy_size_ok(
            bi_size as int,
            bi_bit_count as int,
            bi_compression as int,
            bi_clr_used as int,
            width as int,
            height as int,
        ) {
            Some(
                copy_size_spec(
                    bi_size as int,
                    bi_bit_count as int,
                    bi_compression as int,
                    bi_clr_used as int,
                    width as int,
                    height as int,
                ) as usize,
            )
        } else {
            None::<usize>
        },
{
    let pixel_offset = match calculate_dib_pixel_offset(
        bi_size,
        bi_bit_count,
        bi_compression,
        bi_clr_used,
    ) {
        Some(v) => v,
        None => {
            return None;
        },
    };
    let row_size = match calculate_row_size(width, bi_bit_count) {
        Some(v) => v,
        None => {
            return None;
        },
    };
    let image_size = match row_size.checked_mul(height) {
        Some(v) => v,
        None => {
            return None;
        },
    };
    pixel_offset.checked_add(image_size)
}

/// Hard upper bound on how many bytes one clipboard bitmap may occupy,
/// protecting against a hostile or corrupt declared size.
pub const MAX_DIB_SIZE: usize = 100 * 1024 * 1024;

/// Number of bytes to copy out of an OS-owned bitmap allocation: the
/// advisory size the header declares, falling back to the allocation size
/// when that is incomputable, clamped to the allocation size and to the
/// hard upper bound.
pub open spec fn read_size_spec(
    bi_size: int,
    bit_count: int,
    compression: int,
    clr_used: int,
    width: int,
    height: int,
    allocation_size: int,
) -> int {
    let expected = if copy_size_ok(bi_size, bit_count, compression, clr_used, width, height) {
        copy_size_spec(bi_size, bit_count, compression, clr_used, width, height)
    } else {
        allocation_size
    };
    let clamped = if expected <= allocation_size {
        expected
    } else {
        allocation_size
    };
    if clamped <= MAX_DIB_SIZE {
        clamped
    } else {
        MAX_DIB_SIZE as int
    }
}

/// Number of bytes to copy out of an OS-owned allocation of
/// `allocation_size` bytes whose first bytes declare these header fields.
pub fn calculate_read_size(
    bi_size: u32,
    bi_bit_count: u16,
    bi_compression: u32,
    bi_clr_used: u32,
    width: usize,
    height: usize,
    allocation_size: usize,
) -> (r: usize)
    ensures
        r == read_size_spec(
            bi_size as int,
            bi_bit_count as int,
            bi_compression as int,
            bi_clr_used as int,
            width as int,
            height as int,
            allocation_size as int,
        ),
        r <= allocation_size,
        r <= MAX_DIB_SIZE,
{
    let expected = match calculate_dib_copy_size(
        bi_size,
        bi_bit_count,
        bi_compression,
        bi_clr_used,
        width,
        height,
    ) {
        Some(v) => v,
        None => allocation_size,
    };
    let clamped = if expected <= allocation_size {
        expected
    } else {
        allocation_size
    };
    if clamped <= MAX_DIB_SIZE {
        clamped
    } else {
        MAX_DIB_SIZE
    }
}

/// The fixed-size packed header prefix of a DIB buffer, read field by
/// field from little-endian fixed-width integers.
pub struct BitmapInfoHeader {
    pub bi_size: u32,
    pub bi_width: i32,
    pub bi_height: i32,
    pub bi_planes: u16,
    pub bi_bit_count: u16,
    pub bi_compression: u32,
    pub bi_size_image: u32,
    pub bi_x_pels_per_meter: i32,
    pub bi_y_pels_per_meter: i32,
    pub bi_clr_used: u32,
    pub bi_clr_important: u32,
}

/// The unsigned 16-bit integer stored little-endian at byte offset `off`.
pub open spec fn le_u16_spec(s: Seq<u8>, off: int) -> int {
    s[off] + s[off + 1] * 0x100
}

/// The unsigned 32-bit integer stored little-endian at byte offset `off`.
pub open spec fn le_u32_spec(s: Seq<u8>, off: int) -> int {
    s[off] + s[off + 1] * 0x100 + s[off + 2] * 0x10000 + s[off + 3] * 0x1000000
}

/// The signed (two's-complement) 32-bit integer stored little-endian at
/// byte offset `off`.
pub open spec fn le_i32_spec(s: Seq<u8>, off: int) -> int {
    let v = le_u32_spec(s, off);
    if v < 0x80000000 {
        v
    } else {
        v - 0x100000000
    }
}

/// Reads the unsigned 16-bit little-endian integer at `off`.
pub fn read_u16_le(data: &Vec<u8>, off: usize) -> (r: u16)
    requires
        off + 2 <= data.len(),
    ensures
        r as int == le_u16_spec(data@, off as int),
{
    (data[off] as u16) + (data[off + 1] as u16) * 0x100
}

/// Reads the unsigned 32-bit little-endian integer at `off`.
pub fn read_u32_le(data: &Vec<u8>, off: usize) -> (r: u32)
    requires
        off + 4 <= data.len(),
    ensures
        r as int == le_u32_spec(data@, off as int),
{
    (data[off] as u32) + (data[off + 1] as u32) * 0x100 + (data[off + 2] as u32) * 0x10000 + (data[off
        + 3] as u32) * 0x1000000
}

/// Reads the signed 32-bit little-endian integer at `off`, interpreting
/// the top bit as the two's-complement sign.
pub fn read_i32_le(data: &Vec<u8>, off: usize) -> (r: i32)
    requires
        off + 4 <= data.len(),
    ensures
        r as int == le_i32_spec(data@, off as int),
{
    let v = read_u32_le(data, off);
    if v < 0x80000000 {
        v as i32
    } else {
        -((0xFFFFFFFFu32 - v) as i32) - 1
    }
}

/// The header value described by the first bytes of the buffer.
pub open spec fn header_matches(s: Seq<u8>, h: BitmapInfoHeader) -> bool {
    &&& h.bi_size as int == le_u32_spec(s, 0)
    &&& h.bi_width as int == le_i32_spec(s, 4)
    &&& h.bi_height as int == le_i32_spec(s, 8)
    &&& h.bi_planes as int == le_u16_spec(s, 12)
    &&& h.bi_bit_count as int == le_u16_spec(s, 14)
    &&& h.bi_compression as int == le_u32_spec(s, 16)
    &&& h.bi_size_image as int == le_u32_spec(s, 20)
    &&& h.bi_x_pels_per_meter as int == le_i32_spec(s, 24)
    &&& h.bi_y_pels_per_meter as int == le_i32_spec(s, 28)
    &&& h.bi_clr_used as int == le_u32_spec(s, 32)
    &&& h.bi_clr_important as int == le_u32_spec(s, 36)
}

/// Interprets the fixed-size packed header prefix of a raw buffer.
/// A buffer shorter than the fixed header size fails; nothing past the
/// fixed header size is read.
pub fn read_bitmap_info(data: &Vec<u8>) -> (r: Option<BitmapInfoHeader>)
    ensures
        r is Some <==> data@.len() >= BITMAPINFOHEADER_SIZE,
        r matches Some(h) ==> header_matches(data@, h),
{
    if data.len() < BITMAPINFOHEADER_SIZE {
        return None;
    }

    Some(
        BitmapInfoHeader {
            bi_size: read_u32_le(data, 0),
            bi_width: read_i32_le(data, 4),
            bi_height: read_i32_le(data, 8),
            bi_planes: read_u16_le(data, 12),
            bi_bit_count: read_u16_le(data, 14),
            bi_compression: read_u32_le(data, 16),
            bi_size_image: read_u32_le(data, 20),
            bi_x_pels_per_meter: read_i32_le(data, 24),
            bi_y_pels_per_meter: read_i32_le(data, 28),
            bi_clr_used: read_u32_le(data, 32),
            bi_clr_important: read_u32_le(data, 36),
        },
    )
}

/// Absolute value.
pub open spec fn abs_spec(v: int) -> int {
    if v >= 0 {
        v
    } else {
        -v
    }
}

/// Absolute value of a signed 32-bit integer, as an unsigned one.
pub fn abs_i32(v: i32) -> (r: u32)
    ensures
        r as int == abs_spec(v as int),
{
    if v >= 0 {
        v as u32
    } else if v == i32::MIN {
        0x80000000u32
    } else {
        (-v) as u32
    }
}

/// Width of the image a DIB buffer declares (the sign only encodes
/// direction).
pub open spec fn dib_width(s: Seq<u8>) -> int {
    abs_spec(le_i32_spec(s, 4))
}

/// Height of the image a DIB buffer declares (the sign only encodes row
/// order).
pub open spec fn dib_height(s: Seq<u8>) -> int {
    abs_spec(le_i32_spec(s, 8))
}

/// A positive declared height means rows are stored bottom-to-top.
pub open spec fn dib_bottom_up(s: Seq<u8>) -> bool {
    le_i32_spec(s, 8) > 0
}

/// Declared bits per pixel.
pub open spec fn dib_bit_count(s: Seq<u8>) -> int {
    le_u16_spec(s, 14)
}

/// Bytes per pixel of the decoded output: 4 with an alpha channel, else 3.
pub open spec fn dib_channels(s: Seq<u8>) -> int {
    if dib_bit_count(s) == 32 {
        4
    } else {
        3
    }
}

/// Pixel-array byte offset the header fields describe.
pub open spec fn dib_pixel_offset(s: Seq<u8>) -> int {
    pixel_offset_spec(le_u32_spec(s, 0), dib_bit_count(s), le_u32_spec(s, 16), le_u32_spec(s, 32))
}

/// Per-row byte stride the header fields describe.
pub open spec fn dib_row_size(s: Seq<u8>) -> int {
    row_size_spec(dib_width(s), dib_bit_count(s))
}

/// A raw DIB buffer can be decoded: the header prefix is present, the bit
/// depth is one of the two supported true-color depths, both dimensions
/// are nonzero, every derived size is computable without overflow, and the
/// buffer really contains the whole declared pixel array.
pub open spec fn dib_decodable(s: Seq<u8>) -> bool {
    &&& s.len() >= BITMAPINFOHEADER_SIZE
    &&& (dib_bit_count(s) == 24 || dib_bit_count(s) == 32)
    &&& le_i32_spec(s, 4) != 0
    &&& le_i32_spec(s, 8) != 0
    &&& pixel_offset_ok(le_u32_spec(s, 0), dib_bit_count(s), le_u32_spec(s, 16), le_u32_spec(s, 32))
    &&& row_size_ok(dib_width(s), dib_bit_count(s))
    &&& dib_row_size(s) * dib_height(s) <= usize::MAX
    &&& dib_pixel_offset(s) + dib_row_size(s) * dib_height(s) <= usize::MAX
    &&& s.len() >= dib_pixel_offset(s) + dib_row_size(s) * dib_height(s)
    &&& dib_width(s) * dib_height(s) <= usize::MAX
    &&& dib_width(s) * dib_height(s) * dib_channels(s) <= usize::MAX
}

/// One decoded pixel: the source stores blue-green-red(-alpha), the
/// output stores red-green-blue(-alpha).
pub open spec fn decoded_pixel(s: Seq<u8>, base: int, channels: int) -> Seq<u8> {
    if channels == 4 {
        seq![s[base + 2], s[base + 1], s[base], s[base + 3]]
    } else {
        seq![s[base + 2], s[base + 1], s[base]]
    }
}

/// The first `x_count` pixels of one source row starting at byte
/// `row_start`, decoded left to right.
pub open spec fn decoded_row(s: Seq<u8>, row_start: int, channels: int, x_count: int) -> Seq<u8>
    decreases x_count,
{
    if x_count <= 0 {
        Seq::empty()
    } else {
        decoded_row(s, row_start, channels, x_count - 1) + decoded_pixel(
            s,
            row_start + (x_count - 1) * channels,
            channels,
        )
    }
}

/// Which stored row provides destination row `y`: bottom-up bitmaps store
/// their visually last row first.
pub open spec fn source_row_index(height: int, bottom_up: bool, y: int) -> int {
    if bottom_up {
        height - 1 - y
    } else {
        y
    }
}

/// The first `y_count` destination rows of the decoded image.
pub open spec fn decoded_image_rows(
    s: Seq<u8>,
    pixel_offset: int,
    row_size: int,
    width: int,
    height: int,
    channels: int,
    bottom_up: bool,
    y_count: int,
) -> Seq<u8>
    decreases y_count,
{
    if y_count <= 0 {
        Seq::empty()
    } else {
        decoded_image_rows(
            s,
            pixel_offset,
            row_size,
            width,
            height,
            channels,
            bottom_up,
            y_count - 1,
        ) + decoded_row(
            s,
            pixel_offset + source_row_index(height, bottom_up, y_count - 1) * row_size,
            channels,
            width,
        )
    }
}

/// The full decoded pixel buffer of a decodable DIB: every destination
/// row in order, channels reordered to red-green-blue(-alpha).
pub open spec fn decoded_image_spec(s: Seq<u8>) -> Seq<u8> {
    decoded_image_rows(
        s,
        dib_pixel_offset(s),
        dib_row_size(s),
        dib_width(s),
        dib_height(s),
        dib_channels(s),
        dib_bottom_up(s),
        dib_height(s),
    )
}

/// A canonical RGB or RGBA pixel buffer extracted from a DIB.
pub struct DecodedImage {
    pub width: u32,
    pub height: u32,
    pub has_alpha: bool,
    pub pixels: Vec<u8>,
}

/// For the two supported bit depths the padded stride covers at least
/// `width` whole pixels.
proof fn lemma_row_size_covers(width: int, bit_count: int)
    requires
        width >= 0,
        bit_count == 24 || bit_count == 32,
    ensures
        row_size_spec(width, bit_count) >= width * (if bit_count == 32 {
            4int
        } else {
            3int
        }),
{
    let wb = width * bit_count;
    let q = (wb + 31) / 32;
    vstd::arithmetic::div_mod::lemma_fundamental_div_mod(wb + 31, 32);
    vstd::arithmetic::div_mod::lemma_mod_bound(wb + 31, 32);
    assert(32 * q >= wb);
}

/// Each decoded row is `width * channels` bytes long.
proof fn lemma_decoded_row_len(s: Seq<u8>, row_start: int, channels: int, x_count: int)
    requires
        x_count >= 0,
        channels == 3 || channels == 4,
    ensures
        decoded_row(s, row_start, channels, x_count).len() == x_count * channels,
    decreases x_count,
{
    if x_count > 0 {
        lemma_decoded_row_len(s, row_start, channels, x_count - 1);
        vstd::arithmetic::mul::lemma_mul_is_distributive_add_other_way(channels, x_count - 1, 1);
    }
}

/// The decoded image grows by one full row per destination row.
proof fn lemma_decoded_image_rows_len(
    s: Seq<u8>,
    pixel_offset: int,
    row_size: int,
    width: int,
    height: int,
    channels: int,
    bottom_up: bool,
    y_count: int,
)
    requires
        y_count >= 0,
        width >= 0,
        channels == 3 || channels == 4,
    ensures
        decoded_image_rows(s, pixel_offset, row_size, width, height, channels, bottom_up, y_count).len()
            == y_count * (width * channels),
    decreases y_count,
{
    if y_count > 0 {
        lemma_decoded_image_rows_len(
            s,
            pixel_offset,
            row_size,
            width,
            height,
            channels,
            bottom_up,
            y_count - 1,
        );
        lemma_decoded_row_len(
            s,
            pixel_offset + source_row_index(height, bottom_up, y_count - 1) * row_size,
            channels,
            width,
        );
        assert(decoded_image_rows(
            s,
            pixel_offset,
            row_size,
            width,
            height,
            channels,
            bottom_up,
            y_count,
        ).len() == (y_count - 1) * (width * channels) + width * channels);
        assert((y_count - 1) * (width * channels) + width * channels == y_count * (width
            * channels)) by (nonlinear_arith);
    } else {
        assert(decoded_image_rows(
            s,
            pixel_offset,
            row_size,
            width,
            height,
            channels,
            bottom_up,
            y_count,
        ) == Seq::<u8>::empty());
        assert(y_count * (width * channels) == 0) by (nonlinear_arith)
            requires
                y_count == 0,
        ;
    }
}

/// Validates a raw DIB buffer and extracts its pixel array as a canonical
/// red-green-blue(-alpha) buffer, reordering bottom-up rows into top-down
/// order. Fails exactly on the buffers that are not decodable; never reads
/// out of bounds.
pub fn decode_dib_pixels(dib_data: &Vec<u8>) -> (r: Option<DecodedImage>)
    ensures
        r is Some <==> dib_decodable(dib_data@),
        r matches Some(d) ==> ({
            &&& d.width as int == dib_width(dib_data@)
            &&& d.height as int == dib_height(dib_data@)
            &&& d.has_alpha == (dib_bit_count(dib_data@) == 32)
            &&& d.pixels@ == decoded_image_spec(dib_data@)
            &&& d.pixels@.len() == dib_width(dib_data@) * dib_height(dib_data@) * dib_channels(
                dib_data@,
            )
        }),
{
    let ghost s = dib_data@;
    let header = match read_bitmap_info(dib_data) {
        Some(h) => h,
        None => {
            return None;
        },
    };

    if header.bi_bit_count != 24 && header.bi_bit_count != 32 {
        return None;
    }
    if header.bi_width == 0 || header.bi_height == 0 {
        return None;
    }

    let width32 = abs_i32(header.bi_width);
    let height32 = abs_i32(header.bi_height);
    let width_u = width32 as usize;
    let height_u = height32 as usize;
    let bottom_up = header.bi_height > 0;

    let pixel_offset = match calculate_dib_pixel_offset(
        header.bi_size,
        header.bi_bit_count,
        header.bi_compression,
        header.bi_clr_used,
    ) {
        Some(v) => v,
        None => {
            return None;
        },
    };

    let channels: usize = if header.bi_bit_count == 32 {
        4
    } else {
        3
    };
    let row_size = match calculate_row_size(width_u, header.bi_bit_count) {
        Some(v) => v,
        None => {
            return None;
        },
    };
    let image_size = match row_size.checked_mul(height_u) {
        Some(v) => v,
        None => {
            return None;
        },
    };
    let pixel_end = match pixel_offset.checked_add(image_size) {
        Some(v) => v,
        None => {
            return None;
        },
    };

    if dib_data.len() < pixel_end {
        return None;
    }

    let wh = match width_u.checked_mul(height_u) {
        Some(v) => v,
        None => {
            return None;
        },
    };
    let capacity = match wh.checked_mul(channels) {
        Some(v) => v,
        None => {
            return None;
        },
    };

    proof {
        assert(dib_decodable(s));
        lemma_row_size_covers(width_u as int, header.bi_bit_count as int);
    }

    let mut img: Vec<u8> = Vec::with_capacity(capacity);
    let mut y: usize = 0;
    while y < height_u
        invariant
            dib_decodable(s),
            dib_data@ == s,
            y <= height_u,
            width_u as int == dib_width(s),
            height_u as int == dib_height(s),
            channels as int == dib_channels(s),
            row_size as int == dib_row_size(s),
            pixel_offset as int == dib_pixel_offset(s),
            bottom_up == dib_bottom_up(s),
            pixel_end as int == dib_pixel_offset(s) + dib_row_size(s) * dib_height(s),
            pixel_end <= dib_data@.len(),
            row_size as int >= width_u as int * channels as int,
            img@ == decoded_image_rows(
                s,
                pixel_offset as int,
                row_size as int,
                width_u as int,
                height_u as int,
                channels as int,
                bottom_up,
                y as int,
            ),
        decreases height_u - y,
    {
        let src_y = if bottom_up {
            height_u - 1 - y
        } else {
            y
        };

        proof {
            vstd::arithmetic::mul::lemma_mul_inequality(
                src_y as int + 1,
                height_u as int,
                row_size as int,
            );
            vstd::arithmetic::mul::lemma_mul_is_distributive_add_other_way(
                row_size as int,
                src_y as int,
                1,
            );
        }

        let row_start = pixel_offset + src_y * row_size;
        let mut x: usize = 0;
        while x < width_u
            invariant
                dib_decodable(s),
                dib_data@ == s,
                y < height_u,
                x <= width_u,
                width_u as int == dib_width(s),
                height_u as int == dib_height(s),
                channels as int == dib_channels(s),
                row_size as int == dib_row_size(s),
                pixel_offset as int == dib_pixel_offset(s),
                bottom_up == dib_bottom_up(s),
                pixel_end as int == dib_pixel_offset(s) + dib_row_size(s) * dib_height(s),
                pixel_end <= dib_data@.len(),
                row_size as int >= width_u as int * channels as int,
                src_y as int == source_row_index(height_u as int, bottom_up, y as int),
                row_start as int == pixel_offset as int + src_y as int * row_size as int,
                row_start as int + row_size as int <= pixel_end as int,
                img@ == decoded_image_rows(
                    s,
                    pixel_offset as int,
                    row_size as int,
                    width_u as int,
                    height_u as int,
                    channels as int,
                    bottom_up,
                    y as int,
                ) + decoded_row(s, row_start as int, channels as int, x as int),
            decreases width_u - x,
        {
            proof {
                if channels == 4 {
                    assert((x as int + 1) * 4 <= width_u as int * 4) by (nonlinear_arith)
                        requires
                            x as int + 1 <= width_u as int,
                    ;
                    assert(x as int * 4 == (x as int) * (channels as int));
                } else {
                    assert((x as int + 1) * 3 <= width_u as int * 3) by (nonlinear_arith)
                        requires
                            x as int + 1 <= width_u as int,
                    ;
                    assert(x as int * 3 == (x as int) * (channels as int));
                }
                vstd::arithmetic::mul::lemma_mul_is_distributive_add_other_way(
                    channels as int,
                    x as int,
                    1,
                );
            }

            let p = row_start + x * channels;
            let b = dib_data[p];
            let g = dib_data[p + 1];
            let red = dib_data[p + 2];
            img.push(red);
            img.push(g);
            img.push(b);
            if channels == 4 {
                img.push(dib_data[p + 3]);
            }
            x = x + 1;
        }

        y = y + 1;
    }

    proof {
        lemma_decoded_image_rows_len(
            s,
            pixel_offset as int,
            row_size as int,
            width_u as int,
            height_u as int,
            channels as int,
            bottom_up,
            height_u as int,
        );
        assert(height_u as int * (width_u as int * channels as int) == width_u as int * height_u
            as int * channels as int) by (nonlinear_arith);
    }

    Some(
        DecodedImage {
            width: width32,
            height: height32,
            has_alpha: header.bi_bit_count == 32,
            pixels: img,
        },
    )
}

/// A buffer shorter than the fixed header size fails decoding; together
/// with the header parser's contract, nothing past the buffer is ever
/// read for such an input.
pub proof fn lemma_short_buffer_fails(s: Seq<u8>)
    requires
        s.len() < BITMAPINFOHEADER_SIZE,
    ensures
        !dib_decodable(s),
{
}

/// A declared geometry whose stride times height would overflow the
/// address space never yields a copy size: the layout calculation fails
/// rather than producing a wrapped value.
pub proof fn lemma_overflowing_geometry_fails(
    bi_size: int,
    bit_count: int,
    compression: int,
    clr_used: int,
    width: int,
    height: int,
)
    requires
        row_size_spec(width, bit_count) * height > usize::MAX,
    ensures
        !copy_size_ok(bi_size, bit_count, compression, clr_used, width, height),
{
}

/// Which source channel provides output channel `c`: blue and red are
/// exchanged, green and alpha stay in place.
pub open spec fn source_channel_index(c: int) -> int {
    if c == 0 {
        2
    } else if c == 2 {
        0
    } else {
        c
    }
}

/// One decoded pixel reads its bytes from the source at the pixel's base
/// offset, channels exchanged.
proof fn lemma_decoded_pixel_index(s: Seq<u8>, base: int, channels: int, c: int)
    requires
        channels == 3 || channels == 4,
        0 <= c < channels,
    ensures
        decoded_pixel(s, base, channels)[c] == s[base + source_channel_index(c)],
{
}

/// Indexing one decoded row at pixel `x`, channel `c` reads the source at
/// the pixel's base offset.
proof fn lemma_decoded_row_index(s: Seq<u8>, row_start: int, channels: int, x_count: int, x: int, c: int)
    requires
        channels == 3 || channels == 4,
        0 <= x < x_count,
        0 <= c < channels,
    ensures
        decoded_row(s, row_start, channels, x_count)[x * channels + c] == s[row_start + x
            * channels + source_channel_index(c)],
    decreases x_count,
{
    lemma_decoded_row_len(s, row_start, channels, x_count - 1);
    if x == x_count - 1 {
        lemma_decoded_pixel_index(s, row_start + x * channels, channels, c);
    } else {
        lemma_decoded_row_index(s, row_start, channels, x_count - 1, x, c);
        assert((x + 1) * channels <= (x_count - 1) * channels) by (nonlinear_arith)
            requires
                x + 1 <= x_count - 1,
                channels >= 0,
        ;
        assert(x * channels + channels == (x + 1) * channels) by (nonlinear_arith);
    }
}

/// Indexing the decoded rows at destination row `y`, pixel `x`, channel
/// `c` reads the source row that provides `y`.
proof fn lemma_decoded_image_rows_index(
    s: Seq<u8>,
    pixel_offset: int,
    row_size: int,
    width: int,
    height: int,
    channels: int,
    bottom_up: bool,
    y_count: int,
    y: int,
    x: int,
    c: int,
)
    requires
        channels == 3 || channels == 4,
        width >= 0,
        0 <= y < y_count,
        0 <= x < width,
        0 <= c < channels,
    ensures
        decoded_image_rows(s, pixel_offset, row_size, width, height, channels, bottom_up, y_count)[
            y * (width * channels) + x * channels + c] == s[pixel_offset + source_row_index(
            height,
            bottom_up,
            y,
        ) * row_size + x * channels + source_channel_index(c)],
    decreases y_count,
{
    lemma_decoded_image_rows_len(
        s,
        pixel_offset,
        row_size,
        width,
        height,
        channels,
        bottom_up,
        y_count - 1,
    );
    let row_start = pixel_offset + source_row_index(height, bottom_up, y_count - 1) * row_size;
    lemma_decoded_row_len(s, row_start, channels, width);
    assert(x * channels + c < width * channels) by (nonlinear_arith)
        requires
            0 <= x < width,
            0 <= c < channels,
    ;
    if y == y_count - 1 {
        lemma_decoded_row_index(s, row_start, channels, width, x, c);
    } else {
        lemma_decoded_image_rows_index(
            s,
            pixel_offset,
            row_size,
            width,
            height,
            channels,
            bottom_up,
            y_count - 1,
            y,
            x,
            c,
        );
        assert((y + 1) * (width * channels) <= (y_count - 1) * (width * channels))
            by (nonlinear_arith)
            requires
                y + 1 <= y_count - 1,
                width * channels >= 0,
        ;
        assert(y * (width * channels) + (width * channels) == (y + 1) * (width * channels))
            by (nonlinear_arith);
    }
}

/// Decoding reproduces the exact pixel grid: for every valid DIB, the
/// component of the decoded output at destination row `y`, pixel `x`,
/// channel `c` is exactly the source byte of the stored row that provides
/// `y`, at that pixel, with the blue and red channels exchanged. No pixel
/// component is lost, invented or displaced by a decode.
pub proof fn lemma_decoded_pixel_grid(s: Seq<u8>, y: int, x: int, c: int)
    requires
        dib_decodable(s),
        0 <= y < dib_height(s),
        0 <= x < dib_width(s),
        0 <= c < dib_channels(s),
    ensures
        decoded_image_spec(s)[y * (dib_width(s) * dib_channels(s)) + x * dib_channels(s) + c]
            == s[dib_pixel_offset(s) + source_row_index(dib_height(s), dib_bottom_up(s), y)
            * dib_row_size(s) + x * dib_channels(s) + source_channel_index(c)],
{
    lemma_decoded_image_rows_index(
        s,
        dib_pixel_offset(s),
        dib_row_size(s),
        dib_width(s),
        dib_height(s),
        dib_channels(s),
        dib_bottom_up(s),
        dib_height(s),
        y,
        x,
        c,
    );
}

} // verus!
