//! How an RGBA image is laid out in a staging buffer before it is copied to
//! the device: each row padded to the device's pitch alignment.
use vstd::prelude::*;

verus! {

/// Bytes in one RGBA pixel of eight bits per channel.
pub const PIXEL_SIZE: usize = 4;

/// `size` rounded up with the mask `align - 1`, as 32-bit integers: the
/// rounding is to a multiple of `align` when `align` is a power of two.
pub open spec fn spec_align_up(size: u32, align: u32) -> u32 {
    (((size + (align - 1) as u32) as u32) & !((align - 1) as u32)) as u32
}

/// The padded length of a row of `width` pixels, for a device whose buffer
/// copies need rows aligned to `alignment` bytes (taken as a 32-bit integer).
pub open spec fn spec_row_pitch(width: u32, alignment: u64) -> usize {
    spec_align_up((PIXEL_SIZE * width) as u32, alignment as u32) as usize
}

/// The padded length of a row of `width` pixels.
pub fn row_pitch(width: u32, min_buffer_copy_pitch_alignment: u64) -> (r: usize)
    requires
        PIXEL_SIZE * width <= usize::MAX,
        (min_buffer_copy_pitch_alignment as u32) >= 1,
        ((PIXEL_SIZE * width) as u32) + (min_buffer_copy_pitch_alignment as u32) - 1 <= u32::MAX,
    ensures
        r == spec_row_pitch(width, min_buffer_copy_pitch_alignment),
{
    let row_size: usize = PIXEL_SIZE * (width as usize);
    let row_alignment_mask: u32 = min_buffer_copy_pitch_alignment as u32 - 1;
    ((row_size as u32 + row_alignment_mask) & !row_alignment_mask) as usize
}

/// The padded row length the staging copy describes in pixels.
pub fn buffer_width(row_pitch: usize) -> (r: u32)
    ensures
        r == ((row_pitch / PIXEL_SIZE) as u32),
{
    (row_pitch / PIXEL_SIZE) as u32
}

/// The sizes of an image's staging: a row of pixels, a padded row, the
/// whole buffer, and the padded row in pixels.
#[derive(Debug, Copy, Clone, PartialEq, Eq, Structural)]
pub struct StagingPlan {
    pub row_size: usize,
    pub row_pitch: usize,
    pub required_bytes: usize,
    pub buffer_width: u32,
}

/// Sizes the staging of a `width` by `height` image. A padded row is never
/// shorter than the row it holds. It takes only rows whose size fits in 32
/// bits: a longer one would be padded to less than itself.
pub fn plan_staging(width: u32, height: u32, min_buffer_copy_pitch_alignment: u64) -> (r: StagingPlan)
    requires
        PIXEL_SIZE * width <= u32::MAX,
        (min_buffer_copy_pitch_alignment as u32) >= 1,
        ((PIXEL_SIZE * width) as u32) + (min_buffer_copy_pitch_alignment as u32) - 1 <= u32::MAX,
        spec_row_pitch(width, min_buffer_copy_pitch_alignment) * height <= usize::MAX,
    ensures
        r.row_size == PIXEL_SIZE * width,
        r.row_pitch == spec_row_pitch(width, min_buffer_copy_pitch_alignment),
        r.required_bytes == r.row_pitch * height,
        r.buffer_width == ((r.row_pitch / PIXEL_SIZE) as u32),
        r.row_size <= r.row_pitch,
{
    let row_size: usize = PIXEL_SIZE * (width as usize);
    let pitch = row_pitch(width, min_buffer_copy_pitch_alignment);
    proof {
        let s: u32 = row_size as u32;
        let m: u32 = (min_buffer_copy_pitch_alignment as u32 - 1) as u32;
        let t: u32 = (s + m) as u32;
        assert((t & !m) + m >= t) by (bit_vector);
        assert(s == row_size);
    }
    let required_bytes: usize = pitch * (height as usize);
    StagingPlan { row_size, row_pitch: pitch, required_bytes, buffer_width: buffer_width(pitch) }
}

/// Rounding up to a power of two gives the least multiple of it that is at
/// least the size.
pub proof fn law_align_up_is_least_multiple(size: u32, k: u32)
    requires
        k < 32,
        size + ((1u32 << k) - 1) <= u32::MAX,
    ensures
        spec_align_up(size, 1u32 << k) >= size,
        spec_align_up(size, 1u32 << k) % (1u32 << k) == 0,
        spec_align_up(size, 1u32 << k) - size < (1u32 << k),
{
    let a: u32 = 1u32 << k;
    assert(a >= 1) by (bit_vector)
        requires
            k < 32,
            a == 1u32 << k,
    ;
    let m: u32 = (a - 1) as u32;
    let t: u32 = (size + m) as u32;
    let p: u32 = t & !m;
    assert(p <= t && t - p <= m && p % a == 0) by (bit_vector)
        requires
            k < 32,
            a == 1u32 << k,
            m == a - 1,
            p == t & !m,
    ;
    assert(spec_align_up(size, a) == p);
    assert(p >= size) by (bit_vector)
        requires
            k < 32,
            a == 1u32 << k,
            m == a - 1,
            t == size + m,
            size + m <= 0xffff_ffffu32,
            p == t & !m,
    ;
}

/// The byte that staging puts at position `i` of the buffer: within the
/// first `row_size` bytes of one of the first `height` padded rows, the
/// image's byte at the same row and column; anywhere else, what was there.
pub open spec fn spec_staged_byte(
    before: Seq<u8>,
    pixels: Seq<u8>,
    row_size: int,
    row_pitch: int,
    height: int,
    i: int,
) -> u8 {
    if row_pitch > 0 && i / row_pitch < height && i % row_pitch < row_size {
        pixels[(i / row_pitch) * row_size + i % row_pitch]
    } else {
        before[i]
    }
}

proof fn lemma_row_position(i: int, y: int, x: int, row_pitch: int)
    requires
        row_pitch > 0,
        0 <= x < row_pitch,
        i == y * row_pitch + x,
    ensures
        i / row_pitch == y,
        i % row_pitch == x,
{
    vstd::arithmetic::div_mod::lemma_fundamental_div_mod_converse(i, row_pitch, y, x);
}

/// Copies the image's rows of `row_size` bytes into the staging buffer, each
/// starting at a multiple of `row_pitch`, leaving the padding as it was.
pub fn stage_rows(target: &mut Vec<u8>, pixels: &[u8], row_size: usize, row_pitch: usize, height: usize)
    requires
        row_size <= row_pitch,
        height * row_size <= pixels@.len(),
        height == 0 || (height - 1) * row_pitch + row_size <= old(target)@.len(),
    ensures
        final(target)@.len() == old(target)@.len(),
        forall|i: int|
            0 <= i < final(target)@.len() ==> #[trigger] final(target)@[i] == spec_staged_byte(
                old(target)@,
                pixels@,
                row_size as int,
                row_pitch as int,
                height as int,
                i,
            ),
{
    let ghost before = target@;
    let pixels_len: usize = pixels.len();
    let target_len: usize = target.len();
    let mut y: usize = 0;
    while y < height
        invariant
            pixels_len == pixels@.len(),
            target_len == before.len(),
            row_size <= row_pitch,
            height * row_size <= pixels@.len(),
            height == 0 || (height - 1) * row_pitch + row_size <= before.len(),
            y <= height,
            target@.len() == before.len(),
            forall|i: int|
                0 <= i < target@.len() ==> #[trigger] target@[i] == spec_staged_byte(
                    before,
                    pixels@,
                    row_size as int,
                    row_pitch as int,
                    y as int,
                    i,
                ),
        decreases height - y,
    {
        assert(y * row_size + row_size <= height * row_size) by (nonlinear_arith)
            requires
                y < height,
        ;
        assert(y * row_pitch + row_size <= (height - 1) * row_pitch + row_size) by (nonlinear_arith)
            requires
                y < height,
        ;
        assert(y * row_size <= pixels_len && y * row_pitch <= target_len);
        let src_base: usize = y * row_size;
        let dest_base: usize = y * row_pitch;
        let ghost row_start = target@;
        let mut x: usize = 0;
        while x < row_size
            invariant
                pixels_len == pixels@.len(),
                target_len == target@.len(),
                row_size <= row_pitch,
                y < height,
                src_base == y * row_size,
                dest_base == y * row_pitch,
                src_base + row_size <= pixels@.len(),
                dest_base + row_size <= target@.len(),
                target@.len() == row_start.len(),
                x <= row_size,
                forall|i: int|
                    0 <= i < target@.len() ==> #[trigger] target@[i] == if dest_base <= i < dest_base + x {
                        pixels@[src_base + (i - dest_base)]
                    } else {
                        row_start[i]
                    },
            decreases row_size - x,
        {
            target.set(dest_base + x, pixels[src_base + x]);
            x = x + 1;
        }
        proof {
            assert forall|i: int| 0 <= i < target@.len() implies #[trigger] target@[i] == spec_staged_byte(
                before,
                pixels@,
                row_size as int,
                row_pitch as int,
                y + 1,
                i,
            ) by {
                if dest_base <= i < dest_base + row_size {
                    lemma_row_position(i, y as int, i - dest_base, row_pitch as int);
                } else if row_pitch > 0 {
                    let q = i / row_pitch as int;
                    let r = i % row_pitch as int;
                    vstd::arithmetic::div_mod::lemma_fundamental_div_mod(i, row_pitch as int);
                    vstd::arithmetic::mul::lemma_mul_is_commutative(row_pitch as int, q);
                    if q == y && r < row_size {
                        assert(i == y * row_pitch + r);
                    }
                }
            }
        }
        y = y + 1;
    }
}

} // verus!
