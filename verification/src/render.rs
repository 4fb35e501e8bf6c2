use vstd::prelude::*;
use crate::data::{DataSmuggler, RecorderID, RenderData, has_key, key_at, value_of};
use crate::image_utils::TextureFormat;

verus! {

/// The row alignment, in bytes, that the device imposes on texture-to-buffer
/// copies.
pub const COPY_BYTES_PER_ROW_ALIGNMENT: u32 = 256;

/// The least multiple of 256 that is at least `v`.
pub open spec fn spec_align(v: int) -> int {
    if v % 256 == 0 {
        v
    } else {
        v + (256 - v % 256)
    }
}

/// The aligned row size is the least multiple of the row alignment that is
/// at least `v`: it is a multiple, it is large enough, and no smaller
/// multiple suffices.
pub proof fn lemma_align_is_least_multiple(v: int)
    requires
        0 <= v,
    ensures
        spec_align(v) % 256 == 0,
        v <= spec_align(v) < v + 256,
        forall|m: int| #[trigger] (m % 256) == 0 && m >= v ==> spec_align(v) <= m,
{
    assert forall|m: int| #[trigger] (m % 256) == 0 && m >= v implies spec_align(v) <= m by {
        if m < spec_align(v) {
            // Two multiples of 256 that differ, differ by at least 256;
            // but a multiple below the aligned value would then sit below
            // `v` itself.
            assert((spec_align(v) - m) % 256 == 0);
            assert(spec_align(v) - m >= 256);
            assert(m <= spec_align(v) - 256);
        }
    }
}

/// Rounds `value` up to the next multiple of the device row alignment; a
/// value already aligned is returned unchanged, so an aligned row carries no
/// padding.
pub fn align_byte_size(value: u32) -> (r: u32)
    requires
        value + 255 <= u32::MAX,
    ensures
        r as int == spec_align(value as int),
        r % 256 == 0,
        value <= r < value + 256,
{
    if value % COPY_BYTES_PER_ROW_ALIGNMENT == 0 {
        value
    } else {
        value + (COPY_BYTES_PER_ROW_ALIGNMENT - value % COPY_BYTES_PER_ROW_ALIGNMENT)
    }
}

/// The size, in bytes, of the host buffer a readback of a `width` by
/// `height` target needs once every row is padded to the device alignment.
pub fn get_aligned_size(width: u32, height: u32, pixel_size: u32) -> (r: u32)
    requires
        width * pixel_size + 255 <= u32::MAX,
        height * spec_align((width * pixel_size) as int) <= u32::MAX,
    ensures
        r as int == height * spec_align((width * pixel_size) as int),
{
    let row = align_byte_size(width * pixel_size);
    height * row
}

/// The padded bytes-per-row value a texture-to-buffer copy must be laid out
/// with: needed (and non-zero) only when the copy has more than one row.
pub fn layout_data(width: u32, height: u32, format: TextureFormat) -> (r: Option<u32>)
    requires
        width * format.spec_pixel_size() + 255 <= u32::MAX,
    ensures
        match r {
            Some(row) => height > 1 && row as int == spec_align(
                (width * format.spec_pixel_size()) as int,
            ) && row > 0,
            None => height <= 1 || spec_align((width * format.spec_pixel_size()) as int) == 0,
        },
{
    if height > 1 {
        let row = align_byte_size(width * format.pixel_size());
        if row > 0 {
            Some(row)
        } else {
            None
        }
    } else {
        None
    }
}

/// The payload of a padded readback buffer: each row's first
/// `width * pixel_size` bytes, with the alignment filler stripped.
pub open spec fn spec_depad(
    data: Seq<u8>,
    row_bytes: int,
    padded_row: int,
    height: int,
) -> Seq<u8> {
    Seq::new(
        (height * row_bytes) as nat,
        |idx: int| data[(idx / row_bytes) * padded_row + idx % row_bytes],
    )
}

/// Strips device row padding from a readback buffer: of every padded row,
/// only the payload prefix is kept, so the result holds exactly
/// `width * height * pixel_size` bytes whatever alignment the device imposed.
pub fn trim_row_padding(
    data: &Vec<u8>,
    width: u32,
    height: u32,
    pixel_size: u32,
    padded_row: u32,
) -> (r: Vec<u8>)
    requires
        width * pixel_size <= padded_row,
        data@.len() == height * padded_row,
    ensures
        r@.len() == width * pixel_size * height,
        r@ == spec_depad(data@, (width * pixel_size) as int, padded_row as int, height as int),
{
    proof {
        assert(width * pixel_size <= u32::MAX) by (nonlinear_arith)
            requires width * pixel_size <= padded_row, padded_row <= u32::MAX;
    }
    let rb: u32 = width * pixel_size;
    let rb_us: usize = rb as usize;
    let pr_us: usize = padded_row as usize;
    let h_us: usize = height as usize;
    let data_len: usize = data.len();
    let ghost rbi: int = rb as int;
    let ghost pri: int = padded_row as int;
    let mut out: Vec<u8> = Vec::new();
    let mut row: usize = 0;
    while row < h_us
        invariant
            rb == width * pixel_size,
            rb <= padded_row,
            rb_us == rb && pr_us == padded_row && h_us == height,
            rbi == rb as int && pri == padded_row as int,
            data@.len() == height * pri,
            data@.len() == data_len,
            row <= h_us,
            out@.len() == row * rbi,
            forall|j: int|
                0 <= j < out@.len() ==> out@[j] == data@[(j / rbi) * pri + j % rbi],
        decreases h_us - row,
    {
        proof {
            assert(row * rbi <= row * pri && row * pri + pri <= height * pri) by (nonlinear_arith)
                requires rbi <= pri, 0 <= row, row < height, 0 <= rbi;
            assert(row * pri + pri <= data@.len());
        }
        let base: usize = row * pr_us;
        let mut i: usize = 0;
        while i < rb_us
            invariant
                rb_us == rb && pr_us == padded_row,
                rbi == rb as int && pri == padded_row as int,
                rbi <= pri,
                data@.len() == height * pri,
                data@.len() == data_len,
                row < height,
                base == row * pri,
                base + pri <= data@.len(),
                i <= rb_us,
                out@.len() == row * rbi + i,
                forall|j: int|
                    0 <= j < out@.len() ==> out@[j] == data@[(j / rbi) * pri + j % rbi],
            decreases rb_us - i,
        {
            out.push(data[base + i]);
            proof {
                let j = out@.len() - 1;
                assert(j == row * rbi + i);
                assert(j / rbi == row && j % rbi == i) by (nonlinear_arith)
                    requires j == row * rbi + i, 0 <= i < rbi, 0 <= row;
                assert(out@[j] == data@[(j / rbi) * pri + j % rbi]);
            }
            i = i + 1;
        }
        proof {
            assert((row + 1) * rbi == row * rbi + rbi) by (nonlinear_arith);
        }
        row = row + 1;
    }
    proof {
        assert(out@.len() == height * rbi);
        assert(height * rbi == width * pixel_size * height) by (nonlinear_arith)
            requires rbi == width * pixel_size;
        assert(out@ =~= spec_depad(data@, rbi, pri, height as int));
    }
    out
}

/// Moves one recorder's freshly read-back frame into its handoff slot,
/// stripping any device row padding first, so that the payload handed to the
/// simulation phase always holds exactly `width * height * pixel_size`
/// bytes.  A slot that was torn down in the meantime drops the frame
/// silently; a frame already pending is overwritten (most-recent-wins).
pub fn smuggle_frame(
    smuggler: &mut DataSmuggler,
    id: RecorderID,
    data: Vec<u8>,
    width: u32,
    height: u32,
    format: TextureFormat,
) -> (stored: bool)
    requires
        old(smuggler).wf(),
        width * format.spec_pixel_size() + 255 <= u32::MAX,
        data@.len() == height * spec_align((width * format.spec_pixel_size()) as int),
    ensures
        final(smuggler).wf(),
        stored == old(smuggler).spec_has_slot(id),
        final(smuggler).0.entries@.len() == old(smuggler).0.entries@.len(),
        forall|i: int|
            0 <= i < old(smuggler).0.entries@.len() ==> {
                let pre = #[trigger] old(smuggler).0.entries@[i];
                let post = final(smuggler).0.entries@[i];
                &&& post.0 == pre.0
                &&& post.1.target_handle == pre.1.target_handle
                &&& (pre.0 != id ==> post.1.last_frame == pre.1.last_frame)
            },
        old(smuggler).spec_has_slot(id) ==> {
            let post = final(smuggler).0.entries@[key_at(old(smuggler).0.entries@, id)];
            &&& post.1.last_frame is Some
            &&& post.1.last_frame->0@ == spec_depad(
                data@,
                (width * format.spec_pixel_size()) as int,
                spec_align((width * format.spec_pixel_size()) as int),
                height as int,
            )
        },
{
    let row_bytes = width * format.pixel_size();
    let padded_row = align_byte_size(row_bytes);
    let payload: Vec<u8> = if row_bytes == padded_row {
        proof {
            let rbi = row_bytes as int;
            let target = spec_depad(data@, rbi, rbi, height as int);
            assert forall|idx: int| 0 <= idx < height * rbi implies target[idx] == data@[idx] by {
                assert((idx / rbi) * rbi + idx % rbi == idx) by (nonlinear_arith)
                    requires rbi > 0;
            }
            assert(data@ =~= target);
        }
        data
    } else {
        trim_row_padding(&data, width, height, format.pixel_size(), padded_row)
    };
    match smuggler.0.find_index(id) {
        Some(i) => {
            proof {
                crate::data::lemma_key_at_is_index(smuggler.0.entries@, id, i as int);
            }
            let e = &mut smuggler.0.entries[i];
            e.1.last_frame = Some(payload);
            true
        },
        None => false,
    }
}

} // verus!
