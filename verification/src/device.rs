//! Helpers for moving pixel rows between a device buffer and host memory.

use vstd::prelude::*;

verus! {

/// The least multiple of 256 that is at least `n`.
pub open spec fn padded_to_256(n: int) -> int {
    ((n + 255) / 256) * 256
}

/// Rounds `n` up to the next multiple of 256.
#[inline]
pub fn pad_to_multiple_of_256(n: u32) -> (r: u32)
    requires
        n <= u32::MAX - 255,
    ensures
        r == padded_to_256(n as int),
        r % 256 == 0,
        n <= r < n + 256,
{
    let r: u32 = (n + 255) & !255;
    assert(((n + 255) as u32) & !255u32 == (((n + 255) as u32) / 256) * 256) by (bit_vector);
    r
}

/// The rows of an image, one after another, taken out of a buffer in which
/// every row starts `pitch` bytes after the one before it.
pub open spec fn unpadded(data: Seq<u8>, row_len: nat, pitch: nat, rows: nat) -> Seq<u8>
    decreases rows,
{
    if rows == 0 {
        Seq::empty()
    } else {
        unpadded(data, row_len, pitch, (rows - 1) as nat) + data.subrange(
            (rows - 1) * pitch,
            (rows - 1) * pitch + row_len,
        )
    }
}

/// Without padding an image has `row_len` bytes for each of its rows.
pub proof fn lemma_unpadded_len(data: Seq<u8>, row_len: nat, pitch: nat, rows: nat)
    requires
        rows == 0 || (rows - 1) * pitch + row_len <= data.len(),
    ensures
        unpadded(data, row_len, pitch, rows).len() == rows * row_len,
    decreases rows,
{
    if rows > 0 {
        assert(rows == 1 || (rows - 2) * pitch + row_len <= data.len()) by (nonlinear_arith)
            requires
                rows >= 1,
                (rows - 1) * pitch + row_len <= data.len(),
        ;
        lemma_unpadded_len(data, row_len, pitch, (rows - 1) as nat);
        assert((rows - 1) * row_len + row_len == rows * row_len) by (nonlinear_arith);
        assert(0 <= (rows - 1) * pitch) by (nonlinear_arith)
            requires
                rows >= 1,
        ;
    }
}

/// Copies the rows of an image out of a buffer that was read back from a
/// device, leaving out the padding at the end of every row.
pub fn strip_row_padding(data: &[u8], row_len: usize, pitch: usize, rows: usize) -> (out: Vec<u8>)
    requires
        rows == 0 || (rows - 1) * pitch + row_len <= data@.len(),
    ensures
        out@ == unpadded(data@, row_len as nat, pitch as nat, rows as nat),
        out@.len() == rows * row_len,
{
    proof {
        lemma_unpadded_len(data@, row_len as nat, pitch as nat, rows as nat);
    }
    let total: usize = data.len();
    let mut out: Vec<u8> = Vec::new();
    let mut row: usize = 0;
    while row < rows
        invariant
            row <= rows,
            total == data@.len(),
            rows == 0 || (rows - 1) * pitch + row_len <= data@.len(),
            out@ == unpadded(data@, row_len as nat, pitch as nat, row as nat),
        decreases rows - row,
    {
        proof {
            assert(0 <= row * pitch <= (rows - 1) * pitch) by (nonlinear_arith)
                requires
                    0 <= row <= rows - 1,
                    0 <= pitch,
            ;
        }
        let start: usize = row * pitch;
        let ghost done = out@;
        let mut column: usize = 0;
        while column < row_len
            invariant
                column <= row_len,
                total == data@.len(),
                start == row * pitch,
                start + row_len <= data@.len(),
                out@ == done + data@.subrange(start as int, start + column),
            decreases row_len - column,
        {
            out.push(data[start + column]);
            column += 1;
        }
        row += 1;
    }
    out
}

/// A positive number with a single bit set.
pub open spec fn is_power_of_two(n: u64) -> bool {
    n != 0 && n & ((n - 1) as u64) == 0
}

/// The least power of two that is at least `x`.
pub fn round_up_power_two(x: usize) -> (r: usize)
    requires
        1 <= x <= usize::MAX / 2 + 1,
    ensures
        is_power_of_two(r as u64),
        x <= r,
        r / 2 < x,
{
    let mut v: u64 = x as u64;
    let ghost n: u64 = v;
    v = v - 1;
    v = v | (v >> 1);
    v = v | (v >> 2);
    v = v | (v >> 4);
    v = v | (v >> 8);
    v = v | (v >> 16);
    v = v | (v >> 32);
    assert(v < 0xFFFF_FFFF_FFFF_FFFF && is_power_of_two((v + 1) as u64) && n <= v + 1 && (v + 1)
        / 2 < n) by (bit_vector)
        requires
            1 <= n <= 0x8000_0000_0000_0000,
            ({
                let a = (n - 1) as u64;
                let b = a | (a >> 1);
                let c = b | (b >> 2);
                let d = c | (c >> 4);
                let e = d | (d >> 8);
                let f = e | (e >> 16);
                v == f | (f >> 32)
            }),
    ;
    v = v + 1;
    v as usize
}

} // verus!
