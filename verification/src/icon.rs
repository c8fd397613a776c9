//! The picture of the icon of the window: from the bytes of a bitmap, which
//! has its rows from the bottom up and its pixels as blue, green, red and
//! alpha, to the bytes that a window takes.

use vstd::prelude::*;

verus! {

/// The bytes of one pixel.
pub const PIXEL: usize = 4;

/// A picture: four bytes for each pixel, row after row from the top.
#[derive(Debug)]
pub struct IconData {
    pub rgba: Vec<u8>,
    pub width: u32,
    pub height: u32,
}

/// The bytes of `pixels` with the first and the third byte of each pixel
/// exchanged. What is left after the last whole pixel exchanges them too
/// where it has three bytes, and else stays.
pub open spec fn red_and_blue_swapped(pixels: Seq<u8>) -> Seq<u8> {
    Seq::new(
        pixels.len(),
        |i: int|
            if i % 4 == 0 && i + 2 < pixels.len() {
                pixels[i + 2]
            } else if i % 4 == 2 {
                pixels[i - 2]
            } else {
                pixels[i]
            },
    )
}

/// The number of whole rows of `row_size` bytes in `length` bytes.
pub open spec fn whole_rows(length: int, row_size: int) -> int {
    if row_size > 0 {
        length / row_size
    } else {
        0
    }
}

/// The bytes of `pixels` with its whole rows of `row_size` bytes in the
/// opposite order: the last row first. What is left after the last whole row
/// stays, and so does everything where a row has no bytes.
pub open spec fn rows_flipped(pixels: Seq<u8>, row_size: int) -> Seq<u8> {
    let rows = whole_rows(pixels.len() as int, row_size);
    Seq::new(
        pixels.len(),
        |i: int|
            if row_size > 0 && i < rows * row_size {
                pixels[(rows - 1 - i / row_size) * row_size + i % row_size]
            } else {
                pixels[i]
            },
    )
}

/// The bytes of `pixels` with the first and the third byte of each pixel
/// exchanged.
pub fn swap_red_and_blue(pixels: &Vec<u8>) -> (r: Vec<u8>)
    ensures
        r@ == red_and_blue_swapped(pixels@),
{
    let mut out: Vec<u8> = Vec::new();
    let mut i: usize = 0;
    while i < pixels.len()
        invariant
            i <= pixels.len(),
            out@ == red_and_blue_swapped(pixels@).take(i as int),
        decreases pixels.len() - i,
    {
        let byte = if i % PIXEL == 0 && pixels.len() - i > 2 {
            pixels[i + 2]
        } else if i % PIXEL == 2 {
            pixels[i - 2]
        } else {
            pixels[i]
        };
        out.push(byte);
        i += 1;
    }
    assert(red_and_blue_swapped(pixels@).take(pixels.len() as int) == red_and_blue_swapped(
        pixels@,
    ));
    out
}

/// Where the byte `i` of the flipped rows comes from.
proof fn lemma_source_is_within(length: int, row_size: int, i: int)
    requires
        row_size > 0,
        0 <= i < (length / row_size) * row_size,
        0 <= length,
    ensures
        0 <= i / row_size < length / row_size,
        0 <= i % row_size < row_size,
        0 <= (length / row_size - 1 - i / row_size) * row_size + i % row_size < (length
            / row_size) * row_size,
        (length / row_size) * row_size <= length,
{
    let rows = length / row_size;
    let row = i / row_size;
    let column = i % row_size;
    vstd::arithmetic::div_mod::lemma_fundamental_div_mod(i, row_size);
    vstd::arithmetic::div_mod::lemma_mod_bound(i, row_size);
    vstd::arithmetic::div_mod::lemma_fundamental_div_mod(length, row_size);
    vstd::arithmetic::div_mod::lemma_mod_bound(length, row_size);
    assert(rows * row_size == row_size * rows) by (nonlinear_arith);
    assert(0 <= row) by (nonlinear_arith)
        requires
            i == row_size * row + column,
            0 <= i,
            column < row_size,
            row_size > 0,
    ;
    assert(row < rows) by (nonlinear_arith)
        requires
            i == row_size * row + column,
            i < rows * row_size,
            0 <= column,
            row_size > 0,
    ;
    assert(0 <= (rows - 1 - row) * row_size <= (rows - 1) * row_size) by (nonlinear_arith)
        requires
            0 <= row < rows,
            row_size > 0,
    ;
    assert((rows - 1) * row_size == rows * row_size - row_size) by (nonlinear_arith);
}

/// The bytes of `pixels` with its whole rows of `row_size` bytes in the
/// opposite order.
pub fn flip_rows(pixels: &Vec<u8>, row_size: usize) -> (r: Vec<u8>)
    ensures
        r@ == rows_flipped(pixels@, row_size as int),
{
    let mut out: Vec<u8> = Vec::new();
    let rows: usize = if row_size > 0 {
        pixels.len() / row_size
    } else {
        0
    };
    let mut i: usize = 0;
    while i < pixels.len()
        invariant
            i <= pixels.len(),
            rows == whole_rows(pixels.len() as int, row_size as int),
            out@ == rows_flipped(pixels@, row_size as int).take(i as int),
        decreases pixels.len() - i,
    {
        let byte = if row_size > 0 && i / row_size < rows {
            proof {
                vstd::arithmetic::div_mod::lemma_fundamental_div_mod(i as int, row_size as int);
                vstd::arithmetic::div_mod::lemma_mod_bound(i as int, row_size as int);
                assert(i < rows * row_size) by (nonlinear_arith)
                    requires
                        i == row_size * (i / row_size) + i % row_size,
                        i % row_size < row_size,
                        i / row_size < rows,
                        row_size > 0,
                ;
                lemma_source_is_within(pixels.len() as int, row_size as int, i as int);
            }
            pixels[(rows - 1 - i / row_size) * row_size + i % row_size]
        } else {
            proof {
                if row_size > 0 {
                    vstd::arithmetic::div_mod::lemma_fundamental_div_mod(i as int, row_size as int);
                    vstd::arithmetic::div_mod::lemma_mod_bound(i as int, row_size as int);
                    assert(i >= rows * row_size) by (nonlinear_arith)
                        requires
                            i == row_size * (i / row_size) + i % row_size,
                            0 <= i % row_size,
                            i / row_size >= rows,
                            row_size > 0,
                            rows >= 0,
                    ;
                }
            }
            pixels[i]
        };
        out.push(byte);
        i += 1;
    }
    assert(rows_flipped(pixels@, row_size as int).take(pixels.len() as int) == rows_flipped(
        pixels@,
        row_size as int,
    ));
    out
}

/// The picture that the bytes of a bitmap of `width` by `height` pixels
/// give: red and blue exchanged in each pixel, and the rows from the top.
pub fn icon_from_bitmap(bitmap: &Vec<u8>, width: u32, height: u32) -> (r: IconData)
    ensures
        r.rgba@ == rows_flipped(red_and_blue_swapped(bitmap@), width * PIXEL),
        r.width == width,
        r.height == height,
{
    let swapped = swap_red_and_blue(bitmap);
    let row_size: u64 = (width as u64) * (PIXEL as u64);
    if row_size > usize::MAX as u64 {
        proof {
            assert(swapped@.len() == swapped.len());
            lemma_rows_longer_than_the_picture(swapped@, row_size as int);
        }
        return IconData { rgba: swapped, width, height };
    }
    IconData { rgba: flip_rows(&swapped, row_size as usize), width, height }
}

/// A picture shorter than one row has no rows to flip.
proof fn lemma_rows_longer_than_the_picture(pixels: Seq<u8>, row_size: int)
    requires
        row_size > pixels.len(),
    ensures
        rows_flipped(pixels, row_size) == pixels,
{
    vstd::arithmetic::div_mod::lemma_basic_div(pixels.len() as int, row_size);
    assert(0 * row_size == 0);
}

} // verus!
