//! A picture repeated over a rectangle, tile by tile.

use crate::geometry::Rect;
use crate::geometry::SCREEN;
use vstd::prelude::*;

verus! {

/// The size of the picture that fills the break bands, in pixels.
#[derive(Clone, Copy, Debug, PartialEq, Eq, Structural)]
pub struct TextureSize {
    pub width: u32,
    pub height: u32,
}

/// The tile of column `column` and row `row` where a picture is repeated
/// over `rect`, cut to `width` by `height` pixels.
pub open spec fn tile_at(
    rect: Rect,
    texture: TextureSize,
    column: int,
    row: int,
    width: int,
    height: int,
) -> Rect {
    Rect {
        left: (rect.left + column * texture.width) as i64,
        top: (rect.top + row * texture.height) as i64,
        width: width as i64,
        height: height as i64,
    }
}

/// The whole tiles of column `column`, from the top down.
pub open spec fn whole_tiles_of_column(rect: Rect, texture: TextureSize, column: int) -> Seq<Rect> {
    Seq::new(
        ((rect.height as int) / (texture.height as int)) as nat,
        |row: int| tile_at(rect, texture, column, row, texture.width as int, texture.height as int),
    )
}

/// The whole tiles of the first `columns` columns, column by column.
pub open spec fn whole_tiles(rect: Rect, texture: TextureSize, columns: nat) -> Seq<Rect>
    decreases columns,
{
    if columns == 0 {
        Seq::empty()
    } else {
        whole_tiles(rect, texture, (columns - 1) as nat) + whole_tiles_of_column(
            rect,
            texture,
            columns - 1,
        )
    }
}

/// The tiles that repeat a picture of the size `texture` over `rect`: the
/// whole tiles column by column, then what is left at the right edge, row
/// by row, then what is left at the lower edge, column by column, then the
/// corner. Over a rectangle of no width or no height the tiles have no size
/// either. None where the picture has no size or the rectangle has a width
/// or a height below zero.
pub open spec fn tiles_of(rect: Rect, texture: TextureSize) -> Seq<Rect> {
    if texture.width == 0 || texture.height == 0 || rect.width < 0 || rect.height < 0 {
        Seq::empty()
    } else {
        let columns = (rect.width as int) / (texture.width as int);
        let rows = (rect.height as int) / (texture.height as int);
        let right = (rect.width as int) % (texture.width as int);
        let below = (rect.height as int) % (texture.height as int);
        whole_tiles(rect, texture, columns as nat) + Seq::new(
            rows as nat,
            |row: int| tile_at(rect, texture, columns, row, right, texture.height as int),
        ) + Seq::new(
            columns as nat,
            |column: int| tile_at(rect, texture, column, rows, texture.width as int, below),
        ) + seq![tile_at(rect, texture, columns, rows, right, below)]
    }
}

/// Whether a picture of the size `texture` has tiles over `rect`: the
/// picture has a width and a height, and those of the rectangle are not
/// below zero.
pub open spec fn has_tiles(rect: Rect, texture: TextureSize) -> bool {
    texture.width > 0 && texture.height > 0 && rect.width >= 0 && rect.height >= 0
}

/// The number of whole tiles side by side.
pub open spec fn whole_columns(rect: Rect, texture: TextureSize) -> int {
    (rect.width as int) / (texture.width as int)
}

/// The number of whole tiles one above the other.
pub open spec fn whole_rows(rect: Rect, texture: TextureSize) -> int {
    (rect.height as int) / (texture.height as int)
}

/// The tile of column `column` and row `row` of the grid of tiles: a whole
/// tile, or what is left of one in the column after the last whole column
/// and in the row after the last whole row.
pub open spec fn grid_tile(rect: Rect, texture: TextureSize, column: int, row: int) -> Rect {
    tile_at(
        rect,
        texture,
        column,
        row,
        if column < whole_columns(rect, texture) {
            texture.width as int
        } else {
            (rect.width as int) % (texture.width as int)
        },
        if row < whole_rows(rect, texture) {
            texture.height as int
        } else {
            (rect.height as int) % (texture.height as int)
        },
    )
}

/// Where the tile of column `column` and row `row` stands among the tiles.
pub open spec fn grid_index(rect: Rect, texture: TextureSize, column: int, row: int) -> int {
    let columns = whole_columns(rect, texture);
    let rows = whole_rows(rect, texture);
    if column < columns && row < rows {
        column * rows + row
    } else if row < rows {
        columns * rows + row
    } else if column < columns {
        columns * rows + rows + column
    } else {
        columns * rows + rows + columns
    }
}

/// Whether the point `x`, `y` lies in `tile`.
pub open spec fn holds_point(tile: Rect, x: int, y: int) -> bool {
    tile.left <= x < tile.left + tile.width && tile.top <= y < tile.top + tile.height
}

/// How many whole tiles the first `columns` columns have, and where each of
/// them stands.
proof fn lemma_whole_tiles(rect: Rect, texture: TextureSize, columns: nat, column: int, row: int)
    requires
        has_tiles(rect, texture),
    ensures
        whole_tiles(rect, texture, columns).len() == columns * whole_rows(rect, texture),
        0 <= column < columns && 0 <= row < whole_rows(rect, texture) ==> {
            &&& 0 <= column * whole_rows(rect, texture) + row < columns * whole_rows(rect, texture)
            &&& whole_tiles(rect, texture, columns)[column * whole_rows(rect, texture) + row]
                == tile_at(
                rect,
                texture,
                column,
                row,
                texture.width as int,
                texture.height as int,
            )
        },
    decreases columns,
{
    let rows = whole_rows(rect, texture);
    vstd::arithmetic::div_mod::lemma_div_pos_is_pos(rect.height as int, texture.height as int);
    if columns > 0 {
        lemma_whole_tiles(rect, texture, (columns - 1) as nat, column, row);
        assert(columns * rows == (columns - 1) * rows + rows) by (nonlinear_arith);
        if 0 <= column < columns && 0 <= row < rows {
            assert(0 <= column * rows + row < columns * rows) by (nonlinear_arith)
                requires
                    0 <= column < columns,
                    0 <= row < rows,
            ;
            if column == columns - 1 {
                assert(whole_tiles_of_column(rect, texture, columns - 1)[row] == tile_at(
                    rect,
                    texture,
                    column,
                    row,
                    texture.width as int,
                    texture.height as int,
                ));
            }
        }
    } else {
        assert(0 * rows == 0);
    }
}

/// The tiles form a grid: one more column than there are whole columns, one
/// more row than there are whole rows, and in each place of the grid its
/// tile.
pub proof fn lemma_tiles_form_a_grid(rect: Rect, texture: TextureSize, column: int, row: int)
    requires
        has_tiles(rect, texture),
        0 <= column <= whole_columns(rect, texture),
        0 <= row <= whole_rows(rect, texture),
    ensures
        tiles_of(rect, texture).len() == (whole_columns(rect, texture) + 1) * (whole_rows(
            rect,
            texture,
        ) + 1),
        0 <= grid_index(rect, texture, column, row) < tiles_of(rect, texture).len(),
        tiles_of(rect, texture)[grid_index(rect, texture, column, row)] == grid_tile(
            rect,
            texture,
            column,
            row,
        ),
{
    let columns = whole_columns(rect, texture);
    let rows = whole_rows(rect, texture);
    vstd::arithmetic::div_mod::lemma_div_pos_is_pos(rect.width as int, texture.width as int);
    vstd::arithmetic::div_mod::lemma_div_pos_is_pos(rect.height as int, texture.height as int);
    lemma_whole_tiles(rect, texture, columns as nat, column, row);
    assert((columns + 1) * (rows + 1) == columns * rows + rows + columns + 1) by (nonlinear_arith);
    assert(0 <= columns * rows) by (nonlinear_arith)
        requires
            0 <= columns,
            0 <= rows,
    ;
}

/// Each point of the rectangle lies in one tile and in no other: in the
/// tile of the column and the row that the widths and the heights of the
/// picture before it count.
pub proof fn lemma_each_point_has_its_tile(
    rect: Rect,
    texture: TextureSize,
    x: int,
    y: int,
    column: int,
    row: int,
)
    requires
        has_tiles(rect, texture),
        rect.is_within(16 * SCREEN),
        rect.left <= x < rect.left + rect.width,
        rect.top <= y < rect.top + rect.height,
        0 <= column <= whole_columns(rect, texture),
        0 <= row <= whole_rows(rect, texture),
    ensures
        holds_point(grid_tile(rect, texture, column, row), x, y) <==> column == (x - rect.left) / (
        texture.width as int) && row == (y - rect.top) / (texture.height as int),
        0 <= (x - rect.left) / (texture.width as int) <= whole_columns(rect, texture),
        0 <= (y - rect.top) / (texture.height as int) <= whole_rows(rect, texture),
{
    lemma_place_in_a_row(rect.width as int, texture.width as int, x - rect.left, column);
    lemma_place_in_a_row(rect.height as int, texture.height as int, y - rect.top, row);
}

/// No tile reaches beyond the rectangle, and none is larger than the
/// picture.
pub proof fn lemma_tiles_lie_in_the_rectangle(
    rect: Rect,
    texture: TextureSize,
    column: int,
    row: int,
)
    requires
        has_tiles(rect, texture),
        rect.is_within(16 * SCREEN),
        0 <= column <= whole_columns(rect, texture),
        0 <= row <= whole_rows(rect, texture),
    ensures
        rect.left <= grid_tile(rect, texture, column, row).left,
        rect.top <= grid_tile(rect, texture, column, row).top,
        grid_tile(rect, texture, column, row).left + grid_tile(rect, texture, column, row).width
            <= rect.left + rect.width,
        grid_tile(rect, texture, column, row).top + grid_tile(rect, texture, column, row).height
            <= rect.top + rect.height,
        0 <= grid_tile(rect, texture, column, row).width <= texture.width,
        0 <= grid_tile(rect, texture, column, row).height <= texture.height,
{
    lemma_piece_lies_in_the_row(rect.width as int, texture.width as int, column);
    lemma_piece_lies_in_the_row(rect.height as int, texture.height as int, row);
}

/// In a row of `length` pixels laid with pieces of `piece` pixels, the last
/// of them cut, the piece `index` does not reach beyond the row.
proof fn lemma_piece_lies_in_the_row(length: int, piece: int, index: int)
    requires
        0 < piece,
        0 <= length,
        0 <= index <= length / piece,
    ensures
        0 <= index * piece,
        0 <= length % piece < piece,
        index * piece + (if index < length / piece {
            piece
        } else {
            length % piece
        }) <= length,
{
    let pieces = length / piece;
    vstd::arithmetic::div_mod::lemma_fundamental_div_mod(length, piece);
    vstd::arithmetic::div_mod::lemma_mod_bound(length, piece);
    assert(pieces * piece == piece * pieces) by (nonlinear_arith);
    assert(0 <= index * piece) by (nonlinear_arith)
        requires
            0 <= index,
            0 < piece,
    ;
    if index < pieces {
        assert(index * piece + piece <= pieces * piece) by (nonlinear_arith)
            requires
                index + 1 <= pieces,
                0 < piece,
        ;
    }
}

/// In a row of `length` pixels laid with pieces of `piece` pixels, the last
/// of them cut, the pixel `at` lies in the piece `index` and in no other.
proof fn lemma_place_in_a_row(length: int, piece: int, at: int, index: int)
    requires
        0 < piece,
        0 <= at < length,
        0 <= index <= length / piece,
    ensures
        0 <= at / piece <= length / piece,
        0 <= index * piece <= length,
        0 <= length % piece < piece,
        (index * piece <= at < index * piece + (if index < length / piece {
            piece
        } else {
            length % piece
        })) <==> index == at / piece,
{
    let pieces = length / piece;
    vstd::arithmetic::div_mod::lemma_fundamental_div_mod(length, piece);
    vstd::arithmetic::div_mod::lemma_mod_bound(length, piece);
    vstd::arithmetic::div_mod::lemma_fundamental_div_mod(at, piece);
    vstd::arithmetic::div_mod::lemma_mod_bound(at, piece);
    vstd::arithmetic::div_mod::lemma_div_is_ordered(at, length, piece);
    vstd::arithmetic::div_mod::lemma_div_pos_is_pos(at, piece);
    assert(index * piece == piece * index) by (nonlinear_arith);
    assert(0 <= index * piece <= pieces * piece) by (nonlinear_arith)
        requires
            0 <= index <= pieces,
            0 < piece,
    ;
    assert(pieces * piece == piece * pieces) by (nonlinear_arith);
    let found = at / piece;
    if index * piece <= at < index * piece + piece {
        vstd::arithmetic::div_mod::lemma_fundamental_div_mod_converse(
            at,
            piece,
            index,
            at - index * piece,
        );
    }
}

/// The tile of column `column` and row `row`.
fn tile_in(rect: Rect, texture: TextureSize, column: i64, row: i64, width: i64, height: i64) -> (r:
    Rect)
    requires
        rect.is_within(16 * SCREEN),
        texture.width > 0 && texture.height > 0,
        0 <= column <= rect.width / (texture.width as i64),
        0 <= row <= rect.height / (texture.height as i64),
    ensures
        r == tile_at(rect, texture, column as int, row as int, width as int, height as int),
{
    let w = texture.width as i64;
    let h = texture.height as i64;
    proof {
        vstd::arithmetic::div_mod::lemma_fundamental_div_mod(rect.width as int, w as int);
        vstd::arithmetic::div_mod::lemma_fundamental_div_mod(rect.height as int, h as int);
        vstd::arithmetic::div_mod::lemma_mod_bound(rect.width as int, w as int);
        vstd::arithmetic::div_mod::lemma_mod_bound(rect.height as int, h as int);
        assert(0 <= column * w <= rect.width) by (nonlinear_arith)
            requires
                0 <= column <= rect.width / w,
                rect.width == w * (rect.width / w) + rect.width % w,
                0 <= rect.width % w,
                w > 0,
        ;
        assert(0 <= row * h <= rect.height) by (nonlinear_arith)
            requires
                0 <= row <= rect.height / h,
                rect.height == h * (rect.height / h) + rect.height % h,
                0 <= rect.height % h,
                h > 0,
        ;
    }
    Rect { left: rect.left + column * w, top: rect.top + row * h, width, height }
}

/// The tiles that repeat a picture over `rect`, or `None` where there is no
/// picture and the rectangle is filled with one colour. No edge and no size
/// of `rect` may pass sixteen times [`SCREEN`], so that the places of the
/// tiles can be counted.
pub fn draw_repeating_texture(texture: Option<TextureSize>, rect: Rect) -> (r: Option<Vec<Rect>>)
    requires
        rect.is_within(16 * SCREEN),
    ensures
        match texture {
            Some(size) => r matches Some(tiles) && tiles@ == tiles_of(rect, size),
            None => r is None,
        },
{
    let texture = match texture {
        Some(size) => size,
        None => { return None; },
    };
    let mut tiles: Vec<Rect> = Vec::new();
    if texture.width == 0 || texture.height == 0 || rect.width < 0 || rect.height < 0 {
        return Some(tiles);
    }
    let w = texture.width as i64;
    let h = texture.height as i64;
    let columns: i64 = rect.width / w;
    let rows: i64 = rect.height / h;
    let right: i64 = rect.width % w;
    let below: i64 = rect.height % h;
    let mut column: i64 = 0;
    while column < columns
        invariant
            0 <= column <= columns,
            rect.is_within(16 * SCREEN),
            texture.width > 0 && texture.height > 0,
            w == texture.width,
            h == texture.height,
            columns == rect.width / w,
            rows == rect.height / h,
            0 <= rows,
            tiles@ == whole_tiles(rect, texture, column as nat),
        decreases columns - column,
    {
        let ghost before = tiles@;
        let mut row: i64 = 0;
        while row < rows
            invariant
                0 <= row <= rows,
                0 <= column < columns,
                rect.is_within(16 * SCREEN),
                texture.width > 0 && texture.height > 0,
                w == texture.width,
                h == texture.height,
                columns == rect.width / w,
                rows == rect.height / h,
                tiles@ == before + whole_tiles_of_column(rect, texture, column as int).take(
                    row as int,
                ),
            decreases rows - row,
        {
            tiles.push(tile_in(rect, texture, column, row, w, h));
            row += 1;
        }
        assert(whole_tiles_of_column(rect, texture, column as int).take(rows as int)
            == whole_tiles_of_column(rect, texture, column as int));
        column += 1;
    }
    let ghost whole = tiles@;
    let ghost right_edge = Seq::new(
        rows as nat,
        |row: int| tile_at(rect, texture, columns as int, row, right as int, h as int),
    );
    let mut row: i64 = 0;
    while row < rows
        invariant
            0 <= row <= rows,
            0 <= columns,
            rect.is_within(16 * SCREEN),
            texture.width > 0 && texture.height > 0,
            w == texture.width,
            h == texture.height,
            columns == rect.width / w,
            rows == rect.height / h,
            right_edge == Seq::new(
                rows as nat,
                |row: int| tile_at(rect, texture, columns as int, row, right as int, h as int),
            ),
            tiles@ == whole + right_edge.take(row as int),
        decreases rows - row,
    {
        tiles.push(tile_in(rect, texture, columns, row, right, h));
        row += 1;
    }
    let ghost lower_edge = Seq::new(
        columns as nat,
        |column: int| tile_at(rect, texture, column, rows as int, w as int, below as int),
    );
    let mut column: i64 = 0;
    while column < columns
        invariant
            0 <= column <= columns,
            0 <= rows,
            rect.is_within(16 * SCREEN),
            texture.width > 0 && texture.height > 0,
            w == texture.width,
            h == texture.height,
            columns == rect.width / w,
            rows == rect.height / h,
            lower_edge == Seq::new(
                columns as nat,
                |column: int| tile_at(rect, texture, column, rows as int, w as int, below as int),
            ),
            tiles@ == whole + right_edge + lower_edge.take(column as int),
        decreases columns - column,
    {
        tiles.push(tile_in(rect, texture, column, rows, w, below));
        column += 1;
    }
    tiles.push(tile_in(rect, texture, columns, rows, right, below));
    Some(tiles)
}

} // verus!
