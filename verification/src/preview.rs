//! A picture of the modules that were read, for a person to look at: the
//! three finder patterns are drawn afresh over what was sampled, and a white
//! border of one module goes around the code.

use crate::decoder::{lemma_module_index, ModulesView, QrModules};
use vstd::prelude::*;

verus! {

/// The value at row `r`, column `c` after a finder pattern is drawn with its
/// corner at (`row`, `col`): a dark square of three modules, in a light ring,
/// in a dark ring of seven modules, with a light strip of an eighth module
/// below and to the right; elsewhere what was there.
pub open spec fn finder_stamp(row: int, col: int, r: int, c: int, under: u8) -> u8 {
    if row + 2 <= r < row + 5 && col + 2 <= c < col + 5 {
        0
    } else if row + 1 <= r < row + 6 && col + 1 <= c < col + 6 {
        255
    } else if row <= r < row + 7 && col <= c < col + 7 {
        0
    } else if row <= r < row + 8 && col <= c < col + 8 {
        255
    } else {
        under
    }
}

/// The module at row `r`, column `c` once the finder patterns are drawn: at
/// the top left, then at the bottom left, then at the top right.
pub open spec fn with_finders(modules: ModulesView, r: int, c: int) -> u8 {
    let side = modules.side as int;
    finder_stamp(
        0,
        side - 7,
        r,
        c,
        finder_stamp(
            side - 7,
            0,
            r,
            c,
            finder_stamp(0, 0, r, c, modules.data[r * side + c]),
        ),
    )
}

/// The grey value of the picture at row `row`, column `col`: white on the
/// border, and inside it the module one up and one to the left.
pub open spec fn preview_value(modules: ModulesView, row: int, col: int) -> u8 {
    if 1 <= row <= modules.side && 1 <= col <= modules.side {
        with_finders(modules, row - 1, col - 1)
    } else {
        255
    }
}

/// Whether `pixels` is the picture of `modules`: rows of `side + 2` pixels
/// from the top, three equal bytes for each pixel.
pub open spec fn is_preview_of(pixels: Seq<u8>, modules: ModulesView) -> bool {
    let width = modules.side + 2;
    &&& pixels.len() == 3 * (width * width)
    &&& forall|row: int, col: int, channel: int|
        0 <= row < width && 0 <= col < width && 0 <= channel < 3 ==> #[trigger] pixels[3 * (row
            * width + col) + channel] == preview_value(modules, row, col)
}

/// Draws one finder pattern over a value.
fn stamp(row: u32, col: u32, r: u32, c: u32, under: u8) -> (value: u8)
    requires
        row <= 177,
        col <= 177,
    ensures
        value == finder_stamp(row as int, col as int, r as int, c as int, under),
{
    if row + 2 <= r && r < row + 5 && col + 2 <= c && c < col + 5 {
        0
    } else if row + 1 <= r && r < row + 6 && col + 1 <= c && c < col + 6 {
        255
    } else if row <= r && r < row + 7 && col <= c && c < col + 7 {
        0
    } else if row <= r && r < row + 8 && col <= c && c < col + 8 {
        255
    } else {
        under
    }
}

/// The side of the picture in pixels: that of the code and the border.
pub fn preview_side(modules: &QrModules) -> (width: u32)
    ensures
        width == modules@.side + 2,
{
    modules.side() + 2
}

/// The picture of the modules as RGB bytes.
pub fn preview_pixels(modules: &QrModules) -> (pixels: Vec<u8>)
    ensures
        is_preview_of(pixels@, modules@),
{
    let side = modules.side();
    let data = modules.data();
    let width: u32 = side + 2;
    let mut pixels: Vec<u8> = Vec::new();
    let mut row: u32 = 0;
    while row < width
        invariant
            modules@.wf(),
            side == modules@.side,
            data@ == modules@.data,
            width == side + 2,
            row <= width,
            pixels@.len() == 3 * (row * width),
            forall|r: int, c: int, channel: int|
                0 <= r < row && 0 <= c < width && 0 <= channel < 3 ==> #[trigger] pixels@[3 * (r
                    * width + c) + channel] == preview_value(modules@, r, c),
        decreases width - row,
    {
        let mut col: u32 = 0;
        while col < width
            invariant
                modules@.wf(),
                side == modules@.side,
                data@ == modules@.data,
                width == side + 2,
                row < width,
                col <= width,
                pixels@.len() == 3 * (row * width + col),
                forall|r: int, c: int, channel: int|
                    0 <= r < row && 0 <= c < width && 0 <= channel < 3 ==> #[trigger] pixels@[3
                        * (r * width + c) + channel] == preview_value(modules@, r, c),
                forall|c: int, channel: int|
                    0 <= c < col && 0 <= channel < 3 ==> #[trigger] pixels@[3 * (row * width + c)
                        + channel] == preview_value(modules@, row as int, c),
            decreases width - col,
        {
            let value = if 1 <= row && row <= side && 1 <= col && col <= side {
                let r = row - 1;
                let c = col - 1;
                proof {
                    lemma_module_index(side as int, c as int, r as int);
                    assert(side * side <= 177 * 177) by (nonlinear_arith)
                        requires
                            0 <= side <= 177,
                    ;
                }
                let sampled = data[(r * side + c) as usize];
                stamp(0, side - 7, r, c, stamp(side - 7, 0, r, c, stamp(0, 0, r, c, sampled)))
            } else {
                255
            };
            let ghost before = pixels@;
            pixels.push(value);
            pixels.push(value);
            pixels.push(value);
            proof {
                assert forall|r: int, c: int, channel: int|
                    0 <= r < row && 0 <= c < width && 0 <= channel < 3 implies #[trigger] pixels@[3
                    * (r * width + c) + channel] == preview_value(modules@, r, c) by {
                    assert(r * width + c < row * width) by (nonlinear_arith)
                        requires
                            0 <= r < row,
                            0 <= c < width,
                    ;
                    assert(pixels@[3 * (r * width + c) + channel] == before[3 * (r * width + c)
                        + channel]);
                }
                assert forall|c: int, channel: int|
                    0 <= c < col + 1 && 0 <= channel < 3 implies #[trigger] pixels@[3 * (row
                    * width + c) + channel] == preview_value(modules@, row as int, c) by {
                    if c < col {
                        assert(pixels@[3 * (row * width + c) + channel] == before[3 * (row * width
                            + c) + channel]);
                    }
                }
            }
            col = col + 1;
        }
        proof {
            assert((row + 1) * width == row * width + width) by (nonlinear_arith);
        }
        row = row + 1;
    }
    proof {
        assert(row == width);
    }
    pixels
}

} // verus!
