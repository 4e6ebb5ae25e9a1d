//! Alignment: where a span of columns starts inside a wider area.

use vstd::prelude::*;
use crate::plane::NcPlane;

verus! {

/// How a span of columns is aligned within an available width.
#[derive(Debug, Clone, Copy, PartialEq, Eq, Structural)]
pub enum NcAlign {
    /// Flush with the left edge.
    Left,
    /// Centred, the excess split evenly (the odd column going right).
    Center,
    /// Flush with the right edge.
    Right,
    /// No alignment: not a valid request.
    Unaligned,
}

/// The column at which `cols` columns ought to start in order to be aligned
/// according to `align` within `availcols` columns. A span no narrower than
/// the available width starts at column zero; an invalid alignment yields
/// the maximum sentinel value.
pub fn notcurses_align(availcols: usize, align: NcAlign, cols: usize) -> (column: usize)
    ensures
        align == NcAlign::Left ==> column == 0,
        align == NcAlign::Center ==> column as int == (if cols >= availcols {
            0
        } else {
            (availcols - cols) / 2
        }),
        align == NcAlign::Right ==> column as int == (if cols >= availcols {
            0
        } else {
            availcols - cols
        }),
        align == NcAlign::Unaligned ==> column == usize::MAX,
{
    match align {
        NcAlign::Left => 0,
        NcAlign::Center => if cols >= availcols {
            0
        } else {
            (availcols - cols) / 2
        },
        NcAlign::Right => if cols >= availcols {
            0
        } else {
            availcols - cols
        },
        NcAlign::Unaligned => usize::MAX,
    }
}

/// The column at which `cols` columns ought to start in order to be aligned
/// according to `align` within the plane.
pub fn ncplane_align(plane: &NcPlane, align: NcAlign, cols: usize) -> (column: usize)
    ensures
        align == NcAlign::Left ==> column == 0,
        align == NcAlign::Center ==> column as int == (if cols >= plane.cols() {
            0
        } else {
            (plane.cols() - cols) / 2
        }),
        align == NcAlign::Right ==> column as int == (if cols >= plane.cols() {
            0
        } else {
            plane.cols() - cols
        }),
        align == NcAlign::Unaligned ==> column == usize::MAX,
{
    notcurses_align(plane.dim_x(), align, cols)
}

} // verus!
