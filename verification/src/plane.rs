//! Planes: rectangular, resizable grids of cells.
//!
//! A plane owns a two-dimensional array of cells (stored row-major), a
//! cursor, and a channel/style context used by operations that do not bring
//! their own styling. All operations are direct mutations guarded only by
//! bounds checks; a plane has no internal mode state.
//!
//! The cursor may rest one past the last column or row (after a line drawn
//! to an edge); a write or read at such a position fails with
//! `OutOfBounds`.

use vstd::prelude::*;
use vstd::arithmetic::mul::lemma_mul_inequality;
use vstd::math::min;
use vstd::string::StrSliceExecFns;
use crate::NcError;
use crate::cell::{blank_cell, NcCell, NcEgc, NcStyleMask};
use crate::channel::{
    channel_alpha, channel_default_p, channel_rgb, channel_r, channel_g, channel_b, bchannel,
    channels_bchannel, channels_bg_alpha, channels_bg_default_p, channels_bg_rgb,
    channels_bg_rgb8, channels_fchannel, channels_fg_alpha, channels_fg_default_p,
    channels_fg_rgb, channels_fg_rgb8, fchannel, grad_channels, gradient_channels,
    lemma_grad_channels_const, NcAlphaBits, NcChannel, NcChannelPair,
};

verus! {

/// The largest number of cells a plane may hold; keeps every cell count
/// and every line length representable in 32 bits.
pub const NCPLANE_MAX_AREA: usize = 0x7fff_ffff;

/// In a row-major grid of `cols` columns, the index of position (`y`, `x`).
pub open spec fn grid_index(cols: int, y: int, x: int) -> int {
    y * cols + x
}

/// Law: a position inside a `rows` by `cols` grid has its index inside the
/// backing array.
pub proof fn lemma_grid_index_bound(rows: int, cols: int, y: int, x: int)
    by (nonlinear_arith)
    requires
        0 <= y < rows,
        0 <= x < cols,
    ensures
        0 <= grid_index(cols, y, x) < rows * cols,
{
}

/// Law: distinct positions of a grid have distinct indices in the backing
/// array.
pub proof fn lemma_grid_index_injective(cols: int, y1: int, x1: int, y2: int, x2: int)
    by (nonlinear_arith)
    requires
        0 <= y1,
        0 <= x1 < cols,
        0 <= y2,
        0 <= x2 < cols,
        y1 != y2 || x1 != x2,
    ensures
        grid_index(cols, y1, x1) != grid_index(cols, y2, x2),
{
}

/// A rectangular grid of cells with a cursor and a channel/style context.
pub struct NcPlane {
    cells: Vec<NcCell>,
    dim_y: usize,
    dim_x: usize,
    cursor_y: usize,
    cursor_x: usize,
    channels: u64,
    stylemask: u32,
}

impl NcPlane {
    /// The grid, row-major.
    pub closed spec fn grid(&self) -> Seq<NcCell> {
        self.cells@
    }

    /// The number of rows.
    pub closed spec fn rows(&self) -> usize {
        self.dim_y
    }

    /// The number of columns.
    pub closed spec fn cols(&self) -> usize {
        self.dim_x
    }

    /// The cursor's row.
    pub closed spec fn cur_y(&self) -> usize {
        self.cursor_y
    }

    /// The cursor's column.
    pub closed spec fn cur_x(&self) -> usize {
        self.cursor_x
    }

    /// The plane's channel context.
    pub closed spec fn ctx_channels(&self) -> u64 {
        self.channels
    }

    /// The plane's style context.
    pub closed spec fn ctx_stylemask(&self) -> u32 {
        self.stylemask
    }

    /// The cell at position (`y`, `x`).
    pub open spec fn cell_at(&self, y: int, x: int) -> NcCell {
        self.grid()[grid_index(self.cols() as int, y, x)]
    }

    /// Whether position (`y`, `x`) lies inside the plane.
    pub open spec fn in_bounds(&self, y: int, x: int) -> bool {
        0 <= y < self.rows() && 0 <= x < self.cols()
    }

    /// Well-formedness: at least one cell, a total size the engine supports,
    /// a backing array of exactly that size holding well-formed cells, and a
    /// cursor at most one past each edge.
    pub open spec fn wf(&self) -> bool {
        &&& 1 <= self.rows()
        &&& 1 <= self.cols()
        &&& self.rows() * self.cols() <= NCPLANE_MAX_AREA
        &&& self.grid().len() == self.rows() * self.cols()
        &&& self.cur_y() <= self.rows()
        &&& self.cur_x() <= self.cols()
        &&& forall|i: int| 0 <= i < self.grid().len() ==> (#[trigger] self.grid()[i]).wf()
    }

    /// Whether the dimensions and the channel/style context are unchanged
    /// between two plane states.
    pub open spec fn same_shape_ctx(&self, other: &NcPlane) -> bool {
        &&& other.rows() == self.rows()
        &&& other.cols() == self.cols()
        &&& other.ctx_channels() == self.ctx_channels()
        &&& other.ctx_stylemask() == self.ctx_stylemask()
    }

    /// Creates a plane of `rows` by `cols` blank cells, with the cursor at
    /// the origin and an empty channel/style context.
    pub fn new(rows: usize, cols: usize) -> (plane: Self)
        requires
            1 <= rows,
            1 <= cols,
            rows * cols <= NCPLANE_MAX_AREA,
        ensures
            plane.wf(),
            plane.rows() == rows,
            plane.cols() == cols,
            plane.cur_y() == 0,
            plane.cur_x() == 0,
            plane.ctx_channels() == 0,
            plane.ctx_stylemask() == 0,
            forall|i: int| 0 <= i < plane.grid().len() ==> plane.grid()[i] == blank_cell(),
    {
        proof {
            lemma_mul_inequality(1, rows as int, cols as int);
        }
        let total: usize = rows * cols;
        let mut cells: Vec<NcCell> = Vec::new();
        let mut i: usize = 0;
        while i < total
            invariant
                i <= total,
                cells@.len() == i,
                forall|j: int| 0 <= j < i ==> cells@[j] == blank_cell(),
            decreases total - i,
        {
            cells.push(NcCell::new());
            i = i + 1;
        }
        NcPlane {
            cells,
            dim_y: rows,
            dim_x: cols,
            cursor_y: 0,
            cursor_x: 0,
            channels: 0,
            stylemask: 0,
        }
    }

    /// The number of rows.
    pub fn dim_y(&self) -> (rows: usize)
        ensures
            rows == self.rows(),
    {
        self.dim_y
    }

    /// The number of columns.
    pub fn dim_x(&self) -> (cols: usize)
        ensures
            cols == self.cols(),
    {
        self.dim_x
    }

    /// The cursor position, row first.
    pub fn cursor_yx(&self) -> (pos: (usize, usize))
        ensures
            pos.0 == self.cur_y(),
            pos.1 == self.cur_x(),
    {
        (self.cursor_y, self.cursor_x)
    }

    /// The plane's channel context.
    pub fn channels(&self) -> (channels: NcChannelPair)
        ensures
            channels == self.ctx_channels(),
    {
        self.channels
    }

    /// The plane's style context.
    pub fn styles(&self) -> (stylemask: NcStyleMask)
        ensures
            stylemask == self.ctx_stylemask(),
    {
        self.stylemask
    }

    /// Sets the plane's channel context.
    pub fn set_channels(&mut self, channels: NcChannelPair)
        ensures
            final(self).ctx_channels() == channels,
            final(self).ctx_stylemask() == old(self).ctx_stylemask(),
            final(self).grid() == old(self).grid(),
            final(self).rows() == old(self).rows(),
            final(self).cols() == old(self).cols(),
            final(self).cur_y() == old(self).cur_y(),
            final(self).cur_x() == old(self).cur_x(),
            old(self).wf() ==> final(self).wf(),
    {
        self.channels = channels;
    }

    /// Sets the plane's style context.
    pub fn set_styles(&mut self, stylemask: NcStyleMask)
        ensures
            final(self).ctx_stylemask() == stylemask,
            final(self).ctx_channels() == old(self).ctx_channels(),
            final(self).grid() == old(self).grid(),
            final(self).rows() == old(self).rows(),
            final(self).cols() == old(self).cols(),
            final(self).cur_y() == old(self).cur_y(),
            final(self).cur_x() == old(self).cur_x(),
            old(self).wf() ==> final(self).wf(),
    {
        self.stylemask = stylemask;
    }

    /// Moves the cursor to (`y`, `x`); fails with `OutOfBounds` when the
    /// position lies outside the plane, leaving the plane unchanged.
    pub fn cursor_move_yx(&mut self, y: usize, x: usize) -> (result: Result<(), NcError>)
        requires
            old(self).wf(),
        ensures
            final(self).wf(),
            result is Ok <==> old(self).in_bounds(y as int, x as int),
            result is Ok ==> final(self).cur_y() == y && final(self).cur_x() == x,
            final(self).grid() == old(self).grid(),
            old(self).same_shape_ctx(final(self)),
            result is Err ==> *final(self) == *old(self) && result == Err::<(), NcError>(
                NcError::OutOfBounds,
            ),
    {
        if y >= self.dim_y || x >= self.dim_x {
            return Err(NcError::OutOfBounds);
        }
        self.cursor_y = y;
        self.cursor_x = x;
        Ok(())
    }

    /// Writes `cell` into the grid at the in-bounds position (`y`, `x`),
    /// leaving everything else, the cursor included, unchanged.
    pub(crate) fn put_at(&mut self, y: usize, x: usize, cell: &NcCell)
        requires
            old(self).wf(),
            cell.wf(),
            old(self).in_bounds(y as int, x as int),
        ensures
            final(self).wf(),
            old(self).same_shape_ctx(final(self)),
            final(self).cur_y() == old(self).cur_y(),
            final(self).cur_x() == old(self).cur_x(),
            final(self).grid() == old(self).grid().update(
                grid_index(old(self).cols() as int, y as int, x as int),
                *cell,
            ),
    {
        proof {
            lemma_grid_index_bound(
                self.dim_y as int,
                self.dim_x as int,
                y as int,
                x as int,
            );
        }
        let idx: usize = y * self.dim_x + x;
        self.cells[idx] = cell.clone();
    }

    /// Writes a copy of `cell` at (`y`, `x`) and advances the cursor past
    /// it: the cursor lands on (`y`, `x + 1`). Fails with `OutOfBounds`,
    /// changing nothing, when the position lies outside the plane.
    pub fn put_cell_yx(&mut self, y: usize, x: usize, cell: &NcCell) -> (result: Result<
        (),
        NcError,
    >)
        requires
            old(self).wf(),
            cell.wf(),
        ensures
            final(self).wf(),
            old(self).same_shape_ctx(final(self)),
            result is Ok <==> old(self).in_bounds(y as int, x as int),
            result is Ok ==> final(self).grid() == old(self).grid().update(
                grid_index(old(self).cols() as int, y as int, x as int),
                *cell,
            ) && final(self).cur_y() == y && final(self).cur_x() == x + 1,
            result is Err ==> *final(self) == *old(self) && result == Err::<(), NcError>(
                NcError::OutOfBounds,
            ),
    {
        if y >= self.dim_y || x >= self.dim_x {
            return Err(NcError::OutOfBounds);
        }
        self.put_at(y, x, cell);
        self.cursor_y = y;
        self.cursor_x = x + 1;
        Ok(())
    }

    /// Writes a copy of `cell` at the cursor and advances the cursor one
    /// column. Fails with `OutOfBounds` when the cursor rests past an edge.
    pub fn put_cell(&mut self, cell: &NcCell) -> (result: Result<(), NcError>)
        requires
            old(self).wf(),
            cell.wf(),
        ensures
            final(self).wf(),
            old(self).same_shape_ctx(final(self)),
            result is Ok <==> old(self).in_bounds(old(self).cur_y() as int, old(self).cur_x() as int),
            result is Ok ==> final(self).grid() == old(self).grid().update(
                grid_index(
                    old(self).cols() as int,
                    old(self).cur_y() as int,
                    old(self).cur_x() as int,
                ),
                *cell,
            ) && final(self).cur_y() == old(self).cur_y() && final(self).cur_x() == old(
                self,
            ).cur_x() + 1,
            result is Err ==> *final(self) == *old(self) && result == Err::<(), NcError>(
                NcError::OutOfBounds,
            ),
    {
        let y = self.cursor_y;
        let x = self.cursor_x;
        self.put_cell_yx(y, x, cell)
    }

    /// The cell that `put_char` at the given character would write: the
    /// character with the plane's current channel/style context.
    pub open spec fn char_cell(&self, c: char) -> NcCell {
        NcCell {
            gcluster: NcEgc::Char(c),
            stylemask: self.ctx_stylemask(),
            channels: self.ctx_channels(),
        }
    }

    /// Wraps `c` into a cell styled by the plane's context and writes it at
    /// (`y`, `x`), advancing the cursor past it. Fails with `OutOfBounds`,
    /// changing nothing, when the position lies outside the plane.
    pub fn put_char_yx(&mut self, y: usize, x: usize, c: char) -> (result: Result<(), NcError>)
        requires
            old(self).wf(),
        ensures
            final(self).wf(),
            old(self).same_shape_ctx(final(self)),
            result is Ok <==> old(self).in_bounds(y as int, x as int),
            result is Ok ==> final(self).grid() == old(self).grid().update(
                grid_index(old(self).cols() as int, y as int, x as int),
                old(self).char_cell(c),
            ) && final(self).cur_y() == y && final(self).cur_x() == x + 1,
            result is Err ==> *final(self) == *old(self) && result == Err::<(), NcError>(
                NcError::OutOfBounds,
            ),
    {
        let cell = NcCell::with_all(c, self.stylemask, self.channels);
        self.put_cell_yx(y, x, &cell)
    }

    /// Wraps `c` into a cell styled by the plane's context and writes it at
    /// the cursor, advancing the cursor one column.
    pub fn put_char(&mut self, c: char) -> (result: Result<(), NcError>)
        requires
            old(self).wf(),
        ensures
            final(self).wf(),
            old(self).same_shape_ctx(final(self)),
            result is Ok <==> old(self).in_bounds(old(self).cur_y() as int, old(self).cur_x() as int),
            result is Ok ==> final(self).grid() == old(self).grid().update(
                grid_index(
                    old(self).cols() as int,
                    old(self).cur_y() as int,
                    old(self).cur_x() as int,
                ),
                old(self).char_cell(c),
            ) && final(self).cur_y() == old(self).cur_y() && final(self).cur_x() == old(
                self,
            ).cur_x() + 1,
            result is Err ==> *final(self) == *old(self) && result == Err::<(), NcError>(
                NcError::OutOfBounds,
            ),
    {
        let y = self.cursor_y;
        let x = self.cursor_x;
        self.put_char_yx(y, x, c)
    }
}

impl NcPlane {
    /// Whether a resize request is geometrically valid: the new plane is at
    /// least one cell and at most the supported area; and either nothing is
    /// kept (both keep lengths zero), or the kept rectangle lies inside the
    /// old bounds and, translated to its new offset, inside the new bounds.
    pub open spec fn resize_ok(
        &self,
        keep_y: int,
        keep_x: int,
        keep_len_y: int,
        keep_len_x: int,
        off_y: int,
        off_x: int,
        new_y: int,
        new_x: int,
    ) -> bool {
        &&& 1 <= new_y
        &&& 1 <= new_x
        &&& new_y * new_x <= NCPLANE_MAX_AREA
        &&& ((keep_len_y == 0 && keep_len_x == 0) || {
            &&& 1 <= keep_len_y
            &&& 1 <= keep_len_x
            &&& keep_y + keep_len_y <= self.rows()
            &&& keep_x + keep_len_x <= self.cols()
            &&& off_y + keep_len_y <= new_y
            &&& off_x + keep_len_x <= new_x
        })
    }

    /// The cell at (`yy`, `xx`) when the plane is clipped to its old
    /// bounds: the old cell where the position lies inside them, blank
    /// everywhere else.
    pub open spec fn clipped_cell(&self, yy: int, xx: int) -> NcCell {
        if yy < self.rows() && xx < self.cols() {
            self.cell_at(yy, xx)
        } else {
            blank_cell()
        }
    }

    /// The cell a resize leaves at position (`yy`, `xx`) of the new plane:
    /// inside the translated keep-rectangle, the old cell it preserves;
    /// everywhere else, blank.
    pub open spec fn resized_cell(
        &self,
        keep_y: int,
        keep_x: int,
        keep_len_y: int,
        keep_len_x: int,
        off_y: int,
        off_x: int,
        yy: int,
        xx: int,
    ) -> NcCell {
        if keep_len_y > 0 && off_y <= yy < off_y + keep_len_y && off_x <= xx < off_x + keep_len_x {
            self.cell_at(keep_y + (yy - off_y), keep_x + (xx - off_x))
        } else {
            blank_cell()
        }
    }

    /// Resizes the plane to `new_y` by `new_x` cells, preserving the
    /// `keep_len_y` by `keep_len_x` rectangle whose upper-left corner lies
    /// at (`keep_y`, `keep_x`), translated so that its corner lands at
    /// (`off_y`, `off_x`) of the new plane. Every cell outside the preserved
    /// rectangle is reset to blank, and the cursor moves to the origin.
    ///
    /// With both keep lengths zero nothing is preserved: the plane is
    /// cleared to blank. Fails with `InvalidGeometry`, changing nothing,
    /// when the keep-rectangle does not fit inside the old or the new
    /// bounds, when exactly one keep length is zero, or when the new plane
    /// would be empty or beyond the supported area.
    pub fn resize(
        &mut self,
        keep_y: usize,
        keep_x: usize,
        keep_len_y: usize,
        keep_len_x: usize,
        off_y: usize,
        off_x: usize,
        new_y: usize,
        new_x: usize,
    ) -> (result: Result<(), NcError>)
        requires
            old(self).wf(),
        ensures
            final(self).wf(),
            final(self).ctx_channels() == old(self).ctx_channels(),
            final(self).ctx_stylemask() == old(self).ctx_stylemask(),
            result is Ok <==> old(self).resize_ok(
                keep_y as int,
                keep_x as int,
                keep_len_y as int,
                keep_len_x as int,
                off_y as int,
                off_x as int,
                new_y as int,
                new_x as int,
            ),
            result is Err ==> *final(self) == *old(self) && result == Err::<(), NcError>(
                NcError::InvalidGeometry,
            ),
            result is Ok ==> {
                &&& final(self).rows() == new_y
                &&& final(self).cols() == new_x
                &&& final(self).cur_y() == 0
                &&& final(self).cur_x() == 0
                &&& forall|yy: int, xx: int|
                    0 <= yy < new_y && 0 <= xx < new_x ==> final(self).cell_at(yy, xx) == old(
                        self,
                    ).resized_cell(
                        keep_y as int,
                        keep_x as int,
                        keep_len_y as int,
                        keep_len_x as int,
                        off_y as int,
                        off_x as int,
                        yy,
                        xx,
                    )
            },
    {
        if new_y < 1 || new_x < 1 || new_y > NCPLANE_MAX_AREA || new_x > NCPLANE_MAX_AREA {
            proof {
                if new_y >= 1 && new_x >= 1 {
                    lemma_mul_inequality(1, new_x as int, new_y as int);
                    assert(new_y as int * 1 <= new_y as int * new_x as int) by (nonlinear_arith)
                        requires
                            1 <= new_x as int,
                    ;
                    assert(new_x as int * 1 <= new_x as int * new_y as int) by (nonlinear_arith)
                        requires
                            1 <= new_y as int,
                    ;
                    assert(new_x as int * new_y as int == new_y as int * new_x as int)
                        by (nonlinear_arith);
                }
            }
            return Err(NcError::InvalidGeometry);
        }
        proof {
            assert((new_y as int) * (new_x as int) <= 0x7fff_ffff * 0x7fff_ffff)
                by (nonlinear_arith)
                requires
                    1 <= new_y as int <= 0x7fff_ffff,
                    1 <= new_x as int <= 0x7fff_ffff,
            ;
        }
        if (new_y as u64) * (new_x as u64) > (NCPLANE_MAX_AREA as u64) {
            return Err(NcError::InvalidGeometry);
        }
        if keep_len_y != 0 || keep_len_x != 0 {
            if keep_len_y == 0 || keep_len_x == 0 {
                return Err(NcError::InvalidGeometry);
            }
            if keep_len_y > self.dim_y || keep_y > self.dim_y - keep_len_y {
                return Err(NcError::InvalidGeometry);
            }
            if keep_len_x > self.dim_x || keep_x > self.dim_x - keep_len_x {
                return Err(NcError::InvalidGeometry);
            }
            if keep_len_y > new_y || off_y > new_y - keep_len_y {
                return Err(NcError::InvalidGeometry);
            }
            if keep_len_x > new_x || off_x > new_x - keep_len_x {
                return Err(NcError::InvalidGeometry);
            }
        }
        let ghost old_self = *self;
        let mut cells: Vec<NcCell> = Vec::new();
        let mut yy: usize = 0;
        while yy < new_y
            invariant
                *self == old_self,
                old_self.wf(),
                old_self.resize_ok(
                    keep_y as int,
                    keep_x as int,
                    keep_len_y as int,
                    keep_len_x as int,
                    off_y as int,
                    off_x as int,
                    new_y as int,
                    new_x as int,
                ),
                yy <= new_y,
                new_y * new_x <= NCPLANE_MAX_AREA,
                cells@.len() == yy * new_x,
                forall|j: int| 0 <= j < cells@.len() ==> (#[trigger] cells@[j]).wf(),
                forall|y0: int, x0: int|
                    0 <= y0 < yy && 0 <= x0 < new_x ==> cells@[grid_index(new_x as int, y0, x0)]
                        == old_self.resized_cell(
                        keep_y as int,
                        keep_x as int,
                        keep_len_y as int,
                        keep_len_x as int,
                        off_y as int,
                        off_x as int,
                        y0,
                        x0,
                    ),
            decreases new_y - yy,
        {
            proof {
                lemma_grid_index_bound(new_y as int, new_x as int, yy as int, 0);
            }
            let mut xx: usize = 0;
            while xx < new_x
                invariant
                    *self == old_self,
                    old_self.wf(),
                    old_self.resize_ok(
                        keep_y as int,
                        keep_x as int,
                        keep_len_y as int,
                        keep_len_x as int,
                        off_y as int,
                        off_x as int,
                        new_y as int,
                        new_x as int,
                    ),
                    yy < new_y,
                    xx <= new_x,
                    new_y * new_x <= NCPLANE_MAX_AREA,
                    cells@.len() == yy * new_x + xx,
                    forall|j: int| 0 <= j < cells@.len() ==> (#[trigger] cells@[j]).wf(),
                    forall|y0: int, x0: int|
                        0 <= y0 < yy && 0 <= x0 < new_x ==> cells@[grid_index(
                            new_x as int,
                            y0,
                            x0,
                        )] == old_self.resized_cell(
                            keep_y as int,
                            keep_x as int,
                            keep_len_y as int,
                            keep_len_x as int,
                            off_y as int,
                            off_x as int,
                            y0,
                            x0,
                        ),
                    forall|x0: int|
                        0 <= x0 < xx ==> cells@[grid_index(new_x as int, yy as int, x0)]
                            == old_self.resized_cell(
                            keep_y as int,
                            keep_x as int,
                            keep_len_y as int,
                            keep_len_x as int,
                            off_y as int,
                            off_x as int,
                            yy as int,
                            x0,
                        ),
                decreases new_x - xx,
            {
                proof {
                    lemma_grid_index_bound(new_y as int, new_x as int, yy as int, xx as int);
                }
                let cell: NcCell = if keep_len_y > 0 && yy >= off_y && yy - off_y < keep_len_y
                    && xx >= off_x && xx - off_x < keep_len_x {
                    let sy: usize = keep_y + (yy - off_y);
                    let sx: usize = keep_x + (xx - off_x);
                    proof {
                        lemma_grid_index_bound(
                            self.dim_y as int,
                            self.dim_x as int,
                            sy as int,
                            sx as int,
                        );
                    }
                    self.cells[sy * self.dim_x + sx].clone()
                } else {
                    NcCell::new()
                };
                cells.push(cell);
                proof {
                    assert forall|y0: int, x0: int|
                        0 <= y0 < yy && 0 <= x0 < new_x implies cells@[grid_index(
                        new_x as int,
                        y0,
                        x0,
                    )] == old_self.resized_cell(
                        keep_y as int,
                        keep_x as int,
                        keep_len_y as int,
                        keep_len_x as int,
                        off_y as int,
                        off_x as int,
                        y0,
                        x0,
                    ) by {
                        lemma_grid_index_bound(yy as int, new_x as int, y0, x0);
                    }
                }
                xx = xx + 1;
            }
            proof {
                assert((yy as int + 1) * new_x == yy as int * new_x + new_x) by (nonlinear_arith);
                assert forall|y0: int, x0: int|
                    0 <= y0 < yy + 1 && 0 <= x0 < new_x implies cells@[grid_index(
                    new_x as int,
                    y0,
                    x0,
                )] == old_self.resized_cell(
                    keep_y as int,
                    keep_x as int,
                    keep_len_y as int,
                    keep_len_x as int,
                    off_y as int,
                    off_x as int,
                    y0,
                    x0,
                ) by {
                    lemma_grid_index_bound(yy as int + 1, new_x as int, y0, x0);
                }
            }
            yy = yy + 1;
        }
        self.cells = cells;
        self.dim_y = new_y;
        self.dim_x = new_x;
        self.cursor_y = 0;
        self.cursor_x = 0;
        Ok(())
    }

    /// Resizes the plane to `ylen` by `xlen` cells, retaining everything
    /// that fits (the overlap of the old and new bounds, anchored at the
    /// origin) and blanking the rest. Fails with `InvalidGeometry`, changing
    /// nothing, when the new plane would be empty or beyond the supported
    /// area.
    pub fn resize_simple(&mut self, ylen: usize, xlen: usize) -> (result: Result<(), NcError>)
        requires
            old(self).wf(),
        ensures
            final(self).wf(),
            final(self).ctx_channels() == old(self).ctx_channels(),
            final(self).ctx_stylemask() == old(self).ctx_stylemask(),
            result is Ok <==> 1 <= ylen && 1 <= xlen && ylen * xlen <= NCPLANE_MAX_AREA,
            result is Err ==> *final(self) == *old(self) && result == Err::<(), NcError>(
                NcError::InvalidGeometry,
            ),
            result is Ok ==> {
                &&& final(self).rows() == ylen
                &&& final(self).cols() == xlen
                &&& final(self).cur_y() == 0
                &&& final(self).cur_x() == 0
                &&& forall|yy: int, xx: int|
                    0 <= yy < ylen && 0 <= xx < xlen ==> final(self).cell_at(yy, xx) == old(
                        self,
                    ).clipped_cell(yy, xx)
            },
    {
        let keep_len_y: usize = if self.dim_y > ylen {
            ylen
        } else {
            self.dim_y
        };
        let keep_len_x: usize = if self.dim_x > xlen {
            xlen
        } else {
            self.dim_x
        };
        self.resize(0, 0, keep_len_y, keep_len_x, 0, 0, ylen, xlen)
    }
}

/// The number of cells a line of requested length `len` tries to draw: a
/// non-positive request draws nothing.
pub open spec fn line_want(len: i32) -> int {
    if len <= 0 {
        0
    } else {
        len as int
    }
}

/// The cell that step `i` of an interpolated line of `n` cells writes: the
/// line cell's glyph cluster and style, with the channel pair interpolated
/// linearly from `c1` (at step 0) to `c2` (at step `n - 1`).
pub open spec fn line_cell(cell: NcCell, c1: u64, c2: u64, i: int, n: int) -> NcCell {
    NcCell {
        gcluster: cell.gcluster,
        stylemask: cell.stylemask,
        channels: grad_channels(c1, c2, c1, c2, 0, i, 1, n),
    }
}

/// Law: a line interpolated between one channel pair and itself writes the
/// line cell unchanged, its own channels included.
pub proof fn lemma_line_cell_const(cell: NcCell, c: u64, i: int, n: int)
    requires
        0 <= i < n,
    ensures
        line_cell(cell, c, c, i, n) == (NcCell {
            gcluster: cell.gcluster,
            stylemask: cell.stylemask,
            channels: c,
        }),
{
    lemma_grad_channels_const(c, 0, i, 1, n);
}

impl NcPlane {
    /// The columns remaining on the cursor's row, the cursor's own column
    /// included; zero when the cursor rests below the last row.
    pub open spec fn avail_right(&self) -> int {
        if self.cur_y() < self.rows() {
            self.cols() - self.cur_x()
        } else {
            0
        }
    }

    /// The rows remaining below the cursor, the cursor's own row included;
    /// zero when the cursor rests past the last column.
    pub open spec fn avail_below(&self) -> int {
        if self.cur_x() < self.cols() {
            self.rows() - self.cur_y()
        } else {
            0
        }
    }

    /// What the grid holds at (`yy`, `xx`) after a horizontal line of `n`
    /// cells is drawn from the cursor, interpolating over a requested run of
    /// `want` cells: a line cell on the drawn stretch of the cursor's row,
    /// the old cell everywhere else.
    pub open spec fn hline_result_cell(
        &self,
        cell: NcCell,
        c1: u64,
        c2: u64,
        n: int,
        want: int,
        yy: int,
        xx: int,
    ) -> NcCell {
        if yy == self.cur_y() && self.cur_x() <= xx < self.cur_x() + n {
            line_cell(cell, c1, c2, xx - self.cur_x(), want)
        } else {
            self.cell_at(yy, xx)
        }
    }

    /// What the grid holds at (`yy`, `xx`) after a vertical line of `n`
    /// cells is drawn from the cursor, interpolating over a requested run of
    /// `want` cells: a line cell on the drawn stretch of the cursor's
    /// column, the old cell everywhere else.
    pub open spec fn vline_result_cell(
        &self,
        cell: NcCell,
        c1: u64,
        c2: u64,
        n: int,
        want: int,
        yy: int,
        xx: int,
    ) -> NcCell {
        if xx == self.cur_x() && self.cur_y() <= yy < self.cur_y() + n {
            line_cell(cell, c1, c2, yy - self.cur_y(), want)
        } else {
            self.cell_at(yy, xx)
        }
    }

    /// Draws up to `len` copies of `cell` rightward from the cursor,
    /// interpolating the channel pair linearly from `c1` to `c2` across the
    /// requested run. The cursor advances past the cells drawn. Returns the
    /// requested length when the whole run fits; when the run is truncated
    /// by the plane's right edge, draws what fits and returns the negated
    /// count of cells actually drawn.
    pub fn hline_interp(&mut self, cell: &NcCell, len: i32, c1: u64, c2: u64) -> (result: i32)
        requires
            old(self).wf(),
            cell.wf(),
        ensures
            final(self).wf(),
            old(self).same_shape_ctx(final(self)),
            ({
                let want = line_want(len);
                let n = min(want, old(self).avail_right());
                &&& final(self).cur_y() == old(self).cur_y()
                &&& final(self).cur_x() == old(self).cur_x() + n
                &&& result as int == (if n == want {
                    want
                } else {
                    -n
                })
                &&& forall|yy: int, xx: int|
                    old(self).in_bounds(yy, xx) ==> final(self).cell_at(yy, xx) == old(
                        self,
                    ).hline_result_cell(*cell, c1, c2, n, want, yy, xx)
            }),
    {
        if len <= 0 {
            return 0;
        }
        let want: usize = len as usize;
        let cy: usize = self.cursor_y;
        let cx: usize = self.cursor_x;
        let avail: usize = if cy < self.dim_y {
            self.dim_x - cx
        } else {
            0
        };
        let n: usize = if want < avail {
            want
        } else {
            avail
        };
        let ghost old_self = *self;
        let mut i: usize = 0;
        while i < n
            invariant
                old_self.wf(),
                self.wf(),
                old_self.same_shape_ctx(self),
                cell.wf(),
                i <= n,
                cy == old_self.cur_y(),
                cx == old_self.cur_x(),
                self.cur_y() == cy,
                self.cur_x() == cx,
                want == line_want(len),
                want <= 0x7fff_ffff,
                n == min(want as int, old_self.avail_right()),
                n > 0 ==> cy < old_self.rows() && cx + n <= old_self.cols(),
                forall|yy: int, xx: int|
                    old_self.in_bounds(yy, xx) ==> self.cell_at(yy, xx)
                        == old_self.hline_result_cell(
                        *cell,
                        c1,
                        c2,
                        i as int,
                        want as int,
                        yy,
                        xx,
                    ),
            decreases n - i,
        {
            let channels: u64 = gradient_channels(c1, c2, c1, c2, 0, i, 1, want);
            let lc = NcCell {
                gcluster: cell.gcluster.clone(),
                stylemask: cell.stylemask,
                channels,
            };
            let ghost prev = *self;
            self.put_at(cy, cx + i, &lc);
            proof {
                assert forall|yy: int, xx: int|
                    old_self.in_bounds(yy, xx) implies self.cell_at(yy, xx)
                    == old_self.hline_result_cell(
                    *cell,
                    c1,
                    c2,
                    i + 1,
                    want as int,
                    yy,
                    xx,
                ) by {
                    lemma_grid_index_bound(
                        old_self.rows() as int,
                        old_self.cols() as int,
                        yy,
                        xx,
                    );
                    assert(prev.cell_at(yy, xx) == old_self.hline_result_cell(
                        *cell,
                        c1,
                        c2,
                        i as int,
                        want as int,
                        yy,
                        xx,
                    ));
                    if yy == cy && xx == cx + i {
                        assert(self.cell_at(yy, xx) == lc);
                        assert(lc.gcluster == cell.gcluster);
                        assert(lc == line_cell(*cell, c1, c2, i as int, want as int));
                    } else {
                        lemma_grid_index_bound(
                            old_self.rows() as int,
                            old_self.cols() as int,
                            cy as int,
                            cx + i,
                        );
                        lemma_grid_index_injective(
                            old_self.cols() as int,
                            yy,
                            xx,
                            cy as int,
                            cx + i,
                        );
                        assert(self.cell_at(yy, xx) == prev.cell_at(yy, xx));
                    }
                }
            }
            i = i + 1;
        }
        self.cursor_x = cx + n;
        if n == want {
            len
        } else {
            -(n as i32)
        }
    }

    /// Draws up to `len` copies of `cell` downward from the cursor,
    /// interpolating the channel pair linearly from `c1` to `c2` across the
    /// requested run. The cursor advances past the cells drawn. Returns the
    /// requested length when the whole run fits; when the run is truncated
    /// by the plane's bottom edge, draws what fits and returns the negated
    /// count of cells actually drawn.
    pub fn vline_interp(&mut self, cell: &NcCell, len: i32, c1: u64, c2: u64) -> (result: i32)
        requires
            old(self).wf(),
            cell.wf(),
        ensures
            final(self).wf(),
            old(self).same_shape_ctx(final(self)),
            ({
                let want = line_want(len);
                let n = min(want, old(self).avail_below());
                &&& final(self).cur_x() == old(self).cur_x()
                &&& final(self).cur_y() == old(self).cur_y() + n
                &&& result as int == (if n == want {
                    want
                } else {
                    -n
                })
                &&& forall|yy: int, xx: int|
                    old(self).in_bounds(yy, xx) ==> final(self).cell_at(yy, xx) == old(
                        self,
                    ).vline_result_cell(*cell, c1, c2, n, want, yy, xx)
            }),
    {
        if len <= 0 {
            return 0;
        }
        let want: usize = len as usize;
        let cy: usize = self.cursor_y;
        let cx: usize = self.cursor_x;
        let avail: usize = if cx < self.dim_x {
            self.dim_y - cy
        } else {
            0
        };
        let n: usize = if want < avail {
            want
        } else {
            avail
        };
        let ghost old_self = *self;
        let mut i: usize = 0;
        while i < n
            invariant
                old_self.wf(),
                self.wf(),
                old_self.same_shape_ctx(self),
                cell.wf(),
                i <= n,
                cy == old_self.cur_y(),
                cx == old_self.cur_x(),
                self.cur_y() == cy,
                self.cur_x() == cx,
                want == line_want(len),
                want <= 0x7fff_ffff,
                n == min(want as int, old_self.avail_below()),
                n > 0 ==> cx < old_self.cols() && cy + n <= old_self.rows(),
                forall|yy: int, xx: int|
                    old_self.in_bounds(yy, xx) ==> self.cell_at(yy, xx)
                        == old_self.vline_result_cell(
                        *cell,
                        c1,
                        c2,
                        i as int,
                        want as int,
                        yy,
                        xx,
                    ),
            decreases n - i,
        {
            let channels: u64 = gradient_channels(c1, c2, c1, c2, 0, i, 1, want);
            let lc = NcCell {
                gcluster: cell.gcluster.clone(),
                stylemask: cell.stylemask,
                channels,
            };
            let ghost prev = *self;
            self.put_at(cy + i, cx, &lc);
            proof {
                assert forall|yy: int, xx: int|
                    old_self.in_bounds(yy, xx) implies self.cell_at(yy, xx)
                    == old_self.vline_result_cell(
                    *cell,
                    c1,
                    c2,
                    i + 1,
                    want as int,
                    yy,
                    xx,
                ) by {
                    lemma_grid_index_bound(
                        old_self.rows() as int,
                        old_self.cols() as int,
                        yy,
                        xx,
                    );
                    assert(prev.cell_at(yy, xx) == old_self.vline_result_cell(
                        *cell,
                        c1,
                        c2,
                        i as int,
                        want as int,
                        yy,
                        xx,
                    ));
                    if yy == cy + i && xx == cx {
                        assert(self.cell_at(yy, xx) == lc);
                        assert(lc == line_cell(*cell, c1, c2, i as int, want as int));
                    } else {
                        lemma_grid_index_bound(
                            old_self.rows() as int,
                            old_self.cols() as int,
                            cy + i,
                            cx as int,
                        );
                        lemma_grid_index_injective(
                            old_self.cols() as int,
                            yy,
                            xx,
                            cy + i,
                            cx as int,
                        );
                        assert(self.cell_at(yy, xx) == prev.cell_at(yy, xx));
                    }
                }
            }
            i = i + 1;
        }
        self.cursor_y = cy + n;
        if n == want {
            len
        } else {
            -(n as i32)
        }
    }
}

/// The channel pair an `at` read hands back: the stored cell's channels,
/// except that the wide-glyph continuation flag is preserved from the cell
/// the caller passed in. The preservation is a documented special case of
/// reads, not a general contract of the pair.
pub open spec fn spliced_channels(stored: u64, prev: u64) -> u64 {
    (stored & 0x7fff_ffff_ffff_ffff) | (prev & 0x8000_0000_0000_0000)
}

impl NcPlane {
    /// Reads the cell at (`y`, `x`) into `cell`: glyph cluster, style and
    /// channels, the wide-continuation flag of `cell` being preserved.
    ///
    /// Fails with `OutOfBounds`, leaving `cell` unchanged, when the position
    /// lies outside the plane. Fails with `GlyphReadError` when the stored
    /// cell is the continuation column of a wide glyph, which has no glyph
    /// cluster to resolve; the style and channel state is still handed back
    /// uncorrupted, only the glyph cluster of `cell` is left as it was.
    pub fn at_yx_cell(&self, y: usize, x: usize, cell: &mut NcCell) -> (result: Result<
        (),
        NcError,
    >)
        requires
            self.wf(),
        ensures
            result is Ok <==> self.in_bounds(y as int, x as int) && !self.cell_at(
                y as int,
                x as int,
            ).is_wide_continuation(),
            result == Err::<(), NcError>(NcError::OutOfBounds) <==> !self.in_bounds(
                y as int,
                x as int,
            ),
            !self.in_bounds(y as int, x as int) ==> *final(cell) == *old(cell),
            self.in_bounds(y as int, x as int) ==> {
                let stored = self.cell_at(y as int, x as int);
                &&& final(cell).stylemask == stored.stylemask
                &&& final(cell).channels == spliced_channels(stored.channels, old(cell).channels)
                &&& final(cell).gcluster == (if stored.is_wide_continuation() {
                    old(cell).gcluster
                } else {
                    stored.gcluster
                })
                &&& (stored.is_wide_continuation() ==> result == Err::<(), NcError>(
                    NcError::GlyphReadError,
                ))
            },
            old(cell).wf() ==> final(cell).wf(),
    {
        if y >= self.dim_y || x >= self.dim_x {
            return Err(NcError::OutOfBounds);
        }
        proof {
            lemma_grid_index_bound(
                self.dim_y as int,
                self.dim_x as int,
                y as int,
                x as int,
            );
        }
        let idx: usize = y * self.dim_x + x;
        let stored = &self.cells[idx];
        cell.stylemask = stored.stylemask;
        cell.channels = (stored.channels & 0x7fff_ffff_ffff_ffff) | (cell.channels
            & 0x8000_0000_0000_0000);
        if stored.channels & 0x8000_0000_0000_0000 != 0 {
            return Err(NcError::GlyphReadError);
        }
        cell.gcluster = stored.gcluster.clone();
        Ok(())
    }

    /// Reads the cell under the cursor into `cell`, as `at_yx_cell` does.
    pub fn at_cursor_cell(&self, cell: &mut NcCell) -> (result: Result<(), NcError>)
        requires
            self.wf(),
        ensures
            result is Ok <==> self.in_bounds(self.cur_y() as int, self.cur_x() as int)
                && !self.cell_at(self.cur_y() as int, self.cur_x() as int).is_wide_continuation(),
            result == Err::<(), NcError>(NcError::OutOfBounds) <==> !self.in_bounds(
                self.cur_y() as int,
                self.cur_x() as int,
            ),
            !self.in_bounds(self.cur_y() as int, self.cur_x() as int) ==> *final(cell) == *old(
                cell,
            ),
            self.in_bounds(self.cur_y() as int, self.cur_x() as int) ==> {
                let stored = self.cell_at(self.cur_y() as int, self.cur_x() as int);
                &&& final(cell).stylemask == stored.stylemask
                &&& final(cell).channels == spliced_channels(stored.channels, old(cell).channels)
                &&& final(cell).gcluster == (if stored.is_wide_continuation() {
                    old(cell).gcluster
                } else {
                    stored.gcluster
                })
                &&& (stored.is_wide_continuation() ==> result == Err::<(), NcError>(
                    NcError::GlyphReadError,
                ))
            },
            old(cell).wf() ==> final(cell).wf(),
    {
        self.at_yx_cell(self.cursor_y, self.cursor_x, cell)
    }
}

/// Law: a resize that keeps nothing (both keep lengths zero) is valid for
/// any new dimensions the engine supports, whatever the keep and offset
/// coordinates say, and every cell of the resized plane is blank.
pub proof fn lemma_resize_clears(
    p: NcPlane,
    keep_y: int,
    keep_x: int,
    off_y: int,
    off_x: int,
    new_y: int,
    new_x: int,
)
    requires
        p.wf(),
        1 <= new_y,
        1 <= new_x,
        new_y * new_x <= NCPLANE_MAX_AREA,
    ensures
        p.resize_ok(keep_y, keep_x, 0, 0, off_y, off_x, new_y, new_x),
        forall|yy: int, xx: int|
            p.resized_cell(keep_y, keep_x, 0, 0, off_y, off_x, yy, xx) == blank_cell(),
{
}

/// Law: a cell written at (`y`, `x`) is read back from there with an equal
/// glyph cluster, style mask and channel pair, provided neither the written
/// cell nor the cell the read overwrites carries the wide-continuation
/// flag; on such a read the wide-flag splice is the identity. `q` stands
/// for the plane after the write, as the `ensures` of `put_cell_yx` gives
/// it; the conclusions match what `at_yx_cell` hands back.
pub proof fn lemma_put_then_at_round_trip(
    p: NcPlane,
    q: NcPlane,
    y: int,
    x: int,
    c: NcCell,
    prev: NcCell,
)
    requires
        p.wf(),
        p.in_bounds(y, x),
        !c.is_wide_continuation(),
        !prev.is_wide_continuation(),
        q.cols() == p.cols(),
        q.grid() == p.grid().update(grid_index(p.cols() as int, y, x), c),
    ensures
        q.cell_at(y, x) == c,
        !q.cell_at(y, x).is_wide_continuation(),
        spliced_channels(q.cell_at(y, x).channels, prev.channels) == q.cell_at(y, x).channels,
{
    lemma_grid_index_bound(p.rows() as int, p.cols() as int, y, x);
    let cc = c.channels;
    let pc = prev.channels;
    assert((cc & 0x7fff_ffff_ffff_ffff) | (pc & 0x8000_0000_0000_0000) == cc) by (bit_vector)
        requires
            cc & 0x8000_0000_0000_0000 == 0,
            pc & 0x8000_0000_0000_0000 == 0,
    ;
}

impl NcPlane {
    /// What the grid holds at (`yy`, `xx`) after the first `n` characters
    /// of `s` are written rightward from the cursor in the plane's
    /// channel/style context: a character cell on the written stretch of
    /// the cursor's row, the old cell everywhere else.
    pub open spec fn putstr_result_cell(&self, s: Seq<char>, n: int, yy: int, xx: int) -> NcCell {
        if yy == self.cur_y() && self.cur_x() <= xx < self.cur_x() + n {
            self.char_cell(s[xx - self.cur_x()])
        } else {
            self.cell_at(yy, xx)
        }
    }
}

/// Writes the characters of `string` rightward from the cursor, each in
/// the plane's channel/style context, advancing the cursor past them.
/// Returns the string's length in characters when it fits on the cursor's
/// row; when the run is truncated by the plane's right edge, writes what
/// fits and returns the negated count of cells actually written.
pub fn ncplane_putstr(plane: &mut NcPlane, string: &str) -> (result: i32)
    requires
        old(plane).wf(),
        string@.len() <= 0x7fff_ffff,
    ensures
        final(plane).wf(),
        old(plane).same_shape_ctx(final(plane)),
        ({
            let want = string@.len() as int;
            let n = min(want, old(plane).avail_right());
            &&& final(plane).cur_y() == old(plane).cur_y()
            &&& final(plane).cur_x() == old(plane).cur_x() + n
            &&& result as int == (if n == want {
                want
            } else {
                -n
            })
            &&& forall|yy: int, xx: int|
                old(plane).in_bounds(yy, xx) ==> final(plane).cell_at(yy, xx) == old(
                    plane,
                ).putstr_result_cell(string@, n, yy, xx)
        }),
{
    let want: usize = string.unicode_len();
    let (cy, cx): (usize, usize) = plane.cursor_yx();
    let avail: usize = if cy < plane.dim_y() {
        plane.dim_x() - cx
    } else {
        0
    };
    let n: usize = if want < avail {
        want
    } else {
        avail
    };
    let ghost old_plane = *plane;
    let mut i: usize = 0;
    while i < n
        invariant
            old_plane.wf(),
            plane.wf(),
            old_plane.same_shape_ctx(plane),
            i <= n,
            cy == old_plane.cur_y(),
            cx == old_plane.cur_x(),
            plane.cur_y() == cy,
            plane.cur_x() == cx,
            want == string@.len(),
            n == min(want as int, old_plane.avail_right()),
            n > 0 ==> cy < old_plane.rows() && cx + n <= old_plane.cols(),
            forall|yy: int, xx: int|
                old_plane.in_bounds(yy, xx) ==> plane.cell_at(yy, xx)
                    == old_plane.putstr_result_cell(string@, i as int, yy, xx),
        decreases n - i,
    {
        let c: char = string.get_char(i);
        let cell = NcCell::with_all(c, plane.styles(), plane.channels());
        let ghost prev = *plane;
        plane.put_at(cy, cx + i, &cell);
        proof {
            assert forall|yy: int, xx: int|
                old_plane.in_bounds(yy, xx) implies plane.cell_at(yy, xx)
                == old_plane.putstr_result_cell(string@, i + 1, yy, xx) by {
                lemma_grid_index_bound(
                    old_plane.rows() as int,
                    old_plane.cols() as int,
                    yy,
                    xx,
                );
                assert(prev.cell_at(yy, xx) == old_plane.putstr_result_cell(
                    string@,
                    i as int,
                    yy,
                    xx,
                ));
                if yy == cy && xx == cx + i {
                    assert(plane.cell_at(yy, xx) == cell);
                } else {
                    lemma_grid_index_bound(
                        old_plane.rows() as int,
                        old_plane.cols() as int,
                        cy as int,
                        cx + i,
                    );
                    lemma_grid_index_injective(
                        old_plane.cols() as int,
                        yy,
                        xx,
                        cy as int,
                        cx + i,
                    );
                    assert(plane.cell_at(yy, xx) == prev.cell_at(yy, xx));
                }
            }
        }
        i = i + 1;
    }
    plane.cursor_x = cx + n;
    if n == want {
        want as i32
    } else {
        -(n as i32)
    }
}

/// The number of rows of the plane.
pub fn ncplane_dim_y(plane: &NcPlane) -> (rows: usize)
    ensures
        rows == plane.rows(),
{
    plane.dim_y()
}

/// The number of columns of the plane.
pub fn ncplane_dim_x(plane: &NcPlane) -> (cols: usize)
    ensures
        cols == plane.cols(),
{
    plane.dim_x()
}

/// The foreground channel of the plane's channel context.
pub fn ncplane_fchannel(plane: &NcPlane) -> (fg: NcChannel)
    ensures
        fg == fchannel(plane.ctx_channels()),
{
    channels_fchannel(plane.channels())
}

/// The background channel of the plane's channel context.
pub fn ncplane_bchannel(plane: &NcPlane) -> (bg: NcChannel)
    ensures
        bg == bchannel(plane.ctx_channels()),
{
    channels_bchannel(plane.channels())
}

/// The 24-bit RGB value of the plane's foreground channel, shifted to the
/// least significant bits.
pub fn ncplane_fg_rgb(plane: &NcPlane) -> (rgb: u32)
    ensures
        rgb == channel_rgb(fchannel(plane.ctx_channels())),
{
    channels_fg_rgb(plane.channels())
}

/// The 24-bit RGB value of the plane's background channel, shifted to the
/// least significant bits.
pub fn ncplane_bg_rgb(plane: &NcPlane) -> (rgb: u32)
    ensures
        rgb == channel_rgb(bchannel(plane.ctx_channels())),
{
    channels_bg_rgb(plane.channels())
}

/// The alpha mode of the plane's foreground channel, shifted to the least
/// significant bits.
pub fn ncplane_fg_alpha(plane: &NcPlane) -> (alpha: NcAlphaBits)
    ensures
        alpha == channel_alpha(fchannel(plane.ctx_channels())),
{
    channels_fg_alpha(plane.channels())
}

/// The alpha mode of the plane's background channel, shifted to the least
/// significant bits.
pub fn ncplane_bg_alpha(plane: &NcPlane) -> (alpha: NcAlphaBits)
    ensures
        alpha == channel_alpha(bchannel(plane.ctx_channels())),
{
    channels_bg_alpha(plane.channels())
}

/// Whether the plane's foreground uses the default colour.
pub fn ncplane_fg_default_p(plane: &NcPlane) -> (default: bool)
    ensures
        default == channel_default_p(fchannel(plane.ctx_channels())),
{
    channels_fg_default_p(plane.channels())
}

/// Whether the plane's background uses the default colour.
pub fn ncplane_bg_default_p(plane: &NcPlane) -> (default: bool)
    ensures
        default == channel_default_p(bchannel(plane.ctx_channels())),
{
    channels_bg_default_p(plane.channels())
}

/// Writes the RGB components of the plane's foreground channel into `red`,
/// `green` and `blue`, and returns that channel.
pub fn ncplane_fg_rgb8(plane: &NcPlane, red: &mut u8, green: &mut u8, blue: &mut u8) -> (fg:
    NcChannel)
    ensures
        fg == fchannel(plane.ctx_channels()),
        *final(red) == channel_r(fchannel(plane.ctx_channels())),
        *final(green) == channel_g(fchannel(plane.ctx_channels())),
        *final(blue) == channel_b(fchannel(plane.ctx_channels())),
{
    channels_fg_rgb8(plane.channels(), red, green, blue)
}

/// Writes the RGB components of the plane's background channel into `red`,
/// `green` and `blue`, and returns that channel.
pub fn ncplane_bg_rgb8(plane: &NcPlane, red: &mut u8, green: &mut u8, blue: &mut u8) -> (bg:
    NcChannel)
    ensures
        bg == bchannel(plane.ctx_channels()),
        *final(red) == channel_r(bchannel(plane.ctx_channels())),
        *final(green) == channel_g(bchannel(plane.ctx_channels())),
        *final(blue) == channel_b(bchannel(plane.ctx_channels())),
{
    channels_bg_rgb8(plane.channels(), red, green, blue)
}

/// Writes a copy of `cell` at the cursor and advances the cursor one
/// column. Fails with `OutOfBounds` when the cursor rests past an edge.
pub fn ncplane_putc(plane: &mut NcPlane, cell: &NcCell) -> (result: Result<(), NcError>)
    requires
        old(plane).wf(),
        cell.wf(),
    ensures
        final(plane).wf(),
        old(plane).same_shape_ctx(final(plane)),
        result is Ok <==> old(plane).in_bounds(old(plane).cur_y() as int, old(plane).cur_x() as int),
        result is Ok ==> final(plane).grid() == old(plane).grid().update(
            grid_index(
                old(plane).cols() as int,
                old(plane).cur_y() as int,
                old(plane).cur_x() as int,
            ),
            *cell,
        ) && final(plane).cur_y() == old(plane).cur_y() && final(plane).cur_x() == old(
            plane,
        ).cur_x() + 1,
        result is Err ==> *final(plane) == *old(plane) && result == Err::<(), NcError>(
            NcError::OutOfBounds,
        ),
{
    plane.put_cell(cell)
}

/// Wraps `c` into a cell styled by the plane's context and writes it at the
/// cursor, advancing the cursor one column.
pub fn ncplane_putchar(plane: &mut NcPlane, c: char) -> (result: Result<(), NcError>)
    requires
        old(plane).wf(),
    ensures
        final(plane).wf(),
        old(plane).same_shape_ctx(final(plane)),
        result is Ok <==> old(plane).in_bounds(old(plane).cur_y() as int, old(plane).cur_x() as int),
        result is Ok ==> final(plane).grid() == old(plane).grid().update(
            grid_index(
                old(plane).cols() as int,
                old(plane).cur_y() as int,
                old(plane).cur_x() as int,
            ),
            old(plane).char_cell(c),
        ) && final(plane).cur_y() == old(plane).cur_y() && final(plane).cur_x() == old(
            plane,
        ).cur_x() + 1,
        result is Err ==> *final(plane) == *old(plane) && result == Err::<(), NcError>(
            NcError::OutOfBounds,
        ),
{
    plane.put_char(c)
}

/// Wraps `c` into a cell styled by the plane's context and writes it at
/// (`y`, `x`), advancing the cursor past it. Fails with `OutOfBounds`,
/// changing nothing, when the position lies outside the plane.
pub fn ncplane_putchar_yx(plane: &mut NcPlane, y: usize, x: usize, c: char) -> (result: Result<
    (),
    NcError,
>)
    requires
        old(plane).wf(),
    ensures
        final(plane).wf(),
        old(plane).same_shape_ctx(final(plane)),
        result is Ok <==> old(plane).in_bounds(y as int, x as int),
        result is Ok ==> final(plane).grid() == old(plane).grid().update(
            grid_index(old(plane).cols() as int, y as int, x as int),
            old(plane).char_cell(c),
        ) && final(plane).cur_y() == y && final(plane).cur_x() == x + 1,
        result is Err ==> *final(plane) == *old(plane) && result == Err::<(), NcError>(
            NcError::OutOfBounds,
        ),
{
    plane.put_char_yx(y, x, c)
}

/// Reads the cell under the cursor into `cell`, as `NcPlane::at_yx_cell`
/// does.
pub fn ncplane_at_cursor_cell(plane: &NcPlane, cell: &mut NcCell) -> (result: Result<(), NcError>)
    requires
        plane.wf(),
    ensures
        result is Ok <==> plane.in_bounds(plane.cur_y() as int, plane.cur_x() as int)
            && !plane.cell_at(plane.cur_y() as int, plane.cur_x() as int).is_wide_continuation(),
        result == Err::<(), NcError>(NcError::OutOfBounds) <==> !plane.in_bounds(
            plane.cur_y() as int,
            plane.cur_x() as int,
        ),
        !plane.in_bounds(plane.cur_y() as int, plane.cur_x() as int) ==> *final(cell) == *old(cell),
        plane.in_bounds(plane.cur_y() as int, plane.cur_x() as int) ==> {
            let stored = plane.cell_at(plane.cur_y() as int, plane.cur_x() as int);
            &&& final(cell).stylemask == stored.stylemask
            &&& final(cell).channels == spliced_channels(stored.channels, old(cell).channels)
            &&& final(cell).gcluster == (if stored.is_wide_continuation() {
                old(cell).gcluster
            } else {
                stored.gcluster
            })
            &&& (stored.is_wide_continuation() ==> result == Err::<(), NcError>(
                NcError::GlyphReadError,
            ))
        },
        old(cell).wf() ==> final(cell).wf(),
{
    plane.at_cursor_cell(cell)
}

/// Reads the cell at (`y`, `x`) into `cell`, as `NcPlane::at_yx_cell` does.
pub fn ncplane_at_yx_cell(plane: &NcPlane, y: usize, x: usize, cell: &mut NcCell) -> (result:
    Result<(), NcError>)
    requires
        plane.wf(),
    ensures
        result is Ok <==> plane.in_bounds(y as int, x as int) && !plane.cell_at(
            y as int,
            x as int,
        ).is_wide_continuation(),
        result == Err::<(), NcError>(NcError::OutOfBounds) <==> !plane.in_bounds(y as int, x as int),
        !plane.in_bounds(y as int, x as int) ==> *final(cell) == *old(cell),
        plane.in_bounds(y as int, x as int) ==> {
            let stored = plane.cell_at(y as int, x as int);
            &&& final(cell).stylemask == stored.stylemask
            &&& final(cell).channels == spliced_channels(stored.channels, old(cell).channels)
            &&& final(cell).gcluster == (if stored.is_wide_continuation() {
                old(cell).gcluster
            } else {
                stored.gcluster
            })
            &&& (stored.is_wide_continuation() ==> result == Err::<(), NcError>(
                NcError::GlyphReadError,
            ))
        },
        old(cell).wf() ==> final(cell).wf(),
{
    plane.at_yx_cell(y, x, cell)
}

/// Resizes the plane to `ylen` by `xlen` cells, retaining everything that
/// fits and blanking the rest, with the origin kept in place.
pub fn ncplane_resize_simple(plane: &mut NcPlane, ylen: usize, xlen: usize) -> (result: Result<
    (),
    NcError,
>)
    requires
        old(plane).wf(),
    ensures
        final(plane).wf(),
        final(plane).ctx_channels() == old(plane).ctx_channels(),
        final(plane).ctx_stylemask() == old(plane).ctx_stylemask(),
        result is Ok <==> 1 <= ylen && 1 <= xlen && ylen * xlen <= NCPLANE_MAX_AREA,
        result is Err ==> *final(plane) == *old(plane) && result == Err::<(), NcError>(
            NcError::InvalidGeometry,
        ),
        result is Ok ==> {
            &&& final(plane).rows() == ylen
            &&& final(plane).cols() == xlen
            &&& final(plane).cur_y() == 0
            &&& final(plane).cur_x() == 0
            &&& forall|yy: int, xx: int|
                0 <= yy < ylen && 0 <= xx < xlen ==> final(plane).cell_at(yy, xx) == old(
                    plane,
                ).clipped_cell(yy, xx)
        },
{
    plane.resize_simple(ylen, xlen)
}

/// Draws up to `len` copies of `cell` rightward from the cursor, the
/// channel pair held constant at the cell's own. Returns the requested
/// length when the whole run fits; when the run is truncated by the
/// plane's right edge, draws what fits and returns the negated count of
/// cells actually drawn.
pub fn ncplane_hline(plane: &mut NcPlane, cell: &NcCell, len: i32) -> (result: i32)
    requires
        old(plane).wf(),
        cell.wf(),
    ensures
        final(plane).wf(),
        old(plane).same_shape_ctx(final(plane)),
        ({
            let want = line_want(len);
            let n = min(want, old(plane).avail_right());
            &&& final(plane).cur_y() == old(plane).cur_y()
            &&& final(plane).cur_x() == old(plane).cur_x() + n
            &&& result as int == (if n == want {
                want
            } else {
                -n
            })
            &&& forall|yy: int, xx: int|
                old(plane).in_bounds(yy, xx) ==> final(plane).cell_at(yy, xx) == old(
                    plane,
                ).hline_result_cell(*cell, cell.channels, cell.channels, n, want, yy, xx)
            &&& forall|xx: int|
                old(plane).cur_x() <= xx < old(plane).cur_x() + n ==> final(plane).cell_at(
                    old(plane).cur_y() as int,
                    xx,
                ) == *cell
        }),
{
    let c = cell.channels;
    let result = plane.hline_interp(cell, len, c, c);
    proof {
        let want = line_want(len);
        let n = min(want, old(plane).avail_right());
        assert forall|xx: int|
            old(plane).cur_x() <= xx < old(plane).cur_x() + n implies plane.cell_at(
            old(plane).cur_y() as int,
            xx,
        ) == *cell by {
            lemma_line_cell_const(*cell, cell.channels, xx - old(plane).cur_x(), want);
            assert((NcCell {
                gcluster: cell.gcluster,
                stylemask: cell.stylemask,
                channels: cell.channels,
            }) == *cell);
        }
    }
    result
}

/// Draws up to `len` copies of `cell` downward from the cursor, the channel
/// pair held constant at the cell's own. Returns the requested length when
/// the whole run fits; when the run is truncated by the plane's bottom
/// edge, draws what fits and returns the negated count of cells actually
/// drawn.
pub fn ncplane_vline(plane: &mut NcPlane, cell: &NcCell, len: i32) -> (result: i32)
    requires
        old(plane).wf(),
        cell.wf(),
    ensures
        final(plane).wf(),
        old(plane).same_shape_ctx(final(plane)),
        ({
            let want = line_want(len);
            let n = min(want, old(plane).avail_below());
            &&& final(plane).cur_x() == old(plane).cur_x()
            &&& final(plane).cur_y() == old(plane).cur_y() + n
            &&& result as int == (if n == want {
                want
            } else {
                -n
            })
            &&& forall|yy: int, xx: int|
                old(plane).in_bounds(yy, xx) ==> final(plane).cell_at(yy, xx) == old(
                    plane,
                ).vline_result_cell(*cell, cell.channels, cell.channels, n, want, yy, xx)
            &&& forall|yy: int|
                old(plane).cur_y() <= yy < old(plane).cur_y() + n ==> final(plane).cell_at(
                    yy,
                    old(plane).cur_x() as int,
                ) == *cell
        }),
{
    let c = cell.channels;
    let result = plane.vline_interp(cell, len, c, c);
    proof {
        let want = line_want(len);
        let n = min(want, old(plane).avail_below());
        assert forall|yy: int|
            old(plane).cur_y() <= yy < old(plane).cur_y() + n implies plane.cell_at(
            yy,
            old(plane).cur_x() as int,
        ) == *cell by {
            lemma_line_cell_const(*cell, cell.channels, yy - old(plane).cur_y(), want);
            assert((NcCell {
                gcluster: cell.gcluster,
                stylemask: cell.stylemask,
                channels: cell.channels,
            }) == *cell);
        }
    }
    result
}

} // verus!
