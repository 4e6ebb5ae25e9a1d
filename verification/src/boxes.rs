//! Box frames and gradient fills over a plane.
//!
//! A box is a rectangular frame drawn from independent corner and edge
//! cells; bits of a control word suppress individual edges and corners. A
//! gradient fills a rectangle with one glyph, bilinearly interpolating the
//! four corner channel pairs across it.

use vstd::prelude::*;
use crate::NcError;
use crate::cell::{NcCell, NcEgc, NcStyleMask};
use crate::channel::{grad_channels, gradient_channels, NcChannelPair};
use crate::plane::{
    grid_index, lemma_grid_index_bound, lemma_grid_index_injective, NcPlane,
};

verus! {

/// Suppresses the top edge of a box.
pub const NCBOXMASK_TOP: u32 = 0x1;

/// Suppresses the right edge of a box.
pub const NCBOXMASK_RIGHT: u32 = 0x2;

/// Suppresses the bottom edge of a box.
pub const NCBOXMASK_BOTTOM: u32 = 0x4;

/// Suppresses the left edge of a box.
pub const NCBOXMASK_LEFT: u32 = 0x8;

/// Suppresses the upper-left corner of a box.
pub const NCBOXMASK_UL: u32 = 0x10;

/// Suppresses the upper-right corner of a box.
pub const NCBOXMASK_UR: u32 = 0x20;

/// Suppresses the lower-left corner of a box.
pub const NCBOXMASK_LL: u32 = 0x40;

/// Suppresses the lower-right corner of a box.
pub const NCBOXMASK_LR: u32 = 0x80;

/// What a partially drawn frame holds at (`yy`, `xx`): the frame runs from
/// corner (`cy`, `cx`) to corner (`ystop`, `xstop`); the top row is drawn
/// for columns below `top_x`, the bottom row for columns below `bottom_x`,
/// the left column for rows below `left_y` and the right column for rows
/// below `right_y`. `None` stands for a position the frame leaves alone,
/// either because it lies off the frame, is not yet drawn, or is
/// suppressed by `ctlword`.
pub open spec fn frame_upto(
    cy: int,
    cx: int,
    ystop: int,
    xstop: int,
    ul: NcCell,
    ur: NcCell,
    ll: NcCell,
    lr: NcCell,
    hl: NcCell,
    vl: NcCell,
    ctlword: u32,
    top_x: int,
    bottom_x: int,
    left_y: int,
    right_y: int,
    yy: int,
    xx: int,
) -> Option<NcCell> {
    if yy == cy && cx <= xx < top_x {
        if xx == cx {
            if ctlword & NCBOXMASK_UL == 0 {
                Some(ul)
            } else {
                None
            }
        } else if xx == xstop {
            if ctlword & NCBOXMASK_UR == 0 {
                Some(ur)
            } else {
                None
            }
        } else {
            if ctlword & NCBOXMASK_TOP == 0 {
                Some(hl)
            } else {
                None
            }
        }
    } else if yy == ystop && cx <= xx < bottom_x {
        if xx == cx {
            if ctlword & NCBOXMASK_LL == 0 {
                Some(ll)
            } else {
                None
            }
        } else if xx == xstop {
            if ctlword & NCBOXMASK_LR == 0 {
                Some(lr)
            } else {
                None
            }
        } else {
            if ctlword & NCBOXMASK_BOTTOM == 0 {
                Some(hl)
            } else {
                None
            }
        }
    } else if xx == cx && cy + 1 <= yy < left_y {
        if ctlword & NCBOXMASK_LEFT == 0 {
            Some(vl)
        } else {
            None
        }
    } else if xx == xstop && cy + 1 <= yy < right_y {
        if ctlword & NCBOXMASK_RIGHT == 0 {
            Some(vl)
        } else {
            None
        }
    } else {
        None
    }
}

/// What a complete frame from (`cy`, `cx`) to (`ystop`, `xstop`) holds at
/// (`yy`, `xx`); `None` for positions the frame leaves alone.
pub open spec fn frame_cell_at(
    cy: int,
    cx: int,
    ystop: int,
    xstop: int,
    ul: NcCell,
    ur: NcCell,
    ll: NcCell,
    lr: NcCell,
    hl: NcCell,
    vl: NcCell,
    ctlword: u32,
    yy: int,
    xx: int,
) -> Option<NcCell> {
    frame_upto(
        cy,
        cx,
        ystop,
        xstop,
        ul,
        ur,
        ll,
        lr,
        hl,
        vl,
        ctlword,
        xstop + 1,
        xstop + 1,
        ystop,
        ystop,
        yy,
        xx,
    )
}

/// `fc` where the frame drew a cell, `base` where it left the plane alone.
pub open spec fn frame_or(base: NcCell, fc: Option<NcCell>) -> NcCell {
    match fc {
        Some(c) => c,
        None => base,
    }
}

impl NcPlane {
    /// Whether a box from the cursor to corner (`ystop`, `xstop`) is
    /// geometrically valid: at least two rows and two columns, entirely on
    /// the plane.
    pub open spec fn box_ok(&self, ystop: int, xstop: int) -> bool {
        &&& self.cur_y() + 1 <= ystop < self.rows()
        &&& self.cur_x() + 1 <= xstop < self.cols()
    }

    /// Draws a rectangular frame whose upper-left corner sits at the cursor
    /// and whose lower-right corner sits at (`ystop`, `xstop`), from the
    /// four corner cells and the horizontal and vertical edge cells. Bits
    /// of `ctlword` suppress individual edges and corners. The cursor does
    /// not move.
    ///
    /// Fails with `InvalidGeometry`, changing nothing, when the box would
    /// be smaller than two by two cells or would leave the plane.
    pub fn draw_box(
        &mut self,
        ul: &NcCell,
        ur: &NcCell,
        ll: &NcCell,
        lr: &NcCell,
        hl: &NcCell,
        vl: &NcCell,
        ystop: usize,
        xstop: usize,
        ctlword: u32,
    ) -> (result: Result<(), NcError>)
        requires
            old(self).wf(),
            ul.wf(),
            ur.wf(),
            ll.wf(),
            lr.wf(),
            hl.wf(),
            vl.wf(),
        ensures
            final(self).wf(),
            old(self).same_shape_ctx(final(self)),
            final(self).cur_y() == old(self).cur_y(),
            final(self).cur_x() == old(self).cur_x(),
            result is Ok <==> old(self).box_ok(ystop as int, xstop as int),
            result is Err ==> *final(self) == *old(self) && result == Err::<(), NcError>(
                NcError::InvalidGeometry,
            ),
            result is Ok ==> forall|yy: int, xx: int|
                old(self).in_bounds(yy, xx) ==> final(self).cell_at(yy, xx) == frame_or(
                    old(self).cell_at(yy, xx),
                    frame_cell_at(
                        old(self).cur_y() as int,
                        old(self).cur_x() as int,
                        ystop as int,
                        xstop as int,
                        *ul,
                        *ur,
                        *ll,
                        *lr,
                        *hl,
                        *vl,
                        ctlword,
                        yy,
                        xx,
                    ),
                ),
    {
        let (cy, cx): (usize, usize) = self.cursor_yx();
        if ystop >= self.dim_y() || xstop >= self.dim_x() || ystop <= cy || xstop <= cx {
            return Err(NcError::InvalidGeometry);
        }
        let ghost old_self = *self;

        // Top row, upper corners included.
        let mut x: usize = cx;
        while x <= xstop
            invariant
                old_self.wf(),
                self.wf(),
                old_self.same_shape_ctx(self),
                ul.wf(),
                ur.wf(),
                ll.wf(),
                lr.wf(),
                hl.wf(),
                vl.wf(),
                cy == old_self.cur_y(),
                cx == old_self.cur_x(),
                self.cur_y() == cy,
                self.cur_x() == cx,
                old_self.box_ok(ystop as int, xstop as int),
                cx <= x <= xstop + 1,
                forall|yy: int, xx: int|
                    old_self.in_bounds(yy, xx) ==> self.cell_at(yy, xx) == frame_or(
                        old_self.cell_at(yy, xx),
                        frame_upto(
                            cy as int,
                            cx as int,
                            ystop as int,
                            xstop as int,
                            *ul,
                            *ur,
                            *ll,
                            *lr,
                            *hl,
                            *vl,
                            ctlword,
                            x as int,
                            cx as int,
                            cy + 1,
                            cy + 1,
                            yy,
                            xx,
                        ),
                    ),
            decreases xstop + 1 - x,
        {
            let oc: Option<&NcCell> = if x == cx {
                if ctlword & NCBOXMASK_UL == 0 {
                    Some(ul)
                } else {
                    None
                }
            } else if x == xstop {
                if ctlword & NCBOXMASK_UR == 0 {
                    Some(ur)
                } else {
                    None
                }
            } else {
                if ctlword & NCBOXMASK_TOP == 0 {
                    Some(hl)
                } else {
                    None
                }
            };
            let ghost prev = *self;
            if let Some(c) = oc {
                self.put_at(cy, x, c);
            }
            proof {
                assert forall|yy: int, xx: int|
                    old_self.in_bounds(yy, xx) implies self.cell_at(yy, xx) == frame_or(
                    old_self.cell_at(yy, xx),
                    frame_upto(
                        cy as int,
                        cx as int,
                        ystop as int,
                        xstop as int,
                        *ul,
                        *ur,
                        *ll,
                        *lr,
                        *hl,
                        *vl,
                        ctlword,
                        x + 1,
                        cx as int,
                        cy + 1,
                        cy + 1,
                        yy,
                        xx,
                    ),
                ) by {
                    lemma_grid_index_bound(
                        old_self.rows() as int,
                        old_self.cols() as int,
                        yy,
                        xx,
                    );
                    lemma_grid_index_bound(
                        old_self.rows() as int,
                        old_self.cols() as int,
                        cy as int,
                        x as int,
                    );
                    if !(yy == cy && xx == x) {
                        lemma_grid_index_injective(
                            old_self.cols() as int,
                            yy,
                            xx,
                            cy as int,
                            x as int,
                        );
                        assert(self.cell_at(yy, xx) == prev.cell_at(yy, xx));
                    }
                }
            }
            x = x + 1;
        }

        // Bottom row, lower corners included.
        let mut x: usize = cx;
        while x <= xstop
            invariant
                old_self.wf(),
                self.wf(),
                old_self.same_shape_ctx(self),
                ul.wf(),
                ur.wf(),
                ll.wf(),
                lr.wf(),
                hl.wf(),
                vl.wf(),
                cy == old_self.cur_y(),
                cx == old_self.cur_x(),
                self.cur_y() == cy,
                self.cur_x() == cx,
                old_self.box_ok(ystop as int, xstop as int),
                cx <= x <= xstop + 1,
                forall|yy: int, xx: int|
                    old_self.in_bounds(yy, xx) ==> self.cell_at(yy, xx) == frame_or(
                        old_self.cell_at(yy, xx),
                        frame_upto(
                            cy as int,
                            cx as int,
                            ystop as int,
                            xstop as int,
                            *ul,
                            *ur,
                            *ll,
                            *lr,
                            *hl,
                            *vl,
                            ctlword,
                            xstop + 1,
                            x as int,
                            cy + 1,
                            cy + 1,
                            yy,
                            xx,
                        ),
                    ),
            decreases xstop + 1 - x,
        {
            let oc: Option<&NcCell> = if x == cx {
                if ctlword & NCBOXMASK_LL == 0 {
                    Some(ll)
                } else {
                    None
                }
            } else if x == xstop {
                if ctlword & NCBOXMASK_LR == 0 {
                    Some(lr)
                } else {
                    None
                }
            } else {
                if ctlword & NCBOXMASK_BOTTOM == 0 {
                    Some(hl)
                } else {
                    None
                }
            };
            let ghost prev = *self;
            if let Some(c) = oc {
                self.put_at(ystop, x, c);
            }
            proof {
                assert forall|yy: int, xx: int|
                    old_self.in_bounds(yy, xx) implies self.cell_at(yy, xx) == frame_or(
                    old_self.cell_at(yy, xx),
                    frame_upto(
                        cy as int,
                        cx as int,
                        ystop as int,
                        xstop as int,
                        *ul,
                        *ur,
                        *ll,
                        *lr,
                        *hl,
                        *vl,
                        ctlword,
                        xstop + 1,
                        x + 1,
                        cy + 1,
                        cy + 1,
                        yy,
                        xx,
                    ),
                ) by {
                    lemma_grid_index_bound(
                        old_self.rows() as int,
                        old_self.cols() as int,
                        yy,
                        xx,
                    );
                    lemma_grid_index_bound(
                        old_self.rows() as int,
                        old_self.cols() as int,
                        ystop as int,
                        x as int,
                    );
                    if !(yy == ystop && xx == x) {
                        lemma_grid_index_injective(
                            old_self.cols() as int,
                            yy,
                            xx,
                            ystop as int,
                            x as int,
                        );
                        assert(self.cell_at(yy, xx) == prev.cell_at(yy, xx));
                    }
                }
            }
            x = x + 1;
        }

        // Left column, corners excluded.
        let mut y: usize = cy + 1;
        while y < ystop
            invariant
                old_self.wf(),
                self.wf(),
                old_self.same_shape_ctx(self),
                ul.wf(),
                ur.wf(),
                ll.wf(),
                lr.wf(),
                hl.wf(),
                vl.wf(),
                cy == old_self.cur_y(),
                cx == old_self.cur_x(),
                self.cur_y() == cy,
                self.cur_x() == cx,
                old_self.box_ok(ystop as int, xstop as int),
                cy + 1 <= y <= ystop,
                forall|yy: int, xx: int|
                    old_self.in_bounds(yy, xx) ==> self.cell_at(yy, xx) == frame_or(
                        old_self.cell_at(yy, xx),
                        frame_upto(
                            cy as int,
                            cx as int,
                            ystop as int,
                            xstop as int,
                            *ul,
                            *ur,
                            *ll,
                            *lr,
                            *hl,
                            *vl,
                            ctlword,
                            xstop + 1,
                            xstop + 1,
                            y as int,
                            cy + 1,
                            yy,
                            xx,
                        ),
                    ),
            decreases ystop - y,
        {
            let ghost prev = *self;
            if ctlword & NCBOXMASK_LEFT == 0 {
                self.put_at(y, cx, vl);
            }
            proof {
                assert forall|yy: int, xx: int|
                    old_self.in_bounds(yy, xx) implies self.cell_at(yy, xx) == frame_or(
                    old_self.cell_at(yy, xx),
                    frame_upto(
                        cy as int,
                        cx as int,
                        ystop as int,
                        xstop as int,
                        *ul,
                        *ur,
                        *ll,
                        *lr,
                        *hl,
                        *vl,
                        ctlword,
                        xstop + 1,
                        xstop + 1,
                        y + 1,
                        cy + 1,
                        yy,
                        xx,
                    ),
                ) by {
                    lemma_grid_index_bound(
                        old_self.rows() as int,
                        old_self.cols() as int,
                        yy,
                        xx,
                    );
                    lemma_grid_index_bound(
                        old_self.rows() as int,
                        old_self.cols() as int,
                        y as int,
                        cx as int,
                    );
                    if !(yy == y && xx == cx) {
                        lemma_grid_index_injective(
                            old_self.cols() as int,
                            yy,
                            xx,
                            y as int,
                            cx as int,
                        );
                        assert(self.cell_at(yy, xx) == prev.cell_at(yy, xx));
                    }
                }
            }
            y = y + 1;
        }

        // Right column, corners excluded.
        let mut y: usize = cy + 1;
        while y < ystop
            invariant
                old_self.wf(),
                self.wf(),
                old_self.same_shape_ctx(self),
                ul.wf(),
                ur.wf(),
                ll.wf(),
                lr.wf(),
                hl.wf(),
                vl.wf(),
                cy == old_self.cur_y(),
                cx == old_self.cur_x(),
                self.cur_y() == cy,
                self.cur_x() == cx,
                old_self.box_ok(ystop as int, xstop as int),
                cy + 1 <= y <= ystop,
                forall|yy: int, xx: int|
                    old_self.in_bounds(yy, xx) ==> self.cell_at(yy, xx) == frame_or(
                        old_self.cell_at(yy, xx),
                        frame_upto(
                            cy as int,
                            cx as int,
                            ystop as int,
                            xstop as int,
                            *ul,
                            *ur,
                            *ll,
                            *lr,
                            *hl,
                            *vl,
                            ctlword,
                            xstop + 1,
                            xstop + 1,
                            ystop as int,
                            y as int,
                            yy,
                            xx,
                        ),
                    ),
            decreases ystop - y,
        {
            let ghost prev = *self;
            if ctlword & NCBOXMASK_RIGHT == 0 {
                self.put_at(y, xstop, vl);
            }
            proof {
                assert forall|yy: int, xx: int|
                    old_self.in_bounds(yy, xx) implies self.cell_at(yy, xx) == frame_or(
                    old_self.cell_at(yy, xx),
                    frame_upto(
                        cy as int,
                        cx as int,
                        ystop as int,
                        xstop as int,
                        *ul,
                        *ur,
                        *ll,
                        *lr,
                        *hl,
                        *vl,
                        ctlword,
                        xstop + 1,
                        xstop + 1,
                        ystop as int,
                        y + 1,
                        yy,
                        xx,
                    ),
                ) by {
                    lemma_grid_index_bound(
                        old_self.rows() as int,
                        old_self.cols() as int,
                        yy,
                        xx,
                    );
                    lemma_grid_index_bound(
                        old_self.rows() as int,
                        old_self.cols() as int,
                        y as int,
                        xstop as int,
                    );
                    if !(yy == y && xx == xstop) {
                        lemma_grid_index_injective(
                            old_self.cols() as int,
                            yy,
                            xx,
                            y as int,
                            xstop as int,
                        );
                        assert(self.cell_at(yy, xx) == prev.cell_at(yy, xx));
                    }
                }
            }
            y = y + 1;
        }
        Ok(())
    }
}

/// The cell a gradient fill writes at offset (`dy`, `dx`) of a `ylen` by
/// `xlen` rectangle: the gradient's glyph cluster and style, with the four
/// corner channel pairs bilinearly interpolated.
pub open spec fn grad_cell(
    egc: NcEgc,
    stylemask: u32,
    ul: u64,
    ur: u64,
    ll: u64,
    lr: u64,
    dy: int,
    dx: int,
    ylen: int,
    xlen: int,
) -> NcCell {
    NcCell { gcluster: egc, stylemask, channels: grad_channels(ul, ur, ll, lr, dy, dx, ylen, xlen) }
}

/// What a partially drawn gradient from the cursor of `p` to corner
/// (`ystop`, `xstop`) holds at (`yy`, `xx`): positions on full rows above
/// offset `dy`, and on row `dy` left of offset `dx`, hold their gradient
/// cell; everything else still holds the old cell.
pub open spec fn gradient_upto(
    p: NcPlane,
    egc: NcEgc,
    stylemask: u32,
    ul: u64,
    ur: u64,
    ll: u64,
    lr: u64,
    ystop: int,
    xstop: int,
    dy: int,
    dx: int,
    yy: int,
    xx: int,
) -> NcCell {
    if p.cur_y() <= yy <= ystop && p.cur_x() <= xx <= xstop && (yy - p.cur_y() < dy || (yy
        - p.cur_y() == dy && xx - p.cur_x() < dx)) {
        grad_cell(
            egc,
            stylemask,
            ul,
            ur,
            ll,
            lr,
            yy - p.cur_y(),
            xx - p.cur_x(),
            ystop - p.cur_y() + 1,
            xstop - p.cur_x() + 1,
        )
    } else {
        p.cell_at(yy, xx)
    }
}

/// What a complete gradient fill from the cursor of `p` to corner
/// (`ystop`, `xstop`) leaves at (`yy`, `xx`).
pub open spec fn gradient_result_cell(
    p: NcPlane,
    egc: NcEgc,
    stylemask: u32,
    ul: u64,
    ur: u64,
    ll: u64,
    lr: u64,
    ystop: int,
    xstop: int,
    yy: int,
    xx: int,
) -> NcCell {
    if p.cur_y() <= yy <= ystop && p.cur_x() <= xx <= xstop {
        grad_cell(
            egc,
            stylemask,
            ul,
            ur,
            ll,
            lr,
            yy - p.cur_y(),
            xx - p.cur_x(),
            ystop - p.cur_y() + 1,
            xstop - p.cur_x() + 1,
        )
    } else {
        p.cell_at(yy, xx)
    }
}

impl NcPlane {
    /// Whether a gradient from the cursor to corner (`ystop`, `xstop`) is
    /// geometrically valid: at least one row and one column, entirely on
    /// the plane.
    pub open spec fn gradient_ok(&self, ystop: int, xstop: int) -> bool {
        &&& self.cur_y() <= ystop < self.rows()
        &&& self.cur_x() <= xstop < self.cols()
    }

    /// Fills the rectangle whose upper-left corner sits at the cursor and
    /// whose lower-right corner sits at (`ystop`, `xstop`) with the given
    /// glyph cluster and style, bilinearly interpolating the four corner
    /// channel pairs across it. The cursor does not move.
    ///
    /// Fails with `InvalidGeometry`, changing nothing, when the rectangle
    /// would be empty or would leave the plane.
    pub fn gradient(
        &mut self,
        egc: &NcEgc,
        stylemask: NcStyleMask,
        ul: NcChannelPair,
        ur: NcChannelPair,
        ll: NcChannelPair,
        lr: NcChannelPair,
        ystop: usize,
        xstop: usize,
    ) -> (result: Result<(), NcError>)
        requires
            old(self).wf(),
            egc.wf(),
        ensures
            final(self).wf(),
            old(self).same_shape_ctx(final(self)),
            final(self).cur_y() == old(self).cur_y(),
            final(self).cur_x() == old(self).cur_x(),
            result is Ok <==> old(self).gradient_ok(ystop as int, xstop as int),
            result is Err ==> *final(self) == *old(self) && result == Err::<(), NcError>(
                NcError::InvalidGeometry,
            ),
            result is Ok ==> forall|yy: int, xx: int|
                old(self).in_bounds(yy, xx) ==> final(self).cell_at(yy, xx)
                    == gradient_result_cell(
                    *old(self),
                    *egc,
                    stylemask,
                    ul,
                    ur,
                    ll,
                    lr,
                    ystop as int,
                    xstop as int,
                    yy,
                    xx,
                ),
    {
        let (cy, cx): (usize, usize) = self.cursor_yx();
        if ystop >= self.dim_y() || xstop >= self.dim_x() || ystop < cy || xstop < cx {
            return Err(NcError::InvalidGeometry);
        }
        proof {
            assert(self.rows() as int <= self.rows() as int * self.cols() as int)
                by (nonlinear_arith)
                requires
                    1 <= self.cols() as int,
                    0 <= self.rows() as int,
            ;
            assert(self.cols() as int <= self.rows() as int * self.cols() as int)
                by (nonlinear_arith)
                requires
                    1 <= self.rows() as int,
                    0 <= self.cols() as int,
            ;
        }
        let ylen: usize = ystop - cy + 1;
        let xlen: usize = xstop - cx + 1;
        let ghost old_self = *self;
        let mut dy: usize = 0;
        while dy < ylen
            invariant
                old_self.wf(),
                self.wf(),
                old_self.same_shape_ctx(self),
                egc.wf(),
                cy == old_self.cur_y(),
                cx == old_self.cur_x(),
                self.cur_y() == cy,
                self.cur_x() == cx,
                old_self.gradient_ok(ystop as int, xstop as int),
                ylen == ystop - cy + 1,
                xlen == xstop - cx + 1,
                ylen <= 0x7fff_ffff,
                xlen <= 0x7fff_ffff,
                dy <= ylen,
                forall|yy: int, xx: int|
                    old_self.in_bounds(yy, xx) ==> self.cell_at(yy, xx) == gradient_upto(
                        old_self,
                        *egc,
                        stylemask,
                        ul,
                        ur,
                        ll,
                        lr,
                        ystop as int,
                        xstop as int,
                        dy as int,
                        0,
                        yy,
                        xx,
                    ),
            decreases ylen - dy,
        {
            let mut dx: usize = 0;
            while dx < xlen
                invariant
                    old_self.wf(),
                    self.wf(),
                    old_self.same_shape_ctx(self),
                    egc.wf(),
                    cy == old_self.cur_y(),
                    cx == old_self.cur_x(),
                    self.cur_y() == cy,
                    self.cur_x() == cx,
                    old_self.gradient_ok(ystop as int, xstop as int),
                    ylen == ystop - cy + 1,
                    xlen == xstop - cx + 1,
                    ylen <= 0x7fff_ffff,
                    xlen <= 0x7fff_ffff,
                    dy < ylen,
                    dx <= xlen,
                    forall|yy: int, xx: int|
                        old_self.in_bounds(yy, xx) ==> self.cell_at(yy, xx) == gradient_upto(
                            old_self,
                            *egc,
                            stylemask,
                            ul,
                            ur,
                            ll,
                            lr,
                            ystop as int,
                            xstop as int,
                            dy as int,
                            dx as int,
                            yy,
                            xx,
                        ),
                decreases xlen - dx,
            {
                let channels: u64 = gradient_channels(ul, ur, ll, lr, dy, dx, ylen, xlen);
                let gc = NcCell { gcluster: egc.clone(), stylemask, channels };
                let ghost prev = *self;
                self.put_at(cy + dy, cx + dx, &gc);
                proof {
                    assert forall|yy: int, xx: int|
                        old_self.in_bounds(yy, xx) implies self.cell_at(yy, xx) == gradient_upto(
                        old_self,
                        *egc,
                        stylemask,
                        ul,
                        ur,
                        ll,
                        lr,
                        ystop as int,
                        xstop as int,
                        dy as int,
                        dx + 1,
                        yy,
                        xx,
                    ) by {
                        lemma_grid_index_bound(
                            old_self.rows() as int,
                            old_self.cols() as int,
                            yy,
                            xx,
                        );
                        lemma_grid_index_bound(
                            old_self.rows() as int,
                            old_self.cols() as int,
                            cy + dy,
                            cx + dx,
                        );
                        assert(prev.cell_at(yy, xx) == gradient_upto(
                            old_self,
                            *egc,
                            stylemask,
                            ul,
                            ur,
                            ll,
                            lr,
                            ystop as int,
                            xstop as int,
                            dy as int,
                            dx as int,
                            yy,
                            xx,
                        ));
                        if !(yy == cy + dy && xx == cx + dx) {
                            lemma_grid_index_injective(
                                old_self.cols() as int,
                                yy,
                                xx,
                                cy + dy,
                                cx + dx,
                            );
                            assert(self.cell_at(yy, xx) == prev.cell_at(yy, xx));
                        }
                    }
                }
                dx = dx + 1;
            }
            proof {
                assert forall|yy: int, xx: int|
                    old_self.in_bounds(yy, xx) implies gradient_upto(
                    old_self,
                    *egc,
                    stylemask,
                    ul,
                    ur,
                    ll,
                    lr,
                    ystop as int,
                    xstop as int,
                    dy as int,
                    xlen as int,
                    yy,
                    xx,
                ) == gradient_upto(
                    old_self,
                    *egc,
                    stylemask,
                    ul,
                    ur,
                    ll,
                    lr,
                    ystop as int,
                    xstop as int,
                    dy + 1,
                    0,
                    yy,
                    xx,
                ) by {
                }
            }
            dy = dy + 1;
        }
        Ok(())
    }
}

/// A single-character cell with the given style mask and channel pair.
pub open spec fn styled_char_cell(c: char, stylemask: u32, channels: u64) -> NcCell {
    NcCell { gcluster: NcEgc::Char(c), stylemask, channels }
}

/// Loads the six cells of a double-lined box frame (corners and edges)
/// with the given style mask and channel pair.
pub fn cells_double_box(
    stylemask: NcStyleMask,
    channels: NcChannelPair,
    ul: &mut NcCell,
    ur: &mut NcCell,
    ll: &mut NcCell,
    lr: &mut NcCell,
    hl: &mut NcCell,
    vl: &mut NcCell,
)
    ensures
        *final(ul) == styled_char_cell('\u{2554}', stylemask, channels),
        *final(ur) == styled_char_cell('\u{2557}', stylemask, channels),
        *final(ll) == styled_char_cell('\u{255a}', stylemask, channels),
        *final(lr) == styled_char_cell('\u{255d}', stylemask, channels),
        *final(hl) == styled_char_cell('\u{2550}', stylemask, channels),
        *final(vl) == styled_char_cell('\u{2551}', stylemask, channels),
        final(ul).wf() && final(ur).wf() && final(ll).wf() && final(lr).wf() && final(hl).wf()
            && final(vl).wf(),
{
    *ul = NcCell::with_all('\u{2554}', stylemask, channels);
    *ur = NcCell::with_all('\u{2557}', stylemask, channels);
    *ll = NcCell::with_all('\u{255a}', stylemask, channels);
    *lr = NcCell::with_all('\u{255d}', stylemask, channels);
    *hl = NcCell::with_all('\u{2550}', stylemask, channels);
    *vl = NcCell::with_all('\u{2551}', stylemask, channels);
}

/// Loads the six cells of a rounded box frame (corners and edges) with the
/// given style mask and channel pair.
pub fn cells_rounded_box(
    stylemask: NcStyleMask,
    channels: NcChannelPair,
    ul: &mut NcCell,
    ur: &mut NcCell,
    ll: &mut NcCell,
    lr: &mut NcCell,
    hl: &mut NcCell,
    vl: &mut NcCell,
)
    ensures
        *final(ul) == styled_char_cell('\u{256d}', stylemask, channels),
        *final(ur) == styled_char_cell('\u{256e}', stylemask, channels),
        *final(ll) == styled_char_cell('\u{2570}', stylemask, channels),
        *final(lr) == styled_char_cell('\u{256f}', stylemask, channels),
        *final(hl) == styled_char_cell('\u{2500}', stylemask, channels),
        *final(vl) == styled_char_cell('\u{2502}', stylemask, channels),
        final(ul).wf() && final(ur).wf() && final(ll).wf() && final(lr).wf() && final(hl).wf()
            && final(vl).wf(),
{
    *ul = NcCell::with_all('\u{256d}', stylemask, channels);
    *ur = NcCell::with_all('\u{256e}', stylemask, channels);
    *ll = NcCell::with_all('\u{2570}', stylemask, channels);
    *lr = NcCell::with_all('\u{256f}', stylemask, channels);
    *hl = NcCell::with_all('\u{2500}', stylemask, channels);
    *vl = NcCell::with_all('\u{2502}', stylemask, channels);
}

/// Draws a rectangular frame whose upper-left corner sits at the cursor
/// and whose lower-right corner sits at (`ystop`, `xstop`).
pub fn ncplane_box(
    plane: &mut NcPlane,
    ul: &NcCell,
    ur: &NcCell,
    ll: &NcCell,
    lr: &NcCell,
    hline: &NcCell,
    vline: &NcCell,
    ystop: usize,
    xstop: usize,
    ctlword: u32,
) -> (result: Result<(), NcError>)
    requires
        old(plane).wf(),
        ul.wf(),
        ur.wf(),
        ll.wf(),
        lr.wf(),
        hline.wf(),
        vline.wf(),
    ensures
        final(plane).wf(),
        old(plane).same_shape_ctx(final(plane)),
        final(plane).cur_y() == old(plane).cur_y(),
        final(plane).cur_x() == old(plane).cur_x(),
        result is Ok <==> old(plane).box_ok(ystop as int, xstop as int),
        result is Err ==> *final(plane) == *old(plane) && result == Err::<(), NcError>(
            NcError::InvalidGeometry,
        ),
        result is Ok ==> forall|yy: int, xx: int|
            old(plane).in_bounds(yy, xx) ==> final(plane).cell_at(yy, xx) == frame_or(
                old(plane).cell_at(yy, xx),
                frame_cell_at(
                    old(plane).cur_y() as int,
                    old(plane).cur_x() as int,
                    ystop as int,
                    xstop as int,
                    *ul,
                    *ur,
                    *ll,
                    *lr,
                    *hline,
                    *vline,
                    ctlword,
                    yy,
                    xx,
                ),
            ),
{
    plane.draw_box(ul, ur, ll, lr, hline, vline, ystop, xstop, ctlword)
}

/// Whether a box of `ylen` rows and `xlen` columns anchored at the plane's
/// cursor is geometrically valid: at least two by two, entirely on the
/// plane.
pub open spec fn box_sized_ok(p: &NcPlane, ylen: int, xlen: int) -> bool {
    &&& 2 <= ylen
    &&& 2 <= xlen
    &&& p.cur_y() + ylen <= p.rows()
    &&& p.cur_x() + xlen <= p.cols()
}

/// Draws a box of `ylen` rows and `xlen` columns whose upper-left corner
/// sits at the cursor.
pub fn ncplane_box_sized(
    plane: &mut NcPlane,
    ul: &NcCell,
    ur: &NcCell,
    ll: &NcCell,
    lr: &NcCell,
    hline: &NcCell,
    vline: &NcCell,
    ylen: usize,
    xlen: usize,
    ctlword: u32,
) -> (result: Result<(), NcError>)
    requires
        old(plane).wf(),
        ul.wf(),
        ur.wf(),
        ll.wf(),
        lr.wf(),
        hline.wf(),
        vline.wf(),
    ensures
        final(plane).wf(),
        old(plane).same_shape_ctx(final(plane)),
        final(plane).cur_y() == old(plane).cur_y(),
        final(plane).cur_x() == old(plane).cur_x(),
        result is Ok <==> box_sized_ok(old(plane), ylen as int, xlen as int),
        result is Err ==> *final(plane) == *old(plane) && result == Err::<(), NcError>(
            NcError::InvalidGeometry,
        ),
        result is Ok ==> forall|yy: int, xx: int|
            old(plane).in_bounds(yy, xx) ==> final(plane).cell_at(yy, xx) == frame_or(
                old(plane).cell_at(yy, xx),
                frame_cell_at(
                    old(plane).cur_y() as int,
                    old(plane).cur_x() as int,
                    old(plane).cur_y() + ylen - 1,
                    old(plane).cur_x() + xlen - 1,
                    *ul,
                    *ur,
                    *ll,
                    *lr,
                    *hline,
                    *vline,
                    ctlword,
                    yy,
                    xx,
                ),
            ),
{
    let (cy, cx): (usize, usize) = plane.cursor_yx();
    if ylen < 2 || xlen < 2 {
        return Err(NcError::InvalidGeometry);
    }
    if ylen > plane.dim_y() || cy > plane.dim_y() - ylen || xlen > plane.dim_x() || cx
        > plane.dim_x() - xlen {
        return Err(NcError::InvalidGeometry);
    }
    plane.draw_box(ul, ur, ll, lr, hline, vline, cy + ylen - 1, cx + xlen - 1, ctlword)
}

/// Draws a frame along the plane's entire perimeter, moving the cursor to
/// the origin first (where it stays). Fails with `InvalidGeometry` on a
/// plane narrower than two cells in either dimension.
pub fn ncplane_perimeter(
    plane: &mut NcPlane,
    ul: &NcCell,
    ur: &NcCell,
    ll: &NcCell,
    lr: &NcCell,
    hline: &NcCell,
    vline: &NcCell,
    ctlword: u32,
) -> (result: Result<(), NcError>)
    requires
        old(plane).wf(),
        ul.wf(),
        ur.wf(),
        ll.wf(),
        lr.wf(),
        hline.wf(),
        vline.wf(),
    ensures
        final(plane).wf(),
        old(plane).same_shape_ctx(final(plane)),
        final(plane).cur_y() == 0,
        final(plane).cur_x() == 0,
        result is Ok <==> 2 <= old(plane).rows() && 2 <= old(plane).cols(),
        result is Err ==> final(plane).grid() == old(plane).grid() && result == Err::<(), NcError>(
            NcError::InvalidGeometry,
        ),
        result is Ok ==> forall|yy: int, xx: int|
            old(plane).in_bounds(yy, xx) ==> final(plane).cell_at(yy, xx) == frame_or(
                old(plane).cell_at(yy, xx),
                frame_cell_at(
                    0,
                    0,
                    old(plane).rows() - 1,
                    old(plane).cols() - 1,
                    *ul,
                    *ur,
                    *ll,
                    *lr,
                    *hline,
                    *vline,
                    ctlword,
                    yy,
                    xx,
                ),
            ),
{
    let moved = plane.cursor_move_yx(0, 0);
    proof {
        assert(moved is Ok);
    }
    let rows = plane.dim_y();
    let cols = plane.dim_x();
    ncplane_box_sized(plane, ul, ur, ll, lr, hline, vline, rows, cols, ctlword)
}

/// Draws a double-lined frame along the plane's entire perimeter, in the
/// given style mask and channel pair, moving the cursor to the origin
/// first (where it stays).
pub fn ncplane_perimeter_double(
    plane: &mut NcPlane,
    stylemask: NcStyleMask,
    channels: NcChannelPair,
    ctlword: u32,
) -> (result: Result<(), NcError>)
    requires
        old(plane).wf(),
    ensures
        final(plane).wf(),
        old(plane).same_shape_ctx(final(plane)),
        final(plane).cur_y() == 0,
        final(plane).cur_x() == 0,
        result is Ok <==> 2 <= old(plane).rows() && 2 <= old(plane).cols(),
        result is Err ==> final(plane).grid() == old(plane).grid() && result == Err::<(), NcError>(
            NcError::InvalidGeometry,
        ),
        result is Ok ==> forall|yy: int, xx: int|
            old(plane).in_bounds(yy, xx) ==> final(plane).cell_at(yy, xx) == frame_or(
                old(plane).cell_at(yy, xx),
                frame_cell_at(
                    0,
                    0,
                    old(plane).rows() - 1,
                    old(plane).cols() - 1,
                    styled_char_cell('\u{2554}', stylemask, channels),
                    styled_char_cell('\u{2557}', stylemask, channels),
                    styled_char_cell('\u{255a}', stylemask, channels),
                    styled_char_cell('\u{255d}', stylemask, channels),
                    styled_char_cell('\u{2550}', stylemask, channels),
                    styled_char_cell('\u{2551}', stylemask, channels),
                    ctlword,
                    yy,
                    xx,
                ),
            ),
{
    let mut ul = NcCell::new();
    let mut ur = NcCell::new();
    let mut ll = NcCell::new();
    let mut lr = NcCell::new();
    let mut hl = NcCell::new();
    let mut vl = NcCell::new();
    cells_double_box(stylemask, channels, &mut ul, &mut ur, &mut ll, &mut lr, &mut hl, &mut vl);
    ncplane_perimeter(plane, &ul, &ur, &ll, &lr, &hl, &vl, ctlword)
}

/// Draws a rounded frame along the plane's entire perimeter, in the given
/// style mask and channel pair, moving the cursor to the origin first
/// (where it stays).
pub fn ncplane_perimeter_rounded(
    plane: &mut NcPlane,
    stylemask: NcStyleMask,
    channels: NcChannelPair,
    ctlword: u32,
) -> (result: Result<(), NcError>)
    requires
        old(plane).wf(),
    ensures
        final(plane).wf(),
        old(plane).same_shape_ctx(final(plane)),
        final(plane).cur_y() == 0,
        final(plane).cur_x() == 0,
        result is Ok <==> 2 <= old(plane).rows() && 2 <= old(plane).cols(),
        result is Err ==> final(plane).grid() == old(plane).grid() && result == Err::<(), NcError>(
            NcError::InvalidGeometry,
        ),
        result is Ok ==> forall|yy: int, xx: int|
            old(plane).in_bounds(yy, xx) ==> final(plane).cell_at(yy, xx) == frame_or(
                old(plane).cell_at(yy, xx),
                frame_cell_at(
                    0,
                    0,
                    old(plane).rows() - 1,
                    old(plane).cols() - 1,
                    styled_char_cell('\u{256d}', stylemask, channels),
                    styled_char_cell('\u{256e}', stylemask, channels),
                    styled_char_cell('\u{2570}', stylemask, channels),
                    styled_char_cell('\u{256f}', stylemask, channels),
                    styled_char_cell('\u{2500}', stylemask, channels),
                    styled_char_cell('\u{2502}', stylemask, channels),
                    ctlword,
                    yy,
                    xx,
                ),
            ),
{
    let mut ul = NcCell::new();
    let mut ur = NcCell::new();
    let mut ll = NcCell::new();
    let mut lr = NcCell::new();
    let mut hl = NcCell::new();
    let mut vl = NcCell::new();
    cells_rounded_box(stylemask, channels, &mut ul, &mut ur, &mut ll, &mut lr, &mut hl, &mut vl);
    ncplane_perimeter(plane, &ul, &ur, &ll, &lr, &hl, &vl, ctlword)
}

/// Draws a double-lined box from the cursor to corner (`ystop`, `xstop`),
/// in the given style mask and channel pair. The cursor does not move.
pub fn ncplane_double_box(
    plane: &mut NcPlane,
    stylemask: NcStyleMask,
    channels: NcChannelPair,
    ystop: usize,
    xstop: usize,
    ctlword: u32,
) -> (result: Result<(), NcError>)
    requires
        old(plane).wf(),
    ensures
        final(plane).wf(),
        old(plane).same_shape_ctx(final(plane)),
        final(plane).cur_y() == old(plane).cur_y(),
        final(plane).cur_x() == old(plane).cur_x(),
        result is Ok <==> old(plane).box_ok(ystop as int, xstop as int),
        result is Err ==> *final(plane) == *old(plane) && result == Err::<(), NcError>(
            NcError::InvalidGeometry,
        ),
        result is Ok ==> forall|yy: int, xx: int|
            old(plane).in_bounds(yy, xx) ==> final(plane).cell_at(yy, xx) == frame_or(
                old(plane).cell_at(yy, xx),
                frame_cell_at(
                    old(plane).cur_y() as int,
                    old(plane).cur_x() as int,
                    ystop as int,
                    xstop as int,
                    styled_char_cell('\u{2554}', stylemask, channels),
                    styled_char_cell('\u{2557}', stylemask, channels),
                    styled_char_cell('\u{255a}', stylemask, channels),
                    styled_char_cell('\u{255d}', stylemask, channels),
                    styled_char_cell('\u{2550}', stylemask, channels),
                    styled_char_cell('\u{2551}', stylemask, channels),
                    ctlword,
                    yy,
                    xx,
                ),
            ),
{
    let mut ul = NcCell::new();
    let mut ur = NcCell::new();
    let mut ll = NcCell::new();
    let mut lr = NcCell::new();
    let mut hl = NcCell::new();
    let mut vl = NcCell::new();
    cells_double_box(stylemask, channels, &mut ul, &mut ur, &mut ll, &mut lr, &mut hl, &mut vl);
    plane.draw_box(&ul, &ur, &ll, &lr, &hl, &vl, ystop, xstop, ctlword)
}

/// Draws a double-lined box of `ylen` rows and `xlen` columns whose
/// upper-left corner sits at the cursor.
pub fn ncplane_double_box_sized(
    plane: &mut NcPlane,
    stylemask: NcStyleMask,
    channels: NcChannelPair,
    ylen: usize,
    xlen: usize,
    ctlword: u32,
) -> (result: Result<(), NcError>)
    requires
        old(plane).wf(),
    ensures
        final(plane).wf(),
        old(plane).same_shape_ctx(final(plane)),
        final(plane).cur_y() == old(plane).cur_y(),
        final(plane).cur_x() == old(plane).cur_x(),
        result is Ok <==> box_sized_ok(old(plane), ylen as int, xlen as int),
        result is Err ==> *final(plane) == *old(plane) && result == Err::<(), NcError>(
            NcError::InvalidGeometry,
        ),
        result is Ok ==> forall|yy: int, xx: int|
            old(plane).in_bounds(yy, xx) ==> final(plane).cell_at(yy, xx) == frame_or(
                old(plane).cell_at(yy, xx),
                frame_cell_at(
                    old(plane).cur_y() as int,
                    old(plane).cur_x() as int,
                    old(plane).cur_y() + ylen - 1,
                    old(plane).cur_x() + xlen - 1,
                    styled_char_cell('\u{2554}', stylemask, channels),
                    styled_char_cell('\u{2557}', stylemask, channels),
                    styled_char_cell('\u{255a}', stylemask, channels),
                    styled_char_cell('\u{255d}', stylemask, channels),
                    styled_char_cell('\u{2550}', stylemask, channels),
                    styled_char_cell('\u{2551}', stylemask, channels),
                    ctlword,
                    yy,
                    xx,
                ),
            ),
{
    let mut ul = NcCell::new();
    let mut ur = NcCell::new();
    let mut ll = NcCell::new();
    let mut lr = NcCell::new();
    let mut hl = NcCell::new();
    let mut vl = NcCell::new();
    cells_double_box(stylemask, channels, &mut ul, &mut ur, &mut ll, &mut lr, &mut hl, &mut vl);
    ncplane_box_sized(plane, &ul, &ur, &ll, &lr, &hl, &vl, ylen, xlen, ctlword)
}

/// Draws a rounded box from the cursor to corner (`ystop`, `xstop`), in
/// the given style mask and channel pair. The cursor does not move.
pub fn ncplane_rounded_box(
    plane: &mut NcPlane,
    stylemask: NcStyleMask,
    channels: NcChannelPair,
    ystop: usize,
    xstop: usize,
    ctlword: u32,
) -> (result: Result<(), NcError>)
    requires
        old(plane).wf(),
    ensures
        final(plane).wf(),
        old(plane).same_shape_ctx(final(plane)),
        final(plane).cur_y() == old(plane).cur_y(),
        final(plane).cur_x() == old(plane).cur_x(),
        result is Ok <==> old(plane).box_ok(ystop as int, xstop as int),
        result is Err ==> *final(plane) == *old(plane) && result == Err::<(), NcError>(
            NcError::InvalidGeometry,
        ),
        result is Ok ==> forall|yy: int, xx: int|
            old(plane).in_bounds(yy, xx) ==> final(plane).cell_at(yy, xx) == frame_or(
                old(plane).cell_at(yy, xx),
                frame_cell_at(
                    old(plane).cur_y() as int,
                    old(plane).cur_x() as int,
                    ystop as int,
                    xstop as int,
                    styled_char_cell('\u{256d}', stylemask, channels),
                    styled_char_cell('\u{256e}', stylemask, channels),
                    styled_char_cell('\u{2570}', stylemask, channels),
                    styled_char_cell('\u{256f}', stylemask, channels),
                    styled_char_cell('\u{2500}', stylemask, channels),
                    styled_char_cell('\u{2502}', stylemask, channels),
                    ctlword,
                    yy,
                    xx,
                ),
            ),
{
    let mut ul = NcCell::new();
    let mut ur = NcCell::new();
    let mut ll = NcCell::new();
    let mut lr = NcCell::new();
    let mut hl = NcCell::new();
    let mut vl = NcCell::new();
    cells_rounded_box(stylemask, channels, &mut ul, &mut ur, &mut ll, &mut lr, &mut hl, &mut vl);
    plane.draw_box(&ul, &ur, &ll, &lr, &hl, &vl, ystop, xstop, ctlword)
}

/// Draws a rounded box of `ylen` rows and `xlen` columns whose upper-left
/// corner sits at the cursor.
pub fn ncplane_rounded_box_sized(
    plane: &mut NcPlane,
    stylemask: NcStyleMask,
    channels: NcChannelPair,
    ylen: usize,
    xlen: usize,
    ctlword: u32,
) -> (result: Result<(), NcError>)
    requires
        old(plane).wf(),
    ensures
        final(plane).wf(),
        old(plane).same_shape_ctx(final(plane)),
        final(plane).cur_y() == old(plane).cur_y(),
        final(plane).cur_x() == old(plane).cur_x(),
        result is Ok <==> box_sized_ok(old(plane), ylen as int, xlen as int),
        result is Err ==> *final(plane) == *old(plane) && result == Err::<(), NcError>(
            NcError::InvalidGeometry,
        ),
        result is Ok ==> forall|yy: int, xx: int|
            old(plane).in_bounds(yy, xx) ==> final(plane).cell_at(yy, xx) == frame_or(
                old(plane).cell_at(yy, xx),
                frame_cell_at(
                    old(plane).cur_y() as int,
                    old(plane).cur_x() as int,
                    old(plane).cur_y() + ylen - 1,
                    old(plane).cur_x() + xlen - 1,
                    styled_char_cell('\u{256d}', stylemask, channels),
                    styled_char_cell('\u{256e}', stylemask, channels),
                    styled_char_cell('\u{2570}', stylemask, channels),
                    styled_char_cell('\u{256f}', stylemask, channels),
                    styled_char_cell('\u{2500}', stylemask, channels),
                    styled_char_cell('\u{2502}', stylemask, channels),
                    ctlword,
                    yy,
                    xx,
                ),
            ),
{
    let mut ul = NcCell::new();
    let mut ur = NcCell::new();
    let mut ll = NcCell::new();
    let mut lr = NcCell::new();
    let mut hl = NcCell::new();
    let mut vl = NcCell::new();
    cells_rounded_box(stylemask, channels, &mut ul, &mut ur, &mut ll, &mut lr, &mut hl, &mut vl);
    ncplane_box_sized(plane, &ul, &ur, &ll, &lr, &hl, &vl, ylen, xlen, ctlword)
}

/// Fills the rectangle from the cursor to corner (`ystop`, `xstop`) with
/// the given glyph cluster and style, bilinearly interpolating the four
/// corner channel pairs across it.
pub fn ncplane_gradient(
    plane: &mut NcPlane,
    egc: &NcEgc,
    stylemask: NcStyleMask,
    ul: NcChannelPair,
    ur: NcChannelPair,
    ll: NcChannelPair,
    lr: NcChannelPair,
    ystop: usize,
    xstop: usize,
) -> (result: Result<(), NcError>)
    requires
        old(plane).wf(),
        egc.wf(),
    ensures
        final(plane).wf(),
        old(plane).same_shape_ctx(final(plane)),
        final(plane).cur_y() == old(plane).cur_y(),
        final(plane).cur_x() == old(plane).cur_x(),
        result is Ok <==> old(plane).gradient_ok(ystop as int, xstop as int),
        result is Err ==> *final(plane) == *old(plane) && result == Err::<(), NcError>(
            NcError::InvalidGeometry,
        ),
        result is Ok ==> forall|yy: int, xx: int|
            old(plane).in_bounds(yy, xx) ==> final(plane).cell_at(yy, xx) == gradient_result_cell(
                *old(plane),
                *egc,
                stylemask,
                ul,
                ur,
                ll,
                lr,
                ystop as int,
                xstop as int,
                yy,
                xx,
            ),
{
    plane.gradient(egc, stylemask, ul, ur, ll, lr, ystop, xstop)
}

/// Whether a gradient of `ylen` rows and `xlen` columns anchored at the
/// plane's cursor is geometrically valid: at least one cell each way,
/// entirely on the plane.
pub open spec fn gradient_sized_ok(p: &NcPlane, ylen: int, xlen: int) -> bool {
    &&& 1 <= ylen
    &&& 1 <= xlen
    &&& p.cur_y() + ylen <= p.rows()
    &&& p.cur_x() + xlen <= p.cols()
}

/// Fills the rectangle of `ylen` rows and `xlen` columns whose upper-left
/// corner sits at the cursor with the given glyph cluster and style,
/// bilinearly interpolating the four corner channel pairs across it.
pub fn ncplane_gradient_sized(
    plane: &mut NcPlane,
    egc: &NcEgc,
    stylemask: NcStyleMask,
    ul: NcChannelPair,
    ur: NcChannelPair,
    ll: NcChannelPair,
    lr: NcChannelPair,
    ylen: usize,
    xlen: usize,
) -> (result: Result<(), NcError>)
    requires
        old(plane).wf(),
        egc.wf(),
    ensures
        final(plane).wf(),
        old(plane).same_shape_ctx(final(plane)),
        final(plane).cur_y() == old(plane).cur_y(),
        final(plane).cur_x() == old(plane).cur_x(),
        result is Ok <==> gradient_sized_ok(old(plane), ylen as int, xlen as int),
        result is Err ==> *final(plane) == *old(plane) && result == Err::<(), NcError>(
            NcError::InvalidGeometry,
        ),
        result is Ok ==> forall|yy: int, xx: int|
            old(plane).in_bounds(yy, xx) ==> final(plane).cell_at(yy, xx) == gradient_result_cell(
                *old(plane),
                *egc,
                stylemask,
                ul,
                ur,
                ll,
                lr,
                old(plane).cur_y() + ylen - 1,
                old(plane).cur_x() + xlen - 1,
                yy,
                xx,
            ),
{
    let (cy, cx): (usize, usize) = plane.cursor_yx();
    if ylen < 1 || xlen < 1 {
        return Err(NcError::InvalidGeometry);
    }
    if ylen > plane.dim_y() || cy > plane.dim_y() - ylen || xlen > plane.dim_x() || cx
        > plane.dim_x() - xlen {
        return Err(NcError::InvalidGeometry);
    }
    plane.gradient(egc, stylemask, ul, ur, ll, lr, cy + ylen - 1, cx + xlen - 1)
}

} // verus!
