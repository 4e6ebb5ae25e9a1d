use nccore::cell::{NcCell, NcEgc};
use nccore::plane::{ncplane_at_yx_cell, NcPlane};
use nccore::boxes::{
    cells_double_box, cells_rounded_box, ncplane_box, ncplane_double_box,
    ncplane_double_box_sized, ncplane_gradient_sized, ncplane_perimeter_double,
    ncplane_perimeter_rounded, ncplane_rounded_box, NCBOXMASK_TOP, NCBOXMASK_UL,
};
use nccore::NcError;

fn glyph_at(plane: &NcPlane, y: usize, x: usize) -> NcEgc {
    let mut cell = NcCell::new();
    assert!(ncplane_at_yx_cell(plane, y, x, &mut cell).is_ok());
    cell.gcluster
}

#[test]
fn double_box_cells_glyphs() {
    let mut ul = NcCell::new();
    let mut ur = NcCell::new();
    let mut ll = NcCell::new();
    let mut lr = NcCell::new();
    let mut hl = NcCell::new();
    let mut vl = NcCell::new();
    cells_double_box(3, 4, &mut ul, &mut ur, &mut ll, &mut lr, &mut hl, &mut vl);
    assert_eq!(ul, NcCell::with_all('\u{2554}', 3, 4));
    assert_eq!(ur, NcCell::with_all('\u{2557}', 3, 4));
    assert_eq!(ll, NcCell::with_all('\u{255a}', 3, 4));
    assert_eq!(lr, NcCell::with_all('\u{255d}', 3, 4));
    assert_eq!(hl, NcCell::with_all('\u{2550}', 3, 4));
    assert_eq!(vl, NcCell::with_all('\u{2551}', 3, 4));
    cells_rounded_box(1, 2, &mut ul, &mut ur, &mut ll, &mut lr, &mut hl, &mut vl);
    assert_eq!(ul, NcCell::with_all('\u{256d}', 1, 2));
    assert_eq!(hl, NcCell::with_all('\u{2500}', 1, 2));
}

#[test]
fn perimeter_double_draws_frame() {
    let mut plane = NcPlane::new(4, 4);
    assert!(ncplane_perimeter_double(&mut plane, 0, 0, 0).is_ok());
    assert_eq!(glyph_at(&plane, 0, 0), NcEgc::Char('\u{2554}'));
    assert_eq!(glyph_at(&plane, 0, 1), NcEgc::Char('\u{2550}'));
    assert_eq!(glyph_at(&plane, 0, 3), NcEgc::Char('\u{2557}'));
    assert_eq!(glyph_at(&plane, 1, 0), NcEgc::Char('\u{2551}'));
    assert_eq!(glyph_at(&plane, 2, 3), NcEgc::Char('\u{2551}'));
    assert_eq!(glyph_at(&plane, 3, 0), NcEgc::Char('\u{255a}'));
    assert_eq!(glyph_at(&plane, 3, 2), NcEgc::Char('\u{2550}'));
    assert_eq!(glyph_at(&plane, 3, 3), NcEgc::Char('\u{255d}'));
    // the interior is untouched
    assert_eq!(glyph_at(&plane, 1, 1), NcEgc::Char('\0'));
    assert_eq!(glyph_at(&plane, 2, 2), NcEgc::Char('\0'));
}

#[test]
fn perimeter_rounded_draws_frame() {
    let mut plane = NcPlane::new(3, 3);
    assert!(ncplane_perimeter_rounded(&mut plane, 0, 0, 0).is_ok());
    assert_eq!(glyph_at(&plane, 0, 0), NcEgc::Char('\u{256d}'));
    assert_eq!(glyph_at(&plane, 0, 2), NcEgc::Char('\u{256e}'));
    assert_eq!(glyph_at(&plane, 2, 0), NcEgc::Char('\u{2570}'));
    assert_eq!(glyph_at(&plane, 2, 2), NcEgc::Char('\u{256f}'));
    assert_eq!(glyph_at(&plane, 1, 0), NcEgc::Char('\u{2502}'));
    assert_eq!(glyph_at(&plane, 0, 1), NcEgc::Char('\u{2500}'));
}

#[test]
fn box_too_small_is_invalid_geometry() {
    let mut plane = NcPlane::new(10, 10);
    // y_stop - cursor_y < 1
    assert_eq!(ncplane_double_box(&mut plane, 0, 0, 0, 5, 0), Err(NcError::InvalidGeometry));
    // x_stop - cursor_x < 1
    assert_eq!(ncplane_double_box(&mut plane, 0, 0, 5, 0, 0), Err(NcError::InvalidGeometry));
    // off the plane
    assert_eq!(ncplane_double_box(&mut plane, 0, 0, 10, 5, 0), Err(NcError::InvalidGeometry));
    // the 2x2 minimum passes
    assert!(ncplane_double_box(&mut plane, 0, 0, 1, 1, 0).is_ok());
    assert_eq!(ncplane_double_box_sized(&mut plane, 0, 0, 1, 5, 0), Err(NcError::InvalidGeometry));
}

#[test]
fn box_control_word_suppresses() {
    let mut plane = NcPlane::new(4, 4);
    assert!(ncplane_double_box(&mut plane, 0, 0, 3, 3, NCBOXMASK_TOP | NCBOXMASK_UL).is_ok());
    // suppressed: the top edge and the upper-left corner stay blank
    assert_eq!(glyph_at(&plane, 0, 0), NcEgc::Char('\0'));
    assert_eq!(glyph_at(&plane, 0, 1), NcEgc::Char('\0'));
    // the rest of the frame is drawn
    assert_eq!(glyph_at(&plane, 0, 3), NcEgc::Char('\u{2557}'));
    assert_eq!(glyph_at(&plane, 1, 0), NcEgc::Char('\u{2551}'));
    assert_eq!(glyph_at(&plane, 3, 1), NcEgc::Char('\u{2550}'));
}

#[test]
fn rounded_box_from_cursor() {
    let mut plane = NcPlane::new(5, 5);
    assert!(plane.cursor_move_yx(1, 1).is_ok());
    assert!(ncplane_rounded_box(&mut plane, 0, 0, 3, 3, 0).is_ok());
    assert_eq!(glyph_at(&plane, 1, 1), NcEgc::Char('\u{256d}'));
    assert_eq!(glyph_at(&plane, 3, 3), NcEgc::Char('\u{256f}'));
    // outside the frame nothing moved
    assert_eq!(glyph_at(&plane, 0, 0), NcEgc::Char('\0'));
    assert_eq!(glyph_at(&plane, 4, 4), NcEgc::Char('\0'));
}

#[test]
fn box_with_custom_cells() {
    let mut plane = NcPlane::new(3, 3);
    let ul = NcCell::with_7bitchar('1');
    let ur = NcCell::with_7bitchar('2');
    let ll = NcCell::with_7bitchar('3');
    let lr = NcCell::with_7bitchar('4');
    let hl = NcCell::with_7bitchar('-');
    let vl = NcCell::with_7bitchar('!');
    assert!(ncplane_box(&mut plane, &ul, &ur, &ll, &lr, &hl, &vl, 2, 2, 0).is_ok());
    assert_eq!(glyph_at(&plane, 0, 0), NcEgc::Char('1'));
    assert_eq!(glyph_at(&plane, 0, 2), NcEgc::Char('2'));
    assert_eq!(glyph_at(&plane, 2, 0), NcEgc::Char('3'));
    assert_eq!(glyph_at(&plane, 2, 2), NcEgc::Char('4'));
    assert_eq!(glyph_at(&plane, 0, 1), NcEgc::Char('-'));
    assert_eq!(glyph_at(&plane, 1, 0), NcEgc::Char('!'));
}

#[test]
fn gradient_rejects_empty_rectangle() {
    let mut plane = NcPlane::new(3, 3);
    let egc = NcEgc::Char('+');
    assert_eq!(
        ncplane_gradient_sized(&mut plane, &egc, 0, 0, 0, 0, 0, 0, 3),
        Err(NcError::InvalidGeometry)
    );
    assert_eq!(
        ncplane_gradient_sized(&mut plane, &egc, 0, 0, 0, 0, 0, 3, 0),
        Err(NcError::InvalidGeometry)
    );
    assert_eq!(
        ncplane_gradient_sized(&mut plane, &egc, 0, 0, 0, 0, 0, 4, 3),
        Err(NcError::InvalidGeometry)
    );
}

#[test]
fn gradient_interpolates_bilinearly() {
    let mut plane = NcPlane::new(3, 3);
    let egc = NcEgc::Char('+');
    let ul: u64 = 0;
    let ur: u64 = (80u64 << 16) << 32;
    let ll: u64 = (40u64 << 16) << 32;
    let lr: u64 = (120u64 << 16) << 32;
    assert!(ncplane_gradient_sized(&mut plane, &egc, 9, ul, ur, ll, lr, 3, 3).is_ok());
    let mut cell = NcCell::new();
    // the corners hit the four channel pairs exactly
    assert!(ncplane_at_yx_cell(&plane, 0, 0, &mut cell).is_ok());
    assert_eq!(cell.channels, ul);
    assert_eq!(cell.gcluster, NcEgc::Char('+'));
    assert_eq!(cell.stylemask, 9);
    assert!(ncplane_at_yx_cell(&plane, 0, 2, &mut cell).is_ok());
    assert_eq!(cell.channels, ur);
    assert!(ncplane_at_yx_cell(&plane, 2, 0, &mut cell).is_ok());
    assert_eq!(cell.channels, ll);
    assert!(ncplane_at_yx_cell(&plane, 2, 2, &mut cell).is_ok());
    assert_eq!(cell.channels, lr);
    // the centre averages the column edges: ((0+40)/2 + (80+120)/2) / 2 = 60
    assert!(ncplane_at_yx_cell(&plane, 1, 1, &mut cell).is_ok());
    assert_eq!(cell.channels, (60u64 << 16) << 32);
}
