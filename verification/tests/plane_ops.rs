use nccore::cell::{NcCell, NcEgc};
use nccore::plane::{
    ncplane_at_yx_cell, ncplane_dim_x, ncplane_dim_y, ncplane_hline, ncplane_putchar,
    ncplane_putchar_yx, ncplane_putstr, ncplane_resize_simple, ncplane_vline, NcPlane,
};
use nccore::align::{ncplane_align, notcurses_align, NcAlign};
use nccore::NcError;

#[test]
fn fresh_plane_is_blank() {
    let plane = NcPlane::new(3, 4);
    assert_eq!(ncplane_dim_y(&plane), 3);
    assert_eq!(ncplane_dim_x(&plane), 4);
    assert_eq!(plane.cursor_yx(), (0, 0));
    let mut cell = NcCell::with_all('x', 1, 2);
    assert!(ncplane_at_yx_cell(&plane, 2, 3, &mut cell).is_ok());
    assert_eq!(cell.gcluster, NcEgc::Char('\0'));
    assert_eq!(cell.stylemask, 0);
    assert_eq!(cell.channels, 0);
}

#[test]
fn putchar_then_at_scenario() {
    // a 10x10 plane: put_char at the origin, read it back, then overrun
    // an hline
    let mut plane = NcPlane::new(10, 10);
    assert!(ncplane_putchar_yx(&mut plane, 0, 0, 'X').is_ok());
    let mut cell = NcCell::new();
    assert!(ncplane_at_yx_cell(&plane, 0, 0, &mut cell).is_ok());
    assert_eq!(cell.gcluster, NcEgc::Char('X'));

    assert!(plane.cursor_move_yx(0, 0).is_ok());
    let line_cell = NcCell::with_7bitchar('-');
    assert_eq!(ncplane_hline(&mut plane, &line_cell, 15), -10);
}

#[test]
fn putchar_uses_plane_context() {
    let mut plane = NcPlane::new(2, 2);
    plane.set_styles(0x8);
    plane.set_channels(0x1234_5678_9abc_def0);
    assert!(ncplane_putchar(&mut plane, 'k').is_ok());
    assert_eq!(plane.cursor_yx(), (0, 1));
    let mut cell = NcCell::new();
    assert!(ncplane_at_yx_cell(&plane, 0, 0, &mut cell).is_ok());
    assert_eq!(cell.gcluster, NcEgc::Char('k'));
    assert_eq!(cell.stylemask, 0x8);
    // bit 63 of the read cell keeps the out-cell's wide flag, which is clear
    assert_eq!(cell.channels, 0x1234_5678_9abc_def0);
}

#[test]
fn put_cell_round_trip() {
    let mut plane = NcPlane::new(4, 4);
    let cell = NcCell::with_cluster(String::from("ab"), 7, 42);
    assert!(plane.put_cell_yx(2, 1, &cell).is_ok());
    assert_eq!(plane.cursor_yx(), (2, 2));
    let mut read = NcCell::new();
    assert!(ncplane_at_yx_cell(&plane, 2, 1, &mut read).is_ok());
    assert_eq!(read.gcluster, NcEgc::Cluster(String::from("ab")));
    assert_eq!(read.stylemask, 7);
    assert_eq!(read.channels, 42);
    assert_eq!(read, cell);
}

#[test]
fn out_of_bounds_reports() {
    let mut plane = NcPlane::new(10, 10);
    assert_eq!(ncplane_putchar_yx(&mut plane, 10, 0, 'x'), Err(NcError::OutOfBounds));
    assert_eq!(ncplane_putchar_yx(&mut plane, 0, 10, 'x'), Err(NcError::OutOfBounds));
    let mut cell = NcCell::new();
    assert_eq!(ncplane_at_yx_cell(&plane, 10, 0, &mut cell), Err(NcError::OutOfBounds));
    assert_eq!(plane.cursor_move_yx(3, 10), Err(NcError::OutOfBounds));
}

#[test]
fn wide_continuation_read_fails_without_corruption() {
    let mut plane = NcPlane::new(2, 2);
    let wide = NcCell::with_all('W', 5, 0x8000_0000_0000_0000);
    assert!(plane.put_cell_yx(0, 0, &wide).is_ok());
    let mut read = NcCell::new();
    assert_eq!(ncplane_at_yx_cell(&plane, 0, 0, &mut read), Err(NcError::GlyphReadError));
    // style and channels come back; the glyph cluster stays as it was
    assert_eq!(read.stylemask, 5);
    assert_eq!(read.channels, 0);
    assert_eq!(read.gcluster, NcEgc::Char('\0'));
}

#[test]
fn resize_keep_nothing_clears() {
    let mut plane = NcPlane::new(4, 4);
    assert!(ncplane_putchar_yx(&mut plane, 0, 0, 'X').is_ok());
    assert!(plane.resize(0, 0, 0, 0, 0, 0, 4, 4).is_ok());
    let mut cell = NcCell::with_all('y', 9, 9);
    assert!(ncplane_at_yx_cell(&plane, 0, 0, &mut cell).is_ok());
    assert_eq!(cell.gcluster, NcEgc::Char('\0'));
    assert_eq!(cell.stylemask, 0);
    assert_eq!(cell.channels, 0);
    assert_eq!(plane.cursor_yx(), (0, 0));
}

#[test]
fn resize_translates_kept_rectangle() {
    let mut plane = NcPlane::new(4, 4);
    assert!(ncplane_putchar_yx(&mut plane, 1, 1, 'X').is_ok());
    // keep the 2x2 block at (1,1), land it at (0,0) of a 5x5 plane
    assert!(plane.resize(1, 1, 2, 2, 0, 0, 5, 5).is_ok());
    let mut cell = NcCell::new();
    assert!(ncplane_at_yx_cell(&plane, 0, 0, &mut cell).is_ok());
    assert_eq!(cell.gcluster, NcEgc::Char('X'));
    // a cell outside the kept rectangle is blank
    assert!(ncplane_at_yx_cell(&plane, 4, 4, &mut cell).is_ok());
    assert_eq!(cell.gcluster, NcEgc::Char('\0'));
}

#[test]
fn resize_rejects_bad_geometry() {
    let mut plane = NcPlane::new(4, 4);
    // keep-rectangle leaves the old bounds
    assert_eq!(plane.resize(3, 3, 3, 3, 0, 0, 6, 6), Err(NcError::InvalidGeometry));
    // keep-rectangle leaves the new bounds
    assert_eq!(plane.resize(0, 0, 2, 2, 3, 3, 4, 4), Err(NcError::InvalidGeometry));
    // one keep length zero, the other not
    assert_eq!(plane.resize(0, 0, 0, 2, 0, 0, 4, 4), Err(NcError::InvalidGeometry));
    // empty target
    assert_eq!(ncplane_resize_simple(&mut plane, 0, 5), Err(NcError::InvalidGeometry));
}

#[test]
fn resize_simple_keeps_overlap() {
    let mut plane = NcPlane::new(10, 10);
    assert!(ncplane_putchar_yx(&mut plane, 0, 0, 'X').is_ok());
    assert!(ncplane_resize_simple(&mut plane, 5, 6).is_ok());
    assert_eq!(ncplane_dim_y(&plane), 5);
    assert_eq!(ncplane_dim_x(&plane), 6);
    let mut cell = NcCell::new();
    assert!(ncplane_at_yx_cell(&plane, 0, 0, &mut cell).is_ok());
    assert_eq!(cell.gcluster, NcEgc::Char('X'));
}

#[test]
fn hline_truncation_counts() {
    let mut plane = NcPlane::new(1, 10);
    let cell = NcCell::with_7bitchar('=');
    // cursor at column 7: three columns remain of a five-cell request
    assert!(plane.cursor_move_yx(0, 7).is_ok());
    assert_eq!(ncplane_hline(&mut plane, &cell, 5), -3);
    assert_eq!(plane.cursor_yx(), (0, 10));
    // a run that fits returns its full length
    assert!(plane.cursor_move_yx(0, 0).is_ok());
    assert_eq!(ncplane_hline(&mut plane, &cell, 4), 4);
    assert_eq!(plane.cursor_yx(), (0, 4));
}

#[test]
fn vline_draws_and_truncates() {
    let mut plane = NcPlane::new(10, 10);
    let cell = NcCell::with_7bitchar('|');
    assert_eq!(ncplane_vline(&mut plane, &cell, 3), 3);
    assert_eq!(plane.cursor_yx(), (3, 0));
    let mut read = NcCell::new();
    assert!(ncplane_at_yx_cell(&plane, 2, 0, &mut read).is_ok());
    assert_eq!(read.gcluster, NcEgc::Char('|'));
    assert!(plane.cursor_move_yx(8, 0).is_ok());
    assert_eq!(ncplane_vline(&mut plane, &cell, 5), -2);
}

#[test]
fn hline_interpolates_linearly() {
    let mut plane = NcPlane::new(1, 10);
    let cell = NcCell::with_7bitchar('=');
    let fg1: u64 = ((10u64 << 16) | (20 << 8) | 30) << 32;
    let fg2: u64 = ((110u64 << 16) | (120 << 8) | 130) << 32;
    assert_eq!(plane.hline_interp(&cell, 5, fg1, fg2), 5);
    let mut read = NcCell::new();
    // endpoints hit the two channel pairs exactly
    assert!(ncplane_at_yx_cell(&plane, 0, 0, &mut read).is_ok());
    assert_eq!(read.channels, fg1);
    assert!(ncplane_at_yx_cell(&plane, 0, 4, &mut read).is_ok());
    assert_eq!(read.channels, fg2);
    // the midpoint averages each component: (60, 70, 80)
    assert!(ncplane_at_yx_cell(&plane, 0, 2, &mut read).is_ok());
    assert_eq!(read.channels, ((60u64 << 16) | (70 << 8) | 80) << 32);
}

#[test]
fn putstr_writes_and_truncates() {
    let mut plane = NcPlane::new(2, 8);
    assert_eq!(ncplane_putstr(&mut plane, "hey"), 3);
    assert_eq!(plane.cursor_yx(), (0, 3));
    let mut cell = NcCell::new();
    assert!(ncplane_at_yx_cell(&plane, 0, 0, &mut cell).is_ok());
    assert_eq!(cell.gcluster, NcEgc::Char('h'));
    assert!(ncplane_at_yx_cell(&plane, 0, 2, &mut cell).is_ok());
    assert_eq!(cell.gcluster, NcEgc::Char('y'));
    // only five columns remain for a seven-character string
    assert_eq!(ncplane_putstr(&mut plane, "striped"), -5);
    assert_eq!(plane.cursor_yx(), (0, 8));
    assert!(ncplane_at_yx_cell(&plane, 0, 7, &mut cell).is_ok());
    assert_eq!(cell.gcluster, NcEgc::Char('p'));
}

#[test]
fn align_columns() {
    assert_eq!(notcurses_align(10, NcAlign::Left, 4), 0);
    assert_eq!(notcurses_align(10, NcAlign::Center, 4), 3);
    assert_eq!(notcurses_align(10, NcAlign::Right, 4), 6);
    assert_eq!(notcurses_align(10, NcAlign::Unaligned, 4), usize::MAX);
    // a span as wide as the area, or wider, starts at the left edge
    assert_eq!(notcurses_align(4, NcAlign::Center, 10), 0);
    assert_eq!(notcurses_align(4, NcAlign::Right, 4), 0);

    let plane = NcPlane::new(5, 10);
    assert_eq!(ncplane_align(&plane, NcAlign::Center, 4), 3);
    assert_eq!(ncplane_align(&plane, NcAlign::Right, 2), 8);
}
