use nccore::pixel::{
    ncpixel, ncpixel_a, ncpixel_b, ncpixel_g, ncpixel_r, ncpixel_set_a, ncpixel_set_b,
    ncpixel_set_g, ncpixel_set_r, ncpixel_set_rgb,
};
use nccore::channel::{
    channels_bchannel, channels_bg_alpha, channels_bg_default_p, channels_bg_rgb,
    channels_bg_rgb8, channels_fchannel, channels_fg_alpha, channels_fg_default_p,
    channels_fg_rgb, channels_fg_rgb8,
};

#[test]
fn pixel_pack_layout() {
    // alpha(8) / green(8) / blue(8) / red(8), alpha fixed at 0xff
    assert_eq!(ncpixel(1, 2, 3), 0xff020301);
    assert_eq!(ncpixel(0, 0, 0), 0xff000000);
    assert_eq!(ncpixel(0xff, 0xff, 0xff), 0xffffffff);
}

#[test]
fn pixel_pack_round_trip() {
    for &(r, g, b) in &[(0u8, 0u8, 0u8), (1, 2, 3), (255, 255, 255), (0x12, 0xff, 0)] {
        let p = ncpixel(r, g, b);
        assert_eq!(ncpixel_r(p), r);
        assert_eq!(ncpixel_g(p), g);
        assert_eq!(ncpixel_b(p), b);
        assert_eq!(ncpixel_a(p), 0xff);
    }
}

#[test]
fn pixel_setters_isolate_channels() {
    let mut p: u32 = 0;
    ncpixel_set_r(&mut p, 0x11);
    assert_eq!(p, 0x00000011);
    ncpixel_set_g(&mut p, 0x22);
    assert_eq!(p, 0x00220011);
    ncpixel_set_b(&mut p, 0x33);
    assert_eq!(p, 0x00223311);
    ncpixel_set_a(&mut p, 0xab);
    assert_eq!(p, 0xab223311);

    // replacing one channel leaves the other three untouched
    let before = p;
    ncpixel_set_g(&mut p, 0x99);
    assert_eq!(ncpixel_r(p), ncpixel_r(before));
    assert_eq!(ncpixel_b(p), ncpixel_b(before));
    assert_eq!(ncpixel_a(p), ncpixel_a(before));
    assert_eq!(ncpixel_g(p), 0x99);
}

#[test]
fn pixel_set_rgb_keeps_alpha() {
    let mut p = ncpixel(9, 9, 9);
    ncpixel_set_a(&mut p, 0x55);
    ncpixel_set_rgb(&mut p, 1, 2, 3);
    assert_eq!(ncpixel_r(p), 1);
    assert_eq!(ncpixel_g(p), 2);
    assert_eq!(ncpixel_b(p), 3);
    assert_eq!(ncpixel_a(p), 0x55);
}

#[test]
fn channel_pair_accessors() {
    let fg: u32 = 0x4000_0000 | (10 << 16) | (20 << 8) | 30;
    let bg: u32 = 0x3000_0000 | (1 << 16) | (2 << 8) | 3;
    let pair: u64 = ((fg as u64) << 32) | (bg as u64);
    assert_eq!(channels_fchannel(pair), fg);
    assert_eq!(channels_bchannel(pair), bg);
    assert_eq!(channels_fg_rgb(pair), 0x0a141e);
    assert_eq!(channels_bg_rgb(pair), 0x010203);
    assert_eq!(channels_fg_alpha(pair), 0);
    assert_eq!(channels_bg_alpha(pair), 3);
    assert!(!channels_fg_default_p(pair));
    assert!(channels_bg_default_p(pair));
}

#[test]
fn channel_pair_rgb8() {
    let fg: u32 = (10 << 16) | (20 << 8) | 30;
    let bg: u32 = (40 << 16) | (50 << 8) | 60;
    let pair: u64 = ((fg as u64) << 32) | (bg as u64);
    let (mut r, mut g, mut b) = (0u8, 0u8, 0u8);
    assert_eq!(channels_fg_rgb8(pair, &mut r, &mut g, &mut b), fg);
    assert_eq!((r, g, b), (10, 20, 30));
    assert_eq!(channels_bg_rgb8(pair, &mut r, &mut g, &mut b), bg);
    assert_eq!((r, g, b), (40, 50, 60));
}
