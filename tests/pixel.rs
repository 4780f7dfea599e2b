use fbterm::{Pixel, Saturating, RGB565, RGBA8888, XRGB8888};

#[test]
fn rgba8888_round_trip_is_exact() {
    let p = RGBA8888::new(0xab, 0xcd, 0xef, 0x12);
    assert_eq!(p.get(), (0xab, 0xcd, 0xef, 0x12));
    assert_eq!((p.a, p.b, p.g, p.r), (0x12, 0xef, 0xcd, 0xab));
    assert_eq!(RGBA8888::size(), 4);
}

#[test]
fn xrgb8888_round_trip_is_exact() {
    let p = XRGB8888::new(0x11, 0x22, 0x33, 0x44);
    assert_eq!(p.value, 0x4411_2233);
    assert_eq!(p.get(), (0x11, 0x22, 0x33, 0x44));
    assert_eq!(XRGB8888::size(), 4);
}

#[test]
fn rgb565_round_trip_truncates_channels() {
    let p = RGB565::new(0xab, 0xcd, 0xef, 0x12);
    assert_eq!(p.get(), (0xa8, 0xcc, 0xe8, 0));
    assert_eq!(RGB565::new(0xff, 0xff, 0xff, 0xff).value, 0xffff);
    assert_eq!(RGB565::new(0xff, 0, 0, 0).value, 0xf800);
    assert_eq!(RGB565::new(0, 0xff, 0, 0).value, 0x07e0);
    assert_eq!(RGB565::new(0, 0, 0xff, 0).value, 0x001f);
    assert_eq!(RGB565::size(), 2);
}

#[test]
fn saturating_clamps_to_its_bound() {
    let mut s = Saturating::new(10);
    assert_eq!(s.get(), 0);
    s.set(25);
    assert_eq!(s.get(), 10);
    s.set(4);
    assert_eq!(s.add_check(7), (11, true));
    assert_eq!(s.add_check(6), (10, false));
    assert_eq!(s.get(), 4);
    s.add_assign(3);
    assert_eq!(s.get(), 7);
    s.add_assign(100);
    assert_eq!(s.get(), 10);
    s.sub_assign(3);
    assert_eq!(s.get(), 7);
    s.sub_assign(100);
    assert_eq!(s.get(), 0);
}
