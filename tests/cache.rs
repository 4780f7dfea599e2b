use fbterm::{Cow, Font, Glyph, GlyphCache, Point, VGAFont, VGAFontConfig};

fn glyph(width: usize, height: usize, fill: u8) -> Glyph {
    Glyph::from_raster(width, height, width + 1, 1, -2, 10, vec![fill; width * height])
}

#[test]
fn raster_metrics_place_the_glyph_on_the_baseline() {
    let g = glyph(3, 5, 9);
    assert_eq!((g.width, g.height, g.advance, g.x, g.y), (3, 5, 4, 1, 7));
    assert_eq!(g.data.bytes(), &[9u8; 15][..]);
}

#[test]
fn shared_glyphs_keep_their_bytes() {
    let g = glyph(2, 2, 4);
    let s = g.share();
    assert_eq!(s.data.bytes(), g.data.bytes());
    assert_eq!((s.width, s.height, s.y), (2, 2, 10));
    let b = Cow::Borrowed(&[1, 2, 3]);
    assert_eq!(b.share().bytes(), &[1, 2, 3]);
}

#[test]
fn cache_returns_what_was_put() {
    let mut c = GlyphCache::new(4);
    assert!(c.get('a').is_none());
    c.put('a', glyph(2, 1, 5));
    c.put('b', glyph(1, 1, 6));
    let a = c.get('a').unwrap();
    assert_eq!(a.data.bytes(), &[5, 5]);
    assert_eq!(c.get('b').unwrap().data.bytes(), &[6]);
    c.put('a', glyph(1, 1, 7));
    assert_eq!(c.get('a').unwrap().data.bytes(), &[7]);
}

#[test]
fn full_cache_evicts_the_least_recently_used() {
    let mut c = GlyphCache::new(2);
    c.put('a', glyph(1, 1, 1));
    c.put('b', glyph(1, 1, 2));
    assert!(c.get('a').is_some());
    c.put('c', glyph(1, 1, 3));
    assert!(c.get('b').is_none());
    assert_eq!(c.get('a').unwrap().data.bytes(), &[1]);
    assert_eq!(c.get('c').unwrap().data.bytes(), &[3]);
    c.put('d', glyph(1, 1, 4));
    assert!(c.get('a').is_none());
    assert_eq!(c.get('d').unwrap().data.bytes(), &[4]);
}

#[test]
fn bitmap_glyphs_sample_bits_from_the_top_bit() {
    let mut t = vec![0u8; 256 * 8];
    t[65 * 8 + 2] = 0b1010_0000;
    let mut f = VGAFont::new(VGAFontConfig::VGA8x8, Vec::leak(t));
    let g = f.get_glyph('A').unwrap();
    assert_eq!((g.width, g.height, g.advance, g.x, g.y), (8, 8, 8, 0, 0));
    assert_eq!(f.get_pixel(&g, 0, 2), Point::Bit(true));
    assert_eq!(f.get_pixel(&g, 1, 2), Point::Bit(false));
    assert_eq!(f.get_pixel(&g, 2, 2), Point::Bit(true));
    assert_eq!(f.get_pixel(&g, 0, 1), Point::Bit(false));
    assert!(f.get_glyph('\u{100}').is_none());
    assert_eq!(f.height(), 8);
}
