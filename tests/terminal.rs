use fbterm::{Cow, Fbterm, Font, Framebuffer, Glyph, Pixel, Point, VGAFont, VGAFontConfig, RGBA8888};

const SOLID: u8 = 65; // 'A': every pixel set
const BAR: u8 = 66; // 'B': only the left column set

fn table(rows: usize) -> &'static [u8] {
    let mut t = vec![0u8; 256 * rows];
    for r in 0..rows {
        t[SOLID as usize * rows + r] = 0xff;
        t[BAR as usize * rows + r] = 0x80;
    }
    Vec::leak(t)
}

fn bg() -> RGBA8888 {
    RGBA8888::new(0, 0, 0xa8, 0)
}

fn fg() -> RGBA8888 {
    RGBA8888::new(0xa8, 0xa8, 0xa8, 255)
}

fn term(width: usize, height: usize) -> Fbterm<RGBA8888, VGAFont> {
    let fb = Framebuffer::new(vec![bg(); width * height], width, height, width, bg(), fg());
    Fbterm::new(fb, VGAFont::new(VGAFontConfig::VGA8x8, table(8)))
}

fn text(t: &Fbterm<RGBA8888, VGAFont>) -> Vec<String> {
    t.lines().iter().map(|l| l.iter().collect()).collect()
}

fn is_fg(t: &Fbterm<RGBA8888, VGAFont>, x: usize, y: usize) -> bool {
    t.framebuffer.get_pixel(x, y).get() == fg().get()
}

fn is_bg(t: &Fbterm<RGBA8888, VGAFont>, x: usize, y: usize) -> bool {
    t.framebuffer.get_pixel(x, y).get() == bg().get()
}

#[test]
fn font_cell_heights() {
    assert_eq!(VGAFontConfig::VGA8x8.height(), 8);
    assert_eq!(VGAFontConfig::VGA8x14.height(), 14);
    assert_eq!(VGAFontConfig::VGA8x16.height(), 16);
}

#[test]
fn printing_within_a_line_advances_by_the_glyphs() {
    let mut t = term(64, 17);
    t.print("AB");
    assert_eq!(t.cursor(), (16, 0));
    t.print("BA");
    assert_eq!(t.cursor(), (32, 0));
    assert_eq!(text(&t), vec!["ABBA".to_string()]);
    assert!(is_fg(&t, 7, 7));
    assert!(is_fg(&t, 8, 0));
    assert!(is_bg(&t, 9, 0));
    assert_eq!((t.width(), t.height()), (64, 17));
}

#[test]
fn a_glyph_past_the_line_end_wraps_before_it_is_drawn() {
    let mut t = term(64, 17);
    t.print("BBBBBBBA");
    assert_eq!(t.cursor(), (8, 8));
    assert_eq!(text(&t), vec!["BBBBBBB".to_string(), "A".to_string()]);
    for y in 8..16 {
        for x in 0..8 {
            assert!(is_fg(&t, x, y));
        }
    }
    assert!(is_bg(&t, 57, 0));
}

#[test]
fn a_line_feed_on_the_last_line_scrolls_once() {
    let mut t = term(16, 16);
    t.print("A\nB");
    assert_eq!(t.cursor(), (8, 8));
    assert_eq!(text(&t), vec!["A".to_string(), "B".to_string()]);
    t.print("\n");
    assert_eq!(t.cursor(), (0, 8));
    assert_eq!(text(&t), vec!["B".to_string(), String::new()]);
    for y in 0..8 {
        assert!(is_fg(&t, 0, y));
        for x in 1..16 {
            assert!(is_bg(&t, x, y), "at {} {}", x, y);
        }
    }
    for y in 8..16 {
        for x in 0..16 {
            assert!(is_bg(&t, x, y), "at {} {}", x, y);
        }
    }
}

#[test]
fn a_line_feed_scrolls_by_the_rows_below_the_edge() {
    let mut t = term(16, 20);
    t.print("A\nB");
    t.print("\n");
    // the new line would reach rows 16..24: four rows below the edge
    assert_eq!(t.cursor(), (0, 12));
    for y in 0..4 {
        assert!(is_fg(&t, 1, y), "A's rows moved up by four, at {}", y);
    }
    for y in 4..12 {
        assert!(is_fg(&t, 0, y));
        assert!(is_bg(&t, 1, y));
    }
    for y in 12..20 {
        assert!(is_bg(&t, 0, y));
    }
}

#[test]
fn flush_shows_only_the_drawn_glyph() {
    let marker = RGBA8888::new(1, 2, 3, 4);
    let n = 16 * 17;
    let fb = Framebuffer::new(vec![marker; n], 16, 17, 16, bg(), fg());
    let mut t = Fbterm::new(fb, VGAFont::new(VGAFontConfig::VGA8x8, table(8)));
    t.set_double_buffer(vec![marker; n]);
    t.framebuffer.draw_pixel(15, 16, fg());
    t.putc('A');
    assert!(t.framebuffer.get_visible().iter().all(|p| p.get() == marker.get()));
    t.flush();
    for y in 0..17 {
        for x in 0..16 {
            let want = if x < 8 && y < 8 { fg() } else { marker };
            assert_eq!(t.framebuffer.get_visible()[y * 16 + x].get(), want.get());
        }
    }
}

#[test]
fn backspace_erases_the_last_glyph() {
    let mut t = term(64, 17);
    t.print("B");
    let before = t.cursor();
    t.print("A");
    t.putc('\u{8}');
    assert_eq!(t.cursor(), before);
    assert_eq!(text(&t), vec!["B".to_string()]);
    for y in 0..8 {
        for x in 8..16 {
            assert!(is_bg(&t, x, y));
        }
    }
    assert!(is_fg(&t, 0, 0));
}

#[test]
fn backspace_on_an_empty_line_does_nothing() {
    let mut t = term(64, 17);
    t.print("A\n");
    t.putc('\u{8}');
    assert_eq!(t.cursor(), (0, 8));
    assert_eq!(text(&t), vec!["A".to_string(), String::new()]);
    assert!(is_fg(&t, 0, 0));
}

#[test]
fn tab_prints_four_spaces() {
    let mut t = term(64, 17);
    t.putc('\t');
    assert_eq!(t.cursor(), (32, 0));
    assert_eq!(text(&t), vec!["    ".to_string()]);
}

#[test]
fn carriage_return_forgets_the_text_but_not_the_pixels() {
    let mut t = term(64, 17);
    t.print("AB\r");
    assert_eq!(t.cursor(), (0, 0));
    assert_eq!(text(&t), vec![String::new()]);
    assert!(is_fg(&t, 0, 0));
}

#[test]
fn a_character_without_glyph_prints_a_space() {
    let mut t = term(64, 17);
    t.print("\u{4e2d}");
    assert_eq!(t.cursor(), (8, 0));
    assert_eq!(text(&t), vec![" ".to_string()]);
    t.putc('\u{8}');
    assert_eq!(t.cursor(), (0, 0));
    assert_eq!(text(&t), vec![String::new()]);
}

#[test]
fn clear_resets_cursor_text_and_pixels() {
    let mut t = term(64, 17);
    t.print("AB\nA");
    t.clear();
    assert_eq!(t.cursor(), (0, 0));
    assert_eq!(text(&t), vec![String::new()]);
    assert!(t.framebuffer.get_base().iter().all(|p| p.get() == bg().get()));
}

#[test]
fn change_font_lays_the_text_out_again() {
    let mut t = term(64, 40);
    t.print("AB");
    let mut t = t.change_font(VGAFont::new(VGAFontConfig::VGA8x16, table(16)));
    assert_eq!(text(&t), vec!["AB".to_string(), String::new()]);
    assert_eq!(t.cursor(), (0, 16));
    for y in 0..16 {
        assert!(t.framebuffer.get_pixel(7, y).get() == fg().get());
    }
    assert!(t.framebuffer.get_pixel(9, 0).get() == bg().get());
    assert_eq!(t.get_font().height(), 16);
    assert_eq!(t.get_font_mut().height(), 16);
}

#[test]
fn flush_covers_the_union_of_the_drawn_glyphs() {
    let marker = RGBA8888::new(1, 2, 3, 4);
    let n = 16 * 17;
    let fb = Framebuffer::new(vec![marker; n], 16, 17, 16, bg(), fg());
    let mut t = Fbterm::new(fb, VGAFont::new(VGAFontConfig::VGA8x8, table(8)));
    t.set_double_buffer(vec![marker; n]);
    t.putc('A');
    t.putc('\n');
    t.putc('B');
    t.framebuffer.draw_pixel(9, 3, fg());
    t.flush();
    let visible = |x: usize, y: usize| t.framebuffer.get_visible()[y * 16 + x].get();
    assert_eq!(visible(7, 7), fg().get());
    assert_eq!(visible(0, 15), fg().get());
    assert_eq!(visible(5, 12), bg().get());
    assert_eq!(visible(9, 3), marker.get());
    assert_eq!(visible(8, 15), marker.get());
    assert_eq!(visible(0, 16), marker.get());
}

/// Solid 3 by 4 glyphs that start two rows above the line and reach past
/// their advance.
struct Overhang;

impl Font for Overhang {
    fn height(&self) -> usize {
        8
    }

    fn get_glyph(&mut self, c: char) -> Option<Glyph> {
        if c == 'x' {
            Some(Glyph { width: 3, height: 4, advance: 2, x: 1, y: -2, data: Cow::Borrowed(&[1; 12]) })
        } else {
            None
        }
    }

    fn get_pixel(&self, _glyph: &Glyph, _x: usize, _y: usize) -> Point {
        Point::Bit(true)
    }
}

#[test]
fn glyphs_reaching_off_screen_are_clipped() {
    let fb = Framebuffer::new(vec![bg(); 4 * 8], 4, 8, 4, bg(), fg());
    let mut t = Fbterm::new(fb, Overhang);
    t.putc('x');
    assert_eq!(t.cursor(), (2, 0));
    for y in 0..8 {
        for x in 0..4 {
            assert_eq!(is_fg_at(&t, x, y), (1..4).contains(&x) && y < 2, "at {} {}", x, y);
        }
    }
    // a line as high as the screen: the wrap scrolls the whole screen away
    t.putc('x');
    assert_eq!(t.cursor(), (2, 0));
    assert_eq!(t.lines().len(), 1);
    assert!(is_fg_at(&t, 1, 1));
    assert!(!is_fg_at(&t, 0, 1));
    assert!(!is_fg_at(&t, 1, 2));
    t.set_foreground(bg());
    t.set_background(fg());
    t.putc('?');
    assert_eq!(t.cursor(), (2, 0));
    assert_eq!(t.lines().len(), 1);
}

fn is_fg_at(t: &Fbterm<RGBA8888, Overhang>, x: usize, y: usize) -> bool {
    t.framebuffer.get_pixel(x, y).get() == fg().get()
}
