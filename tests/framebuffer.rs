use fbterm::{Framebuffer, Pixel, Rect, RGB565, RGBA8888};

fn px(v: u8) -> RGBA8888 {
    RGBA8888::new(v, v, v, v)
}

fn numbered(width: usize, height: usize) -> Framebuffer<RGBA8888> {
    let mut memory = Vec::new();
    for i in 0..width * height {
        memory.push(px(i as u8));
    }
    Framebuffer::new(memory, width, height, width, px(0), px(255))
}

#[test]
fn rect_edges() {
    let r = Rect::new(2, 3, 4, 5);
    assert_eq!((r.left(), r.top(), r.right(), r.bottom()), (2, 3, 5, 7));
    assert_eq!((r.width(), r.height()), (4, 5));
    let one = Rect::new(0, 0, 1, 1);
    assert_eq!((one.right(), one.bottom()), (0, 0));
}

#[test]
fn pixels_are_addressed_by_stride() {
    let memory = vec![px(0); 6 * 3];
    let mut fb = Framebuffer::new(memory, 4, 3, 6, px(0), px(255));
    fb.draw_pixel(3, 2, px(9));
    assert_eq!(fb.get_pixel(3, 2).get(), (9, 9, 9, 9));
    assert_eq!(fb.get_base()[2 * 6 + 3].get(), (9, 9, 9, 9));
    assert_eq!(fb.read(15).get(), (9, 9, 9, 9));
    fb.write(0, px(7));
    assert_eq!(fb.get_pixel(0, 0).get(), (7, 7, 7, 7));
    assert_eq!(fb.buffer_size(), 6 * 3 * 4);
    assert_eq!((fb.width(), fb.height()), (4, 3));
}

#[test]
fn clear_fills_padding_too() {
    let memory = vec![px(3); 6 * 3];
    let mut fb = Framebuffer::new(memory, 4, 3, 6, px(1), px(255));
    fb.clear();
    assert!(fb.get_base().iter().all(|p| p.get() == (1, 1, 1, 1)));
}

#[test]
fn draw_rect_fills_only_the_rect() {
    let mut fb = numbered(5, 4);
    fb.draw_rect(Rect::new(1, 1, 3, 2), px(200));
    for y in 0..4 {
        for x in 0..5 {
            let inside = (1..4).contains(&x) && (1..3).contains(&y);
            let want = if inside { 200 } else { (y * 5 + x) as u8 };
            assert_eq!(fb.get_pixel(x, y).get().0, want, "at {} {}", x, y);
        }
    }
}

#[test]
fn copy_rect_upward_and_downward_copy_the_old_source() {
    let mut up = numbered(4, 4);
    up.copy_rect(Rect::new(0, 1, 4, 3), Rect::new(0, 0, 4, 3));
    for y in 0..3 {
        for x in 0..4 {
            assert_eq!(up.get_pixel(x, y).get().0, ((y + 1) * 4 + x) as u8);
        }
    }
    assert_eq!(up.get_pixel(2, 3).get().0, 14);

    let mut down = numbered(4, 4);
    down.copy_rect(Rect::new(1, 0, 2, 3), Rect::new(1, 1, 2, 3));
    for y in 1..4 {
        for x in 1..3 {
            assert_eq!(down.get_pixel(x, y).get().0, ((y - 1) * 4 + x) as u8);
        }
    }
    assert_eq!(down.get_pixel(0, 3).get().0, 12);
    assert_eq!(down.get_pixel(1, 0).get().0, 1);
}

#[test]
fn draw_alpha_blends_between_background_and_foreground() {
    let bg = RGBA8888::new(10, 200, 0, 0);
    let fg = RGBA8888::new(250, 100, 50, 255);
    let mut fb = Framebuffer::new(vec![px(9); 8], 8, 1, 8, bg, fg);
    fb.draw_alpha(0, 0, 0);
    fb.draw_alpha(1, 0, 255);
    fb.draw_alpha(2, 0, 128);
    fb.draw_alpha(3, 0, 64);
    assert_eq!(fb.get_pixel(0, 0).get(), (10, 200, 0, 0));
    assert_eq!(fb.get_pixel(1, 0).get(), (250, 100, 50, 255));
    assert_eq!(fb.get_pixel(2, 0).get(), (130, 150, 25, 127));
    assert_eq!(fb.get_pixel(3, 0).get(), (70, 175, 12, 63));
    assert_eq!(fb.get_pixel(4, 0).get(), (9, 9, 9, 9));
}

#[test]
fn draw_bit_picks_foreground_or_background() {
    let mut fb = Framebuffer::new(vec![px(9); 4], 4, 1, 4, px(1), px(2));
    fb.draw_bit(0, 0, true);
    fb.draw_bit(1, 0, false);
    assert_eq!(fb.get_pixel(0, 0).get().0, 2);
    assert_eq!(fb.get_pixel(1, 0).get().0, 1);
    fb.set_foreground(px(5));
    fb.set_background(px(6));
    assert_eq!(fb.get_foreground().get().0, 5);
    assert_eq!(fb.get_background().get().0, 6);
}

#[test]
fn flush_copies_only_the_requested_rect() {
    let mut fb = Framebuffer::new(vec![px(0); 16], 4, 4, 4, px(0), px(255));
    fb.flush(None);
    assert_eq!(fb.get_visible()[5].get().0, 0);
    fb.set_double_buffer(vec![px(7); 16]);
    fb.flush(Some(Rect::new(1, 1, 2, 2)));
    for y in 0..4 {
        for x in 0..4 {
            let inside = (1..3).contains(&x) && (1..3).contains(&y);
            let want = if inside { 7 } else { 0 };
            assert_eq!(fb.get_visible()[y * 4 + x].get().0, want);
        }
    }
    fb.flush(None);
    assert!(fb.get_visible().iter().all(|p| p.get().0 == 7));
}

#[test]
fn draw_alpha_on_rgb565_encodes_the_mix() {
    let bg = RGB565::new(0, 0, 0, 0);
    let fg = RGB565::new(0xff, 0xff, 0xff, 0);
    let mut fb = Framebuffer::new(vec![bg; 3], 3, 1, 3, bg, fg);
    fb.draw_alpha(0, 0, 255);
    fb.draw_alpha(1, 0, 128);
    fb.draw_alpha(2, 0, 0);
    assert_eq!(fb.get_pixel(0, 0).value, 0xffff);
    assert_eq!(fb.get_pixel(1, 0).get(), (0x78, 0x7c, 0x78, 0));
    assert_eq!(fb.get_pixel(2, 0).value, 0);
}

#[test]
fn flush_without_second_buffer_does_nothing() {
    let mut fb = numbered(4, 4);
    fb.flush(Some(Rect::new(10, 10, 5, 5)));
    for i in 0..16 {
        assert_eq!(fb.get_visible()[i].get().0, i as u8);
    }
}
