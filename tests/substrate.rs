use seedling::substrate::{bitblt, clip, combine, Bitmap, Color, DrawOp, Point, Rect};

fn rect(x0: isize, y0: isize, x1: isize, y1: isize) -> Rect {
    Rect::new(Point::new(x0, y0), Point::new(x1, y1))
}

fn black() -> Color {
    Color::new(0x000000ff)
}

fn red() -> Color {
    Color::new(0xff0000ff)
}

fn scene() -> (Bitmap, Bitmap) {
    let mut dst = Bitmap::new_at_origin(10, 10);
    dst.fill(black());
    let mut src = Bitmap::new_at_origin(4, 4);
    src.fill(red());
    (src, dst)
}

fn assert_block(dst: &Bitmap, x0: isize, x1: isize, y0: isize, y1: isize) {
    for y in 0..10 {
        for x in 0..10 {
            let inside = x0 <= x && x < x1 && y0 <= y && y < y1;
            let want = if inside { red() } else { black() };
            assert_eq!(dst.get(x, y), want, "pixel ({}, {})", x, y);
        }
    }
}

#[test]
fn pixel_buffer_length_is_four_bytes_per_pixel() {
    for (w, h) in [(0, 0), (0, 5), (3, 0), (1, 1), (7, 3), (600, 400)] {
        let b = Bitmap::new(5, -3, w, h);
        assert_eq!(b.pixels().len(), (w * h * 4) as usize);
        assert!(b.pixels().iter().all(|&v| v == 0));
    }
}

#[test]
fn color_decodes_channels_in_rgba_order() {
    let c = Color::new(0x11223344);
    assert_eq!((c.r, c.g, c.b, c.a), (0x11, 0x22, 0x33, 0x44));
    let w = Color::new(0xffffffff);
    assert_eq!((w.r, w.g, w.b, w.a), (255, 255, 255, 255));
}

#[test]
fn rect_width_and_height() {
    let r = rect(2, 3, 10, 5);
    assert_eq!(r.width(), 8);
    assert_eq!(r.height(), 2);
    let bad = rect(4, 4, 1, 2);
    assert_eq!(bad.width(), -3);
    assert_eq!(bad.height(), -2);
}

#[test]
fn origin_corner_and_rect_of_bitmap() {
    let b = Bitmap::new(3, 4, 10, 20);
    assert_eq!(b.origin(), Point::new(3, 4));
    assert_eq!(b.corner(), Point::new(13, 24));
    assert_eq!(b.rect(), rect(3, 4, 13, 24));
}

#[test]
fn set_then_get_round_trip() {
    let mut b = Bitmap::new_at_origin(5, 3);
    let c = Color::new(0x01020304);
    b.set(4, 2, c);
    assert_eq!(b.get(4, 2), c);
    assert_eq!(b.get(3, 2), Color::new(0));
    assert_eq!(b.get(0, 0), Color::new(0));
    let bytes = b.pixels();
    let pos = (2 * 5 + 4) * 4;
    assert_eq!(&bytes[pos..pos + 4], &[1, 2, 3, 4]);
    assert_eq!(bytes.iter().filter(|&&v| v != 0).count(), 4);
}

#[test]
fn fill_then_get_everywhere() {
    let mut b = Bitmap::new_at_origin(6, 4);
    let c = Color::new(0xa1b2c3d4);
    b.fill(c);
    for y in 0..4 {
        for x in 0..6 {
            assert_eq!(b.get(x, y), c);
        }
    }
    assert_eq!(&b.pixels()[..8], &[0xa1, 0xb2, 0xc3, 0xd4, 0xa1, 0xb2, 0xc3, 0xd4]);
}

#[test]
fn fill_of_empty_bitmap() {
    let mut b = Bitmap::new_at_origin(0, 7);
    b.fill(red());
    assert_eq!(b.pixels().len(), 0);
}

#[test]
fn merge_ops_per_channel() {
    let s = Color::new(0xf0f00f01);
    let d = Color::new(0xff0f0a03);
    let ch = |c: Color| (c.r, c.g, c.b, c.a);
    assert_eq!(ch(combine(DrawOp::Store, s, d)), (0xf0, 0xf0, 0x0f, 0x01));
    assert_eq!(ch(combine(DrawOp::StoreInvert, s, d)), (0x0f, 0x0f, 0xf0, 0xfe));
    assert_eq!(ch(combine(DrawOp::Or, s, d)), (0xff, 0xff, 0x0f, 0x03));
    assert_eq!(ch(combine(DrawOp::And, s, d)), (0xf0, 0x00, 0x0a, 0x01));
    assert_eq!(ch(combine(DrawOp::Xor, s, d)), (0x0f, 0xff, 0x05, 0x02));
    assert_eq!(ch(combine(DrawOp::Clear, s, d)), (0, 0, 0, 0));
}

#[test]
fn blit_red_square_into_middle() {
    let (src, mut dst) = scene();
    let mut sr = rect(0, 0, 4, 4);
    let mut at = Point::new(2, 2);
    let mut cr = rect(0, 0, 10, 10);
    bitblt(src, &mut sr, &mut dst, &mut at, DrawOp::Store, &mut cr);
    assert_eq!(sr, rect(0, 0, 4, 4));
    assert_eq!(at, Point::new(2, 2));
    assert_block(&dst, 2, 6, 2, 6);
}

#[test]
fn blit_with_negative_placement_shows_bottom_right() {
    let (src, mut dst) = scene();
    let mut sr = rect(0, 0, 4, 4);
    let mut at = Point::new(-2, -2);
    let mut cr = rect(0, 0, 10, 10);
    bitblt(src, &mut sr, &mut dst, &mut at, DrawOp::Store, &mut cr);
    assert_eq!(sr, rect(2, 2, 4, 4));
    assert_eq!(at, Point::new(0, 0));
    assert_block(&dst, 0, 2, 0, 2);
}

#[test]
fn blit_clipped_to_small_clip_rect() {
    let (src, mut dst) = scene();
    let mut sr = rect(0, 0, 4, 4);
    let mut at = Point::new(2, 2);
    let mut cr = rect(0, 0, 5, 5);
    bitblt(src, &mut sr, &mut dst, &mut at, DrawOp::Store, &mut cr);
    assert_eq!(sr, rect(0, 0, 3, 3));
    assert_eq!(at, Point::new(2, 2));
    assert_block(&dst, 2, 5, 2, 5);
}

#[test]
fn blit_clip_with_offset_origin() {
    let (src, mut dst) = scene();
    let mut sr = rect(0, 0, 4, 4);
    let mut at = Point::new(1, 1);
    let mut cr = rect(3, 2, 4, 9);
    bitblt(src, &mut sr, &mut dst, &mut at, DrawOp::Store, &mut cr);
    assert_eq!(sr, rect(2, 1, 3, 4));
    assert_eq!(at, Point::new(3, 2));
    assert_block(&dst, 3, 4, 2, 5);
}

#[test]
fn clip_is_idempotent() {
    let (src, dst) = scene();
    let cases = [
        (rect(0, 0, 4, 4), Point::new(2, 2), rect(0, 0, 10, 10)),
        (rect(0, 0, 4, 4), Point::new(-2, -2), rect(0, 0, 10, 10)),
        (rect(-3, -1, 6, 9), Point::new(8, 1), rect(-5, 3, 12, 7)),
        (rect(1, 1, 3, 3), Point::new(20, 20), rect(0, 0, 10, 10)),
        (rect(0, 0, 4, 4), Point::new(2, 2), rect(20, 20, 30, 30)),
    ];
    for (sr0, at0, cr0) in cases {
        let (mut sr, mut at, mut cr) = (sr0, at0, cr0);
        clip(&src, &mut sr, &dst, &mut at, &mut cr);
        let once = (sr, at, cr);
        clip(&src, &mut sr, &dst, &mut at, &mut cr);
        assert_eq!((sr, at, cr), once);
    }
}

#[test]
fn clip_clamps_clip_rect_to_destination() {
    let (src, dst) = scene();
    let mut sr = rect(0, 0, 4, 4);
    let mut at = Point::new(2, 2);
    let mut cr = rect(-4, -1, 15, 12);
    clip(&src, &mut sr, &dst, &mut at, &mut cr);
    assert_eq!(cr, rect(0, 0, 10, 10));
    assert_eq!(sr, rect(0, 0, 4, 4));
}

#[test]
fn clip_trims_source_rect_past_source_bounds() {
    let (src, dst) = scene();
    let mut sr = rect(-1, 0, 6, 4);
    let mut at = Point::new(3, 3);
    let mut cr = rect(0, 0, 10, 10);
    clip(&src, &mut sr, &dst, &mut at, &mut cr);
    assert_eq!(sr, rect(0, 0, 4, 4));
    assert_eq!(at, Point::new(4, 3));
}

#[test]
fn clip_rect_outside_destination_writes_nothing() {
    for cr0 in [rect(20, 20, 30, 30), rect(-10, -10, -5, -5), rect(0, 12, 10, 20)] {
        let (src, mut dst) = scene();
        let before = dst.pixels().to_vec();
        let mut sr = rect(0, 0, 4, 4);
        let mut at = Point::new(2, 2);
        let mut cr = cr0;
        bitblt(src, &mut sr, &mut dst, &mut at, DrawOp::Store, &mut cr);
        assert!(sr.width() <= 0 || sr.height() <= 0);
        assert_eq!(dst.pixels(), &before[..]);
    }
}

#[test]
fn placement_inside_copies_bytes_exactly() {
    let mut src = Bitmap::new_at_origin(3, 2);
    for y in 0..2 {
        for x in 0..3 {
            src.set(x, y, Color::new(((x as u32) << 24) | ((y as u32) << 16) | 0x1234));
        }
    }
    let mut dst = Bitmap::new_at_origin(8, 6);
    dst.fill(Color::new(0x55555555));
    let mut sr = rect(1, 0, 3, 2);
    let mut at = Point::new(4, 3);
    let mut cr = rect(0, 0, 8, 6);
    bitblt(src.clone(), &mut sr, &mut dst, &mut at, DrawOp::Store, &mut cr);
    assert_eq!(sr, rect(1, 0, 3, 2));
    assert_eq!(at, Point::new(4, 3));
    for y in 0..6 {
        for x in 0..8 {
            let want = if (4..6).contains(&x) && (3..5).contains(&y) {
                src.get(x - 4 + 1, y - 3)
            } else {
                Color::new(0x55555555)
            };
            assert_eq!(dst.get(x, y), want);
        }
    }
}

#[test]
fn blit_with_xor_and_clear() {
    let (src, mut dst) = scene();
    let mut sr = rect(0, 0, 1, 1);
    let mut at = Point::new(0, 0);
    let mut cr = rect(0, 0, 10, 10);
    bitblt(src.clone(), &mut sr, &mut dst, &mut at, DrawOp::Xor, &mut cr);
    assert_eq!(dst.get(0, 0), Color::new(0xff000000));
    let mut sr = rect(0, 0, 1, 1);
    let mut at = Point::new(9, 9);
    let mut cr = rect(0, 0, 10, 10);
    bitblt(src, &mut sr, &mut dst, &mut at, DrawOp::Clear, &mut cr);
    assert_eq!(dst.get(9, 9), Color::new(0));
    assert_eq!(dst.get(8, 9), black());
}

#[test]
fn empty_source_rect_is_a_no_op() {
    let (src, mut dst) = scene();
    let before = dst.pixels().to_vec();
    let mut sr = rect(2, 2, 2, 4);
    let mut at = Point::new(3, 3);
    let mut cr = rect(0, 0, 10, 10);
    bitblt(src, &mut sr, &mut dst, &mut at, DrawOp::Store, &mut cr);
    assert_eq!(dst.pixels(), &before[..]);
}
