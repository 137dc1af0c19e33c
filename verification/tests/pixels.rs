use aerogel::buffer::PixelBuffer;
use aerogel::compose::{create_frame, draw_content_to_buffer, draw_workspace_indicator};
use aerogel::layout::{HighlightedBlock, TextRun};
use aerogel::metrics::FontMetrics;
use aerogel::pixel::{
    blend_channel, calculate_rounded_rect_alpha, fill_pixel, ink_pixel, integer_sqrt, tint_pixel,
    Pixel, Tint,
};
use aerogel::style::{Rgb, StyledToken};
use aerogel::surface::{
    plan_frame, plan_redraw, present_steps, BufferLedger, FramePlan, SurfaceStep,
};

const TINT: Tint = Tint { blue: 40, green: 30, red: 20, alpha_multiplier: 200 };
const CLEAR: Pixel = Pixel { b: 0, g: 0, r: 0, a: 0 };

#[test]
fn square_roots() {
    assert_eq!(integer_sqrt(0), 0);
    assert_eq!(integer_sqrt(1), 1);
    assert_eq!(integer_sqrt(15), 3);
    assert_eq!(integer_sqrt(16), 4);
    assert_eq!(integer_sqrt(17), 4);
    assert_eq!(integer_sqrt(819200), 905);
    assert_eq!(integer_sqrt(1u128 << 64), 1u64 << 32);
    assert_eq!(integer_sqrt((1u128 << 84) - 1), (1u64 << 42) - 1);
}

#[test]
fn blending_one_channel() {
    assert_eq!(blend_channel(0, 255, 128, 255), 128);
    assert_eq!(blend_channel(100, 200, 32, 64), 150);
    assert_eq!(blend_channel(100, 200, 0, 64), 100);
    assert_eq!(blend_channel(100, 200, 64, 64), 200);
    assert_eq!(blend_channel(200, 100, 51, 255), 180);
    assert_eq!(blend_channel(255, 255, 77, 255), 255);
}

#[test]
fn opacity_of_a_rounded_rectangle() {
    let size = 100 * 64;
    let radius = 10 * 64;
    assert_eq!(calculate_rounded_rect_alpha(50 * 64, 50 * 64, size, size, radius), 64);
    assert_eq!(calculate_rounded_rect_alpha(0, 50 * 64, size, size, radius), 64);
    assert_eq!(calculate_rounded_rect_alpha(50 * 64, 0, size, size, radius), 64);
    assert_eq!(calculate_rounded_rect_alpha(0, 0, size, size, radius), 0);
    assert_eq!(calculate_rounded_rect_alpha(3 * 64, 3 * 64, size, size, radius), 39);
    assert_eq!(calculate_rounded_rect_alpha(5 * 64, 5 * 64, size, size, radius), 64);
    assert_eq!(calculate_rounded_rect_alpha(99 * 64, 99 * 64, size, size, radius), 0);
    assert_eq!(calculate_rounded_rect_alpha(97 * 64, 97 * 64, size, size, radius), 39);
    assert_eq!(calculate_rounded_rect_alpha(0, 0, size, size, 0), 64);
}

#[test]
fn pixels_of_fill_shape_and_glyph() {
    let old = Pixel { b: 100, g: 110, r: 120, a: 130 };
    assert_eq!(fill_pixel(old, 0, TINT), old);
    assert_eq!(fill_pixel(old, 64, TINT), Pixel { b: 40, g: 30, r: 20, a: 200 });
    assert_eq!(fill_pixel(old, 39, TINT), Pixel { b: 40, g: 30, r: 20, a: 121 });
    let color = Rgb { r: 20, g: 210, b: 0 };
    assert_eq!(tint_pixel(old, 0, color), old);
    assert_eq!(tint_pixel(old, 32, color), Pixel { b: 50, g: 160, r: 70, a: 130 });
    assert_eq!(ink_pixel(old, color, 50, true), old);
    assert_eq!(ink_pixel(old, color, 0, true), old);
    assert_eq!(ink_pixel(old, color, 255, true), Pixel { b: 0, g: 210, r: 20, a: 255 });
    assert_eq!(ink_pixel(old, color, 51, true), Pixel { b: 80, g: 130, r: 100, a: 181 });
    assert_eq!(ink_pixel(old, color, 51, false), Pixel { b: 80, g: 130, r: 100, a: 130 });
}

#[test]
fn buffer_sizes() {
    let b = PixelBuffer::new(3, 2).unwrap();
    assert_eq!((b.width(), b.height(), b.len()), (3, 2, 6));
    assert_eq!(b.get(2, 1), Some(CLEAR));
    assert_eq!(b.get(3, 0), None);
    assert_eq!(b.get(0, 2), None);
    assert!(PixelBuffer::new(0, 0).is_some());
    assert!(PixelBuffer::new(0x8000, 0x8000).is_none());
    assert!(PixelBuffer::new(65536, 8192).is_none());
    assert!(PixelBuffer::new(u32::MAX, u32::MAX).is_none());
}

#[test]
fn background_is_a_rounded_rectangle() {
    let mut b = PixelBuffer::new(100, 100).unwrap();
    b.paint_background(10 * 64, TINT);
    assert_eq!(b.get(50, 50), Some(Pixel { b: 40, g: 30, r: 20, a: 200 }));
    assert_eq!(b.get(0, 0), Some(CLEAR));
    assert_eq!(b.get(3, 3), Some(Pixel { b: 40, g: 30, r: 20, a: 121 }));
    assert_eq!(b.get(99, 0), Some(CLEAR));
    assert_eq!(b.get(0, 50), Some(Pixel { b: 40, g: 30, r: 20, a: 200 }));
    b.clear();
    assert_eq!(b.get(50, 50), Some(CLEAR));
}

#[test]
fn glyph_pixels_are_clipped_and_cut_off() {
    let mut b = PixelBuffer::new(4, 4).unwrap();
    let ink = Rgb { r: 255, g: 255, b: 255 };
    b.blend_glyph(-1, 0, ink, 255, true);
    b.blend_glyph(0, -1, ink, 255, true);
    b.blend_glyph(4, 0, ink, 255, true);
    b.blend_glyph(0, 4, ink, 255, true);
    b.blend_glyph(1, 1, ink, 50, true);
    for y in 0..4 {
        for x in 0..4 {
            assert_eq!(b.get(x, y), Some(CLEAR));
        }
    }
    b.blend_glyph(1, 2, ink, 102, true);
    assert_eq!(b.get(1, 2), Some(Pixel { b: 102, g: 102, r: 102, a: 102 }));
    b.blend_glyph(1, 2, ink, 200, true);
    assert_eq!(b.get(1, 2), Some(Pixel { b: 222, g: 222, r: 222, a: 255 }));
    assert_eq!(b.get(2, 1), Some(CLEAR));
}

#[test]
fn bytes_are_blue_green_red_alpha() {
    let mut b = PixelBuffer::new(2, 1).unwrap();
    b.blend_glyph(1, 0, Rgb { r: 30, g: 20, b: 10 }, 255, true);
    assert_eq!(b.to_bytes(), vec![0, 0, 0, 0, 10, 20, 30, 255]);
}

#[test]
fn chip_shows_the_workspace() {
    let chip = FontMetrics::new(10 * 64, 3 * 64, 0, 8 * 64);
    let mut b = PixelBuffer::new(100, 60).unwrap();
    b.paint_background(0, TINT);
    let label = draw_workspace_indicator(&mut b, &chip, 3, TINT);
    assert_eq!(
        label,
        TextRun { x: 18 * 64, y: (15 + 10) * 64, color: Rgb { r: 230, g: 220, b: 220 }, text: "3".to_string() }
    );
    // The chip is 24 by 23 pixels at (10, 10), darker than the fill by 15.
    let dark = Pixel { b: 25, g: 15, r: 5, a: 200 };
    let fill = Pixel { b: 40, g: 30, r: 20, a: 200 };
    assert_eq!(b.get(20, 20), Some(dark));
    assert_eq!(b.get(33, 20), Some(dark));
    assert_eq!(b.get(34, 20), Some(fill));
    assert_eq!(b.get(20, 32), Some(dark));
    assert_eq!(b.get(20, 33), Some(fill));
    assert_eq!(b.get(9, 20), Some(fill));
    assert_eq!(b.get(10, 10), Some(fill));
}

#[test]
fn chip_of_a_dark_tint_is_black() {
    let chip = FontMetrics::new(10 * 64, 3 * 64, 0, 8 * 64);
    let tint = Tint { blue: 3, green: 15, red: 16, alpha_multiplier: 255 };
    let mut b = PixelBuffer::new(100, 60).unwrap();
    b.paint_background(0, tint);
    let label = draw_workspace_indicator(&mut b, &chip, 12, tint);
    assert_eq!(label.text, "12");
    assert_eq!(b.get(20, 20), Some(Pixel { b: 0, g: 0, r: 1, a: 255 }));
    // Two digits make the chip 32 pixels wide.
    assert_eq!(b.get(41, 20), Some(Pixel { b: 0, g: 0, r: 1, a: 255 }));
    assert_eq!(b.get(42, 20), Some(Pixel { b: 3, g: 15, r: 16, a: 255 }));
}

#[test]
fn frame_is_fill_chip_and_runs() {
    let m = FontMetrics::new(12 * 64, 4 * 64, 0, 10 * 64);
    let chip = FontMetrics::new(10 * 64, 3 * 64, 0, 8 * 64);
    let ink = Rgb { r: 9, g: 9, b: 9 };
    let blocks = vec![HighlightedBlock {
        is_code: false,
        lines: vec![vec![StyledToken::new(ink, "hi\n".to_string())]],
    }];
    let (buffer, overlay) = create_frame(100, 60, 10 * 64, TINT, &m, &chip, &blocks, 64, 7).unwrap();
    assert_eq!((buffer.width(), buffer.height()), (100, 60));
    assert_eq!(buffer.get(0, 0), Some(CLEAR));
    assert_eq!(buffer.get(50, 50), Some(Pixel { b: 40, g: 30, r: 20, a: 200 }));
    assert_eq!(buffer.get(20, 20), Some(Pixel { b: 25, g: 15, r: 5, a: 200 }));
    assert_eq!(overlay.label.text, "7");
    assert_eq!(
        overlay.runs,
        vec![TextRun { x: 18 * 64, y: (40 + 12 - 1) * 64, color: ink, text: "hi".to_string() }]
    );
    assert!(create_frame(65536, 8192, 0, TINT, &m, &chip, &blocks, 0, 1).is_none());
}

#[test]
fn composing_clears_what_was_drawn_before() {
    let m = FontMetrics::new(12 * 64, 4 * 64, 0, 10 * 64);
    let chip = FontMetrics::new(10 * 64, 3 * 64, 0, 8 * 64);
    let mut b = PixelBuffer::new(100, 60).unwrap();
    b.blend_glyph(0, 0, Rgb { r: 255, g: 255, b: 255 }, 255, true);
    b.blend_glyph(50, 50, Rgb { r: 255, g: 255, b: 255 }, 255, true);
    let overlay = draw_content_to_buffer(&mut b, 10 * 64, TINT, &m, &chip, &vec![], 0, 1);
    assert_eq!(b.get(0, 0), Some(CLEAR));
    assert_eq!(b.get(50, 50), Some(Pixel { b: 40, g: 30, r: 20, a: 200 }));
    assert!(overlay.runs.is_empty());
}

#[test]
fn frame_plans() {
    assert_eq!(plan_frame(600, 400), Some(FramePlan { width: 600, height: 400, stride: 2400, size: 960000 }));
    assert_eq!(plan_frame(0, 400), None);
    assert_eq!(plan_frame(600, 0), None);
    assert_eq!(plan_frame(65536, 8192), None);
    assert!(plan_frame(65536, 8191).is_some());
}

#[test]
fn frame_is_presented_and_then_acknowledged() {
    let plan = plan_frame(600, 400).unwrap();
    assert_eq!(
        present_steps(plan),
        vec![
            SurfaceStep::Attach,
            SurfaceStep::Damage { width: 600, height: 400 },
            SurfaceStep::Commit,
            SurfaceStep::RequestAcknowledgement,
        ]
    );
}

#[test]
fn redraw_is_planned_only_for_a_frame_that_fits() {
    assert_eq!(plan_redraw(0, 10), None);
    assert_eq!(plan_redraw(65536, 8192), None);
    let (frame, order) = plan_redraw(600, 400).unwrap();
    assert_eq!(frame, FramePlan { width: 600, height: 400, stride: 2400, size: 960000 });
    assert_eq!(order, present_steps(frame));
    assert_eq!(order.last(), Some(&SurfaceStep::RequestAcknowledgement));
}

#[test]
fn previous_buffer_lives_until_its_successor_is_acknowledged() {
    let mut ledger = BufferLedger::new();
    assert!(!ledger.acknowledged());
    assert!(!ledger.presented());
    assert!(ledger.attached);
    assert!(ledger.presented());
    assert!(ledger.presented());
    assert_eq!(ledger.awaited, vec![false, true, true]);
    assert!(!ledger.acknowledged());
    assert!(ledger.acknowledged());
    assert_eq!(ledger.awaited, vec![true]);
    assert!(ledger.presented());
    assert!(ledger.acknowledged());
    assert!(ledger.acknowledged());
    assert!(!ledger.acknowledged());
    assert!(ledger.attached);
    assert!(ledger.awaited.is_empty());
}
