use rtos_core::boot_info::BootInfo;
use rtos_core::framebuffer::Framebuffer;
use rtos_core::framebuffer_info::{FramebufferFormat, FramebufferInfo};
use rtos_core::pixel::{blend_over, pack_rgb_fmt, unpack_rgb_fmt};

fn screen(width: u32, height: u32, stride: u32, format: FramebufferFormat) -> Framebuffer {
    let info = FramebufferInfo { base: 0x8000_0000, size: (stride * height * 4) as usize, width, height, stride, format };
    Framebuffer::from_bootinfo(&BootInfo::from_framebuffer(info)).unwrap()
}

fn changed(fb: &Framebuffer, before: &[u32]) -> Vec<usize> {
    (0..before.len()).filter(|&i| fb.pixels[i] != before[i]).collect()
}

#[test]
fn pack_and_unpack_per_format() {
    assert_eq!(pack_rgb_fmt(FramebufferFormat::Rgb, 0x11, 0x22, 0x33), 0x0033_2211);
    assert_eq!(pack_rgb_fmt(FramebufferFormat::Bgr, 0x11, 0x22, 0x33), 0x0011_2233);
    assert_eq!(pack_rgb_fmt(FramebufferFormat::BltOnly, 0x11, 0x22, 0x33), 0);
    assert_eq!(unpack_rgb_fmt(FramebufferFormat::Rgb, 0xFF33_2211), (0x11, 0x22, 0x33));
    assert_eq!(unpack_rgb_fmt(FramebufferFormat::Bgr, 0xFF11_2233), (0x11, 0x22, 0x33));
    assert_eq!(unpack_rgb_fmt(FramebufferFormat::BltOnly, 0x0011_2233), (0x11, 0x22, 0x33));
    for fmt in [FramebufferFormat::Rgb, FramebufferFormat::Bgr] {
        for (r, g, b) in [(0, 0, 0), (255, 255, 255), (1, 2, 3), (200, 100, 50)] {
            assert_eq!(unpack_rgb_fmt(fmt, pack_rgb_fmt(fmt, r, g, b)), (r, g, b));
        }
    }
}

#[test]
fn blend_extremes_and_middle() {
    for fmt in [FramebufferFormat::Rgb, FramebufferFormat::Bgr, FramebufferFormat::BltOnly] {
        assert_eq!(blend_over(0xDEAD_BEEF, fmt, 1, 2, 3, 0), 0xDEAD_BEEF);
        assert_eq!(blend_over(0xDEAD_BEEF, fmt, 1, 2, 3, 255), pack_rgb_fmt(fmt, 1, 2, 3));
    }
    let dst = pack_rgb_fmt(FramebufferFormat::Rgb, 0, 100, 255);
    let out = blend_over(dst, FramebufferFormat::Rgb, 255, 100, 0, 128);
    assert_eq!(unpack_rgb_fmt(FramebufferFormat::Rgb, out), (128, 100, 127));
    let out = blend_over(dst, FramebufferFormat::Rgb, 255, 100, 0, 1);
    assert_eq!(unpack_rgb_fmt(FramebufferFormat::Rgb, out), (1, 100, 254));
    let out = blend_over(dst, FramebufferFormat::Rgb, 255, 100, 0, 254);
    assert_eq!(unpack_rgb_fmt(FramebufferFormat::Rgb, out), (254, 100, 1));
    let dst = pack_rgb_fmt(FramebufferFormat::Bgr, 10, 20, 30);
    let out = blend_over(dst, FramebufferFormat::Bgr, 110, 120, 130, 51);
    assert_eq!(unpack_rgb_fmt(FramebufferFormat::Bgr, out), (30, 40, 50));
    let out = blend_over(0xAB00_0000, FramebufferFormat::Rgb, 255, 255, 255, 128);
    assert_eq!(out, 0x0080_8080);
}

#[test]
fn blend_channel_formula() {
    for (s, d, a) in [(255u32, 255u32, 128u32), (255, 0, 2), (3, 250, 200), (0, 1, 254), (17, 17, 99)] {
        let expect = ((s * a + d * (255 - a) + 127) * 257) >> 16;
        let dst = pack_rgb_fmt(FramebufferFormat::Rgb, d as u8, 0, 0);
        let out = blend_over(dst, FramebufferFormat::Rgb, s as u8, 0, 0, a as u8);
        assert_eq!(unpack_rgb_fmt(FramebufferFormat::Rgb, out).0 as u32, expect);
    }
}

#[test]
fn from_bootinfo_takes_the_geometry() {
    let fb = screen(5, 3, 8, FramebufferFormat::Bgr);
    assert_eq!((fb.base, fb.width, fb.height, fb.stride, fb.format), (0x8000_0000, 5, 3, 8, FramebufferFormat::Bgr));
    assert_eq!(fb.pixels, vec![0u32; 24]);
    assert_eq!(fb.pack_rgb(1, 2, 3), 0x0001_0203);
    let bad = FramebufferInfo { base: 0, size: 0, width: 9, height: 3, stride: 8, format: FramebufferFormat::Bgr };
    assert!(Framebuffer::from_bootinfo(&BootInfo::from_framebuffer(bad)).is_none());
    let empty = Framebuffer::from_bootinfo(&BootInfo::empty()).unwrap();
    assert!(empty.pixels.is_empty());
}

#[test]
fn row_ptr_steps_by_stride() {
    let fb = screen(5, 3, 8, FramebufferFormat::Bgr);
    assert_eq!(fb.row_ptr(0), 0x8000_0000);
    assert_eq!(fb.row_ptr(1), 0x8000_0020);
    assert_eq!(fb.row_ptr(2), 0x8000_0040);
    let mut high = screen(1, 1, 1, FramebufferFormat::Bgr);
    high.base = u64::MAX - 3;
    assert_eq!(high.row_ptr(1), 0);
}

#[test]
fn put_pixel_writes_where_the_address_says() {
    let mut fb = screen(5, 3, 8, FramebufferFormat::Rgb);
    fb.put_pixel(4, 2, 0xABCD);
    assert_eq!(fb.pixels[2 * 8 + 4], 0xABCD);
    assert_eq!(fb.get_pixel(4, 2), Some(0xABCD));
    assert_eq!(fb.pixels.iter().filter(|&&p| p != 0).count(), 1);
    fb.put_pixel(0, 0, 7);
    assert_eq!(fb.pixels[0], 7);
}

#[test]
fn put_pixel_clips_silently() {
    let mut fb = screen(5, 3, 8, FramebufferFormat::Rgb);
    fb.put_pixel(5, 0, 1);
    fb.put_pixel(7, 0, 1);
    fb.put_pixel(0, 3, 1);
    fb.put_pixel(u32::MAX, u32::MAX, 1);
    assert_eq!(fb.pixels, vec![0u32; 24]);
    assert_eq!(fb.get_pixel(5, 0), None);
    assert_eq!(fb.get_pixel(0, 3), None);
}

#[test]
fn fill_rect_writes_exactly_the_clipped_area() {
    let cases: [(u32, u32, u32, u32, u64); 10] = [
        (0, 0, 5, 3, 15),
        (1, 1, 2, 1, 2),
        (3, 2, 10, 10, 2),
        (4, 0, u32::MAX, 1, 1),
        (u32::MAX, 0, u32::MAX, 5, 0),
        (5, 0, 1, 1, 0),
        (0, 3, 1, 1, 0),
        (0, 0, 0, 3, 0),
        (0, 0, 5, 0, 0),
        (2, 1, 1, 5, 2),
    ];
    for (x, y, w, h, expect) in cases {
        let mut fb = screen(5, 3, 8, FramebufferFormat::Bgr);
        let before = fb.pixels.clone();
        let written = fb.fill_rect(x, y, w, h, 0x00FF_00FF);
        assert_eq!(written, expect);
        let touched = changed(&fb, &before);
        assert_eq!(touched.len() as u64, expect);
        for i in touched {
            let (px, py) = ((i % 8) as u64, (i / 8) as u64);
            assert!(px < 5 && py < 3);
            assert!(px >= x as u64 && px < x as u64 + w as u64);
            assert!(py >= y as u64 && py < y as u64 + h as u64);
            assert_eq!(fb.pixels[i], 0x00FF_00FF);
        }
    }
}

#[test]
fn clear_leaves_the_padding() {
    let mut fb = screen(5, 3, 8, FramebufferFormat::Rgb);
    for p in fb.pixels.iter_mut() {
        *p = 0x1111_1111;
    }
    fb.clear(0x00, 0x2D, 0x61);
    for y in 0..3 {
        for x in 0..8 {
            let expect = if x < 5 { 0x0061_2D00 } else { 0x1111_1111 };
            assert_eq!(fb.pixels[y * 8 + x], expect);
        }
    }
}

#[test]
fn nothing_is_drawn_without_pixel_memory() {
    let mut fb = screen(4, 4, 4, FramebufferFormat::BltOnly);
    for p in fb.pixels.iter_mut() {
        *p = 9;
    }
    fb.clear(1, 2, 3);
    fb.put_pixel(1, 1, 5);
    assert_eq!(fb.fill_rect(0, 0, 4, 4, 5), 0);
    fb.blit_rgba_centered_noscale(&[255; 64], 4, 4, false);
    fb.blit_rgba_centered_alpha(&[255; 64], 4, 4);
    assert_eq!(fb.pixels, vec![9u32; 16]);
}

#[test]
fn blit_centres_a_smaller_image() {
    let mut fb = screen(6, 5, 7, FramebufferFormat::Rgb);
    let rgba: Vec<u8> = vec![
        1, 2, 3, 0, 4, 5, 6, 0, //
        7, 8, 9, 0, 10, 11, 12, 0, //
        13, 14, 15, 0, 16, 17, 18, 0,
    ];
    fb.blit_rgba_centered_noscale(&rgba, 2, 3, false);
    let at = |fb: &Framebuffer, x: usize, y: usize| fb.pixels[y * 7 + x];
    assert_eq!(at(&fb, 2, 1), 0x0003_0201);
    assert_eq!(at(&fb, 3, 1), 0x0006_0504);
    assert_eq!(at(&fb, 2, 2), 0x0009_0807);
    assert_eq!(at(&fb, 3, 2), 0x000C_0B0A);
    assert_eq!(at(&fb, 2, 3), 0x000F_0E0D);
    assert_eq!(at(&fb, 3, 3), 0x0012_1110);
    assert_eq!(fb.pixels.iter().filter(|&&p| p != 0).count(), 6);
}

#[test]
fn blit_cuts_a_larger_image_at_the_edges() {
    let mut fb = screen(2, 2, 3, FramebufferFormat::Bgr);
    let mut rgba = Vec::new();
    for i in 0..12u8 {
        rgba.extend_from_slice(&[i, 0, 0, 255]);
    }
    fb.blit_rgba_centered_noscale(&rgba, 4, 3, false);
    assert_eq!(fb.pixels, vec![0x0000_0000, 0x0001_0000, 0, 0x0004_0000, 0x0005_0000, 0]);
}

#[test]
fn blit_stops_where_the_source_ends() {
    let mut fb = screen(3, 2, 3, FramebufferFormat::Rgb);
    let rgba = [9u8; 4 * 4 + 3];
    fb.blit_rgba_centered_noscale(&rgba, 3, 2, false);
    assert_eq!(fb.pixels, vec![0x0009_0909, 0x0009_0909, 0x0009_0909, 0x0009_0909, 0, 0]);
    let mut fb = screen(3, 2, 3, FramebufferFormat::Rgb);
    fb.blit_rgba_centered_alpha(&rgba, 3, 2);
    assert_eq!(fb.pixels, vec![0x0000_0000; 6].iter().enumerate().map(|(i, _)| if i < 4 { blend_over(0, FramebufferFormat::Rgb, 9, 9, 9, 9) } else { 0 }).collect::<Vec<u32>>());
    let mut fb = screen(3, 2, 3, FramebufferFormat::Rgb);
    fb.blit_rgba_centered_noscale(&[], 3, 2, true);
    fb.blit_rgba_centered_noscale(&rgba, 0, 2, false);
    fb.blit_rgba_centered_noscale(&rgba, 3, 0, false);
    assert_eq!(fb.pixels, vec![0u32; 6]);
}

#[test]
fn blit_with_alpha_blends_over_what_is_there() {
    let mut fb = screen(2, 1, 2, FramebufferFormat::Rgb);
    fb.clear(0, 100, 255);
    let rgba = [255u8, 100, 0, 128, 1, 2, 3, 0];
    fb.blit_rgba_centered_noscale(&rgba, 2, 1, true);
    assert_eq!(unpack_rgb_fmt(FramebufferFormat::Rgb, fb.pixels[0]), (128, 100, 127));
    assert_eq!(unpack_rgb_fmt(FramebufferFormat::Rgb, fb.pixels[1]), (0, 100, 255));
    let mut same = screen(2, 1, 2, FramebufferFormat::Rgb);
    same.clear(0, 100, 255);
    same.blit_rgba_centered_alpha(&rgba, 2, 1);
    assert_eq!(same.pixels, fb.pixels);
    let mut opaque = screen(2, 1, 2, FramebufferFormat::Rgb);
    opaque.blit_rgba_centered_noscale(&rgba, 2, 1, false);
    assert_eq!(opaque.pixels, vec![0x0000_64FF, 0x0003_0201]);
}

#[test]
fn validity_of_a_framebuffer() {
    let mut fb = screen(5, 3, 8, FramebufferFormat::Rgb);
    assert!(fb.is_wf());
    fb.pixels.pop();
    assert!(!fb.is_wf());
    fb.pixels.push(0);
    fb.width = 9;
    assert!(!fb.is_wf());
    fb.width = 8;
    assert!(fb.is_wf());
}
