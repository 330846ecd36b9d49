use rtos_core::aspect::AspectRatio;
use rtos_core::framebuffer_info::{FramebufferFormat, FramebufferInfo};
use rtos_core::mode::{best_for_target, make_info, pick_highest_for_ratio, pick_mode, ratio_diff, select_mode, translate_format, PixelFormat, VideoMode};

fn mode(width: u32, height: u32) -> VideoMode {
    VideoMode { width, height, stride: width, format: PixelFormat::Bgr }
}

fn blt(width: u32, height: u32) -> VideoMode {
    VideoMode { width, height, stride: width, format: PixelFormat::BltOnly }
}

const ALL: [AspectRatio; 13] = [
    AspectRatio::Ratio16_9,
    AspectRatio::Ratio21_9,
    AspectRatio::Ratio32_9,
    AspectRatio::Ratio16_10,
    AspectRatio::Ratio4_3,
    AspectRatio::Ratio5_4,
    AspectRatio::Ratio3_2,
    AspectRatio::Ratio18_9,
    AspectRatio::Ratio19_9,
    AspectRatio::Ratio20_9,
    AspectRatio::Ratio17_9,
    AspectRatio::Ratio2_1,
    AspectRatio::Unspecified,
];

#[test]
fn ratios_as_tuples() {
    let expect = [
        Some((16, 9)),
        Some((21, 9)),
        Some((32, 9)),
        Some((16, 10)),
        Some((4, 3)),
        Some((5, 4)),
        Some((3, 2)),
        Some((18, 9)),
        Some((19, 9)),
        Some((20, 9)),
        Some((17, 9)),
        Some((2, 1)),
        None,
    ];
    for (a, e) in ALL.iter().zip(expect.iter()) {
        assert_eq!(a.as_tuple(), *e);
    }
}

#[test]
fn fallback_chain_links() {
    let next = [
        (AspectRatio::Ratio32_9, AspectRatio::Ratio21_9),
        (AspectRatio::Ratio21_9, AspectRatio::Ratio16_9),
        (AspectRatio::Ratio16_10, AspectRatio::Ratio16_9),
        (AspectRatio::Ratio2_1, AspectRatio::Ratio16_9),
        (AspectRatio::Ratio17_9, AspectRatio::Ratio16_9),
        (AspectRatio::Ratio5_4, AspectRatio::Ratio4_3),
        (AspectRatio::Ratio3_2, AspectRatio::Ratio4_3),
        (AspectRatio::Ratio20_9, AspectRatio::Ratio19_9),
        (AspectRatio::Ratio19_9, AspectRatio::Ratio18_9),
        (AspectRatio::Ratio18_9, AspectRatio::Ratio16_9),
        (AspectRatio::Ratio16_9, AspectRatio::Unspecified),
        (AspectRatio::Ratio4_3, AspectRatio::Unspecified),
        (AspectRatio::Unspecified, AspectRatio::Unspecified),
    ];
    for (from, to) in next {
        let mut a = from;
        let t = a.get_fallback();
        assert_eq!(a, to);
        assert_eq!(t, to.as_tuple());
    }
}

#[test]
fn every_chain_ends() {
    for start in ALL {
        let mut a = start;
        let mut steps = 0;
        while a != AspectRatio::Unspecified {
            a.get_fallback();
            steps += 1;
            assert!(steps <= 4);
        }
    }
}

#[test]
fn ratio_diff_values() {
    assert_eq!(ratio_diff(800, 600, (21, 9)), 5400);
    assert_eq!(ratio_diff(1920, 1080, (21, 9)), 5400);
    assert_eq!(ratio_diff(2560, 1080, (21, 9)), 360);
    assert_eq!(ratio_diff(1920, 1080, (16, 9)), 0);
    assert_eq!(ratio_diff(1024, 768, (32, 9)), 15360);
    assert_eq!(ratio_diff(0, 0, (16, 9)), 0);
    assert_eq!(ratio_diff(u32::MAX, 0, (1, u32::MAX)), (u32::MAX as u64) * (u32::MAX as u64));
    assert_eq!(ratio_diff(0, u32::MAX, (u32::MAX, 1)), (u32::MAX as u64) * (u32::MAX as u64));
}

#[test]
fn aspect_selection_picks_the_closest_mode() {
    let modes = [mode(800, 600), mode(1920, 1080), mode(2560, 1080)];
    assert_eq!(pick_highest_for_ratio(&modes, AspectRatio::Ratio21_9), Some((2, 360)));
    let choice = select_mode(&modes, AspectRatio::Ratio21_9);
    assert_eq!(choice.chosen, Some((2, 360)));
    assert_eq!(choice.tried, vec![AspectRatio::Ratio21_9]);
    assert_eq!(pick_highest_for_ratio(&modes, AspectRatio::Ratio4_3), Some((0, 0)));
    assert_eq!(pick_highest_for_ratio(&modes, AspectRatio::Ratio16_9), Some((1, 0)));
}

#[test]
fn equal_distance_goes_to_the_larger_mode() {
    let modes = [mode(800, 600), mode(1920, 1080)];
    assert_eq!(best_for_target(&modes, (21, 9)), Some((1, 5400)));
    let modes = [mode(1920, 1080), mode(800, 600)];
    assert_eq!(best_for_target(&modes, (21, 9)), Some((0, 5400)));
    let modes = [mode(1280, 720), mode(3840, 2160), mode(1920, 1080)];
    assert_eq!(best_for_target(&modes, (16, 9)), Some((1, 0)));
}

#[test]
fn equal_modes_go_to_the_first() {
    let modes = [mode(640, 480), mode(1024, 768), mode(1024, 768), mode(640, 480)];
    assert_eq!(best_for_target(&modes, (4, 3)), Some((1, 0)));
}

#[test]
fn modes_without_pixel_memory_are_passed_over() {
    let modes = [blt(1920, 1080), mode(640, 480), blt(3840, 2160)];
    assert_eq!(best_for_target(&modes, (16, 9)), Some((1, 1920)));
    let bitmask = [VideoMode { width: 1920, height: 1080, stride: 1920, format: PixelFormat::Bitmask }];
    assert_eq!(best_for_target(&bitmask, (16, 9)), Some((0, 0)));
}

#[test]
fn fallback_walks_the_chain_once_per_link() {
    let modes = [blt(1024, 768)];
    let choice = select_mode(&modes, AspectRatio::Ratio32_9);
    assert_eq!(choice.chosen, None);
    assert_eq!(choice.tried, vec![AspectRatio::Ratio32_9, AspectRatio::Ratio21_9, AspectRatio::Ratio16_9]);
    assert_eq!(pick_highest_for_ratio(&modes, AspectRatio::Ratio32_9), None);
    let choice = select_mode(&[], AspectRatio::Ratio20_9);
    assert_eq!(choice.chosen, None);
    assert_eq!(
        choice.tried,
        vec![AspectRatio::Ratio20_9, AspectRatio::Ratio19_9, AspectRatio::Ratio18_9, AspectRatio::Ratio16_9]
    );
    let choice = select_mode(&[], AspectRatio::Ratio5_4);
    assert_eq!(choice.tried, vec![AspectRatio::Ratio5_4, AspectRatio::Ratio4_3]);
}

#[test]
fn a_usable_mode_is_taken_however_far_from_the_ratio() {
    let modes = [mode(1024, 768)];
    let choice = select_mode(&modes, AspectRatio::Ratio32_9);
    assert_eq!(choice.chosen, Some((0, 15360)));
    assert_eq!(choice.tried, vec![AspectRatio::Ratio32_9]);
}

#[test]
fn unspecified_keeps_the_current_mode() {
    let modes = [mode(1024, 768)];
    let choice = select_mode(&modes, AspectRatio::Unspecified);
    assert_eq!(choice.chosen, None);
    assert!(choice.tried.is_empty());
    assert_eq!(pick_highest_for_ratio(&modes, AspectRatio::Unspecified), None);
}

#[test]
fn pick_mode_by_index() {
    let modes = [mode(1, 2), mode(3, 4)];
    assert_eq!(pick_mode(&modes, 0), Some(mode(1, 2)));
    assert_eq!(pick_mode(&modes, 1), Some(mode(3, 4)));
    assert_eq!(pick_mode(&modes, 2), None);
    assert_eq!(pick_mode(&[], 0), None);
}

#[test]
fn firmware_formats_translate() {
    assert_eq!(translate_format(PixelFormat::Rgb), FramebufferFormat::Rgb);
    assert_eq!(translate_format(PixelFormat::Bgr), FramebufferFormat::Bgr);
    assert_eq!(translate_format(PixelFormat::Bitmask), FramebufferFormat::BltOnly);
    assert_eq!(translate_format(PixelFormat::BltOnly), FramebufferFormat::BltOnly);
    let info = make_info(0x8000_0000, 0x7E9000, VideoMode { width: 1920, height: 1080, stride: 1920, format: PixelFormat::Rgb });
    assert_eq!(
        info,
        FramebufferInfo { base: 0x8000_0000, size: 0x7E9000, width: 1920, height: 1080, stride: 1920, format: FramebufferFormat::Rgb }
    );
}
