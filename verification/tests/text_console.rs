use rtos_core::boot::align_stack_pointer;
use rtos_core::boot_info::BootInfo;
use rtos_core::console::{glyph_5x7, Console, CELL_H, CELL_W, GLYPHS};
use rtos_core::framebuffer::Framebuffer;
use rtos_core::framebuffer_info::{FramebufferFormat, FramebufferInfo};
use rtos_core::kernel::{kernel_init, KernelState};
use rtos_core::validate::FbSoftCheckError;

const FG: u32 = 0x00FF_FFFF;
const BG: u32 = 0x0000_0001;

fn screen(width: u32, height: u32, stride: u32) -> Framebuffer {
    let info = FramebufferInfo { base: 0x1000, size: 0, width, height, stride, format: FramebufferFormat::Rgb };
    Framebuffer::from_bootinfo(&BootInfo::from_framebuffer(info)).unwrap()
}

fn console(fb: &Framebuffer) -> Console {
    Console::new(fb, (255, 255, 255), Some((1, 0, 0)))
}

/// The cell at `(cx, cy)` as seven strings of `#` and `.`, then the eighth
/// row.
fn cell(fb: &Framebuffer, x0: usize, y0: usize) -> Vec<String> {
    (0..8)
        .map(|r| (0..6).map(|c| if fb.pixels[(y0 + r) * fb.stride as usize + x0 + c] == FG { '#' } else { '.' }).collect())
        .collect()
}

#[test]
fn glyphs_from_the_table() {
    assert_eq!(glyph_5x7(' '), [0; 7]);
    assert_eq!(glyph_5x7('A'), [0b00100, 0b01010, 0b10001, 0b11111, 0b10001, 0b10001, 0b10001]);
    assert_eq!(glyph_5x7('0'), [0b01110, 0b10001, 0b10011, 0b10101, 0b11001, 0b10001, 0b01110]);
    assert_eq!(glyph_5x7('~'), [0, 0b01101, 0b10110, 0, 0, 0, 0]);
    assert_eq!(glyph_5x7('\\'), [0b10000, 0b01000, 0b00100, 0b00010, 0b00001, 0, 0]);
    let question = [0b01110, 0b10001, 0b00010, 0b00100, 0b00100, 0, 0b00100];
    assert_eq!(glyph_5x7('?'), question);
    for ch in ['$', '&', '\u{7f}', '\t', '\0', 'é', '漢'] {
        assert_eq!(glyph_5x7(ch), question);
    }
    assert_eq!(GLYPHS.len(), 95);
    for rows in GLYPHS.iter() {
        for r in rows {
            assert!(*r < 32);
        }
    }
    assert_eq!((CELL_W, CELL_H), (6, 8));
}

#[test]
fn a_character_fills_its_cell() {
    let mut fb = screen(20, 20, 24);
    let mut con = console(&fb);
    assert_eq!((con.fg, con.bg), (FG, Some(BG)));
    con.putc(&mut fb, 'T');
    assert_eq!(
        cell(&fb, 0, 0),
        vec!["#####.", "..#...", "..#...", "..#...", "..#...", "..#...", "..#...", "......"]
    );
    assert_eq!((con.cursor_x, con.cursor_y), (1, 0));
    for y in 0..20 {
        for x in 0..24 {
            let p = fb.pixels[y * 24 + x];
            if x < 6 && y < 8 {
                assert!(p == FG || p == BG);
            } else {
                assert_eq!(p, 0);
            }
        }
    }
}

#[test]
fn without_background_only_the_glyph_is_drawn() {
    let mut fb = screen(20, 20, 20);
    fb.clear(9, 9, 9);
    let mut con = Console::new(&fb, (255, 255, 255), None);
    con.putc(&mut fb, '-');
    let lit: Vec<usize> = (0..400).filter(|&i| fb.pixels[i] != 0x0009_0909).collect();
    assert_eq!(lit, vec![60, 61, 62, 63, 64]);
}

#[test]
fn line_feed_and_carriage_return() {
    let mut fb = screen(40, 40, 40);
    let mut con = console(&fb);
    con.write_str(&mut fb, "ab\r");
    assert_eq!((con.cursor_x, con.cursor_y), (2, 0));
    con.putc(&mut fb, '\n');
    assert_eq!((con.cursor_x, con.cursor_y), (0, 1));
    con.write_line(&mut fb, "c");
    assert_eq!((con.cursor_x, con.cursor_y), (0, 2));
    assert_eq!(cell(&fb, 0, 8)[2], ".###..");
}

#[test]
fn a_full_line_wraps() {
    let mut fb = screen(13, 40, 16);
    let mut con = console(&fb);
    con.write_str(&mut fb, "III");
    assert_eq!((con.cursor_x, con.cursor_y), (1, 1));
    assert_eq!(cell(&fb, 0, 0)[0], ".###..");
    assert_eq!(cell(&fb, 6, 0)[0], ".###..");
    assert_eq!(cell(&fb, 0, 8)[0], ".###..");
    assert_eq!(fb.pixels[12], 0);
}

#[test]
fn the_last_line_scrolls_up() {
    let mut fb = screen(12, 16, 12);
    let mut con = console(&fb);
    con.write_line(&mut fb, "A");
    assert_eq!((con.cursor_x, con.cursor_y), (0, 1));
    let first = cell(&fb, 0, 0);
    con.write_str(&mut fb, "B");
    let second = cell(&fb, 0, 8);
    assert_ne!(first, second);
    con.putc(&mut fb, '\n');
    assert_eq!((con.cursor_x, con.cursor_y), (0, 1));
    assert_eq!(cell(&fb, 0, 0), second);
    for i in 8 * 12..16 * 12 {
        assert_eq!(fb.pixels[i], BG);
    }
}

#[test]
fn scrolling_moves_padding_with_the_rows() {
    let mut fb = screen(6, 16, 8);
    for (i, p) in fb.pixels.iter_mut().enumerate() {
        *p = 0x100 + i as u32;
    }
    let before = fb.pixels.clone();
    let mut con = Console::new(&fb, (255, 255, 255), None);
    con.putc(&mut fb, '\n');
    con.putc(&mut fb, '\n');
    assert_eq!((con.cursor_x, con.cursor_y), (0, 1));
    assert_eq!(&fb.pixels[..64], &before[64..]);
    assert_eq!(&fb.pixels[64..], &before[64..]);
}

#[test]
fn a_screen_of_one_line_is_cleared_instead() {
    let mut fb = screen(12, 8, 12);
    let mut con = console(&fb);
    con.write_str(&mut fb, "Z");
    assert_eq!((con.cursor_x, con.cursor_y), (1, 0));
    con.putc(&mut fb, '\n');
    assert_eq!((con.cursor_x, con.cursor_y), (0, 0));
    assert_eq!(fb.pixels, vec![BG; 96]);
}

#[test]
fn origin_and_colours() {
    let mut fb = screen(40, 40, 40);
    let mut con = console(&fb);
    con.write_str(&mut fb, "xx");
    con.set_origin(7, 9);
    assert_eq!((con.origin_x, con.origin_y, con.cursor_x, con.cursor_y), (7, 9, 0, 0));
    con.set_colors(&fb, (1, 2, 3), None);
    assert_eq!((con.fg, con.bg), (0x0003_0201, None));
    con.putc(&mut fb, '|');
    assert_eq!(fb.pixels[9 * 40 + 9], 0x0003_0201);
    assert_eq!(fb.pixels[9 * 40 + 8], 0);
    con.set_colors(&fb, (1, 2, 3), Some((4, 5, 6)));
    con.clear(&mut fb);
    assert_eq!(fb.pixels, vec![0x0006_0504; 1600]);
    assert_eq!((con.origin_x, con.cursor_x, con.cursor_y), (7, 0, 0));
}

#[test]
fn drawing_off_screen_is_clipped() {
    let mut fb = screen(10, 10, 10);
    let mut con = console(&fb);
    con.set_origin(u32::MAX, u32::MAX);
    con.write_str(&mut fb, "ab\ncd");
    assert_eq!(fb.pixels, vec![BG; 100]);
    let mut fb = screen(10, 10, 10);
    con.set_origin(8, 0);
    con.putc(&mut fb, '#');
    assert_eq!((con.cursor_x, con.cursor_y), (1, 0));
    assert_eq!(&fb.pixels[..10], &[0, 0, 0, 0, 0, 0, 0, 0, BG, FG]);
    assert_eq!(&fb.pixels[10..20], &[0, 0, 0, 0, 0, 0, 0, 0, FG, FG]);
    assert_eq!(&fb.pixels[20..], &[BG; 80]);
}

#[test]
fn kernel_greets_on_a_cleared_screen() {
    let info = FramebufferInfo { base: 0x1000, size: 0, width: 160, height: 32, stride: 160, format: FramebufferFormat::Bgr };
    let state = KernelState::new(&BootInfo::from_framebuffer(info)).unwrap();
    let blue = 0x0000_2D61;
    let mut expect = Framebuffer::from_bootinfo(&BootInfo::from_framebuffer(info)).unwrap();
    expect.clear(0x00, 0x2D, 0x61);
    assert_eq!(expect.pixels[0], blue);
    let mut con = Console::new(&expect, (255, 255, 255), Some((0, 0, 0)));
    con.write_str(&mut expect, "Kernel setup complete.\n");
    assert_eq!(state.fb.pixels, expect.pixels);
    assert_eq!(state.fb.pixels[159], blue);
    assert_eq!(state.fb.pixels[0], 0x00FF_FFFF);
    assert_eq!(state.fb.pixels[5], 0);
    assert_eq!(state.console(), Console::new(&expect, (255, 255, 255), Some((0, 0, 0))));
}

#[test]
fn kernel_init_checks_the_framebuffer() {
    let good = FramebufferInfo { base: 0x1000, size: 0, width: 16, height: 16, stride: 16, format: FramebufferFormat::Bgr };
    let up = kernel_init(&BootInfo::from_framebuffer(good)).unwrap();
    assert_eq!(up.check, Ok(()));
    let odd = FramebufferInfo { base: 0x1002, ..good };
    let up = kernel_init(&BootInfo::from_framebuffer(odd)).unwrap();
    assert_eq!(up.check, Err(FbSoftCheckError::MisalignedPtr));
    assert_eq!(up.state.fb.width, 16);
    let none = kernel_init(&BootInfo::empty()).unwrap();
    assert_eq!(none.check, Err(FbSoftCheckError::ZeroDims));
    let bad = FramebufferInfo { width: 17, ..good };
    assert!(kernel_init(&BootInfo::from_framebuffer(bad)).is_none());
}

#[test]
fn stack_pointer_alignment() {
    assert_eq!(align_stack_pointer(0), 0);
    assert_eq!(align_stack_pointer(15), 0);
    assert_eq!(align_stack_pointer(16), 16);
    assert_eq!(align_stack_pointer(0x30_8008), 0x30_8000);
    assert_eq!(align_stack_pointer(u64::MAX), u64::MAX - 15);
}

#[test]
fn validity_of_a_console() {
    let fb = screen(10, 10, 10);
    let mut con = console(&fb);
    assert!(con.is_wf());
    con.cursor_x = u32::MAX;
    assert!(!con.is_wf());
    con.cursor_x = u32::MAX - 1;
    con.cursor_y = u32::MAX;
    assert!(!con.is_wf());
}

#[test]
fn the_cursor_stays_in_range_at_its_limits() {
    let mut fb = screen(10, 10, 10);
    let mut con = console(&fb);
    con.cursor_x = u32::MAX - 1;
    con.cursor_y = u32::MAX - 1;
    con.write_str(&mut fb, "a\nb\n");
    assert!(con.is_wf());
}
