use rtos_core::boot_info::BootInfo;
use rtos_core::framebuffer_info::{FramebufferFormat, FramebufferInfo};

#[test]
fn framebuffer_format_codes() {
    assert_eq!(FramebufferFormat::Bgr.as_u32(), 0);
    assert_eq!(FramebufferFormat::Rgb.as_u32(), 1);
    assert_eq!(FramebufferFormat::BltOnly.as_u32(), 2);
    assert_eq!(FramebufferFormat::from_u32(0), FramebufferFormat::Bgr);
    assert_eq!(FramebufferFormat::from_u32(1), FramebufferFormat::Rgb);
    assert_eq!(FramebufferFormat::from_u32(2), FramebufferFormat::BltOnly);
    assert_eq!(FramebufferFormat::from_u32(3), FramebufferFormat::BltOnly);
    assert_eq!(FramebufferFormat::from_u32(u32::MAX), FramebufferFormat::BltOnly);
    for f in [FramebufferFormat::Bgr, FramebufferFormat::Rgb, FramebufferFormat::BltOnly] {
        assert_eq!(FramebufferFormat::from_u32(f.as_u32()), f);
    }
}

#[test]
fn framebuffer_format_names_and_access() {
    assert_eq!(FramebufferFormat::Bgr.as_str(), "BGR");
    assert_eq!(FramebufferFormat::Rgb.as_str(), "RGB");
    assert_eq!(FramebufferFormat::BltOnly.as_str(), "BLT-only");
    assert!(FramebufferFormat::Bgr.is_memory_accessible());
    assert!(FramebufferFormat::Rgb.is_memory_accessible());
    assert!(!FramebufferFormat::BltOnly.is_memory_accessible());
    assert_eq!(FramebufferFormat::default(), FramebufferFormat::BltOnly);
}

#[test]
fn empty_descriptors() {
    let e = FramebufferInfo::empty();
    assert_eq!(e, FramebufferInfo { base: 0, size: 0, width: 0, height: 0, stride: 0, format: FramebufferFormat::BltOnly });
    assert_eq!(FramebufferInfo::default(), e);
    assert_eq!(BootInfo::empty().framebuffer, e);
    assert_eq!(BootInfo::default(), BootInfo::empty());
    assert!(!BootInfo::empty().has_framebuffer());
}

#[test]
fn boot_info_holds_the_framebuffer() {
    let info = FramebufferInfo { base: 0x1000, size: 64, width: 4, height: 4, stride: 4, format: FramebufferFormat::Rgb };
    let bi = BootInfo::from_framebuffer(info);
    assert!(bi.has_framebuffer());
    assert_eq!(*bi.framebuffer(), info);
    assert!(!BootInfo::from_framebuffer(FramebufferInfo { base: 0, ..info }).has_framebuffer());
    assert!(!BootInfo::from_framebuffer(FramebufferInfo { size: 0, ..info }).has_framebuffer());
}
