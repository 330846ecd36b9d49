use rtos_core::boot_info::BootInfo;
use rtos_core::framebuffer::Framebuffer;
use rtos_core::framebuffer_info::{FramebufferFormat, FramebufferInfo};
use rtos_core::validate::{check_geometry, is_canonical_u64, row_delta, validate_framebuffer_soft, FbSoftCheckError, ProbeAction, ProbeStage, SoftProbe, PROBE_PATTERN_END, PROBE_PATTERN_START};

fn screen(base: u64, width: u32, height: u32, stride: u32) -> Framebuffer {
    let info = FramebufferInfo { base, size: 0, width, height, stride, format: FramebufferFormat::Bgr };
    Framebuffer::from_bootinfo(&BootInfo::from_framebuffer(info)).unwrap()
}

/// Runs the probe against `memory`, the first row of a screen. `spoil`
/// changes what a load at an index gives.
fn run(fb: &Framebuffer, memory: &mut Vec<u32>, spoil: &dyn Fn(usize, u32) -> u32) -> (Result<(), FbSoftCheckError>, Vec<ProbeAction>) {
    let mut log = Vec::new();
    let (mut probe, mut action) = SoftProbe::begin(fb);
    for _ in 0..20 {
        log.push(action);
        match action {
            ProbeAction::Load { index } => action = probe.step(spoil(index, memory[index])),
            ProbeAction::Store { index, value } => {
                memory[index] = value;
                action = probe.step(0);
            }
            ProbeAction::Finish(r) => {
                assert_eq!(probe.stage, ProbeStage::Done);
                assert_eq!(probe.step(0), ProbeAction::Finish(r));
                return (r, log);
            }
        }
    }
    panic!("the probe did not end");
}

#[test]
fn canonical_addresses() {
    assert!(is_canonical_u64(0));
    assert!(is_canonical_u64(0x0000_7FFF_FFFF_FFFF));
    assert!(!is_canonical_u64(0x0000_8000_0000_0000));
    assert!(!is_canonical_u64(0x8000_0000_0000_0000));
    assert!(!is_canonical_u64(0xFFFF_7FFF_FFFF_FFFF));
    assert!(is_canonical_u64(0xFFFF_8000_0000_0000));
    assert!(is_canonical_u64(u64::MAX));
    assert!(!is_canonical_u64(0x0001_0000_0000_0000));
}

#[test]
fn geometry_faults_in_order() {
    assert_eq!(check_geometry(&screen(0x0000_8000_0000_0001, 0, 0, 0)), Err(FbSoftCheckError::NonCanonicalVa));
    assert_eq!(check_geometry(&screen(0x0001_0000_0000_0000, 4, 4, 4)), Err(FbSoftCheckError::NonCanonicalVa));
    assert_eq!(check_geometry(&screen(0x1002, 0, 4, 4)), Err(FbSoftCheckError::ZeroDims));
    assert_eq!(check_geometry(&screen(0x1002, 4, 0, 4)), Err(FbSoftCheckError::ZeroDims));
    assert_eq!(check_geometry(&screen(0x1002, 4, 4, 4)), Err(FbSoftCheckError::MisalignedPtr));
    assert_eq!(check_geometry(&screen(0x1001, 4, 4, 4)), Err(FbSoftCheckError::MisalignedPtr));
    assert_eq!(check_geometry(&screen(0x1000, 4, 4, 4)), Ok(()));
    assert_eq!(check_geometry(&screen(0xFFFF_8000_0000_0000, 4, 2, 6)), Ok(()));
    assert_eq!(check_geometry(&screen(0xFFFF_FFFF_FFFF_FFFC, 1, 2, 1)), Ok(()));
}

#[test]
fn a_single_row_passes_whatever_its_stride() {
    assert_eq!(check_geometry(&screen(0x1000, 4, 1, 6)), Ok(()));
    assert_eq!(check_geometry(&screen(0x1000, 1, 1, 1)), Ok(()));
    assert_eq!(check_geometry(&screen(0xFFFF_FFFF_FFFF_FFFC, 1, 1, 1)), Ok(()));
    let mut fb = screen(0x1000, 4, 1, 6);
    for (i, p) in fb.pixels.iter_mut().enumerate() {
        *p = 0x0A0B_0C00 + i as u32;
    }
    let before = fb.pixels.clone();
    assert_eq!(validate_framebuffer_soft(&mut fb), Ok(()));
    assert_eq!(fb.pixels, before);
    assert_eq!((fb.base, fb.width, fb.height, fb.stride), (0x1000, 4, 1, 6));
}

#[test]
fn rows_are_one_stride_apart() {
    assert_eq!(row_delta(&screen(0x1000, 4, 3, 6)), 24);
    assert_eq!(row_delta(&screen(0x1000, 4, 1, 6)), 24);
    assert_eq!(row_delta(&screen(0x1000, 0, 0, 0)), 0);
    assert_eq!(row_delta(&screen(0xFFFF_FFFF_FFFF_FFFC, 1, 1, 1)), 4);
    let mut wide = screen(0x1000, 0, 0, 0);
    wide.stride = u32::MAX;
    assert_eq!(row_delta(&wide), 4 * (u32::MAX as u64));
}

#[test]
fn validation_runs_the_probe_and_restores() {
    let mut fb = screen(0x1000, 3, 2, 4);
    for (i, p) in fb.pixels.iter_mut().enumerate() {
        *p = 0x0101_0101 * i as u32;
    }
    let before = fb.pixels.clone();
    assert_eq!(validate_framebuffer_soft(&mut fb), Ok(()));
    assert_eq!(fb.pixels, before);
    let mut bad = screen(0x1001, 3, 2, 4);
    assert_eq!(validate_framebuffer_soft(&mut bad), Err(FbSoftCheckError::MisalignedPtr));
    let mut non_canonical = screen(0x00FF_0000_0000_0000, 3, 2, 4);
    assert_eq!(validate_framebuffer_soft(&mut non_canonical), Err(FbSoftCheckError::NonCanonicalVa));
}

#[test]
fn probe_sequence_on_sound_memory() {
    let fb = screen(0x1000, 3, 2, 4);
    let mut memory = vec![0xAAAA_0000, 1, 0x0000_BBBB, 3];
    let (r, log) = run(&fb, &mut memory, &|_, v| v);
    assert_eq!(r, Ok(()));
    assert_eq!(memory, vec![0xAAAA_0000, 1, 0x0000_BBBB, 3]);
    assert_eq!(
        log,
        vec![
            ProbeAction::Load { index: 0 },
            ProbeAction::Load { index: 2 },
            ProbeAction::Store { index: 0, value: 0xAAAA_0000 ^ 0x0055_AA55 },
            ProbeAction::Load { index: 0 },
            ProbeAction::Store { index: 0, value: 0xAAAA_0000 },
            ProbeAction::Store { index: 2, value: 0x0000_BBBB ^ 0x00AA_55AA },
            ProbeAction::Load { index: 2 },
            ProbeAction::Store { index: 2, value: 0x0000_BBBB },
            ProbeAction::Finish(Ok(())),
        ]
    );
    assert_eq!((PROBE_PATTERN_START, PROBE_PATTERN_END), (0x0055_AA55, 0x00AA_55AA));
}

#[test]
fn probe_reports_a_first_pixel_that_does_not_hold() {
    let fb = screen(0x1000, 3, 2, 4);
    let mut memory = vec![5, 6, 7, 8];
    let (r, log) = run(&fb, &mut memory, &|i, v| if i == 0 { v & 0xFFFF } else { v });
    assert_eq!(r, Err(FbSoftCheckError::ProbeStartMismatch { wrote: 5 ^ 0x0055_AA55, read: (5 ^ 0x0055_AA55) & 0xFFFF }));
    assert_eq!(memory, vec![5, 6, 7, 8]);
    assert!(!log.iter().any(|a| matches!(a, ProbeAction::Store { index: 2, .. })));
}

#[test]
fn probe_reports_a_last_pixel_that_does_not_hold() {
    let fb = screen(0x1000, 3, 2, 4);
    let mut memory = vec![5, 6, 7, 8];
    let (r, _) = run(&fb, &mut memory, &|i, v| if i == 2 { 0 } else { v });
    assert_eq!(r, Err(FbSoftCheckError::ProbeEndMismatch { wrote: 0x00AA_55AA, read: 0 }));
    assert_eq!(memory, vec![5, 6, 0, 8]);
}

#[test]
fn probe_of_a_one_pixel_row() {
    let fb = screen(0x1000, 1, 2, 1);
    let mut memory = vec![0x42];
    let (r, log) = run(&fb, &mut memory, &|_, v| v);
    assert_eq!(r, Ok(()));
    assert_eq!(memory, vec![0x42]);
    assert_eq!(log.len(), 9);
}

#[test]
fn probe_ends_at_once_on_bad_geometry() {
    let fb = screen(0x1000, 0, 2, 4);
    let (probe, action) = SoftProbe::begin(&fb);
    assert_eq!(action, ProbeAction::Finish(Err(FbSoftCheckError::ZeroDims)));
    assert_eq!(probe.stage, ProbeStage::Done);
}
