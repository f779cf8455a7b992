use boot_handoff::graphics::{
    describe, find_mode, search, select_mode, FrameBufferConfig, GraphicsError, GraphicsMode,
    PixelFormat, RAW_FORMAT_BGR, RAW_FORMAT_RGB,
};

fn mode(width: usize, height: usize, raw_format: u32) -> GraphicsMode {
    GraphicsMode { width, height, raw_format }
}

#[test]
fn search_picks_largest_mode_up_to_cap() {
    // Modes (800,600,RGB), (1920,1080,BGR), (3840,2160,BGR); cap (1920,1080).
    let modes = vec![
        mode(800, 600, RAW_FORMAT_RGB),
        mode(1920, 1080, RAW_FORMAT_BGR),
        mode(3840, 2160, RAW_FORMAT_BGR),
    ];
    assert_eq!(search(&modes, (1920, 1080)), (1920, 1080));
}

#[test]
fn substandard_cap_searches_as_default_ceiling() {
    let modes = vec![
        mode(800, 600, RAW_FORMAT_RGB),
        mode(1280, 720, RAW_FORMAT_BGR),
        mode(1920, 1080, RAW_FORMAT_BGR),
        mode(3840, 2160, RAW_FORMAT_BGR),
    ];
    let with_default = search(&modes, (1920, 1080));
    assert_eq!(search(&modes, (100, 100)), with_default);
    assert_eq!(search(&modes, (639, 1080)), with_default);
    assert_eq!(search(&modes, (1920, 479)), with_default);
}

#[test]
fn unsupported_formats_are_discarded() {
    // Raw format 2 (a bit-mask layout) never qualifies.
    let modes = vec![mode(1920, 1080, 2), mode(800, 600, RAW_FORMAT_RGB)];
    assert_eq!(search(&modes, (1920, 1080)), (800, 600));
}

#[test]
fn portrait_modes_never_become_best() {
    let modes = vec![mode(600, 800, RAW_FORMAT_RGB)];
    assert_eq!(search(&modes, (1920, 1080)), (0, 0));
}

#[test]
fn no_qualifying_mode_returns_zero_resolution() {
    let modes: Vec<GraphicsMode> = Vec::new();
    assert_eq!(search(&modes, (1920, 1080)), (0, 0));
    assert_eq!(select_mode(&modes, (1920, 1080)), None);
}

#[test]
fn search_stops_at_first_mode_reaching_cap() {
    // The first mode already meets the cap: the larger one is not taken.
    let modes = vec![mode(1920, 1080, RAW_FORMAT_BGR), mode(3840, 2160, RAW_FORMAT_BGR)];
    assert_eq!(search(&modes, (1024, 768)), (1920, 1080));
}

#[test]
fn find_mode_returns_first_matching_index() {
    let modes = vec![
        mode(800, 600, RAW_FORMAT_RGB),
        mode(1920, 1080, RAW_FORMAT_BGR),
        mode(1920, 1080, RAW_FORMAT_RGB),
    ];
    assert_eq!(find_mode(&modes, (1920, 1080)), Some(1));
    assert_eq!(find_mode(&modes, (640, 480)), None);
}

#[test]
fn select_mode_locates_the_searched_resolution() {
    let modes = vec![
        mode(800, 600, RAW_FORMAT_RGB),
        mode(1920, 1080, RAW_FORMAT_BGR),
        mode(3840, 2160, RAW_FORMAT_BGR),
    ];
    assert_eq!(select_mode(&modes, (1920, 1080)), Some(1));
}

#[test]
fn describe_normalizes_the_two_supported_formats() {
    let cfg = describe(0xfd00_0000, 2048, 1920, 1080, RAW_FORMAT_BGR).unwrap();
    assert_eq!(
        cfg,
        FrameBufferConfig {
            base_address: 0xfd00_0000,
            stride_pixels: 2048,
            width: 1920,
            height: 1080,
            pixel_format: PixelFormat::Bgr,
        }
    );
    let cfg = describe(0x8000_0000, 800, 800, 600, RAW_FORMAT_RGB).unwrap();
    assert_eq!(cfg.pixel_format, PixelFormat::Rgb);
}

#[test]
fn describe_rejects_other_formats() {
    assert_eq!(describe(0, 100, 100, 100, 2), Err(GraphicsError::UnsupportedFormat));
    assert_eq!(describe(0, 100, 100, 100, 3), Err(GraphicsError::UnsupportedFormat));
}
