use ash_voxels::upscaling::{initialize, UpscalingMode};

#[test]
fn upscaler_flag_names_the_modes() {
    assert_eq!(UpscalingMode::from_flag(None), Ok(UpscalingMode::Off));
    assert_eq!(UpscalingMode::from_flag(Some("off")), Ok(UpscalingMode::Off));
    assert_eq!(UpscalingMode::from_flag(Some("dlaa")), Ok(UpscalingMode::Dlaa));
    assert_eq!(UpscalingMode::from_flag(Some("dlss")), Ok(UpscalingMode::Dlss));
}

#[test]
fn unknown_upscaler_flag_is_rejected() {
    assert_eq!(
        UpscalingMode::from_flag(Some("fsr")),
        Err("unsupported --upscaler mode \"fsr\"; expected off|dlaa|dlss".to_string())
    );
    assert_eq!(
        UpscalingMode::from_flag(Some("DLSS")),
        Err("unsupported --upscaler mode \"DLSS\"; expected off|dlaa|dlss".to_string())
    );
}

#[test]
fn initialize_reports_the_missing_upscaler() {
    assert_eq!(initialize(UpscalingMode::Off), None);
    assert_eq!(
        initialize(UpscalingMode::Dlss),
        Some(
            "NVNGX upscaler requested (Dlss) but `nvngx` feature is disabled at compile time; running without upscaling."
                .to_string()
        )
    );
    assert_eq!(
        initialize(UpscalingMode::Dlaa),
        Some(
            "NVNGX upscaler requested (Dlaa) but `nvngx` feature is disabled at compile time; running without upscaling."
                .to_string()
        )
    );
}
