use lvast::base::errors::VastErrorType;
use lvast::types::guiding::validate_guide_integers;
use lvast::types::mount::{resting_mount_status, VastMountStatus, VastTrackingMode};
use lvast::platesolvers::registry::{create_platesolver, VastPlatesolver};
use lvast::types::camera::{
    CameraBayerPattern, CameraFrameFormat, VastCameraCapBinning, VastCameraCapExposure, VastCameraCapGain,
    VastCameraCapGuiding, VastCameraCapISO, VastCameraCapOffset, VastCameraCapRange, VastCameraCapRoi,
    VastCameraCapRoiCombination, VastCameraCapWhiteBalance, VastCameraFrame,
};
use lvast::types::camera_summary::VastCameraIntegerCapabilities;
use lvast::types::imageformats::{ImageFrame, StandardImageFrameFormat};
use lvast::types::platsolver::VastPlatesolverBackend;

#[test]
fn imageformats_camera_and_image_formats_round_trip() {
    for format in [
        CameraFrameFormat::RAW8,
        CameraFrameFormat::RAW16,
        CameraFrameFormat::RAW14,
        CameraFrameFormat::RAW12,
        CameraFrameFormat::RAW10,
        CameraFrameFormat::RGB24,
        CameraFrameFormat::RGB32,
    ] {
        let image_format: StandardImageFrameFormat = format.into();
        let camera_format: CameraFrameFormat = image_format.into();
        assert_eq!(camera_format, format);
    }
}

#[test]
fn imageformats_camera_and_image_frames_round_trip() {
    let camera_frame = VastCameraFrame {
        width: 2,
        height: 1,
        format: CameraFrameFormat::RGB24,
        data: vec![1, 2, 3, 4, 5, 6],
    };

    let image_frame: ImageFrame = camera_frame.clone().into();
    let converted_camera_frame: VastCameraFrame = image_frame.into();

    assert_eq!(converted_camera_frame, camera_frame);
}

#[test]
fn tests_camera_and_image_formats_round_trip() {
    for format in [
        CameraFrameFormat::RAW8,
        CameraFrameFormat::RAW16,
        CameraFrameFormat::RAW14,
        CameraFrameFormat::RAW12,
        CameraFrameFormat::RAW10,
        CameraFrameFormat::RGB24,
        CameraFrameFormat::RGB32,
    ] {
        let image_format: StandardImageFrameFormat = format.into();
        let camera_format: CameraFrameFormat = image_format.into();
        assert_eq!(camera_format, format);
    }
}

#[test]
fn tests_camera_and_image_frames_round_trip() {
    let camera_frame = VastCameraFrame {
        width: 2,
        height: 1,
        format: CameraFrameFormat::RGB24,
        data: vec![1, 2, 3, 4, 5, 6],
    };

    let image_frame: ImageFrame = camera_frame.clone().into();
    let converted_camera_frame: VastCameraFrame = image_frame.into();

    assert_eq!(converted_camera_frame, camera_frame);
}

#[test]
fn creates_requested_backend() {
    assert_eq!(create_platesolver(VastPlatesolverBackend::Astap).implementation_name(), "astap");
    assert_eq!(
        create_platesolver(VastPlatesolverBackend::AstrometryNet).implementation_name(),
        "astrometry.net"
    );
}

#[test]
fn resting_mount_status_follows_park_and_tracking() {
    assert_eq!(resting_mount_status(true, VastTrackingMode::Sidereal), VastMountStatus::Parked);
    assert_eq!(resting_mount_status(true, VastTrackingMode::Off), VastMountStatus::Parked);
    assert_eq!(resting_mount_status(false, VastTrackingMode::Off), VastMountStatus::Stopped);
    assert_eq!(resting_mount_status(false, VastTrackingMode::Lunar), VastMountStatus::Tracking);
    assert_eq!(resting_mount_status(false, VastTrackingMode::Custom), VastMountStatus::Tracking);
}

#[test]
fn guide_integer_settings_are_checked() {
    assert!(validate_guide_integers(1000, None, None, 2000, 5).is_ok());
    assert!(validate_guide_integers(1000, Some(2), Some((0, 0, 64, 64)), 1, 1).is_ok());
    let err = validate_guide_integers(0, None, None, 2000, 5).unwrap_err();
    assert_eq!(err.error_type, VastErrorType::InvalidInput);
    assert!(validate_guide_integers(1000, Some(0), None, 2000, 5).is_err());
    assert!(validate_guide_integers(1000, None, Some((3, 4, 0, 8)), 2000, 5).is_err());
    assert!(validate_guide_integers(1000, None, None, 0, 5).is_err());
    assert!(validate_guide_integers(1000, None, None, 2000, 0).is_err());
}

#[test]
fn integer_capabilities_summary_lists_present_lines() {
    let caps = VastCameraIntegerCapabilities {
        gain: Some(VastCameraCapGain { min: 0, max: 100, step: 1 }),
        iso: Some(VastCameraCapISO { min: 100, max: 6400, multiplier: 2 }),
        offset: Some(VastCameraCapOffset { min: 0, max: 255, step: 1 }),
        white_balance: Some(VastCameraCapWhiteBalance {
            red: VastCameraCapRange { min: 0, max: 10, step: 1 },
            green: VastCameraCapRange { min: 1, max: 11, step: 1 },
            blue: VastCameraCapRange { min: 2, max: 12, step: 1 },
        }),
        contrast: Some(VastCameraCapRange { min: 0, max: 5, step: 1 }),
        sharpness: None,
        saturation: None,
        usb_speed: None,
        roi: Some(VastCameraCapRoi {
            combinations: vec![
                VastCameraCapRoiCombination { bin: 1, max_width: 640, max_height: 480, width_step: 8, height_step: 2 },
                VastCameraCapRoiCombination { bin: 2, max_width: 320, max_height: 240, width_step: 4, height_step: 2 },
            ],
        }),
        binning: Some(VastCameraCapBinning { modes: vec![1, 2] }),
        guiding: Some(VastCameraCapGuiding { pulse_guide: true }),
        exposure: VastCameraCapExposure { min_microseconds: 32, max_microseconds: 2_000_000, step: 1 },
        frame_formats: vec![CameraFrameFormat::RAW8, CameraFrameFormat::RAW16],
        bayer_pattern: Some(CameraBayerPattern::RGGB),
        max_height: 480,
        max_width: 640,
        adc_bits: 12,
    };
    assert_eq!(
        caps.capabilities_summary("0.000..2.000"),
        "Camera capabilities\n- Sensor: 640x480 px\n- Type: Color\n- Bayer pattern: RGGB\n- ADC: 12 bit\n\
         - Formats: RAW8, RAW16\n- Gain: 0..100 step 1\n\
         - Exposure: 32..2000000 us (0..2000 ms, 0.000..2.000 s) step 1\n\
         - ROI: bin 1: up to 640x480 px, step 8x2; bin 2: up to 320x240 px, step 4x2\n- Binning: 1x1, 2x2\n\
         - White balance: R 0..10, G 1..11, B 2..12\n- Contrast: 0..5\n- Guide: pulse guide yes\n\
         - ISO: 100..6400 x2\n- Offset: 0..255 step 1"
    );
    let bare = VastCameraIntegerCapabilities {
        gain: None,
        iso: None,
        offset: None,
        white_balance: None,
        contrast: None,
        sharpness: None,
        saturation: None,
        usb_speed: None,
        roi: Some(VastCameraCapRoi { combinations: vec![] }),
        binning: None,
        guiding: Some(VastCameraCapGuiding { pulse_guide: false }),
        exposure: VastCameraCapExposure { min_microseconds: 0, max_microseconds: 0, step: 0 },
        frame_formats: vec![],
        bayer_pattern: None,
        max_height: 2,
        max_width: 3,
        adc_bits: 0,
    };
    assert_eq!(
        bare.capabilities_summary("unused"),
        "Camera capabilities\n- Sensor: 3x2 px\n- Type: Mono\n- Bayer pattern: none\n- Formats: none reported\n\
         - ROI: yes\n- Guide: pulse guide no"
    );
}
