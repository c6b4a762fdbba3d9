use lvast::algos::images::{
    channel_count, cumulative_counts, format_max_value, histogram_sample_stride, planar_channel_samples,
    touches_border, validate_frame_len, HistogramRenderOptions,
};
use lvast::base::errors::VastErrorType;
use lvast::types::imageformats::{ImageFrame, StandardImageFrameFormat};

fn frame(width: u32, height: u32, format: StandardImageFrameFormat, data: Vec<u8>) -> ImageFrame {
    ImageFrame { width, height, format, data }
}

#[test]
fn validates_frame_length_against_geometry() {
    assert!(validate_frame_len(&frame(2, 2, StandardImageFrameFormat::RAW8, vec![0; 4])).is_ok());
    assert!(validate_frame_len(&frame(2, 2, StandardImageFrameFormat::RAW16, vec![0; 8])).is_ok());
    assert!(validate_frame_len(&frame(2, 2, StandardImageFrameFormat::RGB24, vec![0; 12])).is_ok());
    let err = validate_frame_len(&frame(2, 2, StandardImageFrameFormat::RGB32, vec![0; 15])).unwrap_err();
    assert_eq!(err.error_type, VastErrorType::FileError);
}

#[test]
fn counts_logical_channels() {
    assert_eq!(channel_count(StandardImageFrameFormat::RAW8), 1);
    assert_eq!(channel_count(StandardImageFrameFormat::RAW12), 1);
    assert_eq!(channel_count(StandardImageFrameFormat::RGB24), 3);
    assert_eq!(channel_count(StandardImageFrameFormat::RGB32), 4);
}

#[test]
fn reports_format_sample_ceilings() {
    assert_eq!(format_max_value(StandardImageFrameFormat::RAW8), 255);
    assert_eq!(format_max_value(StandardImageFrameFormat::RAW10), 1023);
    assert_eq!(format_max_value(StandardImageFrameFormat::RAW12), 4095);
    assert_eq!(format_max_value(StandardImageFrameFormat::RAW14), 16383);
    assert_eq!(format_max_value(StandardImageFrameFormat::RAW16), 65535);
    assert_eq!(format_max_value(StandardImageFrameFormat::RGB24), 255);
    assert_eq!(format_max_value(StandardImageFrameFormat::RGB32), 255);
}

#[test]
fn splits_raw8_into_one_channel() {
    let samples = planar_channel_samples(&frame(3, 1, StandardImageFrameFormat::RAW8, vec![1, 200, 7])).unwrap();
    assert_eq!(samples, vec![vec![1u16, 200, 7]]);
}

#[test]
fn pairs_raw16_bytes_in_native_order() {
    let data = vec![0x34, 0x12, 0xff, 0xff, 0x09];
    let samples = planar_channel_samples(&frame(2, 1, StandardImageFrameFormat::RAW16, data)).unwrap();
    assert_eq!(samples, vec![vec![0x1234u16, 0xffff]]);
}

#[test]
fn splits_color_frames_into_planes() {
    let data = vec![1, 2, 10, 20, 100, 200];
    let samples = planar_channel_samples(&frame(2, 1, StandardImageFrameFormat::RGB24, data)).unwrap();
    assert_eq!(samples, vec![vec![1u16, 2], vec![10, 20], vec![100, 200]]);

    let data = vec![1, 2, 3, 4, 5, 6, 7, 8, 9];
    let samples = planar_channel_samples(&frame(1, 2, StandardImageFrameFormat::RGB32, data)).unwrap();
    assert_eq!(samples, vec![vec![1u16, 2], vec![3, 4], vec![5, 6], vec![7, 8]]);
}

#[test]
fn samples_every_pixel_of_small_channels() {
    assert_eq!(histogram_sample_stride(0), 1);
    assert_eq!(histogram_sample_stride(500_000), 1);
    assert_eq!(histogram_sample_stride(500_001), 1);
    assert_eq!(histogram_sample_stride(1_000_000), 2);
    assert_eq!(histogram_sample_stride(1_499_999), 2);
    assert_eq!(histogram_sample_stride(24_000_000), 48);
}

#[test]
fn accumulates_bin_counts_with_saturation() {
    assert_eq!(cumulative_counts(&[]), Vec::<u32>::new());
    assert_eq!(cumulative_counts(&[3, 0, 5, 1]), vec![3, 3, 8, 9]);
    assert_eq!(cumulative_counts(&[u32::MAX - 1, 5, 7]), vec![u32::MAX - 1, u32::MAX, u32::MAX]);
}

#[test]
fn detects_blobs_near_the_border() {
    assert!(touches_border(2, 10, 20, 20, 100, 100, 4));
    assert!(touches_border(10, 10, 97, 20, 100, 100, 4));
    assert!(!touches_border(10, 10, 20, 20, 100, 100, 4));
    assert!(touches_border(10, 10, u32::MAX - 1, 20, u32::MAX, 100, 4));
}

#[test]
fn histogram_preview_defaults_to_compact_log_scale() {
    let options = HistogramRenderOptions::default();
    assert_eq!(options.width, 256);
    assert_eq!(options.height, 128);
    assert!(options.logarithmic);
}
