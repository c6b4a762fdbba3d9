use lvast::imageformats::fits::FitsImageSaver;
use lvast::imageformats::fits::user_cards_panic;
use lvast::imageformats::fits_reader::{header_scan_panics, lookup_header, parse_header_cards};
use lvast::imageformats::jpeg::JpegImageSaver;
use lvast::imageformats::png::PngImageSaver;
use lvast::imageformats::tiff::TiffImageSaver;
use lvast::imageformats::xisf::XisfImageSaver;
use lvast::imageformats::types::{FitsHeaderValue, HeaderCard, ImageHeaders, ImageSaver};
use lvast::types::imageformats::{ImageReader, StandardImageFrameFormat};

fn fits_round_trip(width: u32, height: u32, format: StandardImageFrameFormat, data: Vec<u8>) {
    let saver = FitsImageSaver::new(width, height, format);
    let bytes = saver.encode(data.clone(), None).unwrap();
    assert_eq!(bytes.len() % 2880, 0);
    let frame = saver.decode(&bytes, false).unwrap();
    assert_eq!(frame.width, width);
    assert_eq!(frame.height, height);
    assert_eq!(frame.format, format);
    assert_eq!(frame.data, data);
}

#[test]
fn reads_back_raw16_fits() {
    fits_round_trip(2, 1, StandardImageFrameFormat::RAW16, vec![0x34, 0x12, 0x78, 0x56]);
}

#[test]
fn reads_back_raw12_fits() {
    fits_round_trip(2, 1, StandardImageFrameFormat::RAW12, vec![0x34, 0x12, 0x78, 0x06]);
}

#[test]
fn reads_back_rgb24_fits() {
    fits_round_trip(2, 1, StandardImageFrameFormat::RGB24, vec![255, 0, 0, 0, 255, 0]);
}

#[test]
fn reads_back_rgb32_fits() {
    fits_round_trip(1, 1, StandardImageFrameFormat::RGB32, vec![255, 0, 0, 128]);
}

#[test]
fn fits_header_cards_are_written_and_parsed() {
    let saver = FitsImageSaver::new(2, 1, StandardImageFrameFormat::RAW16);
    let headers = vec![
        HeaderCard { key: "OBJECT", value: FitsHeaderValue::String("M 42".to_string()), comment: "target" },
        HeaderCard { key: "EXPTIME", value: FitsHeaderValue::Fixed(15_000_000_000), comment: "" },
        HeaderCard { key: "NAXIS", value: FitsHeaderValue::Integer(9), comment: "skipped" },
    ];
    let bytes = saver.encode(vec![0, 0, 1, 0], Some(headers)).unwrap();
    let header_text = std::str::from_utf8(&bytes[..880]).unwrap();
    assert!(header_text.starts_with("SIMPLE  =                    T / file conforms to FITS standard"));
    assert!(header_text.contains("BITPIX  =                   16 / bits per data value"));
    assert!(header_text.contains("BZERO   =     32768.0000000000 / data zero offset"));
    assert!(header_text.contains("LVFMT   = 'RAW16   ' / original lvast frame format"));
    assert!(header_text.contains("OBJECT  = 'M 42    ' / target"));
    assert!(header_text.contains("EXPTIME =         1.5000000000"));
    let (entries, offset) = parse_header_cards(&bytes).unwrap();
    assert_eq!(offset, 2880);
    let naxis: String = lookup_header(&entries, "NAXIS").unwrap().into_iter().collect();
    assert_eq!(naxis, "2");
    let object: String = lookup_header(&entries, "OBJECT").unwrap().into_iter().collect();
    assert_eq!(object, "M 42    ");
    assert_eq!(&bytes[2880..2884], &[0x80, 0x00, 0x80, 0x01]);
}

#[test]
fn fits_reads_back_frame_written_with_many_user_cards() {
    let saver = FitsImageSaver::new(2, 1, StandardImageFrameFormat::RAW16);
    let mut headers = Vec::new();
    for _ in 0..40 {
        headers.push(HeaderCard { key: "HISTORY1", value: FitsHeaderValue::Integer(-7), comment: "a comment" });
    }
    headers.push(HeaderCard { key: "BZERO", value: FitsHeaderValue::Integer(0), comment: "skipped" });
    headers.push(HeaderCard { key: "OBJECT", value: FitsHeaderValue::String("M 42".to_string()), comment: "" });
    let data = vec![0x34, 0x12, 0x78, 0x56];
    let bytes = saver.encode(data.clone(), Some(headers)).unwrap();
    assert_eq!(bytes.len(), 3 * 2880);
    let frame = saver.decode(&bytes, false).unwrap();
    assert_eq!(frame.width, 2);
    assert_eq!(frame.height, 1);
    assert_eq!(frame.format, StandardImageFrameFormat::RAW16);
    assert_eq!(frame.data, data);
}

#[test]
fn fits_reads_back_frame_when_non_ascii_text_lies_past_the_card_cut() {
    let saver = FitsImageSaver::new(2, 1, StandardImageFrameFormat::RAW8);
    let comment: &'static str =
        "an ASCII comment long enough to reach past byte eighty of the card \u{e9}\u{e9}\u{e9}";
    let headers = vec![
        HeaderCard { key: "NOTE", value: FitsHeaderValue::String("x".to_string()), comment },
        HeaderCard { key: "OBJECT", value: FitsHeaderValue::String("M 42".to_string()), comment: "" },
    ];
    assert!(!user_cards_panic(&headers));
    let bytes = saver.encode(vec![1, 2], Some(headers)).unwrap();
    assert!(!header_scan_panics(&bytes));
    let frame = saver.decode(&bytes, false).unwrap();
    assert_eq!(frame.width, 2);
    assert_eq!(frame.height, 1);
    assert_eq!(frame.format, StandardImageFrameFormat::RAW8);
    assert_eq!(frame.data, vec![1, 2]);
}

#[test]
fn fits_non_ascii_card_text_shifts_later_cards() {
    let saver = FitsImageSaver::new(2, 1, StandardImageFrameFormat::RAW8);
    let headers = vec![HeaderCard {
        key: "OBSERVER",
        value: FitsHeaderValue::String("Jos\u{e9}".to_string()),
        comment: "\u{e9}\u{e9}\u{e9}\u{e9}\u{e9}\u{e9}\u{e9}\u{e9}\u{e9}\u{e9}",
    }];
    assert!(!user_cards_panic(&headers));
    let bytes = saver.encode(vec![1, 2], Some(headers)).unwrap();
    // The card is padded to 80 characters, which take 91 bytes, so the END
    // card no longer starts a card and the reader finds none.
    assert_eq!(&bytes[9 * 80 + 91..9 * 80 + 94], b"END");
    assert!(!header_scan_panics(&bytes));
    assert!(saver.decode(&bytes, false).is_err());
}

#[test]
fn fits_rejects_bad_keys_and_lengths() {
    let saver = FitsImageSaver::new(2, 1, StandardImageFrameFormat::RAW8);
    assert!(saver.encode(vec![1, 2, 3], None).is_err());
    let bad = vec![HeaderCard { key: "BAD KEY", value: FitsHeaderValue::Boolean(true), comment: "" }];
    assert!(saver.encode(vec![1, 2], Some(bad)).is_err());
    assert!(saver.decode(b"not a fits file", false).is_err());
}

#[test]
fn saves_raw16_png() {
    let saver = PngImageSaver::new(2, 1, StandardImageFrameFormat::RAW16);
    let bytes = saver.encode(vec![0x34, 0x12, 0x78, 0x56], None).unwrap();
    let image = image::load_from_memory(&bytes).unwrap();
    assert_eq!(image.width(), 2);
    assert_eq!(image.height(), 1);
}

#[test]
fn saves_rgb32_png() {
    let saver = PngImageSaver::new(1, 1, StandardImageFrameFormat::RGB32);
    let bytes = saver.encode(vec![255, 0, 0, 128], None).unwrap();
    let image = image::load_from_memory(&bytes).unwrap();
    assert_eq!(image.color(), image::ColorType::Rgba8);
}

#[test]
fn reads_raw16_png() {
    let saver = PngImageSaver::new(2, 1, StandardImageFrameFormat::RAW16);
    let bytes = saver.encode(vec![0x34, 0x12, 0x78, 0x56], None).unwrap();
    let frame = saver.decode(&bytes).unwrap();
    assert_eq!(frame.width, 2);
    assert_eq!(frame.height, 1);
    assert_eq!(frame.format, StandardImageFrameFormat::RAW16);
    assert_eq!(frame.data, vec![0x34, 0x12, 0x78, 0x56]);
}

#[test]
fn saves_rgb24_jpeg() {
    let saver = JpegImageSaver::new(2, 1, StandardImageFrameFormat::RGB24);
    let bytes = saver.encode(vec![255, 0, 0, 0, 255, 0], None).unwrap();
    let image = image::load_from_memory(&bytes).unwrap();
    assert_eq!(image.width(), 2);
    assert_eq!(image.height(), 1);
}

#[test]
fn saves_raw16_jpeg_after_downscale() {
    let saver = JpegImageSaver::new(2, 1, StandardImageFrameFormat::RAW16);
    let bytes = saver.encode(vec![0x34, 0x12, 0x78, 0x56], None).unwrap();
    let image = image::load_from_memory(&bytes).unwrap();
    assert_eq!(image.color(), image::ColorType::L8);
}

#[test]
fn reads_rgb24_jpeg() {
    let saver = JpegImageSaver::new(2, 1, StandardImageFrameFormat::RGB24);
    let bytes = saver.encode(vec![255, 0, 0, 0, 255, 0], None).unwrap();
    let frame = saver.decode(&bytes).unwrap();
    assert_eq!(frame.width, 2);
    assert_eq!(frame.height, 1);
    assert_eq!(frame.format, StandardImageFrameFormat::RGB24);
    assert_eq!(frame.data.len(), 6);
}

#[test]
fn jpeg_quality_is_clamped() {
    let saver = JpegImageSaver::new(1, 1, StandardImageFrameFormat::RAW8);
    assert_eq!(saver.quality, 90);
    assert_eq!(saver.with_quality(0).quality, 1);
    assert_eq!(saver.with_quality(200).quality, 100);
    assert_eq!(saver.with_quality(55).quality, 55);
}

#[test]
fn saves_and_reads_raw16_tiff() {
    let saver = TiffImageSaver::new(2, 1, StandardImageFrameFormat::RAW16);
    let bytes = saver.encode(vec![0x34, 0x12, 0x78, 0x56], None).unwrap();
    let frame = saver.decode(&bytes).unwrap();
    assert_eq!(frame.format, StandardImageFrameFormat::RAW16);
    assert_eq!(frame.data, vec![0x34, 0x12, 0x78, 0x56]);
}

#[test]
fn saves_and_reads_rgb32_tiff() {
    let saver = TiffImageSaver::new(1, 1, StandardImageFrameFormat::RGB32);
    let bytes = saver.encode(vec![255, 0, 0, 128], None).unwrap();
    let frame = saver.decode(&bytes).unwrap();
    assert_eq!(frame.format, StandardImageFrameFormat::RGB32);
    assert_eq!(frame.data, vec![255, 0, 0, 128]);
}

#[test]
fn image_savers_reject_wrong_lengths() {
    assert!(PngImageSaver::new(2, 2, StandardImageFrameFormat::RAW8).encode(vec![0; 3], None).is_err());
    assert!(TiffImageSaver::new(2, 2, StandardImageFrameFormat::RGB24).encode(vec![0; 3], None).is_err());
    assert!(JpegImageSaver::new(2, 2, StandardImageFrameFormat::RAW16).encode(vec![0; 3], None).is_err());
    assert!(PngImageSaver::new(1, 1, StandardImageFrameFormat::RAW8).decode(b"garbage").is_err());
}

#[test]
fn saves_and_reads_raw16_xisf() {
    let saver = XisfImageSaver::new(2, 1, StandardImageFrameFormat::RAW16);

    let bytes = saver.encode(vec![0x34, 0x12, 0x78, 0x56], None).unwrap();
    let frame = saver.decode(&bytes).unwrap();

    assert_eq!(frame.width, 2);
    assert_eq!(frame.height, 1);
    assert_eq!(frame.format, StandardImageFrameFormat::RAW16);
    assert_eq!(frame.data, vec![0x34, 0x12, 0x78, 0x56]);
}

#[test]
fn saves_and_reads_rgb32_xisf() {
    let saver = XisfImageSaver::new(1, 1, StandardImageFrameFormat::RGB32);

    let bytes = saver.encode(vec![255, 0, 0, 128], None).unwrap();
    let frame = saver.decode(&bytes).unwrap();

    assert_eq!(frame.width, 1);
    assert_eq!(frame.height, 1);
    assert_eq!(frame.format, StandardImageFrameFormat::RGB32);
    assert_eq!(frame.data, vec![255, 0, 0, 128]);
}

#[test]
fn xisf_file_layout() {
    let saver = XisfImageSaver::new(2, 1, StandardImageFrameFormat::RAW8);
    let bytes = saver.encode(vec![7, 9], None).unwrap();
    assert_eq!(&bytes[..8], b"XISF0100");
    let header_len = u32::from_le_bytes([bytes[8], bytes[9], bytes[10], bytes[11]]) as usize;
    assert_eq!(&bytes[12..16], &[0, 0, 0, 0]);
    let header = std::str::from_utf8(&bytes[16..16 + header_len]).unwrap();
    assert!(header.starts_with("<?xml version=\"1.0\" encoding=\"UTF-8\"?><xisf version=\"1.0\""));
    assert!(header.contains("<Image geometry=\"2:1:1\" sampleFormat=\"UInt8\" location=\"attachment:"));
    let location = format!("attachment:{:020}:{:020}", 16 + header_len, 2);
    assert!(header.contains(&location));
    assert!(header.contains("<Property id=\"LVFMT\" type=\"String\" value=\"RAW8\"/></Image></xisf>"));
    assert!(!header.contains("colorSpace"));
    assert_eq!(&bytes[16 + header_len..], &[7, 9]);
}

#[test]
fn xisf_color_frames_declare_rgb() {
    let saver = XisfImageSaver::new(1, 1, StandardImageFrameFormat::RGB24);
    let bytes = saver.encode(vec![1, 2, 3], None).unwrap();
    let header_len = u32::from_le_bytes([bytes[8], bytes[9], bytes[10], bytes[11]]) as usize;
    let header = std::str::from_utf8(&bytes[16..16 + header_len]).unwrap();
    assert!(header.contains("geometry=\"1:1:3\" sampleFormat=\"UInt8\" colorSpace=\"RGB\" location="));
}

fn xisf_bytes(header: &str, data: &[u8]) -> Vec<u8> {
    let mut bytes = b"XISF0100".to_vec();
    bytes.extend_from_slice(&(header.len() as u32).to_le_bytes());
    bytes.extend_from_slice(&[0, 0, 0, 0]);
    bytes.extend_from_slice(header.as_bytes());
    bytes.extend_from_slice(data);
    bytes
}

#[test]
fn xisf_reader_infers_format_without_lvfmt() {
    let reader = XisfImageSaver::new(1, 1, StandardImageFrameFormat::RAW8);
    let header_len = "<Image geometry=\"1:1:1\" sampleFormat=\"UInt16\" location=\"attachment:000:2\"></Image>".len();
    let header = format!(
        "<Image geometry=\"1:1:1\" sampleFormat=\"UInt16\" location=\"attachment:{:03}:2\"></Image>",
        16 + header_len
    );
    let bytes = xisf_bytes(&header, &[5, 6, 7]);
    let frame = reader.decode(&bytes).unwrap();
    assert_eq!(frame.format, StandardImageFrameFormat::RAW16);
    assert_eq!(frame.data, vec![5, 6]);
}

#[test]
fn xisf_reader_drops_odd_trailing_byte_of_wide_samples() {
    let reader = XisfImageSaver::new(1, 1, StandardImageFrameFormat::RAW8);
    let header_len = "<Image geometry=\"1:1:1\" sampleFormat=\"UInt8\" location=\"attachment:000:3\"><Property id=\"LVFMT\" value=\" RAW12 \"/></Image>".len();
    let header = format!(
        "<Image geometry=\"1:1:1\" sampleFormat=\"UInt8\" location=\"attachment:{:03}:3\"><Property id=\"LVFMT\" value=\" RAW12 \"/></Image>",
        16 + header_len
    );
    let bytes = xisf_bytes(&header, &[1, 2, 3]);
    let frame = reader.decode(&bytes).unwrap();
    assert_eq!(frame.format, StandardImageFrameFormat::RAW12);
    assert_eq!(frame.data, vec![1, 2]);
}

#[test]
fn xisf_reader_rejects_malformed_files() {
    let reader = XisfImageSaver::new(1, 1, StandardImageFrameFormat::RAW8);
    assert!(reader.decode(b"XISF0100").is_err());
    assert!(reader.decode(b"XISF0200\x00\x00\x00\x00\x00\x00\x00\x00").is_err());
    assert!(reader.decode(&xisf_bytes("<Image geometry=\"1:1\" sampleFormat=\"UInt8\" location=\"attachment:16:0\"></Image>", &[])).is_err());
    assert!(reader.decode(&xisf_bytes("<Image geometry=\"1:1:1\" sampleFormat=\"UInt8\" location=\"inline:16:0\"></Image>", &[])).is_err());
    assert!(reader.decode(&xisf_bytes("<Image geometry=\"1:1:2\" sampleFormat=\"UInt8\" location=\"attachment:16:0\"></Image>", &[])).is_err());
    assert!(reader.decode(&xisf_bytes("<Image geometry=\"1:1:1\" sampleFormat=\"UInt8\" location=\"attachment:0:999\"></Image>", &[])).is_err());
    let mut truncated = xisf_bytes("<Image/>", &[]);
    truncated[8] = 200;
    assert!(reader.decode(&truncated).is_err());
    assert!(XisfImageSaver::new(2, 2, StandardImageFrameFormat::RAW16).encode(vec![0; 3], None).is_err());
}

#[test]
fn image_headers_become_cards_in_writing_order() {
    let headers = ImageHeaders {
        software: Some("lvast".to_string()),
        object: Some("M 42".to_string()),
        exposure_seconds: Some(25_000_000_000),
        gain: Some(120),
        bin_x: Some(2),
        ra_degrees: Some(-53_750_000_000),
        ..Default::default()
    };
    let cards = headers.to_fits_headers();
    let keys: Vec<&str> = cards.iter().map(|c| c.key).collect();
    assert_eq!(keys, vec!["SIMPLE", "EXTEND", "CREATOR", "OBJECT", "EXPTIME", "EXPOSURE", "GAIN", "XBINNING", "RA"]);
    assert_eq!(cards[0].value, FitsHeaderValue::Boolean(true));
    assert_eq!(cards[2].value, FitsHeaderValue::String("lvast".to_string()));
    assert_eq!(cards[4].value, FitsHeaderValue::Fixed(25_000_000_000));
    assert_eq!(cards[5].comment, "Exposure time (s)");
    assert_eq!(cards[6].value, FitsHeaderValue::Integer(120));
    assert_eq!(cards[8].value, FitsHeaderValue::Fixed(-53_750_000_000));
    assert_eq!(ImageHeaders::default().to_fits_headers().len(), 2);

    let saver = FitsImageSaver::new(1, 1, StandardImageFrameFormat::RAW8);
    let bytes = saver.encode(vec![9], Some(cards)).unwrap();
    let header_text = std::str::from_utf8(&bytes[..2880]).unwrap();
    assert!(header_text.contains("EXPTIME =         2.5000000000 / Exposure time (s)"));
    assert!(header_text.contains("RA      =        -5.3750000000 / Right ascension (degrees)"));
    assert!(header_text.contains("XBINNING=                    2 / X binning"));
}

#[test]
fn card_cut_inside_a_character_is_detected_before_writing() {
    let straddling = format!("{}é", "x".repeat(46));
    let aligned = format!("{}é", "x".repeat(47));
    let leak = |s: String| -> &'static str { Box::leak(s.into_boxed_str()) };
    let bad = vec![HeaderCard { key: "GAIN", value: FitsHeaderValue::Integer(1), comment: leak(straddling) }];
    let good = vec![HeaderCard { key: "GAIN", value: FitsHeaderValue::Integer(1), comment: leak(aligned) }];
    assert!(user_cards_panic(&bad));
    assert!(!user_cards_panic(&good));
    let skipped = vec![HeaderCard { key: "NAXIS", value: FitsHeaderValue::Integer(1), comment: bad[0].comment }];
    assert!(!user_cards_panic(&skipped));
    let invalid_first = vec![
        HeaderCard { key: "BAD KEY", value: FitsHeaderValue::Integer(1), comment: "" },
        bad[0].clone(),
    ];
    assert!(!user_cards_panic(&invalid_first));
    let saver = FitsImageSaver::new(1, 1, StandardImageFrameFormat::RAW8);
    assert!(saver.encode(vec![1], Some(good)).is_ok());
}

#[test]
fn keyword_field_ending_inside_a_character_is_detected_before_reading() {
    let mut card = "ABCDEFGé".as_bytes().to_vec();
    card.resize(80, b' ');
    assert!(header_scan_panics(&card));
    let saver = FitsImageSaver::new(1, 1, StandardImageFrameFormat::RAW8);
    let bytes = saver.encode(vec![1], None).unwrap();
    assert!(!header_scan_panics(&bytes));
    assert!(!header_scan_panics(&[0xff; 80]));
    assert!(!header_scan_panics(b"short"));
}

#[test]
fn savers_and_readers_list_their_formats() {
    let all = [StandardImageFrameFormat::RAW8, StandardImageFrameFormat::RAW10, StandardImageFrameFormat::RAW12, StandardImageFrameFormat::RAW14, StandardImageFrameFormat::RAW16, StandardImageFrameFormat::RGB24, StandardImageFrameFormat::RGB32];
    let png = PngImageSaver::new(1, 1, StandardImageFrameFormat::RAW8);
    assert_eq!(ImageSaver::supported_formats(&png), &all);
    assert_eq!(ImageReader::supported_formats(&png), &[StandardImageFrameFormat::RAW8, StandardImageFrameFormat::RAW16, StandardImageFrameFormat::RGB24, StandardImageFrameFormat::RGB32]);
    let tiff = TiffImageSaver::new(1, 1, StandardImageFrameFormat::RAW8);
    assert_eq!(ImageSaver::supported_formats(&tiff), &all);
    assert_eq!(ImageReader::supported_formats(&tiff), &[StandardImageFrameFormat::RAW8, StandardImageFrameFormat::RAW16, StandardImageFrameFormat::RGB24, StandardImageFrameFormat::RGB32]);
    let jpeg = JpegImageSaver::new(1, 1, StandardImageFrameFormat::RAW8);
    assert_eq!(ImageSaver::supported_formats(&jpeg), &all);
    assert_eq!(ImageReader::supported_formats(&jpeg), &[StandardImageFrameFormat::RAW8, StandardImageFrameFormat::RGB24]);
    let xisf = XisfImageSaver::new(1, 1, StandardImageFrameFormat::RAW8);
    assert_eq!(ImageSaver::supported_formats(&xisf), &all);
    assert_eq!(ImageReader::supported_formats(&xisf), &all);
    let fits = FitsImageSaver::new(1, 1, StandardImageFrameFormat::RAW8);
    assert_eq!(ImageSaver::supported_formats(&fits), &all);
}
