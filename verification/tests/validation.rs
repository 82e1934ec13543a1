use open_print_pdf::conversion::{ConversionMode, RenderingIntent};
use open_print_pdf::digest::sha256_hex;
use open_print_pdf::error::OpenPrintPdfError;
use open_print_pdf::ghostscript::{
    color_conversion_report, flattened_pages, image_content_dropped, pdfx_definition, prepare_pdfx,
    stage_image_loss_error, DestinationProfile,
};
use open_print_pdf::models::{
    FontInfo, IccProfileInfo, ImageColorSpace, ImageInfo, OutputIntentInfo, PageGeometry, PdfBox, PdfInspectionResult,
    PdfNumber, TransparencyFinding, TransparencyKind,
};
use open_print_pdf::validator::{total_image_pixels, transparency_pages, validate_conversion};

fn page(number: u32) -> PageGeometry {
    let media = PdfBox {
        left: PdfNumber::Integer(0),
        bottom: PdfNumber::Integer(0),
        right: PdfNumber::Integer(595),
        top: PdfNumber::Integer(842),
    };
    PageGeometry {
        page_number: number,
        media_box: media,
        crop_box: None,
        trim_box: Some(media),
        bleed_box: Some(media),
        art_box: None,
        rotation: 0,
    }
}

fn image(color_space: ImageColorSpace, width: Option<i64>, height: Option<i64>) -> ImageInfo {
    ImageInfo {
        page_number: 1,
        resource_name: "Im1".to_string(),
        width,
        height,
        bits_per_component: Some(8),
        color_space,
        has_soft_mask: false,
        has_image_mask: false,
        icc_sha256: None,
    }
}

fn finding(page_number: u32) -> TransparencyFinding {
    TransparencyFinding {
        page_number,
        kind: TransparencyKind::SoftMask,
        resource_name: None,
        detail: "image soft mask (/SMask)".to_string(),
    }
}

fn document(images: Vec<ImageInfo>, transparency: Vec<TransparencyFinding>) -> PdfInspectionResult {
    PdfInspectionResult {
        path: "doc.pdf".to_string(),
        pdf_version: "1.7".to_string(),
        pdfx_claim: None,
        page_count: 2,
        pages: vec![page(1), page(2)],
        fonts: Vec::new(),
        images,
        transparency,
        output_intent: None,
    }
}

fn pdfx_output(images: Vec<ImageInfo>, sha256: &str) -> PdfInspectionResult {
    let mut output = document(images, Vec::new());
    output.pdf_version = "1.3".to_string();
    output.pdfx_claim = Some("PDF/X-1a:2001".to_string());
    output.output_intent = Some(OutputIntentInfo {
        subtype: Some("GTS_PDFX".to_string()),
        output_condition: None,
        output_condition_identifier: Some("JC200103".to_string()),
        info: None,
        registry_name: None,
        profile: Some(IccProfileInfo {
            byte_length: 10,
            sha256: sha256.to_string(),
            version: None,
            device_class: None,
            color_space: Some("CMYK".to_string()),
            pcs: None,
            preferred_intent: None,
            tags: Vec::new(),
        }),
    });
    output
}

fn pdfx_mode(outline_fonts: bool) -> ConversionMode {
    ConversionMode::PdfX1a {
        outline_fonts,
        rendering_intent: RenderingIntent::RelativeColorimetric,
        black_point_compensation: true,
        transparency_resolution_dpi: 720,
    }
}

#[test]
fn transparency_pages_are_sorted_and_unique() {
    let doc = document(Vec::new(), vec![finding(3), finding(1), finding(3), finding(2), finding(1)]);
    assert_eq!(transparency_pages(&doc), vec![1, 2, 3]);
    assert_eq!(transparency_pages(&document(Vec::new(), Vec::new())), Vec::<u32>::new());
    assert_eq!(flattened_pages(&ConversionMode::OutlineOnly, &doc), Vec::<u32>::new());
    assert_eq!(flattened_pages(&pdfx_mode(true), &doc), vec![1, 2, 3]);
}

#[test]
fn counts_pixels_of_sized_images_only() {
    let doc = document(
        vec![
            image(ImageColorSpace::DeviceRgb, Some(10), Some(20)),
            image(ImageColorSpace::DeviceCmyk, Some(3), None),
            image(ImageColorSpace::DeviceGray, Some(-5), Some(4)),
            image(ImageColorSpace::IccCmyk, Some(7), Some(1)),
        ],
        Vec::new(),
    );
    assert_eq!(total_image_pixels(&doc), 207);
    let report = color_conversion_report("abc".to_string(), None, RenderingIntent::Perceptual, true, &doc);
    assert_eq!(report.assumed_srgb_images, 1);
}

#[test]
fn detects_dropped_image_content() {
    let before = document(vec![image(ImageColorSpace::DeviceRgb, Some(100), Some(100))], Vec::new());
    let half = document(vec![image(ImageColorSpace::DeviceCmyk, Some(50), Some(100))], Vec::new());
    let less = document(vec![image(ImageColorSpace::DeviceCmyk, Some(49), Some(100))], Vec::new());
    assert!(!image_content_dropped(&before, &half));
    assert!(image_content_dropped(&before, &less));
    assert!(!image_content_dropped(&document(Vec::new(), Vec::new()), &less));
    let error = stage_image_loss_error(
        1,
        "DeviceCMYK conversion",
        &before,
        &less,
        &["a.pdf".to_string(), "b.pdf".to_string()],
        "/usr/bin/gs",
    );
    assert_eq!(
        error.describe(),
        "post-conversion validation failed: Ghostscript stage 1 (DeviceCMYK conversion) dropped embedded image content (1 images / 10000 pixels before, 1 images / 4900 pixels after); diagnostic PDF(s): a.pdf, b.pdf; Ghostscript executable: /usr/bin/gs"
    );
}

#[test]
fn clean_pdfx_output_passes() {
    let input = document(vec![image(ImageColorSpace::DeviceRgb, Some(10), Some(10))], Vec::new());
    let output = pdfx_output(vec![image(ImageColorSpace::DeviceCmyk, Some(10), Some(10))], "abc");
    let result = validate_conversion(&input, &output, &pdfx_mode(true), Some("abc"), true);
    assert!(result.passed, "{:?}", result.errors);
    assert!(result.readable);
    assert!(result.output_intent_matches);
    assert_eq!(result.cmyk_images, 1);
    assert_eq!(result.rgb_images_remaining, 0);
    assert!(result.warnings.is_empty());
}

#[test]
fn failing_pdfx_output_lists_every_error() {
    let input = document(vec![image(ImageColorSpace::DeviceRgb, Some(100), Some(100))], Vec::new());
    let mut output = pdfx_output(vec![image(ImageColorSpace::DeviceRgb, Some(10), Some(10))], "xyz");
    output.page_count = 1;
    output.pdf_version = "1.4".to_string();
    output.pdfx_claim = None;
    output.fonts.push(FontInfo {
        page_number: 1,
        resource_name: "F1".to_string(),
        base_name: None,
        subtype: Some("Type3".to_string()),
        embedded: true,
        subset: false,
        has_to_unicode: false,
    });
    output.transparency.push(finding(1));
    let result = validate_conversion(&input, &output, &pdfx_mode(true), Some("abc"), false);
    assert!(!result.passed);
    assert_eq!(result.type3_fonts_remaining, 1);
    assert_eq!(
        result.errors,
        vec![
            "page count changed",
            "page boxes changed",
            "1 fonts remain",
            "1 RGB images remain",
            "1 transparency features remain",
            "expected PDF 1.3, got 1.4",
            "PDF/X-1a conformance claim is missing",
            "OutputIntent ICC profile does not match the requested profile",
            "embedded image content dropped unexpectedly (100 of 10000 pixels remain)",
        ]
    );
    assert_eq!(result.warnings, vec!["no CMYK images were found after conversion"]);
}

#[test]
fn outline_only_checks_fonts_alone() {
    let input = document(Vec::new(), vec![finding(1)]);
    let mut output = document(Vec::new(), vec![finding(1)]);
    output.fonts.push(FontInfo {
        page_number: 1,
        resource_name: "F1".to_string(),
        base_name: None,
        subtype: Some("TrueType".to_string()),
        embedded: true,
        subset: false,
        has_to_unicode: true,
    });
    let result = validate_conversion(&input, &output, &ConversionMode::OutlineOnly, None, true);
    assert_eq!(result.errors, vec!["1 fonts remain"]);
    assert!(result.output_intent_matches);
    assert!(result.warnings.is_empty());
}

#[test]
fn prepares_pdfx_from_a_cmyk_profile() {
    let doc = document(
        vec![image(ImageColorSpace::DeviceRgb, Some(1), Some(1)), image(ImageColorSpace::DeviceCmyk, Some(1), Some(1))],
        Vec::new(),
    );
    let mut cmyk = vec![0_u8; 132];
    cmyk[16..20].copy_from_slice(b"CMYK");
    let destination = DestinationProfile { bytes: cmyk.clone(), description: Some("Press".to_string()), identifier: None };
    let prepared =
        prepare_pdfx(destination, RenderingIntent::Saturation, true, &doc, "d.icc", "m.xmp").expect("cmyk profile");
    assert_eq!(prepared.profile_bytes, cmyk);
    assert_eq!(prepared.description, "Press");
    assert_eq!(prepared.identifier, "Custom CMYK");
    assert_eq!(prepared.definition, pdfx_definition("Press", "Custom CMYK", "d.icc", "m.xmp"));
    assert_eq!(prepared.color_conversion.destination_profile_sha256, sha256_hex(&cmyk));
    assert_eq!(prepared.color_conversion.destination_profile_description.as_deref(), Some("Press"));
    assert_eq!(prepared.color_conversion.rendering_intent, RenderingIntent::Saturation);
    assert!(prepared.color_conversion.black_point_compensation);
    assert_eq!(prepared.color_conversion.assumed_srgb_images, 1);

    let mut rgb = vec![0_u8; 132];
    rgb[16..20].copy_from_slice(b"RGB ");
    let destination = DestinationProfile { bytes: rgb, description: None, identifier: None };
    let refused = prepare_pdfx(destination, RenderingIntent::Perceptual, false, &doc, "d.icc", "m.xmp");
    assert!(matches!(refused, Err(OpenPrintPdfError::MissingCmykOutputIntent)));
}
