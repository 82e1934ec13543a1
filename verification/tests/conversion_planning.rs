use open_print_pdf::application::{
    check_transparency_resolution, conversion_mode, conversion_request, engine_availability, rejected_file_name,
    rejected_output_error, validation_failure, ConversionKind, ConversionOptions,
};
use open_print_pdf::cli::{default_output, default_output_name, transparency_notice};
use open_print_pdf::conversion::{ensure_distinct_paths, ConversionMode, IccProfileSource, RenderingIntent};
use open_print_pdf::error::OpenPrintPdfError;
use open_print_pdf::ghostscript::{
    check_destination_profile, check_log_length, common_arguments, condition_or_custom, conversion_passes,
    conversion_result, destination_from_file, destination_from_intent, diagnostic_file_name, is_warning,
    pass_arguments, run_outcome, version_outcome, watch_step, GhostscriptEngine, GhostscriptPass,
};
use open_print_pdf::ghostscript::{executable_names, installed_names, normalize_windows_verbatim_path, standard_locations};
use open_print_pdf::models::{OutputIntentData, OutputIntentInfo};
use open_print_pdf::text::join_numbers;
use open_print_pdf::validator::ConversionValidationResult;

fn strings(v: &[&str]) -> Vec<String> {
    v.iter().map(|s| s.to_string()).collect()
}

#[test]
fn detect_prefers_the_configured_executable() {
    let engine = GhostscriptEngine::detect(Some(r"\\?\C:\gs\bin\gswin64c.exe"), true, None, true).expect("engine");
    assert_eq!(engine.executable(), r"C:\gs\bin\gswin64c.exe");
    assert_eq!(engine.timeout(), std::time::Duration::from_secs(300));
    let engine = engine.with_timeout(std::time::Duration::from_secs(5));
    assert_eq!(engine.timeout(), std::time::Duration::from_secs(5));
    assert_eq!(engine.executable(), r"C:\gs\bin\gswin64c.exe");

    let found = GhostscriptEngine::detect(None, false, Some("/usr/bin/gs".to_string()), false).expect("found");
    assert_eq!(found.executable(), "/usr/bin/gs");

    let missing = GhostscriptEngine::detect(Some("/opt/gs"), false, None, false).expect_err("missing");
    assert_eq!(
        missing.describe(),
        "conversion engine is unavailable: configured Ghostscript executable does not exist: /opt/gs"
    );
    let none = GhostscriptEngine::detect(None, false, None, false).expect_err("none");
    assert_eq!(
        none.describe(),
        "conversion engine is unavailable: Ghostscript executable was not found in PATH or standard locations"
    );
}

#[test]
fn configured_executable_is_kept_as_given_off_windows() {
    let engine = GhostscriptEngine::detect(Some(r"\\?\C:\gs\bin\gswin64c.exe"), true, None, false).expect("engine");
    assert_eq!(engine.executable(), r"\\?\C:\gs\bin\gswin64c.exe");
    assert_eq!(engine.timeout(), std::time::Duration::from_secs(300));
    assert_eq!(
        normalize_windows_verbatim_path(r"\\?\UNC\server\share\gs.exe", false),
        r"\\?\UNC\server\share\gs.exe"
    );
    assert_eq!(normalize_windows_verbatim_path(r"\\?\UNC\server\share\gs.exe", true), r"\\server\share\gs.exe");
    assert_eq!(normalize_windows_verbatim_path("/usr/bin/gs", true), "/usr/bin/gs");
}

#[test]
fn engine_report_when_available() {
    let engine = GhostscriptEngine::detect(None, false, Some("/usr/bin/gs".to_string()), false).expect("found");
    let availability = engine_availability(Ok(engine.engine_info_with("10.07.1".to_string())));
    assert!(availability.available);
    let info = availability.info.expect("info");
    assert_eq!(info.name, "Ghostscript");
    assert_eq!(info.version, "10.07.1");
    assert_eq!(info.executable, "/usr/bin/gs");
    assert!(availability.error.is_none());
}

#[test]
fn unavailable_engine_reports_the_message() {
    let availability = engine_availability(Err(OpenPrintPdfError::EngineUnavailable("gone".to_string())));
    assert_eq!(availability.error.as_deref(), Some("conversion engine is unavailable: gone"));
}

#[test]
fn common_arguments_name_the_output() {
    assert_eq!(
        common_arguments("output.pdf"),
        strings(&["-dSAFER", "-dBATCH", "-dNOPAUSE", "-dPDFSTOPONERROR", "-sDEVICE=pdfwrite", "-sOutputFile=output.pdf"])
    );
}

#[test]
fn passes_follow_the_mode() {
    assert_eq!(conversion_passes(&ConversionMode::OutlineOnly), vec![GhostscriptPass::OutlineOnly]);
    let with_outline = ConversionMode::PdfX1a {
        outline_fonts: true,
        rendering_intent: RenderingIntent::RelativeColorimetric,
        black_point_compensation: true,
        transparency_resolution_dpi: 720,
    };
    assert_eq!(conversion_passes(&with_outline), vec![GhostscriptPass::ColorToCmyk, GhostscriptPass::OutlineFonts]);
    let without_outline = ConversionMode::PdfX1a {
        outline_fonts: false,
        rendering_intent: RenderingIntent::Perceptual,
        black_point_compensation: false,
        transparency_resolution_dpi: 300,
    };
    assert_eq!(conversion_passes(&without_outline), vec![GhostscriptPass::ConvertAndDeclare]);
    assert_eq!(GhostscriptPass::ColorToCmyk.output_file(), "cmyk.pdf");
    assert_eq!(GhostscriptPass::OutlineFonts.stage(), Some((2, "font outlining", "stage2-outlined")));
    assert_eq!(GhostscriptPass::ConvertAndDeclare.stage(), None);
}

#[test]
fn colour_conversion_arguments() {
    let args = pass_arguments(GhostscriptPass::ColorToCmyk, RenderingIntent::Saturation, false, 720);
    assert_eq!(
        args,
        strings(&[
            "--permit-file-read=destination.icc",
            "-dSAFER",
            "-dBATCH",
            "-dNOPAUSE",
            "-dPDFSTOPONERROR",
            "-sDEVICE=pdfwrite",
            "-sOutputFile=cmyk.pdf",
            "-dCompatibilityLevel=1.3",
            "-sColorConversionStrategy=CMYK",
            "-sOutputICCProfile=destination.icc",
            "-sDefaultRGBProfile=srgb.icc",
            "-dOverrideICC=false",
            "-dRenderIntent=2",
            "-dBlackPtComp=0",
            "-dImageIntent=2",
            "-dImageBlackPt=0",
            "-dVectorIntent=1",
            "-dVectorBlackPt=1",
            "-dTextIntent=1",
            "-dTextBlackPt=1",
            "-r720",
            "input.pdf",
        ])
    );
    let outline = pass_arguments(GhostscriptPass::OutlineFonts, RenderingIntent::Saturation, false, 720);
    assert_eq!(&outline[6..], &strings(&["-dNoOutputFonts", "-dCompatibilityLevel=1.3", "cmyk.pdf"])[..]);
    let declare = pass_arguments(GhostscriptPass::ConvertAndDeclare, RenderingIntent::AbsoluteColorimetric, true, 1200);
    assert_eq!(declare[1], "--permit-file-read=open_print_pdf_pdfx_metadata.xmp");
    assert_eq!(declare[8], "-dPDFX=1");
    assert!(declare.contains(&"-dRenderIntent=3".to_string()));
    assert!(declare.contains(&"-dBlackPtComp=1".to_string()));
    assert_eq!(declare[declare.len() - 2], "open_print_pdf_pdfx_definition.ps");
    let only = pass_arguments(GhostscriptPass::OutlineOnly, RenderingIntent::Perceptual, true, 72);
    assert_eq!(&only[6..], &strings(&["-dNoOutputFonts", "-dCompatibilityLevel=1.7", "input.pdf"])[..]);
}

#[test]
fn rendering_intent_numbers() {
    assert_eq!(RenderingIntent::Perceptual.ghostscript_value(), 0);
    assert_eq!(RenderingIntent::RelativeColorimetric.ghostscript_value(), 1);
    assert_eq!(RenderingIntent::Saturation.ghostscript_value(), 2);
    assert_eq!(RenderingIntent::AbsoluteColorimetric.ghostscript_value(), 3);
}

#[test]
fn watching_a_run_stops_at_each_limit() {
    assert!(watch_step(false, 300, Some(10), Some(10), Some(10)).is_none());
    assert!(watch_step(false, 300, None, None, None).is_none());
    let timed_out = watch_step(true, 300, None, None, None).expect("timeout");
    assert_eq!(timed_out.describe(), "security resource limit exceeded: Ghostscript timed out after 300 seconds");
    let stdout = watch_step(false, 300, Some(8 * 1024 * 1024 + 1), None, None).expect("stdout");
    assert_eq!(stdout.describe(), "security resource limit exceeded: Ghostscript stdout exceeded 8 MiB");
    let stderr = watch_step(false, 300, Some(1), Some(9 * 1024 * 1024), None).expect("stderr");
    assert_eq!(stderr.describe(), "security resource limit exceeded: Ghostscript stderr exceeded 8 MiB");
    let output = watch_step(false, 300, None, None, Some(3 * 1024 * 1024 * 1024)).expect("output");
    assert_eq!(output.describe(), "security resource limit exceeded: generated PDF exceeded 2048 MiB");
    assert!(check_log_length(Some(8 * 1024 * 1024)).is_ok());
    assert!(check_log_length(Some(8 * 1024 * 1024 + 1)).is_err());
}

#[test]
fn run_outcome_keeps_warning_lines() {
    assert!(is_warning("**** WARNING: font substituted"));
    assert!(is_warning("Error: undefined"));
    assert!(!is_warning("Page 1"));
    let (duration, warnings) = run_outcome(
        true,
        "exit status: 0",
        "Page 1\r\n**** Warning: one\nPage 2\n",
        "   **** ERROR: two",
        42,
    )
    .expect("success");
    assert_eq!(duration, 42);
    assert_eq!(warnings, strings(&["**** Warning: one", "   **** ERROR: two"]));
    let failure = run_outcome(false, "exit status: 1", "  out \n", "\terr\n", 7).expect_err("failure");
    assert_eq!(failure.describe(), "conversion failed: Ghostscript exited with exit status: 1\nout\nerr");
}

#[test]
fn version_outcome_trims_output() {
    assert_eq!(version_outcome(true, true, "10.07.1\n", "").expect("version"), "10.07.1");
    assert_eq!(
        version_outcome(false, false, "", "").expect_err("timeout").describe(),
        "conversion engine is unavailable: Ghostscript version check timed out"
    );
    assert_eq!(
        version_outcome(true, false, "", " broken \n").expect_err("failed").describe(),
        "conversion engine is unavailable: broken"
    );
}

fn intent_info(condition: Option<&str>, info: Option<&str>, identifier: Option<&str>) -> OutputIntentInfo {
    OutputIntentInfo {
        subtype: Some("GTS_PDFX".to_string()),
        output_condition: condition.map(str::to_string),
        output_condition_identifier: identifier.map(str::to_string),
        info: info.map(str::to_string),
        registry_name: None,
        profile: None,
    }
}

#[test]
fn destination_profile_from_the_output_intent() {
    assert_eq!(destination_from_intent(None), Err(OpenPrintPdfError::MissingCmykOutputIntent));
    let empty = OutputIntentData { info: intent_info(None, None, None), profile_bytes: Vec::new() };
    assert_eq!(destination_from_intent(Some(empty)), Err(OpenPrintPdfError::MissingCmykOutputIntent));
    let japan = OutputIntentData {
        info: intent_info(None, Some("Japan Color 2001 Coated"), Some("Custom")),
        profile_bytes: vec![1, 2, 3],
    };
    let profile = destination_from_intent(Some(japan)).expect("profile");
    assert_eq!(profile.bytes, vec![1, 2, 3]);
    assert_eq!(profile.description.as_deref(), Some("Japan Color 2001 Coated"));
    assert_eq!(profile.identifier.as_deref(), Some("JC200103"));
    let custom = OutputIntentData { info: intent_info(Some("Press"), None, Some("PRESS-1")), profile_bytes: vec![9] };
    let profile = destination_from_intent(Some(custom)).expect("profile");
    assert_eq!(profile.description.as_deref(), Some("Press"));
    assert_eq!(profile.identifier.as_deref(), Some("PRESS-1"));
    let huge = OutputIntentData { info: intent_info(None, None, None), profile_bytes: vec![0; 64 * 1024 * 1024 + 1] };
    assert_eq!(
        destination_from_intent(Some(huge)).expect_err("too large").describe(),
        "security resource limit exceeded: embedded OutputIntent profile exceeded 64 MiB"
    );
}

#[test]
fn destination_profile_from_a_file() {
    let profile = destination_from_file(vec![4], Some("Japan Color 2002 Newspaper".to_string()));
    assert_eq!(profile.identifier.as_deref(), Some("JCN2002"));
    let profile = destination_from_file(vec![4], Some("MyPress".to_string()));
    assert_eq!(profile.description.as_deref(), Some("MyPress"));
    assert_eq!(profile.identifier.as_deref(), Some("MyPress"));
    assert_eq!(condition_or_custom(&None), "Custom CMYK");
    assert_eq!(condition_or_custom(&Some("Press".to_string())), "Press");
}

#[test]
fn destination_profile_must_be_cmyk() {
    let mut rgb = vec![0_u8; 132];
    rgb[16..20].copy_from_slice(b"RGB ");
    assert_eq!(check_destination_profile(&rgb), Err(OpenPrintPdfError::MissingCmykOutputIntent));
    let mut cmyk = vec![0_u8; 132];
    cmyk[16..20].copy_from_slice(b"CMYK");
    assert_eq!(check_destination_profile(&cmyk).expect("cmyk").color_space.as_deref(), Some("CMYK"));
}

#[test]
fn diagnostic_and_rejected_names() {
    assert_eq!(diagnostic_file_name("converted", "stage1-cmyk", 1), "converted.diagnostic-stage1-cmyk.pdf");
    assert_eq!(diagnostic_file_name("converted", "stage2-outlined", 3), "converted.diagnostic-stage2-outlined-3.pdf");
    assert_eq!(rejected_file_name("converted", 1), "converted.rejected.pdf");
    assert_eq!(rejected_file_name("converted", 2), "converted.rejected-2.pdf");
    let error = rejected_output_error("page count changed".to_string(), "/tmp/converted.rejected.pdf");
    assert_eq!(
        error.describe(),
        "post-conversion validation failed: page count changed; rejected diagnostic PDF kept at /tmp/converted.rejected.pdf (do not use it for printing)"
    );
}

#[test]
fn conversion_result_lists_flattened_pages() {
    let engine = GhostscriptEngine::detect(None, false, Some("gs".to_string()), false).expect("engine");
    let info = engine.engine_info_with("10".to_string());
    let result = conversion_result("out.pdf".to_string(), info.clone(), 5, vec![1, 3], None, strings(&["w"]));
    assert_eq!(
        result.engine_warnings,
        strings(&["w", "transparent pages were flattened to CMYK at the configured resolution: 1, 3"])
    );
    let plain = conversion_result("out.pdf".to_string(), info, 5, Vec::new(), None, strings(&["w"]));
    assert_eq!(plain.engine_warnings, strings(&["w"]));
    assert_eq!(join_numbers(&[7, 8, 9]), "7, 8, 9");
    assert_eq!(join_numbers(&[]), "");
}

fn options(kind: ConversionKind, icc: Option<&str>) -> ConversionOptions {
    ConversionOptions {
        input_path: "in.pdf".to_string(),
        output_path: "out.pdf".to_string(),
        kind,
        destination_icc: icc.map(str::to_string),
        rendering_intent: RenderingIntent::Perceptual,
        black_point_compensation: false,
        outline_fonts: true,
        transparency_resolution_dpi: 600,
        allow_transparency: false,
    }
}

#[test]
fn options_become_requests() {
    assert!(check_transparency_resolution(72).is_ok());
    assert!(check_transparency_resolution(2400).is_ok());
    assert_eq!(
        check_transparency_resolution(71).expect_err("low").describe(),
        "conversion failed: transparency resolution must be between 72 and 2400 dpi"
    );
    assert!(check_transparency_resolution(2401).is_err());
    assert_eq!(conversion_mode(&options(ConversionKind::Outline, None)), ConversionMode::OutlineOnly);
    let request = conversion_request(&options(ConversionKind::PdfX1a, Some("press.icc")));
    assert_eq!(
        request.mode,
        ConversionMode::PdfX1a {
            outline_fonts: true,
            rendering_intent: RenderingIntent::Perceptual,
            black_point_compensation: false,
            transparency_resolution_dpi: 600,
        }
    );
    assert_eq!(request.destination_icc, IccProfileSource::File("press.icc".to_string()));
    let request = conversion_request(&options(ConversionKind::PdfX1a, None));
    assert_eq!(request.destination_icc, IccProfileSource::InputOutputIntent);
    assert_eq!(ensure_distinct_paths("a.pdf", "a.pdf"), Err(OpenPrintPdfError::SameInputAndOutput));
    assert!(ensure_distinct_paths("a.pdf", "b.pdf").is_ok());
    assert_eq!(ensure_distinct_paths("x//a.pdf", "x/a.pdf"), Err(OpenPrintPdfError::SameInputAndOutput));
    assert_eq!(ensure_distinct_paths("x/./a.pdf", "x/a.pdf"), Err(OpenPrintPdfError::SameInputAndOutput));
    assert!(ensure_distinct_paths("x/a.pdf", "y/a.pdf").is_ok());
}

#[test]
fn command_line_texts() {
    assert_eq!(default_output_name(Some("brochure"), "pdfx1a"), "brochure-pdfx1a.pdf");
    assert_eq!(default_output_name(None, "outlined"), "-outlined.pdf");
    let notice = transparency_notice(&[2, 5]);
    assert_eq!(notice[0], "WARNING: This PDF contains transparency on page(s): 2, 5");
    assert_eq!(notice.len(), 3);
}

#[test]
fn transparency_confirmation_error_lists_pages() {
    let error = OpenPrintPdfError::TransparencyConfirmationRequired(vec![1, 3]);
    assert_eq!(error.describe(), "transparency confirmation is required for page(s): [1, 3]");
    assert!(validation_failure_is_none_when_passed());
}

fn validation_failure_is_none_when_passed() -> bool {
    let passed = ConversionValidationResult {
        passed: true,
        readable: true,
        page_count_matches: true,
        page_boxes_match: true,
        fonts_remaining: 0,
        type3_fonts_remaining: 0,
        rgb_images_remaining: 0,
        cmyk_images: 0,
        image_content_retained: true,
        transparency_remaining: 0,
        pdf_version: "1.3".to_string(),
        pdfx_claim: None,
        output_intent_matches: true,
        warnings: Vec::new(),
        errors: Vec::new(),
    };
    let mut failed = passed.clone();
    failed.passed = false;
    failed.errors = strings(&["page count changed", "page boxes changed"]);
    validation_failure(&passed).is_none()
        && validation_failure(&failed).as_deref() == Some("page count changed; page boxes changed")
}

#[test]
fn executables_are_looked_for_in_order() {
    assert_eq!(executable_names(true), vec!["gswin64c.exe", "gswin32c.exe", "gs.exe"]);
    assert_eq!(executable_names(false), vec!["gs"]);
    assert_eq!(installed_names(), vec!["gswin64c.exe", "gswin32c.exe"]);
    assert_eq!(standard_locations(), vec!["/opt/homebrew/bin/gs", "/usr/local/bin/gs", "/usr/bin/gs"]);
}

#[test]
fn default_output_goes_beside_the_input() {
    let beside = |input: &str, suffix: &str| std::path::PathBuf::from(default_output(input, suffix));
    assert_eq!(beside("docs/original-name.pdf", "pdfx1a"), std::path::PathBuf::from("docs/original-name-pdfx1a.pdf"));
    assert_eq!(beside("a.pdf", "outlined"), std::path::PathBuf::from("a-outlined.pdf"));
    assert_eq!(beside("/tmp/x.y.pdf", "pdfx1a"), std::path::PathBuf::from("/tmp/x.y-pdfx1a.pdf"));
    assert_eq!(beside("docs//a.pdf", "pdfx1a"), std::path::PathBuf::from("docs/a-pdfx1a.pdf"));
    assert_eq!(beside("./a.pdf", "pdfx1a"), std::path::PathBuf::from("./a-pdfx1a.pdf"));
    assert_eq!(beside("docs/.hidden", "pdfx1a"), std::path::PathBuf::from("docs/.hidden-pdfx1a.pdf"));
    assert_eq!(beside("docs/report", "outlined"), std::path::PathBuf::from("docs/report-outlined.pdf"));
    assert_eq!(default_output("a.pdf", "outlined"), "a-outlined.pdf");
}
