use open_print_pdf::conversion::{ConversionMode, RenderingIntent};
use open_print_pdf::conversion_steps::{ConversionAction, ConversionEvent, ConversionPhase, ConversionRun};
use open_print_pdf::ghostscript::GhostscriptPass;
use open_print_pdf::models::{ImageColorSpace, ImageInfo, PdfInspectionResult};

fn document(pixels: Option<(i64, i64)>) -> PdfInspectionResult {
    PdfInspectionResult {
        path: "doc.pdf".to_string(),
        pdf_version: "1.7".to_string(),
        pdfx_claim: None,
        page_count: 0,
        pages: Vec::new(),
        fonts: Vec::new(),
        images: pixels
            .map(|(w, h)| ImageInfo {
                page_number: 1,
                resource_name: "Im1".to_string(),
                width: Some(w),
                height: Some(h),
                bits_per_component: Some(8),
                color_space: ImageColorSpace::DeviceRgb,
                has_soft_mask: false,
                has_image_mask: false,
                icc_sha256: None,
            })
            .into_iter()
            .collect(),
        transparency: Vec::new(),
        output_intent: None,
    }
}

fn pdfx(outline_fonts: bool) -> ConversionMode {
    ConversionMode::PdfX1a {
        outline_fonts,
        rendering_intent: RenderingIntent::RelativeColorimetric,
        black_point_compensation: true,
        transparency_resolution_dpi: 720,
    }
}

fn ran(duration_ms: u64, warnings: &[&str]) -> ConversionEvent {
    ConversionEvent::Ran { duration_ms, warnings: warnings.iter().map(|w| w.to_string()).collect() }
}

fn step(run: ConversionRun, event: ConversionEvent) -> (ConversionRun, ConversionAction) {
    assert!(run.accepts_event(&event));
    run.advance(event)
}

#[test]
fn outline_only_runs_once() {
    let (run, action) = ConversionRun::start(ConversionMode::OutlineOnly, document(None), "gs".to_string());
    assert!(matches!(&action, ConversionAction::Run { pass: GhostscriptPass::OutlineOnly, arguments } if arguments.last().map(String::as_str) == Some("input.pdf")));
    assert!(!run.accepts_event(&ConversionEvent::Attached { duration_ms: 1 }));
    let (run, action) = step(run, ran(12, &["**** Warning: x"]));
    assert!(matches!(action, ConversionAction::Done));
    assert_eq!(run.phase(), ConversionPhase::Finished);
    assert_eq!(run.duration_ms(), 12);
    assert_eq!(run.into_warnings(), vec!["**** Warning: x".to_string()]);
}

#[test]
fn single_pass_pdfx_declares_in_ghostscript() {
    let (run, action) = ConversionRun::start(pdfx(false), document(None), "gs".to_string());
    assert!(matches!(action, ConversionAction::Run { pass: GhostscriptPass::ConvertAndDeclare, .. }));
    let (run, action) = step(run, ran(5, &[]));
    assert!(matches!(action, ConversionAction::Done));
    assert_eq!(run.duration_ms(), 5);
}

#[test]
fn outlined_pdfx_checks_each_run_then_attaches() {
    let (run, action) = ConversionRun::start(pdfx(true), document(Some((100, 100))), "gs".to_string());
    assert!(matches!(action, ConversionAction::Run { pass: GhostscriptPass::ColorToCmyk, .. }));
    let (run, action) = step(run, ran(10, &["a"]));
    assert!(matches!(action, ConversionAction::Inspect { file: "cmyk.pdf" }));
    let (run, action) = step(run, ConversionEvent::Inspected(document(Some((100, 60)))));
    assert!(matches!(action, ConversionAction::Run { pass: GhostscriptPass::OutlineFonts, .. }));
    let (run, action) = step(run, ran(u64::MAX, &["b"]));
    assert!(matches!(action, ConversionAction::Inspect { file: "outlined.pdf" }));
    let (run, action) = step(run, ConversionEvent::Inspected(document(Some((60, 100)))));
    assert!(matches!(action, ConversionAction::Attach { source: "outlined.pdf", target: "output.pdf" }));
    let (run, action) = step(run, ConversionEvent::Attached { duration_ms: 3 });
    assert!(matches!(action, ConversionAction::Done));
    assert_eq!(run.duration_ms(), u64::MAX);
    assert_eq!(run.into_warnings(), vec!["a".to_string(), "b".to_string()]);
}

#[test]
fn lost_images_keep_diagnostics_and_fail() {
    let (run, _) = ConversionRun::start(pdfx(true), document(Some((100, 100))), "/usr/bin/gs".to_string());
    let (run, _) = step(run, ran(1, &[]));
    let (run, _) = step(run, ConversionEvent::Inspected(document(Some((100, 60)))));
    let (run, _) = step(run, ran(1, &[]));
    let (run, action) = step(run, ConversionEvent::Inspected(document(Some((10, 10)))));
    match &action {
        ConversionAction::KeepDiagnostics { files } => {
            assert_eq!(files, &vec![("stage1-cmyk", "cmyk.pdf"), ("stage2-outlined", "outlined.pdf")]);
        }
        _ => panic!("diagnostics expected"),
    }
    let (run, action) = step(run, ConversionEvent::Kept(vec!["a.pdf".to_string(), "b.pdf".to_string()]));
    assert_eq!(run.phase(), ConversionPhase::Finished);
    match action {
        ConversionAction::Fail(error) => assert_eq!(
            error.describe(),
            "post-conversion validation failed: Ghostscript stage 2 (font outlining) dropped embedded image content (1 images / 6000 pixels before, 1 images / 100 pixels after); diagnostic PDF(s): a.pdf, b.pdf; Ghostscript executable: /usr/bin/gs"
        ),
        _ => panic!("failure expected"),
    }
}
