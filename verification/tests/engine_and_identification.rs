use std::collections::HashMap;

use open_print_pdf::application::{engine_availability, ensure_transparency_allowed, ConversionKind};
use open_print_pdf::error::OpenPrintPdfError;
use open_print_pdf::ghostscript::{
    escape_postscript_string, normalize_windows_verbatim_path, pdfx_definition,
    registered_output_condition_identifier, GhostscriptEngine,
};
use open_print_pdf::icc::parse_icc_profile;
use open_print_pdf::inspector::is_subset_font_name;
use open_print_pdf::pdf::{PdfDictionary, PdfDocument, PdfEntry, PdfObject, PdfStream};
use open_print_pdf::pdfx::{pdfx1a_identification, pdfx_metadata};
use open_print_pdf::security::{validate_document_complexity, MAX_PDF_OBJECTS, MAX_PDF_PAGES};

#[test]
fn unavailable_engine_is_a_report_not_an_inspection_error() {
    let path = "/definitely/missing/gs";
    let detected = GhostscriptEngine::detect(Some(path), std::path::Path::new(path).is_file(), None, false);
    let availability = engine_availability(detected.map(|engine| engine.engine_info_with(String::new())));
    assert!(!availability.available);
    assert!(availability.info.is_none());
    assert!(availability.error.is_some());
}

#[test]
fn normalizes_windows_verbatim_paths_for_ghostscript() {
    assert_eq!(
        normalize_windows_verbatim_path(r"\\?\C:\Open Print PDF\ghostscript\bin\gswin64c.exe", true),
        r"C:\Open Print PDF\ghostscript\bin\gswin64c.exe"
    );
    assert_eq!(
        normalize_windows_verbatim_path(r"\\?\UNC\server\share\ghostscript\bin\gswin64c.exe", true),
        r"\\server\share\ghostscript\bin\gswin64c.exe"
    );
}

#[test]
fn escapes_postscript_strings() {
    assert_eq!(escape_postscript_string("a(b)\\c"), "a\\(b\\)\\\\c");
}

#[test]
fn definition_contains_pdfx_metadata() {
    let definition = pdfx_definition("Japan Color 2001 Coated", "JC200103", "/tmp/Japan Color.icc", "/tmp/metadata.xmp");
    assert!(definition.contains("GTS_PDFXVersion (PDF/X-1:2001)"));
    assert!(definition.contains("GTS_PDFXConformance (PDF/X-1a:2001)"));
    assert!(definition.contains("PDF/X-1a:2001"));
    assert!(definition.contains("Japan Color 2001 Coated"));
    assert!(definition.contains("/OutputConditionIdentifier (JC200103)"));
    assert!(definition.contains("/tmp/Japan Color.icc"));
    assert!(definition.contains("/tmp/metadata.xmp"));
}

#[test]
fn metadata_contains_pdfx_identification() {
    let metadata = pdfx_metadata();
    assert!(metadata.contains("<pdfx:GTS_PDFXVersion>PDF/X-1:2001"));
    assert!(metadata.contains("<pdfx:GTS_PDFXConformance>PDF/X-1a:2001"));
}

#[test]
fn maps_registered_japan_color_output_conditions() {
    assert_eq!(registered_output_condition_identifier(Some("Japan Color 2001 Coated")), Some("JC200103"));
    assert_eq!(registered_output_condition_identifier(Some("Japan Color 2001 Uncoated")), Some("JC200104"));
    assert_eq!(registered_output_condition_identifier(Some("Japan Color 2002 Newspaper")), Some("JCN2002"));
}

#[test]
fn parses_icc_transform_tags() {
    let mut profile = vec![0_u8; 160];
    profile[8] = 4;
    profile[9] = 0x30;
    profile[12..16].copy_from_slice(b"prtr");
    profile[16..20].copy_from_slice(b"CMYK");
    profile[20..24].copy_from_slice(b"Lab ");
    profile[64..68].copy_from_slice(&1_u32.to_be_bytes());
    profile[128..132].copy_from_slice(&1_u32.to_be_bytes());
    profile[132..136].copy_from_slice(b"B2A1");
    let parsed = parse_icc_profile(&profile);
    assert_eq!(parsed.version.as_deref(), Some("4.3.0"));
    assert_eq!(parsed.color_space.as_deref(), Some("CMYK"));
    assert!(parsed.tags.contains(&"B2A1".to_string()));
}

#[test]
fn detects_subset_font_names() {
    assert!(is_subset_font_name("ABCDEF+NotoSansJP"));
    assert!(!is_subset_font_name("NotoSansJP"));
}

#[test]
fn enforces_document_complexity_limits() {
    assert!(validate_document_complexity(MAX_PDF_PAGES, MAX_PDF_OBJECTS).is_ok());
    assert!(validate_document_complexity(MAX_PDF_PAGES + 1, 1).is_err());
    assert!(validate_document_complexity(1, MAX_PDF_OBJECTS + 1).is_err());
}

#[test]
fn pdfx_conversion_requires_explicit_transparency_confirmation() {
    let error = ensure_transparency_allowed(ConversionKind::PdfX1a, &[1, 3], false)
        .expect_err("confirmation should be required");
    assert!(matches!(
        error,
        OpenPrintPdfError::TransparencyConfirmationRequired(pages) if pages == vec![1, 3]
    ));
    assert!(ensure_transparency_allowed(ConversionKind::PdfX1a, &[1], true).is_ok());
    assert!(ensure_transparency_allowed(ConversionKind::Outline, &[1], false).is_ok());
}

fn key(k: &str) -> Vec<u8> {
    k.as_bytes().to_vec()
}

fn name(n: &str) -> PdfObject {
    PdfObject::Name(n.as_bytes().to_vec())
}

#[test]
fn attaches_pdfx_objects_without_changing_existing_page_objects() {
    // A version 1.3 document: a page tree (1 0), a content marker (2 0)
    // and a catalog (3 0) that refers to both.
    let mut objects = HashMap::new();
    objects.insert(
        1u64 * 65536,
        Ok(PdfEntry::Object(PdfObject::Dictionary(PdfDictionary {
            entries: vec![
                (key("Type"), name("Pages")),
                (key("Kids"), PdfObject::Array(Vec::new())),
                (key("Count"), PdfObject::Integer(0)),
            ],
        }))),
    );
    objects.insert(
        2u64 * 65536,
        Ok(PdfEntry::Stream(PdfStream {
            dict: PdfDictionary { entries: Vec::new() },
            content: b"existing page content marker".to_vec(),
            decoded: Some(b"existing page content marker".to_vec()),
        })),
    );
    objects.insert(
        3u64 * 65536,
        Ok(PdfEntry::Object(PdfObject::Dictionary(PdfDictionary {
            entries: vec![
                (key("Type"), name("Catalog")),
                (key("Pages"), PdfObject::Reference((1, 0))),
                (key("OpenPrintPdfTestMarker"), PdfObject::Reference((2, 0))),
            ],
        }))),
    );
    let document = PdfDocument {
        version: "1.3".to_string(),
        trailer: PdfDictionary { entries: vec![(key("Root"), PdfObject::Reference((3, 0)))] },
        objects,
        pages: Vec::new(),
    };
    let icc = b"test CMYK profile";
    let identification =
        pdfx1a_identification(&document, 3, icc, "Test CMYK", "TEST-CMYK").expect("PDF/X identification");
    assert_eq!(identification.version, "1.3");
    assert_eq!(identification.root_id, (3, 0));
    // Every new object takes a number after the existing ones.
    for id in [
        identification.profile_id,
        identification.output_intent_id,
        identification.metadata_id,
        identification.info_id,
    ] {
        assert!(id.0 > 3);
    }
    assert_eq!(identification.profile_content, icc.to_vec());
    let catalog = &identification.catalog_entries.entries;
    assert_eq!(catalog[0].0, key("OutputIntents"));
    assert_eq!(catalog[0].1, PdfObject::Array(vec![PdfObject::Reference(identification.output_intent_id)]));
    let identifier = identification
        .output_intent
        .get(b"OutputConditionIdentifier")
        .expect("identifier");
    assert!(matches!(identifier, PdfObject::String(bytes, _) if bytes.as_slice() == b"TEST-CMYK"));
}
