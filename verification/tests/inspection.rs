use std::collections::HashMap;

use open_print_pdf::digest::sha256_hex;
use open_print_pdf::inspector::{inspect_document, output_intent};
use open_print_pdf::models::{ImageColorSpace, PdfNumber, TransparencyKind};
use open_print_pdf::error::OpenPrintPdfError;
use open_print_pdf::pdf::{checked_pages, PdfDictionary, PdfDocument, PdfEntry, PdfObject, PdfStream, StringFormat};
use open_print_pdf::preflight::{run_preflight, PreflightRuleId, Severity};
use open_print_pdf::security::{extension_matches, has_extension, validate_new_pdf_output};

fn key(k: &str) -> Vec<u8> {
    k.as_bytes().to_vec()
}

fn name(n: &str) -> PdfObject {
    PdfObject::Name(n.as_bytes().to_vec())
}

fn integer(v: i64) -> PdfObject {
    PdfObject::Integer(v)
}

fn dict(entries: Vec<(&str, PdfObject)>) -> PdfDictionary {
    PdfDictionary { entries: entries.into_iter().map(|(k, v)| (key(k), v)).collect() }
}

fn object_key(number: u32) -> u64 {
    number as u64 * 65536
}

/// One A4 page with a TrimBox, a Type 1 font that is not embedded, an
/// untagged RGB image and a graphics state with constant alpha 0.5.
fn sample_document(extra: Vec<(u32, PdfEntry)>, catalog_extra: Vec<(&str, PdfObject)>) -> PdfDocument {
    let mut objects: HashMap<u64, Result<PdfEntry, String>> = HashMap::new();
    let mut catalog = vec![("Type", name("Catalog")), ("Pages", PdfObject::Reference((2, 0)))];
    catalog.extend(catalog_extra);
    objects.insert(object_key(1), Ok(PdfEntry::Object(PdfObject::Dictionary(dict(catalog)))));
    objects.insert(
        object_key(2),
        Ok(PdfEntry::Object(PdfObject::Dictionary(dict(vec![
            ("Type", name("Pages")),
            ("Kids", PdfObject::Array(vec![PdfObject::Reference((3, 0))])),
            ("Count", integer(1)),
        ])))),
    );
    objects.insert(
        object_key(3),
        Ok(PdfEntry::Object(PdfObject::Dictionary(dict(vec![
            ("Type", name("Page")),
            ("Parent", PdfObject::Reference((2, 0))),
            ("MediaBox", PdfObject::Array(vec![integer(0), integer(0), integer(595), integer(842)])),
            ("TrimBox", PdfObject::Array(vec![integer(10), integer(10), integer(585), integer(832)])),
            ("Resources", PdfObject::Reference((4, 0))),
        ])))),
    );
    objects.insert(
        object_key(4),
        Ok(PdfEntry::Object(PdfObject::Dictionary(dict(vec![
            ("Font", PdfObject::Dictionary(dict(vec![("F1", PdfObject::Reference((5, 0)))]))),
            ("ExtGState", PdfObject::Dictionary(dict(vec![("GS1", PdfObject::Dictionary(dict(vec![("CA", PdfObject::Real(0x3F00_0000))])))]))),
            ("XObject", PdfObject::Dictionary(dict(vec![("Im1", PdfObject::Reference((6, 0)))]))),
        ])))),
    );
    objects.insert(
        object_key(5),
        Ok(PdfEntry::Object(PdfObject::Dictionary(dict(vec![
            ("Type", name("Font")),
            ("Subtype", name("Type1")),
            ("BaseFont", name("Helvetica")),
        ])))),
    );
    objects.insert(
        object_key(6),
        Ok(PdfEntry::Stream(PdfStream {
            dict: dict(vec![
                ("Type", name("XObject")),
                ("Subtype", name("Image")),
                ("Width", integer(10)),
                ("Height", integer(20)),
                ("BitsPerComponent", integer(8)),
                ("ColorSpace", name("DeviceRGB")),
            ]),
            content: vec![0; 600],
            decoded: Some(vec![0; 600]),
        })),
    );
    for (number, entry) in extra {
        objects.insert(object_key(number), Ok(entry));
    }
    PdfDocument {
        version: "1.7".to_string(),
        trailer: dict(vec![("Root", PdfObject::Reference((1, 0)))]),
        objects,
        pages: vec![(1, (3, 0))],
    }
}

#[test]
fn inspects_pages_fonts_images_and_transparency() {
    let document = sample_document(Vec::new(), Vec::new());
    let result = inspect_document("sample.pdf", &document).expect("inspection");
    assert_eq!(result.path, "sample.pdf");
    assert_eq!(result.pdf_version, "1.7");
    assert_eq!(result.page_count, 1);
    let page = result.pages[0];
    assert_eq!(page.page_number, 1);
    assert_eq!(page.media_box.right, PdfNumber::Integer(595));
    assert_eq!(page.media_box.top, PdfNumber::Integer(842));
    assert!(page.trim_box.is_some());
    assert!(page.bleed_box.is_none());
    assert_eq!(page.rotation, 0);

    assert_eq!(result.fonts.len(), 1);
    assert_eq!(result.fonts[0].resource_name, "F1");
    assert_eq!(result.fonts[0].base_name.as_deref(), Some("Helvetica"));
    assert_eq!(result.fonts[0].subtype.as_deref(), Some("Type1"));
    assert!(!result.fonts[0].embedded);
    assert!(!result.fonts[0].subset);

    assert_eq!(result.images.len(), 1);
    assert_eq!(result.images[0].resource_name, "Im1");
    assert_eq!(result.images[0].width, Some(10));
    assert_eq!(result.images[0].height, Some(20));
    assert_eq!(result.images[0].color_space, ImageColorSpace::DeviceRgb);
    assert_eq!(result.rgb_image_count(), 1);
    assert_eq!(result.cmyk_image_count(), 0);

    assert_eq!(result.transparency.len(), 1);
    assert_eq!(result.transparency[0].kind, TransparencyKind::ConstantAlpha);
    assert_eq!(result.transparency[0].resource_name.as_deref(), Some("GS1"));
    assert_eq!(result.transparency[0].detail, "CA is less than 1");
    assert!(result.output_intent.is_none());
    assert!(result.pdfx_claim.is_none());
}

#[test]
fn page_without_media_box_is_invalid() {
    let mut document = sample_document(Vec::new(), Vec::new());
    document.objects.insert(
        object_key(3),
        Ok(PdfEntry::Object(PdfObject::Dictionary(dict(vec![
            ("Type", name("Page")),
            ("Parent", PdfObject::Reference((2, 0))),
        ])))),
    );
    let error = inspect_document("sample.pdf", &document).expect_err("no MediaBox");
    assert_eq!(error.describe(), "invalid PDF structure: page 1 has no MediaBox");
}

#[test]
fn preflight_reports_each_rule_in_order() {
    let document = sample_document(Vec::new(), Vec::new());
    let result = inspect_document("sample.pdf", &document).expect("inspection");
    let findings = run_preflight(&result);
    let rules: Vec<PreflightRuleId> = findings.iter().map(|f| f.rule).collect();
    assert_eq!(
        rules,
        vec![
            PreflightRuleId::FontNotEmbedded,
            PreflightRuleId::RgbImageDetected,
            PreflightRuleId::DeviceRgbWithoutProfile,
            PreflightRuleId::TransparencyDetected,
            PreflightRuleId::MissingBleedBox,
            PreflightRuleId::MissingOutputIntent,
        ]
    );
    assert_eq!(findings[0].severity, Severity::Error);
    assert_eq!(findings[0].message, "font is not embedded: F1");
    assert_eq!(findings[1].message, "RGB image requires CMYK conversion: Im1");
    assert_eq!(findings[2].message, "untagged DeviceRGB image will be treated as sRGB: Im1");
    assert_eq!(findings[3].message, "page 1 will be flattened to a CMYK image: CA is less than 1");
    assert_eq!(findings[4].message, "BleedBox is missing");
    assert_eq!(findings[4].page_number, Some(1));
    assert_eq!(findings[5].page_number, None);
    assert_eq!(findings[5].severity, Severity::Error);
    assert_eq!(findings[5].message, "PDF/X conversion needs a CMYK OutputIntent or an explicit ICC profile");
}

fn cmyk_profile() -> Vec<u8> {
    let mut profile = vec![0_u8; 132];
    profile[8] = 2;
    profile[9] = 0x10;
    profile[12..16].copy_from_slice(b"prtr");
    profile[16..20].copy_from_slice(b"CMYK");
    profile[20..24].copy_from_slice(b"Lab ");
    profile
}

#[test]
fn reads_the_first_output_intent_and_its_profile() {
    let profile = cmyk_profile();
    let intent = PdfObject::Dictionary(dict(vec![
        ("Type", name("OutputIntent")),
        ("S", name("GTS_PDFX")),
        ("OutputConditionIdentifier", PdfObject::String(b"JC200103".to_vec(), StringFormat::Literal)),
        ("DestOutputProfile", PdfObject::Reference((7, 0))),
    ]));
    let stream = PdfEntry::Stream(PdfStream {
        dict: dict(vec![("N", integer(4))]),
        content: profile.clone(),
        decoded: Some(profile.clone()),
    });
    let document = sample_document(vec![(7, stream)], vec![("OutputIntents", PdfObject::Array(vec![intent]))]);
    let data = output_intent(&document).expect("readable").expect("an OutputIntent");
    assert_eq!(data.profile_bytes, profile);
    assert_eq!(data.info.output_condition_identifier.as_deref(), Some("JC200103"));
    assert_eq!(data.info.subtype.as_deref(), Some("GTS_PDFX"));
    let icc = data.info.profile.expect("profile summary");
    assert_eq!(icc.color_space.as_deref(), Some("CMYK"));
    assert_eq!(icc.byte_length, profile.len());
    assert_eq!(icc.sha256, sha256_hex(&profile));

    let result = inspect_document("sample.pdf", &document).expect("inspection");
    let findings = run_preflight(&result);
    assert!(findings.iter().all(|f| f.rule != PreflightRuleId::MissingOutputIntent
        && f.rule != PreflightRuleId::OutputIntentNotCmyk));
}

#[test]
fn sha256_is_lowercase_hex_of_the_digest() {
    assert_eq!(sha256_hex(b"abc"), "ba7816bf8f01cfea414140de5dae2223b00361a396177a9cb410ff61f20015ad");
    assert_eq!(sha256_hex(b"").len(), 64);
}

#[test]
fn extensions_are_compared_without_case() {
    assert!(has_extension("input.PDF", "pdf"));
    assert!(has_extension("dir/input.pdf", "pdf"));
    assert!(!has_extension("input.pdf.txt", "pdf"));
    assert!(!has_extension("pdf", "pdf"));
    assert!(!has_extension(".pdf", "pdf"));
    assert!(has_extension("profiles/Coated.ICM", "icm"));
    assert!(!has_extension("profiles/Coated.ICM", "icc"));
    assert!(!has_extension("dir.pdf/file", "pdf"));
    assert!(has_extension(r"dir\file.pdf", "pdf"));
    assert!(!has_extension("out.", "pdf"));
}

#[test]
fn refuses_existing_or_misnamed_outputs() {
    assert!(validate_new_pdf_output("out/new.pdf", has_extension("out/new.pdf", "pdf"), false, false).is_ok());
    assert!(validate_new_pdf_output("out/new.pdf", true, true, false).is_err());
    assert!(validate_new_pdf_output("out/new.pdf", true, false, true).is_err());
    let error = validate_new_pdf_output("out/new.txt", has_extension("out/new.txt", "pdf"), false, false)
        .expect_err("extension");
    assert_eq!(error.describe(), "output must be a new .pdf file (refusing to overwrite): out/new.txt");
    assert!(extension_matches(Some("PdF"), "pdf"));
    assert!(!extension_matches(Some("pdfx"), "pdf"));
    assert!(!extension_matches(None, "pdf"));
}

#[test]
fn nested_forms_are_walked_once_per_reference() {
    // Page resources name the image directly and through a form whose
    // resources name it again; the form is a transparency group.
    let form = PdfEntry::Stream(PdfStream {
        dict: dict(vec![
            ("Subtype", name("Form")),
            ("Group", PdfObject::Dictionary(dict(vec![("S", name("Transparency"))]))),
            (
                "Resources",
                PdfObject::Dictionary(dict(vec![(
                    "XObject",
                    PdfObject::Dictionary(dict(vec![
                        ("Im1", PdfObject::Reference((6, 0))),
                        ("Im2", PdfObject::Reference((8, 0))),
                    ])),
                )])),
            ),
        ]),
        content: Vec::new(),
        decoded: Some(Vec::new()),
    });
    let cmyk = PdfEntry::Stream(PdfStream {
        dict: dict(vec![
            ("Subtype", name("Image")),
            ("Width", integer(2)),
            ("Height", integer(2)),
            ("ColorSpace", name("DeviceCMYK")),
            ("SMask", PdfObject::Reference((6, 0))),
        ]),
        content: vec![0; 16],
        decoded: None,
    });
    let mut document = sample_document(vec![(7, form), (8, cmyk)], Vec::new());
    document.objects.insert(
        object_key(4),
        Ok(PdfEntry::Object(PdfObject::Dictionary(dict(vec![(
            "XObject",
            PdfObject::Dictionary(dict(vec![
                ("Im1", PdfObject::Reference((6, 0))),
                ("Fm1", PdfObject::Reference((7, 0))),
            ])),
        )])))),
    );
    let result = inspect_document("nested.pdf", &document).expect("inspection");
    let names: Vec<&str> = result.images.iter().map(|i| i.resource_name.as_str()).collect();
    assert_eq!(names, vec!["Im1", "Fm1/Im2"]);
    assert_eq!(result.images[1].color_space, ImageColorSpace::DeviceCmyk);
    assert!(result.images[1].has_soft_mask);
    assert_eq!(result.cmyk_image_count(), 1);
    let kinds: Vec<TransparencyKind> = result.transparency.iter().map(|t| t.kind).collect();
    assert_eq!(kinds, vec![TransparencyKind::TransparencyGroup, TransparencyKind::SoftMask]);
    assert_eq!(result.transparency[0].resource_name.as_deref(), Some("Fm1"));
    assert_eq!(result.transparency[0].detail, "form transparency group");
    assert_eq!(result.transparency[1].resource_name.as_deref(), Some("Fm1/Im2"));
    assert_eq!(result.transparency[1].detail, "image soft mask (/SMask)");
}

#[test]
fn pages_inherit_boxes_rotation_and_resources() {
    let mut document = sample_document(Vec::new(), Vec::new());
    document.objects.insert(
        object_key(2),
        Ok(PdfEntry::Object(PdfObject::Dictionary(dict(vec![
            ("Type", name("Pages")),
            ("Kids", PdfObject::Array(vec![PdfObject::Reference((3, 0))])),
            ("Count", integer(1)),
            ("MediaBox", PdfObject::Array(vec![integer(0), integer(0), PdfObject::Real(0x4415_0000), integer(792)])),
            ("Rotate", integer(90)),
            ("Resources", PdfObject::Reference((4, 0))),
        ])))),
    );
    document.objects.insert(
        object_key(3),
        Ok(PdfEntry::Object(PdfObject::Dictionary(dict(vec![
            ("Type", name("Page")),
            ("Parent", PdfObject::Reference((2, 0))),
            ("Group", PdfObject::Dictionary(dict(vec![("S", name("Transparency"))]))),
        ])))),
    );
    let result = inspect_document("inherit.pdf", &document).expect("inspection");
    assert_eq!(result.pages[0].media_box.right, PdfNumber::Real(0x4415_0000));
    assert_eq!(result.pages[0].rotation, 90);
    assert!(result.pages[0].trim_box.is_none());
    assert_eq!(result.fonts.len(), 1);
    assert_eq!(result.transparency[0].kind, TransparencyKind::TransparencyGroup);
    assert_eq!(result.transparency[0].detail, "page transparency group");
    assert_eq!(result.transparency[0].resource_name, None);
}

#[test]
fn reads_the_pdfx_claim_from_info_then_metadata() {
    let mut document = sample_document(Vec::new(), Vec::new());
    document.trailer.entries.push((
        key("Info"),
        PdfObject::Dictionary(dict(vec![(
            "GTS_PDFXConformance",
            PdfObject::String(b"PDF/X-1a:2001".to_vec(), StringFormat::Literal),
        )])),
    ));
    let result = inspect_document("claim.pdf", &document).expect("inspection");
    assert_eq!(result.pdfx_claim.as_deref(), Some("PDF/X-1a:2001"));

    let metadata = PdfEntry::Stream(PdfStream {
        dict: dict(vec![("Type", name("Metadata"))]),
        content: b"<pdfxid:GTS_PDFXVersion>PDF/X-4</pdfxid:GTS_PDFXVersion>".to_vec(),
        decoded: None,
    });
    let document = sample_document(vec![(9, metadata)], vec![("Metadata", PdfObject::Reference((9, 0)))]);
    let result = inspect_document("claim.pdf", &document).expect("inspection");
    assert_eq!(result.pdfx_claim.as_deref(), Some("PDF/X-4"));
}

#[test]
fn resources_that_are_not_a_dictionary_are_invalid() {
    let mut document = sample_document(Vec::new(), Vec::new());
    document.objects.insert(object_key(4), Ok(PdfEntry::Object(integer(3))));
    let error = inspect_document("bad.pdf", &document).expect_err("invalid resources");
    assert_eq!(
        error.describe(),
        "invalid PDF structure: object has wrong type; expected type Dictionary but found type Integer"
    );
}

fn loaded_document(page_count: usize) -> lopdf::Document {
    let mut document = lopdf::Document::with_version("1.7");
    let pages_id = document.new_object_id();
    let mut kids = Vec::new();
    for _ in 0..page_count {
        let mut page = lopdf::Dictionary::new();
        page.set("Type", lopdf::Object::Name(b"Page".to_vec()));
        page.set("Parent", lopdf::Object::Reference(pages_id));
        kids.push(lopdf::Object::Reference(document.add_object(page)));
    }
    let mut pages = lopdf::Dictionary::new();
    pages.set("Type", lopdf::Object::Name(b"Pages".to_vec()));
    pages.set("Count", lopdf::Object::Integer(page_count as i64));
    pages.set("Kids", lopdf::Object::Array(kids));
    document.objects.insert(pages_id, lopdf::Object::Dictionary(pages));
    let mut catalog = lopdf::Dictionary::new();
    catalog.set("Type", lopdf::Object::Name(b"Catalog".to_vec()));
    catalog.set("Pages", lopdf::Object::Reference(pages_id));
    let catalog_id = document.add_object(catalog);
    document.trailer.set("Root", lopdf::Object::Reference(catalog_id));
    document
}

#[test]
fn loaded_pages_are_numbered_from_one_within_the_limit() {
    let document = loaded_document(3);
    let pages = checked_pages(&document).expect("pages");
    assert_eq!(pages.iter().map(|(number, _)| *number).collect::<Vec<u32>>(), vec![1, 2, 3]);
    let too_many = checked_pages(&loaded_document(2001)).expect_err("too many pages");
    assert_eq!(
        too_many,
        OpenPrintPdfError::ResourceLimitExceeded("PDF has 2001 pages; maximum is 2000".to_string())
    );
}

#[test]
fn missing_objects_are_named_by_number_and_generation() {
    let document = sample_document(Vec::new(), Vec::new());
    assert_eq!(document.object((77, 2)).expect_err("missing"), "object ID 77 2 not found");
}
