//! The application's decisions around an inspection or a conversion:
//! reporting the engine, checking options, building the request, and
//! refusing an output that failed validation.
use vstd::prelude::*;
use crate::conversion::{
    ConversionMode, ConversionRequest, ConversionResult, EngineInfo, IccProfileSource, RenderingIntent,
};
use crate::error::{OpenPrintPdfError, error_text};
use crate::models::PdfInspectionResult;
use crate::preflight::{PreflightFinding, findings_view, preflight_of, run_preflight};
use crate::text::{append_decimal, decimal, join_strings, joined, strings_view};
use crate::validator::ConversionValidationResult;

verus! {

/// Whether the conversion engine can be used, and its report or the reason
/// it cannot.
#[derive(Clone, Debug, PartialEq, Eq)]
pub struct EngineAvailability {
    pub available: bool,
    pub info: Option<EngineInfo>,
    pub error: Option<String>,
}

/// An inspection with its preflight findings and the engine's availability.
#[derive(Clone, Debug, PartialEq, Eq)]
pub struct InspectionReport {
    pub document: PdfInspectionResult,
    pub findings: Vec<PreflightFinding>,
    pub engine: EngineAvailability,
}

/// Everything a conversion reports: the input, the conversion, the output
/// and its validation.
#[derive(Clone, Debug, PartialEq, Eq)]
pub struct FullConversionReport {
    pub input: PdfInspectionResult,
    pub conversion: ConversionResult,
    pub output: PdfInspectionResult,
    pub validation: ConversionValidationResult,
}

/// What a conversion is for.
#[derive(Clone, Copy, Debug, PartialEq, Eq, Structural)]
pub enum ConversionKind {
    Outline,
    PdfX1a,
}

/// The options a user chose for a conversion.
#[derive(Clone, Debug, PartialEq, Eq)]
pub struct ConversionOptions {
    pub input_path: String,
    pub output_path: String,
    pub kind: ConversionKind,
    pub destination_icc: Option<String>,
    pub rendering_intent: RenderingIntent,
    pub black_point_compensation: bool,
    pub outline_fonts: bool,
    pub transparency_resolution_dpi: u16,
    pub allow_transparency: bool,
}

/// Reports the engine from the outcome of detecting it and asking for its
/// version: available with its report, or unavailable with the error's
/// message. An unusable engine is reported, not an error.
pub fn engine_availability(outcome: Result<EngineInfo, OpenPrintPdfError>) -> (r: EngineAvailability)
    ensures
        match outcome {
            Ok(info) => r.available && r.info == Some(info) && r.error is None,
            Err(e) => !r.available && r.info is None && (r.error matches Some(m) && m@ == error_text(e)),
        },
{
    match outcome {
        Ok(info) => EngineAvailability { available: true, info: Some(info), error: None },
        Err(error) => EngineAvailability { available: false, info: None, error: Some(error.describe()) },
    }
}

/// The inspection report of a document: its preflight findings and the
/// engine's availability.
pub fn inspect(document: PdfInspectionResult, engine: EngineAvailability) -> (r: InspectionReport)
    ensures
        r.document == document,
        findings_view(r.findings@) == preflight_of(document@),
        r.engine == engine,
{
    let findings = run_preflight(&document);
    InspectionReport { document, findings, engine }
}

/// Refuses a rasterization resolution outside 72 to 2400 dpi.
pub fn check_transparency_resolution(dpi: u16) -> (r: Result<(), OpenPrintPdfError>)
    ensures
        r is Ok <==> 72 <= dpi <= 2400,
        r is Err ==> (r matches Err(OpenPrintPdfError::ConversionFailed(m))
            && m@ == "transparency resolution must be between 72 and 2400 dpi"@),
{
    if dpi < 72 || dpi > 2400 {
        return Err(OpenPrintPdfError::ConversionFailed(
            String::from_str("transparency resolution must be between 72 and 2400 dpi"),
        ));
    }
    Ok(())
}

/// Whether a conversion must be confirmed before it flattens transparency:
/// a PDF/X conversion of a document with transparent pages.
pub open spec fn needs_confirmation(kind: ConversionKind, transparent_pages: Seq<u32>, allowed: bool) -> bool {
    kind == ConversionKind::PdfX1a && transparent_pages.len() > 0 && !allowed
}

/// Refuses a PDF/X conversion that would flatten transparent pages unless
/// the user allowed it; the error lists the pages.
pub fn ensure_transparency_allowed(kind: ConversionKind, transparent_pages: &[u32], allowed: bool) -> (r: Result<
    (),
    OpenPrintPdfError,
>)
    ensures
        r is Ok <==> !needs_confirmation(kind, transparent_pages@, allowed),
        r is Err ==> (r matches Err(OpenPrintPdfError::TransparencyConfirmationRequired(pages)) && pages@
            == transparent_pages@),
{
    if needs(kind, transparent_pages.len(), allowed) {
        let mut pages: Vec<u32> = Vec::new();
        let mut i: usize = 0;
        while i < transparent_pages.len()
            invariant
                i <= transparent_pages.len(),
                pages@ == transparent_pages@.take(i as int),
            decreases transparent_pages.len() - i,
        {
            pages.push(transparent_pages[i]);
            assert(transparent_pages@.take(i + 1) =~= transparent_pages@.take(i as int).push(transparent_pages@[i as int]));
            i = i + 1;
        }
        assert(transparent_pages@.take(i as int) =~= transparent_pages@);
        return Err(OpenPrintPdfError::TransparencyConfirmationRequired(pages));
    }
    Ok(())
}

fn needs(kind: ConversionKind, count: usize, allowed: bool) -> (r: bool)
    ensures
        r == (kind == ConversionKind::PdfX1a && count > 0 && !allowed),
{
    match kind {
        ConversionKind::PdfX1a => count > 0 && !allowed,
        ConversionKind::Outline => false,
    }
}

/// The mode the options ask for.
pub open spec fn mode_of(options: ConversionOptions) -> ConversionMode {
    match options.kind {
        ConversionKind::Outline => ConversionMode::OutlineOnly,
        ConversionKind::PdfX1a => ConversionMode::PdfX1a {
            outline_fonts: options.outline_fonts,
            rendering_intent: options.rendering_intent,
            black_point_compensation: options.black_point_compensation,
            transparency_resolution_dpi: options.transparency_resolution_dpi,
        },
    }
}

/// The mode the options ask for.
pub fn conversion_mode(options: &ConversionOptions) -> (r: ConversionMode)
    ensures
        r == mode_of(*options),
{
    match options.kind {
        ConversionKind::Outline => ConversionMode::OutlineOnly,
        ConversionKind::PdfX1a => ConversionMode::PdfX1a {
            outline_fonts: options.outline_fonts,
            rendering_intent: options.rendering_intent,
            black_point_compensation: options.black_point_compensation,
            transparency_resolution_dpi: options.transparency_resolution_dpi,
        },
    }
}

/// The request for the engine: the paths, the mode, and the destination
/// profile file, or the input's OutputIntent where none was chosen.
pub fn conversion_request(options: &ConversionOptions) -> (r: ConversionRequest)
    ensures
        r.input_path@ == options.input_path@,
        r.output_path@ == options.output_path@,
        r.mode == mode_of(*options),
        match options.destination_icc {
            Some(p) => r.destination_icc matches IccProfileSource::File(q) && q@ == p@,
            None => r.destination_icc is InputOutputIntent,
        },
{
    let destination_icc = match &options.destination_icc {
        Some(p) => IccProfileSource::File(p.clone()),
        None => IccProfileSource::InputOutputIntent,
    };
    ConversionRequest {
        input_path: options.input_path.clone(),
        output_path: options.output_path.clone(),
        mode: conversion_mode(options),
        destination_icc,
    }
}

/// Why a validated output is refused: its errors, separated by `"; "`, or
/// nothing when it passed.
pub fn validation_failure(validation: &ConversionValidationResult) -> (r: Option<String>)
    ensures
        validation.passed ==> r is None,
        !validation.passed ==> (r matches Some(m) && m@ == joined(strings_view(validation.errors@), "; "@)),
{
    if validation.passed {
        None
    } else {
        Some(join_strings(validation.errors.as_slice(), "; "))
    }
}

/// The error for a refused output, naming where the rejected file was
/// kept.
pub fn rejected_output_error(message: String, retained: &str) -> (r: OpenPrintPdfError)
    ensures
        r matches OpenPrintPdfError::ValidationFailed(m) && m@ == message@ + "; rejected diagnostic PDF kept at "@
            + retained@ + " (do not use it for printing)"@,
{
    let mut m = message;
    m.append("; rejected diagnostic PDF kept at ");
    m.append(retained);
    m.append(" (do not use it for printing)");
    OpenPrintPdfError::ValidationFailed(m)
}

/// How many names a rejected output is tried under.
pub const REJECTED_NAME_ATTEMPTS: u32 = 999;

/// The name a rejected output is kept under at attempt `index`:
/// `{stem}.rejected.pdf`, then `{stem}.rejected-{index}.pdf`.
pub open spec fn rejected_name(stem: Seq<char>, index: u32) -> Seq<char> {
    if index == 1 {
        stem + ".rejected.pdf"@
    } else {
        stem + ".rejected-"@ + decimal(index as nat) + ".pdf"@
    }
}

/// The name a rejected output is kept under at attempt `index`.
pub fn rejected_file_name(stem: &str, index: u32) -> (r: String)
    ensures
        r@ == rejected_name(stem@, index),
{
    let mut r = String::from_str(stem);
    if index == 1 {
        r.append(".rejected.pdf");
    } else {
        r.append(".rejected-");
        append_decimal(&mut r, index as u64);
        r.append(".pdf");
    }
    r
}


/// A PDF/X conversion of a document with transparency is refused until
/// the user allows it, whatever the pages are; an outline conversion never
/// is. The pages are those `transparency_pages` reports.
pub proof fn lemma_transparency_needs_permission(
    doc: crate::models::InspectionView,
    pages: Seq<u32>,
)
    requires
        forall|p: u32| pages.contains(p) <==> crate::validator::has_finding_on(doc.transparency, p),
        doc.transparency.len() > 0,
    ensures
        needs_confirmation(ConversionKind::PdfX1a, pages, false),
        !needs_confirmation(ConversionKind::PdfX1a, pages, true),
        !needs_confirmation(ConversionKind::Outline, pages, false),
{
    let p = doc.transparency[0].page_number;
    assert(crate::validator::has_finding_on(doc.transparency, p));
    assert(pages.contains(p));
}

} // verus!
