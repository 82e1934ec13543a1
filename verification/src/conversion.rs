//! What a conversion is asked to do and what it reports.
use vstd::prelude::*;
use crate::error::OpenPrintPdfError;
use crate::paths::{path_shape, portable_path};
use crate::security::plain_names_differ;

verus! {

/// The ICC rendering intent of a colour conversion.
#[derive(Clone, Copy, Debug, PartialEq, Eq, Structural)]
pub enum RenderingIntent {
    Perceptual,
    RelativeColorimetric,
    Saturation,
    AbsoluteColorimetric,
}

/// The number Ghostscript takes for a rendering intent.
pub open spec fn intent_number(intent: RenderingIntent) -> u8 {
    match intent {
        RenderingIntent::Perceptual => 0,
        RenderingIntent::RelativeColorimetric => 1,
        RenderingIntent::Saturation => 2,
        RenderingIntent::AbsoluteColorimetric => 3,
    }
}

impl RenderingIntent {
    /// The number Ghostscript takes for this intent (`-dRenderIntent`).
    pub fn ghostscript_value(self) -> (r: u8)
        ensures
            r == intent_number(self),
    {
        match self {
            RenderingIntent::Perceptual => 0,
            RenderingIntent::RelativeColorimetric => 1,
            RenderingIntent::Saturation => 2,
            RenderingIntent::AbsoluteColorimetric => 3,
        }
    }
}

/// What a conversion does: outline every font, or produce PDF/X-1a.
#[derive(Clone, Copy, Debug, PartialEq, Eq, Structural)]
pub enum ConversionMode {
    OutlineOnly,
    PdfX1a {
        outline_fonts: bool,
        rendering_intent: RenderingIntent,
        black_point_compensation: bool,
        transparency_resolution_dpi: u16,
    },
}

/// Where the destination ICC profile comes from.
#[derive(Clone, Debug, PartialEq, Eq)]
pub enum IccProfileSource {
    InputOutputIntent,
    File(String),
}

/// A conversion request.
#[derive(Clone, Debug)]
pub struct ConversionRequest {
    pub input_path: String,
    pub output_path: String,
    pub mode: ConversionMode,
    pub destination_icc: IccProfileSource,
}

/// The engine that performed a conversion.
#[derive(Clone, Debug, PartialEq, Eq)]
pub struct EngineInfo {
    pub name: String,
    pub version: String,
    pub executable: String,
}

/// How colours were converted.
#[derive(Clone, Debug, PartialEq, Eq)]
pub struct ColorConversionReport {
    pub destination_profile_sha256: String,
    pub destination_profile_description: Option<String>,
    pub rendering_intent: RenderingIntent,
    pub black_point_compensation: bool,
    pub assumed_srgb_images: usize,
}

/// What a conversion produced.
#[derive(Clone, Debug, PartialEq, Eq)]
pub struct ConversionResult {
    pub output_path: String,
    pub engine: EngineInfo,
    pub duration_ms: u64,
    pub flattened_pages: Vec<u32>,
    pub color_conversion: Option<ColorConversionReport>,
    pub engine_warnings: Vec<String>,
}

/// An engine that converts print PDFs.
pub trait PrintConversionEngine {
    /// The engine's name, version and executable.
    fn engine_info(&self) -> Result<EngineInfo, OpenPrintPdfError>;

    /// Performs `request`.
    fn convert(&self, request: &ConversionRequest) -> Result<ConversionResult, OpenPrintPdfError>;
}

/// `std::path::Path`'s `==`: the two paths' components compared, where
/// repeated separators, `.` pieces other than a leading one, and a
/// trailing separator name no component. Identical paths are equal; two
/// portable paths are equal exactly when their components are; paths whose
/// plain file names differ are not equal, since those names are their last
/// components on every platform. Which other paths are equal depends on
/// the platform's separators and prefixes, and is not stated.
#[verifier::external_body]
fn same_path(a: &str, b: &str) -> (r: bool)
    ensures
        a@ == b@ ==> r,
        portable_path(a@) && portable_path(b@) ==> r == (path_shape(a@) == path_shape(b@)),
        plain_names_differ(a@, b@) ==> !r,
{
    std::path::Path::new(a) == std::path::Path::new(b)
}

/// Refuses a conversion whose input and output are the same file, as
/// `Path` compares them: component by component, so that `x//a.pdf` and
/// `x/a.pdf` are the same. Callers resolve the paths first where they can.
pub fn ensure_distinct_paths(input: &str, output: &str) -> (r: Result<(), OpenPrintPdfError>)
    ensures
        input@ == output@ ==> r == Err::<(), OpenPrintPdfError>(OpenPrintPdfError::SameInputAndOutput),
        portable_path(input@) && portable_path(output@) ==> (r is Ok <==> path_shape(input@) != path_shape(output@)),
        plain_names_differ(input@, output@) ==> r is Ok,
        r is Err ==> r == Err::<(), OpenPrintPdfError>(OpenPrintPdfError::SameInputAndOutput),
{
    if same_path(input, output) {
        Err(OpenPrintPdfError::SameInputAndOutput)
    } else {
        Ok(())
    }
}

/// On portable paths the refusal of the same file is symmetric, and a
/// path is always the same as itself: `ensure_distinct_paths(a, b)` fails
/// exactly when `ensure_distinct_paths(b, a)` does, and
/// `ensure_distinct_paths(a, a)` fails.
pub proof fn lemma_same_file_symmetric(a: Seq<char>, b: Seq<char>)
    requires
        portable_path(a),
        portable_path(b),
    ensures
        (path_shape(a) != path_shape(b)) == (path_shape(b) != path_shape(a)),
        !(path_shape(a) != path_shape(a)),
{
}

} // verus!
