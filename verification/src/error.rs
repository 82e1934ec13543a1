//! The errors the library reports.
use vstd::prelude::*;
use crate::text::{join_numbers, joined_decimals};

verus! {

/// Why an inspection, a check or a conversion did not succeed. Paths and
/// the texts of underlying errors are carried as text.
#[derive(Clone, Debug, PartialEq, Eq)]
pub enum OpenPrintPdfError {
    PdfRead { path: String, message: String },
    InvalidPdf(String),
    UnsafeInput(String),
    ResourceLimitExceeded(String),
    Io { path: String, message: String },
    SameInputAndOutput,
    UnsafeOutput(String),
    MissingCmykOutputIntent,
    EngineUnavailable(String),
    TransparencyConfirmationRequired(Vec<u32>),
    ConversionFailed(String),
    ValidationFailed(String),
}

/// The message an error is reported with.
pub open spec fn error_text(e: OpenPrintPdfError) -> Seq<char> {
    match e {
        OpenPrintPdfError::PdfRead { path, message } => "failed to read PDF "@ + path@ + ": "@ + message@,
        OpenPrintPdfError::InvalidPdf(m) => "invalid PDF structure: "@ + m@,
        OpenPrintPdfError::UnsafeInput(m) => "unsafe or unsupported input: "@ + m@,
        OpenPrintPdfError::ResourceLimitExceeded(m) => "security resource limit exceeded: "@ + m@,
        OpenPrintPdfError::Io { path, message } => "I/O error at "@ + path@ + ": "@ + message@,
        OpenPrintPdfError::SameInputAndOutput => "input and output must be different files"@,
        OpenPrintPdfError::UnsafeOutput(p) => "output must be a new .pdf file (refusing to overwrite): "@ + p@,
        OpenPrintPdfError::MissingCmykOutputIntent =>
            "the PDF does not contain a usable CMYK OutputIntent; specify an ICC profile"@,
        OpenPrintPdfError::EngineUnavailable(m) => "conversion engine is unavailable: "@ + m@,
        OpenPrintPdfError::TransparencyConfirmationRequired(pages) =>
            "transparency confirmation is required for page(s): ["@ + joined_decimals(pages@) + "]"@,
        OpenPrintPdfError::ConversionFailed(m) => "conversion failed: "@ + m@,
        OpenPrintPdfError::ValidationFailed(m) => "post-conversion validation failed: "@ + m@,
    }
}

fn prefixed(prefix: &str, m: &String) -> (s: String)
    ensures
        s@ == prefix@ + m@,
{
    let mut s = String::from_str(prefix);
    s.append(m.as_str());
    s
}

impl OpenPrintPdfError {
    /// The message this error is reported with.
    pub fn describe(&self) -> (s: String)
        ensures
            s@ == error_text(*self),
    {
        match self {
            OpenPrintPdfError::PdfRead { path, message } => {
                let mut s = prefixed("failed to read PDF ", path);
                s.append(": ");
                s.append(message.as_str());
                s
            },
            OpenPrintPdfError::InvalidPdf(m) => prefixed("invalid PDF structure: ", m),
            OpenPrintPdfError::UnsafeInput(m) => prefixed("unsafe or unsupported input: ", m),
            OpenPrintPdfError::ResourceLimitExceeded(m) => prefixed("security resource limit exceeded: ", m),
            OpenPrintPdfError::Io { path, message } => {
                let mut s = prefixed("I/O error at ", path);
                s.append(": ");
                s.append(message.as_str());
                s
            },
            OpenPrintPdfError::SameInputAndOutput => String::from_str("input and output must be different files"),
            OpenPrintPdfError::UnsafeOutput(p) => prefixed("output must be a new .pdf file (refusing to overwrite): ", p),
            OpenPrintPdfError::MissingCmykOutputIntent => String::from_str(
                "the PDF does not contain a usable CMYK OutputIntent; specify an ICC profile",
            ),
            OpenPrintPdfError::EngineUnavailable(m) => prefixed("conversion engine is unavailable: ", m),
            OpenPrintPdfError::TransparencyConfirmationRequired(pages) => {
                let mut s = String::from_str("transparency confirmation is required for page(s): [");
                let joined = join_numbers(pages.as_slice());
                s.append(joined.as_str());
                s.append("]");
                s
            },
            OpenPrintPdfError::ConversionFailed(m) => prefixed("conversion failed: ", m),
            OpenPrintPdfError::ValidationFailed(m) => prefixed("post-conversion validation failed: ", m),
        }
    }
}

} // verus!
