//! The decisions of the Ghostscript conversion engine: which executable,
//! which arguments, how a run is watched and judged, and what is reported.
//! Starting processes and touching files is left to the caller.
use std::time::Duration;
use vstd::prelude::*;
use crate::conversion::{ColorConversionReport, ConversionMode, ConversionResult, EngineInfo, RenderingIntent, intent_number};
use crate::error::OpenPrintPdfError;
use crate::icc::{icc_info, parse_icc_profile, trim, trimmed};
use crate::models::{
    ImageColorSpace, ImageView, IntentView, IccProfileInfo, OutputIntentData, PdfInspectionResult, images_view, opt_chars,
};
use crate::security::{MAX_GHOSTSCRIPT_LOG_BYTES, MAX_ICC_PROFILE_BYTES, MAX_OUTPUT_PDF_BYTES};
use crate::text::{
    append_decimal, append_decimal_wide, chars_of, collect_chars, contains_folded, contains_ignore_ascii_case, decimal,
    join_numbers, join_strings, joined, joined_decimals, lines_of, push_char, strings_view, text_lines,
};
use crate::validator::{pixel_sum, total_image_pixels, transparency_pages, has_finding_on, strictly_increasing};

verus! {

/// The duration `std::time::Duration::from_secs` makes of `secs` seconds.
pub uninterp spec fn seconds(secs: u64) -> Duration;

/// `std::time::Duration::from_secs`: the duration of `secs` whole seconds.
#[verifier::external_body]
fn duration_from_secs(secs: u64) -> (d: Duration)
    ensures
        d == seconds(secs),
{
    Duration::from_secs(secs)
}

/// `Clone::clone` of `std::time::Duration`, a `Copy` type: the same
/// duration.
pub assume_specification[ <Duration as Clone>::clone ](d: &Duration) -> (r: Duration)
    ensures
        r == *d,
;

/// The Ghostscript executable to run, and how long a run may take.
#[derive(Clone, Debug)]
pub struct GhostscriptEngine {
    executable: String,
    timeout: Duration,
}

/// `path` with a Windows verbatim prefix removed: `\\?\C:\x` becomes
/// `C:\x` and `\\?\UNC\server\x` becomes `\\server\x`.
pub open spec fn without_verbatim_prefix(path: Seq<char>) -> Seq<char> {
    if path.len() >= 4 && path.take(4) == seq!['\\', '\\', '?', '\\'] {
        let rest = path.skip(4);
        if rest.len() >= 4 && rest.take(4) == seq!['U', 'N', 'C', '\\'] {
            seq!['\\', '\\'] + rest.skip(4)
        } else {
            rest
        }
    } else {
        path
    }
}

fn starts_with_at(c: &Vec<char>, at: usize, a: char, b: char, x: char, d: char) -> (r: bool)
    requires
        at <= c.len(),
    ensures
        r == (c@.len() >= at + 4 && c@.subrange(at as int, at + 4) == seq![a, b, x, d]),
{
    if c.len() - at < 4 {
        return false;
    }
    let r = c[at] == a && c[at + 1] == b && c[at + 2] == x && c[at + 3] == d;
    proof {
        let s = c@.subrange(at as int, at + 4);
        if r {
            assert(s =~= seq![a, b, x, d]);
        } else if s == seq![a, b, x, d] {
            assert(s[0] == a && s[1] == b && s[2] == x && s[3] == d);
        }
    }
    r
}

/// On Windows (`windows`), removes a verbatim prefix (`\\?\`,
/// `\\?\UNC\`) from an executable path, which Ghostscript cannot take.
/// Elsewhere the path is kept as it is.
pub fn normalize_windows_verbatim_path(path: &str, windows: bool) -> (r: String)
    ensures
        r@ == if windows {
            without_verbatim_prefix(path@)
        } else {
            path@
        },
{
    if !windows {
        return String::from_str(path);
    }
    let c = chars_of(path);
    proof {
        assert(c@.subrange(0, 4) == c@.take(4)) by {
            if c@.len() >= 4 {
                assert(c@.subrange(0, 4) =~= c@.take(4));
            }
        }
    }
    if !starts_with_at(&c, 0, '\\', '\\', '?', '\\') {
        proof {
            if c@.len() >= 4 {
                assert(c@.subrange(0, 4) =~= c@.take(4));
            }
        }
        return collect_chars(&c, 0, c.len());
    }
    assert(c@.subrange(0, 4) =~= c@.take(4));
    let ghost rest = c@.skip(4);
    if starts_with_at(&c, 4, 'U', 'N', 'C', '\\') {
        assert(c@.subrange(4, 8) =~= rest.take(4));
        let mut r = String::from_str("\\\\");
        proof {
            reveal_strlit("\\\\");
        }
        let tail = collect_chars(&c, 8, c.len());
        r.append(tail.as_str());
        assert(tail@ =~= rest.skip(4));
        assert(r@ =~= seq!['\\', '\\'] + rest.skip(4));
        r
    } else {
        proof {
            if rest.len() >= 4 {
                assert(c@.subrange(4, 8) =~= rest.take(4));
            }
        }
        let r = collect_chars(&c, 4, c.len());
        assert(r@ =~= rest);
        r
    }
}

/// The names the Ghostscript console executable has, on Windows or
/// elsewhere, in the order they are looked for on `PATH`.
pub open spec fn executable_names_of(windows: bool) -> Seq<Seq<char>> {
    if windows {
        seq!["gswin64c.exe"@, "gswin32c.exe"@, "gs.exe"@]
    } else {
        seq!["gs"@]
    }
}

/// The names the Ghostscript console executable has, in the order they are
/// looked for on `PATH`.
pub fn executable_names(windows: bool) -> (r: Vec<&'static str>)
    ensures
        r@.map_values(|n: &'static str| n@) == executable_names_of(windows),
{
    let mut r: Vec<&'static str> = Vec::new();
    if windows {
        r.push("gswin64c.exe");
        r.push("gswin32c.exe");
        r.push("gs.exe");
    } else {
        r.push("gs");
    }
    assert(r@.map_values(|n: &'static str| n@) =~= executable_names_of(windows));
    r
}

/// The executables looked for in the `bin` folder of each Windows
/// installation, newest installation first.
pub open spec fn installed_names_of() -> Seq<Seq<char>> {
    seq!["gswin64c.exe"@, "gswin32c.exe"@]
}

/// The executables looked for in the `bin` folder of a Windows
/// installation.
pub fn installed_names() -> (r: Vec<&'static str>)
    ensures
        r@.map_values(|n: &'static str| n@) == installed_names_of(),
{
    let mut r: Vec<&'static str> = Vec::new();
    r.push("gswin64c.exe");
    r.push("gswin32c.exe");
    assert(r@.map_values(|n: &'static str| n@) =~= installed_names_of());
    r
}

/// The places looked at last.
pub open spec fn standard_locations_of() -> Seq<Seq<char>> {
    seq!["/opt/homebrew/bin/gs"@, "/usr/local/bin/gs"@, "/usr/bin/gs"@]
}

/// The places looked at last, in order.
pub fn standard_locations() -> (r: Vec<&'static str>)
    ensures
        r@.map_values(|n: &'static str| n@) == standard_locations_of(),
{
    let mut r: Vec<&'static str> = Vec::new();
    r.push("/opt/homebrew/bin/gs");
    r.push("/usr/local/bin/gs");
    r.push("/usr/bin/gs");
    assert(r@.map_values(|n: &'static str| n@) =~= standard_locations_of());
    r
}

impl GhostscriptEngine {
    /// The executable this engine runs.
    pub closed spec fn spec_executable(&self) -> Seq<char> {
        self.executable@
    }

    /// How long a conversion run may take.
    pub closed spec fn spec_timeout(&self) -> Duration {
        self.timeout
    }

    /// Chooses the executable: `configured_path` when it names a file
    /// (`configured_is_file`), with any verbatim prefix removed on Windows
    /// (`windows`) and kept as given elsewhere; else an error when one was
    /// configured; else the `discovered` one. The timeout is 300 seconds.
    pub fn detect(
        configured_path: Option<&str>,
        configured_is_file: bool,
        discovered: Option<String>,
        windows: bool,
    ) -> (r: Result<
        GhostscriptEngine,
        OpenPrintPdfError,
    >)
        ensures
            match configured_path {
                Some(p) => if configured_is_file {
                    r matches Ok(e) && e.spec_executable() == (if windows {
                        without_verbatim_prefix(p@)
                    } else {
                        p@
                    }) && e.spec_timeout() == seconds(300)
                } else {
                    r matches Err(OpenPrintPdfError::EngineUnavailable(m))
                        && m@ == "configured Ghostscript executable does not exist: "@ + p@
                },
                None => match discovered {
                    Some(d) => r matches Ok(e) && e.spec_executable() == d@ && e.spec_timeout() == seconds(300),
                    None => r matches Err(OpenPrintPdfError::EngineUnavailable(m))
                        && m@ == "Ghostscript executable was not found in PATH or standard locations"@,
                },
            },
    {
        let executable = match configured_path {
            Some(path) => {
                if configured_is_file {
                    normalize_windows_verbatim_path(path, windows)
                } else {
                    let mut m = String::from_str("configured Ghostscript executable does not exist: ");
                    m.append(path);
                    return Err(OpenPrintPdfError::EngineUnavailable(m));
                }
            },
            None => match discovered {
                Some(d) => d,
                None => {
                    return Err(OpenPrintPdfError::EngineUnavailable(
                        String::from_str("Ghostscript executable was not found in PATH or standard locations"),
                    ));
                },
            },
        };
        Ok(GhostscriptEngine { executable, timeout: duration_from_secs(300) })
    }

    /// The same engine with another timeout.
    pub fn with_timeout(self, timeout: Duration) -> (r: GhostscriptEngine)
        ensures
            r.spec_executable() == self.spec_executable(),
            r.spec_timeout() == timeout,
    {
        GhostscriptEngine { executable: self.executable, timeout }
    }

    /// The executable this engine runs.
    pub fn executable(&self) -> (r: &str)
        ensures
            r@ == self.spec_executable(),
    {
        self.executable.as_str()
    }

    /// How long a conversion run may take.
    pub fn timeout(&self) -> (r: Duration)
        ensures
            r == self.spec_timeout(),
    {
        self.timeout
    }

    /// The engine report, given the version `gs --version` printed.
    pub fn engine_info_with(&self, version: String) -> (r: crate::conversion::EngineInfo)
        ensures
            r.name@ == "Ghostscript"@,
            r.version@ == version@,
            r.executable@ == self.spec_executable(),
    {
        crate::conversion::EngineInfo {
            name: String::from_str("Ghostscript"),
            version,
            executable: self.executable.clone(),
        }
    }
}

/// How one character is written inside a PostScript string: parentheses
/// and backslash escaped, other printable ASCII kept, anything else `?`.
pub open spec fn escape_char(c: char) -> Seq<char> {
    if c == '(' {
        seq!['\\', '(']
    } else if c == ')' {
        seq!['\\', ')']
    } else if c == '\\' {
        seq!['\\', '\\']
    } else if 0x20 <= (c as u32) < 0x7f {
        seq![c]
    } else {
        seq!['?']
    }
}

/// `s` escaped for a PostScript string literal.
pub open spec fn escaped(s: Seq<char>) -> Seq<char>
    decreases s.len(),
{
    if s.len() == 0 {
        Seq::empty()
    } else {
        escaped(s.drop_last()) + escape_char(s.last())
    }
}

/// Escapes `value` for a PostScript string literal.
pub fn escape_postscript_string(value: &str) -> (r: String)
    ensures
        r@ == escaped(value@),
{
    let c = chars_of(value);
    let mut r = String::new();
    let mut i: usize = 0;
    while i < c.len()
        invariant
            i <= c.len(),
            c@ == value@,
            r@ == escaped(c@.take(i as int)),
        decreases c.len() - i,
    {
        assert(c@.take(i + 1).drop_last() =~= c@.take(i as int));
        let ch = c[i];
        let ghost before = r@;
        if ch == '(' || ch == ')' || ch == '\\' {
            push_char(&mut r, '\\');
            push_char(&mut r, ch);
        } else if 0x20 <= (ch as u32) && (ch as u32) < 0x7f {
            push_char(&mut r, ch);
        } else {
            push_char(&mut r, '?');
        }
        assert(r@ =~= before + escape_char(ch));
        i = i + 1;
    }
    assert(c@.take(i as int) =~= c@);
    r
}

/// The pdfmark program that declares PDF/X-1a: the version and
/// conformance entries, the destination profile stream, the OutputIntent,
/// the XMP metadata stream and the catalog entries that point to them.
pub open spec fn definition_text(description: Seq<char>, identifier: Seq<char>, profile: Seq<char>, metadata: Seq<char>) -> Seq<char> {
    "%!\n[/GTS_PDFXVersion (PDF/X-1:2001)\n /GTS_PDFXConformance (PDF/X-1a:2001)\n /Title (Open Print PDF conversion)\n /Trapped /False\n /DOCINFO pdfmark\n[/_objdef {icc_pdfx} /type /stream /OBJ pdfmark\n[{icc_pdfx} << /N 4 >> /PUT pdfmark\n[{icc_pdfx} ("@
        + escaped(profile)
        + ") (r) file /PUT pdfmark\n[/_objdef {output_intent_pdfx} /type /dict /OBJ pdfmark\n[{output_intent_pdfx} <<\n /Type /OutputIntent\n /S /GTS_PDFX\n /OutputCondition ("@
        + escaped(description) + ")\n /Info ("@ + escaped(description) + ")\n /OutputConditionIdentifier ("@
        + escaped(identifier)
        + ")\n /RegistryName (http://www.color.org)\n /DestOutputProfile {icc_pdfx}\n>> /PUT pdfmark\n[/_objdef {metadata_pdfx} /type /stream /OBJ pdfmark\n[{metadata_pdfx} << /Type /Metadata /Subtype /XML >> /PUT pdfmark\n[{metadata_pdfx} ("@
        + escaped(metadata)
        + ") (r) file /PUT pdfmark\n[{Catalog} <<\n /OutputIntents [{output_intent_pdfx}]\n /Metadata {metadata_pdfx}\n>> /PUT pdfmark\n"@
}

/// The pdfmark program that declares PDF/X-1a for a conversion, naming
/// the output condition and the profile and metadata files.
pub fn pdfx_definition(description: &str, output_condition_identifier: &str, profile_path: &str, metadata_path: &str) -> (r: String)
    ensures
        r@ == definition_text(description@, output_condition_identifier@, profile_path@, metadata_path@),
{
    let description = escape_postscript_string(description);
    let identifier = escape_postscript_string(output_condition_identifier);
    let profile = escape_postscript_string(profile_path);
    let metadata = escape_postscript_string(metadata_path);
    let mut r = String::from_str(
        "%!\n[/GTS_PDFXVersion (PDF/X-1:2001)\n /GTS_PDFXConformance (PDF/X-1a:2001)\n /Title (Open Print PDF conversion)\n /Trapped /False\n /DOCINFO pdfmark\n[/_objdef {icc_pdfx} /type /stream /OBJ pdfmark\n[{icc_pdfx} << /N 4 >> /PUT pdfmark\n[{icc_pdfx} (",
    );
    r.append(profile.as_str());
    r.append(
        ") (r) file /PUT pdfmark\n[/_objdef {output_intent_pdfx} /type /dict /OBJ pdfmark\n[{output_intent_pdfx} <<\n /Type /OutputIntent\n /S /GTS_PDFX\n /OutputCondition (",
    );
    r.append(description.as_str());
    r.append(")\n /Info (");
    r.append(description.as_str());
    r.append(")\n /OutputConditionIdentifier (");
    r.append(identifier.as_str());
    r.append(
        ")\n /RegistryName (http://www.color.org)\n /DestOutputProfile {icc_pdfx}\n>> /PUT pdfmark\n[/_objdef {metadata_pdfx} /type /stream /OBJ pdfmark\n[{metadata_pdfx} << /Type /Metadata /Subtype /XML >> /PUT pdfmark\n[{metadata_pdfx} (",
    );
    r.append(metadata.as_str());
    r.append(
        ") (r) file /PUT pdfmark\n[{Catalog} <<\n /OutputIntents [{output_intent_pdfx}]\n /Metadata {metadata_pdfx}\n>> /PUT pdfmark\n",
    );
    r
}

/// The registered output condition identifier of a described Japan Color
/// condition, matched case-insensitively.
pub open spec fn registered_identifier(description: Option<Seq<char>>) -> Option<Seq<char>> {
    match description {
        None => None,
        Some(d) => if contains_folded(d, "japan color 2001 coated"@) {
            Some("JC200103"@)
        } else if contains_folded(d, "japan color 2001 uncoated"@) {
            Some("JC200104"@)
        } else if contains_folded(d, "japan color 2002 newspaper"@) {
            Some("JCN2002"@)
        } else {
            None
        },
    }
}

/// The registered identifier of the output condition `description` names,
/// if it is one of the Japan Color conditions.
pub fn registered_output_condition_identifier(description: Option<&str>) -> (r: Option<&'static str>)
    ensures
        match (r, registered_identifier(match description {
            Some(d) => Some(d@),
            None => None,
        })) {
            (Some(a), Some(b)) => a@ == b,
            (None, None) => true,
            _ => false,
        },
{
    let d = match description {
        Some(d) => d,
        None => return None,
    };
    if contains_ignore_ascii_case(d, "japan color 2001 coated") {
        Some("JC200103")
    } else if contains_ignore_ascii_case(d, "japan color 2001 uncoated") {
        Some("JC200104")
    } else if contains_ignore_ascii_case(d, "japan color 2002 newspaper") {
        Some("JCN2002")
    } else {
        None
    }
}


// ------------------------------------------------------------ passes

/// One run of Ghostscript within a conversion.
#[derive(Clone, Copy, Debug, PartialEq, Eq, Structural)]
pub enum GhostscriptPass {
    /// Outline every font, keeping colours (`OutlineOnly` mode).
    OutlineOnly,
    /// Convert colours to DeviceCMYK (first of two PDF/X passes).
    ColorToCmyk,
    /// Outline the fonts of the CMYK file (second of two PDF/X passes).
    OutlineFonts,
    /// Convert colours and declare PDF/X-1a in one run.
    ConvertAndDeclare,
}

/// The runs a mode takes, in order.
pub open spec fn passes_of(mode: ConversionMode) -> Seq<GhostscriptPass> {
    match mode {
        ConversionMode::OutlineOnly => seq![GhostscriptPass::OutlineOnly],
        ConversionMode::PdfX1a { outline_fonts, .. } => if outline_fonts {
            seq![GhostscriptPass::ColorToCmyk, GhostscriptPass::OutlineFonts]
        } else {
            seq![GhostscriptPass::ConvertAndDeclare]
        },
    }
}

/// The Ghostscript runs a conversion in `mode` takes, in order. Fonts
/// are outlined in a run of their own, after the colour conversion, so
/// that the outlined file is never interpreted again.
pub fn conversion_passes(mode: &ConversionMode) -> (r: Vec<GhostscriptPass>)
    ensures
        r@ == passes_of(*mode),
{
    let mut r: Vec<GhostscriptPass> = Vec::new();
    match mode {
        ConversionMode::OutlineOnly => r.push(GhostscriptPass::OutlineOnly),
        ConversionMode::PdfX1a { outline_fonts, .. } => {
            if *outline_fonts {
                r.push(GhostscriptPass::ColorToCmyk);
                r.push(GhostscriptPass::OutlineFonts);
            } else {
                r.push(GhostscriptPass::ConvertAndDeclare);
            }
        },
    }
    assert(r@ =~= passes_of(*mode));
    r
}

/// Whether the PDF/X identification is attached after the runs rather
/// than declared by Ghostscript: when fonts are outlined in a PDF/X mode.
pub open spec fn attaches_identification(mode: ConversionMode) -> bool {
    match mode {
        ConversionMode::PdfX1a { outline_fonts, .. } => outline_fonts,
        ConversionMode::OutlineOnly => false,
    }
}

/// The file, in the working directory, a run writes.
pub open spec fn pass_output(pass: GhostscriptPass) -> Seq<char> {
    match pass {
        GhostscriptPass::OutlineOnly => "output.pdf"@,
        GhostscriptPass::ColorToCmyk => "cmyk.pdf"@,
        GhostscriptPass::OutlineFonts => "outlined.pdf"@,
        GhostscriptPass::ConvertAndDeclare => "output.pdf"@,
    }
}

/// The check after a run: its stage number, what it did, and the label of
/// its diagnostic copy. Only the runs of the two-run PDF/X conversion are
/// checked.
pub open spec fn pass_stage(pass: GhostscriptPass) -> Option<(u8, Seq<char>, Seq<char>)> {
    match pass {
        GhostscriptPass::ColorToCmyk => Some((1u8, "DeviceCMYK conversion"@, "stage1-cmyk"@)),
        GhostscriptPass::OutlineFonts => Some((2u8, "font outlining"@, "stage2-outlined"@)),
        _ => None,
    }
}

impl GhostscriptPass {
    /// The file, in the working directory, this run writes.
    pub fn output_file(self) -> (r: &'static str)
        ensures
            r@ == pass_output(self),
    {
        match self {
            GhostscriptPass::OutlineOnly => "output.pdf",
            GhostscriptPass::ColorToCmyk => "cmyk.pdf",
            GhostscriptPass::OutlineFonts => "outlined.pdf",
            GhostscriptPass::ConvertAndDeclare => "output.pdf",
        }
    }

    /// The check after this run, if it is checked.
    pub fn stage(self) -> (r: Option<(u8, &'static str, &'static str)>)
        ensures
            match (r, pass_stage(self)) {
                (Some((n, l, d)), Some((m, sl, sd))) => n == m && l@ == sl && d@ == sd,
                (None, None) => true,
                _ => false,
            },
    {
        match self {
            GhostscriptPass::ColorToCmyk => Some((1, "DeviceCMYK conversion", "stage1-cmyk")),
            GhostscriptPass::OutlineFonts => Some((2, "font outlining", "stage2-outlined")),
            _ => None,
        }
    }
}

/// The arguments every run starts with: safe mode, batch processing,
/// stop on error, the pdfwrite device and the output file.
pub open spec fn common_args(output: Seq<char>) -> Seq<Seq<char>> {
    seq![
        "-dSAFER"@,
        "-dBATCH"@,
        "-dNOPAUSE"@,
        "-dPDFSTOPONERROR"@,
        "-sDEVICE=pdfwrite"@,
        "-sOutputFile="@ + output,
    ]
}

/// The colour conversion arguments: PDF 1.3, CMYK through the destination
/// profile, untagged RGB as sRGB, the rendering intent and black point
/// compensation for images, intent 1 with compensation for vectors and
/// text, and the rasterization resolution.
pub open spec fn color_args(intent: RenderingIntent, bpc: bool, dpi: u16) -> Seq<Seq<char>> {
    let n = decimal(intent_number(intent) as nat);
    let b = decimal(if bpc { 1nat } else { 0nat });
    seq![
        "-dCompatibilityLevel=1.3"@,
        "-sColorConversionStrategy=CMYK"@,
        "-sOutputICCProfile=destination.icc"@,
        "-sDefaultRGBProfile=srgb.icc"@,
        "-dOverrideICC=false"@,
        "-dRenderIntent="@ + n,
        "-dBlackPtComp="@ + b,
        "-dImageIntent="@ + n,
        "-dImageBlackPt="@ + b,
        "-dVectorIntent=1"@,
        "-dVectorBlackPt=1"@,
        "-dTextIntent=1"@,
        "-dTextBlackPt=1"@,
        "-r"@ + decimal(dpi as nat),
    ]
}

/// The arguments of a run.
pub open spec fn pass_args(pass: GhostscriptPass, intent: RenderingIntent, bpc: bool, dpi: u16) -> Seq<Seq<char>> {
    match pass {
        GhostscriptPass::OutlineOnly => common_args("output.pdf"@) + seq![
            "-dNoOutputFonts"@,
            "-dCompatibilityLevel=1.7"@,
            "input.pdf"@,
        ],
        GhostscriptPass::ColorToCmyk => seq!["--permit-file-read=destination.icc"@] + common_args("cmyk.pdf"@)
            + color_args(intent, bpc, dpi) + seq!["input.pdf"@],
        GhostscriptPass::OutlineFonts => common_args("outlined.pdf"@) + seq![
            "-dNoOutputFonts"@,
            "-dCompatibilityLevel=1.3"@,
            "cmyk.pdf"@,
        ],
        GhostscriptPass::ConvertAndDeclare => seq![
            "--permit-file-read=destination.icc"@,
            "--permit-file-read=open_print_pdf_pdfx_metadata.xmp"@,
        ] + common_args("output.pdf"@) + seq!["-dPDFX=1"@] + color_args(intent, bpc, dpi) + seq![
            "open_print_pdf_pdfx_definition.ps"@,
            "input.pdf"@,
        ],
    }
}

fn push_arg(args: &mut Vec<String>, a: &str)
    ensures
        strings_view(final(args)@) == strings_view(old(args)@).push(a@),
{
    args.push(String::from_str(a));
    assert(strings_view(args@) =~= strings_view(old(args)@).push(a@));
}

fn push_numbered(args: &mut Vec<String>, prefix: &str, n: u64)
    ensures
        strings_view(final(args)@) == strings_view(old(args)@).push(prefix@ + decimal(n as nat)),
{
    let mut a = String::from_str(prefix);
    append_decimal(&mut a, n);
    args.push(a);
    assert(strings_view(args@) =~= strings_view(old(args)@).push(prefix@ + decimal(n as nat)));
}

/// The arguments every run starts with, writing `output_path`.
pub fn common_arguments(output_path: &str) -> (r: Vec<String>)
    ensures
        strings_view(r@) == common_args(output_path@),
{
    let mut r: Vec<String> = Vec::new();
    append_common(&mut r, output_path);
    r
}

fn append_common(args: &mut Vec<String>, output_path: &str)
    ensures
        strings_view(final(args)@) == strings_view(old(args)@) + common_args(output_path@),
{
    let ghost start = strings_view(args@);
    push_arg(args, "-dSAFER");
    push_arg(args, "-dBATCH");
    push_arg(args, "-dNOPAUSE");
    push_arg(args, "-dPDFSTOPONERROR");
    push_arg(args, "-sDEVICE=pdfwrite");
    let mut out = String::from_str("-sOutputFile=");
    out.append(output_path);
    let ghost before = strings_view(args@);
    args.push(out);
    assert(strings_view(args@) =~= before.push(out@));
    assert(strings_view(args@) =~= start + common_args(output_path@));
}

fn append_color(args: &mut Vec<String>, intent: RenderingIntent, bpc: bool, dpi: u16)
    ensures
        strings_view(final(args)@) == strings_view(old(args)@) + color_args(intent, bpc, dpi),
{
    let ghost start = strings_view(args@);
    let n = intent.ghostscript_value() as u64;
    let b: u64 = if bpc { 1 } else { 0 };
    push_arg(args, "-dCompatibilityLevel=1.3");
    push_arg(args, "-sColorConversionStrategy=CMYK");
    push_arg(args, "-sOutputICCProfile=destination.icc");
    push_arg(args, "-sDefaultRGBProfile=srgb.icc");
    push_arg(args, "-dOverrideICC=false");
    push_numbered(args, "-dRenderIntent=", n);
    push_numbered(args, "-dBlackPtComp=", b);
    push_numbered(args, "-dImageIntent=", n);
    push_numbered(args, "-dImageBlackPt=", b);
    push_arg(args, "-dVectorIntent=1");
    push_arg(args, "-dVectorBlackPt=1");
    push_arg(args, "-dTextIntent=1");
    push_arg(args, "-dTextBlackPt=1");
    push_numbered(args, "-r", dpi as u64);
    assert(strings_view(args@) =~= start + color_args(intent, bpc, dpi));
}

/// The arguments of a run; the rendering intent, black point
/// compensation and resolution matter to the colour-converting runs only.
pub fn pass_arguments(pass: GhostscriptPass, rendering_intent: RenderingIntent, black_point_compensation: bool, dpi: u16) -> (r: Vec<
    String,
>)
    ensures
        strings_view(r@) == pass_args(pass, rendering_intent, black_point_compensation, dpi),
{
    let mut r: Vec<String> = Vec::new();
    let ghost e = strings_view(r@);
    assert(e =~= Seq::<Seq<char>>::empty());
    match pass {
        GhostscriptPass::OutlineOnly => {
            append_common(&mut r, "output.pdf");
            push_arg(&mut r, "-dNoOutputFonts");
            push_arg(&mut r, "-dCompatibilityLevel=1.7");
            push_arg(&mut r, "input.pdf");
        },
        GhostscriptPass::ColorToCmyk => {
            push_arg(&mut r, "--permit-file-read=destination.icc");
            append_common(&mut r, "cmyk.pdf");
            append_color(&mut r, rendering_intent, black_point_compensation, dpi);
            push_arg(&mut r, "input.pdf");
        },
        GhostscriptPass::OutlineFonts => {
            append_common(&mut r, "outlined.pdf");
            push_arg(&mut r, "-dNoOutputFonts");
            push_arg(&mut r, "-dCompatibilityLevel=1.3");
            push_arg(&mut r, "cmyk.pdf");
        },
        GhostscriptPass::ConvertAndDeclare => {
            push_arg(&mut r, "--permit-file-read=destination.icc");
            push_arg(&mut r, "--permit-file-read=open_print_pdf_pdfx_metadata.xmp");
            append_common(&mut r, "output.pdf");
            push_arg(&mut r, "-dPDFX=1");
            append_color(&mut r, rendering_intent, black_point_compensation, dpi);
            push_arg(&mut r, "open_print_pdf_pdfx_definition.ps");
            push_arg(&mut r, "input.pdf");
        },
    }
    assert(strings_view(r@) =~= pass_args(pass, rendering_intent, black_point_compensation, dpi));
    r
}

// ------------------------------------------------------------ watching a run

/// The limit a run broke, if any, checked in this order: the time, the
/// size of each log (where known), the size of the PDF being written
/// (where known).
pub open spec fn watch_verdict(
    timed_out: bool,
    timeout_secs: u64,
    stdout_len: Option<u64>,
    stderr_len: Option<u64>,
    output_len: Option<u64>,
) -> Option<Seq<char>> {
    if timed_out {
        Some("Ghostscript timed out after "@ + decimal(timeout_secs as nat) + " seconds"@)
    } else if stdout_len matches Some(n) && n > MAX_GHOSTSCRIPT_LOG_BYTES {
        Some("Ghostscript stdout exceeded "@ + decimal((MAX_GHOSTSCRIPT_LOG_BYTES / 1024 / 1024) as nat) + " MiB"@)
    } else if stderr_len matches Some(n) && n > MAX_GHOSTSCRIPT_LOG_BYTES {
        Some("Ghostscript stderr exceeded "@ + decimal((MAX_GHOSTSCRIPT_LOG_BYTES / 1024 / 1024) as nat) + " MiB"@)
    } else if output_len matches Some(n) && n > MAX_OUTPUT_PDF_BYTES {
        Some("generated PDF exceeded "@ + decimal((MAX_OUTPUT_PDF_BYTES / 1024 / 1024) as nat) + " MiB"@)
    } else {
        None
    }
}

/// One look at a running conversion: whether its time is up, and the
/// sizes of its logs and output so far. Returns the error to stop it with,
/// or `None` to keep waiting.
pub fn watch_step(
    timed_out: bool,
    timeout_secs: u64,
    stdout_len: Option<u64>,
    stderr_len: Option<u64>,
    output_len: Option<u64>,
) -> (r: Option<OpenPrintPdfError>)
    ensures
        match watch_verdict(timed_out, timeout_secs, stdout_len, stderr_len, output_len) {
            Some(m) => r matches Some(OpenPrintPdfError::ResourceLimitExceeded(e)) && e@ == m,
            None => r is None,
        },
{
    let label = if timed_out {
        let mut m = String::from_str("Ghostscript timed out after ");
        append_decimal(&mut m, timeout_secs);
        m.append(" seconds");
        return Some(OpenPrintPdfError::ResourceLimitExceeded(m));
    } else if match stdout_len {
        Some(n) => n > MAX_GHOSTSCRIPT_LOG_BYTES,
        None => false,
    } {
        "Ghostscript stdout exceeded "
    } else if match stderr_len {
        Some(n) => n > MAX_GHOSTSCRIPT_LOG_BYTES,
        None => false,
    } {
        "Ghostscript stderr exceeded "
    } else if match output_len {
        Some(n) => n > MAX_OUTPUT_PDF_BYTES,
        None => false,
    } {
        let mut m = String::from_str("generated PDF exceeded ");
        append_decimal(&mut m, MAX_OUTPUT_PDF_BYTES / 1024 / 1024);
        m.append(" MiB");
        return Some(OpenPrintPdfError::ResourceLimitExceeded(m));
    } else {
        return None;
    };
    let mut m = String::from_str(label);
    append_decimal(&mut m, MAX_GHOSTSCRIPT_LOG_BYTES / 1024 / 1024);
    m.append(" MiB");
    Some(OpenPrintPdfError::ResourceLimitExceeded(m))
}

/// Refuses to read a log larger than the limit (`len`, where known).
pub fn check_log_length(len: Option<u64>) -> (r: Result<(), OpenPrintPdfError>)
    ensures
        (len matches Some(n) && n > MAX_GHOSTSCRIPT_LOG_BYTES) ==> (r matches Err(
            OpenPrintPdfError::ResourceLimitExceeded(m),
        ) && m@ == "Ghostscript log exceeded the configured limit"@),
        !(len matches Some(n) && n > MAX_GHOSTSCRIPT_LOG_BYTES) ==> r is Ok,
{
    match len {
        Some(n) => if n > MAX_GHOSTSCRIPT_LOG_BYTES {
            return Err(OpenPrintPdfError::ResourceLimitExceeded(
                String::from_str("Ghostscript log exceeded the configured limit"),
            ));
        },
        None => {},
    }
    Ok(())
}

/// Whether a log line reports a warning or an error, in any letter case.
pub open spec fn warning_line(line: Seq<char>) -> bool {
    contains_folded(line, "warning"@) || contains_folded(line, "error"@)
}

/// Whether a log line reports a warning or an error, in any letter case.
pub fn is_warning(line: &str) -> (r: bool)
    ensures
        r == warning_line(line@),
{
    contains_ignore_ascii_case(line, "warning") || contains_ignore_ascii_case(line, "error")
}

/// The warning lines of `lines`, in order.
pub open spec fn keep_warnings(lines: Seq<Seq<char>>) -> Seq<Seq<char>>
    decreases lines.len(),
{
    if lines.len() == 0 {
        Seq::empty()
    } else if warning_line(lines.last()) {
        keep_warnings(lines.drop_last()).push(lines.last())
    } else {
        keep_warnings(lines.drop_last())
    }
}

/// Appends the warning lines of a log to `out`.
pub fn append_warning_lines(out: &mut Vec<String>, text: &str)
    ensures
        strings_view(final(out)@) == strings_view(old(out)@) + keep_warnings(lines_of(text@)),
{
    let lines = text_lines(text);
    let ghost start = strings_view(out@);
    let mut i: usize = 0;
    while i < lines.len()
        invariant
            i <= lines.len(),
            strings_view(lines@) == lines_of(text@),
            strings_view(out@) == start + keep_warnings(strings_view(lines@).take(i as int)),
        decreases lines.len() - i,
    {
        assert(strings_view(lines@).take(i + 1).drop_last() =~= strings_view(lines@).take(i as int));
        let ghost before = strings_view(out@);
        assert(strings_view(lines@).take(i + 1).last() == lines@[i as int]@);
        if is_warning(lines[i].as_str()) {
            let line = lines[i].clone();
            assert(line@ == lines@[i as int]@);
            out.push(line);
            assert(strings_view(out@) =~= before.push(line@));
            assert(strings_view(out@) =~= start + keep_warnings(strings_view(lines@).take(i + 1)));
        }
        i = i + 1;
    }
    assert(strings_view(lines@).take(i as int) =~= strings_view(lines@));
}

/// The outcome of a finished run: its duration and the warning lines of
/// both logs, or, where Ghostscript failed, the error with its exit
/// status and both logs trimmed.
pub fn run_outcome(success: bool, status: &str, stdout: &str, stderr: &str, elapsed_ms: u64) -> (r: Result<
    (u64, Vec<String>),
    OpenPrintPdfError,
>)
    ensures
        success ==> (r matches Ok((d, w)) && d == elapsed_ms && strings_view(w@) == keep_warnings(lines_of(stdout@))
            + keep_warnings(lines_of(stderr@))),
        !success ==> (r matches Err(OpenPrintPdfError::ConversionFailed(m)) && m@ == "Ghostscript exited with "@
            + status@ + "\n"@ + trim(stdout@) + "\n"@ + trim(stderr@)),
{
    if !success {
        let mut m = String::from_str("Ghostscript exited with ");
        m.append(status);
        m.append("\n");
        let out = trimmed(stdout);
        m.append(out.as_str());
        m.append("\n");
        let err = trimmed(stderr);
        m.append(err.as_str());
        return Err(OpenPrintPdfError::ConversionFailed(m));
    }
    let mut lines: Vec<String> = Vec::new();
    assert(strings_view(lines@) =~= Seq::<Seq<char>>::empty());
    append_warning_lines(&mut lines, stdout);
    append_warning_lines(&mut lines, stderr);
    Ok((elapsed_ms, lines))
}

/// The outcome of `gs --version`: the trimmed version it printed, or why
/// it could not be had (not finished in time, or failed with its trimmed
/// error output).
pub fn version_outcome(finished: bool, success: bool, stdout: &str, stderr: &str) -> (r: Result<String, OpenPrintPdfError>)
    ensures
        !finished ==> (r matches Err(OpenPrintPdfError::EngineUnavailable(m)) && m@
            == "Ghostscript version check timed out"@),
        finished && !success ==> (r matches Err(OpenPrintPdfError::EngineUnavailable(m)) && m@ == trim(stderr@)),
        finished && success ==> (r matches Ok(v) && v@ == trim(stdout@)),
{
    if !finished {
        return Err(OpenPrintPdfError::EngineUnavailable(String::from_str("Ghostscript version check timed out")));
    }
    if !success {
        return Err(OpenPrintPdfError::EngineUnavailable(trimmed(stderr)));
    }
    Ok(trimmed(stdout))
}

// ------------------------------------------------------- destination profile

/// A destination profile: its bytes, the output condition it describes,
/// and the identifier of that condition.
#[derive(Clone, Debug, PartialEq, Eq)]
pub struct DestinationProfile {
    pub bytes: Vec<u8>,
    pub description: Option<String>,
    pub identifier: Option<String>,
}

/// The first of two optional values that is there.
pub open spec fn first_of<T>(a: Option<T>, b: Option<T>) -> Option<T> {
    match a {
        Some(x) => Some(x),
        None => b,
    }
}

/// The identifier of a condition: the registered one where the
/// description (or, failing it, `fallback_name`) names one, else `fallback`.
pub open spec fn condition_identifier(
    description: Option<Seq<char>>,
    fallback_name: Option<Seq<char>>,
    fallback: Option<Seq<char>>,
) -> Option<Seq<char>> {
    first_of(registered_identifier(first_of(description, fallback_name)), fallback)
}

/// The description of the input's OutputIntent: its output condition,
/// else its info, else its identifier.
pub open spec fn intent_description(i: IntentView) -> Option<Seq<char>> {
    first_of(i.output_condition, first_of(i.info, i.output_condition_identifier))
}

fn first_string(a: &Option<String>, b: &Option<String>) -> (r: Option<String>)
    ensures
        opt_chars(r) == first_of(opt_chars(*a), opt_chars(*b)),
{
    match a {
        Some(x) => Some(x.clone()),
        None => b.clone(),
    }
}

fn identifier_for(description: &Option<String>, fallback_name: &Option<String>, fallback: &Option<String>) -> (r: Option<
    String,
>)
    ensures
        opt_chars(r) == condition_identifier(opt_chars(*description), opt_chars(*fallback_name), opt_chars(*fallback)),
{
    let name = first_string(description, fallback_name);
    let registered = match &name {
        Some(n) => registered_output_condition_identifier(Some(n.as_str())),
        None => registered_output_condition_identifier(None),
    };
    match registered {
        Some(id) => Some(String::from_str(id)),
        None => fallback.clone(),
    }
}

/// The destination profile taken from the input's first OutputIntent:
/// refused when there is none or its profile is empty, or when the
/// profile is over the size limit.
pub fn destination_from_intent(intent: Option<OutputIntentData>) -> (r: Result<DestinationProfile, OpenPrintPdfError>)
    ensures
        match intent {
            None => r == Err::<DestinationProfile, OpenPrintPdfError>(OpenPrintPdfError::MissingCmykOutputIntent),
            Some(d) => if d.profile_bytes@.len() == 0 {
                r == Err::<DestinationProfile, OpenPrintPdfError>(OpenPrintPdfError::MissingCmykOutputIntent)
            } else if d.profile_bytes@.len() > MAX_ICC_PROFILE_BYTES {
                r matches Err(OpenPrintPdfError::ResourceLimitExceeded(m)) && m@ == "embedded OutputIntent profile exceeded "@
                    + decimal((MAX_ICC_PROFILE_BYTES / 1024 / 1024) as nat) + " MiB"@
            } else {
                r matches Ok(p) && p.bytes@ == d.profile_bytes@ && opt_chars(p.description) == intent_description(d.info@)
                    && opt_chars(p.identifier) == condition_identifier(
                    intent_description(d.info@),
                    d.info@.output_condition_identifier,
                    d.info@.output_condition_identifier,
                )
            },
        },
{
    let data = match intent {
        Some(d) => d,
        None => return Err(OpenPrintPdfError::MissingCmykOutputIntent),
    };
    if data.profile_bytes.len() == 0 {
        return Err(OpenPrintPdfError::MissingCmykOutputIntent);
    }
    if data.profile_bytes.len() as u64 > MAX_ICC_PROFILE_BYTES {
        let mut m = String::from_str("embedded OutputIntent profile exceeded ");
        append_decimal(&mut m, MAX_ICC_PROFILE_BYTES / 1024 / 1024);
        m.append(" MiB");
        return Err(OpenPrintPdfError::ResourceLimitExceeded(m));
    }
    let info = &data.info;
    let rest = first_string(&info.info, &info.output_condition_identifier);
    let description = first_string(&info.output_condition, &rest);
    let identifier = identifier_for(&description, &info.output_condition_identifier, &info.output_condition_identifier);
    Ok(DestinationProfile { bytes: data.profile_bytes, description, identifier })
}

/// The destination profile read from an ICC file whose name, without its
/// extension, is `stem`: the stem is the description, and the identifier
/// is the registered one it names, else the stem.
pub fn destination_from_file(bytes: Vec<u8>, stem: Option<String>) -> (r: DestinationProfile)
    ensures
        r.bytes@ == bytes@,
        opt_chars(r.description) == opt_chars(stem),
        opt_chars(r.identifier) == condition_identifier(opt_chars(stem), None, opt_chars(stem)),
{
    let none: Option<String> = None;
    let identifier = identifier_for(&stem, &none, &stem);
    DestinationProfile { bytes, description: stem, identifier }
}

/// Reads the destination profile and refuses it unless its colour space
/// is CMYK.
pub fn check_destination_profile(bytes: &[u8]) -> (r: Result<IccProfileInfo, OpenPrintPdfError>)
    ensures
        icc_info(bytes@).color_space == Some("CMYK"@) ==> (r matches Ok(p) && p@ == icc_info(bytes@)),
        icc_info(bytes@).color_space != Some("CMYK"@) ==> r == Err::<IccProfileInfo, OpenPrintPdfError>(
            OpenPrintPdfError::MissingCmykOutputIntent,
        ),
{
    let profile = parse_icc_profile(bytes);
    proof {
        reveal_strlit("CMYK");
    }
    if crate::text::opt_str_equal(&profile.color_space, "CMYK") {
        Ok(profile)
    } else {
        Err(OpenPrintPdfError::MissingCmykOutputIntent)
    }
}

/// The output condition named in the PDF/X declaration, `Custom CMYK`
/// where none is known.
pub fn condition_or_custom(value: &Option<String>) -> (r: String)
    ensures
        r@ == match value {
            Some(v) => v@,
            None => "Custom CMYK"@,
        },
{
    match value {
        Some(v) => v.clone(),
        None => String::from_str("Custom CMYK"),
    }
}

/// The output condition a PDF/X declaration names for `value`:
/// `Custom CMYK` where none is known.
pub open spec fn or_custom(value: Option<Seq<char>>) -> Seq<char> {
    match value {
        Some(v) => v,
        None => "Custom CMYK"@,
    }
}

/// What a PDF/X-1a conversion prepares from its destination profile: the
/// profile bytes, the output condition and its identifier as the PDF/X
/// declaration names them, that declaration, and the colour conversion
/// report.
pub struct PdfxPreparation {
    pub profile_bytes: Vec<u8>,
    pub description: String,
    pub identifier: String,
    pub definition: String,
    pub color_conversion: ColorConversionReport,
}

/// Prepares a PDF/X-1a conversion towards `destination`: refuses a profile
/// whose colour space is not CMYK, then names the output condition, writes
/// the declaration that refers to `profile_file` and `metadata_file`, and
/// reports the colour conversion of `input`.
pub fn prepare_pdfx(
    destination: DestinationProfile,
    rendering_intent: RenderingIntent,
    black_point_compensation: bool,
    input: &PdfInspectionResult,
    profile_file: &str,
    metadata_file: &str,
) -> (r: Result<PdfxPreparation, OpenPrintPdfError>)
    ensures
        icc_info(destination.bytes@).color_space != Some("CMYK"@) ==> r == Err::<PdfxPreparation, OpenPrintPdfError>(
            OpenPrintPdfError::MissingCmykOutputIntent,
        ),
        icc_info(destination.bytes@).color_space == Some("CMYK"@) ==> r is Ok,
        r matches Ok(p) ==> p.profile_bytes@ == destination.bytes@ && p.description@ == or_custom(
            opt_chars(destination.description),
        ) && p.identifier@ == or_custom(opt_chars(destination.identifier)) && p.definition@ == definition_text(
            p.description@,
            p.identifier@,
            profile_file@,
            metadata_file@,
        ),
        r matches Ok(p) ==> p.color_conversion.destination_profile_sha256@ == icc_info(destination.bytes@).sha256
            && opt_chars(p.color_conversion.destination_profile_description) == opt_chars(destination.description)
            && p.color_conversion.rendering_intent == rendering_intent
            && p.color_conversion.black_point_compensation == black_point_compensation
            && p.color_conversion.assumed_srgb_images == count_device_rgb(input@.images),
{
    let profile = match check_destination_profile(&destination.bytes) {
        Ok(p) => p,
        Err(e) => return Err(e),
    };
    let description = condition_or_custom(&destination.description);
    let identifier = condition_or_custom(&destination.identifier);
    let definition = pdfx_definition(description.as_str(), identifier.as_str(), profile_file, metadata_file);
    let color_conversion = color_conversion_report(
        profile.sha256,
        destination.description,
        rendering_intent,
        black_point_compensation,
        input,
    );
    Ok(PdfxPreparation { profile_bytes: destination.bytes, description, identifier, definition, color_conversion })
}

// ------------------------------------------------------------ image content

/// Whether a run lost image content: there were pixels before, and twice
/// the pixels after (saturating at the 128-bit maximum) fall short of them.
pub open spec fn content_dropped(before: nat, after: nat) -> bool {
    before > 0 && (if 2 * after > u128::MAX { u128::MAX as nat } else { 2 * after }) < before
}

/// Whether the run from `before` to `after` lost image content.
pub fn image_content_dropped(before: &PdfInspectionResult, after: &PdfInspectionResult) -> (r: bool)
    requires
        pixel_sum(before@.images) <= u128::MAX,
        pixel_sum(after@.images) <= u128::MAX,
    ensures
        r == content_dropped(pixel_sum(before@.images), pixel_sum(after@.images)),
{
    let before_pixels = total_image_pixels(before);
    let after_pixels = total_image_pixels(after);
    let doubled: u128 = if after_pixels > u128::MAX / 2 { u128::MAX } else { after_pixels * 2 };
    before_pixels > 0 && doubled < before_pixels
}

/// The message of a run that lost image content.
pub open spec fn image_loss_text(
    stage: u8,
    label: Seq<char>,
    before: Seq<ImageView>,
    after: Seq<ImageView>,
    diagnostics: Seq<Seq<char>>,
    executable: Seq<char>,
) -> Seq<char> {
    "Ghostscript stage "@ + decimal(stage as nat) + " ("@ + label + ") dropped embedded image content ("@
        + decimal(before.len()) + " images / "@ + decimal(pixel_sum(before)) + " pixels before, "@ + decimal(after.len())
        + " images / "@ + decimal(pixel_sum(after)) + " pixels after); diagnostic PDF(s): "@ + joined(diagnostics, ", "@)
        + "; Ghostscript executable: "@ + executable
}

/// The error for run `stage` (`label`) that lost image content, naming the
/// diagnostic copies kept and the executable.
pub fn stage_image_loss_error(
    stage: u8,
    label: &str,
    before: &PdfInspectionResult,
    after: &PdfInspectionResult,
    diagnostics: &[String],
    executable: &str,
) -> (r: OpenPrintPdfError)
    requires
        pixel_sum(before@.images) <= u128::MAX,
        pixel_sum(after@.images) <= u128::MAX,
    ensures
        r matches OpenPrintPdfError::ValidationFailed(m) && m@ == image_loss_text(
            stage,
            label@,
            before@.images,
            after@.images,
            strings_view(diagnostics@),
            executable@,
        ),
{
    let mut m = String::from_str("Ghostscript stage ");
    append_decimal(&mut m, stage as u64);
    m.append(" (");
    m.append(label);
    m.append(") dropped embedded image content (");
    append_decimal(&mut m, before.images.len() as u64);
    m.append(" images / ");
    append_decimal_wide(&mut m, total_image_pixels(before));
    m.append(" pixels before, ");
    append_decimal(&mut m, after.images.len() as u64);
    m.append(" images / ");
    append_decimal_wide(&mut m, total_image_pixels(after));
    m.append(" pixels after); diagnostic PDF(s): ");
    let joined_paths = join_strings(diagnostics, ", ");
    m.append(joined_paths.as_str());
    m.append("; Ghostscript executable: ");
    m.append(executable);
    OpenPrintPdfError::ValidationFailed(m)
}

/// The name of the diagnostic copy of a run's output for attempt `index`:
/// `{stem}.diagnostic-{label}.pdf`, with `-{index}` before `.pdf` from the
/// second attempt on.
pub open spec fn diagnostic_name(stem: Seq<char>, label: Seq<char>, index: u32) -> Seq<char> {
    stem + ".diagnostic-"@ + label + (if index == 1 { Seq::empty() } else { "-"@ + decimal(index as nat) }) + ".pdf"@
}

/// The name of the diagnostic copy of a run's output for attempt `index`.
pub fn diagnostic_file_name(stem: &str, label: &str, index: u32) -> (r: String)
    ensures
        r@ == diagnostic_name(stem@, label@, index),
{
    let mut r = String::from_str(stem);
    r.append(".diagnostic-");
    r.append(label);
    if index != 1 {
        r.append("-");
        append_decimal(&mut r, index as u64);
    }
    r.append(".pdf");
    proof {
        if index == 1 {
            assert(r@ =~= diagnostic_name(stem@, label@, index));
        } else {
            assert(r@ =~= diagnostic_name(stem@, label@, index));
        }
    }
    r
}

/// How many names the diagnostic copies of a run are tried under.
pub const DIAGNOSTIC_NAME_ATTEMPTS: u32 = 999;

/// The error when the diagnostic copies found every name taken.
pub fn diagnostic_names_exhausted() -> (r: OpenPrintPdfError)
    ensures
        r matches OpenPrintPdfError::ConversionFailed(m) && m@ == "could not allocate a unique diagnostic PDF name"@,
{
    OpenPrintPdfError::ConversionFailed(String::from_str("could not allocate a unique diagnostic PDF name"))
}

// ------------------------------------------------------------- the report

/// The number of untagged DeviceRGB images, which are converted as sRGB.
pub open spec fn count_device_rgb(images: Seq<ImageView>) -> nat
    decreases images.len(),
{
    if images.len() == 0 {
        0
    } else {
        count_device_rgb(images.drop_last()) + if images.last().color_space == ImageColorSpace::DeviceRgb {
            1nat
        } else {
            0nat
        }
    }
}

/// How colours were converted: the destination profile's digest and
/// description, the intent and compensation, and how many untagged RGB
/// images of the input were taken as sRGB.
pub fn color_conversion_report(
    destination_profile_sha256: String,
    description: Option<String>,
    rendering_intent: RenderingIntent,
    black_point_compensation: bool,
    input: &PdfInspectionResult,
) -> (r: ColorConversionReport)
    ensures
        r.destination_profile_sha256@ == destination_profile_sha256@,
        opt_chars(r.destination_profile_description) == opt_chars(description),
        r.rendering_intent == rendering_intent,
        r.black_point_compensation == black_point_compensation,
        r.assumed_srgb_images == count_device_rgb(input@.images),
{
    let mut n: usize = 0;
    let mut i: usize = 0;
    while i < input.images.len()
        invariant
            i <= input.images.len(),
            n <= i,
            n == count_device_rgb(images_view(input.images@.take(i as int))),
        decreases input.images.len() - i,
    {
        assert(images_view(input.images@.take(i + 1)).drop_last() =~= images_view(input.images@.take(i as int)));
        match input.images[i].color_space {
            ImageColorSpace::DeviceRgb => {
                n = n + 1;
            },
            _ => {},
        }
        i = i + 1;
    }
    assert(input.images@.take(i as int) =~= input.images@);
    ColorConversionReport {
        destination_profile_sha256,
        destination_profile_description: description,
        rendering_intent,
        black_point_compensation,
        assumed_srgb_images: n,
    }
}

/// The pages a conversion flattens: those with transparency in a PDF/X
/// mode, none when only outlining fonts.
pub fn flattened_pages(mode: &ConversionMode, input: &PdfInspectionResult) -> (r: Vec<u32>)
    ensures
        mode is OutlineOnly ==> r@.len() == 0,
        mode is PdfX1a ==> strictly_increasing(r@) && forall|p: u32| r@.contains(p) <==> has_finding_on(
            input@.transparency,
            p,
        ),
{
    match mode {
        ConversionMode::OutlineOnly => Vec::new(),
        ConversionMode::PdfX1a { .. } => transparency_pages(input),
    }
}

/// The warnings of a conversion: those of its runs, then, where pages were
/// flattened, a warning that lists them.
pub open spec fn final_warnings(warnings: Seq<Seq<char>>, flattened: Seq<u32>) -> Seq<Seq<char>> {
    if flattened.len() == 0 {
        warnings
    } else {
        warnings.push("transparent pages were flattened to CMYK at the configured resolution: "@ + joined_decimals(flattened))
    }
}

/// What a conversion reports, its warnings completed with the list of
/// flattened pages.
pub fn conversion_result(
    output_path: String,
    engine: EngineInfo,
    duration_ms: u64,
    flattened_pages: Vec<u32>,
    color_conversion: Option<ColorConversionReport>,
    engine_warnings: Vec<String>,
) -> (r: ConversionResult)
    ensures
        r.output_path@ == output_path@,
        r.engine == engine,
        r.duration_ms == duration_ms,
        r.flattened_pages@ == flattened_pages@,
        r.color_conversion == color_conversion,
        strings_view(r.engine_warnings@) == final_warnings(strings_view(engine_warnings@), flattened_pages@),
{
    let mut warnings = engine_warnings;
    if flattened_pages.len() > 0 {
        let mut m = String::from_str("transparent pages were flattened to CMYK at the configured resolution: ");
        let pages = join_numbers(flattened_pages.as_slice());
        m.append(pages.as_str());
        let ghost before = strings_view(warnings@);
        warnings.push(m);
        assert(strings_view(warnings@) =~= before.push(m@));
    }
    ConversionResult {
        output_path,
        engine,
        duration_ms,
        flattened_pages,
        color_conversion,
        engine_warnings: warnings,
    }
}


/// The SHA-256 digest of a profile, in lowercase hexadecimal.
pub fn profile_sha256(bytes: &[u8]) -> (r: String)
    ensures
        r@ == crate::digest::hex_lower(crate::digest::sha256_of(bytes@)),
{
    crate::digest::sha256_hex(bytes)
}

// ------------------------------------------------------------------ laws

/// An escaped string holds printable ASCII only.
pub proof fn lemma_escaped_is_printable_ascii(s: Seq<char>)
    ensures
        forall|i: int| 0 <= i < escaped(s).len() ==> 0x20 <= (#[trigger] escaped(s)[i]) as u32 && (escaped(s)[i] as u32) < 0x7f,
    decreases s.len(),
{
    if s.len() > 0 {
        lemma_escaped_is_printable_ascii(s.drop_last());
        let a = escaped(s.drop_last());
        let b = escape_char(s.last());
        assert(escaped(s) == a + b);
        assert forall|i: int| 0 <= i < escaped(s).len() implies 0x20 <= (#[trigger] escaped(s)[i]) as u32 && (
        escaped(s)[i] as u32) < 0x7f by {
            if i < a.len() {
                assert(escaped(s)[i] == a[i]);
            } else {
                assert(escaped(s)[i] == b[i - a.len()]);
            }
        }
    }
}

/// Whether `c` is printable ASCII other than a parenthesis or backslash.
pub open spec fn plain_char(c: char) -> bool {
    0x20 <= (c as u32) < 0x7f && c != '(' && c != ')' && c != '\\'
}

/// Escaping leaves text of plain printable ASCII as it is.
pub proof fn lemma_escape_keeps_plain_text(s: Seq<char>)
    requires
        forall|i: int| 0 <= i < s.len() ==> plain_char(#[trigger] s[i]),
    ensures
        escaped(s) == s,
    decreases s.len(),
{
    if s.len() > 0 {
        assert forall|i: int| 0 <= i < s.drop_last().len() implies plain_char(#[trigger] s.drop_last()[i]) by {
            assert(s.drop_last()[i] == s[i]);
        }
        lemma_escape_keeps_plain_text(s.drop_last());
        assert(plain_char(s[s.len() - 1]));
        assert(escaped(s) =~= s.drop_last() + seq![s.last()]);
        assert(s.drop_last() + seq![s.last()] =~= s);
    }
}

/// Whether `needle` occurs folded in `a` exactly where it does in `b`, for
/// texts equal but for ASCII case.
proof fn lemma_folded_occurrence_same(a: Seq<char>, b: Seq<char>, needle: Seq<char>)
    requires
        crate::text::eq_ignore_ascii_case(a, b),
    ensures
        contains_folded(a, needle) == contains_folded(b, needle),
{
    if contains_folded(a, needle) {
        let at = choose|at: int| crate::text::occurs_folded_at(a, needle, at);
        assert forall|j: int| 0 <= j < needle.len() implies crate::text::ascii_lower(#[trigger] b[at + j])
            == crate::text::ascii_lower(needle[j]) by {
            assert(crate::text::ascii_lower(a[at + j]) == crate::text::ascii_lower(b[at + j]));
            assert(crate::text::ascii_lower(a[at + j]) == crate::text::ascii_lower(needle[j]));
        }
        assert(crate::text::occurs_folded_at(b, needle, at));
    }
    if contains_folded(b, needle) {
        let at = choose|at: int| crate::text::occurs_folded_at(b, needle, at);
        assert forall|j: int| 0 <= j < needle.len() implies crate::text::ascii_lower(#[trigger] a[at + j])
            == crate::text::ascii_lower(needle[j]) by {
            assert(crate::text::ascii_lower(a[at + j]) == crate::text::ascii_lower(b[at + j]));
            assert(crate::text::ascii_lower(b[at + j]) == crate::text::ascii_lower(needle[j]));
        }
        assert(crate::text::occurs_folded_at(a, needle, at));
    }
}

/// The registered identifier of a condition does not depend on the
/// letter case of its description.
pub proof fn lemma_registered_identifier_ignores_case(a: Seq<char>, b: Seq<char>)
    requires
        crate::text::eq_ignore_ascii_case(a, b),
    ensures
        registered_identifier(Some(a)) == registered_identifier(Some(b)),
{
    lemma_folded_occurrence_same(a, b, "japan color 2001 coated"@);
    lemma_folded_occurrence_same(a, b, "japan color 2001 uncoated"@);
    lemma_folded_occurrence_same(a, b, "japan color 2002 newspaper"@);
}

/// With fonts outlined, a PDF/X conversion runs the colour conversion
/// first, then outlines the fonts of the file that run wrote; each run
/// writes a file of its own.
pub proof fn lemma_outlining_reads_color_output(
    rendering_intent: RenderingIntent,
    black_point_compensation: bool,
    dpi: u16,
)
    ensures
        ({
            let mode = ConversionMode::PdfX1a {
                outline_fonts: true,
                rendering_intent,
                black_point_compensation,
                transparency_resolution_dpi: dpi,
            };
            let passes = passes_of(mode);
            &&& passes.len() == 2
            &&& passes[0] == GhostscriptPass::ColorToCmyk
            &&& passes[1] == GhostscriptPass::OutlineFonts
            &&& pass_args(passes[1], rendering_intent, black_point_compensation, dpi).last() == pass_output(passes[0])
            &&& pass_output(passes[0]) != pass_output(passes[1])
            &&& attaches_identification(mode)
        }),
{
    let args = pass_args(GhostscriptPass::OutlineFonts, rendering_intent, black_point_compensation, dpi);
    assert(args.last() == "cmyk.pdf"@);
    reveal_strlit("cmyk.pdf");
    reveal_strlit("outlined.pdf");
    assert("cmyk.pdf"@[0] != "outlined.pdf"@[0]);
}

/// For an input without transparency, validation finds image content
/// retained exactly when the engine's check after a run finds none
/// dropped.
pub proof fn lemma_retained_iff_not_dropped(input: crate::models::InspectionView, output: crate::models::InspectionView)
    requires
        input.transparency.len() == 0,
    ensures
        crate::validator::content_retained(input, output) == !content_dropped(
            pixel_sum(input.images),
            pixel_sum(output.images),
        ),
{
}


/// Whether `s` is ASCII without a path separator.
pub open spec fn plain_ascii_name(s: Seq<char>) -> bool {
    forall|i: int| 0 <= i < s.len() ==> (#[trigger] s[i] as u32) < 0x80 && s[i] != '/' && s[i] != '\\'
}

proof fn lemma_decimal_plain(n: nat)
    ensures
        plain_ascii_name(decimal(n)),
    decreases n,
{
    if n >= 10 {
        lemma_decimal_plain(n / 10);
        let d = decimal(n / 10);
        let s = d.push(crate::text::digit_char(n % 10));
        assert forall|i: int| 0 <= i < s.len() implies (#[trigger] s[i] as u32) < 0x80 && s[i] != '/' && s[i] != '\\' by {
            if i < d.len() {
                assert(s[i] == d[i]);
            }
        }
    }
}

proof fn lemma_concat_plain(a: Seq<char>, b: Seq<char>)
    requires
        plain_ascii_name(a),
        plain_ascii_name(b),
    ensures
        plain_ascii_name(a + b),
{
    assert forall|i: int| 0 <= i < (a + b).len() implies (#[trigger] (a + b)[i] as u32) < 0x80 && (a + b)[i] != '/'
        && (a + b)[i] != '\\' by {
        if i < a.len() {
            assert((a + b)[i] == a[i]);
        } else {
            assert((a + b)[i] == b[i - a.len()]);
        }
    }
}

/// Whether every argument is ASCII without a path separator.
pub open spec fn plain_ascii_args(args: Seq<Seq<char>>) -> bool {
    forall|i: int| 0 <= i < args.len() ==> plain_ascii_name(#[trigger] args[i])
}

proof fn lemma_append_plain_args(a: Seq<Seq<char>>, b: Seq<Seq<char>>)
    requires
        plain_ascii_args(a),
        plain_ascii_args(b),
    ensures
        plain_ascii_args(a + b),
{
    assert forall|i: int| 0 <= i < (a + b).len() implies plain_ascii_name(#[trigger] (a + b)[i]) by {
        if i < a.len() {
            assert((a + b)[i] == a[i]);
        } else {
            assert((a + b)[i] == b[i - a.len()]);
        }
    }
}

proof fn lemma_common_args_plain(output: Seq<char>)
    requires
        plain_ascii_name(output),
    ensures
        plain_ascii_args(common_args(output)),
{
    reveal_strlit("-dSAFER");
    reveal_strlit("-dBATCH");
    reveal_strlit("-dNOPAUSE");
    reveal_strlit("-dPDFSTOPONERROR");
    reveal_strlit("-sDEVICE=pdfwrite");
    reveal_strlit("-sOutputFile=");
    lemma_concat_plain("-sOutputFile="@, output);
    let args = common_args(output);
    assert forall|i: int| 0 <= i < args.len() implies plain_ascii_name(#[trigger] args[i]) by {
        if i == 0 {
            assert(plain_ascii_name("-dSAFER"@));
        } else if i == 1 {
            assert(plain_ascii_name("-dBATCH"@));
        } else if i == 2 {
            assert(plain_ascii_name("-dNOPAUSE"@));
        } else if i == 3 {
            assert(plain_ascii_name("-dPDFSTOPONERROR"@));
        } else if i == 4 {
            assert(plain_ascii_name("-sDEVICE=pdfwrite"@));
        }
    }
}

proof fn lemma_color_args_plain(intent: RenderingIntent, bpc: bool, dpi: u16)
    ensures
        plain_ascii_args(color_args(intent, bpc, dpi)),
{
    let n = decimal(intent_number(intent) as nat);
    let b = decimal(if bpc { 1nat } else { 0nat });
    lemma_decimal_plain(intent_number(intent) as nat);
    lemma_decimal_plain(if bpc { 1nat } else { 0nat });
    lemma_decimal_plain(dpi as nat);
    reveal_strlit("-dCompatibilityLevel=1.3");
    reveal_strlit("-sColorConversionStrategy=CMYK");
    reveal_strlit("-sOutputICCProfile=destination.icc");
    reveal_strlit("-sDefaultRGBProfile=srgb.icc");
    reveal_strlit("-dOverrideICC=false");
    reveal_strlit("-dRenderIntent=");
    reveal_strlit("-dBlackPtComp=");
    reveal_strlit("-dImageIntent=");
    reveal_strlit("-dImageBlackPt=");
    reveal_strlit("-dVectorIntent=1");
    reveal_strlit("-dVectorBlackPt=1");
    reveal_strlit("-dTextIntent=1");
    reveal_strlit("-dTextBlackPt=1");
    reveal_strlit("-r");
    lemma_concat_plain("-dRenderIntent="@, n);
    lemma_concat_plain("-dBlackPtComp="@, b);
    lemma_concat_plain("-dImageIntent="@, n);
    lemma_concat_plain("-dImageBlackPt="@, b);
    lemma_concat_plain("-r"@, decimal(dpi as nat));
    let args = color_args(intent, bpc, dpi);
    assert forall|i: int| 0 <= i < args.len() implies plain_ascii_name(#[trigger] args[i]) by {
        if i == 0 {
            assert(plain_ascii_name("-dCompatibilityLevel=1.3"@));
        } else if i == 1 {
            assert(plain_ascii_name("-sColorConversionStrategy=CMYK"@));
        } else if i == 2 {
            assert(plain_ascii_name("-sOutputICCProfile=destination.icc"@));
        } else if i == 3 {
            assert(plain_ascii_name("-sDefaultRGBProfile=srgb.icc"@));
        } else if i == 4 {
            assert(plain_ascii_name("-dOverrideICC=false"@));
        } else if i == 9 {
            assert(plain_ascii_name("-dVectorIntent=1"@));
        } else if i == 10 {
            assert(plain_ascii_name("-dVectorBlackPt=1"@));
        } else if i == 11 {
            assert(plain_ascii_name("-dTextIntent=1"@));
        } else if i == 12 {
            assert(plain_ascii_name("-dTextBlackPt=1"@));
        }
    }
}

proof fn lemma_literals_plain(a: Seq<char>, b: Seq<char>, c: Seq<char>)
    requires
        plain_ascii_name(a),
        plain_ascii_name(b),
        plain_ascii_name(c),
    ensures
        plain_ascii_args(seq![a, b, c]),
        plain_ascii_args(seq![a, b]),
        plain_ascii_args(seq![a]),
{
    let three = seq![a, b, c];
    let two = seq![a, b];
    let one = seq![a];
    assert forall|i: int| 0 <= i < three.len() implies plain_ascii_name(#[trigger] three[i]) by {
        if i == 0 {
        } else if i == 1 {
        } else {
        }
    }
    assert forall|i: int| 0 <= i < two.len() implies plain_ascii_name(#[trigger] two[i]) by {
        if i == 0 {
        } else {
        }
    }
    assert forall|i: int| 0 <= i < one.len() implies plain_ascii_name(#[trigger] one[i]) by {
    }
}

/// Every argument of every run is ASCII and names files only relative to
/// the working directory: no argument holds a path separator. Paths with
/// other characters never reach Ghostscript's command line.
pub proof fn lemma_pass_arguments_are_plain_ascii(pass: GhostscriptPass, intent: RenderingIntent, bpc: bool, dpi: u16)
    ensures
        plain_ascii_args(pass_args(pass, intent, bpc, dpi)),
{
    reveal_strlit("output.pdf");
    reveal_strlit("cmyk.pdf");
    reveal_strlit("outlined.pdf");
    reveal_strlit("input.pdf");
    reveal_strlit("-dNoOutputFonts");
    reveal_strlit("-dCompatibilityLevel=1.7");
    reveal_strlit("-dCompatibilityLevel=1.3");
    reveal_strlit("--permit-file-read=destination.icc");
    reveal_strlit("--permit-file-read=open_print_pdf_pdfx_metadata.xmp");
    reveal_strlit("-dPDFX=1");
    reveal_strlit("open_print_pdf_pdfx_definition.ps");
    assert(plain_ascii_name("output.pdf"@));
    assert(plain_ascii_name("cmyk.pdf"@));
    assert(plain_ascii_name("outlined.pdf"@));
    assert(plain_ascii_name("input.pdf"@));
    assert(plain_ascii_name("-dNoOutputFonts"@));
    assert(plain_ascii_name("-dCompatibilityLevel=1.7"@));
    assert(plain_ascii_name("-dCompatibilityLevel=1.3"@));
    assert(plain_ascii_name("--permit-file-read=destination.icc"@));
    assert(plain_ascii_name("--permit-file-read=open_print_pdf_pdfx_metadata.xmp"@));
    assert(plain_ascii_name("-dPDFX=1"@));
    assert(plain_ascii_name("open_print_pdf_pdfx_definition.ps"@));
    lemma_color_args_plain(intent, bpc, dpi);
    match pass {
        GhostscriptPass::OutlineOnly => {
            lemma_common_args_plain("output.pdf"@);
            lemma_literals_plain("-dNoOutputFonts"@, "-dCompatibilityLevel=1.7"@, "input.pdf"@);
            lemma_append_plain_args(
                common_args("output.pdf"@),
                seq!["-dNoOutputFonts"@, "-dCompatibilityLevel=1.7"@, "input.pdf"@],
            );
        },
        GhostscriptPass::ColorToCmyk => {
            lemma_common_args_plain("cmyk.pdf"@);
            lemma_literals_plain("--permit-file-read=destination.icc"@, "input.pdf"@, "input.pdf"@);
            let a = seq!["--permit-file-read=destination.icc"@];
            lemma_append_plain_args(a, common_args("cmyk.pdf"@));
            lemma_append_plain_args(a + common_args("cmyk.pdf"@), color_args(intent, bpc, dpi));
            lemma_literals_plain("input.pdf"@, "input.pdf"@, "input.pdf"@);
            lemma_append_plain_args(a + common_args("cmyk.pdf"@) + color_args(intent, bpc, dpi), seq!["input.pdf"@]);
        },
        GhostscriptPass::OutlineFonts => {
            lemma_common_args_plain("outlined.pdf"@);
            lemma_literals_plain("-dNoOutputFonts"@, "-dCompatibilityLevel=1.3"@, "cmyk.pdf"@);
            lemma_append_plain_args(
                common_args("outlined.pdf"@),
                seq!["-dNoOutputFonts"@, "-dCompatibilityLevel=1.3"@, "cmyk.pdf"@],
            );
        },
        GhostscriptPass::ConvertAndDeclare => {
            lemma_common_args_plain("output.pdf"@);
            let a = seq![
                "--permit-file-read=destination.icc"@,
                "--permit-file-read=open_print_pdf_pdfx_metadata.xmp"@,
            ];
            lemma_literals_plain(
                "--permit-file-read=destination.icc"@,
                "--permit-file-read=open_print_pdf_pdfx_metadata.xmp"@,
                "-dPDFX=1"@,
            );
            lemma_literals_plain("-dPDFX=1"@, "-dPDFX=1"@, "-dPDFX=1"@);
            lemma_literals_plain("open_print_pdf_pdfx_definition.ps"@, "input.pdf"@, "input.pdf"@);
            lemma_append_plain_args(a, common_args("output.pdf"@));
            lemma_append_plain_args(a + common_args("output.pdf"@), seq!["-dPDFX=1"@]);
            lemma_append_plain_args(a + common_args("output.pdf"@) + seq!["-dPDFX=1"@], color_args(intent, bpc, dpi));
            lemma_append_plain_args(
                a + common_args("output.pdf"@) + seq!["-dPDFX=1"@] + color_args(intent, bpc, dpi),
                seq!["open_print_pdf_pdfx_definition.ps"@, "input.pdf"@],
            );
        },
    }
}

/// Every run that converts colours rasterizes transparency at the
/// resolution the mode asks for: its arguments hold `-r` followed by `dpi`
/// in decimal. This holds of the single PDF/X-1a run as of the colour run
/// that precedes outlining.
pub proof fn lemma_color_runs_use_requested_resolution(
    pass: GhostscriptPass,
    intent: RenderingIntent,
    bpc: bool,
    dpi: u16,
)
    requires
        pass is ColorToCmyk || pass is ConvertAndDeclare,
    ensures
        pass_args(pass, intent, bpc, dpi).contains("-r"@ + decimal(dpi as nat)),
{
    let args = pass_args(pass, intent, bpc, dpi);
    let color = color_args(intent, bpc, dpi);
    assert(color[13] == "-r"@ + decimal(dpi as nat));
    if pass is ColorToCmyk {
        let front = seq!["--permit-file-read=destination.icc"@] + common_args("cmyk.pdf"@);
        assert(args == front + color + seq!["input.pdf"@]);
        assert(front.len() == 7);
        assert(args[20] == color[13]);
    } else {
        let front = seq![
            "--permit-file-read=destination.icc"@,
            "--permit-file-read=open_print_pdf_pdfx_metadata.xmp"@,
        ] + common_args("output.pdf"@) + seq!["-dPDFX=1"@];
        assert(args == front + color + seq!["open_print_pdf_pdfx_definition.ps"@, "input.pdf"@]);
        assert(front.len() == 9);
        assert(args[22] == color[13]);
    }
}

} // verus!
