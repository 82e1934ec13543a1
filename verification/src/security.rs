//! Limits and checks on untrusted input and output paths.
use vstd::prelude::*;
use crate::error::OpenPrintPdfError;
use crate::text::{
    append_decimal, ascii_lower, contains_chars, contains_folded, decimal, eq_ignore_ascii_case, occurs_at, occurs_folded_at,
    str_eq_ignore_ascii_case,
};

verus! {

pub const MAX_INPUT_PDF_BYTES: u64 = 512 * 1024 * 1024;
pub const MAX_ICC_PROFILE_BYTES: u64 = 64 * 1024 * 1024;
pub const MAX_OUTPUT_PDF_BYTES: u64 = 2 * 1024 * 1024 * 1024;
pub const MAX_GHOSTSCRIPT_LOG_BYTES: u64 = 8 * 1024 * 1024;
pub const MAX_PDF_PAGES: usize = 2_000;
pub const MAX_PDF_OBJECTS: usize = 1_000_000;

/// A path separator on some platform: `/` everywhere, `\\` on Windows.
pub open spec fn is_separator(c: char) -> bool {
    c == '/' || c == '\\'
}

/// Whether `path` ends in a plain file name that starts at `start`: a
/// name that is neither `.` nor `..`, holds no separator and no `:`, and
/// follows a separator or starts the path, in a path that does not start
/// with two separators. Such a name is the path's last component on every
/// platform: there is no Windows prefix it could belong to, and where `\\`
/// is no separator the last component only grows to the left.
pub open spec fn plain_file_name(path: Seq<char>, start: int) -> bool {
    &&& 0 <= start < path.len()
    &&& start == 0 || is_separator(path[start - 1])
    &&& forall|i: int| start <= i < path.len() ==> !is_separator(#[trigger] path[i]) && path[i] != ':'
    &&& path.subrange(start, path.len() as int) != seq!['.']
    &&& path.subrange(start, path.len() as int) != seq!['.', '.']
    &&& !(path.len() >= 2 && is_separator(path[0]) && is_separator(path[1]))
}

/// Whether `path` ends in a plain file name whose last dot is at `dot`,
/// with something before it in the name and something after it: what
/// follows the dot is then the path's extension on every platform.
pub open spec fn extension_at(path: Seq<char>, dot: int) -> bool {
    &&& exists|start: int| #[trigger] plain_file_name(path, start) && start < dot
    &&& dot < path.len() - 1
    &&& path[dot] == '.'
    &&& forall|i: int| dot < i < path.len() ==> #[trigger] path[i] != '.'
}

/// Whether `path` ends in a plain file name that follows a `/` or starts
/// the path and has no dot but perhaps its first character: the path then
/// has no extension on any platform.
pub open spec fn has_no_extension(path: Seq<char>) -> bool {
    exists|start: int|
        #[trigger] plain_file_name(path, start) && (start == 0 || path[start - 1] == '/') && forall|i: int|
            start < i < path.len() ==> #[trigger] path[i] != '.'
}

/// Whether `a` and `b` end in plain file names that differ. Those names
/// are the paths' last components on every platform, so the paths are
/// then different.
pub open spec fn plain_names_differ(a: Seq<char>, b: Seq<char>) -> bool {
    exists|sa: int, sb: int|
        #[trigger] plain_file_name(a, sa) && #[trigger] plain_file_name(b, sb) && a.skip(sa) != b.skip(sb)
}

/// `std::path::Path::extension`: the part of the file name after its last
/// dot, if the file name has one that does not start it. Stated for paths
/// whose last component is a plain file name the same on every platform:
/// there the extension is what follows the name's last dot, or there is
/// none. For other paths which component is the last depends on the
/// platform's separators and prefixes, and only this is stated: an
/// extension found has no dot and stands in `path` right after a dot.
#[verifier::external_body]
fn path_extension(path: &str) -> (r: Option<String>)
    ensures
        r matches Some(e) ==> !e@.contains('.') && contains_chars(path@, seq!['.'] + e@),
        forall|dot: int| #[trigger] extension_at(path@, dot) ==> r is Some && r.unwrap()@ == path@.skip(dot + 1),
        has_no_extension(path@) ==> r is None,
{
    std::path::Path::new(path).extension().map(|e| e.to_string_lossy().into_owned())
}

/// Whether an extension, where there is one, is `expected` but for ASCII
/// case.
pub open spec fn extension_is(extension: Option<Seq<char>>, expected: Seq<char>) -> bool {
    match extension {
        Some(e) => eq_ignore_ascii_case(e, expected),
        None => false,
    }
}

/// Whether `extension`, where there is one, is `expected` but for ASCII
/// case.
pub fn extension_matches(extension: Option<&str>, expected: &str) -> (r: bool)
    ensures
        r == extension_is(
            match extension {
                Some(e) => Some(e@),
                None => None,
            },
            expected@,
        ),
{
    match extension {
        Some(e) => str_eq_ignore_ascii_case(e, expected),
        None => false,
    }
}

/// Whether the extension the platform reads in `path` is `expected` but
/// for ASCII case. Where the path ends in a plain file name, that is
/// whether what follows the name's last dot is `expected`, and a name
/// without a dot after its first character has none. Otherwise it is only
/// where `path` holds a dot followed by `expected` in some letter case, and
/// never for a path without a dot.
pub fn has_extension(path: &str, expected: &str) -> (r: bool)
    ensures
        forall|dot: int| #[trigger] extension_at(path@, dot) ==> r == eq_ignore_ascii_case(
            path@.subrange(dot + 1, path@.len() as int),
            expected@,
        ),
        has_no_extension(path@) ==> !r,
        r ==> contains_folded(path@, seq!['.'] + expected@),
        !path@.contains('.') ==> !r,
{
    let extension = path_extension(path);
    match extension {
        Some(e) => {
            let r = extension_matches(Some(e.as_str()), expected);
            proof {
                if r {
                    let needle = seq!['.'] + e@;
                    let folded = seq!['.'] + expected@;
                    let at = choose|at: int| occurs_at(path@, needle, at);
                    assert(path@.subrange(at, at + needle.len()) == needle);
                    assert forall|j: int| 0 <= j < folded.len() implies ascii_lower(#[trigger] path@[at + j])
                        == ascii_lower(folded[j]) by {
                        assert(path@[at + j] == path@.subrange(at, at + needle.len())[j]);
                        if j > 0 {
                            assert(needle[j] == e@[j - 1]);
                            assert(folded[j] == expected@[j - 1]);
                        }
                    }
                    assert(occurs_folded_at(path@, folded, at));
                    assert(path@[at] == path@.subrange(at, at + needle.len())[0]);
                    assert(needle[0] == '.');
                    assert(path@[at] == '.');
                    assert(path@.contains('.'));
                }
            }
            r
        },
        None => extension_matches(None, expected),
    }
}

/// Refuses a document with more pages or objects than the limits allow.
pub fn validate_document_complexity(page_count: usize, object_count: usize) -> (r: Result<(), OpenPrintPdfError>)
    ensures
        page_count > MAX_PDF_PAGES ==> (r matches Err(OpenPrintPdfError::ResourceLimitExceeded(m))
            && m@ == "PDF has "@ + decimal(page_count as nat) + " pages; maximum is "@ + decimal(2000)),
        page_count <= MAX_PDF_PAGES && object_count > MAX_PDF_OBJECTS ==> (r matches Err(
            OpenPrintPdfError::ResourceLimitExceeded(m),
        ) && m@ == "PDF has "@ + decimal(object_count as nat) + " objects; maximum is "@ + decimal(1000000)),
        r is Ok <==> page_count <= MAX_PDF_PAGES && object_count <= MAX_PDF_OBJECTS,
{
    if page_count > MAX_PDF_PAGES {
        let mut m = String::from_str("PDF has ");
        append_decimal(&mut m, page_count as u64);
        m.append(" pages; maximum is ");
        append_decimal(&mut m, 2000);
        return Err(OpenPrintPdfError::ResourceLimitExceeded(m));
    }
    if object_count > MAX_PDF_OBJECTS {
        let mut m = String::from_str("PDF has ");
        append_decimal(&mut m, object_count as u64);
        m.append(" objects; maximum is ");
        append_decimal(&mut m, 1000000);
        return Err(OpenPrintPdfError::ResourceLimitExceeded(m));
    }
    Ok(())
}

/// The first check on an input PDF: its name must have the `.pdf`
/// extension (`has_pdf_extension`, as `has_extension` finds it).
pub fn check_pdf_extension(path: &str, has_pdf_extension: bool) -> (r: Result<(), OpenPrintPdfError>)
    ensures
        r is Ok <==> has_pdf_extension,
        r matches Err(e) ==> (e matches OpenPrintPdfError::UnsafeInput(m) && m@ == "input must have a .pdf extension: "@ + path@),
{
    if !has_pdf_extension {
        let mut m = String::from_str("input must have a .pdf extension: ");
        m.append(path);
        return Err(OpenPrintPdfError::UnsafeInput(m));
    }
    Ok(())
}

/// The second check on an input PDF, on what the file system reports: it
/// must be a regular file of 1 byte to `MAX_INPUT_PDF_BYTES`.
pub fn check_pdf_metadata(path: &str, is_file: bool, len: u64) -> (r: Result<(), OpenPrintPdfError>)
    ensures
        !is_file ==> (r matches Err(OpenPrintPdfError::UnsafeInput(m))
            && m@ == "input is not a regular file: "@ + path@),
        is_file && (len == 0 || len > MAX_INPUT_PDF_BYTES) ==> (r matches Err(
            OpenPrintPdfError::ResourceLimitExceeded(m),
        ) && m@ == "PDF size must be between 1 byte and "@ + decimal(512) + " MiB (actual: "@
            + decimal(len as nat) + " bytes)"@),
        r is Ok <==> is_file && 0 < len <= MAX_INPUT_PDF_BYTES,
{
    if !is_file {
        let mut m = String::from_str("input is not a regular file: ");
        m.append(path);
        return Err(OpenPrintPdfError::UnsafeInput(m));
    }
    if len == 0 || len > MAX_INPUT_PDF_BYTES {
        let mut m = String::from_str("PDF size must be between 1 byte and ");
        append_decimal(&mut m, 512);
        m.append(" MiB (actual: ");
        append_decimal(&mut m, len);
        m.append(" bytes)");
        return Err(OpenPrintPdfError::ResourceLimitExceeded(m));
    }
    Ok(())
}

/// Whether `header` holds `%PDF-` somewhere.
pub open spec fn has_pdf_signature(header: Seq<u8>) -> bool {
    exists|at: int| 0 <= at && at + 5 <= header.len() && #[trigger] header.subrange(at, at + 5) == seq![37u8, 80u8, 68u8, 70u8, 45u8]
}

/// The last check on an input PDF, on the first bytes of the file (at most
/// 1024): they must hold the signature `%PDF-`.
pub fn check_pdf_signature(header: &[u8]) -> (r: Result<(), OpenPrintPdfError>)
    ensures
        r is Ok <==> has_pdf_signature(header@),
        r matches Err(e) ==> (e matches OpenPrintPdfError::UnsafeInput(m) && m@ == "PDF signature was not found in the first 1024 bytes"@),
{
    let mut at: usize = 0;
    if header.len() < 5 {
        return Err(OpenPrintPdfError::UnsafeInput(String::from_str("PDF signature was not found in the first 1024 bytes")));
    }
    while at <= header.len() - 5
        invariant
            header.len() >= 5,
            at <= header.len(),
            forall|k: int| 0 <= k < at && k + 5 <= header@.len() ==> #[trigger] header@.subrange(k, k + 5)
                != seq![37u8, 80u8, 68u8, 70u8, 45u8],
        decreases header.len() - at,
    {
        if header[at] == 37 && header[at + 1] == 80 && header[at + 2] == 68 && header[at + 3] == 70
            && header[at + 4] == 45 {
            assert(header@.subrange(at as int, at + 5) =~= seq![37u8, 80u8, 68u8, 70u8, 45u8]);
            return Ok(());
        }
        assert(header@.subrange(at as int, at + 5)[0] == header@[at as int]);
        assert(header@.subrange(at as int, at + 5)[1] == header@[at + 1]);
        assert(header@.subrange(at as int, at + 5)[2] == header@[at + 2]);
        assert(header@.subrange(at as int, at + 5)[3] == header@[at + 3]);
        assert(header@.subrange(at as int, at + 5)[4] == header@[at + 4]);
        at = at + 1;
    }
    Err(OpenPrintPdfError::UnsafeInput(String::from_str("PDF signature was not found in the first 1024 bytes")))
}

/// Accepts an output path only for a new `.pdf` file: it must have the
/// extension (`has_pdf_extension`, as `has_extension` finds it), must not
/// exist, and its parent must not be something other than a directory.
/// `already_exists` and `parent_is_not_directory` are what the file system
/// reports.
pub fn validate_new_pdf_output(
    path: &str,
    has_pdf_extension: bool,
    already_exists: bool,
    parent_is_not_directory: bool,
) -> (r: Result<(), OpenPrintPdfError>)
    ensures
        r is Ok <==> has_pdf_extension && !already_exists && !parent_is_not_directory,
        r matches Err(e) ==> (e matches OpenPrintPdfError::UnsafeOutput(p) && p@ == path@),
{
    if !has_pdf_extension || already_exists || parent_is_not_directory {
        return Err(OpenPrintPdfError::UnsafeOutput(String::from_str(path)));
    }
    Ok(())
}

/// The first check on a colour profile: its name must have the `.icc` or
/// `.icm` extension (`has_profile_extension`, as `has_extension` finds
/// either).
pub fn check_icc_extension(path: &str, has_profile_extension: bool) -> (r: Result<(), OpenPrintPdfError>)
    ensures
        r is Ok <==> has_profile_extension,
        r matches Err(e) ==> (e matches OpenPrintPdfError::UnsafeInput(m) && m@ == "color profile must have an .icc or .icm extension: "@ + path@),
{
    if !has_profile_extension {
        let mut m = String::from_str("color profile must have an .icc or .icm extension: ");
        m.append(path);
        return Err(OpenPrintPdfError::UnsafeInput(m));
    }
    Ok(())
}

/// The second check on a colour profile, on what the file system reports:
/// a regular file of 1 byte to `MAX_ICC_PROFILE_BYTES`.
pub fn check_icc_metadata(is_file: bool, len: u64) -> (r: Result<(), OpenPrintPdfError>)
    ensures
        r is Ok <==> is_file && 0 < len <= MAX_ICC_PROFILE_BYTES,
        r matches Err(e) ==> (e matches OpenPrintPdfError::ResourceLimitExceeded(m) && m@ == "ICC profile must be a regular file no larger than "@ + decimal(64) + " MiB"@),
{
    if !is_file || len == 0 || len > MAX_ICC_PROFILE_BYTES {
        let mut m = String::from_str("ICC profile must be a regular file no larger than ");
        append_decimal(&mut m, 64);
        m.append(" MiB");
        return Err(OpenPrintPdfError::ResourceLimitExceeded(m));
    }
    Ok(())
}

} // verus!
