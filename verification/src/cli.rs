//! Texts of the command-line tool: default output names and the notice
//! given before a conversion flattens transparent pages.
use vstd::prelude::*;
use crate::paths::{
    ends_in_plain_name, file_stem_of, lemma_join_adds_part, lemma_last_dot_bounds,
    lemma_plain_name_is_last_part, path_shape, plain_segment, portable_path, with_part, without_last_part,
};
use crate::security::{is_separator, plain_file_name};
use crate::text::{join_numbers, joined_decimals, strings_view};

verus! {

/// The default output file name for an input named `stem` (without its
/// extension): `{stem}-{suffix}.pdf`.
pub open spec fn output_name(stem: Seq<char>, suffix: Seq<char>) -> Seq<char> {
    stem + "-"@ + suffix + ".pdf"@
}

/// The default output file name beside an input whose name without its
/// extension is `stem` (empty where the input has no file name).
pub fn default_output_name(stem: Option<&str>, suffix: &str) -> (r: String)
    ensures
        r@ == output_name(
            match stem {
                Some(s) => s@,
                None => Seq::empty(),
            },
            suffix@,
        ),
{
    let mut r = match stem {
        Some(s) => String::from_str(s),
        None => String::new(),
    };
    r.append("-");
    r.append(suffix);
    r.append(".pdf");
    r
}

/// `std::path::Path::parent`: the path without its last component, as a
/// part of the path's text. Stated for portable paths that end in a plain
/// file name: there the parent is a portable path with the same root and
/// leading `.` and the same components but the last.
#[verifier::external_body]
fn path_parent(path: &str) -> (r: Option<String>)
    ensures
        portable_path(path@) && ends_in_plain_name(path@) ==> r is Some && portable_path(r.unwrap()@) && path_shape(
            r.unwrap()@,
        ) == without_last_part(path_shape(path@)),
{
    std::path::Path::new(path).parent().map(|p| p.to_string_lossy().into_owned())
}

/// `std::path::Path::file_stem`: the file name without its extension.
/// Stated for portable paths that end in a plain file name, which is then
/// the file name on every platform.
#[verifier::external_body]
fn path_file_stem(path: &str) -> (r: Option<String>)
    ensures
        forall|start: int| portable_path(path@) && #[trigger] plain_file_name(path@, start) ==> r is Some && r.unwrap()@
            == file_stem_of(path@.skip(start)),
{
    std::path::Path::new(path).file_stem().map(|s| s.to_string_lossy().into_owned())
}

/// `std::path::Path::join`: `name` added to `base`. Stated for a portable
/// `base` and a plain `name`: the two are put together as they are where
/// `base` is empty or ends in `/`, and otherwise with the platform's
/// separator between them.
#[verifier::external_body]
fn path_join(base: &str, name: &str) -> (r: String)
    ensures
        portable_path(base@) && plain_segment(name@) && (base@.len() == 0 || base@.last() == '/') ==> r@ == base@ + name@,
        portable_path(base@) && plain_segment(name@) && !(base@.len() == 0 || base@.last() == '/') ==> r@ == base@.push(
            r@[base@.len() as int],
        ) + name@ && is_separator(r@[base@.len() as int]),
{
    std::path::Path::new(base).join(name).to_string_lossy().into_owned()
}

/// The file name made from the stem of a plain file name and a suffix
/// without separator or `:` is itself a plain component.
proof fn lemma_output_name_is_plain(file_name: Seq<char>, suffix: Seq<char>)
    requires
        forall|i: int| 0 <= i < file_name.len() ==> !is_separator(#[trigger] file_name[i]) && file_name[i] != ':',
        forall|i: int| 0 <= i < suffix.len() ==> !is_separator(#[trigger] suffix[i]) && suffix[i] != ':',
    ensures
        plain_segment(output_name(file_stem_of(file_name), suffix)),
{
    reveal_strlit("-");
    reveal_strlit(".pdf");
    lemma_last_dot_bounds(file_name);
    let stem = file_stem_of(file_name);
    let n = output_name(stem, suffix);
    assert(stem.len() <= file_name.len());
    assert forall|i: int| 0 <= i < stem.len() implies stem[i] == file_name[i] by {}
    assert(n.len() >= 5);
    assert forall|i: int| 0 <= i < n.len() implies !is_separator(#[trigger] n[i]) && n[i] != ':' by {
        let a = stem + "-"@;
        let b = a + suffix;
        assert(n == b + ".pdf"@);
        if i < stem.len() {
            assert(n[i] == stem[i]);
            assert(stem[i] == file_name[i]);
        } else if i < a.len() {
            assert(n[i] == '-');
        } else if i < b.len() {
            assert(n[i] == suffix[i - a.len()]);
        } else {
            assert(n[i] == ".pdf"@[i - b.len()]);
        }
    }
}

/// Where the output of a command goes when none is given: beside the input,
/// named `{stem}-{suffix}.pdf` after the input's file name without its
/// extension. For a portable input ending in a plain file name, and a
/// suffix without separator or `:`, the output has the input's components
/// with the file name replaced by that name.
pub fn default_output(input: &str, suffix: &str) -> (r: String)
    ensures
        forall|start: int| portable_path(input@) && #[trigger] plain_file_name(input@, start) && (forall|i: int|
            0 <= i < suffix@.len() ==> !is_separator(#[trigger] suffix@[i]) && suffix@[i] != ':') ==> path_shape(
            input@,
        ).parts.last() == input@.skip(start) && path_shape(r@) == with_part(
            without_last_part(path_shape(input@)),
            output_name(file_stem_of(input@.skip(start)), suffix@),
        ),
{
    let parent = match path_parent(input) {
        Some(p) => p,
        None => String::from_str("."),
    };
    let stem = path_file_stem(input);
    let name = match &stem {
        Some(s) => default_output_name(Some(s.as_str()), suffix),
        None => default_output_name(None, suffix),
    };
    let r = path_join(parent.as_str(), name.as_str());
    proof {
        assert forall|start: int| portable_path(input@) && #[trigger] plain_file_name(input@, start) && (forall|i: int|
            0 <= i < suffix@.len() ==> !is_separator(#[trigger] suffix@[i]) && suffix@[i] != ':') implies path_shape(
            input@,
        ).parts.last() == input@.skip(start) && path_shape(r@) == with_part(
            without_last_part(path_shape(input@)),
            output_name(file_stem_of(input@.skip(start)), suffix@),
        ) by {
            lemma_plain_name_is_last_part(input@, start);
            assert(ends_in_plain_name(input@));
            let file_name = input@.skip(start);
            assert forall|i: int| 0 <= i < file_name.len() implies !is_separator(#[trigger] file_name[i])
                && file_name[i] != ':' by {
                assert(file_name[i] == input@[start + i]);
            }
            lemma_output_name_is_plain(file_name, suffix@);
            lemma_join_adds_part(parent@, name@, r@);
        }
    }
    r
}

/// The notice printed before converting a document with transparency on
/// `pages`.
pub open spec fn notice_lines(pages: Seq<u32>) -> Seq<Seq<char>> {
    seq![
        "WARNING: This PDF contains transparency on page(s): "@ + joined_decimals(pages),
        "Those pages will be flattened to an 8-bit DeviceCMYK image at the configured resolution."@,
        "Text and line art on those pages will also become raster data; conversion will continue."@,
    ]
}

/// The notice printed before converting a document with transparency on
/// `pages`.
pub fn transparency_notice(pages: &[u32]) -> (r: Vec<String>)
    ensures
        strings_view(r@) == notice_lines(pages@),
{
    let mut first = String::from_str("WARNING: This PDF contains transparency on page(s): ");
    let list = join_numbers(pages);
    first.append(list.as_str());
    let mut r: Vec<String> = Vec::new();
    r.push(first);
    r.push(String::from_str("Those pages will be flattened to an 8-bit DeviceCMYK image at the configured resolution."));
    r.push(String::from_str("Text and line art on those pages will also become raster data; conversion will continue."));
    assert(strings_view(r@) =~= notice_lines(pages@));
    r
}

} // verus!
