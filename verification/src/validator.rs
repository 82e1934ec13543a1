//! Judging a converted document against its input.
use vstd::prelude::*;
use crate::conversion::ConversionMode;
use crate::models::{
    FontInfo, FontView, ImageInfo, ImageView, InspectionView, PdfInspectionResult, TransparencyView, count_cmyk,
    count_rgb, fonts_view, images_view, opt_chars, transparency_view,
};
use crate::text::{append_decimal, append_decimal_wide, contains_chars, decimal, opt_str_equal, str_contains, str_equal, strings_view};

verus! {

/// The pixels of an image whose width and height are known and not
/// negative; else none.
pub open spec fn image_pixel_count(image: ImageView) -> nat {
    match (image.width, image.height) {
        (Some(w), Some(h)) => if w >= 0 && h >= 0 { (w * h) as nat } else { 0 },
        _ => 0,
    }
}

/// The pixels of all images.
pub open spec fn pixel_sum(images: Seq<ImageView>) -> nat
    decreases images.len(),
{
    if images.len() == 0 {
        0
    } else {
        pixel_sum(images.drop_last()) + image_pixel_count(images.last())
    }
}

/// The pixels of one image.
fn image_pixels_of(image: &ImageInfo) -> (r: u128)
    ensures
        r == image_pixel_count(image@),
{
    match (image.width, image.height) {
        (Some(w), Some(h)) => {
            if w >= 0 && h >= 0 {
                let a = w as u128;
                let b = h as u128;
                assert(a * b <= 0x7fff_ffff_ffff_ffff * 0x7fff_ffff_ffff_ffff) by (nonlinear_arith)
                    requires
                        a <= 0x7fff_ffff_ffff_ffff,
                        b <= 0x7fff_ffff_ffff_ffff,
                ;
                a * b
            } else {
                0
            }
        },
        _ => 0,
    }
}

/// The pixels of all images of a document whose widths and heights are
/// known. The sum is taken as the integer it is; it must fit in 128 bits.
pub fn total_image_pixels(document: &PdfInspectionResult) -> (r: u128)
    requires
        pixel_sum(document@.images) <= u128::MAX,
    ensures
        r == pixel_sum(document@.images),
{
    let mut total: u128 = 0;
    let mut i: usize = 0;
    while i < document.images.len()
        invariant
            i <= document.images.len(),
            pixel_sum(document@.images) <= u128::MAX,
            total == pixel_sum(images_view(document.images@.take(i as int))),
        decreases document.images.len() - i,
    {
        let ghost v = images_view(document.images@.take(i + 1));
        assert(v.drop_last() =~= images_view(document.images@.take(i as int)));
        proof {
            lemma_pixel_sum_prefix(images_view(document.images@), i + 1);
            assert(images_view(document.images@).take(i + 1) =~= v);
        }
        total = total + image_pixels_of(&document.images[i]);
        i = i + 1;
    }
    assert(document.images@.take(i as int) =~= document.images@);
    total
}

/// Whether the pixels of all images of a document fit in 128 bits, as
/// their total must.
pub fn pixels_fit(document: &PdfInspectionResult) -> (r: bool)
    ensures
        r == (pixel_sum(document@.images) <= u128::MAX),
{
    let mut total: u128 = 0;
    let mut i: usize = 0;
    while i < document.images.len()
        invariant
            i <= document.images.len(),
            total == pixel_sum(images_view(document.images@.take(i as int))),
        decreases document.images.len() - i,
    {
        let ghost v = images_view(document.images@.take(i + 1));
        assert(v.drop_last() =~= images_view(document.images@.take(i as int)));
        match total.checked_add(image_pixels_of(&document.images[i])) {
            Some(t) => {
                total = t;
            },
            None => {
                proof {
                    lemma_pixel_sum_prefix(images_view(document.images@), i + 1);
                    assert(images_view(document.images@).take(i + 1) =~= v);
                }
                return false;
            },
        }
        i = i + 1;
    }
    assert(document.images@.take(i as int) =~= document.images@);
    true
}

/// The pixels of a prefix are at most those of the whole.
pub proof fn lemma_pixel_sum_prefix(images: Seq<ImageView>, n: int)
    requires
        0 <= n <= images.len(),
    ensures
        pixel_sum(images.take(n)) <= pixel_sum(images),
    decreases images.len() - n,
{
    if n < images.len() {
        lemma_pixel_sum_prefix(images, n + 1);
        assert(images.take(n + 1).drop_last() =~= images.take(n));
    } else {
        assert(images.take(n) =~= images);
    }
}

/// Each number of `s` is smaller than the next.
pub open spec fn strictly_increasing(s: Seq<u32>) -> bool {
    forall|i: int, j: int| 0 <= i < j < s.len() ==> s[i] < s[j]
}

/// Whether some finding of `t` is on page `page`.
pub open spec fn has_finding_on(t: Seq<TransparencyView>, page: u32) -> bool {
    exists|k: int| 0 <= k < t.len() && #[trigger] t[k].page_number == page
}

/// The pages with transparency, each once, in increasing order.
#[verifier::spinoff_prover]
pub fn transparency_pages(document: &PdfInspectionResult) -> (r: Vec<u32>)
    ensures
        strictly_increasing(r@),
        forall|p: u32| r@.contains(p) <==> has_finding_on(document@.transparency, p),
{
    let mut out: Vec<u32> = Vec::new();
    let mut i: usize = 0;
    while i < document.transparency.len()
        invariant
            i <= document.transparency.len(),
            strictly_increasing(out@),
            forall|p: u32| out@.contains(p) <==> has_finding_on(transparency_view(document.transparency@.take(i as int)), p),
        decreases document.transparency.len() - i,
    {
        let p = document.transparency[i].page_number;
        let ghost before = out@;
        let ghost t_old = transparency_view(document.transparency@.take(i as int));
        let ghost t_new = transparency_view(document.transparency@.take(i + 1));
        assert(t_new =~= t_old.push(document.transparency@[i as int]@));
        let mut pos: usize = 0;
        while pos < out.len() && out[pos] < p
            invariant
                pos <= out.len(),
                out@ == before,
                forall|k: int| 0 <= k < pos ==> out@[k] < p,
            decreases out.len() - pos,
        {
            pos = pos + 1;
        }
        if pos < out.len() && out[pos] == p {
        } else {
            out.insert(pos, p);
            assert forall|a: int, b: int| 0 <= a < b < out@.len() implies out@[a] < out@[b] by {
                if b < pos {
                } else if b == pos {
                } else if a < pos {
                    assert(before[a] < p);
                    assert(p < before[b - 1] || b - 1 == pos);
                    if b - 1 > pos as int {
                        assert(before[pos as int] < before[b - 1]);
                    }
                } else if a == pos {
                    assert(before[pos as int] > p);
                    if b - 1 > pos as int {
                        assert(before[pos as int] < before[b - 1]);
                    }
                } else {
                }
            }
        }
        assert forall|q: u32| out@.contains(q) <==> has_finding_on(t_new, q) by {
            if has_finding_on(t_new, q) {
                let k = choose|k: int| 0 <= k < t_new.len() && #[trigger] t_new[k].page_number == q;
                if k < t_old.len() {
                    assert(t_old[k].page_number == q);
                    assert(before.contains(q));
                    let w = choose|w: int| 0 <= w < before.len() && before[w] == q;
                    if out@ != before {
                        if w < pos {
                            assert(out@[w] == q);
                        } else {
                            assert(out@[w + 1] == q);
                        }
                    }
                } else {
                    assert(q == p);
                    if out@ == before {
                        assert(out@[pos as int] == p);
                    } else {
                        assert(out@[pos as int] == p);
                    }
                }
            }
            if out@.contains(q) {
                let w = choose|w: int| 0 <= w < out@.len() && out@[w] == q;
                if out@ != before && w == pos {
                    assert(t_new[i as int].page_number == q);
                } else if out@ != before {
                    if w < pos {
                        assert(before[w] == q);
                    } else {
                        assert(before[w - 1] == q);
                    }
                    assert(before.contains(q));
                    let k = choose|k: int| 0 <= k < t_old.len() && #[trigger] t_old[k].page_number == q;
                    assert(t_new[k].page_number == q);
                } else {
                    assert(before.contains(q));
                    let k = choose|k: int| 0 <= k < t_old.len() && #[trigger] t_old[k].page_number == q;
                    assert(t_new[k].page_number == q);
                }
            }
        }
        i = i + 1;
    }
    assert(document.transparency@.take(i as int) =~= document.transparency@);
    out
}

/// What a validation found.
#[derive(Clone, Debug, PartialEq, Eq)]
pub struct ConversionValidationResult {
    pub passed: bool,
    pub readable: bool,
    pub page_count_matches: bool,
    pub page_boxes_match: bool,
    pub fonts_remaining: usize,
    pub type3_fonts_remaining: usize,
    pub rgb_images_remaining: usize,
    pub cmyk_images: usize,
    pub image_content_retained: bool,
    pub transparency_remaining: usize,
    pub pdf_version: String,
    pub pdfx_claim: Option<String>,
    pub output_intent_matches: bool,
    pub warnings: Vec<String>,
    pub errors: Vec<String>,
}

/// A validation result, with its texts as characters.
pub struct ValidationView {
    pub passed: bool,
    pub readable: bool,
    pub page_count_matches: bool,
    pub page_boxes_match: bool,
    pub fonts_remaining: usize,
    pub type3_fonts_remaining: usize,
    pub rgb_images_remaining: usize,
    pub cmyk_images: usize,
    pub image_content_retained: bool,
    pub transparency_remaining: usize,
    pub pdf_version: Seq<char>,
    pub pdfx_claim: Option<Seq<char>>,
    pub output_intent_matches: bool,
    pub warnings: Seq<Seq<char>>,
    pub errors: Seq<Seq<char>>,
}

impl View for ConversionValidationResult {
    type V = ValidationView;

    open spec fn view(&self) -> ValidationView {
        ValidationView {
            passed: self.passed,
            readable: self.readable,
            page_count_matches: self.page_count_matches,
            page_boxes_match: self.page_boxes_match,
            fonts_remaining: self.fonts_remaining,
            type3_fonts_remaining: self.type3_fonts_remaining,
            rgb_images_remaining: self.rgb_images_remaining,
            cmyk_images: self.cmyk_images,
            image_content_retained: self.image_content_retained,
            transparency_remaining: self.transparency_remaining,
            pdf_version: self.pdf_version@,
            pdfx_claim: opt_chars(self.pdfx_claim),
            output_intent_matches: self.output_intent_matches,
            warnings: strings_view(self.warnings@),
            errors: strings_view(self.errors@),
        }
    }
}

/// The number of Type 3 fonts.
pub open spec fn count_type3(fonts: Seq<FontView>) -> nat
    decreases fonts.len(),
{
    if fonts.len() == 0 {
        0
    } else {
        count_type3(fonts.drop_last()) + if fonts.last().subtype == Some("Type3"@) { 1nat } else { 0nat }
    }
}

/// The SHA-256 of the output's OutputIntent profile, if it has one.
pub open spec fn output_icc(doc: InspectionView) -> Option<Seq<char>> {
    match doc.output_intent {
        Some(i) => match i.profile {
            Some(p) => Some(p.sha256),
            None => None,
        },
        None => None,
    }
}

/// Whether the OutputIntent profile is the expected one, where one is
/// expected.
pub open spec fn intent_matches(doc: InspectionView, expected: Option<Seq<char>>) -> bool {
    match expected {
        None => true,
        Some(e) => output_icc(doc) == Some(e),
    }
}

/// Whether the images kept their content: the input had transparency (its
/// pages are rasterized), or no pixels, or the output kept at least half.
pub open spec fn content_retained(input: InspectionView, output: InspectionView) -> bool {
    input.transparency.len() > 0 || pixel_sum(input.images) == 0 || output_half_kept(
        pixel_sum(output.images),
        pixel_sum(input.images),
    )
}

/// Whether twice `after`, saturated at the 128-bit maximum, reaches `before`.
pub open spec fn output_half_kept(after: nat, before: nat) -> bool {
    (if 2 * after > u128::MAX { u128::MAX as nat } else { 2 * after }) >= before
}

/// `m` when `cond` holds, else nothing.
pub open spec fn message_if(cond: bool, m: Seq<char>) -> Seq<Seq<char>> {
    if cond { seq![m] } else { Seq::empty() }
}

/// Whether the PDF/X claim names PDF/X-1.
pub open spec fn claims_pdfx1(claim: Option<Seq<char>>) -> bool {
    match claim {
        Some(c) => contains_chars(c, "PDF/X-1"@),
        None => false,
    }
}

/// The errors the mode's own rules find in the output.
pub open spec fn mode_errors(output: InspectionView, mode: ConversionMode, expected: Option<Seq<char>>) -> Seq<Seq<char>> {
    match mode {
        ConversionMode::OutlineOnly => message_if(
            output.fonts.len() > 0,
            decimal(output.fonts.len()) + " fonts remain"@,
        ),
        ConversionMode::PdfX1a { outline_fonts, .. } => message_if(
            outline_fonts && output.fonts.len() > 0,
            decimal(output.fonts.len()) + " fonts remain"@,
        ) + message_if(count_rgb(output.images) != 0, decimal(count_rgb(output.images)) + " RGB images remain"@)
            + message_if(
            output.transparency.len() > 0,
            decimal(output.transparency.len()) + " transparency features remain"@,
        ) + message_if(output.pdf_version != "1.3"@, "expected PDF 1.3, got "@ + output.pdf_version)
            + message_if(!claims_pdfx1(output.pdfx_claim), "PDF/X-1a conformance claim is missing"@)
            + message_if(
            !intent_matches(output, expected),
            "OutputIntent ICC profile does not match the requested profile"@,
        ),
    }
}

/// The validation of `output` converted from `input` in `mode`, where
/// `boxes_match` tells whether the page boxes kept their places.
pub open spec fn validation_of(
    input: InspectionView,
    output: InspectionView,
    mode: ConversionMode,
    expected: Option<Seq<char>>,
    boxes_match: bool,
) -> ValidationView {
    let errors = message_if(input.page_count != output.page_count, "page count changed"@)
        + message_if(!boxes_match, "page boxes changed"@) + mode_errors(output, mode, expected)
        + message_if(
        !content_retained(input, output),
        "embedded image content dropped unexpectedly ("@ + decimal(pixel_sum(output.images)) + " of "@
            + decimal(pixel_sum(input.images)) + " pixels remain)"@,
    );
    ValidationView {
        passed: errors.len() == 0,
        readable: true,
        page_count_matches: input.page_count == output.page_count,
        page_boxes_match: boxes_match,
        fonts_remaining: output.fonts.len() as usize,
        type3_fonts_remaining: count_type3(output.fonts) as usize,
        rgb_images_remaining: count_rgb(output.images) as usize,
        cmyk_images: count_cmyk(output.images) as usize,
        image_content_retained: content_retained(input, output),
        transparency_remaining: output.transparency.len() as usize,
        pdf_version: output.pdf_version,
        pdfx_claim: output.pdfx_claim,
        output_intent_matches: intent_matches(output, expected),
        warnings: message_if(
            input.transparency.len() == 0 && count_cmyk(output.images) == 0 && input.images.len() > 0,
            "no CMYK images were found after conversion"@,
        ),
        errors,
    }
}

fn count_type3_fonts(fonts: &Vec<FontInfo>) -> (n: usize)
    ensures
        n == count_type3(fonts_view(fonts@)),
{
    let mut n: usize = 0;
    let mut i: usize = 0;
    while i < fonts.len()
        invariant
            i <= fonts.len(),
            n <= i,
            n == count_type3(fonts_view(fonts@.take(i as int))),
        decreases fonts.len() - i,
    {
        assert(fonts_view(fonts@.take(i + 1)).drop_last() =~= fonts_view(fonts@.take(i as int)));
        proof {
            reveal_strlit("Type3");
        }
        if opt_str_equal(&fonts[i].subtype, "Type3") {
            n = n + 1;
        }
        i = i + 1;
    }
    assert(fonts@.take(i as int) =~= fonts@);
    n
}

fn push_message(errors: &mut Vec<String>, m: String)
    ensures
        strings_view(final(errors)@) == strings_view(old(errors)@).push(m@),
{
    errors.push(m);
    assert(strings_view(errors@) =~= strings_view(old(errors)@).push(m@));
}

fn count_message(n: usize, tail: &str) -> (s: String)
    ensures
        s@ == decimal(n as nat) + tail@,
{
    let mut s = String::new();
    append_decimal(&mut s, n as u64);
    s.append(tail);
    s
}

#[verifier::spinoff_prover]
#[verifier::rlimit(40)]
fn push_mode_errors(
    output: &PdfInspectionResult,
    mode: &ConversionMode,
    expected_icc_sha256: Option<&str>,
    rgb_images_remaining: usize,
    output_intent_matches: bool,
    errors: &mut Vec<String>,
)
    requires
        rgb_images_remaining == count_rgb(output@.images),
        output_intent_matches == intent_matches(output@, match expected_icc_sha256 {
            Some(e) => Some(e@),
            None => None,
        }),
    ensures
        strings_view(final(errors)@) == strings_view(old(errors)@) + mode_errors(output@, *mode, match expected_icc_sha256 {
            Some(e) => Some(e@),
            None => None,
        }),
{
    let ghost e0 = strings_view(errors@);
    let ghost expected = match expected_icc_sha256 {
        Some(e) => Some(e@),
        None => None,
    };
    match mode {
        ConversionMode::OutlineOnly => {
            if output.fonts.len() > 0 {
                push_message(errors, count_message(output.fonts.len(), " fonts remain"));
            }
        },
        ConversionMode::PdfX1a { outline_fonts, .. } => {
            if *outline_fonts && output.fonts.len() > 0 {
                push_message(errors, count_message(output.fonts.len(), " fonts remain"));
            }
            if rgb_images_remaining != 0 {
                push_message(errors, count_message(rgb_images_remaining, " RGB images remain"));
            }
            if output.transparency.len() > 0 {
                push_message(errors, count_message(output.transparency.len(), " transparency features remain"));
            }
            proof {
                reveal_strlit("1.3");
            }
            if !str_equal(output.pdf_version.as_str(), "1.3") {
                let mut m = String::from_str("expected PDF 1.3, got ");
                m.append(output.pdf_version.as_str());
                push_message(errors, m);
            }
            let claimed = match &output.pdfx_claim {
                Some(c) => str_contains(c.as_str(), "PDF/X-1"),
                None => false,
            };
            if !claimed {
                push_message(errors, String::from_str("PDF/X-1a conformance claim is missing"));
            }
            if !output_intent_matches {
                push_message(
                    errors,
                    String::from_str("OutputIntent ICC profile does not match the requested profile"),
                );
            }
        },
    }
    assert(strings_view(errors@) =~= e0 + mode_errors(output@, *mode, expected));
}

/// Judges `output`, converted from `input` in `mode`: page count and
/// boxes (`page_boxes_match`, compared by the caller), what the mode
/// requires of fonts, images, transparency, version, claim and
/// OutputIntent profile (`expected_icc_sha256`), and whether image
/// content survived.
#[verifier::spinoff_prover]
pub fn validate_conversion(
    input: &PdfInspectionResult,
    output: &PdfInspectionResult,
    mode: &ConversionMode,
    expected_icc_sha256: Option<&str>,
    page_boxes_match: bool,
) -> (r: ConversionValidationResult)
    requires
        pixel_sum(input@.images) <= u128::MAX,
        pixel_sum(output@.images) <= u128::MAX,
    ensures
        r@ == validation_of(input@, output@, *mode, match expected_icc_sha256 {
            Some(e) => Some(e@),
            None => None,
        }, page_boxes_match),
{
    let ghost expected = match expected_icc_sha256 {
        Some(e) => Some(e@),
        None => None,
    };
    let page_count_matches = input.page_count == output.page_count;
    let type3_fonts_remaining = count_type3_fonts(&output.fonts);
    let rgb_images_remaining = output.rgb_image_count();
    let cmyk_images = output.cmyk_image_count();
    let input_pixels = total_image_pixels(input);
    let output_pixels = total_image_pixels(output);
    let doubled: u128 = if output_pixels > u128::MAX / 2 { u128::MAX } else { output_pixels * 2 };
    let image_content_retained = input.transparency.len() > 0 || input_pixels == 0 || doubled >= input_pixels;
    let output_intent_matches = match expected_icc_sha256 {
        None => true,
        Some(e) => match &output.output_intent {
            Some(intent) => match &intent.profile {
                Some(p) => str_equal(p.sha256.as_str(), e),
                None => false,
            },
            None => false,
        },
    };
    assert(output_intent_matches == intent_matches(output@, expected));
    let mut errors: Vec<String> = Vec::new();
    let mut warnings: Vec<String> = Vec::new();
    assert(strings_view(errors@) =~= Seq::<Seq<char>>::empty());
    if !page_count_matches {
        push_message(&mut errors, String::from_str("page count changed"));
    }
    if !page_boxes_match {
        push_message(&mut errors, String::from_str("page boxes changed"));
    }
    let ghost e1 = strings_view(errors@);
    push_mode_errors(output, mode, expected_icc_sha256, rgb_images_remaining, output_intent_matches, &mut errors);
    assert(strings_view(errors@) =~= e1 + mode_errors(output@, *mode, expected));
    assert(strings_view(warnings@) =~= Seq::<Seq<char>>::empty());
    if input.transparency.len() == 0 && cmyk_images == 0 && input.images.len() > 0 {
        push_message(&mut warnings, String::from_str("no CMYK images were found after conversion"));
    }
    let ghost e2 = strings_view(errors@);
    if !image_content_retained {
        let mut m = String::from_str("embedded image content dropped unexpectedly (");
        append_decimal_wide(&mut m, output_pixels);
        m.append(" of ");
        append_decimal_wide(&mut m, input_pixels);
        m.append(" pixels remain)");
        push_message(&mut errors, m);
    }
    let passed = errors.len() == 0;
    let fonts_remaining = output.fonts.len();
    let transparency_remaining = output.transparency.len();
    let r = ConversionValidationResult {
        passed,
        readable: true,
        page_count_matches,
        page_boxes_match,
        fonts_remaining,
        type3_fonts_remaining,
        rgb_images_remaining,
        cmyk_images,
        image_content_retained,
        transparency_remaining,
        pdf_version: output.pdf_version.clone(),
        pdfx_claim: output.pdfx_claim.clone(),
        output_intent_matches,
        warnings,
        errors,
    };
    proof {
        let v = validation_of(input@, output@, *mode, expected, page_boxes_match);
        assert(r@.errors =~= v.errors);
        assert(r@.warnings =~= v.warnings);
        assert(r@.pdfx_claim == v.pdfx_claim);
    }
    r
}


/// A validation passes only where the page count and page boxes match
/// and image content was retained.
pub proof fn lemma_passing_keeps_pages_and_images(
    input: InspectionView,
    output: InspectionView,
    mode: ConversionMode,
    expected: Option<Seq<char>>,
    boxes_match: bool,
)
    requires
        validation_of(input, output, mode, expected, boxes_match).passed,
    ensures
        input.page_count == output.page_count,
        boxes_match,
        content_retained(input, output),
{
    let errors = message_if(input.page_count != output.page_count, "page count changed"@)
        + message_if(!boxes_match, "page boxes changed"@) + mode_errors(output, mode, expected);
    let last = message_if(
        !content_retained(input, output),
        "embedded image content dropped unexpectedly ("@ + decimal(pixel_sum(output.images)) + " of "@
            + decimal(pixel_sum(input.images)) + " pixels remain)"@,
    );
    assert(validation_of(input, output, mode, expected, boxes_match).errors == errors + last);
}

/// A PDF/X-1a validation passes only where no RGB image and no
/// transparency remain, the output is PDF 1.3 with a PDF/X-1 claim, its
/// OutputIntent profile is the expected one, and, when fonts were to be
/// outlined, no font remains.
pub proof fn lemma_passing_pdfx_output_is_clean(
    input: InspectionView,
    output: InspectionView,
    outline_fonts: bool,
    rendering_intent: crate::conversion::RenderingIntent,
    black_point_compensation: bool,
    transparency_resolution_dpi: u16,
    expected: Option<Seq<char>>,
    boxes_match: bool,
)
    requires
        validation_of(
            input,
            output,
            ConversionMode::PdfX1a { outline_fonts, rendering_intent, black_point_compensation, transparency_resolution_dpi },
            expected,
            boxes_match,
        ).passed,
    ensures
        count_rgb(output.images) == 0,
        output.transparency.len() == 0,
        output.pdf_version == "1.3"@,
        claims_pdfx1(output.pdfx_claim),
        intent_matches(output, expected),
        outline_fonts ==> output.fonts.len() == 0,
{
    let mode = ConversionMode::PdfX1a { outline_fonts, rendering_intent, black_point_compensation, transparency_resolution_dpi };
    let a = message_if(outline_fonts && output.fonts.len() > 0, decimal(output.fonts.len()) + " fonts remain"@);
    let b = message_if(count_rgb(output.images) != 0, decimal(count_rgb(output.images)) + " RGB images remain"@);
    let c = message_if(
        output.transparency.len() > 0,
        decimal(output.transparency.len()) + " transparency features remain"@,
    );
    let d = message_if(output.pdf_version != "1.3"@, "expected PDF 1.3, got "@ + output.pdf_version);
    let e = message_if(!claims_pdfx1(output.pdfx_claim), "PDF/X-1a conformance claim is missing"@);
    let f = message_if(!intent_matches(output, expected), "OutputIntent ICC profile does not match the requested profile"@);
    assert(mode_errors(output, mode, expected) == a + b + c + d + e + f);
    let pre = message_if(input.page_count != output.page_count, "page count changed"@)
        + message_if(!boxes_match, "page boxes changed"@);
    let last = message_if(
        !content_retained(input, output),
        "embedded image content dropped unexpectedly ("@ + decimal(pixel_sum(output.images)) + " of "@
            + decimal(pixel_sum(input.images)) + " pixels remain)"@,
    );
    assert(validation_of(input, output, mode, expected, boxes_match).errors == pre + (a + b + c + d + e + f) + last);
}

/// In a PDF/X-1a conversion that does not outline fonts, fonts left in the
/// output are no error: two outputs that differ only in their fonts get
/// the same errors and the same verdict.
pub proof fn lemma_fonts_may_remain_without_outlining(
    input: InspectionView,
    output: InspectionView,
    other: InspectionView,
    rendering_intent: crate::conversion::RenderingIntent,
    black_point_compensation: bool,
    transparency_resolution_dpi: u16,
    expected: Option<Seq<char>>,
    boxes_match: bool,
)
    requires
        other.path == output.path,
        other.pdf_version == output.pdf_version,
        other.pdfx_claim == output.pdfx_claim,
        other.page_count == output.page_count,
        other.pages == output.pages,
        other.images == output.images,
        other.transparency == output.transparency,
        other.output_intent == output.output_intent,
    ensures
        ({
            let mode = ConversionMode::PdfX1a {
                outline_fonts: false,
                rendering_intent,
                black_point_compensation,
                transparency_resolution_dpi,
            };
            &&& validation_of(input, output, mode, expected, boxes_match).errors == validation_of(
                input,
                other,
                mode,
                expected,
                boxes_match,
            ).errors
            &&& validation_of(input, output, mode, expected, boxes_match).passed == validation_of(
                input,
                other,
                mode,
                expected,
                boxes_match,
            ).passed
        }),
{
    assert(output_icc(output) == output_icc(other));
}

/// Where fonts were to be outlined (outlining alone, or PDF/X-1a with
/// outlining), an output that keeps any font fails, and its errors say how
/// many fonts remain.
pub proof fn lemma_kept_fonts_fail_when_outlining(
    input: InspectionView,
    output: InspectionView,
    mode: ConversionMode,
    expected: Option<Seq<char>>,
    boxes_match: bool,
)
    requires
        mode is OutlineOnly || (mode matches ConversionMode::PdfX1a { outline_fonts, .. } && outline_fonts),
        output.fonts.len() > 0,
    ensures
        !validation_of(input, output, mode, expected, boxes_match).passed,
        validation_of(input, output, mode, expected, boxes_match).errors.contains(
            decimal(output.fonts.len()) + " fonts remain"@,
        ),
{
    let pre = message_if(input.page_count != output.page_count, "page count changed"@)
        + message_if(!boxes_match, "page boxes changed"@);
    let m = decimal(output.fonts.len()) + " fonts remain"@;
    let modal = mode_errors(output, mode, expected);
    let last = message_if(
        !content_retained(input, output),
        "embedded image content dropped unexpectedly ("@ + decimal(pixel_sum(output.images)) + " of "@
            + decimal(pixel_sum(input.images)) + " pixels remain)"@,
    );
    let errors = validation_of(input, output, mode, expected, boxes_match).errors;
    assert(errors == pre + modal + last);
    assert(modal[0] == m);
    assert(errors[pre.len() as int] == m);
}

} // verus!
