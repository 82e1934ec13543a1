//! Preflight: the rules a document is held to before PDF/X conversion.
use vstd::prelude::*;
use crate::models::{
    FontInfo, FontView, ImageColorSpace, ImageInfo, ImageView, InspectionView, IntentView,
    OutputIntentInfo, PageGeometry, PdfInspectionResult, TransparencyFinding, TransparencyView,
    count_rgb, fonts_view, images_view, transparency_view,
};
use crate::text::{append_decimal, decimal, opt_str_equal};

verus! {

/// How serious a finding is.
#[derive(Clone, Copy, Debug, PartialEq, Eq, Structural)]
pub enum Severity {
    Info,
    Warning,
    Error,
}

/// The rule a finding comes from.
#[derive(Clone, Copy, Debug, PartialEq, Eq, Structural)]
pub enum PreflightRuleId {
    Type3FontDetected,
    FontNotEmbedded,
    RgbImageDetected,
    DeviceRgbWithoutProfile,
    TransparencyDetected,
    MissingTrimBox,
    MissingBleedBox,
    MissingOutputIntent,
    OutputIntentNotCmyk,
}

/// One preflight finding.
#[derive(Clone, Debug, PartialEq, Eq)]
pub struct PreflightFinding {
    pub rule: PreflightRuleId,
    pub severity: Severity,
    pub page_number: Option<u32>,
    pub message: String,
}

/// A finding, with its message as characters.
pub struct FindingView {
    pub rule: PreflightRuleId,
    pub severity: Severity,
    pub page_number: Option<u32>,
    pub message: Seq<char>,
}

impl View for PreflightFinding {
    type V = FindingView;

    open spec fn view(&self) -> FindingView {
        FindingView {
            rule: self.rule,
            severity: self.severity,
            page_number: self.page_number,
            message: self.message@,
        }
    }
}

/// The findings, as views.
pub open spec fn findings_view(s: Seq<PreflightFinding>) -> Seq<FindingView> {
    s.map_values(|f: PreflightFinding| f@)
}

/// A finding made of its parts.
pub open spec fn make(rule: PreflightRuleId, severity: Severity, page: Option<u32>, message: Seq<char>) -> FindingView {
    FindingView { rule, severity, page_number: page, message }
}

/// `f` when `cond` holds, else nothing.
pub open spec fn when(cond: bool, f: FindingView) -> Seq<FindingView> {
    if cond { seq![f] } else { Seq::empty() }
}

/// The findings for one font: a Type 3 warning, then a not-embedded error.
pub open spec fn font_rule(f: FontView) -> Seq<FindingView> {
    when(
        f.subtype == Some("Type3"@),
        make(PreflightRuleId::Type3FontDetected, Severity::Warning, Some(f.page_number),
            "Type 3 font detected: "@ + f.resource_name),
    ) + when(
        !f.embedded,
        make(PreflightRuleId::FontNotEmbedded, Severity::Error, Some(f.page_number),
            "font is not embedded: "@ + f.resource_name),
    )
}

/// The findings for one image: an RGB warning, then an untagged DeviceRGB
/// warning.
pub open spec fn image_rule(i: ImageView) -> Seq<FindingView> {
    when(
        i.color_space.spec_is_rgb(),
        make(PreflightRuleId::RgbImageDetected, Severity::Warning, Some(i.page_number),
            "RGB image requires CMYK conversion: "@ + i.resource_name),
    ) + when(
        i.color_space == ImageColorSpace::DeviceRgb,
        make(PreflightRuleId::DeviceRgbWithoutProfile, Severity::Warning, Some(i.page_number),
            "untagged DeviceRGB image will be treated as sRGB: "@ + i.resource_name),
    )
}

/// The finding for one transparency feature.
pub open spec fn transparency_rule(t: TransparencyView) -> FindingView {
    make(PreflightRuleId::TransparencyDetected, Severity::Warning, Some(t.page_number),
        "page "@ + decimal(t.page_number as nat) + " will be flattened to a CMYK image: "@ + t.detail)
}

/// The findings for one page: a missing TrimBox, then a missing BleedBox.
pub open spec fn page_rule(p: PageGeometry) -> Seq<FindingView> {
    when(p.trim_box is None,
        make(PreflightRuleId::MissingTrimBox, Severity::Warning, Some(p.page_number), "TrimBox is missing"@))
    + when(p.bleed_box is None,
        make(PreflightRuleId::MissingBleedBox, Severity::Warning, Some(p.page_number), "BleedBox is missing"@))
}

/// The colour space the OutputIntent profile declares, if any.
pub open spec fn intent_color_space(intent: IntentView) -> Option<Seq<char>> {
    match intent.profile {
        Some(p) => p.color_space,
        None => None,
    }
}

/// The findings for the OutputIntent: missing, or not CMYK.
pub open spec fn intent_rule(intent: Option<IntentView>) -> Seq<FindingView> {
    match intent {
        None => seq![make(PreflightRuleId::MissingOutputIntent, Severity::Error, None,
            "PDF/X conversion needs a CMYK OutputIntent or an explicit ICC profile"@)],
        Some(i) => when(intent_color_space(i) != Some("CMYK"@),
            make(PreflightRuleId::OutputIntentNotCmyk, Severity::Error, None, "OutputIntent profile is not CMYK"@)),
    }
}

/// The findings for each font in turn.
pub open spec fn fonts_rule(s: Seq<FontView>) -> Seq<FindingView>
    decreases s.len(),
{
    if s.len() == 0 { Seq::empty() } else { fonts_rule(s.drop_last()) + font_rule(s.last()) }
}

/// The findings for each image in turn.
pub open spec fn images_rule(s: Seq<ImageView>) -> Seq<FindingView>
    decreases s.len(),
{
    if s.len() == 0 { Seq::empty() } else { images_rule(s.drop_last()) + image_rule(s.last()) }
}

/// The findings for each transparency feature in turn.
pub open spec fn transparencies_rule(s: Seq<TransparencyView>) -> Seq<FindingView> {
    s.map_values(|t: TransparencyView| transparency_rule(t))
}

/// The findings for each page in turn.
pub open spec fn pages_rule(s: Seq<PageGeometry>) -> Seq<FindingView>
    decreases s.len(),
{
    if s.len() == 0 { Seq::empty() } else { pages_rule(s.drop_last()) + page_rule(s.last()) }
}

/// All findings for an inspected document: fonts, images, transparency,
/// pages, then the OutputIntent.
pub open spec fn preflight_of(doc: InspectionView) -> Seq<FindingView> {
    fonts_rule(doc.fonts) + images_rule(doc.images) + transparencies_rule(doc.transparency)
        + pages_rule(doc.pages) + intent_rule(doc.output_intent)
}

fn push(
    out: &mut Vec<PreflightFinding>,
    rule: PreflightRuleId,
    severity: Severity,
    page_number: Option<u32>,
    message: String,
)
    ensures
        findings_view(final(out)@) == findings_view(old(out)@).push(make(rule, severity, page_number, message@)),
{
    out.push(PreflightFinding { rule, severity, page_number, message });
    assert(findings_view(out@) =~= findings_view(old(out)@).push(make(rule, severity, page_number, message@)));
}

fn prefixed(prefix: &str, rest: &String) -> (s: String)
    ensures
        s@ == prefix@ + rest@,
{
    let mut s = String::from_str(prefix);
    s.append(rest.as_str());
    s
}

fn check_fonts(fonts: &Vec<FontInfo>, out: &mut Vec<PreflightFinding>)
    ensures
        findings_view(final(out)@) == findings_view(old(out)@) + fonts_rule(fonts_view(fonts@)),
{
    let mut i: usize = 0;
    while i < fonts.len()
        invariant
            i <= fonts.len(),
            findings_view(out@) == findings_view(old(out)@) + fonts_rule(fonts_view(fonts@.take(i as int))),
        decreases fonts.len() - i,
    {
        let ghost before = findings_view(out@);
        let font = &fonts[i];
        proof {
            reveal_strlit("Type3");
        }
        if opt_str_equal(&font.subtype, "Type3") {
            push(out, PreflightRuleId::Type3FontDetected, Severity::Warning, Some(font.page_number),
                prefixed("Type 3 font detected: ", &font.resource_name));
        }
        if !font.embedded {
            push(out, PreflightRuleId::FontNotEmbedded, Severity::Error, Some(font.page_number),
                prefixed("font is not embedded: ", &font.resource_name));
        }
        proof {
            let v = fonts_view(fonts@.take(i + 1));
            assert(v.drop_last() =~= fonts_view(fonts@.take(i as int)));
            assert(v.last() == font@);
            assert(findings_view(out@) =~= before + font_rule(font@));
        }
        i = i + 1;
    }
    assert(fonts@.take(i as int) =~= fonts@);
}

fn check_images(images: &Vec<ImageInfo>, out: &mut Vec<PreflightFinding>)
    ensures
        findings_view(final(out)@) == findings_view(old(out)@) + images_rule(images_view(images@)),
{
    let mut i: usize = 0;
    while i < images.len()
        invariant
            i <= images.len(),
            findings_view(out@) == findings_view(old(out)@) + images_rule(images_view(images@.take(i as int))),
        decreases images.len() - i,
    {
        let ghost before = findings_view(out@);
        let image = &images[i];
        if image.color_space.is_rgb() {
            push(out, PreflightRuleId::RgbImageDetected, Severity::Warning, Some(image.page_number),
                prefixed("RGB image requires CMYK conversion: ", &image.resource_name));
        }
        let device_rgb = match image.color_space {
            ImageColorSpace::DeviceRgb => true,
            _ => false,
        };
        if device_rgb {
            push(out, PreflightRuleId::DeviceRgbWithoutProfile, Severity::Warning, Some(image.page_number),
                prefixed("untagged DeviceRGB image will be treated as sRGB: ", &image.resource_name));
        }
        proof {
            let v = images_view(images@.take(i + 1));
            assert(v.drop_last() =~= images_view(images@.take(i as int)));
            assert(v.last() == image@);
            assert(findings_view(out@) =~= before + image_rule(image@));
        }
        i = i + 1;
    }
    assert(images@.take(i as int) =~= images@);
}

fn check_transparency(transparency: &Vec<TransparencyFinding>, out: &mut Vec<PreflightFinding>)
    ensures
        findings_view(final(out)@) == findings_view(old(out)@) + transparencies_rule(transparency_view(transparency@)),
{
    let mut i: usize = 0;
    while i < transparency.len()
        invariant
            i <= transparency.len(),
            findings_view(out@) == findings_view(old(out)@) + transparencies_rule(
                transparency_view(transparency@.take(i as int)),
            ),
        decreases transparency.len() - i,
    {
        let t = &transparency[i];
        let mut message = String::from_str("page ");
        append_decimal(&mut message, t.page_number as u64);
        message.append(" will be flattened to a CMYK image: ");
        message.append(t.detail.as_str());
        push(out, PreflightRuleId::TransparencyDetected, Severity::Warning, Some(t.page_number), message);
        proof {
            assert(transparencies_rule(transparency_view(transparency@.take(i + 1))) =~= transparencies_rule(
                transparency_view(transparency@.take(i as int)),
            ).push(transparency_rule(t@)));
        }
        i = i + 1;
    }
    assert(transparency@.take(i as int) =~= transparency@);
}

fn check_pages(pages: &Vec<PageGeometry>, out: &mut Vec<PreflightFinding>)
    ensures
        findings_view(final(out)@) == findings_view(old(out)@) + pages_rule(pages@),
{
    let mut i: usize = 0;
    while i < pages.len()
        invariant
            i <= pages.len(),
            findings_view(out@) == findings_view(old(out)@) + pages_rule(pages@.take(i as int)),
        decreases pages.len() - i,
    {
        let ghost before = findings_view(out@);
        let page = pages[i];
        if page.trim_box.is_none() {
            push(out, PreflightRuleId::MissingTrimBox, Severity::Warning, Some(page.page_number),
                String::from_str("TrimBox is missing"));
        }
        if page.bleed_box.is_none() {
            push(out, PreflightRuleId::MissingBleedBox, Severity::Warning, Some(page.page_number),
                String::from_str("BleedBox is missing"));
        }
        proof {
            assert(pages@.take(i + 1).drop_last() =~= pages@.take(i as int));
            assert(findings_view(out@) =~= before + page_rule(page));
        }
        i = i + 1;
    }
    assert(pages@.take(i as int) =~= pages@);
}

fn check_intent(intent: &Option<OutputIntentInfo>, out: &mut Vec<PreflightFinding>)
    ensures
        findings_view(final(out)@) == findings_view(old(out)@) + intent_rule(match intent {
            Some(i) => Some(i@),
            None => None,
        }),
{
    proof {
        reveal_strlit("CMYK");
    }
    match intent {
        None => {
            push(out, PreflightRuleId::MissingOutputIntent, Severity::Error, None,
                String::from_str("PDF/X conversion needs a CMYK OutputIntent or an explicit ICC profile"));
        },
        Some(i) => {
            let cmyk = match &i.profile {
                Some(p) => opt_str_equal(&p.color_space, "CMYK"),
                None => false,
            };
            if !cmyk {
                push(out, PreflightRuleId::OutputIntentNotCmyk, Severity::Error, None,
                    String::from_str("OutputIntent profile is not CMYK"));
            }
        },
    }
}

/// Holds an inspected document to the preflight rules. Returns the
/// findings for fonts, images, transparency, pages and the OutputIntent,
/// in that order.
pub fn run_preflight(document: &PdfInspectionResult) -> (r: Vec<PreflightFinding>)
    ensures
        findings_view(r@) == preflight_of(document@),
{
    let mut out: Vec<PreflightFinding> = Vec::new();
    assert(findings_view(out@) =~= Seq::empty());
    check_fonts(&document.fonts, &mut out);
    check_images(&document.images, &mut out);
    check_transparency(&document.transparency, &mut out);
    check_pages(&document.pages, &mut out);
    check_intent(&document.output_intent, &mut out);
    assert(findings_view(out@) =~= preflight_of(document@));
    out
}


/// The severity each rule reports with: errors for fonts that are not
/// embedded and for a missing or non-CMYK OutputIntent, warnings otherwise.
pub open spec fn rule_severity(rule: PreflightRuleId) -> Severity {
    match rule {
        PreflightRuleId::FontNotEmbedded | PreflightRuleId::MissingOutputIntent | PreflightRuleId::OutputIntentNotCmyk => Severity::Error,
        _ => Severity::Warning,
    }
}

/// Whether every finding of `s` has its rule's severity.
pub open spec fn severities_follow_rules(s: Seq<FindingView>) -> bool {
    forall|i: int| 0 <= i < s.len() ==> (#[trigger] s[i]).severity == rule_severity(s[i].rule)
}

proof fn lemma_concat_follows(a: Seq<FindingView>, b: Seq<FindingView>)
    requires
        severities_follow_rules(a),
        severities_follow_rules(b),
    ensures
        severities_follow_rules(a + b),
{
    assert forall|i: int| 0 <= i < (a + b).len() implies (#[trigger] (a + b)[i]).severity == rule_severity((a + b)[i].rule) by {
        if i < a.len() {
            assert((a + b)[i] == a[i]);
        } else {
            assert((a + b)[i] == b[i - a.len()]);
        }
    }
}

proof fn lemma_fonts_follow(s: Seq<FontView>)
    ensures
        severities_follow_rules(fonts_rule(s)),
    decreases s.len(),
{
    if s.len() > 0 {
        lemma_fonts_follow(s.drop_last());
        let f = s.last();
        lemma_concat_follows(
            when(f.subtype == Some("Type3"@), make(PreflightRuleId::Type3FontDetected, Severity::Warning, Some(f.page_number), "Type 3 font detected: "@ + f.resource_name)),
            when(!f.embedded, make(PreflightRuleId::FontNotEmbedded, Severity::Error, Some(f.page_number), "font is not embedded: "@ + f.resource_name)),
        );
        lemma_concat_follows(fonts_rule(s.drop_last()), font_rule(f));
    }
}

proof fn lemma_images_follow(s: Seq<ImageView>)
    ensures
        severities_follow_rules(images_rule(s)),
    decreases s.len(),
{
    if s.len() > 0 {
        lemma_images_follow(s.drop_last());
        let i = s.last();
        lemma_concat_follows(
            when(i.color_space.spec_is_rgb(), make(PreflightRuleId::RgbImageDetected, Severity::Warning, Some(i.page_number), "RGB image requires CMYK conversion: "@ + i.resource_name)),
            when(i.color_space == ImageColorSpace::DeviceRgb, make(PreflightRuleId::DeviceRgbWithoutProfile, Severity::Warning, Some(i.page_number), "untagged DeviceRGB image will be treated as sRGB: "@ + i.resource_name)),
        );
        lemma_concat_follows(images_rule(s.drop_last()), image_rule(i));
    }
}

proof fn lemma_pages_follow(s: Seq<PageGeometry>)
    ensures
        severities_follow_rules(pages_rule(s)),
    decreases s.len(),
{
    if s.len() > 0 {
        lemma_pages_follow(s.drop_last());
        let p = s.last();
        lemma_concat_follows(
            when(p.trim_box is None, make(PreflightRuleId::MissingTrimBox, Severity::Warning, Some(p.page_number), "TrimBox is missing"@)),
            when(p.bleed_box is None, make(PreflightRuleId::MissingBleedBox, Severity::Warning, Some(p.page_number), "BleedBox is missing"@)),
        );
        lemma_concat_follows(pages_rule(s.drop_last()), page_rule(p));
    }
}

/// Every preflight finding has the severity of its rule: only fonts that
/// are not embedded and a missing or non-CMYK OutputIntent are errors.
pub proof fn lemma_preflight_severities_follow_rules(doc: InspectionView)
    ensures
        severities_follow_rules(preflight_of(doc)),
{
    lemma_fonts_follow(doc.fonts);
    lemma_images_follow(doc.images);
    lemma_pages_follow(doc.pages);
    let t = transparencies_rule(doc.transparency);
    assert(severities_follow_rules(t));
    let a = fonts_rule(doc.fonts);
    let b = images_rule(doc.images);
    let c = pages_rule(doc.pages);
    let d = intent_rule(doc.output_intent);
    assert(severities_follow_rules(d));
    lemma_concat_follows(a, b);
    lemma_concat_follows(a + b, t);
    lemma_concat_follows(a + b + t, c);
    lemma_concat_follows(a + b + t + c, d);
}

/// The OutputIntent rule: one error when there is none, one when its
/// profile is not CMYK, nothing for a CMYK profile.
pub proof fn lemma_intent_rule(intent: Option<IntentView>)
    ensures
        intent is None ==> intent_rule(intent).len() == 1 && intent_rule(intent)[0].rule
            == PreflightRuleId::MissingOutputIntent,
        intent matches Some(i) && intent_color_space(i) == Some("CMYK"@) ==> intent_rule(intent).len() == 0,
        intent matches Some(i) && intent_color_space(i) != Some("CMYK"@) ==> intent_rule(intent).len() == 1
            && intent_rule(intent)[0].rule == PreflightRuleId::OutputIntentNotCmyk,
{
}

/// How many findings of `s` come from `rule`.
pub open spec fn count_rule(s: Seq<FindingView>, rule: PreflightRuleId) -> nat
    decreases s.len(),
{
    if s.len() == 0 {
        0
    } else {
        count_rule(s.drop_last(), rule) + if s.last().rule == rule { 1nat } else { 0nat }
    }
}

proof fn lemma_count_rule_concat(a: Seq<FindingView>, b: Seq<FindingView>, rule: PreflightRuleId)
    ensures
        count_rule(a + b, rule) == count_rule(a, rule) + count_rule(b, rule),
    decreases b.len(),
{
    if b.len() == 0 {
        assert(a + b =~= a);
    } else {
        lemma_count_rule_concat(a, b.drop_last(), rule);
        assert((a + b).drop_last() =~= a + b.drop_last());
    }
}

proof fn lemma_count_rule_absent(s: Seq<FindingView>, rule: PreflightRuleId)
    requires
        forall|i: int| 0 <= i < s.len() ==> (#[trigger] s[i]).rule != rule,
    ensures
        count_rule(s, rule) == 0,
    decreases s.len(),
{
    if s.len() > 0 {
        lemma_count_rule_absent(s.drop_last(), rule);
    }
}

proof fn lemma_when_count(cond: bool, f: FindingView, rule: PreflightRuleId)
    ensures
        count_rule(when(cond, f), rule) == if cond && f.rule == rule { 1nat } else { 0nat },
{
    assert(count_rule(Seq::<FindingView>::empty(), rule) == 0);
    if cond {
        assert(when(cond, f).drop_last() =~= Seq::<FindingView>::empty());
        assert(when(cond, f).last() == f);
    }
}

proof fn lemma_fonts_rule_no_rgb(s: Seq<FontView>)
    ensures
        count_rule(fonts_rule(s), PreflightRuleId::RgbImageDetected) == 0,
    decreases s.len(),
{
    if s.len() > 0 {
        let f = s.last();
        lemma_fonts_rule_no_rgb(s.drop_last());
        let a = when(f.subtype == Some("Type3"@), make(PreflightRuleId::Type3FontDetected, Severity::Warning,
            Some(f.page_number), "Type 3 font detected: "@ + f.resource_name));
        let b = when(!f.embedded, make(PreflightRuleId::FontNotEmbedded, Severity::Error, Some(f.page_number),
            "font is not embedded: "@ + f.resource_name));
        lemma_when_count(f.subtype == Some("Type3"@), make(PreflightRuleId::Type3FontDetected, Severity::Warning,
            Some(f.page_number), "Type 3 font detected: "@ + f.resource_name), PreflightRuleId::RgbImageDetected);
        lemma_when_count(!f.embedded, make(PreflightRuleId::FontNotEmbedded, Severity::Error, Some(f.page_number),
            "font is not embedded: "@ + f.resource_name), PreflightRuleId::RgbImageDetected);
        lemma_count_rule_concat(a, b, PreflightRuleId::RgbImageDetected);
        lemma_count_rule_concat(fonts_rule(s.drop_last()), font_rule(f), PreflightRuleId::RgbImageDetected);
    }
}

proof fn lemma_images_rule_counts_rgb(s: Seq<ImageView>)
    ensures
        count_rule(images_rule(s), PreflightRuleId::RgbImageDetected) == count_rgb(s),
    decreases s.len(),
{
    if s.len() > 0 {
        let i = s.last();
        lemma_images_rule_counts_rgb(s.drop_last());
        let fa = make(PreflightRuleId::RgbImageDetected, Severity::Warning, Some(i.page_number),
            "RGB image requires CMYK conversion: "@ + i.resource_name);
        let fb = make(PreflightRuleId::DeviceRgbWithoutProfile, Severity::Warning, Some(i.page_number),
            "untagged DeviceRGB image will be treated as sRGB: "@ + i.resource_name);
        let ca = i.color_space == ImageColorSpace::DeviceRgb || i.color_space == ImageColorSpace::IccRgb;
        lemma_when_count(i.color_space.spec_is_rgb(), fa, PreflightRuleId::RgbImageDetected);
        lemma_when_count(i.color_space == ImageColorSpace::DeviceRgb, fb, PreflightRuleId::RgbImageDetected);
        lemma_count_rule_concat(
            when(i.color_space.spec_is_rgb(), fa),
            when(i.color_space == ImageColorSpace::DeviceRgb, fb),
            PreflightRuleId::RgbImageDetected,
        );
        lemma_count_rule_concat(images_rule(s.drop_last()), image_rule(i), PreflightRuleId::RgbImageDetected);
        assert(count_rule(image_rule(i), PreflightRuleId::RgbImageDetected) == if ca { 1nat } else { 0nat });
    }
}

proof fn lemma_pages_rule_no_rgb(s: Seq<PageGeometry>)
    ensures
        count_rule(pages_rule(s), PreflightRuleId::RgbImageDetected) == 0,
    decreases s.len(),
{
    if s.len() > 0 {
        let p = s.last();
        lemma_pages_rule_no_rgb(s.drop_last());
        let fa = make(PreflightRuleId::MissingTrimBox, Severity::Warning, Some(p.page_number), "TrimBox is missing"@);
        let fb = make(PreflightRuleId::MissingBleedBox, Severity::Warning, Some(p.page_number), "BleedBox is missing"@);
        lemma_when_count(p.trim_box is None, fa, PreflightRuleId::RgbImageDetected);
        lemma_when_count(p.bleed_box is None, fb, PreflightRuleId::RgbImageDetected);
        lemma_count_rule_concat(when(p.trim_box is None, fa), when(p.bleed_box is None, fb), PreflightRuleId::RgbImageDetected);
        lemma_count_rule_concat(pages_rule(s.drop_last()), page_rule(p), PreflightRuleId::RgbImageDetected);
    }
}

/// Preflight warns once for every RGB image, device or ICC-based, and for
/// nothing else: the number of RGB-image findings is the number of images
/// whose colour space is DeviceRGB or ICC-based RGB, the count that
/// validation reports as RGB images remaining.
pub proof fn lemma_one_rgb_warning_per_rgb_image(doc: InspectionView)
    ensures
        count_rule(preflight_of(doc), PreflightRuleId::RgbImageDetected) == count_rgb(doc.images),
{
    let rule = PreflightRuleId::RgbImageDetected;
    lemma_fonts_rule_no_rgb(doc.fonts);
    lemma_images_rule_counts_rgb(doc.images);
    lemma_pages_rule_no_rgb(doc.pages);
    let t = transparencies_rule(doc.transparency);
    assert forall|i: int| 0 <= i < t.len() implies (#[trigger] t[i]).rule != rule by {}
    lemma_count_rule_absent(t, rule);
    let o = intent_rule(doc.output_intent);
    assert forall|i: int| 0 <= i < o.len() implies (#[trigger] o[i]).rule != rule by {}
    lemma_count_rule_absent(o, rule);
    let a = fonts_rule(doc.fonts);
    let b = images_rule(doc.images);
    let p = pages_rule(doc.pages);
    lemma_count_rule_concat(a, b, rule);
    lemma_count_rule_concat(a + b, t, rule);
    lemma_count_rule_concat(a + b + t, p, rule);
    lemma_count_rule_concat(a + b + t + p, o, rule);
}

} // verus!
