//! What an inspection reports about a document, and the views the
//! contracts speak of.
use vstd::prelude::*;

verus! {

/// A number as a PDF holds it: an integer, or the bits of an IEEE-754
/// single-precision real.
#[derive(Clone, Copy, Debug, PartialEq, Eq)]
pub enum PdfNumber {
    Integer(i64),
    Real(u32),
}

/// A page box: `[left bottom right top]`.
#[derive(Clone, Copy, Debug, PartialEq, Eq)]
pub struct PdfBox {
    pub left: PdfNumber,
    pub bottom: PdfNumber,
    pub right: PdfNumber,
    pub top: PdfNumber,
}

/// The boxes and rotation of one page.
#[derive(Clone, Copy, Debug, PartialEq, Eq)]
pub struct PageGeometry {
    pub page_number: u32,
    pub media_box: PdfBox,
    pub crop_box: Option<PdfBox>,
    pub trim_box: Option<PdfBox>,
    pub bleed_box: Option<PdfBox>,
    pub art_box: Option<PdfBox>,
    pub rotation: i32,
}

/// A font resource of a page.
#[derive(Clone, Debug, PartialEq, Eq)]
pub struct FontInfo {
    pub page_number: u32,
    pub resource_name: String,
    pub base_name: Option<String>,
    pub subtype: Option<String>,
    pub embedded: bool,
    pub subset: bool,
    pub has_to_unicode: bool,
}

/// The colour space of an image.
#[derive(Clone, Copy, Debug, PartialEq, Eq, Structural)]
pub enum ImageColorSpace {
    DeviceRgb,
    DeviceCmyk,
    DeviceGray,
    IccRgb,
    IccCmyk,
    IccGray,
    Indexed,
    Separation,
    DeviceN,
    Unknown,
}

impl ImageColorSpace {
    /// Device or ICC-based RGB.
    pub open spec fn spec_is_rgb(self) -> bool {
        self == ImageColorSpace::DeviceRgb || self == ImageColorSpace::IccRgb
    }

    /// Device or ICC-based CMYK.
    pub open spec fn spec_is_cmyk(self) -> bool {
        self == ImageColorSpace::DeviceCmyk || self == ImageColorSpace::IccCmyk
    }

    /// Whether the colour space is Device or ICC-based RGB.
    #[verifier::when_used_as_spec(spec_is_rgb)]
    pub fn is_rgb(self) -> (r: bool)
        ensures
            r == self.spec_is_rgb(),
    {
        match self {
            ImageColorSpace::DeviceRgb | ImageColorSpace::IccRgb => true,
            _ => false,
        }
    }

    /// Whether the colour space is Device or ICC-based CMYK.
    #[verifier::when_used_as_spec(spec_is_cmyk)]
    pub fn is_cmyk(self) -> (r: bool)
        ensures
            r == self.spec_is_cmyk(),
    {
        match self {
            ImageColorSpace::DeviceCmyk | ImageColorSpace::IccCmyk => true,
            _ => false,
        }
    }
}

/// An image XObject of a page.
#[derive(Clone, Debug, PartialEq, Eq)]
pub struct ImageInfo {
    pub page_number: u32,
    pub resource_name: String,
    pub width: Option<i64>,
    pub height: Option<i64>,
    pub bits_per_component: Option<i64>,
    pub color_space: ImageColorSpace,
    pub has_soft_mask: bool,
    pub has_image_mask: bool,
    pub icc_sha256: Option<String>,
}

/// The kind of a transparency feature.
#[derive(Clone, Copy, Debug, PartialEq, Eq, Structural)]
pub enum TransparencyKind {
    SoftMask,
    ConstantAlpha,
    TransparencyGroup,
    BlendMode,
}

/// A transparency feature found on a page.
#[derive(Clone, Debug, PartialEq, Eq)]
pub struct TransparencyFinding {
    pub page_number: u32,
    pub kind: TransparencyKind,
    pub resource_name: Option<String>,
    pub detail: String,
}

/// What the header and tag table of an ICC profile say.
#[derive(Clone, Debug, PartialEq, Eq)]
pub struct IccProfileInfo {
    pub byte_length: usize,
    pub sha256: String,
    pub version: Option<String>,
    pub device_class: Option<String>,
    pub color_space: Option<String>,
    pub pcs: Option<String>,
    pub preferred_intent: Option<u32>,
    pub tags: Vec<String>,
}

/// The first OutputIntent of a document.
#[derive(Clone, Debug, PartialEq, Eq)]
pub struct OutputIntentInfo {
    pub subtype: Option<String>,
    pub output_condition: Option<String>,
    pub output_condition_identifier: Option<String>,
    pub info: Option<String>,
    pub registry_name: Option<String>,
    pub profile: Option<IccProfileInfo>,
}

/// Everything an inspection reports about a document.
#[derive(Clone, Debug, PartialEq, Eq)]
pub struct PdfInspectionResult {
    pub path: String,
    pub pdf_version: String,
    pub pdfx_claim: Option<String>,
    pub page_count: usize,
    pub pages: Vec<PageGeometry>,
    pub fonts: Vec<FontInfo>,
    pub images: Vec<ImageInfo>,
    pub transparency: Vec<TransparencyFinding>,
    pub output_intent: Option<OutputIntentInfo>,
}

/// The first OutputIntent together with the bytes of its profile.
#[derive(Clone, Debug, PartialEq, Eq)]
pub struct OutputIntentData {
    pub info: OutputIntentInfo,
    pub profile_bytes: Vec<u8>,
}

/// The characters of an optional string.
pub open spec fn opt_chars(o: Option<String>) -> Option<Seq<char>> {
    match o {
        Some(s) => Some(s@),
        None => None,
    }
}

/// A font resource, with its strings as characters.
pub struct FontView {
    pub page_number: u32,
    pub resource_name: Seq<char>,
    pub base_name: Option<Seq<char>>,
    pub subtype: Option<Seq<char>>,
    pub embedded: bool,
    pub subset: bool,
    pub has_to_unicode: bool,
}

impl View for FontInfo {
    type V = FontView;

    open spec fn view(&self) -> FontView {
        FontView {
            page_number: self.page_number,
            resource_name: self.resource_name@,
            base_name: opt_chars(self.base_name),
            subtype: opt_chars(self.subtype),
            embedded: self.embedded,
            subset: self.subset,
            has_to_unicode: self.has_to_unicode,
        }
    }
}

/// An image, with its strings as characters.
pub struct ImageView {
    pub page_number: u32,
    pub resource_name: Seq<char>,
    pub width: Option<i64>,
    pub height: Option<i64>,
    pub bits_per_component: Option<i64>,
    pub color_space: ImageColorSpace,
    pub has_soft_mask: bool,
    pub has_image_mask: bool,
    pub icc_sha256: Option<Seq<char>>,
}

impl View for ImageInfo {
    type V = ImageView;

    open spec fn view(&self) -> ImageView {
        ImageView {
            page_number: self.page_number,
            resource_name: self.resource_name@,
            width: self.width,
            height: self.height,
            bits_per_component: self.bits_per_component,
            color_space: self.color_space,
            has_soft_mask: self.has_soft_mask,
            has_image_mask: self.has_image_mask,
            icc_sha256: opt_chars(self.icc_sha256),
        }
    }
}

/// A transparency finding, with its strings as characters.
pub struct TransparencyView {
    pub page_number: u32,
    pub kind: TransparencyKind,
    pub resource_name: Option<Seq<char>>,
    pub detail: Seq<char>,
}

impl View for TransparencyFinding {
    type V = TransparencyView;

    open spec fn view(&self) -> TransparencyView {
        TransparencyView {
            page_number: self.page_number,
            kind: self.kind,
            resource_name: opt_chars(self.resource_name),
            detail: self.detail@,
        }
    }
}

/// An ICC profile summary, with its strings as characters.
pub struct IccView {
    pub byte_length: usize,
    pub sha256: Seq<char>,
    pub version: Option<Seq<char>>,
    pub device_class: Option<Seq<char>>,
    pub color_space: Option<Seq<char>>,
    pub pcs: Option<Seq<char>>,
    pub preferred_intent: Option<u32>,
    pub tags: Seq<Seq<char>>,
}

impl View for IccProfileInfo {
    type V = IccView;

    open spec fn view(&self) -> IccView {
        IccView {
            byte_length: self.byte_length,
            sha256: self.sha256@,
            version: opt_chars(self.version),
            device_class: opt_chars(self.device_class),
            color_space: opt_chars(self.color_space),
            pcs: opt_chars(self.pcs),
            preferred_intent: self.preferred_intent,
            tags: self.tags@.map_values(|t: String| t@),
        }
    }
}

/// An OutputIntent, with its strings as characters.
pub struct IntentView {
    pub subtype: Option<Seq<char>>,
    pub output_condition: Option<Seq<char>>,
    pub output_condition_identifier: Option<Seq<char>>,
    pub info: Option<Seq<char>>,
    pub registry_name: Option<Seq<char>>,
    pub profile: Option<IccView>,
}

impl View for OutputIntentInfo {
    type V = IntentView;

    open spec fn view(&self) -> IntentView {
        IntentView {
            subtype: opt_chars(self.subtype),
            output_condition: opt_chars(self.output_condition),
            output_condition_identifier: opt_chars(self.output_condition_identifier),
            info: opt_chars(self.info),
            registry_name: opt_chars(self.registry_name),
            profile: match self.profile {
                Some(p) => Some(p@),
                None => None,
            },
        }
    }
}

/// The fonts, as views.
pub open spec fn fonts_view(s: Seq<FontInfo>) -> Seq<FontView> {
    s.map_values(|f: FontInfo| f@)
}

/// The images, as views.
pub open spec fn images_view(s: Seq<ImageInfo>) -> Seq<ImageView> {
    s.map_values(|i: ImageInfo| i@)
}

/// The transparency findings, as views.
pub open spec fn transparency_view(s: Seq<TransparencyFinding>) -> Seq<TransparencyView> {
    s.map_values(|t: TransparencyFinding| t@)
}

/// An inspection result, with its strings as characters.
pub struct InspectionView {
    pub path: Seq<char>,
    pub pdf_version: Seq<char>,
    pub pdfx_claim: Option<Seq<char>>,
    pub page_count: usize,
    pub pages: Seq<PageGeometry>,
    pub fonts: Seq<FontView>,
    pub images: Seq<ImageView>,
    pub transparency: Seq<TransparencyView>,
    pub output_intent: Option<IntentView>,
}

impl View for PdfInspectionResult {
    type V = InspectionView;

    open spec fn view(&self) -> InspectionView {
        InspectionView {
            path: self.path@,
            pdf_version: self.pdf_version@,
            pdfx_claim: opt_chars(self.pdfx_claim),
            page_count: self.page_count,
            pages: self.pages@,
            fonts: fonts_view(self.fonts@),
            images: images_view(self.images@),
            transparency: transparency_view(self.transparency@),
            output_intent: match self.output_intent {
                Some(i) => Some(i@),
                None => None,
            },
        }
    }
}

/// The number of images whose colour space is RGB.
pub open spec fn count_rgb(images: Seq<ImageView>) -> nat
    decreases images.len(),
{
    if images.len() == 0 {
        0
    } else {
        count_rgb(images.drop_last()) + if images.last().color_space.spec_is_rgb() { 1nat } else { 0nat }
    }
}

/// The number of images whose colour space is CMYK.
pub open spec fn count_cmyk(images: Seq<ImageView>) -> nat
    decreases images.len(),
{
    if images.len() == 0 {
        0
    } else {
        count_cmyk(images.drop_last()) + if images.last().color_space.spec_is_cmyk() { 1nat } else { 0nat }
    }
}

impl PdfInspectionResult {
    /// The number of RGB images.
    pub fn rgb_image_count(&self) -> (n: usize)
        ensures
            n == count_rgb(self@.images),
    {
        let mut n: usize = 0;
        let mut i: usize = 0;
        while i < self.images.len()
            invariant
                i <= self.images.len(),
                n <= i,
                n == count_rgb(images_view(self.images@.take(i as int))),
            decreases self.images.len() - i,
        {
            proof {
                assert(images_view(self.images@.take(i + 1)).drop_last()
                    =~= images_view(self.images@.take(i as int)));
            }
            if self.images[i].color_space.is_rgb() {
                n = n + 1;
            }
            i = i + 1;
        }
        assert(self.images@.take(i as int) =~= self.images@);
        n
    }

    /// The number of CMYK images.
    pub fn cmyk_image_count(&self) -> (n: usize)
        ensures
            n == count_cmyk(self@.images),
    {
        let mut n: usize = 0;
        let mut i: usize = 0;
        while i < self.images.len()
            invariant
                i <= self.images.len(),
                n <= i,
                n == count_cmyk(images_view(self.images@.take(i as int))),
            decreases self.images.len() - i,
        {
            proof {
                assert(images_view(self.images@.take(i + 1)).drop_last()
                    =~= images_view(self.images@.take(i as int)));
            }
            if self.images[i].color_space.is_cmyk() {
                n = n + 1;
            }
            i = i + 1;
        }
        assert(self.images@.take(i as int) =~= self.images@);
        n
    }
}


/// No colour space is both RGB and CMYK.
pub proof fn lemma_rgb_and_cmyk_exclusive(c: ImageColorSpace)
    ensures
        !(c.spec_is_rgb() && c.spec_is_cmyk()),
{
}

/// The RGB and CMYK images together are at most all images.
pub proof fn lemma_color_counts_bounded(images: Seq<ImageView>)
    ensures
        count_rgb(images) + count_cmyk(images) <= images.len(),
    decreases images.len(),
{
    if images.len() > 0 {
        lemma_color_counts_bounded(images.drop_last());
        lemma_rgb_and_cmyk_exclusive(images.last().color_space);
    }
}

} // verus!
