//! Reading page geometry, fonts, images, transparency and the OutputIntent
//! out of a parsed document.
use std::collections::HashSet;
use vstd::prelude::*;
use vstd::set_lib::*;
use crate::error::OpenPrintPdfError;
use crate::digest::{hex_lower, name_to_string, sha256_hex, sha256_of, utf8_lossy};
use crate::models::{
    FontInfo, FontView, ImageColorSpace, ImageInfo, ImageView, IccView, InspectionView, IntentView, OutputIntentData,
    OutputIntentInfo, PageGeometry, PdfBox, PdfInspectionResult, PdfNumber, TransparencyFinding,
    TransparencyKind, TransparencyView, fonts_view, images_view, opt_chars, transparency_view,
};
use crate::pdf::{
    ObjectId, PdfDictionary, PdfDocument, PdfEntry, PdfObject, PdfStream, Resolved, entry_array,
    entry_dict, entry_name, entry_stream, key_of, object_key,
};
use crate::security::MAX_PDF_PAGES;
use crate::text::{ascii_key, decimal, append_decimal, key_bytes};

verus! {

broadcast use vstd::std_specs::hash::group_hash_axioms;

// ---------------------------------------------------------------- lookups

/// The dictionary `o` stands for, if it stands for one.
pub open spec fn object_dict(doc: PdfDocument, o: PdfObject) -> Option<PdfDictionary> {
    match doc.spec_resolve(o) {
        Ok(e) => match entry_dict(e) {
            Ok(d) => Some(d),
            Err(_) => None,
        },
        Err(_) => None,
    }
}

/// The name stored under `key` in `d`, references followed.
pub open spec fn dict_name(doc: PdfDocument, d: PdfDictionary, key: Seq<u8>) -> Option<Seq<u8>> {
    match d.spec_get(key) {
        Some(v) => match doc.spec_resolve(v) {
            Ok(e) => entry_name(e),
            Err(_) => None,
        },
        None => None,
    }
}

/// The name stored under `key` in the dictionary `o` stands for.
pub open spec fn object_name(doc: PdfDocument, o: PdfObject, key: Seq<u8>) -> Option<Seq<u8>> {
    match object_dict(doc, o) {
        Some(d) => dict_name(doc, d, key),
        None => None,
    }
}

/// The text of a string or name entry.
pub open spec fn entry_text(e: PdfEntry) -> Option<Seq<char>> {
    match e {
        PdfEntry::Object(PdfObject::String(b, _)) => Some(utf8_lossy(b@)),
        PdfEntry::Object(PdfObject::Name(b)) => Some(utf8_lossy(b@)),
        _ => None,
    }
}

/// The text stored under `key` in `d`, references followed.
pub open spec fn dict_text(doc: PdfDocument, d: PdfDictionary, key: Seq<u8>) -> Option<Seq<char>> {
    match d.spec_get(key) {
        Some(v) => match doc.spec_resolve(v) {
            Ok(e) => entry_text(e),
            Err(_) => None,
        },
        None => None,
    }
}

/// The integer stored directly under `key` in `d`.
pub open spec fn dict_integer(d: PdfDictionary, key: Seq<u8>) -> Option<i64> {
    match d.spec_get(key) {
        Some(PdfObject::Integer(v)) => Some(v),
        _ => None,
    }
}

/// The number a value is, if it is one.
pub open spec fn number_of(o: PdfObject) -> Option<PdfNumber> {
    match o {
        PdfObject::Integer(v) => Some(PdfNumber::Integer(v)),
        PdfObject::Real(b) => Some(PdfNumber::Real(b)),
        _ => None,
    }
}

/// The decoded text of an optional name.
pub open spec fn lossy_opt(o: Option<Seq<u8>>) -> Option<Seq<char>> {
    match o {
        Some(b) => Some(utf8_lossy(b)),
        None => None,
    }
}

/// The bytes of a stream: its decoded content, or its raw content where
/// decoding failed.
pub open spec fn stream_bytes(s: PdfStream) -> Seq<u8> {
    match s.decoded {
        Some(d) => d@,
        None => s.content@,
    }
}

fn stream_content(s: &PdfStream) -> (r: &Vec<u8>)
    ensures
        r@ == stream_bytes(*s),
{
    match &s.decoded {
        Some(d) => d,
        None => &s.content,
    }
}

fn get<'a>(d: &'a PdfDictionary, key: &str) -> (r: Option<&'a PdfObject>)
    ensures
        r matches Some(v) ==> d.spec_get(key_bytes(key@)) == Some(*v),
        r is None ==> d.spec_get(key_bytes(key@)) is None,
{
    let k = ascii_key(key);
    d.get(k.as_slice())
}

fn resolve_dict<'a>(doc: &'a PdfDocument, o: &'a PdfObject) -> (r: Option<&'a PdfDictionary>)
    ensures
        match (r, object_dict(*doc, *o)) {
            (Some(a), Some(b)) => *a == b,
            (None, None) => true,
            _ => false,
        },
{
    match doc.resolve(o) {
        Ok(e) => match e.as_dict() {
            Ok(d) => Some(d),
            Err(_) => None,
        },
        Err(_) => None,
    }
}

fn name_in_dict<'a>(doc: &'a PdfDocument, d: &'a PdfDictionary, key: &str) -> (r: Option<&'a Vec<u8>>)
    ensures
        match (r, dict_name(*doc, *d, key_bytes(key@))) {
            (Some(a), Some(b)) => a@ == b,
            (None, None) => true,
            _ => false,
        },
{
    match get(d, key) {
        Some(v) => match doc.resolve(v) {
            Ok(e) => e.as_name(),
            Err(_) => None,
        },
        None => None,
    }
}

fn name_in_object<'a>(doc: &'a PdfDocument, o: &'a PdfObject, key: &str) -> (r: Option<&'a Vec<u8>>)
    ensures
        match (r, object_name(*doc, *o, key_bytes(key@))) {
            (Some(a), Some(b)) => a@ == b,
            (None, None) => true,
            _ => false,
        },
{
    match resolve_dict(doc, o) {
        Some(d) => name_in_dict(doc, d, key),
        None => None,
    }
}

fn lossy_name(o: Option<&Vec<u8>>) -> (r: Option<String>)
    ensures
        opt_chars(r) == lossy_opt(match o { Some(b) => Some(b@), None => None }),
{
    match o {
        Some(b) => Some(name_to_string(b.as_slice())),
        None => None,
    }
}

fn text_in_dict(doc: &PdfDocument, d: &PdfDictionary, key: &str) -> (r: Option<String>)
    ensures
        opt_chars(r) == dict_text(*doc, *d, key_bytes(key@)),
{
    match get(d, key) {
        Some(v) => match doc.resolve(v) {
            Ok(Resolved::Direct(PdfObject::String(b, _))) => Some(name_to_string(b.as_slice())),
            Ok(Resolved::Entry(PdfEntry::Object(PdfObject::String(b, _)))) => Some(name_to_string(b.as_slice())),
            Ok(Resolved::Direct(PdfObject::Name(b))) => Some(name_to_string(b.as_slice())),
            Ok(Resolved::Entry(PdfEntry::Object(PdfObject::Name(b)))) => Some(name_to_string(b.as_slice())),
            _ => None,
        },
        None => None,
    }
}

fn integer_in_dict(d: &PdfDictionary, key: &str) -> (r: Option<i64>)
    ensures
        r == dict_integer(*d, key_bytes(key@)),
{
    match get(d, key) {
        Some(PdfObject::Integer(v)) => Some(*v),
        _ => None,
    }
}

fn number(o: &PdfObject) -> (r: Option<PdfNumber>)
    ensures
        r == number_of(*o),
{
    match o {
        PdfObject::Integer(v) => Some(PdfNumber::Integer(*v)),
        PdfObject::Real(b) => Some(PdfNumber::Real(*b)),
        _ => None,
    }
}

// ------------------------------------------------------- inherited values

/// The number of objects of the file not in `seen`.
pub open spec fn unseen(doc: PdfDocument, seen: Set<u64>) -> nat {
    doc.objects@.dom().difference(seen).len()
}

/// Marking one more object seen leaves no more unseen; fewer when it is an
/// object of the file not seen before.
pub proof fn lemma_unseen_insert(doc: PdfDocument, seen: Set<u64>, k: u64)
    ensures
        unseen(doc, seen.insert(k)) <= unseen(doc, seen),
        doc.objects@.contains_key(k) && !seen.contains(k) ==> unseen(doc, seen.insert(k)) < unseen(doc, seen),
{
    let dom = doc.objects@.dom();
    assert(dom.finite());
    assert(dom.difference(seen.insert(k)).subset_of(dom.difference(seen)));
    lemma_len_subset(dom.difference(seen.insert(k)), dom.difference(seen));
    if doc.objects@.contains_key(k) && !seen.contains(k) {
        assert(dom.difference(seen.insert(k)) =~= dom.difference(seen).remove(k));
    }
}

/// Seeing more objects leaves no more unseen.
pub proof fn lemma_unseen_superset(doc: PdfDocument, small: Set<u64>, big: Set<u64>)
    requires
        small.subset_of(big),
    ensures
        unseen(doc, big) <= unseen(doc, small),
{
    let dom = doc.objects@.dom();
    assert(dom.finite());
    assert(dom.difference(big).subset_of(dom.difference(small)));
    lemma_len_subset(dom.difference(big), dom.difference(small));
}

/// The value stored under `key` in page-tree node `id` or, failing that,
/// in its nearest ancestor that has it; the walk up `Parent` references
/// stops at a node already `visited`, at a node that is not a dictionary,
/// and at a node without a `Parent` reference.
pub open spec fn inherited_from(doc: PdfDocument, id: ObjectId, key: Seq<u8>, visited: Set<u64>) -> Option<PdfObject>
    decreases unseen(doc, visited),
{
    if visited.contains(object_key(id)) {
        None
    } else {
        match doc.spec_object(id) {
            Ok(e) => match entry_dict(e) {
                Ok(d) => match d.spec_get(key) {
                    Some(v) => Some(v),
                    None => match d.spec_get(key_bytes("Parent"@)) {
                        Some(PdfObject::Reference(parent)) => {
                            proof { lemma_unseen_insert(doc, visited, object_key(id)); }
                            inherited_from(doc, parent, key, visited.insert(object_key(id)))
                        },
                        _ => None,
                    },
                },
                Err(_) => None,
            },
            Err(_) => None,
        }
    }
}

/// The value a page inherits under `key`.
pub open spec fn inherited_object_of(doc: PdfDocument, id: ObjectId, key: Seq<u8>) -> Option<PdfObject> {
    inherited_from(doc, id, key, Set::empty())
}

fn inherited_object<'a>(doc: &'a PdfDocument, page_id: ObjectId, key: &str) -> (r: Option<&'a PdfObject>)
    ensures
        match (r, inherited_object_of(*doc, page_id, key_bytes(key@))) {
            (Some(a), Some(b)) => *a == b,
            (None, None) => true,
            _ => false,
        },
{
    let k = ascii_key(key);
    let parent_key = ascii_key("Parent");
    let mut visited: HashSet<u64> = HashSet::new();
    let mut id = page_id;
    loop
        invariant
            k@ == key_bytes(key@),
            parent_key@ == key_bytes("Parent"@),
            inherited_object_of(*doc, page_id, k@) == inherited_from(*doc, id, k@, visited@),
        decreases unseen(*doc, visited@),
    {
        let ghost before = visited@;
        let kid = key_of(id);
        if visited.contains(&kid) {
            return None;
        }
        visited.insert(kid);
        let d = match doc.object(id) {
            Ok(e) => {
                let r = Resolved::Entry(e);
                match r.as_dict() {
                    Ok(d) => d,
                    Err(_) => return None,
                }
            },
            Err(_) => return None,
        };
        if let Some(v) = d.get(k.as_slice()) {
            return Some(v);
        }
        match d.get(parent_key.as_slice()) {
            Some(PdfObject::Reference(p)) => {
                proof { lemma_unseen_insert(*doc, before, kid); }
                id = *p;
            },
            _ => return None,
        }
    }
}

fn inherited_integer(doc: &PdfDocument, page_id: ObjectId, key: &str) -> (r: Option<i64>)
    ensures
        r == match inherited_object_of(*doc, page_id, key_bytes(key@)) {
            Some(PdfObject::Integer(v)) => Some(v),
            _ => None,
        },
{
    match inherited_object(doc, page_id, key) {
        Some(PdfObject::Integer(v)) => Some(*v),
        _ => None,
    }
}

/// The box a page inherits under `key`: none, a box of four numbers, or the
/// error text.
pub open spec fn inherited_box_of(doc: PdfDocument, id: ObjectId, key: Seq<u8>) -> Result<Option<PdfBox>, Seq<char>> {
    match inherited_object_of(doc, id, key) {
        None => Ok(None),
        Some(o) => match doc.spec_resolve(o) {
            Err(m) => Err(m),
            Ok(e) => match entry_array(e) {
                Err(m) => Err(m),
                Ok(a) => if a.len() != 4 {
                    Err(utf8_lossy(key) + " must have four numbers"@)
                } else if number_of(a[0]) is None || number_of(a[1]) is None || number_of(a[2]) is None
                    || number_of(a[3]) is None {
                    Err(utf8_lossy(key) + " contains a non-numeric value"@)
                } else {
                    Ok(Some(PdfBox {
                        left: number_of(a[0]).unwrap(),
                        bottom: number_of(a[1]).unwrap(),
                        right: number_of(a[2]).unwrap(),
                        top: number_of(a[3]).unwrap(),
                    }))
                },
            },
        },
    }
}

fn inherited_box(doc: &PdfDocument, page_id: ObjectId, key: &str) -> (r: Result<Option<PdfBox>, String>)
    ensures
        match (r, inherited_box_of(*doc, page_id, key_bytes(key@))) {
            (Ok(a), Ok(b)) => a == b,
            (Err(a), Err(b)) => a@ == b,
            _ => false,
        },
{
    let object = match inherited_object(doc, page_id, key) {
        Some(o) => o,
        None => return Ok(None),
    };
    let array = match doc.resolve(object) {
        Err(m) => return Err(m),
        Ok(e) => match e.as_array() {
            Err(m) => return Err(m),
            Ok(a) => a,
        },
    };
    let k = ascii_key(key);
    if array.len() != 4 {
        let mut m = name_to_string(k.as_slice());
        m.append(" must have four numbers");
        return Err(m);
    }
    let left = number(&array[0]);
    let bottom = number(&array[1]);
    let right = number(&array[2]);
    let top = number(&array[3]);
    match (left, bottom, right, top) {
        (Some(left), Some(bottom), Some(right), Some(top)) => Ok(Some(PdfBox { left, bottom, right, top })),
        _ => {
            let mut m = name_to_string(k.as_slice());
            m.append(" contains a non-numeric value");
            Err(m)
        },
    }
}

// ------------------------------------------------------------------ fonts

/// Whether a font name carries a subset tag: six capital letters and `+`.
pub open spec fn is_subset_name(name: Seq<char>) -> bool {
    name.len() >= 7 && name[6] == '+' && forall|i: int| 0 <= i < 6 ==> 'A' <= #[trigger] name[i] <= 'Z'
}

/// Whether `name` starts with a subset tag: six capital letters and `+`.
pub fn is_subset_font_name(name: &str) -> (r: bool)
    ensures
        r == is_subset_name(name@),
{
    let c = crate::text::chars_of(name);
    if c.len() < 7 || c[6] != '+' {
        return false;
    }
    let mut i: usize = 0;
    while i < 6
        invariant
            i <= 6,
            c@ == name@,
            c@.len() >= 7,
            forall|j: int| 0 <= j < i ==> 'A' <= #[trigger] c@[j] <= 'Z',
        decreases 6 - i,
    {
        if !('A' <= c[i] && c[i] <= 'Z') {
            return false;
        }
        i = i + 1;
    }
    true
}

/// Whether the descriptor `o` stands for holds an embedded font program.
pub open spec fn descriptor_has_font_file(doc: PdfDocument, o: PdfObject) -> bool {
    match object_dict(doc, o) {
        Some(d) => d.spec_get(key_bytes("FontFile"@)) is Some || d.spec_get(key_bytes("FontFile2"@)) is Some
            || d.spec_get(key_bytes("FontFile3"@)) is Some,
        None => false,
    }
}

/// Whether a descendant font's descriptor holds an embedded font program.
pub open spec fn descendant_embedded(doc: PdfDocument, o: PdfObject) -> bool {
    match object_dict(doc, o) {
        Some(d) => match d.spec_get(key_bytes("FontDescriptor"@)) {
            Some(desc) => descriptor_has_font_file(doc, desc),
            None => false,
        },
        None => false,
    }
}

/// Whether a font, or one of its descendant fonts, embeds its program.
pub open spec fn font_embedded(doc: PdfDocument, font: PdfDictionary) -> bool {
    (match font.spec_get(key_bytes("FontDescriptor"@)) {
        Some(desc) => descriptor_has_font_file(doc, desc),
        None => false,
    }) || (match font.spec_get(key_bytes("DescendantFonts"@)) {
        Some(ds) => match doc.spec_resolve(ds) {
            Ok(e) => match entry_array(e) {
                Ok(a) => exists|i: int| 0 <= i < a.len() && #[trigger] descendant_embedded(doc, a[i]),
                Err(_) => false,
            },
            Err(_) => false,
        },
        None => false,
    })
}

fn descriptor_embeds(doc: &PdfDocument, o: &PdfObject) -> (r: bool)
    ensures
        r == descriptor_has_font_file(*doc, *o),
{
    match resolve_dict(doc, o) {
        Some(d) => get(d, "FontFile").is_some() || get(d, "FontFile2").is_some() || get(d, "FontFile3").is_some(),
        None => false,
    }
}

fn font_is_embedded(doc: &PdfDocument, font: &PdfDictionary) -> (r: bool)
    ensures
        r == font_embedded(*doc, *font),
{
    if let Some(desc) = get(font, "FontDescriptor") {
        if descriptor_embeds(doc, desc) {
            return true;
        }
    }
    let ds = match get(font, "DescendantFonts") {
        Some(ds) => ds,
        None => return false,
    };
    let a = match doc.resolve(ds) {
        Ok(e) => match e.as_array() {
            Ok(a) => a,
            Err(_) => return false,
        },
        Err(_) => return false,
    };
    let mut i: usize = 0;
    while i < a.len()
        invariant
            i <= a.len(),
            font.spec_get(key_bytes("DescendantFonts"@)) == Some(*ds),
            doc.spec_resolve(*ds) matches Ok(e) && entry_array(e) == Ok::<Seq<PdfObject>, Seq<char>>(a@),
            forall|j: int| 0 <= j < i ==> !descendant_embedded(*doc, #[trigger] a@[j]),
        decreases a.len() - i,
    {
        let found = match resolve_dict(doc, &a[i]) {
            Some(d) => match get(d, "FontDescriptor") {
                Some(desc) => descriptor_embeds(doc, desc),
                None => false,
            },
            None => false,
        };
        if found {
            assert(descendant_embedded(*doc, a@[i as int]));
            proof {
                if let Ok(e) = doc.spec_resolve(*ds) {
                    if let Ok(arr) = entry_array(e) {
                        assert(arr == a@);
                        assert(0 <= i < arr.len() && descendant_embedded(*doc, arr[i as int]));
                    }
                }
            }
            return true;
        }
        i = i + 1;
    }
    false
}

/// The report of the font `font` (from `font_object`) named `name` in the
/// resources of page `page`, whose resource names start with `prefix`.
pub open spec fn font_view_of(
    doc: PdfDocument,
    page: u32,
    prefix: Seq<char>,
    name: Seq<u8>,
    font_object: PdfObject,
    font: PdfDictionary,
) -> FontView {
    let base = lossy_opt(object_name(doc, font_object, key_bytes("BaseFont"@)));
    FontView {
        page_number: page,
        resource_name: prefix + utf8_lossy(name),
        base_name: base,
        subtype: lossy_opt(object_name(doc, font_object, key_bytes("Subtype"@))),
        embedded: font_embedded(doc, font),
        subset: match base {
            Some(b) => is_subset_name(b),
            None => false,
        },
        has_to_unicode: font.spec_get(key_bytes("ToUnicode"@)) is Some,
    }
}

/// The reports of the fonts among the first `n` entries of a font dictionary.
pub open spec fn font_views(
    doc: PdfDocument,
    entries: Seq<(Vec<u8>, PdfObject)>,
    n: nat,
    page: u32,
    prefix: Seq<char>,
) -> Seq<FontView>
    decreases n,
{
    if n == 0 || n > entries.len() {
        Seq::empty()
    } else {
        let before = font_views(doc, entries, (n - 1) as nat, page, prefix);
        let entry = entries[n - 1];
        match object_dict(doc, entry.1) {
            Some(font) => before.push(font_view_of(doc, page, prefix, entry.0@, entry.1, font)),
            None => before,
        }
    }
}

/// The reports of the fonts of a resource dictionary.
pub open spec fn resource_fonts(doc: PdfDocument, resources: PdfDictionary, page: u32, prefix: Seq<char>) -> Seq<FontView> {
    match resources.spec_get(key_bytes("Font"@)) {
        Some(fo) => match object_dict(doc, fo) {
            Some(fd) => font_views(doc, fd.entries@, fd.entries@.len(), page, prefix),
            None => Seq::empty(),
        },
        None => Seq::empty(),
    }
}

fn resource_name_of(prefix: &str, name: &Vec<u8>) -> (s: String)
    ensures
        s@ == prefix@ + utf8_lossy(name@),
{
    let mut s = String::from_str(prefix);
    let n = name_to_string(name.as_slice());
    s.append(n.as_str());
    s
}

fn inspect_fonts(
    doc: &PdfDocument,
    resources: &PdfDictionary,
    page: u32,
    prefix: &str,
    fonts: &mut Vec<FontInfo>,
)
    ensures
        fonts_view(final(fonts)@) == fonts_view(old(fonts)@) + resource_fonts(*doc, *resources, page, prefix@),
{
    let ghost start = fonts_view(fonts@);
    let fd = match get(resources, "Font") {
        Some(fo) => match resolve_dict(doc, fo) {
            Some(fd) => fd,
            None => {
                assert(fonts_view(fonts@) =~= start + Seq::<FontView>::empty());
                return;
            },
        },
        None => {
            assert(fonts_view(fonts@) =~= start + Seq::<FontView>::empty());
            return;
        },
    };
    let mut i: usize = 0;
    assert(fonts_view(fonts@) =~= start + font_views(*doc, fd.entries@, 0, page, prefix@));
    while i < fd.entries.len()
        invariant
            i <= fd.entries.len(),
            fonts_view(fonts@) == start + font_views(*doc, fd.entries@, i as nat, page, prefix@),
        decreases fd.entries.len() - i,
    {
        let name = &fd.entries[i].0;
        let font_object = &fd.entries[i].1;
        if let Some(font) = resolve_dict(doc, font_object) {
            let base_name = lossy_name(name_in_object(doc, font_object, "BaseFont"));
            let subset = match &base_name {
                Some(b) => is_subset_font_name(b.as_str()),
                None => false,
            };
            let info = FontInfo {
                page_number: page,
                resource_name: resource_name_of(prefix, name),
                subset,
                base_name,
                subtype: lossy_name(name_in_object(doc, font_object, "Subtype")),
                embedded: font_is_embedded(doc, font),
                has_to_unicode: get(font, "ToUnicode").is_some(),
            };
            let ghost before = fonts@;
            fonts.push(info);
            proof {
                assert(fonts_view(fonts@) =~= fonts_view(before).push(info@));
            }
        }
        i = i + 1;
    }
}

// ------------------------------------------------------- graphics states

/// Whether a number is below 0.999999: an integer below 1, or a real whose
/// single-precision value (given by its bits) is not NaN and lies below
/// 0.999999, that is, at most the value with bits `0x3F7FFFEF`.
pub open spec fn below_opaque(n: PdfNumber) -> bool {
    match n {
        PdfNumber::Integer(v) => v < 1,
        PdfNumber::Real(bits) => if bits < 0x8000_0000 {
            bits <= 0x3F7F_FFEF
        } else {
            bits - 0x8000_0000 <= 0x7F80_0000
        },
    }
}

fn number_below_opaque(n: PdfNumber) -> (r: bool)
    ensures
        r == below_opaque(n),
{
    match n {
        PdfNumber::Integer(v) => v < 1,
        PdfNumber::Real(bits) => if bits < 0x8000_0000 {
            bits <= 0x3F7F_FFEF
        } else {
            bits - 0x8000_0000 <= 0x7F80_0000
        },
    }
}

/// Whether an alpha entry is present, numeric and below 0.999999.
pub open spec fn alpha_translucent(state: PdfDictionary, key: Seq<u8>) -> bool {
    match state.spec_get(key) {
        Some(v) => match number_of(v) {
            Some(n) => below_opaque(n),
            None => false,
        },
        None => false,
    }
}

/// Whether a value stands for the name `name`.
pub open spec fn resolves_to_name(doc: PdfDocument, o: PdfObject, name: Seq<u8>) -> bool {
    match doc.spec_resolve(o) {
        Ok(e) => entry_name(e) == Some(name),
        Err(_) => false,
    }
}

/// Whether a blend-mode entry names a mode other than `Normal`.
pub open spec fn non_normal_blend(doc: PdfDocument, bm: PdfObject) -> bool {
    match doc.spec_resolve(bm) {
        Ok(PdfEntry::Object(PdfObject::Name(n))) => n@ != key_bytes("Normal"@),
        Ok(PdfEntry::Object(PdfObject::Array(modes))) => exists|i: int|
            0 <= i < modes@.len() && !resolves_to_name(doc, #[trigger] modes@[i], key_bytes("Normal"@)),
        _ => false,
    }
}

/// A finding named after resource `name`.
pub open spec fn finding(page: u32, kind: TransparencyKind, name: Option<Seq<char>>, detail: Seq<char>) -> TransparencyView {
    TransparencyView { page_number: page, kind, resource_name: name, detail }
}

/// The transparency findings of the graphics state `state` named `name`.
pub open spec fn state_findings(doc: PdfDocument, state: PdfDictionary, page: u32, name: Seq<char>) -> Seq<TransparencyView> {
    let a = if alpha_translucent(state, key_bytes("ca"@)) {
        seq![finding(page, TransparencyKind::ConstantAlpha, Some(name), utf8_lossy(key_bytes("ca"@)) + " is less than 1"@)]
    } else {
        Seq::empty()
    };
    let b = if alpha_translucent(state, key_bytes("CA"@)) {
        seq![finding(page, TransparencyKind::ConstantAlpha, Some(name), utf8_lossy(key_bytes("CA"@)) + " is less than 1"@)]
    } else {
        Seq::empty()
    };
    let c = match state.spec_get(key_bytes("BM"@)) {
        Some(bm) => if non_normal_blend(doc, bm) {
            seq![finding(page, TransparencyKind::BlendMode, Some(name), "non-Normal blend mode"@)]
        } else {
            Seq::empty()
        },
        None => Seq::empty(),
    };
    let d = match state.spec_get(key_bytes("SMask"@)) {
        Some(mask) => if !resolves_to_name(doc, mask, key_bytes("None"@)) {
            seq![finding(page, TransparencyKind::SoftMask, Some(name), "graphics state soft mask"@)]
        } else {
            Seq::empty()
        },
        None => Seq::empty(),
    };
    a + b + c + d
}

fn is_name(doc: &PdfDocument, o: &PdfObject, name: &str) -> (r: bool)
    ensures
        r == resolves_to_name(*doc, *o, key_bytes(name@)),
{
    let k = ascii_key(name);
    match doc.resolve(o) {
        Ok(e) => match e.as_name() {
            Some(n) => crate::pdf::bytes_equal(n.as_slice(), k.as_slice()),
            None => false,
        },
        Err(_) => false,
    }
}

fn blend_is_non_normal(doc: &PdfDocument, bm: &PdfObject) -> (r: bool)
    ensures
        r == non_normal_blend(*doc, *bm),
{
    let normal = ascii_key("Normal");
    match doc.resolve(bm) {
        Ok(Resolved::Direct(PdfObject::Name(n))) => !crate::pdf::bytes_equal(n.as_slice(), normal.as_slice()),
        Ok(Resolved::Entry(PdfEntry::Object(PdfObject::Name(n)))) => !crate::pdf::bytes_equal(n.as_slice(), normal.as_slice()),
        Ok(Resolved::Direct(PdfObject::Array(modes))) => any_not_normal(doc, modes),
        Ok(Resolved::Entry(PdfEntry::Object(PdfObject::Array(modes)))) => any_not_normal(doc, modes),
        _ => false,
    }
}

fn any_not_normal(doc: &PdfDocument, modes: &Vec<PdfObject>) -> (r: bool)
    ensures
        r == exists|i: int| 0 <= i < modes@.len() && !resolves_to_name(*doc, #[trigger] modes@[i], key_bytes("Normal"@)),
{
    let mut i: usize = 0;
    while i < modes.len()
        invariant
            i <= modes.len(),
            forall|j: int| 0 <= j < i ==> resolves_to_name(*doc, #[trigger] modes@[j], key_bytes("Normal"@)),
        decreases modes.len() - i,
    {
        if !is_name(doc, &modes[i], "Normal") {
            assert(!resolves_to_name(*doc, modes@[i as int], key_bytes("Normal"@)));
            return true;
        }
        i = i + 1;
    }
    false
}

fn push_finding(
    findings: &mut Vec<TransparencyFinding>,
    page: u32,
    kind: TransparencyKind,
    name: Option<String>,
    detail: String,
)
    ensures
        transparency_view(final(findings)@) == transparency_view(old(findings)@).push(
            finding(page, kind, opt_chars(name), detail@),
        ),
{
    let f = TransparencyFinding { page_number: page, kind, resource_name: name, detail };
    let ghost before = findings@;
    findings.push(f);
    assert(transparency_view(findings@) =~= transparency_view(before).push(f@));
}

fn alpha_key_translucent(state: &PdfDictionary, key: &str) -> (r: bool)
    ensures
        r == alpha_translucent(*state, key_bytes(key@)),
{
    match get(state, key) {
        Some(v) => match number(v) {
            Some(n) => number_below_opaque(n),
            None => false,
        },
        None => false,
    }
}

fn alpha_detail(key: &str) -> (s: String)
    ensures
        s@ == utf8_lossy(key_bytes(key@)) + " is less than 1"@,
{
    let k = ascii_key(key);
    let mut s = name_to_string(k.as_slice());
    s.append(" is less than 1");
    s
}

fn inspect_graphics_state(
    doc: &PdfDocument,
    state: &PdfDictionary,
    page: u32,
    name: String,
    findings: &mut Vec<TransparencyFinding>,
)
    ensures
        transparency_view(final(findings)@) == transparency_view(old(findings)@) + state_findings(
            *doc,
            *state,
            page,
            name@,
        ),
{
    let ghost start = transparency_view(findings@);
    let ghost nv = name@;
    if alpha_key_translucent(state, "ca") {
        push_finding(findings, page, TransparencyKind::ConstantAlpha, Some(name.clone()), alpha_detail("ca"));
    }
    let ghost after_a = transparency_view(findings@);
    if alpha_key_translucent(state, "CA") {
        push_finding(findings, page, TransparencyKind::ConstantAlpha, Some(name.clone()), alpha_detail("CA"));
    }
    let ghost after_b = transparency_view(findings@);
    if let Some(bm) = get(state, "BM") {
        if blend_is_non_normal(doc, bm) {
            push_finding(findings, page, TransparencyKind::BlendMode, Some(name.clone()), String::from_str("non-Normal blend mode"));
        }
    }
    let ghost after_c = transparency_view(findings@);
    if let Some(mask) = get(state, "SMask") {
        if !is_name(doc, mask, "None") {
            push_finding(findings, page, TransparencyKind::SoftMask, Some(name), String::from_str("graphics state soft mask"));
        }
    }
    proof {
        let sf = state_findings(*doc, *state, page, nv);
        assert(transparency_view(findings@) =~= start + sf);
    }
}

/// The transparency findings of the graphics states among the first `n`
/// entries of an ExtGState dictionary.
pub open spec fn states_views(
    doc: PdfDocument,
    entries: Seq<(Vec<u8>, PdfObject)>,
    n: nat,
    page: u32,
    prefix: Seq<char>,
) -> Seq<TransparencyView>
    decreases n,
{
    if n == 0 || n > entries.len() {
        Seq::empty()
    } else {
        let before = states_views(doc, entries, (n - 1) as nat, page, prefix);
        let entry = entries[n - 1];
        match object_dict(doc, entry.1) {
            Some(state) => before + state_findings(doc, state, page, prefix + utf8_lossy(entry.0@)),
            None => before,
        }
    }
}

/// The transparency findings of the graphics states of a resource dictionary.
pub open spec fn resource_states(doc: PdfDocument, resources: PdfDictionary, page: u32, prefix: Seq<char>) -> Seq<TransparencyView> {
    match resources.spec_get(key_bytes("ExtGState"@)) {
        Some(so) => match object_dict(doc, so) {
            Some(sd) => states_views(doc, sd.entries@, sd.entries@.len(), page, prefix),
            None => Seq::empty(),
        },
        None => Seq::empty(),
    }
}

fn inspect_states(
    doc: &PdfDocument,
    resources: &PdfDictionary,
    page: u32,
    prefix: &str,
    findings: &mut Vec<TransparencyFinding>,
)
    ensures
        transparency_view(final(findings)@) == transparency_view(old(findings)@) + resource_states(
            *doc,
            *resources,
            page,
            prefix@,
        ),
{
    let ghost start = transparency_view(findings@);
    let sd = match get(resources, "ExtGState") {
        Some(so) => match resolve_dict(doc, so) {
            Some(sd) => sd,
            None => {
                assert(transparency_view(findings@) =~= start + Seq::<TransparencyView>::empty());
                return;
            },
        },
        None => {
            assert(transparency_view(findings@) =~= start + Seq::<TransparencyView>::empty());
            return;
        },
    };
    let mut i: usize = 0;
    assert(transparency_view(findings@) =~= start + states_views(*doc, sd.entries@, 0, page, prefix@));
    while i < sd.entries.len()
        invariant
            i <= sd.entries.len(),
            transparency_view(findings@) == start + states_views(*doc, sd.entries@, i as nat, page, prefix@),
        decreases sd.entries.len() - i,
    {
        let name = &sd.entries[i].0;
        let state_object = &sd.entries[i].1;
        if let Some(state) = resolve_dict(doc, state_object) {
            let ghost before = transparency_view(findings@);
            inspect_graphics_state(doc, state, page, resource_name_of(prefix, name), findings);
            proof {
                assert(transparency_view(findings@) =~= start + states_views(*doc, sd.entries@, (i + 1) as nat, page, prefix@));
            }
        }
        i = i + 1;
    }
}

// ------------------------------------------------------------------ images

/// The colour space a `ColorSpace` value names, with the fingerprint of an
/// ICC profile it embeds.
pub open spec fn color_space_of(doc: PdfDocument, o: PdfObject) -> (ImageColorSpace, Option<Seq<char>>) {
    match doc.spec_resolve(o) {
        Ok(PdfEntry::Object(PdfObject::Name(n))) => (
            if n@ == key_bytes("DeviceRGB"@) {
                ImageColorSpace::DeviceRgb
            } else if n@ == key_bytes("DeviceCMYK"@) {
                ImageColorSpace::DeviceCmyk
            } else if n@ == key_bytes("DeviceGray"@) {
                ImageColorSpace::DeviceGray
            } else {
                ImageColorSpace::Unknown
            },
            None,
        ),
        Ok(PdfEntry::Object(PdfObject::Array(items))) => if items@.len() == 0 {
            (ImageColorSpace::Unknown, None)
        } else {
            let family = match doc.spec_resolve(items@[0]) {
                Ok(e) => entry_name(e),
                Err(_) => None,
            };
            if family == Some(key_bytes("ICCBased"@)) && items@.len() > 1 {
                match doc.spec_resolve(items@[1]) {
                    Ok(PdfEntry::Stream(p)) => {
                        let components = match dict_integer(p.dict, key_bytes("N"@)) {
                            Some(v) => v,
                            None => 0,
                        };
                        let bytes = stream_bytes(p);
                        (
                            if components == 1 {
                                ImageColorSpace::IccGray
                            } else if components == 3 {
                                ImageColorSpace::IccRgb
                            } else if components == 4 {
                                ImageColorSpace::IccCmyk
                            } else {
                                ImageColorSpace::Unknown
                            },
                            if bytes.len() > 0 { Some(hex_lower(sha256_of(bytes))) } else { None },
                        )
                    },
                    _ => (ImageColorSpace::Unknown, None),
                }
            } else if family == Some(key_bytes("Indexed"@)) {
                (ImageColorSpace::Indexed, None)
            } else if family == Some(key_bytes("Separation"@)) {
                (ImageColorSpace::Separation, None)
            } else if family == Some(key_bytes("DeviceN"@)) {
                (ImageColorSpace::DeviceN, None)
            } else {
                (ImageColorSpace::Unknown, None)
            }
        },
        _ => (ImageColorSpace::Unknown, None),
    }
}

fn name_equals(n: &Vec<u8>, key: &str) -> (r: bool)
    ensures
        r == (n@ == key_bytes(key@)),
{
    let k = ascii_key(key);
    crate::pdf::bytes_equal(n.as_slice(), k.as_slice())
}

fn opt_name_equals(n: Option<&Vec<u8>>, key: &str) -> (r: bool)
    ensures
        r == (match n { Some(b) => Some(b@), None => None } == Some(key_bytes(key@))),
{
    match n {
        Some(b) => name_equals(b, key),
        None => false,
    }
}

fn image_color_space(doc: &PdfDocument, o: &PdfObject) -> (r: (ImageColorSpace, Option<String>))
    ensures
        (r.0, opt_chars(r.1)) == color_space_of(*doc, *o),
{
    let e = match doc.resolve(o) {
        Ok(e) => e,
        Err(_) => return (ImageColorSpace::Unknown, None),
    };
    let items = match e {
        Resolved::Direct(PdfObject::Name(n)) | Resolved::Entry(PdfEntry::Object(PdfObject::Name(n))) => {
            let space = if name_equals(n, "DeviceRGB") {
                ImageColorSpace::DeviceRgb
            } else if name_equals(n, "DeviceCMYK") {
                ImageColorSpace::DeviceCmyk
            } else if name_equals(n, "DeviceGray") {
                ImageColorSpace::DeviceGray
            } else {
                ImageColorSpace::Unknown
            };
            return (space, None);
        },
        Resolved::Direct(PdfObject::Array(items)) | Resolved::Entry(PdfEntry::Object(PdfObject::Array(items))) => items,
        _ => return (ImageColorSpace::Unknown, None),
    };
    if items.len() == 0 {
        return (ImageColorSpace::Unknown, None);
    }
    let family = match doc.resolve(&items[0]) {
        Ok(f) => f.as_name(),
        Err(_) => None,
    };
    if opt_name_equals(family, "ICCBased") && items.len() > 1 {
        match doc.resolve(&items[1]) {
            Ok(Resolved::Entry(PdfEntry::Stream(p))) => {
                let components = match integer_in_dict(&p.dict, "N") {
                    Some(v) => v,
                    None => 0,
                };
                let bytes = stream_content(p);
                let space = if components == 1 {
                    ImageColorSpace::IccGray
                } else if components == 3 {
                    ImageColorSpace::IccRgb
                } else if components == 4 {
                    ImageColorSpace::IccCmyk
                } else {
                    ImageColorSpace::Unknown
                };
                let sha = if bytes.len() > 0 { Some(sha256_hex(bytes.as_slice())) } else { None };
                (space, sha)
            },
            _ => (ImageColorSpace::Unknown, None),
        }
    } else if opt_name_equals(family, "Indexed") {
        (ImageColorSpace::Indexed, None)
    } else if opt_name_equals(family, "Separation") {
        (ImageColorSpace::Separation, None)
    } else if opt_name_equals(family, "DeviceN") {
        (ImageColorSpace::DeviceN, None)
    } else {
        (ImageColorSpace::Unknown, None)
    }
}

/// Whether an image carries a soft mask other than `/None`.
pub open spec fn image_has_soft_mask(doc: PdfDocument, dict: PdfDictionary) -> bool {
    match dict.spec_get(key_bytes("SMask"@)) {
        Some(o) => !resolves_to_name(doc, o, key_bytes("None"@)),
        None => false,
    }
}

/// The report of the image `stream` named `name` on page `page`.
pub open spec fn image_view_of(doc: PdfDocument, stream: PdfStream, page: u32, name: Seq<char>) -> ImageView {
    let (space, sha) = match stream.dict.spec_get(key_bytes("ColorSpace"@)) {
        Some(o) => color_space_of(doc, o),
        None => (ImageColorSpace::Unknown, None),
    };
    ImageView {
        page_number: page,
        resource_name: name,
        width: dict_integer(stream.dict, key_bytes("Width"@)),
        height: dict_integer(stream.dict, key_bytes("Height"@)),
        bits_per_component: dict_integer(stream.dict, key_bytes("BitsPerComponent"@)),
        color_space: space,
        has_soft_mask: image_has_soft_mask(doc, stream.dict),
        has_image_mask: stream.dict.spec_get(key_bytes("ImageMask"@)) is Some || stream.dict.spec_get(
            key_bytes("Mask"@),
        ) is Some,
        icc_sha256: sha,
    }
}

/// The finding an image with a soft mask gives.
pub open spec fn image_findings(doc: PdfDocument, stream: PdfStream, page: u32, name: Seq<char>) -> Seq<TransparencyView> {
    if image_has_soft_mask(doc, stream.dict) {
        seq![finding(page, TransparencyKind::SoftMask, Some(name), "image soft mask (/SMask)"@)]
    } else {
        Seq::empty()
    }
}

fn inspect_image(
    doc: &PdfDocument,
    stream: &PdfStream,
    page: u32,
    name: String,
    images: &mut Vec<ImageInfo>,
    transparency: &mut Vec<TransparencyFinding>,
)
    ensures
        images_view(final(images)@) == images_view(old(images)@).push(image_view_of(*doc, *stream, page, name@)),
        transparency_view(final(transparency)@) == transparency_view(old(transparency)@) + image_findings(
            *doc,
            *stream,
            page,
            name@,
        ),
{
    let (color_space, icc_sha256) = match get(&stream.dict, "ColorSpace") {
        Some(o) => image_color_space(doc, o),
        None => (ImageColorSpace::Unknown, None),
    };
    let has_soft_mask = match get(&stream.dict, "SMask") {
        Some(o) => !is_name(doc, o, "None"),
        None => false,
    };
    let ghost start = transparency_view(transparency@);
    if has_soft_mask {
        push_finding(transparency, page, TransparencyKind::SoftMask, Some(name.clone()), String::from_str("image soft mask (/SMask)"));
    }
    assert(transparency_view(transparency@) =~= start + image_findings(*doc, *stream, page, name@));
    let info = ImageInfo {
        page_number: page,
        resource_name: name,
        width: integer_in_dict(&stream.dict, "Width"),
        height: integer_in_dict(&stream.dict, "Height"),
        bits_per_component: integer_in_dict(&stream.dict, "BitsPerComponent"),
        color_space,
        has_soft_mask,
        has_image_mask: get(&stream.dict, "ImageMask").is_some() || get(&stream.dict, "Mask").is_some(),
        icc_sha256,
    };
    let ghost before = images@;
    images.push(info);
    assert(images_view(images@) =~= images_view(before).push(info@));
}

// --------------------------------------------------------------- resources

/// What a walk over resources has gathered: the XObject references already
/// visited, and the reports so far.
#[verifier::ext_equal]
pub struct Findings {
    pub seen: Set<u64>,
    pub fonts: Seq<FontView>,
    pub images: Seq<ImageView>,
    pub transparency: Seq<TransparencyView>,
}

/// What the exec state of a walk has gathered.
pub open spec fn findings_of(
    seen: Set<u64>,
    fonts: Seq<FontInfo>,
    images: Seq<ImageInfo>,
    transparency: Seq<TransparencyFinding>,
) -> Findings {
    Findings {
        seen,
        fonts: fonts_view(fonts),
        images: images_view(images),
        transparency: transparency_view(transparency),
    }
}

/// The walk over the resources `o` stands for, on page `page`, with
/// resource names starting with `prefix`: fonts, then graphics states,
/// then XObjects in order, each Form XObject's own resources walked in
/// turn. An XObject reference met before is skipped. The error is the
/// text of a resource value that is not a dictionary.
pub open spec fn walk_resources(doc: PdfDocument, o: PdfObject, page: u32, prefix: Seq<char>, acc: Findings) -> Result<Findings, Seq<char>>
    decreases unseen(doc, acc.seen), 1nat, 0nat,
{
    match doc.spec_resolve(o) {
        Err(m) => Err(m),
        Ok(e) => match entry_dict(e) {
            Err(m) => Err(m),
            Ok(res) => {
                let acc1 = Findings {
                    seen: acc.seen,
                    fonts: acc.fonts + resource_fonts(doc, res, page, prefix),
                    images: acc.images,
                    transparency: acc.transparency + resource_states(doc, res, page, prefix),
                };
                match res.spec_get(key_bytes("XObject"@)) {
                    Some(xo) => match object_dict(doc, xo) {
                        Some(xd) => walk_xobjects(doc, xd.entries@, 0, page, prefix, acc1),
                        None => Ok(acc1),
                    },
                    None => Ok(acc1),
                }
            },
        },
    }
}

/// Whether the group entry `g` of a form is a transparency group.
pub open spec fn is_transparency_group(doc: PdfDocument, dict: PdfDictionary) -> bool {
    match dict.spec_get(key_bytes("Group"@)) {
        Some(g) => object_name(doc, g, key_bytes("S"@)) == Some(key_bytes("Transparency"@)),
        None => false,
    }
}

/// The walk over the XObject entries from `i` on.
pub open spec fn walk_xobjects(
    doc: PdfDocument,
    entries: Seq<(Vec<u8>, PdfObject)>,
    i: nat,
    page: u32,
    prefix: Seq<char>,
    acc: Findings,
) -> Result<Findings, Seq<char>>
    decreases unseen(doc, acc.seen), 0nat, entries.len() - i,
{
    if i >= entries.len() {
        Ok(acc)
    } else {
        let name = prefix + utf8_lossy(entries[i as int].0@);
        let xobject = entries[i as int].1;
        let skip = match xobject {
            PdfObject::Reference(id) => acc.seen.contains(object_key(id)),
            _ => false,
        };
        if skip {
            walk_xobjects(doc, entries, i + 1, page, prefix, acc)
        } else {
            let acc_s = match xobject {
                PdfObject::Reference(id) => Findings { seen: acc.seen.insert(object_key(id)), ..acc },
                _ => acc,
            };
            proof {
                if let PdfObject::Reference(id) = xobject {
                    lemma_unseen_insert(doc, acc.seen, object_key(id));
                }
            }
            match doc.spec_resolve(xobject) {
                Ok(PdfEntry::Stream(st)) => {
                    let subtype = dict_name(doc, st.dict, key_bytes("Subtype"@));
                    if subtype == Some(key_bytes("Image"@)) {
                        let acc_i = Findings {
                            images: acc_s.images.push(image_view_of(doc, st, page, name)),
                            transparency: acc_s.transparency + image_findings(doc, st, page, name),
                            ..acc_s
                        };
                        walk_xobjects(doc, entries, i + 1, page, prefix, acc_i)
                    } else if subtype == Some(key_bytes("Form"@)) {
                        let acc_g = if is_transparency_group(doc, st.dict) {
                            Findings {
                                transparency: acc_s.transparency.push(
                                    finding(page, TransparencyKind::TransparencyGroup, Some(name), "form transparency group"@),
                                ),
                                ..acc_s
                            }
                        } else {
                            acc_s
                        };
                        match st.dict.spec_get(key_bytes("Resources"@)) {
                            Some(nested) => match walk_resources(doc, nested, page, name + "/"@, acc_g) {
                                Err(m) => Err(m),
                                Ok(r) => {
                                    let next = Findings { seen: r.seen.union(acc_g.seen), ..r };
                                    proof {
                                        lemma_set_union_superset(r.seen, acc_g.seen);
                                        lemma_unseen_superset(doc, acc_g.seen, next.seen);
                                    }
                                    walk_xobjects(doc, entries, i + 1, page, prefix, next)
                                },
                            },
                            None => walk_xobjects(doc, entries, i + 1, page, prefix, acc_g),
                        }
                    } else {
                        walk_xobjects(doc, entries, i + 1, page, prefix, acc_s)
                    }
                },
                _ => walk_xobjects(doc, entries, i + 1, page, prefix, acc_s),
            }
        }
    }
}

/// `b` is a subset of `a` union `b`.
pub proof fn lemma_set_union_superset(a: Set<u64>, b: Set<u64>)
    ensures
        b.subset_of(a.union(b)),
{
}

#[verifier::spinoff_prover]
fn inspect_resources(
    doc: &PdfDocument,
    resources_object: &PdfObject,
    page: u32,
    prefix: &str,
    seen: &mut HashSet<u64>,
    fonts: &mut Vec<FontInfo>,
    images: &mut Vec<ImageInfo>,
    transparency: &mut Vec<TransparencyFinding>,
) -> (r: Result<(), String>)
    ensures
        old(seen)@.subset_of(final(seen)@),
        match walk_resources(*doc, *resources_object, page, prefix@, findings_of(old(seen)@, old(fonts)@, old(images)@, old(transparency)@)) {
            Ok(f) => r is Ok && findings_of(final(seen)@, final(fonts)@, final(images)@, final(transparency)@) == f,
            Err(m) => r matches Err(e) && e@ == m,
        },
    decreases unseen(*doc, old(seen)@), 1nat, 0nat,
{
    let ghost acc0 = findings_of(seen@, fonts@, images@, transparency@);
    assert(acc0.seen == old(seen)@);
    let resources = match doc.resolve(resources_object) {
        Err(m) => return Err(m),
        Ok(e) => match e.as_dict() {
            Err(m) => return Err(m),
            Ok(d) => d,
        },
    };
    inspect_fonts(doc, resources, page, prefix, fonts);
    inspect_states(doc, resources, page, prefix, transparency);
    let ghost acc1 = findings_of(seen@, fonts@, images@, transparency@);
    assert(acc1 =~= Findings {
        seen: acc0.seen,
        fonts: acc0.fonts + resource_fonts(*doc, *resources, page, prefix@),
        images: acc0.images,
        transparency: acc0.transparency + resource_states(*doc, *resources, page, prefix@),
    });
    let xd = match get(resources, "XObject") {
        Some(xo) => match resolve_dict(doc, xo) {
            Some(xd) => xd,
            None => return Ok(()),
        },
        None => return Ok(()),
    };
    let ghost entries = xd.entries@;
    let mut i: usize = 0;
    while i < xd.entries.len()
        invariant
            i <= xd.entries.len(),
            entries == xd.entries@,
            acc0.seen == old(seen)@,
            acc0 == findings_of(old(seen)@, old(fonts)@, old(images)@, old(transparency)@),
            acc0.seen.subset_of(seen@),
            unseen(*doc, seen@) <= unseen(*doc, acc0.seen),
            walk_xobjects(*doc, entries, 0, page, prefix@, acc1) == walk_xobjects(
                *doc,
                entries,
                i as nat,
                page,
                prefix@,
                findings_of(seen@, fonts@, images@, transparency@),
            ),
            walk_resources(*doc, *resources_object, page, prefix@, acc0) == walk_xobjects(*doc, entries, 0, page, prefix@, acc1),
        decreases xd.entries.len() - i,
    {
        let ghost acc = findings_of(seen@, fonts@, images@, transparency@);
        let name = &xd.entries[i].0;
        let xobject = &xd.entries[i].1;
        let resource_name = resource_name_of(prefix, name);
        let mut skip = false;
        if let PdfObject::Reference(id) = xobject {
            let k = key_of(*id);
            if seen.contains(&k) {
                skip = true;
            } else {
                seen.insert(k);
                proof { lemma_unseen_insert(*doc, acc.seen, k); }
            }
        }
        let ghost acc_s = findings_of(seen@, fonts@, images@, transparency@);
        if !skip {
            assert(acc_s == match *xobject {
                PdfObject::Reference(id) => Findings { seen: acc.seen.insert(object_key(id)), ..acc },
                _ => acc,
            });
            match doc.resolve(xobject) {
                Ok(Resolved::Entry(PdfEntry::Stream(stream))) => {
                    let subtype = name_in_dict(doc, &stream.dict, "Subtype");
                    if opt_name_equals(subtype, "Image") {
                        inspect_image(doc, stream, page, resource_name, images, transparency);
                    } else if opt_name_equals(subtype, "Form") {
                        let group = match get(&stream.dict, "Group") {
                            Some(g) => opt_name_equals(name_in_object(doc, g, "S"), "Transparency"),
                            None => false,
                        };
                        if group {
                            push_finding(
                                transparency,
                                page,
                                TransparencyKind::TransparencyGroup,
                                Some(resource_name.clone()),
                                String::from_str("form transparency group"),
                            );
                        }
                        let ghost acc_g = findings_of(seen@, fonts@, images@, transparency@);
                        proof {
                            if let PdfObject::Reference(id) = *xobject {
                                assert(doc.objects@.contains_key(object_key(id)));
                                lemma_unseen_insert(*doc, acc.seen, object_key(id));
                            }
                            assert(unseen(*doc, seen@) < unseen(*doc, acc0.seen));
                            assert(unseen(*doc, seen@) < unseen(*doc, old(seen)@));
                        }
                        if let Some(nested) = get(&stream.dict, "Resources") {
                            let mut nested_prefix = resource_name;
                            nested_prefix.append("/");
                            let r = inspect_resources(
                                doc,
                                nested,
                                page,
                                nested_prefix.as_str(),
                                seen,
                                fonts,
                                images,
                                transparency,
                            );
                            match r {
                                Err(m) => {
                                    assert(walk_xobjects(*doc, entries, i as nat, page, prefix@, acc) == Err::<Findings, Seq<char>>(m@));
                                    assert(acc0.seen.subset_of(acc_g.seen));
                                    assert(acc_g.seen.subset_of(seen@));
                                    return Err(m);
                                },
                                Ok(()) => {
                                    proof {
                                        let after = findings_of(seen@, fonts@, images@, transparency@);
                                        assert(after.seen.union(acc_g.seen) =~= after.seen);
                                        lemma_unseen_superset(*doc, acc0.seen, seen@);
                                    }
                                },
                            }
                        }
                    }
                },
                _ => {},
            }
        }
        proof {
            lemma_unseen_superset(*doc, acc0.seen, seen@);
        }
        i = i + 1;
    }
    Ok(())
}

// ------------------------------------------------------- output intent

/// The document catalog: the dictionary the trailer's `Root` stands for.
pub open spec fn catalog_of(doc: PdfDocument) -> Option<PdfDictionary> {
    match doc.trailer.spec_get(key_bytes("Root"@)) {
        Some(r) => object_dict(doc, r),
        None => None,
    }
}

/// The first entry of the catalog's `OutputIntents` array.
pub open spec fn first_output_intent(doc: PdfDocument) -> Option<PdfObject> {
    match catalog_of(doc) {
        Some(c) => match c.spec_get(key_bytes("OutputIntents"@)) {
            Some(o) => match doc.spec_resolve(o) {
                Ok(e) => match entry_array(e) {
                    Ok(a) => if a.len() > 0 { Some(a[0]) } else { None },
                    Err(_) => None,
                },
                Err(_) => None,
            },
            None => None,
        },
        None => None,
    }
}

/// The bytes of an OutputIntent's destination profile; empty without one.
pub open spec fn dest_profile_bytes(doc: PdfDocument, d: PdfDictionary) -> Seq<u8> {
    match d.spec_get(key_bytes("DestOutputProfile"@)) {
        Some(p) => match doc.spec_resolve(p) {
            Ok(PdfEntry::Stream(s)) => stream_bytes(s),
            _ => Seq::empty(),
        },
        None => Seq::empty(),
    }
}

/// The report of the OutputIntent dictionary `d`.
pub open spec fn intent_view_of(doc: PdfDocument, d: PdfDictionary) -> IntentView {
    let bytes = dest_profile_bytes(doc, d);
    IntentView {
        subtype: lossy_opt(dict_name(doc, d, key_bytes("S"@))),
        output_condition: dict_text(doc, d, key_bytes("OutputCondition"@)),
        output_condition_identifier: dict_text(doc, d, key_bytes("OutputConditionIdentifier"@)),
        info: dict_text(doc, d, key_bytes("Info"@)),
        registry_name: dict_text(doc, d, key_bytes("RegistryName"@)),
        profile: if bytes.len() > 0 { Some(crate::icc::icc_info(bytes)) } else { None },
    }
}

/// The first OutputIntent with its profile bytes; none where the catalog
/// has no `OutputIntents` array with an entry; the error text where that
/// entry is not a dictionary.
pub open spec fn output_intent_of(doc: PdfDocument) -> Result<Option<(IntentView, Seq<u8>)>, Seq<char>> {
    match first_output_intent(doc) {
        None => Ok(None),
        Some(first) => match doc.spec_resolve(first) {
            Err(m) => Err(m),
            Ok(e) => match entry_dict(e) {
                Err(m) => Err(m),
                Ok(d) => Ok(Some((intent_view_of(doc, d), dest_profile_bytes(doc, d)))),
            },
        },
    }
}

fn catalog(doc: &PdfDocument) -> (r: Option<&PdfDictionary>)
    ensures
        match (r, catalog_of(*doc)) {
            (Some(a), Some(b)) => *a == b,
            (None, None) => true,
            _ => false,
        },
{
    match get(&doc.trailer, "Root") {
        Some(root) => resolve_dict(doc, root),
        None => None,
    }
}

/// Reads the first OutputIntent of a document and the bytes of its
/// destination profile.
pub fn output_intent(doc: &PdfDocument) -> (r: Result<Option<OutputIntentData>, OpenPrintPdfError>)
    ensures
        match output_intent_of(*doc) {
            Ok(None) => r == Ok::<Option<OutputIntentData>, OpenPrintPdfError>(None),
            Ok(Some((v, b))) => r matches Ok(Some(data)) && data.info@ == v && data.profile_bytes@ == b,
            Err(m) => r matches Err(OpenPrintPdfError::InvalidPdf(e)) && e@ == m,
        },
{
    let c = match catalog(doc) {
        Some(c) => c,
        None => return Ok(None),
    };
    let intents = match get(c, "OutputIntents") {
        Some(o) => match doc.resolve(o) {
            Ok(e) => match e.as_array() {
                Ok(a) => a,
                Err(_) => return Ok(None),
            },
            Err(_) => return Ok(None),
        },
        None => return Ok(None),
    };
    if intents.len() == 0 {
        return Ok(None);
    }
    let d = match doc.resolve(&intents[0]) {
        Err(m) => return Err(OpenPrintPdfError::InvalidPdf(m)),
        Ok(e) => match e.as_dict() {
            Err(m) => return Err(OpenPrintPdfError::InvalidPdf(m)),
            Ok(d) => d,
        },
    };
    let profile_bytes: Vec<u8> = match get(d, "DestOutputProfile") {
        Some(p) => match doc.resolve(p) {
            Ok(Resolved::Entry(PdfEntry::Stream(s))) => stream_content(s).clone(),
            _ => Vec::new(),
        },
        None => Vec::new(),
    };
    let profile = if profile_bytes.len() > 0 {
        Some(crate::icc::parse_icc_profile(profile_bytes.as_slice()))
    } else {
        None
    };
    let info = OutputIntentInfo {
        subtype: lossy_name(name_in_dict(doc, d, "S")),
        output_condition: text_in_dict(doc, d, "OutputCondition"),
        output_condition_identifier: text_in_dict(doc, d, "OutputConditionIdentifier"),
        info: text_in_dict(doc, d, "Info"),
        registry_name: text_in_dict(doc, d, "RegistryName"),
        profile,
    };
    Ok(Some(OutputIntentData { info, profile_bytes }))
}

// ------------------------------------------------------------ PDF/X claim

/// The conformance, or else the version, recorded in the document
/// information dictionary.
pub open spec fn info_claim(doc: PdfDocument) -> Option<Seq<char>> {
    match doc.trailer.spec_get(key_bytes("Info"@)) {
        Some(i) => match object_dict(doc, i) {
            Some(info) => match dict_text(doc, info, key_bytes("GTS_PDFXConformance"@)) {
                Some(v) => Some(v),
                None => dict_text(doc, info, key_bytes("GTS_PDFXVersion"@)),
            },
            None => None,
        },
        None => None,
    }
}

/// The first of the PDF/X markers `PDF/X-1a:2001`, `PDF/X-1a`, `PDF/X-4`
/// and `PDF/X-3` found in the text of the catalog's metadata stream.
pub open spec fn metadata_claim(doc: PdfDocument) -> Option<Seq<char>> {
    match catalog_of(doc) {
        Some(c) => match c.spec_get(key_bytes("Metadata"@)) {
            Some(m) => match doc.spec_resolve(m) {
                Ok(PdfEntry::Stream(s)) => {
                    let text = utf8_lossy(stream_bytes(s));
                    if crate::text::contains_chars(text, "PDF/X-1a:2001"@) {
                        Some("PDF/X-1a:2001"@)
                    } else if crate::text::contains_chars(text, "PDF/X-1a"@) {
                        Some("PDF/X-1a"@)
                    } else if crate::text::contains_chars(text, "PDF/X-4"@) {
                        Some("PDF/X-4"@)
                    } else if crate::text::contains_chars(text, "PDF/X-3"@) {
                        Some("PDF/X-3"@)
                    } else {
                        None
                    }
                },
                _ => None,
            },
            None => None,
        },
        None => None,
    }
}

/// The PDF/X claim of a document: from its information dictionary, or else
/// from its metadata.
pub open spec fn pdfx_claim_of(doc: PdfDocument) -> Option<Seq<char>> {
    match info_claim(doc) {
        Some(v) => Some(v),
        None => metadata_claim(doc),
    }
}

fn pdfx_claim(doc: &PdfDocument) -> (r: Option<String>)
    ensures
        opt_chars(r) == pdfx_claim_of(*doc),
{
    if let Some(i) = get(&doc.trailer, "Info") {
        if let Some(info) = resolve_dict(doc, i) {
            let conformance = text_in_dict(doc, info, "GTS_PDFXConformance");
            if conformance.is_some() {
                return conformance;
            }
            let version = text_in_dict(doc, info, "GTS_PDFXVersion");
            if version.is_some() {
                return version;
            }
        }
    }
    let c = match catalog(doc) {
        Some(c) => c,
        None => return None,
    };
    let m = match get(c, "Metadata") {
        Some(m) => m,
        None => return None,
    };
    let s = match doc.resolve(m) {
        Ok(Resolved::Entry(PdfEntry::Stream(s))) => s,
        _ => return None,
    };
    let text = name_to_string(stream_content(s).as_slice());
    if crate::text::str_contains(text.as_str(), "PDF/X-1a:2001") {
        Some(String::from_str("PDF/X-1a:2001"))
    } else if crate::text::str_contains(text.as_str(), "PDF/X-1a") {
        Some(String::from_str("PDF/X-1a"))
    } else if crate::text::str_contains(text.as_str(), "PDF/X-4") {
        Some(String::from_str("PDF/X-4"))
    } else if crate::text::str_contains(text.as_str(), "PDF/X-3") {
        Some(String::from_str("PDF/X-3"))
    } else {
        None
    }
}

// ---------------------------------------------------------------- document

/// What the pages scanned so far have given.
#[verifier::ext_equal]
pub struct PagesScan {
    pub pages: Seq<PageGeometry>,
    pub fonts: Seq<FontView>,
    pub images: Seq<ImageView>,
    pub transparency: Seq<TransparencyView>,
}

/// The rotation a page inherits: its `Rotate` integer, truncated to 32
/// bits, or 0.
pub open spec fn rotation_of(doc: PdfDocument, id: ObjectId) -> i32 {
    match inherited_object_of(doc, id, key_bytes("Rotate"@)) {
        Some(PdfObject::Integer(v)) => v as i32,
        _ => 0,
    }
}

/// Whether a page dictionary declares a transparency group.
pub open spec fn page_group_transparent(doc: PdfDocument, page: PdfDictionary) -> bool {
    match page.spec_get(key_bytes("Group"@)) {
        Some(g) => object_name(doc, g, key_bytes("S"@)) == Some(key_bytes("Transparency"@)),
        None => false,
    }
}

/// The scan of page `number` (object `id`), after `acc`.
pub open spec fn page_step(doc: PdfDocument, acc: PagesScan, number: u32, id: ObjectId) -> Result<PagesScan, Seq<char>> {
    match doc.spec_object(id) {
        Err(m) => Err(m),
        Ok(e) => match entry_dict(e) {
            Err(m) => Err(m),
            Ok(page) => match inherited_box_of(doc, id, key_bytes("MediaBox"@)) {
                Err(m) => Err(m),
                Ok(None) => Err("page "@ + decimal(number as nat) + " has no MediaBox"@),
                Ok(Some(media)) => match inherited_box_of(doc, id, key_bytes("CropBox"@)) {
                    Err(m) => Err(m),
                    Ok(crop) => match inherited_box_of(doc, id, key_bytes("TrimBox"@)) {
                        Err(m) => Err(m),
                        Ok(trim) => match inherited_box_of(doc, id, key_bytes("BleedBox"@)) {
                            Err(m) => Err(m),
                            Ok(bleed) => match inherited_box_of(doc, id, key_bytes("ArtBox"@)) {
                                Err(m) => Err(m),
                                Ok(art) => {
                                    let geometry = PageGeometry {
                                        page_number: number,
                                        media_box: media,
                                        crop_box: crop,
                                        trim_box: trim,
                                        bleed_box: bleed,
                                        art_box: art,
                                        rotation: rotation_of(doc, id),
                                    };
                                    let t = if page_group_transparent(doc, page) {
                                        acc.transparency.push(
                                            finding(number, TransparencyKind::TransparencyGroup, None, "page transparency group"@),
                                        )
                                    } else {
                                        acc.transparency
                                    };
                                    match inherited_object_of(doc, id, key_bytes("Resources"@)) {
                                        Some(res) => match walk_resources(
                                            doc,
                                            res,
                                            number,
                                            Seq::empty(),
                                            Findings { seen: Set::empty(), fonts: acc.fonts, images: acc.images, transparency: t },
                                        ) {
                                            Err(m) => Err(m),
                                            Ok(f) => Ok(PagesScan {
                                                pages: acc.pages.push(geometry),
                                                fonts: f.fonts,
                                                images: f.images,
                                                transparency: f.transparency,
                                            }),
                                        },
                                        None => Ok(PagesScan {
                                            pages: acc.pages.push(geometry),
                                            fonts: acc.fonts,
                                            images: acc.images,
                                            transparency: t,
                                        }),
                                    }
                                },
                            },
                        },
                    },
                },
            },
        },
    }
}

/// The scan of the first `n` pages.
pub open spec fn scan_pages(doc: PdfDocument, n: nat) -> Result<PagesScan, Seq<char>>
    decreases n,
{
    if n == 0 || n > doc.pages@.len() {
        Ok(PagesScan { pages: Seq::empty(), fonts: Seq::empty(), images: Seq::empty(), transparency: Seq::empty() })
    } else {
        match scan_pages(doc, (n - 1) as nat) {
            Err(m) => Err(m),
            Ok(acc) => page_step(doc, acc, doc.pages@[n - 1].0, doc.pages@[n - 1].1),
        }
    }
}

/// The inspection of a document read from `path`; the error is the text
/// of the structural problem met first.
pub open spec fn inspection_of(path: Seq<char>, doc: PdfDocument) -> Result<InspectionView, Seq<char>> {
    match scan_pages(doc, doc.pages@.len()) {
        Err(m) => Err(m),
        Ok(acc) => match output_intent_of(doc) {
            Err(m) => Err(m),
            Ok(oi) => Ok(InspectionView {
                path,
                pdf_version: doc.version@,
                pdfx_claim: pdfx_claim_of(doc),
                page_count: acc.pages.len() as usize,
                pages: acc.pages,
                fonts: acc.fonts,
                images: acc.images,
                transparency: acc.transparency,
                output_intent: match oi {
                    Some((v, _)) => Some(v),
                    None => None,
                },
            }),
        },
    }
}

fn page_error(number: u32) -> (s: String)
    ensures
        s@ == "page "@ + decimal(number as nat) + " has no MediaBox"@,
{
    let mut s = String::from_str("page ");
    append_decimal(&mut s, number as u64);
    s.append(" has no MediaBox");
    s
}

/// What the exec state of a page scan has gathered.
pub open spec fn scan_of(
    pages: Seq<PageGeometry>,
    fonts: Seq<FontInfo>,
    images: Seq<ImageInfo>,
    transparency: Seq<TransparencyFinding>,
) -> PagesScan {
    PagesScan {
        pages,
        fonts: fonts_view(fonts),
        images: images_view(images),
        transparency: transparency_view(transparency),
    }
}

#[verifier::spinoff_prover]
fn inspect_page(
    doc: &PdfDocument,
    number: u32,
    id: ObjectId,
    pages: &mut Vec<PageGeometry>,
    fonts: &mut Vec<FontInfo>,
    images: &mut Vec<ImageInfo>,
    transparency: &mut Vec<TransparencyFinding>,
) -> (r: Result<(), String>)
    ensures
        match page_step(*doc, scan_of(old(pages)@, old(fonts)@, old(images)@, old(transparency)@), number, id) {
            Ok(a) => r is Ok && scan_of(final(pages)@, final(fonts)@, final(images)@, final(transparency)@) == a,
            Err(m) => r matches Err(e) && e@ == m,
        },
{
    let ghost acc = scan_of(pages@, fonts@, images@, transparency@);
    let page = match doc.object(id) {
        Err(m) => return Err(m),
        Ok(e) => {
            let r = Resolved::Entry(e);
            match r.as_dict() {
                Err(m) => return Err(m),
                Ok(d) => d,
            }
        },
    };
    let media = match inherited_box(doc, id, "MediaBox") {
        Err(m) => return Err(m),
        Ok(None) => return Err(page_error(number)),
        Ok(Some(b)) => b,
    };
    let crop = match inherited_box(doc, id, "CropBox") {
        Err(m) => return Err(m),
        Ok(b) => b,
    };
    let trim = match inherited_box(doc, id, "TrimBox") {
        Err(m) => return Err(m),
        Ok(b) => b,
    };
    let bleed = match inherited_box(doc, id, "BleedBox") {
        Err(m) => return Err(m),
        Ok(b) => b,
    };
    let art = match inherited_box(doc, id, "ArtBox") {
        Err(m) => return Err(m),
        Ok(b) => b,
    };
    let rotation: i32 = match inherited_integer(doc, id, "Rotate") {
        Some(v) => {
            #[verifier::truncate]
            let r = v as i32;
            r
        },
        None => 0,
    };
    pages.push(PageGeometry {
        page_number: number,
        media_box: media,
        crop_box: crop,
        trim_box: trim,
        bleed_box: bleed,
        art_box: art,
        rotation,
    });
    let group = match get(page, "Group") {
        Some(g) => opt_name_equals(name_in_object(doc, g, "S"), "Transparency"),
        None => false,
    };
    if group {
        push_finding(
            transparency,
            number,
            TransparencyKind::TransparencyGroup,
            None,
            String::from_str("page transparency group"),
        );
    }
    let ghost geometry = pages@.last();
    let ghost t = transparency_view(transparency@);
    proof {
        assert(pages@ == acc.pages.push(geometry));
        assert(t == if page_group_transparent(*doc, *page) {
            acc.transparency.push(finding(number, TransparencyKind::TransparencyGroup, None, "page transparency group"@))
        } else {
            acc.transparency
        });
        assert(geometry.rotation == rotation_of(*doc, id));
    }
    if let Some(resources) = inherited_object(doc, id, "Resources") {
        let mut seen: HashSet<u64> = HashSet::new();
        proof {
            reveal_strlit("");
        }
        assert(""@ =~= Seq::<char>::empty());
        let ghost before = findings_of(seen@, fonts@, images@, transparency@);
        assert(before =~= Findings { seen: Set::empty(), fonts: acc.fonts, images: acc.images, transparency: t });
        let r = inspect_resources(doc, resources, number, "", &mut seen, fonts, images, transparency);
        if let Err(m) = r {
            return Err(m);
        }
    }
    Ok(())
}

proof fn lemma_scan_error_persists(doc: PdfDocument, k: nat, n: nat)
    requires
        0 < k <= n <= doc.pages@.len(),
        scan_pages(doc, k) is Err,
    ensures
        scan_pages(doc, n) == scan_pages(doc, k),
    decreases n,
{
    if n > k {
        lemma_scan_error_persists(doc, k, (n - 1) as nat);
    }
}

/// Reports the pages, fonts, images, transparency, OutputIntent and PDF/X
/// claim of a parsed document read from `path`.
pub fn inspect_document(path: &str, doc: &PdfDocument) -> (r: Result<PdfInspectionResult, OpenPrintPdfError>)
    ensures
        match inspection_of(path@, *doc) {
            Ok(v) => r matches Ok(res) && res@ == v,
            Err(m) => r matches Err(OpenPrintPdfError::InvalidPdf(e)) && e@ == m,
        },
        r matches Ok(res) ==> res@.page_count == doc.pages@.len() && res@.pages.len() == doc.pages@.len(),
        r matches Ok(res) ==> forall|i: int|
            0 <= i < doc.pages@.len() ==> (#[trigger] res@.pages[i]).page_number == doc.pages@[i].0,
        r matches Ok(res) ==> forall|i: int|
            0 <= i < res@.fonts.len() ==> among_pages(*doc, (#[trigger] res@.fonts[i]).page_number, doc.pages@.len()),
        r matches Ok(res) ==> forall|i: int|
            0 <= i < res@.images.len() ==> among_pages(*doc, (#[trigger] res@.images[i]).page_number, doc.pages@.len()),
        r matches Ok(res) ==> forall|i: int| 0 <= i < res@.transparency.len() ==> among_pages(
            *doc,
            (#[trigger] res@.transparency[i]).page_number,
            doc.pages@.len(),
        ),
{
    let mut pages: Vec<PageGeometry> = Vec::new();
    let mut fonts: Vec<FontInfo> = Vec::new();
    let mut images: Vec<ImageInfo> = Vec::new();
    let mut transparency: Vec<TransparencyFinding> = Vec::new();
    let mut i: usize = 0;
    proof {
        assert(scan_of(pages@, fonts@, images@, transparency@) =~= PagesScan {
            pages: Seq::empty(),
            fonts: Seq::empty(),
            images: Seq::empty(),
            transparency: Seq::empty(),
        });
    }
    while i < doc.pages.len()
        invariant
            i <= doc.pages.len(),
            scan_pages(*doc, i as nat) == Ok::<PagesScan, Seq<char>>(scan_of(pages@, fonts@, images@, transparency@)),
        decreases doc.pages.len() - i,
    {
        let number = doc.pages[i].0;
        let id = doc.pages[i].1;
        let r = inspect_page(doc, number, id, &mut pages, &mut fonts, &mut images, &mut transparency);
        if let Err(m) = r {
            proof {
                lemma_scan_error_persists(*doc, (i + 1) as nat, doc.pages@.len());
            }
            return Err(OpenPrintPdfError::InvalidPdf(m));
        }
        i = i + 1;
    }
    let intent = match output_intent(doc) {
        Err(e) => return Err(e),
        Ok(Some(data)) => Some(data.info),
        Ok(None) => None,
    };
    let page_count = pages.len();
    let result = PdfInspectionResult {
        path: String::from_str(path),
        pdf_version: doc.version.clone(),
        pdfx_claim: pdfx_claim(doc),
        page_count,
        pages,
        fonts,
        images,
        transparency,
        output_intent: intent,
    };
    proof {
        if inspection_of(path@, *doc) is Ok {
            lemma_inspection_reports_every_page(path@, *doc);
            lemma_inspection_reports_on_pages(path@, *doc);
        }
    }
    Ok(result)
}


/// A page that scans adds exactly its own geometry to the pages so far.
pub proof fn lemma_page_step_adds_one_page(doc: PdfDocument, acc: PagesScan, number: u32, id: ObjectId)
    requires
        page_step(doc, acc, number, id) is Ok,
    ensures
        page_step(doc, acc, number, id)->Ok_0.pages.len() == acc.pages.len() + 1,
        page_step(doc, acc, number, id)->Ok_0.pages.drop_last() == acc.pages,
        page_step(doc, acc, number, id)->Ok_0.pages.last().page_number == number,
{
    let a = page_step(doc, acc, number, id)->Ok_0;
    assert(a.pages.drop_last() =~= acc.pages);
}

/// Scanning the first `n` pages yields one geometry per page, in page
/// order, numbered as the document numbers them.
pub proof fn lemma_scan_reports_every_page(doc: PdfDocument, n: nat)
    requires
        n <= doc.pages@.len(),
        scan_pages(doc, n) is Ok,
    ensures
        scan_pages(doc, n)->Ok_0.pages.len() == n,
        forall|i: int| 0 <= i < n ==> (#[trigger] scan_pages(doc, n)->Ok_0.pages[i]).page_number == doc.pages@[i].0,
    decreases n,
{
    if n > 0 {
        lemma_scan_reports_every_page(doc, (n - 1) as nat);
        let acc = scan_pages(doc, (n - 1) as nat)->Ok_0;
        lemma_page_step_adds_one_page(doc, acc, doc.pages@[n - 1].0, doc.pages@[n - 1].1);
        let pages = scan_pages(doc, n)->Ok_0.pages;
        assert forall|i: int| 0 <= i < n implies (#[trigger] pages[i]).page_number == doc.pages@[i].0 by {
            if i < n - 1 {
                assert(pages[i] == pages.drop_last()[i]);
            }
        }
    }
}

/// An inspection reports every page of the document, in page order, and
/// counts them.
pub proof fn lemma_inspection_reports_every_page(path: Seq<char>, doc: PdfDocument)
    requires
        inspection_of(path, doc) is Ok,
    ensures
        inspection_of(path, doc)->Ok_0.pages.len() == doc.pages@.len(),
        inspection_of(path, doc)->Ok_0.page_count == doc.pages@.len(),
        forall|i: int| 0 <= i < doc.pages@.len() ==> (#[trigger] inspection_of(path, doc)->Ok_0.pages[i]).page_number
            == doc.pages@[i].0,
{
    lemma_scan_reports_every_page(doc, doc.pages@.len());
    let v = inspection_of(path, doc)->Ok_0;
    assert(doc.pages@.len() == doc.pages.len());
    assert forall|i: int| 0 <= i < doc.pages@.len() implies (#[trigger] v.pages[i]).page_number == doc.pages@[i].0 by {
        assert(v.pages == scan_pages(doc, doc.pages@.len())->Ok_0.pages);
    }
}


/// `after` keeps `before` as it is and adds only fonts of page `page`.
pub open spec fn fonts_grow_on(before: Seq<FontView>, after: Seq<FontView>, page: u32) -> bool {
    &&& before.len() <= after.len()
    &&& forall|i: int| 0 <= i < before.len() ==> after[i] == before[i]
    &&& forall|i: int| before.len() <= i < after.len() ==> (#[trigger] after[i]).page_number == page
}

/// `after` keeps `before` as it is and adds only images of page `page`.
pub open spec fn images_grow_on(before: Seq<ImageView>, after: Seq<ImageView>, page: u32) -> bool {
    &&& before.len() <= after.len()
    &&& forall|i: int| 0 <= i < before.len() ==> after[i] == before[i]
    &&& forall|i: int| before.len() <= i < after.len() ==> (#[trigger] after[i]).page_number == page
}

/// `after` keeps `before` as it is and adds only findings of page `page`.
pub open spec fn findings_grow_on(before: Seq<TransparencyView>, after: Seq<TransparencyView>, page: u32) -> bool {
    &&& before.len() <= after.len()
    &&& forall|i: int| 0 <= i < before.len() ==> after[i] == before[i]
    &&& forall|i: int| before.len() <= i < after.len() ==> (#[trigger] after[i]).page_number == page
}

/// A walk's reports grow by reports of its page only.
pub open spec fn grows_on(before: Findings, after: Findings, page: u32) -> bool {
    &&& fonts_grow_on(before.fonts, after.fonts, page)
    &&& images_grow_on(before.images, after.images, page)
    &&& findings_grow_on(before.transparency, after.transparency, page)
}

proof fn lemma_grows_trans(a: Findings, b: Findings, c: Findings, page: u32)
    requires
        grows_on(a, b, page),
        grows_on(b, c, page),
    ensures
        grows_on(a, c, page),
{
    assert forall|i: int| a.fonts.len() <= i < c.fonts.len() implies (#[trigger] c.fonts[i]).page_number == page by {
        if i < b.fonts.len() {
            assert(c.fonts[i] == b.fonts[i]);
        }
    }
    assert forall|i: int| a.images.len() <= i < c.images.len() implies (#[trigger] c.images[i]).page_number == page by {
        if i < b.images.len() {
            assert(c.images[i] == b.images[i]);
        }
    }
    assert forall|i: int| a.transparency.len() <= i < c.transparency.len() implies (#[trigger] c.transparency[i]).page_number
        == page by {
        if i < b.transparency.len() {
            assert(c.transparency[i] == b.transparency[i]);
        }
    }
}

proof fn lemma_font_views_on(doc: PdfDocument, entries: Seq<(Vec<u8>, PdfObject)>, n: nat, page: u32, prefix: Seq<char>)
    ensures
        forall|i: int| 0 <= i < font_views(doc, entries, n, page, prefix).len() ==> (#[trigger] font_views(
            doc,
            entries,
            n,
            page,
            prefix,
        )[i]).page_number == page,
    decreases n,
{
    if n > 0 && n <= entries.len() {
        lemma_font_views_on(doc, entries, (n - 1) as nat, page, prefix);
    }
}

proof fn lemma_state_findings_on(doc: PdfDocument, state: PdfDictionary, page: u32, name: Seq<char>)
    ensures
        forall|i: int| 0 <= i < state_findings(doc, state, page, name).len() ==> (#[trigger] state_findings(
            doc,
            state,
            page,
            name,
        )[i]).page_number == page,
{
    let s = state_findings(doc, state, page, name);
    assert forall|i: int| 0 <= i < s.len() implies (#[trigger] s[i]).page_number == page by {
    }
}

proof fn lemma_states_views_on(doc: PdfDocument, entries: Seq<(Vec<u8>, PdfObject)>, n: nat, page: u32, prefix: Seq<char>)
    ensures
        forall|i: int| 0 <= i < states_views(doc, entries, n, page, prefix).len() ==> (#[trigger] states_views(
            doc,
            entries,
            n,
            page,
            prefix,
        )[i]).page_number == page,
    decreases n,
{
    if n > 0 && n <= entries.len() {
        lemma_states_views_on(doc, entries, (n - 1) as nat, page, prefix);
        let before = states_views(doc, entries, (n - 1) as nat, page, prefix);
        let entry = entries[n - 1];
        match object_dict(doc, entry.1) {
            Some(state) => {
                let name = prefix + utf8_lossy(entry.0@);
                lemma_state_findings_on(doc, state, page, name);
                let all = before + state_findings(doc, state, page, name);
                assert forall|i: int| 0 <= i < all.len() implies (#[trigger] all[i]).page_number == page by {
                    if i >= before.len() {
                        assert(all[i] == state_findings(doc, state, page, name)[i - before.len()]);
                    }
                }
            },
            None => {},
        }
    }
}

/// Walking resources on page `page` adds reports of that page only, after
/// those there were.
pub proof fn lemma_walk_resources_on_page(doc: PdfDocument, o: PdfObject, page: u32, prefix: Seq<char>, acc: Findings)
    requires
        walk_resources(doc, o, page, prefix, acc) is Ok,
    ensures
        grows_on(acc, walk_resources(doc, o, page, prefix, acc)->Ok_0, page),
    decreases unseen(doc, acc.seen), 1nat, 0nat,
{
    match doc.spec_resolve(o) {
        Err(_) => {},
        Ok(e) => match entry_dict(e) {
            Err(_) => {},
            Ok(res) => {
                let fonts = resource_fonts(doc, res, page, prefix);
                let states = resource_states(doc, res, page, prefix);
                let acc1 = Findings {
                    seen: acc.seen,
                    fonts: acc.fonts + fonts,
                    images: acc.images,
                    transparency: acc.transparency + states,
                };
                match res.spec_get(key_bytes("Font"@)) {
                    Some(fo) => match object_dict(doc, fo) {
                        Some(fd) => lemma_font_views_on(doc, fd.entries@, fd.entries@.len(), page, prefix),
                        None => {},
                    },
                    None => {},
                }
                match res.spec_get(key_bytes("ExtGState"@)) {
                    Some(so) => match object_dict(doc, so) {
                        Some(sd) => lemma_states_views_on(doc, sd.entries@, sd.entries@.len(), page, prefix),
                        None => {},
                    },
                    None => {},
                }
                assert forall|i: int| acc.fonts.len() <= i < acc1.fonts.len() implies (#[trigger] acc1.fonts[i]).page_number
                    == page by {
                    assert(acc1.fonts[i] == fonts[i - acc.fonts.len()]);
                }
                assert forall|i: int| acc.transparency.len() <= i < acc1.transparency.len() implies (
                #[trigger] acc1.transparency[i]).page_number == page by {
                    assert(acc1.transparency[i] == states[i - acc.transparency.len()]);
                }
                assert(grows_on(acc, acc1, page));
                match res.spec_get(key_bytes("XObject"@)) {
                    Some(xo) => match object_dict(doc, xo) {
                        Some(xd) => {
                            lemma_walk_xobjects_on_page(doc, xd.entries@, 0, page, prefix, acc1);
                            lemma_grows_trans(acc, acc1, walk_xobjects(doc, xd.entries@, 0, page, prefix, acc1)->Ok_0, page);
                        },
                        None => {},
                    },
                    None => {},
                }
            },
        },
    }
}

/// Walking XObject entries on page `page` adds reports of that page only,
/// after those there were.
pub proof fn lemma_walk_xobjects_on_page(
    doc: PdfDocument,
    entries: Seq<(Vec<u8>, PdfObject)>,
    i: nat,
    page: u32,
    prefix: Seq<char>,
    acc: Findings,
)
    requires
        walk_xobjects(doc, entries, i, page, prefix, acc) is Ok,
    ensures
        grows_on(acc, walk_xobjects(doc, entries, i, page, prefix, acc)->Ok_0, page),
    decreases unseen(doc, acc.seen), 0nat, entries.len() - i,
{
    if i < entries.len() {
        let name = prefix + utf8_lossy(entries[i as int].0@);
        let xobject = entries[i as int].1;
        let skip = match xobject {
            PdfObject::Reference(id) => acc.seen.contains(object_key(id)),
            _ => false,
        };
        if skip {
            lemma_walk_xobjects_on_page(doc, entries, i + 1, page, prefix, acc);
        } else {
            let acc_s = match xobject {
                PdfObject::Reference(id) => Findings { seen: acc.seen.insert(object_key(id)), ..acc },
                _ => acc,
            };
            if let PdfObject::Reference(id) = xobject {
                lemma_unseen_insert(doc, acc.seen, object_key(id));
            }
            assert(grows_on(acc, acc_s, page));
            match doc.spec_resolve(xobject) {
                Ok(PdfEntry::Stream(st)) => {
                    let subtype = dict_name(doc, st.dict, key_bytes("Subtype"@));
                    if subtype == Some(key_bytes("Image"@)) {
                        let found = image_findings(doc, st, page, name);
                        let acc_i = Findings {
                            images: acc_s.images.push(image_view_of(doc, st, page, name)),
                            transparency: acc_s.transparency + found,
                            ..acc_s
                        };
                        assert forall|k: int| acc_s.transparency.len() <= k < acc_i.transparency.len() implies (
                        #[trigger] acc_i.transparency[k]).page_number == page by {
                            assert(acc_i.transparency[k] == found[k - acc_s.transparency.len()]);
                        }
                        assert(grows_on(acc_s, acc_i, page));
                        lemma_walk_xobjects_on_page(doc, entries, i + 1, page, prefix, acc_i);
                        lemma_grows_trans(acc_s, acc_i, walk_xobjects(doc, entries, i + 1, page, prefix, acc_i)->Ok_0, page);
                        lemma_grows_trans(acc, acc_s, walk_xobjects(doc, entries, i + 1, page, prefix, acc_i)->Ok_0, page);
                    } else if subtype == Some(key_bytes("Form"@)) {
                        let acc_g = if is_transparency_group(doc, st.dict) {
                            Findings {
                                transparency: acc_s.transparency.push(
                                    finding(page, TransparencyKind::TransparencyGroup, Some(name), "form transparency group"@),
                                ),
                                ..acc_s
                            }
                        } else {
                            acc_s
                        };
                        assert(grows_on(acc_s, acc_g, page));
                        lemma_grows_trans(acc, acc_s, acc_g, page);
                        match st.dict.spec_get(key_bytes("Resources"@)) {
                            Some(nested) => {
                                lemma_walk_resources_on_page(doc, nested, page, name + "/"@, acc_g);
                                let r = walk_resources(doc, nested, page, name + "/"@, acc_g)->Ok_0;
                                let next = Findings { seen: r.seen.union(acc_g.seen), ..r };
                                lemma_set_union_superset(r.seen, acc_g.seen);
                                lemma_unseen_superset(doc, acc_g.seen, next.seen);
                                assert(grows_on(r, next, page));
                                lemma_grows_trans(acc_g, r, next, page);
                                lemma_grows_trans(acc, acc_g, next, page);
                                lemma_walk_xobjects_on_page(doc, entries, i + 1, page, prefix, next);
                                lemma_grows_trans(acc, next, walk_xobjects(doc, entries, i + 1, page, prefix, next)->Ok_0, page);
                            },
                            None => {
                                lemma_walk_xobjects_on_page(doc, entries, i + 1, page, prefix, acc_g);
                                lemma_grows_trans(acc, acc_g, walk_xobjects(doc, entries, i + 1, page, prefix, acc_g)->Ok_0, page);
                            },
                        }
                    } else {
                        lemma_walk_xobjects_on_page(doc, entries, i + 1, page, prefix, acc_s);
                        lemma_grows_trans(acc, acc_s, walk_xobjects(doc, entries, i + 1, page, prefix, acc_s)->Ok_0, page);
                    }
                },
                _ => {
                    lemma_walk_xobjects_on_page(doc, entries, i + 1, page, prefix, acc_s);
                    lemma_grows_trans(acc, acc_s, walk_xobjects(doc, entries, i + 1, page, prefix, acc_s)->Ok_0, page);
                },
            }
        }
    }
}


/// Scanning page `number` adds reports of that page only.
pub proof fn lemma_page_step_on_page(doc: PdfDocument, acc: PagesScan, number: u32, id: ObjectId)
    requires
        page_step(doc, acc, number, id) is Ok,
    ensures
        fonts_grow_on(acc.fonts, page_step(doc, acc, number, id)->Ok_0.fonts, number),
        images_grow_on(acc.images, page_step(doc, acc, number, id)->Ok_0.images, number),
        findings_grow_on(acc.transparency, page_step(doc, acc, number, id)->Ok_0.transparency, number),
{
    match doc.spec_object(id) {
        Err(_) => {},
        Ok(e) => match entry_dict(e) {
            Err(_) => {},
            Ok(page) => {
                let t = if page_group_transparent(doc, page) {
                    acc.transparency.push(
                        finding(number, TransparencyKind::TransparencyGroup, None, "page transparency group"@),
                    )
                } else {
                    acc.transparency
                };
                let start = Findings { seen: Set::empty(), fonts: acc.fonts, images: acc.images, transparency: t };
                let before = Findings { seen: Set::empty(), fonts: acc.fonts, images: acc.images, transparency: acc.transparency };
                assert(grows_on(before, start, number));
                match inherited_object_of(doc, id, key_bytes("Resources"@)) {
                    Some(res) => {
                        if walk_resources(doc, res, number, Seq::empty(), start) is Ok {
                            lemma_walk_resources_on_page(doc, res, number, Seq::empty(), start);
                            lemma_grows_trans(before, start, walk_resources(doc, res, number, Seq::empty(), start)->Ok_0, number);
                        }
                    },
                    None => {},
                }
            },
        },
    }
}

/// Whether `page` is the number of one of the first `n` pages.
pub open spec fn among_pages(doc: PdfDocument, page: u32, n: nat) -> bool {
    exists|k: int| 0 <= k < n && #[trigger] doc.pages@[k].0 == page
}

/// Every font, image and transparency finding of the first `n` pages is
/// on one of them.
pub proof fn lemma_scan_reports_on_pages(doc: PdfDocument, n: nat)
    requires
        n <= doc.pages@.len(),
        scan_pages(doc, n) is Ok,
    ensures
        forall|i: int| 0 <= i < scan_pages(doc, n)->Ok_0.fonts.len() ==> among_pages(
            doc,
            (#[trigger] scan_pages(doc, n)->Ok_0.fonts[i]).page_number,
            n,
        ),
        forall|i: int| 0 <= i < scan_pages(doc, n)->Ok_0.images.len() ==> among_pages(
            doc,
            (#[trigger] scan_pages(doc, n)->Ok_0.images[i]).page_number,
            n,
        ),
        forall|i: int| 0 <= i < scan_pages(doc, n)->Ok_0.transparency.len() ==> among_pages(
            doc,
            (#[trigger] scan_pages(doc, n)->Ok_0.transparency[i]).page_number,
            n,
        ),
    decreases n,
{
    if n > 0 {
        lemma_scan_reports_on_pages(doc, (n - 1) as nat);
        let acc = scan_pages(doc, (n - 1) as nat)->Ok_0;
        let number = doc.pages@[n - 1].0;
        lemma_page_step_on_page(doc, acc, number, doc.pages@[n - 1].1);
        let a = scan_pages(doc, n)->Ok_0;
        assert forall|i: int| 0 <= i < a.fonts.len() implies among_pages(doc, (#[trigger] a.fonts[i]).page_number, n) by {
            if i < acc.fonts.len() {
                assert(a.fonts[i] == acc.fonts[i]);
                assert(among_pages(doc, acc.fonts[i].page_number, (n - 1) as nat));
                let k = choose|k: int| 0 <= k < n - 1 && #[trigger] doc.pages@[k].0 == acc.fonts[i].page_number;
                assert(doc.pages@[k].0 == a.fonts[i].page_number);
            } else {
                assert(doc.pages@[n - 1].0 == a.fonts[i].page_number);
            }
        }
        assert forall|i: int| 0 <= i < a.images.len() implies among_pages(doc, (#[trigger] a.images[i]).page_number, n) by {
            if i < acc.images.len() {
                assert(a.images[i] == acc.images[i]);
                assert(among_pages(doc, acc.images[i].page_number, (n - 1) as nat));
                let k = choose|k: int| 0 <= k < n - 1 && #[trigger] doc.pages@[k].0 == acc.images[i].page_number;
                assert(doc.pages@[k].0 == a.images[i].page_number);
            } else {
                assert(doc.pages@[n - 1].0 == a.images[i].page_number);
            }
        }
        assert forall|i: int| 0 <= i < a.transparency.len() implies among_pages(
            doc,
            (#[trigger] a.transparency[i]).page_number,
            n,
        ) by {
            if i < acc.transparency.len() {
                assert(a.transparency[i] == acc.transparency[i]);
                assert(among_pages(doc, acc.transparency[i].page_number, (n - 1) as nat));
                let k = choose|k: int| 0 <= k < n - 1 && #[trigger] doc.pages@[k].0 == acc.transparency[i].page_number;
                assert(doc.pages@[k].0 == a.transparency[i].page_number);
            } else {
                assert(doc.pages@[n - 1].0 == a.transparency[i].page_number);
            }
        }
    }
}

/// Every font, image and transparency finding an inspection reports is on
/// a page of the document.
pub proof fn lemma_inspection_reports_on_pages(path: Seq<char>, doc: PdfDocument)
    requires
        inspection_of(path, doc) is Ok,
    ensures
        forall|i: int| 0 <= i < inspection_of(path, doc)->Ok_0.fonts.len() ==> among_pages(
            doc,
            (#[trigger] inspection_of(path, doc)->Ok_0.fonts[i]).page_number,
            doc.pages@.len(),
        ),
        forall|i: int| 0 <= i < inspection_of(path, doc)->Ok_0.images.len() ==> among_pages(
            doc,
            (#[trigger] inspection_of(path, doc)->Ok_0.images[i]).page_number,
            doc.pages@.len(),
        ),
        forall|i: int| 0 <= i < inspection_of(path, doc)->Ok_0.transparency.len() ==> among_pages(
            doc,
            (#[trigger] inspection_of(path, doc)->Ok_0.transparency[i]).page_number,
            doc.pages@.len(),
        ),
{
    lemma_scan_reports_on_pages(doc, doc.pages@.len());
    let v = inspection_of(path, doc)->Ok_0;
    let acc = scan_pages(doc, doc.pages@.len())->Ok_0;
    assert(v.fonts == acc.fonts);
    assert(v.images == acc.images);
    assert(v.transparency == acc.transparency);
}

/// Whether the pages are numbered 1 to n in page order, as the page list
/// of a loaded document is.
pub open spec fn pages_numbered_from_one(doc: PdfDocument) -> bool {
    forall|i: int| 0 <= i < doc.pages@.len() ==> #[trigger] doc.pages@[i].0 == i + 1
}

/// An inspection of a document whose pages are numbered 1 to n (as
/// `checked_pages` gives them) reports pages 1 to n, in order, counts n of
/// them, no more than the page limit where the document keeps to it, and
/// puts every font, image and transparency finding on one of those pages.
pub proof fn lemma_inspection_numbers_pages_from_one(path: Seq<char>, doc: PdfDocument)
    requires
        inspection_of(path, doc) is Ok,
        pages_numbered_from_one(doc),
    ensures
        inspection_of(path, doc)->Ok_0.page_count == doc.pages@.len(),
        inspection_of(path, doc)->Ok_0.pages.len() == doc.pages@.len(),
        forall|i: int| 0 <= i < doc.pages@.len() ==> (#[trigger] inspection_of(path, doc)->Ok_0.pages[i]).page_number
            == i + 1,
        doc.pages@.len() <= MAX_PDF_PAGES ==> inspection_of(path, doc)->Ok_0.page_count <= MAX_PDF_PAGES,
        forall|i: int| 0 <= i < inspection_of(path, doc)->Ok_0.fonts.len() ==> 1 <= (#[trigger] inspection_of(
            path,
            doc,
        )->Ok_0.fonts[i]).page_number <= doc.pages@.len(),
        forall|i: int| 0 <= i < inspection_of(path, doc)->Ok_0.images.len() ==> 1 <= (#[trigger] inspection_of(
            path,
            doc,
        )->Ok_0.images[i]).page_number <= doc.pages@.len(),
        forall|i: int| 0 <= i < inspection_of(path, doc)->Ok_0.transparency.len() ==> 1 <= (
        #[trigger] inspection_of(path, doc)->Ok_0.transparency[i]).page_number <= doc.pages@.len(),
{
    lemma_inspection_reports_every_page(path, doc);
    lemma_inspection_reports_on_pages(path, doc);
    let v = inspection_of(path, doc)->Ok_0;
    let n = doc.pages@.len();
    assert forall|i: int| 0 <= i < n implies (#[trigger] v.pages[i]).page_number == i + 1 by {
        assert(doc.pages@[i].0 == i + 1);
    }
    assert forall|i: int| 0 <= i < v.fonts.len() implies 1 <= (#[trigger] v.fonts[i]).page_number <= n by {
        assert(among_pages(doc, v.fonts[i].page_number, n));
        let k = choose|k: int| 0 <= k < n && #[trigger] doc.pages@[k].0 == v.fonts[i].page_number;
        assert(doc.pages@[k].0 == k + 1);
    }
    assert forall|i: int| 0 <= i < v.images.len() implies 1 <= (#[trigger] v.images[i]).page_number <= n by {
        assert(among_pages(doc, v.images[i].page_number, n));
        let k = choose|k: int| 0 <= k < n && #[trigger] doc.pages@[k].0 == v.images[i].page_number;
        assert(doc.pages@[k].0 == k + 1);
    }
    assert forall|i: int| 0 <= i < v.transparency.len() implies 1 <= (#[trigger] v.transparency[i]).page_number
        <= n by {
        assert(among_pages(doc, v.transparency[i].page_number, n));
        let k = choose|k: int| 0 <= k < n && #[trigger] doc.pages@[k].0 == v.transparency[i].page_number;
        assert(doc.pages@[k].0 == k + 1);
    }
}

/// Whether `d` holds a font program under one of the keys PDF gives it:
/// `FontFile` (Type 1), `FontFile2` (TrueType) or `FontFile3` (CFF and
/// OpenType).
pub open spec fn holds_font_program(d: PdfDictionary) -> bool {
    ||| d.spec_get(seq![70u8, 111u8, 110u8, 116u8, 70u8, 105u8, 108u8, 101u8]) is Some
    ||| d.spec_get(seq![70u8, 111u8, 110u8, 116u8, 70u8, 105u8, 108u8, 101u8, 50u8]) is Some
    ||| d.spec_get(seq![70u8, 111u8, 110u8, 116u8, 70u8, 105u8, 108u8, 101u8, 51u8]) is Some
}

/// A font whose descriptor holds a font program is reported embedded.
pub proof fn lemma_font_with_program_is_embedded(
    doc: PdfDocument,
    page: u32,
    prefix: Seq<char>,
    name: Seq<u8>,
    font_object: PdfObject,
    font: PdfDictionary,
    descriptor: PdfObject,
    descriptor_dict: PdfDictionary,
)
    requires
        font.spec_get(key_bytes("FontDescriptor"@)) == Some(descriptor),
        object_dict(doc, descriptor) == Some(descriptor_dict),
        holds_font_program(descriptor_dict),
    ensures
        font_view_of(doc, page, prefix, name, font_object, font).embedded,
{
    lemma_font_file_keys();
}

/// A font one of whose descendant fonts has a descriptor that holds a font
/// program is reported embedded.
pub proof fn lemma_font_with_descendant_program_is_embedded(
    doc: PdfDocument,
    page: u32,
    prefix: Seq<char>,
    name: Seq<u8>,
    font_object: PdfObject,
    font: PdfDictionary,
    descendants: PdfObject,
    k: int,
    descendant: PdfDictionary,
    descriptor: PdfObject,
    descriptor_dict: PdfDictionary,
)
    requires
        font.spec_get(key_bytes("DescendantFonts"@)) == Some(descendants),
        doc.spec_resolve(descendants) matches Ok(e) && entry_array(e) matches Ok(a) && 0 <= k < a.len()
            && object_dict(doc, a[k]) == Some(descendant),
        descendant.spec_get(key_bytes("FontDescriptor"@)) == Some(descriptor),
        object_dict(doc, descriptor) == Some(descriptor_dict),
        holds_font_program(descriptor_dict),
    ensures
        font_view_of(doc, page, prefix, name, font_object, font).embedded,
{
    lemma_font_file_keys();
    let a = entry_array(doc.spec_resolve(descendants)->Ok_0)->Ok_0;
    assert(descendant_embedded(doc, a[k]));
}

/// A font without descendant fonts whose descriptor is missing, or holds
/// no font program, is reported not embedded.
pub proof fn lemma_font_without_program_is_not_embedded(
    doc: PdfDocument,
    page: u32,
    prefix: Seq<char>,
    name: Seq<u8>,
    font_object: PdfObject,
    font: PdfDictionary,
)
    requires
        font.spec_get(key_bytes("DescendantFonts"@)) is None,
        match font.spec_get(key_bytes("FontDescriptor"@)) {
            Some(descriptor) => match object_dict(doc, descriptor) {
                Some(d) => !holds_font_program(d),
                None => true,
            },
            None => true,
        },
    ensures
        !font_view_of(doc, page, prefix, name, font_object, font).embedded,
{
    lemma_font_file_keys();
}

/// The keys of the three font programs, as bytes.
proof fn lemma_font_file_keys()
    ensures
        key_bytes("FontFile"@) == seq![70u8, 111u8, 110u8, 116u8, 70u8, 105u8, 108u8, 101u8],
        key_bytes("FontFile2"@) == seq![70u8, 111u8, 110u8, 116u8, 70u8, 105u8, 108u8, 101u8, 50u8],
        key_bytes("FontFile3"@) == seq![70u8, 111u8, 110u8, 116u8, 70u8, 105u8, 108u8, 101u8, 51u8],
{
    reveal_strlit("FontFile");
    reveal_strlit("FontFile2");
    reveal_strlit("FontFile3");
    assert(key_bytes("FontFile"@) =~= seq![70u8, 111u8, 110u8, 116u8, 70u8, 105u8, 108u8, 101u8]);
    assert(key_bytes("FontFile2"@) =~= seq![70u8, 111u8, 110u8, 116u8, 70u8, 105u8, 108u8, 101u8, 50u8]);
    assert(key_bytes("FontFile3"@) =~= seq![70u8, 111u8, 110u8, 116u8, 70u8, 105u8, 108u8, 101u8, 51u8]);
}

} // verus!
