//! The PDF/X-1a identification of a converted document: the XMP packet,
//! and the objects and entries that declare the output intent.
use vstd::prelude::*;
use vstd::utf8::encode_utf8;
use crate::error::OpenPrintPdfError;
use crate::pdf::{
    ObjectId, PdfDictionary, PdfDocument, PdfEntry, PdfObject, StringFormat, entry_dict, type_error_text, variant_name,
};
use crate::text::{ascii_key, key_bytes};

verus! {

/// The XMP packet that declares PDF/X-1:2001 version and PDF/X-1a:2001
/// conformance.
pub open spec fn xmp_packet() -> Seq<char> {
    "<?xpacket begin=\"\" id=\"W5M0MpCehiHzreSzNTczkc9d\"?>\n<x:xmpmeta xmlns:x=\"adobe:ns:meta/\">\n <rdf:RDF xmlns:rdf=\"http://www.w3.org/1999/02/22-rdf-syntax-ns#\">\n  <rdf:Description rdf:about=\"\"\n   xmlns:dc=\"http://purl.org/dc/elements/1.1/\"\n   xmlns:pdfx=\"http://ns.adobe.com/pdfx/1.3/\">\n   <dc:format>application/pdf</dc:format>\n   <pdfx:GTS_PDFXVersion>PDF/X-1:2001</pdfx:GTS_PDFXVersion>\n   <pdfx:GTS_PDFXConformance>PDF/X-1a:2001</pdfx:GTS_PDFXConformance>\n  </rdf:Description>\n </rdf:RDF>\n</x:xmpmeta>\n<?xpacket end=\"w\"?>"@
}

/// The XMP metadata packet of a PDF/X-1a document.
pub fn pdfx_metadata() -> (r: &'static str)
    ensures
        r@ == xmp_packet(),
{
    "<?xpacket begin=\"\" id=\"W5M0MpCehiHzreSzNTczkc9d\"?>\n<x:xmpmeta xmlns:x=\"adobe:ns:meta/\">\n <rdf:RDF xmlns:rdf=\"http://www.w3.org/1999/02/22-rdf-syntax-ns#\">\n  <rdf:Description rdf:about=\"\"\n   xmlns:dc=\"http://purl.org/dc/elements/1.1/\"\n   xmlns:pdfx=\"http://ns.adobe.com/pdfx/1.3/\">\n   <dc:format>application/pdf</dc:format>\n   <pdfx:GTS_PDFXVersion>PDF/X-1:2001</pdfx:GTS_PDFXVersion>\n   <pdfx:GTS_PDFXConformance>PDF/X-1a:2001</pdfx:GTS_PDFXConformance>\n  </rdf:Description>\n </rdf:RDF>\n</x:xmpmeta>\n<?xpacket end=\"w\"?>"
}

/// What the new Info dictionary starts from: nothing, the dictionary the
/// trailer holds, or the dictionary object the trailer refers to.
#[derive(Clone, Copy, Debug, PartialEq, Eq)]
pub enum InfoBase {
    Empty,
    Trailer,
    Object(ObjectId),
}

/// What identifies a converted document as PDF/X-1a. Applied in this
/// order: set the version; add the profile stream, the OutputIntent, the
/// metadata stream and the Info dictionary (the base with `info_entries`
/// set on it) as new objects, which take the ids given here; point the
/// trailer's `Info` at the new Info; set `catalog_entries` on the catalog.
pub struct PdfxIdentification {
    pub version: String,
    pub root_id: ObjectId,
    pub profile_id: ObjectId,
    pub profile_dict: PdfDictionary,
    pub profile_content: Vec<u8>,
    pub output_intent_id: ObjectId,
    pub output_intent: PdfDictionary,
    pub metadata_id: ObjectId,
    pub metadata_dict: PdfDictionary,
    pub metadata_content: Vec<u8>,
    pub info_id: ObjectId,
    pub info_base: InfoBase,
    pub info_entries: PdfDictionary,
    pub catalog_entries: PdfDictionary,
}

/// The catalog's object number, or the text of the error met reading the
/// trailer's `Root` reference.
pub open spec fn root_of(doc: PdfDocument) -> Result<ObjectId, Seq<char>> {
    match doc.trailer.spec_get(key_bytes("Root"@)) {
        None => Err("missing required dictionary key \"Root\""@),
        Some(PdfObject::Reference(id)) => Ok(id),
        Some(o) => Err(type_error_text("Reference"@, variant_name(o))),
    }
}

/// What the document's Info dictionary is.
pub open spec fn info_base_of(doc: PdfDocument) -> InfoBase {
    match doc.trailer.spec_get(key_bytes("Info"@)) {
        Some(PdfObject::Reference(id)) => match doc.spec_object(id) {
            Ok(PdfEntry::Object(PdfObject::Dictionary(_))) => InfoBase::Object(id),
            _ => InfoBase::Empty,
        },
        Some(PdfObject::Dictionary(_)) => InfoBase::Trailer,
        _ => InfoBase::Empty,
    }
}

/// An entry `key` whose value is the name `name`.
pub open spec fn is_name_entry(e: (Vec<u8>, PdfObject), key: Seq<char>, name: Seq<char>) -> bool {
    e.0@ == key_bytes(key) && (e.1 matches PdfObject::Name(n) && n@ == key_bytes(name))
}

/// An entry `key` whose value is the literal string `bytes`.
pub open spec fn is_string_entry(e: (Vec<u8>, PdfObject), key: Seq<char>, bytes: Seq<u8>) -> bool {
    e.0@ == key_bytes(key) && (e.1 matches PdfObject::String(s, f) && s@ == bytes && f == StringFormat::Literal)
}

/// An entry `key` whose value is the integer `v`.
pub open spec fn is_integer_entry(e: (Vec<u8>, PdfObject), key: Seq<char>, v: i64) -> bool {
    e.0@ == key_bytes(key) && e.1 == PdfObject::Integer(v)
}

/// An entry `key` whose value refers to object `id`.
pub open spec fn is_reference_entry(e: (Vec<u8>, PdfObject), key: Seq<char>, id: ObjectId) -> bool {
    e.0@ == key_bytes(key) && e.1 == PdfObject::Reference(id)
}

/// An entry `key` whose value is an array of one reference to `id`.
pub open spec fn is_reference_array_entry(e: (Vec<u8>, PdfObject), key: Seq<char>, id: ObjectId) -> bool {
    e.0@ == key_bytes(key) && (e.1 matches PdfObject::Array(a) && a@.len() == 1 && a@[0] == PdfObject::Reference(id))
}

/// Whether `p` is the identification of `doc` (whose highest object
/// number is `max_id` and whose catalog is `root`) for the profile
/// `profile`, the output condition `description` and its identifier.
pub open spec fn identifies(
    p: PdfxIdentification,
    doc: PdfDocument,
    max_id: u32,
    root: ObjectId,
    profile: Seq<u8>,
    description: Seq<char>,
    identifier: Seq<char>,
) -> bool {
    let oi = p.output_intent.entries@;
    &&& p.version@ == "1.3"@
    &&& p.root_id == root
    &&& p.profile_id == ((max_id + 1) as u32, 0u16)
    &&& p.output_intent_id == ((max_id + 2) as u32, 0u16)
    &&& p.metadata_id == ((max_id + 3) as u32, 0u16)
    &&& p.info_id == ((max_id + 4) as u32, 0u16)
    &&& p.profile_dict.entries@.len() == 2
    &&& is_integer_entry(p.profile_dict.entries@[0], "N"@, 4)
    &&& is_name_entry(p.profile_dict.entries@[1], "Alternate"@, "DeviceCMYK"@)
    &&& p.profile_content@ == profile
    &&& oi.len() == 7
    &&& is_name_entry(oi[0], "Type"@, "OutputIntent"@)
    &&& is_name_entry(oi[1], "S"@, "GTS_PDFX"@)
    &&& is_string_entry(oi[2], "OutputCondition"@, encode_utf8(description))
    &&& is_string_entry(oi[3], "Info"@, encode_utf8(description))
    &&& is_string_entry(oi[4], "OutputConditionIdentifier"@, encode_utf8(identifier))
    &&& is_string_entry(oi[5], "RegistryName"@, encode_utf8("http://www.color.org"@))
    &&& is_reference_entry(oi[6], "DestOutputProfile"@, p.profile_id)
    &&& p.metadata_dict.entries@.len() == 2
    &&& is_name_entry(p.metadata_dict.entries@[0], "Type"@, "Metadata"@)
    &&& is_name_entry(p.metadata_dict.entries@[1], "Subtype"@, "XML"@)
    &&& p.metadata_content@ == encode_utf8(xmp_packet())
    &&& p.info_base == info_base_of(doc)
    &&& p.info_entries.entries@.len() == 3
    &&& is_string_entry(p.info_entries.entries@[0], "GTS_PDFXVersion"@, encode_utf8("PDF/X-1:2001"@))
    &&& is_string_entry(p.info_entries.entries@[1], "GTS_PDFXConformance"@, encode_utf8("PDF/X-1a:2001"@))
    &&& is_name_entry(p.info_entries.entries@[2], "Trapped"@, "False"@)
    &&& p.catalog_entries.entries@.len() == 2
    &&& is_reference_array_entry(p.catalog_entries.entries@[0], "OutputIntents"@, p.output_intent_id)
    &&& is_reference_entry(p.catalog_entries.entries@[1], "Metadata"@, p.metadata_id)
}

fn name_entry(key: &str, name: &str) -> (e: (Vec<u8>, PdfObject))
    ensures
        is_name_entry(e, key@, name@),
{
    (ascii_key(key), PdfObject::Name(ascii_key(name)))
}

fn string_entry(key: &str, value: &str) -> (e: (Vec<u8>, PdfObject))
    ensures
        is_string_entry(e, key@, encode_utf8(value@)),
{
    let bytes = vstd::slice::slice_to_vec(value.as_bytes());
    (ascii_key(key), PdfObject::String(bytes, StringFormat::Literal))
}

/// The identification that declares `doc` PDF/X-1a with the destination
/// profile `profile_bytes`, the output condition `description` and its
/// `output_condition_identifier`. New objects are numbered after
/// `max_id`, the highest object number of the document. Refused, with the
/// text of the error, when the trailer has no `Root` reference or the
/// catalog is not a dictionary.
#[verifier::spinoff_prover]
pub fn pdfx1a_identification(
    doc: &PdfDocument,
    max_id: u32,
    profile_bytes: &[u8],
    description: &str,
    output_condition_identifier: &str,
) -> (r: Result<PdfxIdentification, OpenPrintPdfError>)
    requires
        max_id <= u32::MAX - 4,
    ensures
        match root_of(*doc) {
            Err(m) => r matches Err(OpenPrintPdfError::InvalidPdf(e)) && e@ == m,
            Ok(root) => match doc.spec_object(root) {
                Err(m) => r matches Err(OpenPrintPdfError::InvalidPdf(e)) && e@ == m,
                Ok(entry) => match entry_dict(entry) {
                    Err(m) => r matches Err(OpenPrintPdfError::InvalidPdf(e)) && e@ == m,
                    Ok(_) => r matches Ok(p) && identifies(
                        p,
                        *doc,
                        max_id,
                        root,
                        profile_bytes@,
                        description@,
                        output_condition_identifier@,
                    ),
                },
            },
        },
{
    let root_key = ascii_key("Root");
    let root_id = match doc.trailer.get(root_key.as_slice()) {
        None => {
            proof {
                reveal_strlit("missing required dictionary key \"Root\"");
            }
            return Err(OpenPrintPdfError::InvalidPdf(String::from_str("missing required dictionary key \"Root\"")));
        },
        Some(PdfObject::Reference(id)) => *id,
        Some(o) => return Err(OpenPrintPdfError::InvalidPdf(crate::pdf::type_error("Reference", crate::pdf::variant_text(o)))),
    };
    match doc.object(root_id) {
        Err(m) => return Err(OpenPrintPdfError::InvalidPdf(m)),
        Ok(e) => {
            let resolved = crate::pdf::Resolved::Entry(e);
            if let Err(m) = resolved.as_dict() {
                return Err(OpenPrintPdfError::InvalidPdf(m));
            }
        },
    }
    let profile_id: ObjectId = (max_id + 1, 0);
    let output_intent_id: ObjectId = (max_id + 2, 0);
    let metadata_id: ObjectId = (max_id + 3, 0);
    let info_id: ObjectId = (max_id + 4, 0);
    let mut profile_entries: Vec<(Vec<u8>, PdfObject)> = Vec::new();
    profile_entries.push((ascii_key("N"), PdfObject::Integer(4)));
    profile_entries.push(name_entry("Alternate", "DeviceCMYK"));
    let mut oi: Vec<(Vec<u8>, PdfObject)> = Vec::new();
    oi.push(name_entry("Type", "OutputIntent"));
    oi.push(name_entry("S", "GTS_PDFX"));
    oi.push(string_entry("OutputCondition", description));
    oi.push(string_entry("Info", description));
    oi.push(string_entry("OutputConditionIdentifier", output_condition_identifier));
    oi.push(string_entry("RegistryName", "http://www.color.org"));
    oi.push((ascii_key("DestOutputProfile"), PdfObject::Reference(profile_id)));
    let mut metadata_entries: Vec<(Vec<u8>, PdfObject)> = Vec::new();
    metadata_entries.push(name_entry("Type", "Metadata"));
    metadata_entries.push(name_entry("Subtype", "XML"));
    let mut info_entries: Vec<(Vec<u8>, PdfObject)> = Vec::new();
    info_entries.push(string_entry("GTS_PDFXVersion", "PDF/X-1:2001"));
    info_entries.push(string_entry("GTS_PDFXConformance", "PDF/X-1a:2001"));
    info_entries.push(name_entry("Trapped", "False"));
    let mut intents: Vec<PdfObject> = Vec::new();
    intents.push(PdfObject::Reference(output_intent_id));
    let mut catalog_entries: Vec<(Vec<u8>, PdfObject)> = Vec::new();
    catalog_entries.push((ascii_key("OutputIntents"), PdfObject::Array(intents)));
    catalog_entries.push((ascii_key("Metadata"), PdfObject::Reference(metadata_id)));
    let info_key = ascii_key("Info");
    let info_base = match doc.trailer.get(info_key.as_slice()) {
        Some(PdfObject::Reference(id)) => match doc.object(*id) {
            Ok(PdfEntry::Object(PdfObject::Dictionary(_))) => InfoBase::Object(*id),
            _ => InfoBase::Empty,
        },
        Some(PdfObject::Dictionary(_)) => InfoBase::Trailer,
        _ => InfoBase::Empty,
    };
    let metadata_content = vstd::slice::slice_to_vec(pdfx_metadata().as_bytes());
    Ok(PdfxIdentification {
        version: String::from_str("1.3"),
        root_id,
        profile_id,
        profile_dict: PdfDictionary { entries: profile_entries },
        profile_content: vstd::slice::slice_to_vec(profile_bytes),
        output_intent_id,
        output_intent: PdfDictionary { entries: oi },
        metadata_id,
        metadata_dict: PdfDictionary { entries: metadata_entries },
        metadata_content,
        info_id,
        info_base,
        info_entries: PdfDictionary { entries: info_entries },
        catalog_entries: PdfDictionary { entries: catalog_entries },
    })
}


/// The identification adds four objects with distinct numbers above every
/// object of the document, so no existing object is replaced.
pub proof fn lemma_identification_adds_only_new_objects(
    p: PdfxIdentification,
    doc: PdfDocument,
    max_id: u32,
    root: ObjectId,
    profile: Seq<u8>,
    description: Seq<char>,
    identifier: Seq<char>,
)
    requires
        max_id <= u32::MAX - 4,
        identifies(p, doc, max_id, root, profile, description, identifier),
    ensures
        p.profile_id.0 > max_id,
        p.output_intent_id.0 > max_id,
        p.metadata_id.0 > max_id,
        p.info_id.0 > max_id,
        p.profile_id != p.output_intent_id,
        p.profile_id != p.metadata_id,
        p.profile_id != p.info_id,
        p.output_intent_id != p.metadata_id,
        p.output_intent_id != p.info_id,
        p.metadata_id != p.info_id,
{
}

} // verus!
