//! A plain-value model of a parsed PDF document: its object table, trailer
//! and page list, as the inspector reads them.
//!
//! Stream objects are indirect by definition (ISO 32000-1, 7.3.8), so a
//! stream can only be held by the object table (`PdfEntry::Stream`); nested
//! values (`PdfObject`) never hold one.
use std::collections::HashMap;
use vstd::prelude::*;
use crate::error::OpenPrintPdfError;
use crate::security::{validate_document_complexity, MAX_PDF_PAGES};
use crate::text::decimal;

verus! {

broadcast use vstd::std_specs::hash::group_hash_axioms;

/// The number and generation of an indirect object.
pub type ObjectId = (u32, u16);

/// How a string object was written.
#[derive(Clone, Copy, Debug, PartialEq, Eq)]
pub enum StringFormat {
    Literal,
    Hexadecimal,
}

/// A direct PDF value. A real number is held by the bits of its IEEE-754
/// single-precision value.
#[derive(Debug, PartialEq)]
pub enum PdfObject {
    Null,
    Boolean(bool),
    Integer(i64),
    Real(u32),
    Name(Vec<u8>),
    String(Vec<u8>, StringFormat),
    Array(Vec<PdfObject>),
    Dictionary(PdfDictionary),
    Reference(ObjectId),
}

/// A dictionary; its entries in their order, with distinct keys.
#[derive(Debug, PartialEq)]
pub struct PdfDictionary {
    pub entries: Vec<(Vec<u8>, PdfObject)>,
}

/// A stream: its dictionary, its raw content, and the content with its
/// filters decoded where decoding succeeded.
#[derive(Debug, PartialEq)]
pub struct PdfStream {
    pub dict: PdfDictionary,
    pub content: Vec<u8>,
    pub decoded: Option<Vec<u8>>,
}

/// What an object number refers to, after following references.
#[derive(Debug, PartialEq)]
pub enum PdfEntry {
    Object(PdfObject),
    Stream(PdfStream),
}

/// A parsed document.
///
/// `objects` maps `object_key(id)` of every object number of the file to
/// what the number resolves to, or to the text of the error met while
/// resolving it. `pages` lists the page objects in page order, numbered
/// from 1, as `checked_pages` gives them for a loaded document.
#[derive(Debug)]
pub struct PdfDocument {
    pub version: String,
    pub trailer: PdfDictionary,
    pub objects: HashMap<u64, Result<PdfEntry, String>>,
    pub pages: Vec<(u32, ObjectId)>,
}

/// The key under which an object number is held in `PdfDocument::objects`.
pub open spec fn object_key(id: ObjectId) -> u64 {
    ((id.0 as u64) * 65536 + (id.1 as u64)) as u64
}

/// The key under which an object number is held in `PdfDocument::objects`.
pub fn key_of(id: ObjectId) -> (k: u64)
    ensures
        k == object_key(id),
{
    assert((id.0 as u64) * 65536 + (id.1 as u64) < 0x1_0000_0000_0000) by (nonlinear_arith);
    (id.0 as u64) * 65536 + (id.1 as u64)
}

/// The value of the first entry of `entries` with key `key`.
pub open spec fn lookup(entries: Seq<(Vec<u8>, PdfObject)>, key: Seq<u8>) -> Option<PdfObject>
    decreases entries.len(),
{
    if entries.len() == 0 {
        None
    } else if entries[0].0@ == key {
        Some(entries[0].1)
    } else {
        lookup(entries.drop_first(), key)
    }
}

impl PdfDictionary {
    /// The value stored under `key`.
    pub open spec fn spec_get(self, key: Seq<u8>) -> Option<PdfObject> {
        lookup(self.entries@, key)
    }

    /// The value stored under `key`.
    pub fn get(&self, key: &[u8]) -> (r: Option<&PdfObject>)
        ensures
            r matches Some(v) ==> self.spec_get(key@) == Some(*v),
            r is None ==> self.spec_get(key@) is None,
    {
        let mut i: usize = 0;
        assert(self.entries@.skip(0) =~= self.entries@);
        while i < self.entries.len()
            invariant
                i <= self.entries.len(),
                lookup(self.entries@, key@) == lookup(self.entries@.skip(i as int), key@),
            decreases self.entries.len() - i,
        {
            assert(self.entries@.skip(i as int).drop_first() =~= self.entries@.skip(i + 1));
            if bytes_equal(self.entries[i].0.as_slice(), key) {
                return Some(&self.entries[i].1);
            }
            i = i + 1;
        }
        None
    }

    /// Whether an entry has key `key`.
    pub fn has(&self, key: &[u8]) -> (r: bool)
        ensures
            r == self.spec_get(key@) is Some,
    {
        self.get(key).is_some()
    }
}

/// Whether two byte strings are equal.
pub fn bytes_equal(a: &[u8], b: &[u8]) -> (r: bool)
    ensures
        r == (a@ == b@),
{
    if a.len() != b.len() {
        return false;
    }
    let mut i: usize = 0;
    while i < a.len()
        invariant
            i <= a.len(),
            a.len() == b.len(),
            forall|j: int| 0 <= j < i ==> a@[j] == b@[j],
        decreases a.len() - i,
    {
        if a[i] != b[i] {
            return false;
        }
        i = i + 1;
    }
    assert(a@ =~= b@);
    true
}

/// The name of the kind of `o`, as the error texts give it.
pub open spec fn variant_name(o: PdfObject) -> Seq<char> {
    match o {
        PdfObject::Null => "Null"@,
        PdfObject::Boolean(_) => "Boolean"@,
        PdfObject::Integer(_) => "Integer"@,
        PdfObject::Real(_) => "Real"@,
        PdfObject::Name(_) => "Name"@,
        PdfObject::String(_, _) => "String"@,
        PdfObject::Array(_) => "Array"@,
        PdfObject::Dictionary(_) => "Dictionary"@,
        PdfObject::Reference(_) => "Reference"@,
    }
}

/// The name of the kind of `e`, as the error texts give it.
pub open spec fn entry_variant_name(e: PdfEntry) -> Seq<char> {
    match e {
        PdfEntry::Object(o) => variant_name(o),
        PdfEntry::Stream(_) => "Stream"@,
    }
}

/// The name of the kind of `o`, as `lopdf` names it in its error texts.
pub(crate) fn variant_text(o: &PdfObject) -> (s: &'static str)
    ensures
        s@ == variant_name(*o),
{
    match o {
        PdfObject::Null => "Null",
        PdfObject::Boolean(_) => "Boolean",
        PdfObject::Integer(_) => "Integer",
        PdfObject::Real(_) => "Real",
        PdfObject::Name(_) => "Name",
        PdfObject::String(_, _) => "String",
        PdfObject::Array(_) => "Array",
        PdfObject::Dictionary(_) => "Dictionary",
        PdfObject::Reference(_) => "Reference",
    }
}

fn entry_variant_text(e: &PdfEntry) -> (s: &'static str)
    ensures
        s@ == entry_variant_name(*e),
{
    match e {
        PdfEntry::Object(o) => variant_text(o),
        PdfEntry::Stream(_) => "Stream",
    }
}

/// The text of the error met when a value of kind `found` is read as a
/// value of kind `expected`.
pub open spec fn type_error_text(expected: Seq<char>, found: Seq<char>) -> Seq<char> {
    "object has wrong type; expected type "@ + expected + " but found type "@ + found
}

/// The text of the error met when object `id` is not in the file.
pub open spec fn not_found_text(id: ObjectId) -> Seq<char> {
    "object ID "@ + decimal(id.0 as nat) + " "@ + decimal(id.1 as nat) + " not found"@
}

/// The text of `lopdf::Error::ObjectType`: "object has wrong type;
/// expected type {expected} but found type {found}".
#[verifier::external_body]
pub(crate) fn type_error(expected: &'static str, found: &'static str) -> (s: String)
    ensures
        s@ == type_error_text(expected@, found@),
{
    lopdf::Error::ObjectType { expected, found }.to_string()
}

/// The text of `lopdf::Error::ObjectNotFound`: "object ID {number}
/// {generation} not found", both in decimal.
#[verifier::external_body]
fn not_found(id: ObjectId) -> (s: String)
    ensures
        s@ == not_found_text(id),
{
    lopdf::Error::ObjectNotFound(id).to_string()
}

impl PdfDocument {
    /// What object number `id` resolves to.
    pub open spec fn spec_object(self, id: ObjectId) -> Result<PdfEntry, Seq<char>> {
        if self.objects@.contains_key(object_key(id)) {
            match self.objects@[object_key(id)] {
                Ok(e) => Ok(e),
                Err(m) => Err(m@),
            }
        } else {
            Err(not_found_text(id))
        }
    }

    /// What `o` stands for: the object a reference resolves to, or `o`.
    pub open spec fn spec_resolve(self, o: PdfObject) -> Result<PdfEntry, Seq<char>> {
        match o {
            PdfObject::Reference(id) => self.spec_object(id),
            _ => Ok(PdfEntry::Object(o)),
        }
    }

    /// What object number `id` resolves to.
    pub fn object(&self, id: ObjectId) -> (r: Result<&PdfEntry, String>)
        ensures
            match (r, self.spec_object(id)) {
                (Ok(a), Ok(b)) => *a == b,
                (Err(a), Err(b)) => a@ == b,
                _ => false,
            },
    {
        let k = key_of(id);
        match self.objects.get(&k) {
            Some(Ok(e)) => Ok(e),
            Some(Err(m)) => Err(m.clone()),
            None => Err(not_found(id)),
        }
    }
}

/// The dictionary an entry holds, or the type error.
pub open spec fn entry_dict(e: PdfEntry) -> Result<PdfDictionary, Seq<char>> {
    match e {
        PdfEntry::Object(PdfObject::Dictionary(d)) => Ok(d),
        _ => Err(type_error_text("Dictionary"@, entry_variant_name(e))),
    }
}

/// The array an entry holds, or the type error.
pub open spec fn entry_array(e: PdfEntry) -> Result<Seq<PdfObject>, Seq<char>> {
    match e {
        PdfEntry::Object(PdfObject::Array(a)) => Ok(a@),
        _ => Err(type_error_text("Array"@, entry_variant_name(e))),
    }
}

/// The name an entry holds.
pub open spec fn entry_name(e: PdfEntry) -> Option<Seq<u8>> {
    match e {
        PdfEntry::Object(PdfObject::Name(n)) => Some(n@),
        _ => None,
    }
}

/// The stream an entry holds.
pub open spec fn entry_stream(e: PdfEntry) -> Option<PdfStream> {
    match e {
        PdfEntry::Stream(s) => Some(s),
        _ => None,
    }
}

/// A direct value or an entry of the object table.
pub enum Resolved<'a> {
    Direct(&'a PdfObject),
    Entry(&'a PdfEntry),
}

impl<'a> Resolved<'a> {
    /// The entry this stands for.
    pub open spec fn entry(self) -> PdfEntry {
        match self {
            Resolved::Direct(o) => PdfEntry::Object(*o),
            Resolved::Entry(e) => *e,
        }
    }

    /// The dictionary it holds, or the type error.
    pub fn as_dict(&self) -> (r: Result<&'a PdfDictionary, String>)
        ensures
            match (r, entry_dict(self.entry())) {
                (Ok(a), Ok(b)) => *a == b,
                (Err(a), Err(b)) => a@ == b,
                _ => false,
            },
    {
        match self {
            Resolved::Direct(PdfObject::Dictionary(d)) => Ok(d),
            Resolved::Entry(PdfEntry::Object(PdfObject::Dictionary(d))) => Ok(d),
            Resolved::Direct(o) => Err(type_error("Dictionary", variant_text(o))),
            Resolved::Entry(e) => Err(type_error("Dictionary", entry_variant_text(e))),
        }
    }

    /// The array it holds, or the type error.
    pub fn as_array(&self) -> (r: Result<&'a Vec<PdfObject>, String>)
        ensures
            match (r, entry_array(self.entry())) {
                (Ok(a), Ok(b)) => a@ == b,
                (Err(a), Err(b)) => a@ == b,
                _ => false,
            },
    {
        match self {
            Resolved::Direct(PdfObject::Array(a)) => Ok(a),
            Resolved::Entry(PdfEntry::Object(PdfObject::Array(a))) => Ok(a),
            Resolved::Direct(o) => Err(type_error("Array", variant_text(o))),
            Resolved::Entry(e) => Err(type_error("Array", entry_variant_text(e))),
        }
    }

    /// The name it holds.
    pub fn as_name(&self) -> (r: Option<&'a Vec<u8>>)
        ensures
            match (r, entry_name(self.entry())) {
                (Some(a), Some(b)) => a@ == b,
                (None, None) => true,
                _ => false,
            },
    {
        match self {
            Resolved::Direct(PdfObject::Name(n)) => Some(n),
            Resolved::Entry(PdfEntry::Object(PdfObject::Name(n))) => Some(n),
            _ => None,
        }
    }

    /// The stream it holds.
    pub fn as_stream(&self) -> (r: Option<&'a PdfStream>)
        ensures
            match (r, entry_stream(self.entry())) {
                (Some(a), Some(b)) => *a == b,
                (None, None) => true,
                _ => false,
            },
    {
        match self {
            Resolved::Entry(PdfEntry::Stream(s)) => Some(s),
            _ => None,
        }
    }
}

impl PdfDocument {
    /// What `o` stands for: the object a reference resolves to, or `o`.
    pub fn resolve<'a>(&'a self, o: &'a PdfObject) -> (r: Result<Resolved<'a>, String>)
        ensures
            match (r, self.spec_resolve(*o)) {
                (Ok(a), Ok(b)) => a.entry() == b,
                (Err(a), Err(b)) => a@ == b,
                _ => false,
            },
    {
        match o {
            PdfObject::Reference(id) => match self.object(*id) {
                Ok(e) => Ok(Resolved::Entry(e)),
                Err(m) => Err(m),
            },
            _ => Ok(Resolved::Direct(o)),
        }
    }
}

/// A document as `lopdf` loads it.
#[verifier::external_type_specification]
#[verifier::external_body]
pub struct ExLoadedDocument(lopdf::Document);

/// `lopdf::Document::get_pages`: the page objects in page-tree order, each
/// keyed by its position plus one (as a `u32`), read out in key order.
/// Where there are no more pages than `u32` numbers, the keys are 1 to n
/// in order; otherwise positions share keys and the list is longer than
/// any `u32`.
#[verifier::external_body]
fn document_pages(document: &lopdf::Document) -> (r: Vec<(u32, ObjectId)>)
    ensures
        r@.len() <= u32::MAX ==> forall|i: int| 0 <= i < r@.len() ==> #[trigger] r@[i].0 == i + 1,
{
    document.get_pages().into_iter().collect()
}

/// `lopdf::Document`'s `objects.len()`: how many objects the file holds.
#[verifier::external_body]
fn document_object_count(document: &lopdf::Document) -> (r: usize) {
    document.objects.len()
}

/// The page list of a loaded document, within the complexity limits: the
/// document is refused as `validate_document_complexity` refuses its page
/// and object counts; otherwise its page objects come in page order,
/// numbered 1 to n, with n at most `MAX_PDF_PAGES`.
pub fn checked_pages(document: &lopdf::Document) -> (r: Result<Vec<(u32, ObjectId)>, OpenPrintPdfError>)
    ensures
        r matches Ok(pages) ==> pages@.len() <= MAX_PDF_PAGES,
        r matches Ok(pages) ==> forall|i: int| 0 <= i < pages@.len() ==> #[trigger] pages@[i].0 == i + 1,
        r matches Err(e) ==> e is ResourceLimitExceeded,
{
    let pages = document_pages(document);
    let objects = document_object_count(document);
    match validate_document_complexity(pages.len(), objects) {
        Ok(()) => Ok(pages),
        Err(e) => Err(e),
    }
}

} // verus!
