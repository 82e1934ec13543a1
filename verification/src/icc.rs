//! Reading the header and tag table of an ICC colour profile.
use vstd::prelude::*;
use vstd::multiset::Multiset;
use vstd::relations::{sorted_by, total_ordering};
use vstd::utf8::{decode_utf8, valid_utf8};
use crate::digest::{hex_lower, sha256_hex, sha256_of, utf8_text};
use crate::models::{IccProfileInfo, IccView};
use crate::text::{append_decimal, chars_of, decimal, push_char};

verus! {

/// Unicode `White_Space`, the characters `str::trim` removes.
pub open spec fn is_whitespace(c: char) -> bool {
    let v = c as u32;
    (0x09 <= v <= 0x0d) || v == 0x20 || v == 0x85 || v == 0xa0 || v == 0x1680
        || (0x2000 <= v <= 0x200a) || v == 0x2028 || v == 0x2029 || v == 0x202f || v == 0x205f
        || v == 0x3000
}

/// Whether `c` is Unicode white space.
pub fn char_is_whitespace(c: char) -> (r: bool)
    ensures
        r == is_whitespace(c),
{
    let v = c as u32;
    (0x09 <= v && v <= 0x0d) || v == 0x20 || v == 0x85 || v == 0xa0 || v == 0x1680
        || (0x2000 <= v && v <= 0x200a) || v == 0x2028 || v == 0x2029 || v == 0x202f || v == 0x205f
        || v == 0x3000
}

/// `s` without its leading white space.
pub open spec fn trim_start(s: Seq<char>) -> Seq<char>
    decreases s.len(),
{
    if s.len() > 0 && is_whitespace(s[0]) {
        trim_start(s.drop_first())
    } else {
        s
    }
}

/// `s` without its trailing white space.
pub open spec fn trim_end(s: Seq<char>) -> Seq<char>
    decreases s.len(),
{
    if s.len() > 0 && is_whitespace(s.last()) {
        trim_end(s.drop_last())
    } else {
        s
    }
}

/// `s` without leading and trailing white space.
pub open spec fn trim(s: Seq<char>) -> Seq<char> {
    trim_end(trim_start(s))
}

/// The characters of `s` without leading and trailing white space.
pub fn trimmed(s: &str) -> (r: String)
    ensures
        r@ == trim(s@),
{
    let v = chars_of(s);
    let mut start: usize = 0;
    assert(v@.subrange(0, v@.len() as int) =~= v@);
    while start < v.len() && char_is_whitespace(v[start])
        invariant
            start <= v.len(),
            trim_start(v@) == trim_start(v@.subrange(start as int, v@.len() as int)),
        decreases v.len() - start,
    {
        assert(v@.subrange(start as int, v@.len() as int).drop_first()
            =~= v@.subrange(start + 1, v@.len() as int));
        start = start + 1;
    }
    let mut end: usize = v.len();
    assert(v@.subrange(start as int, end as int) == trim_start(v@));
    while end > start && char_is_whitespace(v[end - 1])
        invariant
            start <= end <= v.len(),
            trim(v@) == trim_end(v@.subrange(start as int, end as int)),
        decreases end,
    {
        assert(v@.subrange(start as int, end as int).drop_last()
            =~= v@.subrange(start as int, end - 1));
        end = end - 1;
    }
    let mut r = String::new();
    let mut i: usize = start;
    while i < end
        invariant
            start <= i <= end <= v.len(),
            r@ == v@.subrange(start as int, i as int),
        decreases end - i,
    {
        push_char(&mut r, v[i]);
        assert(v@.subrange(start as int, i + 1) =~= v@.subrange(start as int, i as int).push(v@[i as int]));
        i = i + 1;
    }
    r
}

/// The big-endian 32-bit number at `data[at..at + 4]`.
pub open spec fn be32(data: Seq<u8>, at: int) -> u32 {
    ((data[at] as int) * 0x100_0000 + (data[at + 1] as int) * 0x1_0000 + (data[at + 2] as int) * 0x100
        + (data[at + 3] as int)) as u32
}

fn read_be32(data: &[u8], at: usize) -> (r: u32)
    requires
        at + 4 <= data@.len(),
    ensures
        r == be32(data@, at as int),
{
    (data[at] as u32) * 0x100_0000 + (data[at + 1] as u32) * 0x1_0000 + (data[at + 2] as u32) * 0x100
        + (data[at + 3] as u32)
}

/// Lexicographic order of character strings by code point; for UTF-8
/// text this is the byte order by which `String`s sort.
pub open spec fn chars_leq(a: Seq<char>, b: Seq<char>) -> bool
    decreases a.len(),
{
    if a.len() == 0 {
        true
    } else if b.len() == 0 {
        false
    } else if a[0] < b[0] {
        true
    } else if a[0] == b[0] {
        chars_leq(a.drop_first(), b.drop_first())
    } else {
        false
    }
}

proof fn lemma_chars_leq_reflexive(a: Seq<char>)
    ensures
        chars_leq(a, a),
    decreases a.len(),
{
    if a.len() > 0 {
        lemma_chars_leq_reflexive(a.drop_first());
    }
}

proof fn lemma_chars_leq_antisymmetric(a: Seq<char>, b: Seq<char>)
    requires
        chars_leq(a, b),
        chars_leq(b, a),
    ensures
        a == b,
    decreases a.len(),
{
    if a.len() > 0 && b.len() > 0 {
        lemma_chars_leq_antisymmetric(a.drop_first(), b.drop_first());
        assert(a =~= seq![a[0]] + a.drop_first());
        assert(b =~= seq![b[0]] + b.drop_first());
    } else {
        assert(a =~= b);
    }
}

proof fn lemma_chars_leq_transitive(a: Seq<char>, b: Seq<char>, c: Seq<char>)
    requires
        chars_leq(a, b),
        chars_leq(b, c),
    ensures
        chars_leq(a, c),
    decreases a.len(),
{
    if a.len() > 0 && b.len() > 0 && c.len() > 0 {
        if a[0] == b[0] && b[0] == c[0] {
            lemma_chars_leq_transitive(a.drop_first(), b.drop_first(), c.drop_first());
        }
    }
}

proof fn lemma_chars_leq_connected(a: Seq<char>, b: Seq<char>)
    ensures
        chars_leq(a, b) || chars_leq(b, a),
    decreases a.len(),
{
    if a.len() > 0 && b.len() > 0 {
        if a[0] == b[0] {
            lemma_chars_leq_connected(a.drop_first(), b.drop_first());
        } else if !(a[0] < b[0]) {
            assert(b[0] < a[0]);
        }
    }
}

/// `chars_leq` is a total order.
pub proof fn lemma_chars_leq_total()
    ensures
        total_ordering(|a: Seq<char>, b: Seq<char>| chars_leq(a, b)),
{
    let leq = |a: Seq<char>, b: Seq<char>| chars_leq(a, b);
    assert forall|a: Seq<char>| #[trigger] leq(a, a) by {
        lemma_chars_leq_reflexive(a);
    }
    assert forall|a: Seq<char>, b: Seq<char>| #[trigger] leq(a, b) && #[trigger] leq(b, a) implies a == b by {
        lemma_chars_leq_antisymmetric(a, b);
    }
    assert forall|a: Seq<char>, b: Seq<char>, c: Seq<char>|
        #[trigger] leq(a, b) && #[trigger] leq(b, c) implies leq(a, c) by {
        lemma_chars_leq_transitive(a, b, c);
    }
    assert forall|a: Seq<char>, b: Seq<char>| #[trigger] leq(a, b) || #[trigger] leq(b, a) by {
        lemma_chars_leq_connected(a, b);
    }
}

fn leq_chars(a: &Vec<char>, b: &Vec<char>) -> (r: bool)
    ensures
        r == chars_leq(a@, b@),
{
    let mut i: usize = 0;
    assert(a@.skip(0) =~= a@);
    assert(b@.skip(0) =~= b@);
    while i < a.len() && i < b.len() && a[i] == b[i]
        invariant
            i <= a.len(),
            i <= b.len(),
            chars_leq(a@, b@) == chars_leq(a@.skip(i as int), b@.skip(i as int)),
        decreases a.len() - i,
    {
        assert(a@.skip(i as int).drop_first() =~= a@.skip(i + 1));
        assert(b@.skip(i as int).drop_first() =~= b@.skip(i + 1));
        i = i + 1;
    }
    if i == a.len() {
        true
    } else if i == b.len() {
        false
    } else {
        a[i] < b[i]
    }
}

/// Sorts `items` by `chars_leq`.
fn sort_chars(items: Vec<Vec<char>>) -> (r: Vec<Vec<char>>)
    ensures
        r@.map_values(|v: Vec<char>| v@) == items@.map_values(|v: Vec<char>| v@).sort_by(
            |a: Seq<char>, b: Seq<char>| chars_leq(a, b),
        ),
{
    broadcast use vstd::seq_lib::group_to_multiset_ensures, vstd::multiset::group_multiset_axioms;
    let ghost leq = |a: Seq<char>, b: Seq<char>| chars_leq(a, b);
    let ghost unsorted = items@.map_values(|v: Vec<char>| v@);
    proof { lemma_chars_leq_total(); }
    let mut rest = items;
    let mut sorted: Vec<Vec<char>> = Vec::new();
    proof {
        assert(rest@.map_values(|v: Vec<char>| v@) =~= unsorted);
        assert(sorted@.map_values(|v: Vec<char>| v@) =~= Seq::<Seq<char>>::empty());
        assert(Seq::<Seq<char>>::empty().to_multiset() =~= Multiset::empty());
        assert(Multiset::<Seq<char>>::empty().add(unsorted.to_multiset()) =~= unsorted.to_multiset());
    }
    while rest.len() > 0
        invariant
            total_ordering(leq),
            forall|i: int, j: int| 0 <= i < j < sorted@.len() ==> chars_leq(#[trigger] sorted@[i]@, #[trigger] sorted@[j]@),
            sorted@.map_values(|v: Vec<char>| v@).to_multiset().add(
                rest@.map_values(|v: Vec<char>| v@).to_multiset(),
            ) == unsorted.to_multiset(),
        decreases rest.len(),
    {
        let ghost s0 = sorted@;
        let ghost r0 = rest@.map_values(|v: Vec<char>| v@);
        let x = rest.pop().unwrap();
        let ghost r1 = rest@.map_values(|v: Vec<char>| v@);
        proof {
            assert(r0 =~= r1.push(x@));
        }
        let mut p: usize = 0;
        while p < sorted.len() && leq_chars(&sorted[p], &x)
            invariant
                p <= sorted.len(),
                sorted@ == s0,
                forall|j: int| 0 <= j < p ==> chars_leq(#[trigger] s0[j]@, x@),
            decreases sorted.len() - p,
        {
            p = p + 1;
        }
        let ghost xv = x@;
        let ghost m0 = s0.map_values(|v: Vec<char>| v@);
        proof {
            if p < s0.len() {
                lemma_chars_leq_connected(s0[p as int]@, xv);
            }
        }
        sorted.insert(p, x);
        proof {
            let s1 = sorted@;
            assert forall|i: int, j: int| 0 <= i < j < s1.len() implies chars_leq(#[trigger] s1[i]@, #[trigger] s1[j]@) by {
                if j < p {
                    assert(s1[i] == s0[i] && s1[j] == s0[j]);
                } else if j == p {
                    assert(s1[i] == s0[i]);
                } else if i < p {
                    assert(s1[i] == s0[i] && s1[j] == s0[j - 1]);
                    if j - 1 > p {
                        lemma_chars_leq_transitive(xv, s0[p as int]@, s0[j - 1]@);
                    }
                    lemma_chars_leq_transitive(s0[i]@, xv, s0[j - 1]@);
                } else if i == p {
                    assert(s1[j] == s0[j - 1]);
                    if j - 1 > p {
                        lemma_chars_leq_transitive(xv, s0[p as int]@, s0[j - 1]@);
                    }
                } else {
                    assert(s1[i] == s0[i - 1] && s1[j] == s0[j - 1]);
                }
            }
            assert(s1.map_values(|v: Vec<char>| v@) =~= m0.insert(p as int, xv));
            vstd::seq_lib::to_multiset_insert(m0, p as int, xv);
            vstd::seq_lib::to_multiset_build(r1, xv);
            assert(r0.to_multiset() =~= r1.to_multiset().insert(xv));
            assert(s1.map_values(|v: Vec<char>| v@).to_multiset().add(r1.to_multiset()) =~= unsorted.to_multiset());
        }
    }
    proof {
        let s = sorted@.map_values(|v: Vec<char>| v@);
        assert(rest@.map_values(|v: Vec<char>| v@) =~= Seq::<Seq<char>>::empty());
        assert(Seq::<Seq<char>>::empty().to_multiset() =~= Multiset::empty());
        assert(s.to_multiset() =~= unsorted.to_multiset());
        assert(sorted_by(s, leq));
        unsorted.lemma_sort_by_ensures(leq);
        vstd::seq_lib::lemma_sorted_unique(s, unsorted.sort_by(leq), leq);
    }
    sorted
}

/// The tag signatures found at the first `n` entries of the tag table:
/// each one that is UTF-8 and lies inside the data, decoded.
pub open spec fn tag_signatures(data: Seq<u8>, n: nat) -> Seq<Seq<char>>
    decreases n,
{
    if n == 0 {
        Seq::empty()
    } else {
        let before = tag_signatures(data, (n - 1) as nat);
        let offset = 132 + (n - 1) * 12;
        if offset + 4 <= data.len() && valid_utf8(data.subrange(offset, offset + 4)) {
            before.push(decode_utf8(data.subrange(offset, offset + 4)))
        } else {
            before
        }
    }
}

/// The number of tag table entries read: the declared count, at most 4096.
pub open spec fn tag_entries_read(data: Seq<u8>) -> nat {
    if data.len() >= 132 {
        let count = be32(data, 128);
        if count < 4096 { count as nat } else { 4096 }
    } else {
        0
    }
}

/// The header field at `data[from..to]` as trimmed text, if it lies inside
/// the data and is UTF-8.
pub open spec fn header_text(data: Seq<u8>, from: int, to: int) -> Option<Seq<char>> {
    if to <= data.len() && valid_utf8(data.subrange(from, to)) {
        Some(trim(decode_utf8(data.subrange(from, to))))
    } else {
        None
    }
}

/// The profile version at bytes 8..12: major, minor and bug-fix numbers.
pub open spec fn icc_version(data: Seq<u8>) -> Option<Seq<char>> {
    if data.len() >= 12 {
        Some(decimal(data[8] as nat) + "."@ + decimal((data[9] >> 4) as nat) + "."@ + decimal(
            (data[9] & 0x0f) as nat,
        ))
    } else {
        None
    }
}

/// What a profile's header and tag table say.
pub open spec fn icc_info(data: Seq<u8>) -> IccView {
    IccView {
        byte_length: data.len() as usize,
        sha256: hex_lower(sha256_of(data)),
        version: icc_version(data),
        device_class: header_text(data, 12, 16),
        color_space: header_text(data, 16, 20),
        pcs: header_text(data, 20, 24),
        preferred_intent: if data.len() >= 68 { Some(be32(data, 64)) } else { None },
        tags: tag_signatures(data, tag_entries_read(data)).sort_by(
            |a: Seq<char>, b: Seq<char>| chars_leq(a, b),
        ),
    }
}

fn header_field(data: &[u8], from: usize, to: usize) -> (r: Option<String>)
    requires
        from <= to,
    ensures
        opt_chars_eq(r, header_text(data@, from as int, to as int)),
{
    if to > data.len() {
        return None;
    }
    let mut field: Vec<u8> = Vec::new();
    let mut i: usize = from;
    while i < to
        invariant
            from <= i <= to <= data.len(),
            field@ == data@.subrange(from as int, i as int),
        decreases to - i,
    {
        field.push(data[i]);
        assert(data@.subrange(from as int, i + 1) =~= data@.subrange(from as int, i as int).push(data@[i as int]));
        i = i + 1;
    }
    match utf8_text(field.as_slice()) {
        Some(s) => Some(trimmed(s.as_str())),
        None => None,
    }
}

/// Whether an optional string has the given optional characters.
pub open spec fn opt_chars_eq(r: Option<String>, s: Option<Seq<char>>) -> bool {
    match (r, s) {
        (Some(a), Some(b)) => a@ == b,
        (None, None) => true,
        _ => false,
    }
}

fn chars_to_string(v: &Vec<char>) -> (s: String)
    ensures
        s@ == v@,
{
    let mut s = String::new();
    let mut i: usize = 0;
    while i < v.len()
        invariant
            i <= v.len(),
            s@ == v@.take(i as int),
        decreases v.len() - i,
    {
        push_char(&mut s, v[i]);
        assert(v@.take(i + 1) =~= v@.take(i as int).push(v@[i as int]));
        i = i + 1;
    }
    assert(v@.take(i as int) =~= v@);
    s
}

/// Reads the header fields and tag signatures of an ICC profile.
pub fn parse_icc_profile(data: &[u8]) -> (info: IccProfileInfo)
    ensures
        info@ == icc_info(data@),
        info@.sha256.len() == 64,
{
    let version = if data.len() >= 12 {
        let mut v = String::new();
        append_decimal(&mut v, data[8] as u64);
        v.append(".");
        append_decimal(&mut v, (data[9] >> 4) as u64);
        v.append(".");
        append_decimal(&mut v, (data[9] & 0x0f) as u64);
        Some(v)
    } else {
        None
    };
    let preferred_intent = if data.len() >= 68 { Some(read_be32(data, 64)) } else { None };
    let mut raw: Vec<Vec<char>> = Vec::new();
    let entries: u32 = if data.len() >= 132 {
        let count = read_be32(data, 128);
        if count < 4096 { count } else { 4096 }
    } else {
        0
    };
    let mut index: u32 = 0;
    while index < entries
        invariant
            index <= entries,
            entries == tag_entries_read(data@),
            entries <= 4096,
            raw@.map_values(|v: Vec<char>| v@) == tag_signatures(data@, index as nat),
        decreases entries - index,
    {
        let offset: usize = 132 + (index as usize) * 12;
        if offset + 4 <= data.len() {
            let mut sig: Vec<u8> = Vec::new();
            sig.push(data[offset]);
            sig.push(data[offset + 1]);
            sig.push(data[offset + 2]);
            sig.push(data[offset + 3]);
            assert(sig@ =~= data@.subrange(offset as int, offset + 4));
            match utf8_text(sig.as_slice()) {
                Some(s) => {
                    let chars = chars_of(s.as_str());
                    raw.push(chars);
                },
                None => {},
            }
        }
        proof {
            assert(raw@.map_values(|v: Vec<char>| v@) =~= tag_signatures(data@, (index + 1) as nat));
        }
        index = index + 1;
    }
    let sorted = sort_chars(raw);
    let mut tags: Vec<String> = Vec::new();
    let mut i: usize = 0;
    while i < sorted.len()
        invariant
            i <= sorted.len(),
            tags@.map_values(|t: String| t@) == sorted@.map_values(|v: Vec<char>| v@).take(i as int),
        decreases sorted.len() - i,
    {
        let ghost before = tags@;
        let t = chars_to_string(&sorted[i]);
        let ghost tv = t@;
        assert(tv == sorted@.map_values(|v: Vec<char>| v@)[i as int]);
        tags.push(t);
        proof {
            assert(tags@.map_values(|t: String| t@) =~= before.map_values(|t: String| t@).push(tv));
            assert(tags@.map_values(|t: String| t@) =~= sorted@.map_values(|v: Vec<char>| v@).take(i + 1));
        }
        i = i + 1;
    }
    assert(sorted@.map_values(|v: Vec<char>| v@).take(i as int) =~= sorted@.map_values(|v: Vec<char>| v@));
    IccProfileInfo {
        byte_length: data.len(),
        sha256: sha256_hex(data),
        version,
        device_class: header_field(data, 12, 16),
        color_space: header_field(data, 16, 20),
        pcs: header_field(data, 20, 24),
        preferred_intent,
        tags,
    }
}

/// The header's text fields come from their own bytes: the device class
/// from bytes 12..16, the data colour space from 16..20 and the profile
/// connection space from 20..24, each as its UTF-8 text without
/// surrounding white space, and none where the profile is too short for
/// the field or its bytes are not UTF-8.
pub proof fn lemma_header_fields_read_their_bytes(data: Seq<u8>)
    ensures
        data.len() >= 16 && valid_utf8(data.subrange(12, 16)) ==> icc_info(data).device_class == Some(
            trim(decode_utf8(data.subrange(12, 16))),
        ),
        !(data.len() >= 16 && valid_utf8(data.subrange(12, 16))) ==> icc_info(data).device_class is None,
        data.len() >= 20 && valid_utf8(data.subrange(16, 20)) ==> icc_info(data).color_space == Some(
            trim(decode_utf8(data.subrange(16, 20))),
        ),
        !(data.len() >= 20 && valid_utf8(data.subrange(16, 20))) ==> icc_info(data).color_space is None,
        data.len() >= 24 && valid_utf8(data.subrange(20, 24)) ==> icc_info(data).pcs == Some(
            trim(decode_utf8(data.subrange(20, 24))),
        ),
        !(data.len() >= 24 && valid_utf8(data.subrange(20, 24))) ==> icc_info(data).pcs is None,
{
}

/// The profile connection space depends on header bytes 20..24 alone, and
/// the data colour space on bytes 16..20 alone: two profiles that agree on
/// those bytes report the same field, whatever their other bytes hold.
pub proof fn lemma_header_fields_depend_on_their_bytes(a: Seq<u8>, b: Seq<u8>)
    requires
        a.len() >= 24,
        b.len() >= 24,
    ensures
        a.subrange(20, 24) == b.subrange(20, 24) ==> icc_info(a).pcs == icc_info(b).pcs,
        a.subrange(16, 20) == b.subrange(16, 20) ==> icc_info(a).color_space == icc_info(b).color_space,
{
}

} // verus!
