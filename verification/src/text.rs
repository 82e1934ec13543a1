//! Character-level helpers shared by the reports: decimal rendering,
//! ASCII case folding and substring search.
use vstd::prelude::*;

verus! {

/// The decimal digit character for `d` (`d < 10`).
pub open spec fn digit_char(d: nat) -> char {
    if d == 0 { '0' } else if d == 1 { '1' } else if d == 2 { '2' } else if d == 3 { '3' }
    else if d == 4 { '4' } else if d == 5 { '5' } else if d == 6 { '6' } else if d == 7 { '7' }
    else if d == 8 { '8' } else { '9' }
}

/// The decimal rendering of `n`, without sign or leading zeros.
pub open spec fn decimal(n: nat) -> Seq<char>
    decreases n,
{
    if n < 10 {
        seq![digit_char(n)]
    } else {
        decimal(n / 10).push(digit_char(n % 10))
    }
}

/// Appends one character to a string.
#[verifier::external_body]
pub(crate) fn push_char(s: &mut String, c: char)
    ensures
        final(s)@ == old(s)@.push(c),
{
    s.push(c);
}

fn digit(d: u64) -> (c: char)
    requires
        d < 10,
    ensures
        c == digit_char(d as nat),
{
    if d == 0 { '0' } else if d == 1 { '1' } else if d == 2 { '2' } else if d == 3 { '3' }
    else if d == 4 { '4' } else if d == 5 { '5' } else if d == 6 { '6' } else if d == 7 { '7' }
    else if d == 8 { '8' } else { '9' }
}

/// Appends the decimal rendering of `n` to `out`.
pub fn append_decimal(out: &mut String, n: u64)
    ensures
        final(out)@ == old(out)@ + decimal(n as nat),
    decreases n,
{
    if n < 10 {
        push_char(out, digit(n));
    } else {
        append_decimal(out, n / 10);
        push_char(out, digit(n % 10));
    }
}

/// The decimal rendering of `n` as a new string.
pub fn to_decimal(n: u64) -> (s: String)
    ensures
        s@ == decimal(n as nat),
{
    let mut s = String::new();
    append_decimal(&mut s, n);
    s
}

/// The characters of `s`, in order.
pub fn chars_of(s: &str) -> (v: Vec<char>)
    ensures
        v@ == s@,
{
    let mut v: Vec<char> = Vec::new();
    for c in it: s.chars()
        invariant
            v@ == it.seq().take(it.index() as int),
    {
        v.push(c);
    }
    v
}

/// The decimal renderings of `numbers`, separated by `", "`.
pub open spec fn joined_decimals(numbers: Seq<u32>) -> Seq<char>
    decreases numbers.len(),
{
    if numbers.len() == 0 {
        Seq::empty()
    } else if numbers.len() == 1 {
        decimal(numbers[0] as nat)
    } else {
        joined_decimals(numbers.drop_last()) + ", "@ + decimal(numbers.last() as nat)
    }
}

/// Renders `numbers` in decimal, separated by `", "`.
pub fn join_numbers(numbers: &[u32]) -> (s: String)
    ensures
        s@ == joined_decimals(numbers@),
{
    let mut s = String::new();
    let mut i: usize = 0;
    while i < numbers.len()
        invariant
            i <= numbers.len(),
            s@ == joined_decimals(numbers@.take(i as int)),
        decreases numbers.len() - i,
    {
        assert(numbers@.take(i + 1).drop_last() =~= numbers@.take(i as int));
        if i > 0 {
            s.append(", ");
        }
        append_decimal(&mut s, numbers[i] as u64);
        i = i + 1;
    }
    assert(numbers@.take(i as int) =~= numbers@);
    s
}

/// `c` with an ASCII capital letter made small.
pub open spec fn ascii_lower(c: char) -> char {
    if 'A' <= c <= 'Z' {
        ((c as u32) + 32) as char
    } else {
        c
    }
}

/// Whether `a` and `b` are equal once ASCII letters are folded to lower case.
pub open spec fn eq_ignore_ascii_case(a: Seq<char>, b: Seq<char>) -> bool {
    a.len() == b.len() && forall|i: int| 0 <= i < a.len() ==> ascii_lower(#[trigger] a[i]) == ascii_lower(b[i])
}

/// Whether `needle` occurs in `hay` at position `at`, ignoring ASCII case.
pub open spec fn occurs_folded_at(hay: Seq<char>, needle: Seq<char>, at: int) -> bool {
    0 <= at && at + needle.len() <= hay.len()
        && forall|j: int| 0 <= j < needle.len() ==> ascii_lower(#[trigger] hay[at + j]) == ascii_lower(needle[j])
}

/// Whether `hay` contains `needle`, ignoring ASCII case.
pub open spec fn contains_folded(hay: Seq<char>, needle: Seq<char>) -> bool {
    exists|at: int| occurs_folded_at(hay, needle, at)
}

/// Whether `a` and `b` are the same character once ASCII letters are folded.
pub fn chars_eq_folded(a: char, b: char) -> (r: bool)
    ensures
        r == (ascii_lower(a) == ascii_lower(b)),
{
    let x = a as u32;
    let y = b as u32;
    let lx = if 65 <= x && x <= 90 { x + 32 } else { x };
    let ly = if 65 <= y && y <= 90 { y + 32 } else { y };
    proof {
        assert(('A' <= a <= 'Z') == (65 <= x <= 90));
        assert(('A' <= b <= 'Z') == (65 <= y <= 90));
    }
    lx == ly
}

/// Whether `a` and `b` are equal once ASCII letters are folded.
pub fn str_eq_ignore_ascii_case(a: &str, b: &str) -> (r: bool)
    ensures
        r == eq_ignore_ascii_case(a@, b@),
{
    let x = chars_of(a);
    let y = chars_of(b);
    if x.len() != y.len() {
        return false;
    }
    let mut i: usize = 0;
    while i < x.len()
        invariant
            i <= x.len() == y.len(),
            x@ == a@,
            y@ == b@,
            forall|j: int| 0 <= j < i ==> ascii_lower(#[trigger] x@[j]) == ascii_lower(y@[j]),
        decreases x.len() - i,
    {
        if !chars_eq_folded(x[i], y[i]) {
            assert(!(ascii_lower(a@[i as int]) == ascii_lower(b@[i as int])));
            return false;
        }
        i = i + 1;
    }
    true
}

/// Whether `hay` contains `needle`, ignoring ASCII case.
pub fn contains_ignore_ascii_case(hay: &str, needle: &str) -> (r: bool)
    ensures
        r == contains_folded(hay@, needle@),
{
    let h = chars_of(hay);
    let n = chars_of(needle);
    if n.len() > h.len() {
        assert forall|at: int| !occurs_folded_at(hay@, needle@, at) by {}
        return false;
    }
    let mut at: usize = 0;
    while at <= h.len() - n.len()
        invariant
            n.len() <= h.len(),
            at <= h.len() - n.len() + 1,
            h@ == hay@,
            n@ == needle@,
            forall|k: int| 0 <= k < at ==> !occurs_folded_at(hay@, needle@, k),
        decreases h.len() - at,
    {
        let mut j: usize = 0;
        let mut matched = true;
        while j < n.len()
            invariant
                j <= n.len(),
                at + n.len() <= h.len(),
                h@ == hay@,
                n@ == needle@,
                matched ==> forall|k: int| 0 <= k < j ==> ascii_lower(#[trigger] h@[at + k]) == ascii_lower(n@[k]),
                !matched ==> !occurs_folded_at(hay@, needle@, at as int),
            decreases n.len() - j,
        {
            let folded = chars_eq_folded(h[at + j], n[j]);
            if matched && !folded {
                matched = false;
                proof {
                    if occurs_folded_at(hay@, needle@, at as int) {
                        assert(ascii_lower(hay@[at + j as int]) == ascii_lower(needle@[j as int]));
                    }
                }
            }
            j = j + 1;
        }
        if matched {
            assert(occurs_folded_at(hay@, needle@, at as int));
            return true;
        }
        at = at + 1;
    }
    assert forall|k: int| !occurs_folded_at(hay@, needle@, k) by {
        if 0 <= k < at {
        }
    }
    false
}

/// Whether `needle` occurs in `hay` at position `at`.
pub open spec fn occurs_at(hay: Seq<char>, needle: Seq<char>, at: int) -> bool {
    0 <= at && at + needle.len() <= hay.len() && hay.subrange(at, at + needle.len()) == needle
}

/// Whether `hay` contains `needle`.
pub open spec fn contains_chars(hay: Seq<char>, needle: Seq<char>) -> bool {
    exists|at: int| occurs_at(hay, needle, at)
}

/// Whether `hay` contains `needle`.
pub fn str_contains(hay: &str, needle: &str) -> (r: bool)
    ensures
        r == contains_chars(hay@, needle@),
{
    let h = chars_of(hay);
    let n = chars_of(needle);
    if n.len() > h.len() {
        return false;
    }
    let mut at: usize = 0;
    while at <= h.len() - n.len()
        invariant
            n.len() <= h.len(),
            at <= h.len() - n.len() + 1,
            h@ == hay@,
            n@ == needle@,
            forall|k: int| 0 <= k < at ==> !occurs_at(hay@, needle@, k),
        decreases h.len() - at,
    {
        let mut j: usize = 0;
        while j < n.len() && h[at + j] == n[j]
            invariant
                j <= n.len(),
                at + n.len() <= h.len(),
                h@ == hay@,
                n@ == needle@,
                forall|k: int| 0 <= k < j ==> h@[at + k] == n@[k],
            decreases n.len() - j,
        {
            j = j + 1;
        }
        if j == n.len() {
            assert(hay@.subrange(at as int, at + n.len()) =~= needle@);
            assert(occurs_at(hay@, needle@, at as int));
            return true;
        }
        assert(hay@.subrange(at as int, at + n.len())[j as int] != needle@[j as int]);
        at = at + 1;
    }
    false
}

/// The bytes of an ASCII key.
pub open spec fn key_bytes(s: Seq<char>) -> Seq<u8> {
    s.map_values(|c: char| c as u8)
}

/// The bytes of the ASCII key `s`.
pub fn ascii_key(s: &str) -> (v: Vec<u8>)
    ensures
        v@ == key_bytes(s@),
{
    let c = chars_of(s);
    let mut v: Vec<u8> = Vec::new();
    let mut i: usize = 0;
    while i < c.len()
        invariant
            i <= c.len(),
            c@ == s@,
            v@ == key_bytes(c@.take(i as int)),
        decreases c.len() - i,
    {
        #[verifier::truncate]
        let b = c[i] as u8;
        v.push(b);
        assert(key_bytes(c@.take(i + 1)) =~= key_bytes(c@.take(i as int)).push(b));
        i = i + 1;
    }
    assert(c@.take(i as int) =~= c@);
    v
}


/// Whether `a` and `b` hold the same characters.
pub fn str_equal(a: &str, b: &str) -> (r: bool)
    ensures
        r == (a@ == b@),
{
    let x = chars_of(a);
    let y = chars_of(b);
    if x.len() != y.len() {
        return false;
    }
    let mut i: usize = 0;
    while i < x.len()
        invariant
            i <= x.len() == y.len(),
            x@ == a@,
            y@ == b@,
            forall|j: int| 0 <= j < i ==> x@[j] == y@[j],
        decreases x.len() - i,
    {
        if x[i] != y[i] {
            return false;
        }
        i = i + 1;
    }
    assert(x@ =~= y@);
    true
}

/// Whether an optional string holds exactly `b`.
pub fn opt_str_equal(a: &Option<String>, b: &str) -> (r: bool)
    ensures
        r == (match a {
            Some(s) => s@ == b@,
            None => false,
        }),
{
    match a {
        Some(s) => str_equal(s.as_str(), b),
        None => false,
    }
}


/// Appends the decimal rendering of a 128-bit `n` to `out`.
pub fn append_decimal_wide(out: &mut String, n: u128)
    ensures
        final(out)@ == old(out)@ + decimal(n as nat),
    decreases n,
{
    if n < 10 {
        push_char(out, digit(n as u64));
    } else {
        append_decimal_wide(out, n / 10);
        push_char(out, digit((n % 10) as u64));
    }
}

/// The strings, as characters.
pub open spec fn strings_view(v: Seq<String>) -> Seq<Seq<char>> {
    v.map_values(|s: String| s@)
}

/// `parts` with `sep` between each two of them.
pub open spec fn joined(parts: Seq<Seq<char>>, sep: Seq<char>) -> Seq<char>
    decreases parts.len(),
{
    if parts.len() == 0 {
        Seq::empty()
    } else if parts.len() == 1 {
        parts[0]
    } else {
        joined(parts.drop_last(), sep) + sep + parts.last()
    }
}

/// `parts` with `sep` between each two of them.
pub fn join_strings(parts: &[String], sep: &str) -> (s: String)
    ensures
        s@ == joined(strings_view(parts@), sep@),
{
    let mut s = String::new();
    let mut i: usize = 0;
    while i < parts.len()
        invariant
            i <= parts.len(),
            s@ == joined(strings_view(parts@.take(i as int)), sep@),
        decreases parts.len() - i,
    {
        assert(strings_view(parts@.take(i + 1)).drop_last() =~= strings_view(parts@.take(i as int)));
        if i > 0 {
            s.append(sep);
        }
        s.append(parts[i].as_str());
        i = i + 1;
    }
    assert(parts@.take(i as int) =~= parts@);
    s
}

/// The characters `chars[start..end]` as a string.
pub fn collect_chars(chars: &Vec<char>, start: usize, end: usize) -> (s: String)
    requires
        start <= end <= chars.len(),
    ensures
        s@ == chars@.subrange(start as int, end as int),
{
    let mut s = String::new();
    let mut i: usize = start;
    while i < end
        invariant
            start <= i <= end <= chars.len(),
            s@ == chars@.subrange(start as int, i as int),
        decreases end - i,
    {
        push_char(&mut s, chars[i]);
        assert(chars@.subrange(start as int, i + 1) =~= chars@.subrange(start as int, i as int).push(chars@[i as int]));
        i = i + 1;
    }
    s
}

/// The lines finished so far, and the line being read.
pub struct LineScan {
    pub lines: Seq<Seq<char>>,
    pub current: Seq<char>,
}

/// A line without the carriage return that ended it.
pub open spec fn without_cr(line: Seq<char>) -> Seq<char> {
    if line.len() > 0 && line.last() == '\r' {
        line.drop_last()
    } else {
        line
    }
}

/// Reads `s` into lines: each `'\n'` ends a line, and a `'\r'` just
/// before it is dropped.
pub open spec fn scan_lines(s: Seq<char>) -> LineScan
    decreases s.len(),
{
    if s.len() == 0 {
        LineScan { lines: Seq::empty(), current: Seq::empty() }
    } else {
        let p = scan_lines(s.drop_last());
        if s.last() == '\n' {
            LineScan { lines: p.lines.push(without_cr(p.current)), current: Seq::empty() }
        } else {
            LineScan { lines: p.lines, current: p.current.push(s.last()) }
        }
    }
}

/// The lines of `s` as `str::lines` gives them: the final line needs no
/// line ending, and an empty text has no line.
pub open spec fn lines_of(s: Seq<char>) -> Seq<Seq<char>> {
    let p = scan_lines(s);
    if p.current.len() == 0 {
        p.lines
    } else {
        p.lines.push(p.current)
    }
}

/// The lines of `text`.
pub fn text_lines(text: &str) -> (r: Vec<String>)
    ensures
        strings_view(r@) == lines_of(text@),
{
    let c = chars_of(text);
    let mut out: Vec<String> = Vec::new();
    let mut start: usize = 0;
    let mut i: usize = 0;
    while i < c.len()
        invariant
            start <= i <= c.len(),
            c@ == text@,
            strings_view(out@) == scan_lines(c@.take(i as int)).lines,
            scan_lines(c@.take(i as int)).current == c@.subrange(start as int, i as int),
        decreases c.len() - i,
    {
        assert(c@.take(i + 1).drop_last() =~= c@.take(i as int));
        if c[i] == '\n' {
            let end: usize = if i > start && c[i - 1] == '\r' { i - 1 } else { i };
            let line = collect_chars(&c, start, end);
            proof {
                let cur = c@.subrange(start as int, i as int);
                if i > start && c@[i - 1] == '\r' {
                    assert(without_cr(cur) =~= c@.subrange(start as int, end as int));
                } else {
                    assert(without_cr(cur) =~= c@.subrange(start as int, end as int));
                }
            }
            out.push(line);
            assert(strings_view(out@) =~= scan_lines(c@.take(i + 1)).lines);
            start = i + 1;
            assert(scan_lines(c@.take(i + 1)).current =~= c@.subrange(start as int, i + 1));
        } else {
            assert(scan_lines(c@.take(i + 1)).current =~= c@.subrange(start as int, i + 1));
        }
        i = i + 1;
    }
    assert(c@.take(i as int) =~= c@);
    if start < c.len() {
        let last = collect_chars(&c, start, c.len());
        out.push(last);
        assert(strings_view(out@) =~= lines_of(text@));
    } else {
        assert(strings_view(out@) =~= lines_of(text@));
    }
    out
}

} // verus!
