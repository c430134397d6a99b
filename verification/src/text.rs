//! Character- and byte-sequence helpers shared by the parsers of this crate.

use vstd::prelude::*;
use vstd::string::StringSliceAdditionalSpecFns;

verus! {

/// ASCII lower-casing of one byte; every other byte is kept.
pub open spec fn lower_byte(b: u8) -> u8 {
    if 65 <= b <= 90 {
        (b + 32) as u8
    } else {
        b
    }
}

/// `n` occurs in `h` at byte offset `i`, ignoring ASCII case.
pub open spec fn ci_match_at(h: Seq<u8>, n: Seq<u8>, i: int) -> bool {
    &&& 0 <= i
    &&& i + n.len() <= h.len()
    &&& forall|j: int| 0 <= j < n.len() ==> lower_byte(#[trigger] h[i + j]) == lower_byte(n[j])
}

/// `n` occurs somewhere in `h`, ignoring ASCII case.
pub open spec fn contains_ci_bytes(h: Seq<u8>, n: Seq<u8>) -> bool {
    exists|i: int| ci_match_at(h, n, i)
}

/// `h` ends with `n`, ignoring ASCII case.
pub open spec fn ends_with_ci_bytes(h: Seq<u8>, n: Seq<u8>) -> bool {
    n.len() <= h.len() && ci_match_at(h, n, h.len() - n.len())
}

/// `a` and `b` are equal, ignoring ASCII case.
pub open spec fn eq_ci_bytes(a: Seq<u8>, b: Seq<u8>) -> bool {
    a.len() == b.len() && ci_match_at(a, b, 0)
}

/// Case-blind search: two texts that agree up to ASCII case contain the
/// same needles and end with the same suffixes.
pub proof fn law_ci_case_blind(h1: Seq<u8>, h2: Seq<u8>, n: Seq<u8>)
    requires
        h1.len() == h2.len(),
        forall|i: int| 0 <= i < h1.len() ==> lower_byte(#[trigger] h1[i]) == lower_byte(h2[i]),
    ensures
        contains_ci_bytes(h1, n) == contains_ci_bytes(h2, n),
        ends_with_ci_bytes(h1, n) == ends_with_ci_bytes(h2, n),
{
    assert forall|i: int| #[trigger] ci_match_at(h1, n, i) implies ci_match_at(h2, n, i) by {
        assert forall|j: int| 0 <= j < n.len() implies lower_byte(#[trigger] h2[i + j]) == lower_byte(n[j]) by {
            assert(lower_byte(h1[i + j]) == lower_byte(h2[i + j]));
        }
    }
    assert forall|i: int| #[trigger] ci_match_at(h2, n, i) implies ci_match_at(h1, n, i) by {
        assert forall|j: int| 0 <= j < n.len() implies lower_byte(#[trigger] h1[i + j]) == lower_byte(n[j]) by {
            assert(lower_byte(h1[i + j]) == lower_byte(h2[i + j]));
            assert(lower_byte(h2[i + j]) == lower_byte(n[j]));
        }
    }
    if contains_ci_bytes(h1, n) {
        let i = choose|i: int| ci_match_at(h1, n, i);
        assert(ci_match_at(h2, n, i));
    }
    if contains_ci_bytes(h2, n) {
        let i = choose|i: int| ci_match_at(h2, n, i);
        assert(ci_match_at(h1, n, i));
    }
}

fn lower_u8(b: u8) -> (r: u8)
    ensures
        r == lower_byte(b),
{
    if 65 <= b && b <= 90 {
        b + 32
    } else {
        b
    }
}

/// Compares `n` with the bytes of `h` starting at `i`, ignoring ASCII case.
fn match_ci_at(h: &[u8], n: &[u8], i: usize) -> (r: bool)
    requires
        i + n@.len() <= h@.len(),
    ensures
        r == ci_match_at(h@, n@, i as int),
{
    let hl = h.len();
    let mut j: usize = 0;
    while j < n.len()
        invariant
            hl == h@.len(),
            i + n@.len() <= h@.len(),
            j <= n@.len(),
            forall|k: int| 0 <= k < j ==> lower_byte(#[trigger] h@[i + k]) == lower_byte(n@[k]),
        decreases n@.len() - j,
    {
        assert(i + j < h@.len());
        if lower_u8(h[i + j]) != lower_u8(n[j]) {
            return false;
        }
        j = j + 1;
    }
    true
}

/// ASCII case-insensitive substring test on the UTF-8 bytes of the two strings.
pub fn contains_ci(haystack: &str, needle: &str) -> (r: bool)
    ensures
        r == contains_ci_bytes(haystack.spec_bytes(), needle.spec_bytes()),
{
    let hb = haystack.as_bytes();
    let nb = needle.as_bytes();
    if nb.len() > hb.len() {
        return false;
    }
    let last = hb.len() - nb.len();
    let mut i: usize = 0;
    while i <= last
        invariant
            hb@ == haystack.spec_bytes(),
            nb@ == needle.spec_bytes(),
            nb@.len() <= hb@.len(),
            last == hb@.len() - nb@.len(),
            i <= last + 1,
            forall|k: int| 0 <= k < i ==> !ci_match_at(hb@, nb@, k),
        decreases hb@.len() - i,
    {
        if match_ci_at(hb, nb, i) {
            return true;
        }
        if i == last {
            return false;
        }
        i = i + 1;
    }
    false
}

/// ASCII case-insensitive suffix test on the UTF-8 bytes of the two strings.
pub fn ends_with_ci(haystack: &str, suffix: &str) -> (r: bool)
    ensures
        r == ends_with_ci_bytes(haystack.spec_bytes(), suffix.spec_bytes()),
{
    let hb = haystack.as_bytes();
    let sb = suffix.as_bytes();
    if sb.len() > hb.len() {
        return false;
    }
    match_ci_at(hb, sb, hb.len() - sb.len())
}

/// ASCII case-insensitive equality of the UTF-8 bytes of the two strings.
pub fn eq_ignore_ascii_case(a: &str, b: &str) -> (r: bool)
    ensures
        r == eq_ci_bytes(a.spec_bytes(), b.spec_bytes()),
{
    let ab = a.as_bytes();
    let bb = b.as_bytes();
    if ab.len() != bb.len() {
        return false;
    }
    match_ci_at(ab, bb, 0)
}

/// Collects the characters of `s` into a vector.
pub fn chars_of(s: &str) -> (v: Vec<char>)
    ensures
        v@ == s@,
{
    let mut v: Vec<char> = Vec::new();
    for c in it: s.chars()
        invariant
            v@ == it.seq().take(it.index() as int),
    {
        v.push(c);
    }
    v
}

} // verus!

verus! {

/// An ASCII decimal digit.
pub open spec fn is_digit(c: char) -> bool {
    '0' <= c <= '9'
}

/// The value of an ASCII decimal digit.
pub open spec fn digit_value(c: char) -> nat {
    (c as int - '0' as int) as nat
}

/// The value of a string of decimal digits (0 for the empty string).
pub open spec fn digits_value(ds: Seq<char>) -> nat
    decreases ds.len(),
{
    if ds.len() == 0 {
        0
    } else {
        digits_value(ds.drop_last()) * 10 + digit_value(ds.last())
    }
}

/// The digit character of a value below ten.
pub open spec fn digit_char(d: nat) -> char {
    (d + '0' as int) as char
}

/// The decimal spelling of a natural number, as `to_string` writes it.
pub open spec fn decimal(n: nat) -> Seq<char>
    decreases n,
{
    if n < 10 {
        seq![digit_char(n)]
    } else {
        decimal(n / 10).push(digit_char(n % 10))
    }
}

/// The characters of `s` that are ASCII digits, in order.
pub open spec fn digits_of(s: Seq<char>) -> Seq<char> {
    s.filter(|c: char| is_digit(c))
}

/// `n` occurs in `h` at offset `i`.
pub open spec fn occurs_at<A>(h: Seq<A>, n: Seq<A>, i: int) -> bool {
    0 <= i && i + n.len() <= h.len() && h.subrange(i, i + n.len()) == n
}

/// `n` occurs somewhere in `h`.
pub open spec fn seq_contains<A>(h: Seq<A>, n: Seq<A>) -> bool {
    exists|i: int| occurs_at(h, n, i)
}

/// `str::contains` with a string pattern: a byte-wise substring test.
pub open spec fn str_contains(h: &str, n: &str) -> bool {
    seq_contains(h.spec_bytes(), n.spec_bytes())
}

/// A digit string that grows past a bound stays past it when extended.
pub proof fn lemma_digits_value_monotone(ds: Seq<char>, k: int)
    requires
        0 <= k <= ds.len(),
        forall|i: int| 0 <= i < ds.len() ==> is_digit(#[trigger] ds[i]),
    ensures
        digits_value(ds.take(k)) <= digits_value(ds),
    decreases ds.len() - k,
{
    if k < ds.len() {
        lemma_digits_value_monotone(ds, k + 1);
        assert(ds.take(k + 1).drop_last() =~= ds.take(k));
    } else {
        assert(ds.take(k) =~= ds);
    }
}

/// Appends one character to a string (`String::push`).
#[verifier::external_body]
pub(crate) fn push_char(s: &mut String, c: char)
    ensures
        final(s)@ == old(s)@.push(c),
{
    s.push(c);
}

/// Builds a string from its characters.
pub fn string_of(cs: &Vec<char>) -> (s: String)
    ensures
        s@ == cs@,
{
    let mut s = String::new();
    let mut i: usize = 0;
    while i < cs.len()
        invariant
            i <= cs@.len(),
            s@ == cs@.take(i as int),
        decreases cs@.len() - i,
    {
        push_char(&mut s, cs[i]);
        i = i + 1;
        assert(s@ =~= cs@.take(i as int));
    }
    assert(cs@.take(cs@.len() as int) =~= cs@);
    s
}

/// The ASCII digits of `s`, in order.
pub fn digits_in(s: &str) -> (r: Vec<char>)
    ensures
        r@ == digits_of(s@),
{
    let cs = chars_of(s);
    let mut r: Vec<char> = Vec::new();
    let mut i: usize = 0;
    while i < cs.len()
        invariant
            cs@ == s@,
            i <= cs@.len(),
            r@ == digits_of(cs@.take(i as int)),
        decreases cs@.len() - i,
    {
        let c = cs[i];
        proof {
            reveal_with_fuel(Seq::filter, 1);
            assert(cs@.take(i + 1).drop_last() =~= cs@.take(i as int));
        }
        if '0' <= c && c <= '9' {
            r.push(c);
        }
        i = i + 1;
    }
    assert(cs@.take(cs@.len() as int) =~= cs@);
    r
}

/// Parses a string of ASCII digits as `str::parse::<u64>` would, with `max`
/// as the largest accepted value: `None` for the empty string and for a value
/// above `max`.
pub fn parse_digits(ds: &Vec<char>, max: u64) -> (r: Option<u64>)
    requires
        forall|i: int| 0 <= i < ds@.len() ==> is_digit(#[trigger] ds@[i]),
    ensures
        r == (if ds@.len() == 0 || digits_value(ds@) > max {
            None::<u64>
        } else {
            Some(digits_value(ds@) as u64)
        }),
{
    if ds.len() == 0 {
        return None;
    }
    let mut v: u64 = 0;
    let mut i: usize = 0;
    while i < ds.len()
        invariant
            forall|k: int| 0 <= k < ds@.len() ==> is_digit(#[trigger] ds@[k]),
            i <= ds@.len(),
            v == digits_value(ds@.take(i as int)),
            v <= max,
        decreases ds@.len() - i,
    {
        let d = (ds[i] as u32 - '0' as u32) as u128;
        assert(ds@.take(i + 1).drop_last() =~= ds@.take(i as int));
        let next: u128 = (v as u128) * 10 + d;
        if next > max as u128 {
            proof {
                lemma_digits_value_monotone(ds@, i + 1);
            }
            return None;
        }
        v = next as u64;
        i = i + 1;
    }
    assert(ds@.take(ds@.len() as int) =~= ds@);
    Some(v)
}

} // verus!

verus! {

/// The decimal spelling of `n` (`u64::to_string`).
pub fn decimal_string(n: u64) -> (s: String)
    ensures
        s@ == decimal(n as nat),
    decreases n,
{
    let d: u8 = (n % 10) as u8;
    let c: char = (48u8 + d) as char;
    assert(c == digit_char((n % 10) as nat));
    if n < 10 {
        let mut s = String::new();
        push_char(&mut s, c);
        assert(s@ =~= seq![c]);
        s
    } else {
        let mut s = decimal_string(n / 10);
        push_char(&mut s, c);
        s
    }
}

/// `str::to_lowercase`: the full Unicode lower-casing of a text.
pub uninterp spec fn str_lowercase(s: Seq<char>) -> Seq<char>;

/// The ASCII lower case of a character: a capital letter becomes its small
/// letter, any other character stays.
pub open spec fn ascii_lower(c: char) -> char {
    if 'A' <= c <= 'Z' {
        ((c as u32) + 32) as char
    } else {
        c
    }
}

/// Every character of the text is ASCII.
pub open spec fn all_ascii(s: Seq<char>) -> bool {
    forall|i: int| 0 <= i < s.len() ==> (#[trigger] s[i] as u32) < 128
}

/// Lower-cases a text with `str::to_lowercase`. The contract names the result
/// as a function of the text, and states the ASCII part that Unicode's
/// lower-case mapping fixes: on an all-ASCII text each capital letter becomes
/// its small letter and every other character stays. Of other characters it
/// states nothing.
#[verifier::external_body]
pub(crate) fn to_lowercase(s: &str) -> (r: String)
    ensures
        r@ == str_lowercase(s@),
        all_ascii(s@) ==> r@ == s@.map_values(|c: char| ascii_lower(c)),
{
    s.to_lowercase()
}

/// `char::is_alphanumeric`: Unicode alphabetic or numeric.
pub uninterp spec fn char_alphanumeric(c: char) -> bool;

/// Asks `char::is_alphanumeric`. The contract names the result and states the
/// ASCII part that the documentation of the method fixes: an ASCII character
/// is alphanumeric exactly when it is a letter or a digit.
#[verifier::external_body]
pub(crate) fn is_alphanumeric(c: char) -> (r: bool)
    ensures
        r == char_alphanumeric(c),
        (c as u32) < 128 ==> (r <==> ('0' <= c <= '9' || 'a' <= c <= 'z' || 'A' <= c <= 'Z')),
{
    c.is_alphanumeric()
}

/// Byte-wise test whether `n` occurs in `h` at byte offset `i`.
fn bytes_at(h: &[u8], n: &[u8], i: usize) -> (r: bool)
    requires
        i + n@.len() <= h@.len(),
    ensures
        r == (h@.subrange(i as int, i + n@.len()) == n@),
{
    let hl = h.len();
    let mut j: usize = 0;
    while j < n.len()
        invariant
            hl == h@.len(),
            i + n@.len() <= h@.len(),
            j <= n@.len(),
            forall|k: int| 0 <= k < j ==> h@[i + k] == n@[k],
        decreases n@.len() - j,
    {
        assert(i + j < h@.len());
        if h[i + j] != n[j] {
            assert(h@.subrange(i as int, i + n@.len())[j as int] != n@[j as int]);
            return false;
        }
        j = j + 1;
    }
    assert(h@.subrange(i as int, i + n@.len()) =~= n@);
    true
}

/// Finds the first occurrence of `n` in `h` at or after byte offset `from`.
pub fn find_bytes_from(h: &str, n: &str, from: usize) -> (r: Option<usize>)
    ensures
        match r {
            Some(i) => from <= i && occurs_at(h.spec_bytes(), n.spec_bytes(), i as int)
                && forall|j: int| from <= j < i ==> !occurs_at(h.spec_bytes(), n.spec_bytes(), j),
            None => forall|j: int| from <= j ==> !occurs_at(h.spec_bytes(), n.spec_bytes(), j),
        },
{
    let hb = h.as_bytes();
    let nb = n.as_bytes();
    if nb.len() > hb.len() || from > hb.len() - nb.len() {
        return None;
    }
    let last = hb.len() - nb.len();
    let mut i: usize = from;
    while i <= last
        invariant
            hb@ == h.spec_bytes(),
            nb@ == n.spec_bytes(),
            nb@.len() <= hb@.len(),
            last == hb@.len() - nb@.len(),
            from <= i <= last + 1,
            forall|j: int| from <= j < i ==> !occurs_at(hb@, nb@, j),
        decreases hb@.len() - i,
    {
        if bytes_at(hb, nb, i) {
            return Some(i);
        }
        if i == last {
            return None;
        }
        i = i + 1;
    }
    None
}

/// `str::contains` with a string pattern.
pub fn contains_str(h: &str, n: &str) -> (r: bool)
    ensures
        r == str_contains(h, n),
{
    let f = find_bytes_from(h, n, 0);
    proof {
        if f is None {
            assert forall|j: int| !occurs_at(h.spec_bytes(), n.spec_bytes(), j) by {
                if j < 0 {
                }
            }
        }
    }
    f.is_some()
}

} // verus!

verus! {

/// Equality of two texts, decided on their UTF-8 bytes.
pub fn str_eq(a: &str, b: &str) -> (r: bool)
    ensures
        r == (a@ == b@),
{
    let ab = a.as_bytes();
    let bb = b.as_bytes();
    proof {
        vstd::utf8::encode_utf8_decode_utf8(a@);
        vstd::utf8::encode_utf8_decode_utf8(b@);
    }
    if ab.len() != bb.len() {
        return false;
    }
    let same = bytes_at(ab, bb, 0);
    proof {
        assert(ab@.subrange(0, bb@.len() as int) =~= ab@);
    }
    same
}

} // verus!

verus! {

/// `char::is_whitespace`: the Unicode `White_Space` characters.
pub open spec fn is_ws(c: char) -> bool {
    let n = c as u32;
    (9 <= n <= 13) || n == 32 || n == 0x85 || n == 0xA0 || n == 0x1680 || (0x2000 <= n <= 0x200A)
        || n == 0x2028 || n == 0x2029 || n == 0x202F || n == 0x205F || n == 0x3000
}

/// Whether a character is Unicode white space (`char::is_whitespace`).
pub fn is_whitespace(c: char) -> (r: bool)
    ensures
        r == is_ws(c),
{
    let n = c as u32;
    (9 <= n && n <= 13) || n == 32 || n == 0x85 || n == 0xA0 || n == 0x1680 || (0x2000 <= n && n
        <= 0x200A) || n == 0x2028 || n == 0x2029 || n == 0x202F || n == 0x205F || n == 0x3000
}

/// The words that `split_whitespace` finds so far, and the word in progress.
pub open spec fn word_scan(s: Seq<char>) -> (Seq<Seq<char>>, Seq<char>)
    decreases s.len(),
{
    if s.len() == 0 {
        (Seq::empty(), Seq::empty())
    } else {
        let (ws, cur) = word_scan(s.drop_last());
        let c = s.last();
        if is_ws(c) {
            if cur.len() > 0 {
                (ws.push(cur), Seq::empty())
            } else {
                (ws, Seq::empty())
            }
        } else {
            (ws, cur.push(c))
        }
    }
}

/// `str::split_whitespace`: the maximal runs of non-white-space characters.
pub open spec fn words(s: Seq<char>) -> Seq<Seq<char>> {
    let (ws, cur) = word_scan(s);
    if cur.len() > 0 {
        ws.push(cur)
    } else {
        ws
    }
}

/// Splits a text into its white-space separated words.
pub fn split_words(s: &str) -> (r: Vec<String>)
    ensures
        r.deep_view() == words(s@),
{
    let cs = chars_of(s);
    let mut out: Vec<String> = Vec::new();
    let mut cur: Vec<char> = Vec::new();
    let mut i: usize = 0;
    while i < cs.len()
        invariant
            cs@ == s@,
            i <= cs@.len(),
            (out.deep_view(), cur@) == word_scan(cs@.take(i as int)),
        decreases cs@.len() - i,
    {
        assert(cs@.take(i + 1).drop_last() =~= cs@.take(i as int));
        let c = cs[i];
        if is_whitespace(c) {
            if cur.len() > 0 {
                let w = string_of(&cur);
                let ghost before = out.deep_view();
                out.push(w);
                assert(out.deep_view() =~= before.push(cur@));
                cur = Vec::new();
            }
        } else {
            cur.push(c);
        }
        i = i + 1;
    }
    assert(cs@.take(cs@.len() as int) =~= cs@);
    if cur.len() > 0 {
        let w = string_of(&cur);
        let ghost before = out.deep_view();
        out.push(w);
        assert(out.deep_view() =~= before.push(cur@));
    }
    out
}

/// `s` without its leading white space.
pub open spec fn trim_start_ws(s: Seq<char>) -> Seq<char>
    decreases s.len(),
{
    if s.len() > 0 && is_ws(s[0]) {
        trim_start_ws(s.drop_first())
    } else {
        s
    }
}

/// `s` without its trailing white space.
pub open spec fn trim_end_ws(s: Seq<char>) -> Seq<char>
    decreases s.len(),
{
    if s.len() > 0 && is_ws(s.last()) {
        trim_end_ws(s.drop_last())
    } else {
        s
    }
}

/// `str::trim`: white space removed from both ends.
pub open spec fn trim_spec(s: Seq<char>) -> Seq<char> {
    trim_end_ws(trim_start_ws(s))
}

/// Removes white space from both ends of a text (`str::trim`).
pub fn trim(s: &str) -> (r: String)
    ensures
        r@ == trim_spec(s@),
{
    let cs = chars_of(s);
    let ghost m = cs@;
    let n = cs.len();
    let mut a: usize = 0;
    assert(m.skip(0) =~= m);
    while a < n && is_whitespace(cs[a])
        invariant
            n == m.len(),
            cs@ == m,
            a <= n,
            trim_start_ws(m) == trim_start_ws(m.skip(a as int)),
        decreases n - a,
    {
        assert(m.skip(a as int).drop_first() =~= m.skip(a + 1));
        a = a + 1;
    }
    assert(trim_start_ws(m) == m.skip(a as int));
    let mut b: usize = n;
    assert(m.skip(a as int) =~= m.subrange(a as int, n as int));
    while b > a && is_whitespace(cs[b - 1])
        invariant
            n == m.len(),
            cs@ == m,
            a <= b <= n,
            trim_end_ws(m.skip(a as int)) == trim_end_ws(m.subrange(a as int, b as int)),
        decreases b,
    {
        assert(m.subrange(a as int, b as int).drop_last() =~= m.subrange(a as int, b - 1));
        b = b - 1;
    }
    let mut out: Vec<char> = Vec::new();
    let mut k: usize = a;
    while k < b
        invariant
            cs@ == m,
            a <= k <= b <= n == m.len(),
            out@ == m.subrange(a as int, k as int),
        decreases b - k,
    {
        out.push(cs[k]);
        k = k + 1;
        assert(out@ =~= m.subrange(a as int, k as int));
    }
    string_of(&out)
}

/// The lines that `str::lines` has finished so far, and the line in progress.
pub open spec fn line_scan(s: Seq<char>) -> (Seq<Seq<char>>, Seq<char>)
    decreases s.len(),
{
    if s.len() == 0 {
        (Seq::empty(), Seq::empty())
    } else {
        let (ls, cur) = line_scan(s.drop_last());
        let c = s.last();
        if c == '\n' {
            (ls.push(strip_cr(cur)), Seq::empty())
        } else {
            (ls, cur.push(c))
        }
    }
}

/// A line without the carriage return of its `\r\n` ending.
pub open spec fn strip_cr(l: Seq<char>) -> Seq<char> {
    if l.len() > 0 && l.last() == '\r' {
        l.drop_last()
    } else {
        l
    }
}

/// `str::lines`: the text split at `\n` (dropping the `\r` of `\r\n`), with
/// no empty line after a final line ending.
pub open spec fn lines(s: Seq<char>) -> Seq<Seq<char>> {
    let (ls, cur) = line_scan(s);
    if cur.len() > 0 {
        ls.push(cur)
    } else {
        ls
    }
}

/// Splits a text into its lines (`str::lines`).
pub fn split_lines(s: &str) -> (r: Vec<String>)
    ensures
        r.deep_view() == lines(s@),
{
    let cs = chars_of(s);
    let mut out: Vec<String> = Vec::new();
    let mut cur: Vec<char> = Vec::new();
    let mut i: usize = 0;
    while i < cs.len()
        invariant
            cs@ == s@,
            i <= cs@.len(),
            (out.deep_view(), cur@) == line_scan(cs@.take(i as int)),
        decreases cs@.len() - i,
    {
        assert(cs@.take(i + 1).drop_last() =~= cs@.take(i as int));
        let c = cs[i];
        if c == '\n' {
            if cur.len() > 0 && cur[cur.len() - 1] == '\r' {
                cur.pop();
            }
            let w = string_of(&cur);
            let ghost before = out.deep_view();
            out.push(w);
            assert(out.deep_view() =~= before.push(cur@));
            cur = Vec::new();
        } else {
            cur.push(c);
        }
        i = i + 1;
    }
    assert(cs@.take(cs@.len() as int) =~= cs@);
    if cur.len() > 0 {
        let w = string_of(&cur);
        let ghost before = out.deep_view();
        out.push(w);
        assert(out.deep_view() =~= before.push(cur@));
    }
    out
}

} // verus!

verus! {

/// `str::parse` for an integer type whose values run from `min` to `max`: an
/// optional `+` (or `-` when `min < 0`) and then at least one ASCII digit,
/// with a value in range.
pub open spec fn parse_int_spec(s: Seq<char>, min: int, max: int) -> Option<int> {
    parse_int_gen(s, min < 0, min, max)
}

/// `parse_int_spec`, with the acceptance of a minus sign given apart.
pub open spec fn parse_int_gen(s: Seq<char>, signed: bool, min: int, max: int) -> Option<int> {
    let ds = s.skip(sign_len(s, signed));
    if ds.len() == 0 || exists|i: int| 0 <= i < ds.len() && !is_digit(#[trigger] ds[i]) {
        None
    } else {
        let v = if is_negative(s, signed) {
            -digits_value(ds)
        } else {
            digits_value(ds) as int
        };
        if min <= v <= max {
            Some(v)
        } else {
            None
        }
    }
}

/// The text starts with a minus sign that the integer type accepts.
pub open spec fn is_negative(s: Seq<char>, signed: bool) -> bool {
    signed && s.len() > 0 && s[0] == '-'
}

/// The length of the sign that starts the text: 1 for `+` (or an accepted
/// `-`), else 0.
pub open spec fn sign_len(s: Seq<char>, signed: bool) -> int {
    if s.len() > 0 && s[0] == '+' || is_negative(s, signed) {
        1
    } else {
        0
    }
}

/// Parses an integer in the range `min..=max` the way `str::parse` does for
/// the integer type with that range (see `parse_int_spec`).
pub fn parse_int(s: &str, min: i64, max: i64) -> (r: Option<i64>)
    requires
        min <= 0 <= max,
        min > i64::MIN,
    ensures
        r == (match parse_int_spec(s@, min as int, max as int) {
            Some(v) => Some(v as i64),
            None => None::<i64>,
        }),
{
    let cs = chars_of(s);
    let signed = min < 0;
    let mut start: usize = 0;
    let mut neg = false;
    if cs.len() > 0 && cs[0] == '+' {
        start = 1;
    } else if signed && cs.len() > 0 && cs[0] == '-' {
        start = 1;
        neg = true;
    }
    assert(start as int == sign_len(s@, min < 0));
    assert(neg == is_negative(s@, min < 0));
    let mut ds: Vec<char> = Vec::new();
    let mut i: usize = start;
    while i < cs.len()
        invariant
            cs@ == s@,
            start as int == sign_len(s@, min < 0),
            start <= i <= cs@.len(),
            start <= 1,
            ds@ == cs@.subrange(start as int, i as int),
            forall|k: int| 0 <= k < ds@.len() ==> is_digit(#[trigger] ds@[k]),
        decreases cs@.len() - i,
    {
        let c = cs[i];
        if !('0' <= c && c <= '9') {
            proof {
                let dsall = s@.skip(sign_len(s@, min < 0));
                assert(dsall[i - start] == c);
                assert(!is_digit(dsall[i - start]));
            }
            return None;
        }
        ds.push(c);
        i = i + 1;
        assert(ds@ =~= cs@.subrange(start as int, i as int));
    }
    assert(ds@ =~= s@.skip(start as int));
    let bound: u64 = if neg { (0 - (min as i128)) as u64 } else { max as u64 };
    match parse_digits(&ds, bound) {
        None => {
            proof {
                if ds@.len() > 0 {
                    if neg {
                        assert(-digits_value(ds@) < min);
                    }
                }
            }
            None
        },
        Some(v) => if neg {
            Some((0 - (v as i128)) as i64)
        } else {
            Some(v as i64)
        },
    }
}

} // verus!

verus! {

/// The pieces that `str::split` with a character pattern has finished so far,
/// and the piece in progress.
pub open spec fn split_scan(s: Seq<char>, sep: char) -> (Seq<Seq<char>>, Seq<char>)
    decreases s.len(),
{
    if s.len() == 0 {
        (Seq::empty(), Seq::empty())
    } else {
        let (ps, cur) = split_scan(s.drop_last(), sep);
        let c = s.last();
        if c == sep {
            (ps.push(cur), Seq::empty())
        } else {
            (ps, cur.push(c))
        }
    }
}

/// `str::split` with a character pattern: the pieces between separators,
/// empty ones included; always at least one piece.
pub open spec fn split_spec(s: Seq<char>, sep: char) -> Seq<Seq<char>> {
    let (ps, cur) = split_scan(s, sep);
    ps.push(cur)
}

/// Splits a text at every occurrence of `sep` (`str::split`).
pub fn split_char(s: &str, sep: char) -> (r: Vec<String>)
    ensures
        r.deep_view() == split_spec(s@, sep),
{
    let cs = chars_of(s);
    let mut out: Vec<String> = Vec::new();
    let mut cur: Vec<char> = Vec::new();
    let mut i: usize = 0;
    while i < cs.len()
        invariant
            cs@ == s@,
            i <= cs@.len(),
            (out.deep_view(), cur@) == split_scan(cs@.take(i as int), sep),
        decreases cs@.len() - i,
    {
        assert(cs@.take(i + 1).drop_last() =~= cs@.take(i as int));
        let c = cs[i];
        if c == sep {
            let w = string_of(&cur);
            let ghost before = out.deep_view();
            out.push(w);
            assert(out.deep_view() =~= before.push(cur@));
            cur = Vec::new();
        } else {
            cur.push(c);
        }
        i = i + 1;
    }
    assert(cs@.take(cs@.len() as int) =~= cs@);
    let w = string_of(&cur);
    let ghost before = out.deep_view();
    out.push(w);
    assert(out.deep_view() =~= before.push(cur@));
    out
}

/// The first position of `c` in `s`.
pub open spec fn first_index_of(s: Seq<char>, c: char) -> Option<int> {
    if s.contains(c) {
        Some(choose|i: int| 0 <= i < s.len() && s[i] == c && forall|j: int| 0 <= j < i ==> s[j] != c)
    } else {
        None
    }
}

/// Finds the first position of `c` in the characters `cs`.
pub fn find_char(cs: &Vec<char>, c: char) -> (r: Option<usize>)
    ensures
        match r {
            Some(i) => first_index_of(cs@, c) == Some(i as int) && i < cs@.len() && cs@[i as int] == c,
            None => first_index_of(cs@, c) is None,
        },
{
    let mut i: usize = 0;
    while i < cs.len()
        invariant
            i <= cs@.len(),
            forall|j: int| 0 <= j < i ==> cs@[j] != c,
        decreases cs@.len() - i,
    {
        if cs[i] == c {
            proof {
                let k = choose|k: int| 0 <= k < cs@.len() && cs@[k] == c && forall|j: int| 0 <= j < k ==> cs@[j] != c;
                assert(cs@.contains(c));
                if k < i {
                } else if k > i {
                    assert(cs@[i as int] == c);
                }
            }
            return Some(i);
        }
        i = i + 1;
    }
    None
}

/// The first position in `s` of a white-space character.
pub open spec fn first_ws_index(s: Seq<char>) -> Option<int> {
    if exists|i: int| 0 <= i < s.len() && is_ws(s[i]) {
        Some(choose|i: int| 0 <= i < s.len() && is_ws(s[i]) && forall|j: int| 0 <= j < i ==> !is_ws(#[trigger] s[j]))
    } else {
        None
    }
}

/// The characters of `cs` from `from` to `to`, as a string.
pub fn substring(cs: &Vec<char>, from: usize, to: usize) -> (r: String)
    requires
        from <= to <= cs@.len(),
    ensures
        r@ == cs@.subrange(from as int, to as int),
{
    let mut out: Vec<char> = Vec::new();
    let mut k: usize = from;
    while k < to
        invariant
            from <= k <= to <= cs@.len(),
            out@ == cs@.subrange(from as int, k as int),
        decreases to - k,
    {
        out.push(cs[k]);
        k = k + 1;
        assert(out@ =~= cs@.subrange(from as int, k as int));
    }
    string_of(&out)
}

/// The decimal spelling of an integer, with a minus sign when negative.
pub open spec fn int_decimal(v: int) -> Seq<char> {
    if v < 0 {
        seq!['-'] + decimal((-v) as nat)
    } else {
        decimal(v as nat)
    }
}

/// Spells an integer in decimal (`i64::to_string`).
pub fn int_string(v: i64) -> (r: String)
    ensures
        r@ == int_decimal(v as int),
{
    if v < 0 {
        let mut s = String::new();
        push_char(&mut s, '-');
        let m = (0 - (v as i128)) as u64;
        let d = decimal_string(m);
        s.append(d.as_str());
        assert(s@ =~= seq!['-'] + decimal((-v) as nat));
        s
    } else {
        decimal_string(v as u64)
    }
}

} // verus!

verus! {

/// Appending text without separators extends the piece in progress.
pub proof fn lemma_split_scan_append_core(pre: Seq<char>, s: Seq<char>, sep: char)
    requires
        !s.contains(sep),
    ensures
        split_scan(pre + s, sep) == (split_scan(pre, sep).0, split_scan(pre, sep).1 + s),
    decreases s.len(),
{
    if s.len() == 0 {
        assert(pre + s =~= pre);
        assert(split_scan(pre, sep).1 + s =~= split_scan(pre, sep).1);
    } else {
        let t = s.drop_last();
        assert(!t.contains(sep)) by {
            if t.contains(sep) {
                let k = choose|k: int| 0 <= k < t.len() && t[k] == sep;
                assert(s[k] == sep);
            }
        }
        lemma_split_scan_append_core(pre, t, sep);
        assert((pre + s).drop_last() =~= pre + t);
        assert((pre + s).last() == s.last());
        assert(s.last() != sep) by {
            assert(s[s.len() - 1] == s.last());
        }
        assert(split_scan(pre, sep).1 + t + seq![s.last()] =~= split_scan(pre, sep).1 + s);
        assert((split_scan(pre, sep).1 + t).push(s.last()) =~= split_scan(pre, sep).1 + s);
    }
}

/// A separator closes the piece in progress.
pub proof fn lemma_split_scan_sep(pre: Seq<char>, sep: char)
    ensures
        split_scan(pre.push(sep), sep) == (split_scan(pre, sep).0.push(split_scan(pre, sep).1), Seq::<char>::empty()),
{
    assert(pre.push(sep).drop_last() =~= pre);
}

} // verus!

verus! {

/// Parses an unsigned integer no greater than `max` the way `str::parse`
/// does for the unsigned type with that range (see `parse_int_spec`).
pub fn parse_uint(s: &str, max: u64) -> (r: Option<u64>)
    ensures
        r == (match parse_int_gen(s@, false, 0, max as int) {
            Some(v) => Some(v as u64),
            None => None::<u64>,
        }),
{
    let cs = chars_of(s);
    let mut start: usize = 0;
    if cs.len() > 0 && cs[0] == '+' {
        start = 1;
    }
    assert(start as int == sign_len(s@, false));
    let mut ds: Vec<char> = Vec::new();
    let mut i: usize = start;
    while i < cs.len()
        invariant
            cs@ == s@,
            start as int == sign_len(s@, false),
            start <= i <= cs@.len(),
            start <= 1,
            ds@ == cs@.subrange(start as int, i as int),
            forall|k: int| 0 <= k < ds@.len() ==> is_digit(#[trigger] ds@[k]),
        decreases cs@.len() - i,
    {
        let c = cs[i];
        if !('0' <= c && c <= '9') {
            proof {
                let dsall = s@.skip(sign_len(s@, false));
                assert(dsall[i - start] == c);
                assert(!is_digit(dsall[i - start]));
            }
            return None;
        }
        ds.push(c);
        i = i + 1;
        assert(ds@ =~= cs@.subrange(start as int, i as int));
    }
    assert(ds@ =~= s@.skip(start as int));
    parse_digits(&ds, max)
}

} // verus!
