//! The scrapers: which links each one takes, and how they read links, pages
//! and identifiers.

use vstd::prelude::*;
use vstd::string::StringSliceAdditionalSpecFns;
use vstd::utf8::{decode_utf8, encode_utf8, encode_utf8_decode_utf8, is_char_boundary};

use crate::patterns::{find_from, find_from_spec, replace_spec, replace_str};
use crate::text::{chars_of, find_char, first_index_of, string_of, trim, trim_spec};

verus! {

/// `p` is a prefix of the characters `s`.
pub open spec fn has_prefix(s: Seq<char>, p: Seq<char>) -> bool {
    p.len() <= s.len() && s.take(p.len() as int) == p
}

/// Whether the characters `cs` begin with `p`.
pub fn starts_with_chars(cs: &Vec<char>, p: &str) -> (r: bool)
    ensures
        r == has_prefix(cs@, p@),
{
    let ps = chars_of(p);
    if ps.len() > cs.len() {
        return false;
    }
    let mut i: usize = 0;
    while i < ps.len()
        invariant
            ps@ == p@,
            ps@.len() <= cs@.len(),
            i <= ps@.len(),
            forall|k: int| 0 <= k < i ==> cs@[k] == ps@[k],
        decreases ps@.len() - i,
    {
        if cs[i] != ps[i] {
            assert(cs@.take(ps@.len() as int)[i as int] != ps@[i as int]);
            return false;
        }
        i = i + 1;
    }
    assert(cs@.take(ps@.len() as int) =~= ps@);
    true
}

/// `s` without the character `c` repeated at its end
/// (`str::trim_end_matches` with a character).
pub open spec fn trim_end_char(s: Seq<char>, c: char) -> Seq<char>
    decreases s.len(),
{
    if s.len() > 0 && s.last() == c {
        trim_end_char(s.drop_last(), c)
    } else {
        s
    }
}

/// The length of `s` once `c` is trimmed from its end.
pub fn trim_end_len(cs: &Vec<char>, c: char) -> (n: usize)
    ensures
        n <= cs@.len(),
        trim_end_char(cs@, c) == cs@.take(n as int),
{
    let mut n: usize = cs.len();
    assert(cs@.take(n as int) =~= cs@);
    while n > 0 && cs[n - 1] == c
        invariant
            n <= cs@.len(),
            trim_end_char(cs@, c) == trim_end_char(cs@.take(n as int), c),
        decreases n,
    {
        assert(cs@.take(n as int).drop_last() =~= cs@.take(n - 1));
        n = n - 1;
    }
    n
}

/// An address as the scrapers complete it: absolute links stay, `//host`
/// links get `https:`, `/path` links are joined to `base` (its trailing
/// slashes dropped), bare host names with a dot and no space get
/// `https://`, and anything else stays as it is.
pub open spec fn resolve_url_spec(url: Seq<char>, base: Seq<char>) -> Seq<char> {
    if has_prefix(url, "http://"@) || has_prefix(url, "https://"@) {
        url
    } else if has_prefix(url, "//"@) {
        "https:"@ + url
    } else if url.len() > 0 && url[0] == '/' {
        trim_end_char(base, '/') + url
    } else if url.contains('.') && !url.contains(' ') {
        "https://"@ + url
    } else {
        url
    }
}

/// Completes a link found in a page into an absolute address.
pub fn resolve_url(url: &str, base: &str) -> (r: String)
    ensures
        r@ == resolve_url_spec(url@, base@),
{
    let cs = chars_of(url);
    if starts_with_chars(&cs, "http://") || starts_with_chars(&cs, "https://") {
        return string_of(&cs);
    }
    if starts_with_chars(&cs, "//") {
        let mut s = String::from_str("https:");
        s.append(url);
        return s;
    }
    if cs.len() > 0 && cs[0] == '/' {
        let bs = chars_of(base);
        let n = trim_end_len(&bs, '/');
        let mut s = crate::text::substring(&bs, 0, n);
        assert(bs@.subrange(0, n as int) =~= bs@.take(n as int));
        s.append(url);
        return s;
    }
    let dot = find_char(&cs, '.');
    let space = find_char(&cs, ' ');
    proof {
        if cs@.contains('.') {
            let k = choose|k: int| 0 <= k < cs@.len() && cs@[k] == '.';
            assert(first_index_of(cs@, '.') is Some);
        }
        if cs@.contains(' ') {
            assert(first_index_of(cs@, ' ') is Some);
        }
    }
    if dot.is_some() && space.is_none() {
        let mut s = String::from_str("https://");
        s.append(url);
        s
    } else {
        string_of(&cs)
    }
}

/// The value of a hexadecimal digit (`char::to_digit(16)`).
pub open spec fn hex_value(c: char) -> Option<nat> {
    if '0' <= c <= '9' {
        Some((c as int - '0' as int) as nat)
    } else if 'a' <= c <= 'f' {
        Some((c as int - 'a' as int + 10) as nat)
    } else if 'A' <= c <= 'F' {
        Some((c as int - 'A' as int + 10) as nat)
    } else {
        None
    }
}

/// The digit value of the character at `i`, or 0 when there is none or it
/// is not a hexadecimal digit.
pub open spec fn hex_at_or_zero(s: Seq<char>, i: int) -> nat {
    if 0 <= i < s.len() {
        match hex_value(s[i]) {
            Some(v) => v,
            None => 0,
        }
    } else {
        0
    }
}

/// Percent-decoding as the Pinterest scraper does it: `%` and the two
/// characters after it (whatever they are) become the character whose code
/// is the byte they spell, a missing or non-hexadecimal digit counting as
/// zero; every other character stays.
pub open spec fn percent_decode_spec(s: Seq<char>) -> Seq<char>
    decreases s.len(),
{
    if s.len() == 0 {
        Seq::empty()
    } else if s[0] == '%' {
        let b = hex_at_or_zero(s, 1) * 16 + hex_at_or_zero(s, 2);
        seq![(b as u8) as char] + percent_decode_spec(s.skip(if s.len() >= 3 { 3 } else { s.len() as int }))
    } else {
        seq![s[0]] + percent_decode_spec(s.skip(1))
    }
}

fn hex_digit(c: char) -> (r: u32)
    ensures
        r == (match hex_value(c) {
            Some(v) => v,
            None => 0,
        }),
        r < 16,
{
    if '0' <= c && c <= '9' {
        (c as u32) - ('0' as u32)
    } else if 'a' <= c && c <= 'f' {
        (c as u32) - ('a' as u32) + 10
    } else if 'A' <= c && c <= 'F' {
        (c as u32) - ('A' as u32) + 10
    } else {
        0
    }
}

/// Decodes `%XX` escapes (see `percent_decode_spec`).
pub fn percent_decode(s: &str) -> (r: String)
    ensures
        r@ == percent_decode_spec(s@),
{
    let cs = chars_of(s);
    let ghost m = cs@;
    let mut out: Vec<char> = Vec::new();
    let mut i: usize = 0;
    assert(m.skip(0) =~= m);
    while i < cs.len()
        invariant
            cs@ == m,
            m == s@,
            i <= m.len(),
            percent_decode_spec(m) == out@ + percent_decode_spec(m.skip(i as int)),
        decreases m.len() - i,
    {
        let ghost rest = m.skip(i as int);
        let ghost before = out@;
        if cs[i] == '%' {
            let hi: u32 = if cs.len() - i > 1 {
                hex_digit(cs[i + 1])
            } else {
                0
            };
            let lo: u32 = if cs.len() - i > 2 {
                hex_digit(cs[i + 2])
            } else {
                0
            };
            let b: u8 = (hi * 16 + lo) as u8;
            out.push(b as char);
            let step: usize = if cs.len() - i >= 3 {
                3
            } else {
                cs.len() - i
            };
            assert(hex_at_or_zero(rest, 1) == hi);
            assert(hex_at_or_zero(rest, 2) == lo);
            assert(rest.skip(step as int) =~= m.skip(i + step));
            assert(out@ =~= before + seq![(b as u8) as char]);
            i = i + step;
        } else {
            out.push(cs[i]);
            assert(rest.skip(1) =~= m.skip(i + 1));
            assert(out@ =~= before + seq![rest[0]]);
            i = i + 1;
        }
    }
    assert(m.skip(i as int) =~= Seq::<char>::empty());
    assert(out@ =~= out@ + Seq::<char>::empty());
    string_of(&out)
}

/// `t` up to its first `#` (the first piece of `split('#')`).
pub open spec fn before_hash(t: Seq<char>) -> Seq<char> {
    match first_index_of(t, '#') {
        Some(j) => t.take(j),
        None => t,
    }
}

/// The target of a Pinterest "force download" link: the text after the
/// first `url=`, trimmed, cut at `#`, and percent-decoded; nothing when the
/// link holds no `url=`.
pub open spec fn force_url_spec(href: Seq<char>) -> Option<Seq<char>> {
    match find_from_spec(href, "url="@, 0) {
        Some(i) => Some(percent_decode_spec(before_hash(trim_spec(href.skip(i + 4))))),
        None => None,
    }
}

/// Reads the target out of a Pinterest "force download" link.
pub fn extract_url_from_force(href: &str) -> (r: Option<String>)
    ensures
        r.deep_view() == force_url_spec(href@),
{
    proof {
        reveal_strlit("url=");
    }
    let cs = chars_of(href);
    let pat = chars_of("url=");
    match find_from(&cs, &pat, 0) {
        None => None,
        Some(i) => {
            let rest = crate::text::substring(&cs, i + 4, cs.len());
            assert(cs@.subrange(i + 4, cs@.len() as int) =~= cs@.skip(i + 4));
            let t = trim(rest.as_str());
            let tc = chars_of(t.as_str());
            let cut = match find_char(&tc, '#') {
                Some(j) => crate::text::substring(&tc, 0, j),
                None => string_of(&tc),
            };
            proof {
                if let Some(j) = first_index_of(tc@, '#') {
                    assert(tc@.subrange(0, j) =~= tc@.take(j));
                }
            }
            Some(percent_decode(cut.as_str()))
        },
    }
}

/// Where `&s[s.len().saturating_sub(n)..]` cuts the text: `n` bytes before
/// its end, or at its start when it is shorter.
pub open spec fn tail_cut(s: Seq<char>, n: int) -> int {
    let len = encode_utf8(s).len() as int;
    if len > n {
        len - n
    } else {
        0
    }
}

/// Whether `&s[s.len().saturating_sub(n)..]` can be taken: the cut falls on
/// a character boundary (else the slice panics). The text's length fits in
/// memory.
pub open spec fn tail_ok(s: Seq<char>, n: int) -> bool {
    encode_utf8(s).len() <= usize::MAX && is_char_boundary(encode_utf8(s), tail_cut(s, n))
}

/// The text of the last `n` bytes of `s`, as `&s[s.len().saturating_sub(n)..]`
/// reads them.
pub open spec fn byte_tail(s: Seq<char>, n: int) -> Seq<char> {
    decode_utf8(encode_utf8(s).subrange(tail_cut(s, n), encode_utf8(s).len() as int))
}

/// The last `n` bytes of a text, where they start on a character boundary.
pub fn tail_bytes(s: &str, n: usize) -> (r: &str)
    requires
        tail_ok(s@, n as int),
    ensures
        r@ == byte_tail(s@, n as int),
{
    let len = s.len();
    assert(s.spec_bytes() == encode_utf8(s@));
    let cut: usize = if len > n {
        len - n
    } else {
        0
    };
    assert(cut as int == tail_cut(s@, n as int));
    let (_, t) = s.split_at(cut);
    proof {
        assert(t.spec_bytes() == encode_utf8(t@));
        encode_utf8_decode_utf8(t@);
        assert(t.spec_bytes() =~= encode_utf8(s@).subrange(tail_cut(s@, n as int), encode_utf8(s@).len() as int));
    }
    t
}

/// A Reddit link on `old.reddit.com`, where the page is plain HTML.
pub open spec fn old_reddit_spec(url: Seq<char>) -> Seq<char> {
    replace_spec(replace_spec(url, "www.reddit.com"@, "old.reddit.com"@), "//reddit.com"@, "//old.reddit.com"@)
}

/// Points a Reddit link at `old.reddit.com`.
pub fn to_old_reddit_url(url: &str) -> (r: String)
    ensures
        r@ == old_reddit_spec(url@),
{
    proof {
        reveal_strlit("www.reddit.com");
        reveal_strlit("//reddit.com");
    }
    let a = replace_str(url, "www.reddit.com", "old.reddit.com");
    replace_str(a.as_str(), "//reddit.com", "//old.reddit.com")
}

/// A text without `%` decodes to itself.
pub proof fn law_decode_plain(s: Seq<char>)
    requires
        !s.contains('%'),
    ensures
        percent_decode_spec(s) == s,
    decreases s.len(),
{
    if s.len() > 0 {
        assert(s[0] != '%') by {
            assert(s.contains(s[0]));
        }
        assert(!s.skip(1).contains('%')) by {
            if s.skip(1).contains('%') {
                let k = choose|k: int| 0 <= k < s.skip(1).len() && s.skip(1)[k] == '%';
                assert(s[k + 1] == '%');
                assert(s.contains('%'));
            }
        }
        law_decode_plain(s.skip(1));
        assert(seq![s[0]] + s.skip(1) =~= s);
    } else {
        assert(s =~= Seq::<char>::empty());
    }
}

} // verus!
