//! How links are cleaned, named and quoted in messages.

use vstd::prelude::*;
use vstd::string::StringSliceAdditionalSpecFns;

use crate::text::{chars_of, contains_str, push_char, seq_contains, str_lowercase, to_lowercase};
use crate::weburl::{
    parse_url, url_clear_query, url_domain, url_parses, url_query, url_query_pairs, url_replace_query,
    url_serialization, url_with_query_pairs, url_without_query,
};

verus! {

/// The HTML spelling of one character.
pub open spec fn escape_char(c: char) -> Seq<char> {
    if c == '&' {
        "&amp;"@
    } else if c == '<' {
        "&lt;"@
    } else if c == '>' {
        "&gt;"@
    } else if c == '"' {
        "&quot;"@
    } else if c == '\'' {
        "&#x27;"@
    } else {
        seq![c]
    }
}

/// A text with `&`, `<`, `>`, `"` and `'` written as HTML entities.
pub open spec fn html_escape_spec(s: Seq<char>) -> Seq<char>
    decreases s.len(),
{
    if s.len() == 0 {
        Seq::empty()
    } else {
        html_escape_spec(s.drop_last()) + escape_char(s.last())
    }
}

/// Escaped text holds no `<`, `>`, `"` or `'`: nothing in it can open or
/// close a tag or an attribute value.
pub proof fn law_escape_no_markup(s: Seq<char>)
    ensures
        forall|i: int|
            0 <= i < html_escape_spec(s).len() ==> {
                let c = #[trigger] html_escape_spec(s)[i];
                c != '<' && c != '>' && c != '"' && c != '\''
            },
    decreases s.len(),
{
    reveal_strlit("&amp;");
    reveal_strlit("&lt;");
    reveal_strlit("&gt;");
    reveal_strlit("&quot;");
    reveal_strlit("&#x27;");
    if s.len() > 0 {
        law_escape_no_markup(s.drop_last());
        let a = html_escape_spec(s.drop_last());
        let b = escape_char(s.last());
        assert forall|i: int| 0 <= i < (a + b).len() implies {
            let c = #[trigger] (a + b)[i];
            c != '<' && c != '>' && c != '"' && c != '\''
        } by {
            if i >= a.len() {
                assert((a + b)[i] == b[i - a.len()]);
            } else {
                assert((a + b)[i] == a[i]);
            }
        }
    }
}

/// The entity at the front of an escaped text: the character it stands for
/// and its length, or `None` where the text does not start with one of the
/// five entities that `escape_char` writes.
pub open spec fn leading_entity(t: Seq<char>) -> Option<(char, nat)> {
    if t.len() >= 5 && t.take(5) == seq!['&', 'a', 'm', 'p', ';'] {
        Some(('&', 5nat))
    } else if t.len() >= 4 && t.take(4) == seq!['&', 'l', 't', ';'] {
        Some(('<', 4nat))
    } else if t.len() >= 4 && t.take(4) == seq!['&', 'g', 't', ';'] {
        Some(('>', 4nat))
    } else if t.len() >= 6 && t.take(6) == seq!['&', 'q', 'u', 'o', 't', ';'] {
        Some(('"', 6nat))
    } else if t.len() >= 6 && t.take(6) == seq!['&', '#', 'x', '2', '7', ';'] {
        Some(('\'', 6nat))
    } else {
        None
    }
}

/// Decodes, from left to right, each of the five entities into its
/// character; every other character stands for itself.
pub open spec fn html_unescape(t: Seq<char>) -> Seq<char>
    decreases t.len(),
{
    if t.len() == 0 {
        Seq::empty()
    } else {
        match leading_entity(t) {
            Some((c, n)) => seq![c] + html_unescape(t.skip(n as int)),
            None => seq![t[0]] + html_unescape(t.skip(1)),
        }
    }
}

proof fn lemma_escape_concat(a: Seq<char>, b: Seq<char>)
    ensures
        html_escape_spec(a + b) == html_escape_spec(a) + html_escape_spec(b),
    decreases b.len(),
{
    if b.len() == 0 {
        assert(a + b =~= a);
        assert(html_escape_spec(a) + html_escape_spec(b) =~= html_escape_spec(a));
    } else {
        lemma_escape_concat(a, b.drop_last());
        assert((a + b).drop_last() =~= a + b.drop_last());
        assert((a + b).last() == b.last());
        assert(html_escape_spec(a) + html_escape_spec(b.drop_last()) + escape_char(b.last())
            =~= html_escape_spec(a) + (html_escape_spec(b.drop_last()) + escape_char(b.last())));
    }
}

proof fn lemma_escape_front(s: Seq<char>)
    requires
        s.len() > 0,
    ensures
        html_escape_spec(s) == escape_char(s[0]) + html_escape_spec(s.skip(1)),
{
    lemma_escape_concat(seq![s[0]], s.skip(1));
    assert(seq![s[0]] + s.skip(1) =~= s);
    assert(seq![s[0]].drop_last() =~= Seq::<char>::empty());
    assert(html_escape_spec(Seq::<char>::empty()) =~= Seq::<char>::empty());
    assert(html_escape_spec(seq![s[0]]) =~= escape_char(s[0]));
}

proof fn lemma_leading_entity(c: char, t: Seq<char>)
    ensures
        c == '&' || c == '<' || c == '>' || c == '"' || c == '\'' ==> leading_entity(
            escape_char(c) + t,
        ) == Some((c, escape_char(c).len())),
        !(c == '&' || c == '<' || c == '>' || c == '"' || c == '\'') ==> leading_entity(
            escape_char(c) + t,
        ) is None && escape_char(c) == seq![c],
{
    reveal_strlit("&amp;");
    reveal_strlit("&lt;");
    reveal_strlit("&gt;");
    reveal_strlit("&quot;");
    reveal_strlit("&#x27;");
    let e = escape_char(c);
    let u = e + t;
    assert(u.take(e.len() as int) =~= e);
    if c == '&' {
        assert(e =~= seq!['&', 'a', 'm', 'p', ';']);
    } else if c == '<' {
        assert(e =~= seq!['&', 'l', 't', ';']);
        assert(u.len() >= 5 ==> u.take(5)[1] == 'l');
    } else if c == '>' {
        assert(e =~= seq!['&', 'g', 't', ';']);
        assert(u.len() >= 5 ==> u.take(5)[1] == 'g');
        assert(u.take(4)[1] == 'g');
    } else if c == '"' {
        assert(e =~= seq!['&', 'q', 'u', 'o', 't', ';']);
        assert(u.take(5)[1] == 'q');
        assert(u.take(4)[1] == 'q');
    } else if c == '\'' {
        assert(e =~= seq!['&', '#', 'x', '2', '7', ';']);
        assert(u.take(5)[1] == '#');
        assert(u.take(4)[1] == '#');
        assert(u.take(6)[1] == '#');
    } else {
        assert(u[0] == c);
        assert(u.len() >= 5 ==> u.take(5)[0] == c);
        assert(u.len() >= 4 ==> u.take(4)[0] == c);
        assert(u.len() >= 6 ==> u.take(6)[0] == c);
    }
}

proof fn lemma_unescape_front(c: char, t: Seq<char>)
    ensures
        html_unescape(escape_char(c) + t) == seq![c] + html_unescape(t),
{
    lemma_leading_entity(c, t);
    let e = escape_char(c);
    let u = e + t;
    assert(u.skip(e.len() as int) =~= t);
    assert(u.len() > 0);
    if !(c == '&' || c == '<' || c == '>' || c == '"' || c == '\'') {
        assert(u[0] == c);
        assert(u.skip(1) =~= t);
    }
}

/// Escaping loses nothing: decoding the entities of an escaped text gives
/// the text back.
pub proof fn law_escape_round_trip(s: Seq<char>)
    ensures
        html_unescape(html_escape_spec(s)) == s,
    decreases s.len(),
{
    if s.len() == 0 {
        assert(html_escape_spec(s) =~= Seq::<char>::empty());
    } else {
        lemma_escape_front(s);
        law_escape_round_trip(s.skip(1));
        lemma_unescape_front(s[0], html_escape_spec(s.skip(1)));
        assert(seq![s[0]] + s.skip(1) =~= s);
    }
}

/// Every `&` in an escaped text starts one of the five entities: none of the
/// text's own ampersands is left bare.
pub proof fn law_escape_ampersands(s: Seq<char>)
    ensures
        forall|i: int|
            0 <= i < html_escape_spec(s).len() && #[trigger] html_escape_spec(s)[i] == '&'
                ==> leading_entity(html_escape_spec(s).skip(i)) is Some,
    decreases s.len(),
{
    reveal_strlit("&amp;");
    reveal_strlit("&lt;");
    reveal_strlit("&gt;");
    reveal_strlit("&quot;");
    reveal_strlit("&#x27;");
    if s.len() > 0 {
        lemma_escape_front(s);
        law_escape_ampersands(s.skip(1));
        let e = escape_char(s[0]);
        let t = html_escape_spec(s.skip(1));
        let r = e + t;
        assert forall|i: int| 0 <= i < r.len() && #[trigger] r[i] == '&' implies leading_entity(
            r.skip(i),
        ) is Some by {
            if i >= e.len() {
                assert(r[i] == t[i - e.len()]);
                assert(r.skip(i) =~= t.skip(i - e.len()));
            } else {
                lemma_leading_entity(s[0], t);
                assert(r[i] == e[i]);
                assert(i == 0);
                assert(r.skip(0) =~= r);
            }
        }
    }
}

fn push_escaped(out: &mut String, c: char)
    ensures
        final(out)@ == old(out)@ + escape_char(c),
{
    if c == '&' {
        out.append("&amp;");
    } else if c == '<' {
        out.append("&lt;");
    } else if c == '>' {
        out.append("&gt;");
    } else if c == '"' {
        out.append("&quot;");
    } else if c == '\'' {
        out.append("&#x27;");
    } else {
        push_char(out, c);
        assert(final(out)@ =~= old(out)@ + seq![c]);
    }
}

/// Escapes a text for HTML messages (see `html_escape_spec`).
pub fn html_escape(s: &str) -> (r: String)
    ensures
        r@ == html_escape_spec(s@),
{
    let cs = chars_of(s);
    let mut out = String::new();
    let mut i: usize = 0;
    while i < cs.len()
        invariant
            cs@ == s@,
            i <= cs@.len(),
            out@ == html_escape_spec(cs@.take(i as int)),
        decreases cs@.len() - i,
    {
        assert(cs@.take(i + 1).drop_last() =~= cs@.take(i as int));
        push_escaped(&mut out, cs[i]);
        i = i + 1;
    }
    assert(cs@.take(cs@.len() as int) =~= cs@);
    out
}

/// The lower-cased link contains the ASCII text `lit`.
pub open spec fn lower_has(url: Seq<char>, lit: &str) -> bool {
    seq_contains(vstd::utf8::encode_utf8(str_lowercase(url)), lit.spec_bytes())
}

/// The platform that a link belongs to, by the names in its lower-cased text.
pub open spec fn detect_platform_spec(url: Seq<char>) -> Option<Seq<char>> {
    if lower_has(url, "facebook.com") || lower_has(url, "fb.watch") || lower_has(url, "fb.com") {
        Some("Facebook"@)
    } else if lower_has(url, "instagram.com") || lower_has(url, "instagr.am") {
        Some("Instagram"@)
    } else if lower_has(url, "tiktok.com") {
        Some("TikTok"@)
    } else if lower_has(url, "twitter.com") || lower_has(url, "x.com") {
        Some("Twitter"@)
    } else if lower_has(url, "youtube.com") || lower_has(url, "youtu.be") {
        Some("YouTube"@)
    } else if lower_has(url, "pinterest.com") || lower_has(url, "pin.it") {
        Some("Pinterest"@)
    } else if lower_has(url, "linkedin.com") {
        Some("LinkedIn"@)
    } else if lower_has(url, "soundcloud.com") {
        Some("SoundCloud"@)
    } else if lower_has(url, "spotify.com") {
        Some("Spotify"@)
    } else if lower_has(url, "threads.com") || lower_has(url, "threads.net") {
        Some("Threads"@)
    } else if lower_has(url, "terabox.com") || lower_has(url, "1024terabox.com") {
        Some("TeraBox"@)
    } else {
        None
    }
}

/// The platform name of a link, if it belongs to a known platform.
pub fn detect_platform(url: &str) -> (r: Option<&'static str>)
    ensures
        match r {
            Some(p) => detect_platform_spec(url@) == Some(p@),
            None => detect_platform_spec(url@) is None,
        },
{
    let lower = to_lowercase(url);
    let l = lower.as_str();
    if contains_str(l, "facebook.com") || contains_str(l, "fb.watch") || contains_str(l, "fb.com") {
        Some("Facebook")
    } else if contains_str(l, "instagram.com") || contains_str(l, "instagr.am") {
        Some("Instagram")
    } else if contains_str(l, "tiktok.com") {
        Some("TikTok")
    } else if contains_str(l, "twitter.com") || contains_str(l, "x.com") {
        Some("Twitter")
    } else if contains_str(l, "youtube.com") || contains_str(l, "youtu.be") {
        Some("YouTube")
    } else if contains_str(l, "pinterest.com") || contains_str(l, "pin.it") {
        Some("Pinterest")
    } else if contains_str(l, "linkedin.com") {
        Some("LinkedIn")
    } else if contains_str(l, "soundcloud.com") {
        Some("SoundCloud")
    } else if contains_str(l, "spotify.com") {
        Some("Spotify")
    } else if contains_str(l, "threads.com") || contains_str(l, "threads.net") {
        Some("Threads")
    } else if contains_str(l, "terabox.com") || contains_str(l, "1024terabox.com") {
        Some("TeraBox")
    } else {
        None
    }
}

/// The text of the link to a source: the platform name when the link has one,
/// else its escaped domain, else "Source".
pub open spec fn source_label_spec(url: Seq<char>) -> Seq<char> {
    match detect_platform_spec(url) {
        Some(p) => p,
        None => {
            let domain = if url_parses(url) && url_domain(url) is Some {
                url_domain(url)->0
            } else {
                "Source"@
            };
            html_escape_spec(domain)
        },
    }
}

/// An HTML anchor that points at the link and names its source.
pub open spec fn source_link_spec(url: Seq<char>) -> Seq<char> {
    "<a href=\""@ + html_escape_spec(url) + "\">"@ + source_label_spec(url) + "</a>"@
}

/// An HTML anchor to a link, named by its platform or domain (see
/// `source_link_spec`).
pub fn get_source_link(url: &str) -> (r: String)
    ensures
        r@ == source_link_spec(url@),
{
    let escaped_url = html_escape(url);
    let label = match detect_platform(url) {
        Some(p) => p.to_owned(),
        None => {
            let domain = match parse_url(url) {
                Some(parsed) => match parsed.domain {
                    Some(d) => d,
                    None => "Source".to_owned(),
                },
                None => "Source".to_owned(),
            };
            html_escape(domain.as_str())
        },
    };
    let mut out = "<a href=\"".to_owned();
    out.append(escaped_url.as_str());
    out.append("\">");
    out.append(label.as_str());
    out.append("</a>");
    out
}

/// Query keys that only track where a link was shared.
pub open spec fn is_tracking_key(k: Seq<char>) -> bool {
    k == "utm_source"@ || k == "utm_medium"@ || k == "utm_campaign"@ || k == "utm_term"@
        || k == "utm_content"@ || k == "igsh"@ || k == "igshid"@ || k == "fbclid"@ || k == "gclid"@
}

/// The query pairs whose key is not a tracking key, in order.
pub open spec fn kept_pairs(ps: Seq<(Seq<char>, Seq<char>)>) -> Seq<(Seq<char>, Seq<char>)>
    decreases ps.len(),
{
    if ps.len() == 0 {
        ps
    } else {
        let r = kept_pairs(ps.drop_last());
        if is_tracking_key(ps.last().0) {
            r
        } else {
            r.push(ps.last())
        }
    }
}

/// A link without its tracking query pairs: unchanged when it does not parse;
/// without a query when only tracking pairs (or an empty query) remain; else
/// rebuilt from the pairs that remain.
pub open spec fn normalize_url_spec(url: Seq<char>) -> Seq<char> {
    if !url_parses(url) {
        url
    } else {
        let keep = kept_pairs(url_query_pairs(url));
        if keep.len() == 0 && url_query(url) is Some {
            url_without_query(url)
        } else if keep.len() == 0 {
            url_serialization(url)
        } else {
            url_with_query_pairs(url, keep)
        }
    }
}

fn is_tracking(k: &String) -> (r: bool)
    ensures
        r == is_tracking_key(k@),
{
    let s = k.as_str();
    crate::text::str_eq(s, "utm_source") || crate::text::str_eq(s, "utm_medium")
        || crate::text::str_eq(s, "utm_campaign") || crate::text::str_eq(s, "utm_term")
        || crate::text::str_eq(s, "utm_content") || crate::text::str_eq(s, "igsh")
        || crate::text::str_eq(s, "igshid") || crate::text::str_eq(s, "fbclid")
        || crate::text::str_eq(s, "gclid")
}

/// Removes tracking parameters from a link (see `normalize_url_spec`).
pub fn normalize_url(url: &str) -> (r: String)
    ensures
        r@ == normalize_url_spec(url@),
{
    let parsed = match parse_url(url) {
        None => return url.to_owned(),
        Some(p) => p,
    };
    let ps = &parsed.query_pairs;
    let mut keep: Vec<(String, String)> = Vec::new();
    let mut i: usize = 0;
    while i < ps.len()
        invariant
            i <= ps@.len(),
            keep.deep_view() == kept_pairs(ps.deep_view().take(i as int)),
        decreases ps@.len() - i,
    {
        assert(ps.deep_view().take(i + 1).drop_last() =~= ps.deep_view().take(i as int));
        assert(ps.deep_view().take(i + 1).last() == ps.deep_view()[i as int]);
        if !is_tracking(&ps[i].0) {
            let ghost before = keep.deep_view();
            keep.push((ps[i].0.clone(), ps[i].1.clone()));
            assert(keep.deep_view() =~= before.push(ps.deep_view()[i as int]));
        }
        i = i + 1;
    }
    assert(ps.deep_view().take(ps@.len() as int) =~= ps.deep_view());
    if keep.len() == 0 && parsed.query.is_some() {
        return url_clear_query(url);
    }
    if keep.len() == 0 {
        return parsed.serialized;
    }
    url_replace_query(url, &keep)
}

} // verus!
