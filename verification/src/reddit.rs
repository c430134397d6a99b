//! Reddit: what a post's link, the rapidsave page and the old Reddit page
//! say about the files to fetch.

use vstd::prelude::*;

use crate::html::{select_attrs, selected_attrs, selector_parses};

use crate::patterns::{find_from, find_from_spec, rfind, rfind_spec, split_pat, split_pat_from, split_str};
use crate::scrape::{resolve_url, resolve_url_spec};
use crate::text::{char_alphanumeric, chars_of, is_alphanumeric, split_char, split_spec, str_eq, substring};
use crate::weburl::{parse_url, url_parses, url_query_pairs};

verus! {

/// The pieces of a path that are not empty, in order.
pub open spec fn keep_nonempty(ps: Seq<Seq<char>>) -> Seq<Seq<char>>
    decreases ps.len(),
{
    if ps.len() == 0 {
        Seq::empty()
    } else {
        let r = keep_nonempty(ps.drop_last());
        if ps.last().len() > 0 {
            r.push(ps.last())
        } else {
            r
        }
    }
}

/// The non-empty `/`-separated parts of a link.
pub open spec fn url_parts(url: Seq<char>) -> Seq<Seq<char>> {
    keep_nonempty(split_spec(url, '/'))
}

/// The first position of `x` in `s`.
pub open spec fn position_of(s: Seq<Seq<char>>, x: Seq<char>) -> Option<int>
    decreases s.len(),
{
    if s.len() == 0 {
        None
    } else {
        match position_of(s.drop_last(), x) {
            Some(i) => Some(i),
            None => if s.last() == x {
                Some(s.len() - 1)
            } else {
                None
            },
        }
    }
}

/// The part `k` places after `comments` in a link's parts.
pub open spec fn after_comments(url: Seq<char>, k: int) -> Option<Seq<char>> {
    let ps = url_parts(url);
    match position_of(ps, "comments"@) {
        Some(p) => if p + k < ps.len() {
            Some(ps[p + k])
        } else {
            None
        },
        None => None,
    }
}

/// The post id of a link (`/r/sub/comments/<id>/...`), else `unknown`.
pub open spec fn post_id_spec(url: Seq<char>) -> Seq<char> {
    match after_comments(url, 1) {
        Some(id) => id,
        None => "unknown"@,
    }
}

/// `char::to_uppercase`, its characters collected.
pub uninterp spec fn char_upper(c: char) -> Seq<char>;

/// Upper-cases one character with `char::to_uppercase`. The contract names
/// the result and states the ASCII part that the method's documentation
/// fixes: an ASCII letter becomes its capital, any other ASCII character
/// stays.
#[verifier::external_body]
fn upper(c: char) -> (r: String)
    ensures
        r@ == char_upper(c),
        (c as u32) < 128 ==> r@ == seq![
            if 'a' <= c <= 'z' {
                ((c as u32) - 32) as char
            } else {
                c
            },
        ],
{
    c.to_uppercase().collect()
}

/// A slug as words: `_` and `-` become spaces.
pub open spec fn slug_words(slug: Seq<char>) -> Seq<char> {
    slug.map_values(|c: char| if c == '_' || c == '-' { ' ' } else { c })
}

/// The title a post's link spells: the slug after the post id, with `_` and
/// `-` as spaces and its first character upper-cased.
pub open spec fn title_spec(url: Seq<char>) -> Option<Seq<char>> {
    match after_comments(url, 2) {
        Some(slug) => {
            let t = slug_words(slug);
            if t.len() > 0 {
                Some(char_upper(t[0]) + t.skip(1))
            } else {
                None
            }
        },
        None => None,
    }
}

fn nonempty_parts(url: &str) -> (r: Vec<String>)
    ensures
        r.deep_view() == url_parts(url@),
{
    let ps = split_char(url, '/');
    let mut out: Vec<String> = Vec::new();
    let mut i: usize = 0;
    while i < ps.len()
        invariant
            i <= ps@.len(),
            ps.deep_view() == split_spec(url@, '/'),
            out.deep_view() == keep_nonempty(ps.deep_view().take(i as int)),
        decreases ps@.len() - i,
    {
        let ghost pre = ps.deep_view().take(i + 1);
        assert(pre.drop_last() =~= ps.deep_view().take(i as int));
        assert(pre.last() == ps@[i as int]@);
        if !ps[i].as_str().is_empty() {
            let ghost before = out.deep_view();
            out.push(ps[i].clone());
            assert(out.deep_view() =~= before.push(ps@[i as int]@));
        }
        i = i + 1;
    }
    assert(ps.deep_view().take(ps@.len() as int) =~= ps.deep_view());
    out
}

fn find_part(ps: &Vec<String>, x: &str) -> (r: Option<usize>)
    ensures
        match r {
            Some(i) => position_of(ps.deep_view(), x@) == Some(i as int) && i < ps@.len(),
            None => position_of(ps.deep_view(), x@) is None,
        },
{
    let mut i: usize = 0;
    while i < ps.len()
        invariant
            i <= ps@.len(),
            position_of(ps.deep_view().take(i as int), x@) is None,
        decreases ps@.len() - i,
    {
        let ghost pre = ps.deep_view().take(i + 1);
        assert(pre.drop_last() =~= ps.deep_view().take(i as int));
        assert(pre.last() == ps@[i as int]@);
        if str_eq(ps[i].as_str(), x) {
            proof {
                lemma_position_prefix(ps.deep_view(), x@, i + 1);
            }
            return Some(i);
        }
        i = i + 1;
    }
    assert(ps.deep_view().take(ps@.len() as int) =~= ps.deep_view());
    None
}

/// A position found in a prefix is the position in the whole sequence.
proof fn lemma_position_prefix(s: Seq<Seq<char>>, x: Seq<char>, k: int)
    requires
        0 <= k <= s.len(),
        position_of(s.take(k), x) is Some,
    ensures
        position_of(s, x) == position_of(s.take(k), x),
    decreases s.len() - k,
{
    if k < s.len() {
        assert(s.take(k + 1).drop_last() =~= s.take(k));
        lemma_position_prefix(s, x, k + 1);
    } else {
        assert(s.take(k) =~= s);
    }
}

fn part_after_comments(url: &str, k: usize) -> (r: Option<String>)
    requires
        k <= 2,
    ensures
        r.deep_view() == after_comments(url@, k as int),
{
    let ps = nonempty_parts(url);
    match find_part(&ps, "comments") {
        Some(p) => if k < ps.len() - p {
            assert(ps.deep_view()[p + k] == ps@[p + k]@);
            Some(ps[p + k].clone())
        } else {
            None
        },
        None => None,
    }
}

/// The id of the post a Reddit link points at, or `unknown`.
pub fn post_id_from_url(url: &str) -> (r: String)
    ensures
        r@ == post_id_spec(url@),
{
    match part_after_comments(url, 1) {
        Some(id) => id,
        None => String::from_str("unknown"),
    }
}

/// The title that a Reddit link's slug spells (see `title_spec`).
pub fn title_from_url(url: &str) -> (r: Option<String>)
    ensures
        r.deep_view() == title_spec(url@),
{
    match part_after_comments(url, 2) {
        None => None,
        Some(slug) => {
            let cs = chars_of(slug.as_str());
            let mut t: Vec<char> = Vec::new();
            let mut i: usize = 0;
            while i < cs.len()
                invariant
                    i <= cs@.len(),
                    t@ == slug_words(cs@.take(i as int)),
                decreases cs@.len() - i,
            {
                let c = cs[i];
                t.push(
                    if c == '_' || c == '-' {
                        ' '
                    } else {
                        c
                    },
                );
                i = i + 1;
                assert(t@ =~= slug_words(cs@.take(i as int)));
            }
            assert(cs@.take(cs@.len() as int) =~= cs@);
            if t.len() == 0 {
                return None;
            }
            let mut s = upper(t[0]);
            let rest = substring(&t, 1, t.len());
            assert(t@.subrange(1, t@.len() as int) =~= t@.skip(1));
            s.append(rest.as_str());
            Some(s)
        },
    }
}

/// A character that may stand in an image file name on the old Reddit page.
pub open spec fn name_char(c: char) -> bool {
    char_alphanumeric(c) || c == '_' || c == '.' || c == '-'
}

/// The leading run of name characters of `s`.
pub open spec fn name_run(s: Seq<char>) -> Seq<char>
    decreases s.len(),
{
    if s.len() > 0 && name_char(s[0]) {
        seq![s[0]] + name_run(s.skip(1))
    } else {
        Seq::empty()
    }
}

/// The extension of a file name: what follows its last `.`.
pub open spec fn extension(f: Seq<char>) -> Option<Seq<char>> {
    match rfind_spec(f, seq!['.']) {
        Some(i) => Some(f.skip(i + 1)),
        None => None,
    }
}

/// An extension of a picture that the old Reddit page links.
pub open spec fn image_ext(e: Seq<char>) -> bool {
    e == "png"@ || e == "jpg"@ || e == "jpeg"@ || e == "gif"@ || e == "webp"@
}

/// A file name worth fetching: not empty, with a picture's extension.
pub open spec fn image_name(f: Seq<char>) -> bool {
    f.len() > 0 && (extension(f) matches Some(e) && image_ext(e))
}

/// The picture names of the pieces, each once, in the order they first
/// appear.
pub open spec fn image_names(pieces: Seq<Seq<char>>) -> Seq<Seq<char>>
    decreases pieces.len(),
{
    if pieces.len() == 0 {
        Seq::empty()
    } else {
        let r = image_names(pieces.drop_last());
        let f = name_run(pieces.last());
        if image_name(f) && !r.contains(f) {
            r.push(f)
        } else {
            r
        }
    }
}

/// The pictures of an old Reddit page: the name right after each
/// `preview.redd.it/`, kept when it has a picture's extension, each name
/// once. The text before the first `preview.redd.it/` names no picture.
pub open spec fn old_reddit_images_spec(html: Seq<char>) -> Seq<Seq<char>> {
    image_names(split_pat(html, "preview.redd.it/"@).skip(1))
}

/// Splitting a text always gives at least one piece.
proof fn lemma_split_pat_nonempty(s: Seq<char>, p: Seq<char>, start: int)
    ensures
        split_pat_from(s, p, start).len() >= 1,
{
}

fn name_prefix(s: &str) -> (r: String)
    ensures
        r@ == name_run(s@),
{
    let cs = chars_of(s);
    let mut i: usize = 0;
    assert(cs@.skip(0) =~= cs@);
    assert(cs@.take(0) + name_run(cs@.skip(0)) =~= name_run(cs@));
    while i < cs.len() && (is_alphanumeric(cs[i]) || cs[i] == '_' || cs[i] == '.' || cs[i] == '-')
        invariant
            cs@ == s@,
            i <= cs@.len(),
            name_run(cs@) == cs@.take(i as int) + name_run(cs@.skip(i as int)),
        decreases cs@.len() - i,
    {
        assert(cs@.skip(i as int).skip(1) =~= cs@.skip(i + 1));
        assert(cs@.take(i as int) + (seq![cs@[i as int]] + name_run(cs@.skip(i + 1))) =~= cs@.take(i + 1)
            + name_run(cs@.skip(i + 1)));
        i = i + 1;
    }
    assert(cs@.take(i as int) + name_run(cs@.skip(i as int)) =~= cs@.take(i as int));
    substring(&cs, 0, i)
}

fn is_image_name(f: &str) -> (r: bool)
    ensures
        r == image_name(f@),
{
    let cs = chars_of(f);
    if cs.len() == 0 {
        return false;
    }
    let mut dot: Vec<char> = Vec::new();
    dot.push('.');
    assert(dot@ =~= seq!['.']);
    match rfind(&cs, &dot) {
        None => false,
        Some(i) => {
            let e = substring(&cs, i + 1, cs.len());
            assert(cs@.subrange(i + 1, cs@.len() as int) =~= cs@.skip(i + 1));
            str_eq(e.as_str(), "png") || str_eq(e.as_str(), "jpg") || str_eq(e.as_str(), "jpeg") || str_eq(
                e.as_str(),
                "gif",
            ) || str_eq(e.as_str(), "webp")
        },
    }
}

fn contains_string(v: &Vec<String>, x: &String) -> (r: bool)
    ensures
        r == v.deep_view().contains(x@),
{
    let mut i: usize = 0;
    while i < v.len()
        invariant
            i <= v@.len(),
            forall|j: int| 0 <= j < i ==> v.deep_view()[j] != x@,
        decreases v@.len() - i,
    {
        if v[i] == *x {
            assert(v.deep_view()[i as int] == x@);
            return true;
        }
        i = i + 1;
    }
    false
}

/// The picture names of an old Reddit page (see `old_reddit_images_spec`).
pub fn parse_old_reddit_images(html: &str) -> (r: Vec<String>)
    ensures
        r.deep_view() == old_reddit_images_spec(html@),
{
    proof {
        reveal_strlit("preview.redd.it/");
    }
    let pieces = split_str(html, "preview.redd.it/");
    proof {
        lemma_split_pat_nonempty(html@, "preview.redd.it/"@, 0);
    }
    let ghost rest = pieces.deep_view().skip(1);
    let mut out: Vec<String> = Vec::new();
    let mut i: usize = 1;
    assert(rest.take(0) =~= Seq::<Seq<char>>::empty());
    while i < pieces.len()
        invariant
            1 <= i <= pieces@.len(),
            pieces.deep_view() == split_pat(html@, "preview.redd.it/"@),
            rest == pieces.deep_view().skip(1),
            out.deep_view() == image_names(rest.take(i - 1)),
        decreases pieces@.len() - i,
    {
        let ghost pre = rest.take(i as int);
        assert(pre.drop_last() =~= rest.take(i - 1));
        assert(pre.last() == pieces@[i as int]@);
        let f = name_prefix(pieces[i].as_str());
        if is_image_name(f.as_str()) && !contains_string(&out, &f) {
            let ghost before = out.deep_view();
            out.push(f);
            assert(out.deep_view() =~= before.push(f@));
        }
        i = i + 1;
    }
    assert(rest.take(pieces@.len() - 1) =~= rest);
    out
}

/// The value of the last pair with key `k`.
pub open spec fn last_value(pairs: Seq<(Seq<char>, Seq<char>)>, k: Seq<char>) -> Option<Seq<char>>
    decreases pairs.len(),
{
    if pairs.len() == 0 {
        None
    } else if pairs.last().0 == k {
        Some(pairs.last().1)
    } else {
        last_value(pairs.drop_last(), k)
    }
}

/// The video and audio addresses of a rapidsave download link: the values of
/// its last `video_url` and `audio_url` query parameters; nothing when it
/// does not parse or has no video.
pub open spec fn download_link_spec(href: Seq<char>) -> Option<(Seq<char>, Option<Seq<char>>)> {
    if !url_parses(href) {
        None
    } else {
        match last_value(url_query_pairs(href), "video_url"@) {
            Some(v) => Some((v, last_value(url_query_pairs(href), "audio_url"@))),
            None => None,
        }
    }
}

fn last_value_of(pairs: &Vec<(String, String)>, k: &str) -> (r: Option<String>)
    ensures
        r.deep_view() == last_value(pairs.deep_view(), k@),
{
    let mut i: usize = pairs.len();
    assert(pairs.deep_view().take(i as int) =~= pairs.deep_view());
    while i > 0
        invariant
            i <= pairs@.len(),
            last_value(pairs.deep_view(), k@) == last_value(pairs.deep_view().take(i as int), k@),
        decreases i,
    {
        let ghost pre = pairs.deep_view().take(i as int);
        assert(pre.drop_last() =~= pairs.deep_view().take(i - 1));
        assert(pre.last() == (pairs@[i - 1].0@, pairs@[i - 1].1@));
        if str_eq(pairs[i - 1].0.as_str(), k) {
            return Some(pairs[i - 1].1.clone());
        }
        i = i - 1;
    }
    None
}

/// Reads the video and audio addresses of a rapidsave download link.
pub fn parse_download_link(href: &str) -> (r: Option<(String, Option<String>)>)
    ensures
        r.deep_view() == download_link_spec(href@),
{
    let u = match parse_url(href) {
        Some(u) => u,
        None => return None,
    };
    let video = last_value_of(&u.query_pairs, "video_url");
    match video {
        Some(v) => Some((v, last_value_of(&u.query_pairs, "audio_url"))),
        None => None,
    }
}

/// What the rapidsave page offers: a video (with its audio track, if any)
/// and the addresses of pictures.
pub struct ParsedReddit {
    pub video: Option<(String, Option<String>)>,
    pub images: Vec<String>,
}

/// The first `href` (first attribute) of the elements that contains `pat`.
pub open spec fn first_href_with(els: Seq<(Option<Seq<char>>, Option<Seq<char>>)>, pat: Seq<char>) -> Option<
    Seq<char>,
>
    decreases els.len(),
{
    if els.len() == 0 {
        None
    } else {
        match first_href_with(els.drop_last(), pat) {
            Some(h) => Some(h),
            None => match els.last().0 {
                Some(h) => if find_from_spec(h, pat, 0) is Some {
                    Some(h)
                } else {
                    None
                },
                None => None,
            },
        }
    }
}

/// The addresses of the elements: each one's first attribute, else its
/// second, completed against `base`; elements with neither are skipped.
pub open spec fn element_links(els: Seq<(Option<Seq<char>>, Option<Seq<char>>)>, base: Seq<char>) -> Seq<Seq<char>>
    decreases els.len(),
{
    if els.len() == 0 {
        Seq::empty()
    } else {
        let r = element_links(els.drop_last(), base);
        match els.last().0 {
            Some(h) => r.push(resolve_url_spec(h, base)),
            None => match els.last().1 {
                Some(s) => r.push(resolve_url_spec(s, base)),
                None => r,
            },
        }
    }
}

/// The selector of rapidsave's download button.
pub open spec fn button_sel() -> Seq<char> {
    "a.downloadbutton"@
}

/// The selector of rapidsave's picture links.
pub open spec fn image_sel() -> Seq<char> {
    "a[href*='i.redd.it'], img[src*='i.redd.it']"@
}

/// What the rapidsave page offers: the video of the first download-button
/// link to `download.php`, and every picture link on `i.redd.it` completed
/// against `https://rapidsave.com`. A selector that does not parse finds
/// nothing.
pub open spec fn rapidsave_spec(html: Seq<char>) -> (Option<(Seq<char>, Option<Seq<char>>)>, Seq<Seq<char>>) {
    let video = if selector_parses(button_sel()) {
        match first_href_with(selected_attrs(html, button_sel(), "href"@, "href"@), "download.php"@) {
            Some(h) => download_link_spec(h),
            None => None,
        }
    } else {
        None
    };
    let images = if selector_parses(image_sel()) {
        element_links(selected_attrs(html, image_sel(), "href"@, "src"@), "https://rapidsave.com"@)
    } else {
        Seq::empty()
    };
    (video, images)
}

pub open spec fn parsed_view(p: ParsedReddit) -> (Option<(Seq<char>, Option<Seq<char>>)>, Seq<Seq<char>>) {
    (p.video.deep_view(), p.images.deep_view())
}

fn first_href_containing(els: &Vec<(Option<String>, Option<String>)>, pat: &str) -> (r: Option<String>)
    ensures
        r.deep_view() == first_href_with(els.deep_view(), pat@),
{
    let pc = chars_of(pat);
    let mut i: usize = 0;
    while i < els.len()
        invariant
            i <= els@.len(),
            pc@ == pat@,
            first_href_with(els.deep_view().take(i as int), pat@) is None,
        decreases els@.len() - i,
    {
        let ghost pre = els.deep_view().take(i + 1);
        assert(pre.drop_last() =~= els.deep_view().take(i as int));
        assert(pre.last() == els.deep_view()[i as int]);
        match &els[i].0 {
            Some(h) => {
                let hc = chars_of(h.as_str());
                if find_from(&hc, &pc, 0).is_some() {
                    proof {
                        lemma_first_href_prefix(els.deep_view(), pat@, i + 1);
                    }
                    return Some(h.clone());
                }
            },
            None => {},
        }
        i = i + 1;
    }
    assert(els.deep_view().take(els@.len() as int) =~= els.deep_view());
    None
}

/// A link found in a prefix is the one found in the whole sequence.
proof fn lemma_first_href_prefix(els: Seq<(Option<Seq<char>>, Option<Seq<char>>)>, pat: Seq<char>, k: int)
    requires
        0 <= k <= els.len(),
        first_href_with(els.take(k), pat) is Some,
    ensures
        first_href_with(els, pat) == first_href_with(els.take(k), pat),
    decreases els.len() - k,
{
    if k < els.len() {
        assert(els.take(k + 1).drop_last() =~= els.take(k));
        lemma_first_href_prefix(els, pat, k + 1);
    } else {
        assert(els.take(k) =~= els);
    }
}

fn links_of(els: &Vec<(Option<String>, Option<String>)>, base: &str) -> (r: Vec<String>)
    ensures
        r.deep_view() == element_links(els.deep_view(), base@),
{
    let mut out: Vec<String> = Vec::new();
    let mut i: usize = 0;
    while i < els.len()
        invariant
            i <= els@.len(),
            out.deep_view() == element_links(els.deep_view().take(i as int), base@),
        decreases els@.len() - i,
    {
        let ghost pre = els.deep_view().take(i + 1);
        assert(pre.drop_last() =~= els.deep_view().take(i as int));
        assert(pre.last() == els.deep_view()[i as int]);
        let ghost before = out.deep_view();
        match &els[i].0 {
            Some(h) => {
                let l = resolve_url(h.as_str(), base);
                out.push(l);
                assert(out.deep_view() =~= before.push(l@));
            },
            None => match &els[i].1 {
                Some(s) => {
                    let l = resolve_url(s.as_str(), base);
                    out.push(l);
                    assert(out.deep_view() =~= before.push(l@));
                },
                None => {},
            },
        }
        i = i + 1;
    }
    assert(els.deep_view().take(els@.len() as int) =~= els.deep_view());
    out
}

/// Reads what the rapidsave page offers (see `rapidsave_spec`).
pub fn parse_rapidsave_html(html: &str) -> (r: ParsedReddit)
    ensures
        parsed_view(r) == rapidsave_spec(html@),
{
    let video = match select_attrs(html, "a.downloadbutton", "href", "href") {
        Some(els) => match first_href_containing(&els, "download.php") {
            Some(h) => parse_download_link(h.as_str()),
            None => None,
        },
        None => None,
    };
    let images = match select_attrs(html, "a[href*='i.redd.it'], img[src*='i.redd.it']", "href", "src") {
        Some(els) => links_of(&els, "https://rapidsave.com"),
        None => Vec::new(),
    };
    let r = ParsedReddit { video, images };
    assert(r.images.deep_view() =~= rapidsave_spec(html@).1);
    r
}

/// Every picture name read from an old Reddit page is non-empty, has a
/// picture's extension, and appears once.
pub proof fn law_old_reddit_images_distinct(html: Seq<char>)
    ensures
        forall|i: int|
            0 <= i < old_reddit_images_spec(html).len() ==> image_name(#[trigger] old_reddit_images_spec(html)[i]),
        old_reddit_images_spec(html).no_duplicates(),
{
    lemma_image_names(split_pat(html, "preview.redd.it/"@).skip(1));
}

/// A page without `preview.redd.it/` names no picture, whatever its text.
pub proof fn law_old_reddit_needs_marker(html: Seq<char>)
    requires
        find_from_spec(html, "preview.redd.it/"@, 0) is None,
    ensures
        old_reddit_images_spec(html).len() == 0,
{
    assert(split_pat(html, "preview.redd.it/"@).skip(1) =~= Seq::<Seq<char>>::empty());
}

proof fn lemma_image_names(pieces: Seq<Seq<char>>)
    ensures
        forall|i: int| 0 <= i < image_names(pieces).len() ==> image_name(#[trigger] image_names(pieces)[i]),
        image_names(pieces).no_duplicates(),
    decreases pieces.len(),
{
    if pieces.len() > 0 {
        lemma_image_names(pieces.drop_last());
        let r = image_names(pieces.drop_last());
        let f = name_run(pieces.last());
        if image_name(f) && !r.contains(f) {
            assert forall|i: int, j: int| 0 <= i < j < r.push(f).len() implies r.push(f)[i] != r.push(f)[j] by {
                if j == r.len() {
                    assert(r.contains(r[i]));
                }
            }
        }
    }
}

} // verus!
