//! Instagram: from a post's link to its media id, and from the private API's
//! answer to the files to fetch.

use vstd::prelude::*;

use crate::media::MediaKind;
use crate::patterns::{rfind, rfind_spec};
use crate::scrape::{byte_tail, tail_bytes, tail_ok, trim_end_char, has_prefix};
use crate::text::{
    chars_of, contains_str, decimal, decimal_string, find_char, first_index_of, lines, split_char,
    split_lines, split_spec, str_contains, substring, trim, trim_spec,
};

verus! {

/// Why a shortcode has no media id.
#[derive(Debug, Clone, Copy, PartialEq, Eq, Structural)]
pub enum ShortcodeError {
    /// A character outside the shortcode alphabet.
    InvalidChar(char),
    /// The id does not fit in 64 bits.
    Overflow,
}

/// The position of a byte in the shortcode alphabet `A-Z a-z 0-9 - _`.
pub open spec fn alphabet_pos(b: int) -> Option<int> {
    if 65 <= b <= 90 {
        Some(b - 65)
    } else if 97 <= b <= 122 {
        Some(b - 97 + 26)
    } else if 48 <= b <= 57 {
        Some(b - 48 + 52)
    } else if b == 45 {
        Some(62)
    } else if b == 95 {
        Some(63)
    } else {
        None
    }
}

/// The byte a character is compared as: its code cut to eight bits
/// (`c as u8`).
pub open spec fn code_byte(c: char) -> int {
    (c as int) % 256
}

/// The media id of a shortcode, read as a base-64 number from left to right:
/// the first character outside the alphabet, or the first step past 64 bits,
/// is the error.
pub open spec fn media_id_spec(s: Seq<char>) -> Result<int, ShortcodeError>
    decreases s.len(),
{
    if s.len() == 0 {
        Ok(0)
    } else {
        match media_id_spec(s.drop_last()) {
            Err(e) => Err(e),
            Ok(v) => match alphabet_pos(code_byte(s.last())) {
                None => Err(ShortcodeError::InvalidChar(s.last())),
                Some(p) => if v * 64 + p > u64::MAX {
                    Err(ShortcodeError::Overflow)
                } else {
                    Ok(v * 64 + p)
                },
            },
        }
    }
}

fn alphabet_index(c: char) -> (r: Option<u64>)
    ensures
        match r {
            Some(p) => alphabet_pos(code_byte(c)) == Some(p as int),
            None => alphabet_pos(code_byte(c)) is None,
        },
{
    let b: u32 = (c as u32) % 256;
    if 65 <= b && b <= 90 {
        Some((b - 65) as u64)
    } else if 97 <= b && b <= 122 {
        Some((b - 97 + 26) as u64)
    } else if 48 <= b && b <= 57 {
        Some((b - 48 + 52) as u64)
    } else if b == 45 {
        Some(62)
    } else if b == 95 {
        Some(63)
    } else {
        None
    }
}

/// The media id of a post's shortcode, in decimal.
pub fn shortcode_to_media_id(shortcode: &str) -> (r: Result<String, ShortcodeError>)
    ensures
        match r {
            Ok(s) => media_id_spec(shortcode@) matches Ok(v) && s@ == decimal(v as nat),
            Err(e) => media_id_spec(shortcode@) == Err::<int, ShortcodeError>(e),
        },
{
    let cs = chars_of(shortcode);
    let mut id: u64 = 0;
    let mut i: usize = 0;
    while i < cs.len()
        invariant
            cs@ == shortcode@,
            i <= cs@.len(),
            media_id_spec(cs@.take(i as int)) == Ok::<int, ShortcodeError>(id as int),
        decreases cs@.len() - i,
    {
        assert(cs@.take(i + 1).drop_last() =~= cs@.take(i as int));
        let c = cs[i];
        let pos = match alphabet_index(c) {
            Some(p) => p,
            None => {
                proof {
                    lemma_media_id_error_stays(cs@, i + 1);
                }
                return Err(ShortcodeError::InvalidChar(c));
            },
        };
        let next = match id.checked_mul(64) {
            Some(m) => m.checked_add(pos),
            None => None,
        };
        match next {
            Some(v) => {
                id = v;
            },
            None => {
                proof {
                    lemma_media_id_error_stays(cs@, i + 1);
                }
                return Err(ShortcodeError::Overflow);
            },
        }
        i = i + 1;
    }
    assert(cs@.take(cs@.len() as int) =~= cs@);
    Ok(decimal_string(id))
}

/// Once reading a prefix fails, reading the whole text fails the same way.
pub proof fn lemma_media_id_error_stays(s: Seq<char>, k: int)
    requires
        0 <= k <= s.len(),
        media_id_spec(s.take(k)) is Err,
    ensures
        media_id_spec(s) == media_id_spec(s.take(k)),
    decreases s.len() - k,
{
    if k < s.len() {
        assert(s.take(k + 1).drop_last() =~= s.take(k));
        lemma_media_id_error_stays(s, k + 1);
    } else {
        assert(s.take(k) =~= s);
    }
}

/// Where the shortcode after `marker` ends: at the first `/`, else at the
/// first `?`, else at the end.
pub open spec fn shortcode_end(rest: Seq<char>) -> int {
    match first_index_of(rest, '/') {
        Some(j) => j,
        None => match first_index_of(rest, '?') {
            Some(j) => j,
            None => rest.len() as int,
        },
    }
}

/// The shortcode after the last `marker` in `u`, if the marker occurs.
pub open spec fn shortcode_after(u: Seq<char>, marker: Seq<char>) -> Option<Seq<char>> {
    match rfind_spec(u, marker) {
        Some(i) => {
            let rest = u.skip(i + marker.len());
            Some(rest.take(shortcode_end(rest)))
        },
        None => None,
    }
}

/// The shortcode of a post, reel or video link: the link without trailing
/// slashes is searched for `/p/`, then `/reel/`, `/reels/` and `/tv/`, and
/// the first of these that occurs gives the text after its last occurrence,
/// up to the next `/` or `?`.
pub open spec fn extract_shortcode_spec(url: Seq<char>) -> Option<Seq<char>> {
    let u = trim_end_char(url, '/');
    if shortcode_after(u, "/p/"@) is Some {
        shortcode_after(u, "/p/"@)
    } else if shortcode_after(u, "/reel/"@) is Some {
        shortcode_after(u, "/reel/"@)
    } else if shortcode_after(u, "/reels/"@) is Some {
        shortcode_after(u, "/reels/"@)
    } else {
        shortcode_after(u, "/tv/"@)
    }
}

fn shortcode_from(u: &Vec<char>, marker: &str) -> (r: Option<String>)
    ensures
        r.deep_view() == shortcode_after(u@, marker@),
{
    let m = chars_of(marker);
    match rfind(u, &m) {
        None => None,
        Some(i) => {
            let start = i + m.len();
            let rest_s = substring(u, start, u.len());
            let rest = chars_of(rest_s.as_str());
            assert(rest@ =~= u@.skip(start as int));
            let end = match find_char(&rest, '/') {
                Some(j) => j,
                None => match find_char(&rest, '?') {
                    Some(j) => j,
                    None => rest.len(),
                },
            };
            assert(end as int == shortcode_end(rest@));
            let code = substring(&rest, 0, end);
            assert(rest@.subrange(0, end as int) =~= rest@.take(end as int));
            Some(code)
        },
    }
}

/// The shortcode of an Instagram post link (see `extract_shortcode_spec`).
pub fn extract_shortcode(url: &str) -> (r: Option<String>)
    ensures
        r.deep_view() == extract_shortcode_spec(url@),
{
    let cs = chars_of(url);
    let n = crate::scrape::trim_end_len(&cs, '/');
    let u = chars_of(substring(&cs, 0, n).as_str());
    assert(u@ =~= trim_end_char(url@, '/'));
    let a = shortcode_from(&u, "/p/");
    if a.is_some() {
        return a;
    }
    let b = shortcode_from(&u, "/reel/");
    if b.is_some() {
        return b;
    }
    let c = shortcode_from(&u, "/reels/");
    if c.is_some() {
        return c;
    }
    shortcode_from(&u, "/tv/")
}

/// The value of the `csrftoken` cookie in a `Cookie` header: the last
/// `;`-separated part that, trimmed, starts with `csrftoken=`.
pub open spec fn csrf_in(parts: Seq<Seq<char>>) -> Option<Seq<char>>
    decreases parts.len(),
{
    if parts.len() == 0 {
        None
    } else {
        let p = trim_spec(parts.last());
        if has_prefix(p, "csrftoken="@) {
            Some(p.skip(10))
        } else {
            csrf_in(parts.drop_last())
        }
    }
}

/// The CSRF token that the API requests carry, read from the cookies.
pub fn csrf_token(cookies: &str) -> (r: Option<String>)
    ensures
        r.deep_view() == csrf_in(split_spec(cookies@, ';')),
{
    proof {
        reveal_strlit("csrftoken=");
    }
    let parts = split_char(cookies, ';');
    let mut k: usize = parts.len();
    assert(parts.deep_view().take(k as int) =~= parts.deep_view());
    while k > 0
        invariant
            k <= parts@.len(),
            parts.deep_view() == split_spec(cookies@, ';'),
            csrf_in(parts.deep_view()) == csrf_in(parts.deep_view().take(k as int)),
        decreases k,
    {
        let ghost pre = parts.deep_view().take(k as int);
        assert(pre.last() == parts@[k - 1]@);
        assert(pre.drop_last() =~= parts.deep_view().take(k - 1));
        let p = trim(parts[k - 1].as_str());
        let pc = chars_of(p.as_str());
        proof {
            reveal_strlit("csrftoken=");
        }
        if crate::scrape::starts_with_chars(&pc, "csrftoken=") {
            let v = substring(&pc, 10, pc.len());
            assert(pc@.subrange(10, pc@.len() as int) =~= pc@.skip(10));
            return Some(v);
        }
        k = k - 1;
    }
    assert(parts.deep_view().take(0) =~= Seq::<Seq<char>>::empty());
    None
}

/// One picture or video of a post, as the API describes it: its media type
/// (2 for a video) and the addresses of its video and image versions.
pub struct IgMedia {
    pub media_type: i32,
    pub video_urls: Option<Vec<String>>,
    pub image_urls: Option<Vec<String>>,
}

/// A post as the API describes it: its own media, the media of a carousel
/// (media type 8), and its caption.
pub struct IgPost {
    pub media: IgMedia,
    pub carousel: Option<Vec<IgMedia>>,
    pub caption: Option<String>,
}

/// A file to fetch for a post.
pub struct IgDownload {
    pub url: String,
    pub is_video: bool,
    pub index: usize,
    pub title: Option<String>,
    pub description: Option<String>,
}

/// Why a post gives nothing to fetch.
#[derive(Debug, Clone, Copy, PartialEq, Eq, Structural)]
pub enum IgError {
    MediaNotFound,
    CarouselMissing,
    NoCarouselVideo,
    NoCarouselImage,
    NoVideo,
    NoImage,
}

/// The first address of a list, if it has one.
pub open spec fn first_url(o: Option<Seq<Seq<char>>>) -> Option<Seq<char>> {
    match o {
        Some(v) => if v.len() > 0 {
            Some(v[0])
        } else {
            None
        },
        None => None,
    }
}

/// The address a media entry is fetched from, and whether it is a video:
/// a video's first video version, else the first image candidate.
pub open spec fn media_source(m: IgMedia) -> Option<(Seq<char>, bool)> {
    if m.media_type == 2 {
        match first_url(m.video_urls.deep_view()) {
            Some(u) => Some((u, true)),
            None => None,
        }
    } else {
        match first_url(m.image_urls.deep_view()) {
            Some(u) => Some((u, false)),
            None => None,
        }
    }
}

/// The title of a post: the first line of its caption, trimmed.
pub open spec fn caption_title(caption: Option<Seq<char>>) -> Option<Seq<char>> {
    match caption {
        Some(c) => if lines(c).len() > 0 {
            Some(trim_spec(lines(c)[0]))
        } else {
            None
        },
        None => None,
    }
}

/// A planned file: address, video or not, position, title, description.
pub type DownloadView = (Seq<char>, bool, int, Option<Seq<char>>, Option<Seq<char>>);

pub open spec fn download_view(d: IgDownload) -> DownloadView {
    (d.url@, d.is_video, d.index as int, d.title.deep_view(), d.description.deep_view())
}

pub open spec fn downloads_view(ds: Seq<IgDownload>) -> Seq<DownloadView> {
    ds.map_values(|d: IgDownload| download_view(d))
}

/// The files of a carousel's first `items.len()` entries, or the error of
/// the first entry that has no address. Only the first file carries the
/// title and the caption.
pub open spec fn carousel_plan(items: Seq<IgMedia>, title: Option<Seq<char>>, caption: Option<Seq<char>>) -> Result<
    Seq<DownloadView>,
    IgError,
>
    decreases items.len(),
{
    if items.len() == 0 {
        Ok(Seq::empty())
    } else {
        match carousel_plan(items.drop_last(), title, caption) {
            Err(e) => Err(e),
            Ok(done) => {
                let i = items.len() - 1;
                let m = items.last();
                match media_source(m) {
                    None => Err(
                        if m.media_type == 2 {
                            IgError::NoCarouselVideo
                        } else {
                            IgError::NoCarouselImage
                        },
                    ),
                    Some((u, v)) => Ok(
                        done.push(
                            (
                                u,
                                v,
                                i,
                                if i == 0 {
                                    title
                                } else {
                                    None
                                },
                                if i == 0 {
                                    caption
                                } else {
                                    None
                                },
                            ),
                        ),
                    ),
                }
            },
        }
    }
}

/// The files of a post: every carousel entry for a carousel, else the post's
/// own video or image, with the caption's first line as title and the
/// caption as description.
pub open spec fn post_plan(p: IgPost) -> Result<Seq<DownloadView>, IgError> {
    let caption = p.caption.deep_view();
    let title = caption_title(caption);
    if p.media.media_type == 8 {
        match p.carousel {
            None => Err(IgError::CarouselMissing),
            Some(c) => carousel_plan(c@, title, caption),
        }
    } else {
        match media_source(p.media) {
            None => Err(
                if p.media.media_type == 2 {
                    IgError::NoVideo
                } else {
                    IgError::NoImage
                },
            ),
            Some((u, v)) => Ok(seq![(u, v, 0int, title, caption)]),
        }
    }
}

/// The files of the first post of the answer, or `MediaNotFound` when it
/// lists none.
pub open spec fn answer_plan(items: Seq<IgPost>) -> Result<Seq<DownloadView>, IgError> {
    if items.len() == 0 {
        Err(IgError::MediaNotFound)
    } else {
        post_plan(items[0])
    }
}

fn first_string(o: &Option<Vec<String>>) -> (r: Option<String>)
    ensures
        r.deep_view() == first_url(o.deep_view()),
{
    match o {
        Some(v) => if v.len() > 0 {
            assert(v.deep_view()[0] == v@[0]@);
            Some(v[0].clone())
        } else {
            None
        },
        None => None,
    }
}

fn source_of(m: &IgMedia) -> (r: Option<(String, bool)>)
    ensures
        match r {
            Some((u, v)) => media_source(*m) == Some((u@, v)),
            None => media_source(*m) is None,
        },
{
    if m.media_type == 2 {
        match first_string(&m.video_urls) {
            Some(u) => Some((u, true)),
            None => None,
        }
    } else {
        match first_string(&m.image_urls) {
            Some(u) => Some((u, false)),
            None => None,
        }
    }
}

fn clone_opt(o: &Option<String>) -> (r: Option<String>)
    ensures
        r.deep_view() == o.deep_view(),
{
    match o {
        Some(s) => Some(s.clone()),
        None => None,
    }
}

fn title_of(caption: &Option<String>) -> (r: Option<String>)
    ensures
        r.deep_view() == caption_title(caption.deep_view()),
{
    match caption {
        Some(c) => {
            let ls = split_lines(c.as_str());
            if ls.len() > 0 {
                assert(ls.deep_view()[0] == ls@[0]@);
                Some(trim(ls[0].as_str()))
            } else {
                None
            }
        },
        None => None,
    }
}

/// Lemma: one more carousel entry extends the plan by its file, or gives its
/// error.
proof fn lemma_carousel_step(items: Seq<IgMedia>, k: int, title: Option<Seq<char>>, caption: Option<Seq<char>>)
    requires
        0 <= k < items.len(),
    ensures
        carousel_plan(items.take(k + 1), title, caption) == (match carousel_plan(items.take(k), title, caption) {
            Err(e) => Err(e),
            Ok(done) => match media_source(items[k]) {
                None => Err(
                    if items[k].media_type == 2 {
                        IgError::NoCarouselVideo
                    } else {
                        IgError::NoCarouselImage
                    },
                ),
                Some((u, v)) => Ok(
                    done.push(
                        (
                            u,
                            v,
                            k,
                            if k == 0 {
                                title
                            } else {
                                None
                            },
                            if k == 0 {
                                caption
                            } else {
                                None
                            },
                        ),
                    ),
                ),
            },
        }),
{
    assert(items.take(k + 1).drop_last() =~= items.take(k));
}

/// Once a carousel prefix fails, the whole carousel fails the same way.
proof fn lemma_carousel_error_stays(items: Seq<IgMedia>, k: int, title: Option<Seq<char>>, caption: Option<Seq<char>>)
    requires
        0 <= k <= items.len(),
        carousel_plan(items.take(k), title, caption) is Err,
    ensures
        carousel_plan(items, title, caption) == carousel_plan(items.take(k), title, caption),
    decreases items.len() - k,
{
    if k < items.len() {
        lemma_carousel_step(items, k, title, caption);
        lemma_carousel_error_stays(items, k + 1, title, caption);
    } else {
        assert(items.take(k) =~= items);
    }
}

fn plan_carousel(items: &Vec<IgMedia>, title: &Option<String>, caption: &Option<String>) -> (r: Result<
    Vec<IgDownload>,
    IgError,
>)
    ensures
        match r {
            Ok(ds) => carousel_plan(items@, title.deep_view(), caption.deep_view()) == Ok::<
                Seq<DownloadView>,
                IgError,
            >(downloads_view(ds@)),
            Err(e) => carousel_plan(items@, title.deep_view(), caption.deep_view()) == Err::<
                Seq<DownloadView>,
                IgError,
            >(e),
        },
{
    let ghost t = title.deep_view();
    let ghost c = caption.deep_view();
    let mut out: Vec<IgDownload> = Vec::new();
    let mut k: usize = 0;
    assert(items@.take(0) =~= Seq::<IgMedia>::empty());
    assert(downloads_view(out@) =~= Seq::<DownloadView>::empty());
    while k < items.len()
        invariant
            k <= items@.len(),
            t == title.deep_view(),
            c == caption.deep_view(),
            carousel_plan(items@.take(k as int), t, c) == Ok::<Seq<DownloadView>, IgError>(downloads_view(out@)),
        decreases items@.len() - k,
    {
        proof {
            lemma_carousel_step(items@, k as int, t, c);
        }
        let m = &items[k];
        match source_of(m) {
            None => {
                proof {
                    lemma_carousel_error_stays(items@, k + 1, t, c);
                }
                if m.media_type == 2 {
                    return Err(IgError::NoCarouselVideo);
                } else {
                    return Err(IgError::NoCarouselImage);
                }
            },
            Some((u, v)) => {
                let d = IgDownload {
                    url: u,
                    is_video: v,
                    index: k,
                    title: if k == 0 {
                        clone_opt(title)
                    } else {
                        None
                    },
                    description: if k == 0 {
                        clone_opt(caption)
                    } else {
                        None
                    },
                };
                let ghost before = out@;
                out.push(d);
                assert(downloads_view(out@) =~= downloads_view(before).push(download_view(d)));
            },
        }
        k = k + 1;
    }
    assert(items@.take(items@.len() as int) =~= items@);
    Ok(out)
}

/// Plans the files of a post from the API's answer (see `answer_plan`).
pub fn plan_post(items: &Vec<IgPost>) -> (r: Result<Vec<IgDownload>, IgError>)
    ensures
        match r {
            Ok(ds) => answer_plan(items@) == Ok::<Seq<DownloadView>, IgError>(downloads_view(ds@)),
            Err(e) => answer_plan(items@) == Err::<Seq<DownloadView>, IgError>(e),
        },
{
    if items.len() == 0 {
        return Err(IgError::MediaNotFound);
    }
    let p = &items[0];
    let title = title_of(&p.caption);
    if p.media.media_type == 8 {
        match &p.carousel {
            None => Err(IgError::CarouselMissing),
            Some(c) => plan_carousel(c, &title, &p.caption),
        }
    } else {
        match source_of(&p.media) {
            None => if p.media.media_type == 2 {
                Err(IgError::NoVideo)
            } else {
                Err(IgError::NoImage)
            },
            Some((u, v)) => {
                let d = IgDownload { url: u, is_video: v, index: 0, title, description: clone_opt(&p.caption) };
                let mut out: Vec<IgDownload> = Vec::new();
                out.push(d);
                assert(downloads_view(out@) =~= seq![download_view(d)]);
                Ok(out)
            },
        }
    }
}

/// The name a fetched file gets: `instagram_<index>_<last 16 bytes of the
/// address>.mp4` for a video, `.jpg` for a picture.
pub open spec fn ig_filename_spec(url: Seq<char>, is_video: bool, index: nat) -> Seq<char> {
    "instagram_"@ + decimal(index) + "_"@ + byte_tail(url, 16) + (if is_video {
        ".mp4"@
    } else {
        ".jpg"@
    })
}

/// The file name of a planned download.
pub fn ig_filename(d: &IgDownload) -> (r: String)
    requires
        tail_ok(d.url@, 16),
    ensures
        r@ == ig_filename_spec(d.url@, d.is_video, d.index as nat),
{
    let mut s = String::from_str("instagram_");
    let idx = decimal_string(d.index as u64);
    s.append(idx.as_str());
    s.append("_");
    s.append(tail_bytes(d.url.as_str(), 16));
    if d.is_video {
        s.append(".mp4");
    } else {
        s.append(".jpg");
    }
    s
}

/// The media type and kind of a planned download.
pub fn ig_mime_kind(is_video: bool) -> (r: (&'static str, MediaKind))
    ensures
        is_video ==> r.0@ == "video/mp4"@ && r.1 == MediaKind::Video,
        !is_video ==> r.0@ == "image/jpeg"@ && r.1 == MediaKind::Photo,
{
    if is_video {
        ("video/mp4", MediaKind::Video)
    } else {
        ("image/jpeg", MediaKind::Photo)
    }
}

/// The private API's address for a media id.
pub open spec fn info_url_spec(media_id: Seq<char>) -> Seq<char> {
    "https://i.instagram.com/api/v1/media/"@ + media_id + "/info/"@
}

/// The private API's address for a media id (see `info_url_spec`).
pub fn info_url(media_id: &str) -> (r: String)
    ensures
        r@ == info_url_spec(media_id@),
{
    let mut s = String::from_str("https://i.instagram.com/api/v1/media/");
    s.append(media_id);
    s.append("/info/");
    s
}

/// The Instagram scraper.
pub struct InstagramExtractor {
    pub cookies: Option<String>,
}

impl InstagramExtractor {
    /// A scraper that sends these cookies with its API requests.
    pub fn new(cookies: Option<String>) -> (r: InstagramExtractor)
        ensures
            r.cookies == cookies,
    {
        InstagramExtractor { cookies }
    }

    /// Instagram links: those containing `instagram.com/`.
    pub fn can_handle(&self, url: &str) -> (r: bool)
        ensures
            r == str_contains(url, "instagram.com/"),
    {
        contains_str(url, "instagram.com/")
    }
}

} // verus!
