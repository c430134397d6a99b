//! What each scraper fetches, once its site has answered: the address of
//! every file and the name, type and title it is sent with.

use vstd::prelude::*;

use crate::media::MediaKind;
use crate::patterns::{find_from, find_from_spec, rfind, rfind_spec};
use crate::reddit::ParsedReddit;
use crate::html::{select_attrs, select_first_text, selected_attrs, selector_parses, first_selected_text};
use crate::scrape::{
    byte_tail, extract_url_from_force, force_url_spec, resolve_url, resolve_url_spec, tail_bytes, tail_ok,
};
use crate::text::{chars_of, decimal, decimal_string, str_eq, string_of, substring, trim, trim_spec};

verus! {

/// One file to fetch: where from, and the name, media type, kind, title and
/// description it is sent with.
pub struct Fetch {
    pub url: String,
    pub filename: String,
    pub mime_type: String,
    pub kind: MediaKind,
    pub title: Option<String>,
    pub description: Option<String>,
}

/// The mathematical value of a `Fetch`.
pub type FetchView = (Seq<char>, Seq<char>, Seq<char>, MediaKind, Option<Seq<char>>, Option<Seq<char>>);

pub open spec fn fetch_view(f: Fetch) -> FetchView {
    (f.url@, f.filename@, f.mime_type@, f.kind, f.title.deep_view(), f.description.deep_view())
}

pub open spec fn fetches_view(fs: Seq<Fetch>) -> Seq<FetchView> {
    fs.map_values(|f: Fetch| fetch_view(f))
}

/// `n` occurs in `h`.
pub open spec fn has_seq(h: Seq<char>, n: Seq<char>) -> bool {
    find_from_spec(h, n, 0) is Some
}

fn has_str(h: &str, n: &str) -> (r: bool)
    ensures
        r == has_seq(h@, n@),
{
    let hc = chars_of(h);
    let nc = chars_of(n);
    find_from(&hc, &nc, 0).is_some()
}

fn clone_opt(o: &Option<String>) -> (r: Option<String>)
    ensures
        r.deep_view() == o.deep_view(),
{
    match o {
        Some(s) => Some(s.clone()),
        None => None,
    }
}

/// The first of three optional values that is present.
pub open spec fn first_of3(a: Option<Seq<char>>, b: Option<Seq<char>>, c: Option<Seq<char>>) -> Option<Seq<char>> {
    if a is Some {
        a
    } else if b is Some {
        b
    } else {
        c
    }
}

fn pick3(a: &Option<String>, b: &Option<String>, c: &Option<String>) -> (r: Option<String>)
    ensures
        r.deep_view() == first_of3(a.deep_view(), b.deep_view(), c.deep_view()),
{
    if a.is_some() {
        clone_opt(a)
    } else if b.is_some() {
        clone_opt(b)
    } else {
        clone_opt(c)
    }
}

// ---------------------------------------------------------------- Reddit

/// What to do for a Reddit post.
pub enum RedditPlan {
    /// Fetch the video and audio tracks and mux them into one file.
    Merge { video_url: String, audio_url: String, filename: String, title: Option<String> },
    /// Fetch these files as they are.
    Files(Vec<Fetch>),
    /// The page offers nothing.
    NoMedia,
}

/// The rapidsave page for a Reddit link.
pub open spec fn rapidsave_page_spec(url: Seq<char>) -> Seq<char> {
    "https://rapidsave.com/info?url="@ + url
}

/// The rapidsave page for a Reddit link (the link goes in as it is).
pub fn rapidsave_page_url(url: &str) -> (r: String)
    ensures
        r@ == rapidsave_page_spec(url@),
{
    let mut s = String::from_str("https://rapidsave.com/info?url=");
    s.append(url);
    s
}

/// The extension of a rapidsave picture address.
pub open spec fn rapid_ext(url: Seq<char>) -> Seq<char> {
    if has_seq(url, ".png"@) {
        "png"@
    } else if has_seq(url, ".gif"@) {
        "gif"@
    } else {
        "jpg"@
    }
}

/// The media type of a picture extension, for rapidsave pictures.
pub open spec fn rapid_mime(ext: Seq<char>) -> Seq<char> {
    if ext == "png"@ {
        "image/png"@
    } else if ext == "gif"@ {
        "image/gif"@
    } else {
        "image/jpeg"@
    }
}

/// `reddit_<id>_<n>.<ext>`, numbering from one.
pub open spec fn numbered_name(post_id: Seq<char>, i: int, ext: Seq<char>) -> Seq<char> {
    "reddit_"@ + post_id + "_"@ + decimal((i + 1) as nat) + "."@ + ext
}

/// The title, on the first file only.
pub open spec fn first_only(i: int, title: Option<Seq<char>>) -> Option<Seq<char>> {
    if i == 0 {
        title
    } else {
        None
    }
}

/// The rapidsave pictures of a post, as files.
pub open spec fn rapid_images(urls: Seq<Seq<char>>, post_id: Seq<char>, title: Option<Seq<char>>) -> Seq<FetchView> {
    Seq::new(
        urls.len(),
        |i: int|
            (
                urls[i],
                numbered_name(post_id, i, rapid_ext(urls[i])),
                rapid_mime(rapid_ext(urls[i])),
                MediaKind::Photo,
                first_only(i, title),
                None::<Seq<char>>,
            ),
    )
}

/// The abstract plan for a Reddit post.
pub enum RedditPlanView {
    Merge(Seq<char>, Seq<char>, Seq<char>, Option<Seq<char>>),
    Files(Seq<FetchView>),
    NoMedia,
}

pub open spec fn reddit_plan_view(p: RedditPlan) -> RedditPlanView {
    match p {
        RedditPlan::Merge { video_url, audio_url, filename, title } => RedditPlanView::Merge(
            video_url@,
            audio_url@,
            filename@,
            title.deep_view(),
        ),
        RedditPlan::Files(fs) => RedditPlanView::Files(fetches_view(fs@)),
        RedditPlan::NoMedia => RedditPlanView::NoMedia,
    }
}

/// What to fetch from what rapidsave offers: a video with audio is muxed, a
/// video without is fetched, else every picture, else nothing. The video is
/// `reddit_<id>.mp4`; pictures are numbered from one and typed by their
/// address; only the first file carries the title.
pub open spec fn rapidsave_plan_spec(
    video: Option<(Seq<char>, Option<Seq<char>>)>,
    images: Seq<Seq<char>>,
    post_id: Seq<char>,
    title: Option<Seq<char>>,
) -> RedditPlanView {
    let name = "reddit_"@ + post_id + ".mp4"@;
    match video {
        Some((v, Some(a))) => RedditPlanView::Merge(v, a, name, title),
        Some((v, None)) => RedditPlanView::Files(seq![(v, name, "video/mp4"@, MediaKind::Video, title, None)]),
        None => if images.len() > 0 {
            RedditPlanView::Files(rapid_images(images, post_id, title))
        } else {
            RedditPlanView::NoMedia
        },
    }
}

fn numbered(post_id: &str, i: usize, ext: &str) -> (r: String)
    requires
        i < usize::MAX,
    ensures
        r@ == numbered_name(post_id@, i as int, ext@),
{
    let mut s = String::from_str("reddit_");
    s.append(post_id);
    s.append("_");
    let n = decimal_string((i + 1) as u64);
    s.append(n.as_str());
    s.append(".");
    s.append(ext);
    s
}

fn rapid_ext_of(url: &str) -> (r: &'static str)
    ensures
        r@ == rapid_ext(url@),
{
    if has_str(url, ".png") {
        "png"
    } else if has_str(url, ".gif") {
        "gif"
    } else {
        "jpg"
    }
}

fn rapid_mime_of(ext: &str) -> (r: &'static str)
    ensures
        r@ == rapid_mime(ext@),
{
    if str_eq(ext, "png") {
        "image/png"
    } else if str_eq(ext, "gif") {
        "image/gif"
    } else {
        "image/jpeg"
    }
}

/// Plans the files of a Reddit post from the rapidsave page (see
/// `rapidsave_plan_spec`).
pub fn rapidsave_plan(parsed: &ParsedReddit, post_id: &str, title: &Option<String>) -> (r: RedditPlan)
    ensures
        reddit_plan_view(r) == rapidsave_plan_spec(
            parsed.video.deep_view(),
            parsed.images.deep_view(),
            post_id@,
            title.deep_view(),
        ),
{
    let mut name = String::from_str("reddit_");
    name.append(post_id);
    name.append(".mp4");
    match &parsed.video {
        Some((v, Some(a))) => RedditPlan::Merge {
            video_url: v.clone(),
            audio_url: a.clone(),
            filename: name,
            title: clone_opt(title),
        },
        Some((v, None)) => {
            let f = Fetch {
                url: v.clone(),
                filename: name,
                mime_type: String::from_str("video/mp4"),
                kind: MediaKind::Video,
                title: clone_opt(title),
                description: None,
            };
            let mut fs: Vec<Fetch> = Vec::new();
            fs.push(f);
            assert(fetches_view(fs@) =~= seq![fetch_view(f)]);
            RedditPlan::Files(fs)
        },
        None => {
            if parsed.images.len() == 0 {
                return RedditPlan::NoMedia;
            }
            let ghost urls = parsed.images.deep_view();
            let mut fs: Vec<Fetch> = Vec::new();
            let mut i: usize = 0;
            while i < parsed.images.len()
                invariant
                    i <= parsed.images@.len(),
                    urls == parsed.images.deep_view(),
                    fetches_view(fs@) == rapid_images(urls, post_id@, title.deep_view()).take(i as int),
                decreases parsed.images@.len() - i,
            {
                let url = &parsed.images[i];
                assert(urls[i as int] == url@);
                let ext = rapid_ext_of(url.as_str());
                let f = Fetch {
                    url: url.clone(),
                    filename: numbered(post_id, i, ext),
                    mime_type: String::from_str(rapid_mime_of(ext)),
                    kind: MediaKind::Photo,
                    title: if i == 0 {
                        clone_opt(title)
                    } else {
                        None
                    },
                    description: None,
                };
                let ghost before = fetches_view(fs@);
                fs.push(f);
                assert(fetches_view(fs@) =~= before.push(fetch_view(f)));
                i = i + 1;
                assert(fetches_view(fs@) =~= rapid_images(urls, post_id@, title.deep_view()).take(i as int));
            }
            assert(rapid_images(urls, post_id@, title.deep_view()).take(i as int) =~= rapid_images(
                urls,
                post_id@,
                title.deep_view(),
            ));
            RedditPlan::Files(fs)
        },
    }
}

/// The extension of an old-Reddit picture name: the text after its last
/// `.` (the whole name when it has none, as `rsplit('.').next()` gives).
pub open spec fn name_ext(f: Seq<char>) -> Seq<char> {
    match rfind_spec(f, seq!['.']) {
        Some(i) => f.skip(i + 1),
        None => f,
    }
}

/// The media type of an old-Reddit picture extension.
pub open spec fn old_mime(ext: Seq<char>) -> Seq<char> {
    if ext == "png"@ {
        "image/png"@
    } else if ext == "gif"@ {
        "image/gif"@
    } else if ext == "webp"@ {
        "image/webp"@
    } else {
        "image/jpeg"@
    }
}

/// The old-Reddit pictures of a post, as files on `i.redd.it`, numbered from
/// one, the title on the first.
pub open spec fn old_reddit_plan_spec(names: Seq<Seq<char>>, post_id: Seq<char>, title: Option<Seq<char>>) -> Seq<
    FetchView,
> {
    Seq::new(
        names.len(),
        |i: int|
            (
                "https://i.redd.it/"@ + names[i],
                numbered_name(post_id, i, name_ext(names[i])),
                old_mime(name_ext(names[i])),
                MediaKind::Photo,
                first_only(i, title),
                None::<Seq<char>>,
            ),
    )
}

fn name_ext_of(f: &str) -> (r: String)
    ensures
        r@ == name_ext(f@),
{
    let cs = chars_of(f);
    let mut dot: Vec<char> = Vec::new();
    dot.push('.');
    assert(dot@ =~= seq!['.']);
    match rfind(&cs, &dot) {
        Some(i) => {
            assert(cs@.subrange(i + 1, cs@.len() as int) =~= cs@.skip(i + 1));
            substring(&cs, i + 1, cs.len())
        },
        None => string_of(&cs),
    }
}

fn old_mime_of(ext: &str) -> (r: &'static str)
    ensures
        r@ == old_mime(ext@),
{
    if str_eq(ext, "png") {
        "image/png"
    } else if str_eq(ext, "gif") {
        "image/gif"
    } else if str_eq(ext, "webp") {
        "image/webp"
    } else {
        "image/jpeg"
    }
}

/// Plans the files of a Reddit post from the picture names of the old
/// Reddit page (see `old_reddit_plan_spec`). A file that cannot be fetched
/// is skipped by the caller; the others keep their numbers.
pub fn old_reddit_plan(names: &Vec<String>, post_id: &str, title: &Option<String>) -> (r: Vec<Fetch>)
    ensures
        fetches_view(r@) == old_reddit_plan_spec(names.deep_view(), post_id@, title.deep_view()),
{
    let ghost ns = names.deep_view();
    let mut fs: Vec<Fetch> = Vec::new();
    let mut i: usize = 0;
    while i < names.len()
        invariant
            i <= names@.len(),
            ns == names.deep_view(),
            fetches_view(fs@) == old_reddit_plan_spec(ns, post_id@, title.deep_view()).take(i as int),
        decreases names@.len() - i,
    {
        let f = &names[i];
        assert(ns[i as int] == f@);
        let ext = name_ext_of(f.as_str());
        let mut url = String::from_str("https://i.redd.it/");
        url.append(f.as_str());
        let item = Fetch {
            url,
            filename: numbered(post_id, i, ext.as_str()),
            mime_type: String::from_str(old_mime_of(ext.as_str())),
            kind: MediaKind::Photo,
            title: if i == 0 {
                clone_opt(title)
            } else {
                None
            },
            description: None,
        };
        let ghost before = fetches_view(fs@);
        fs.push(item);
        assert(fetches_view(fs@) =~= before.push(fetch_view(item)));
        i = i + 1;
        assert(fetches_view(fs@) =~= old_reddit_plan_spec(ns, post_id@, title.deep_view()).take(i as int));
    }
    assert(old_reddit_plan_spec(ns, post_id@, title.deep_view()).take(i as int) =~= old_reddit_plan_spec(
        ns,
        post_id@,
        title.deep_view(),
    ));
    fs
}

// ---------------------------------------------------------------- helpers

/// What a selected element holds: two of its attributes.
pub type Attrs = (Option<Seq<char>>, Option<Seq<char>>);

/// The first value that `f` reads from the elements, in order.
pub open spec fn first_mapped(els: Seq<Attrs>, f: spec_fn(Attrs) -> Option<Seq<char>>) -> Option<Seq<char>>
    decreases els.len(),
{
    if els.len() == 0 {
        None
    } else {
        match first_mapped(els.drop_last(), f) {
            Some(v) => Some(v),
            None => f(els.last()),
        }
    }
}

/// A value found in a prefix is the value found in the whole sequence.
pub proof fn lemma_first_mapped_prefix(els: Seq<Attrs>, f: spec_fn(Attrs) -> Option<Seq<char>>, k: int)
    requires
        0 <= k <= els.len(),
        first_mapped(els.take(k), f) is Some,
    ensures
        first_mapped(els, f) == first_mapped(els.take(k), f),
    decreases els.len() - k,
{
    if k < els.len() {
        assert(els.take(k + 1).drop_last() =~= els.take(k));
        lemma_first_mapped_prefix(els, f, k + 1);
    } else {
        assert(els.take(k) =~= els);
    }
}

/// The first attribute, when present.
pub open spec fn attr_first(e: Attrs) -> Option<Seq<char>> {
    e.0
}

/// The first attribute, else the second.
pub open spec fn attr_either(e: Attrs) -> Option<Seq<char>> {
    if e.0 is Some {
        e.0
    } else {
        e.1
    }
}

/// How a value is read from a selected element.
#[derive(Clone, Copy)]
pub enum Pick {
    /// Its first attribute.
    First,
    /// Its first attribute, else its second.
    Either,
    /// The target of its first attribute read as a "force download" link.
    ForceTarget,
    /// Its first attribute when it holds `pinimg.com` or `.mp4`, completed
    /// against the Pinterest downloader's address.
    PinterestMedia,
    /// Its first attribute when it holds `snapcdn.app`.
    Snapcdn,
}

/// The value `how` reads from an element.
pub open spec fn pick_spec(how: Pick, e: Attrs) -> Option<Seq<char>> {
    match how {
        Pick::First => attr_first(e),
        Pick::Either => attr_either(e),
        Pick::ForceTarget => match e.0 {
            Some(h) => force_url_spec(h),
            None => None,
        },
        Pick::PinterestMedia => match e.0 {
            Some(h) => if has_seq(h, "pinimg.com"@) || has_seq(h, ".mp4"@) {
                Some(resolve_url_spec(h, "https://www.savepin.app"@))
            } else {
                None
            },
            None => None,
        },
        Pick::Snapcdn => match e.0 {
            Some(h) => if has_seq(h, "snapcdn.app"@) {
                Some(h)
            } else {
                None
            },
            None => None,
        },
    }
}

/// `pick_spec` as a function of the element.
pub open spec fn pick_fn(how: Pick) -> spec_fn(Attrs) -> Option<Seq<char>> {
    |e: Attrs| pick_spec(how, e)
}

fn pick_one(how: Pick, e: &(Option<String>, Option<String>)) -> (r: Option<String>)
    ensures
        r.deep_view() == pick_spec(how, e.deep_view()),
{
    match how {
        Pick::First => clone_opt(&e.0),
        Pick::Either => if e.0.is_some() {
            clone_opt(&e.0)
        } else {
            clone_opt(&e.1)
        },
        Pick::ForceTarget => match &e.0 {
            Some(h) => extract_url_from_force(h.as_str()),
            None => None,
        },
        Pick::PinterestMedia => match &e.0 {
            Some(h) => if has_str(h.as_str(), "pinimg.com") || has_str(h.as_str(), ".mp4") {
                Some(resolve_url(h.as_str(), "https://www.savepin.app"))
            } else {
                None
            },
            None => None,
        },
        Pick::Snapcdn => match &e.0 {
            Some(h) => if has_str(h.as_str(), "snapcdn.app") {
                Some(h.clone())
            } else {
                None
            },
            None => None,
        },
    }
}

/// The first value that `how` reads from the elements, in document order.
pub fn first_by(els: &Vec<(Option<String>, Option<String>)>, how: Pick) -> (r: Option<String>)
    ensures
        r.deep_view() == first_mapped(els.deep_view(), pick_fn(how)),
{
    let mut i: usize = 0;
    while i < els.len()
        invariant
            i <= els@.len(),
            first_mapped(els.deep_view().take(i as int), pick_fn(how)) is None,
        decreases els@.len() - i,
    {
        let ghost pre = els.deep_view().take(i + 1);
        assert(pre.drop_last() =~= els.deep_view().take(i as int));
        assert(pre.last() == els.deep_view()[i as int]);
        let found = pick_one(how, &els[i]);
        if found.is_some() {
            proof {
                lemma_first_mapped_prefix(els.deep_view(), pick_fn(how), i + 1);
            }
            return found;
        }
        i = i + 1;
    }
    assert(els.deep_view().take(els@.len() as int) =~= els.deep_view());
    None
}

/// Why a page could not be searched: one of the scraper's CSS selectors did
/// not parse.
#[derive(Debug, Clone, Copy, PartialEq, Eq, Structural)]
pub struct BadSelector;

/// `<prefix><the last n bytes of the address>.<ext>`.
pub open spec fn tail_name(prefix: Seq<char>, url: Seq<char>, n: int, ext: Seq<char>) -> Seq<char> {
    prefix + byte_tail(url, n) + "."@ + ext
}

fn tail_name_of(prefix: &str, url: &str, n: usize, ext: &str) -> (r: String)
    requires
        tail_ok(url@, n as int),
    ensures
        r@ == tail_name(prefix@, url@, n as int, ext@),
{
    let mut s = String::from_str(prefix);
    s.append(tail_bytes(url, n));
    s.append(".");
    s.append(ext);
    s
}

/// A video file with no title.
pub open spec fn plain_video(url: Seq<char>, name: Seq<char>) -> FetchView {
    (url, name, "video/mp4"@, MediaKind::Video, None, None)
}

/// A file that is a video when `is_video` and a JPEG picture otherwise.
pub open spec fn video_or_photo(url: Seq<char>, name: Seq<char>, is_video: bool) -> FetchView {
    if is_video {
        (url, name, "video/mp4"@, MediaKind::Video, None, None)
    } else {
        (url, name, "image/jpeg"@, MediaKind::Photo, None, None)
    }
}

fn video_or_photo_fetch(url: &str, name: String, is_video: bool) -> (r: Fetch)
    ensures
        fetch_view(r) == video_or_photo(url@, name@, is_video),
{
    if is_video {
        Fetch {
            url: String::from_str(url),
            filename: name,
            mime_type: String::from_str("video/mp4"),
            kind: MediaKind::Video,
            title: None,
            description: None,
        }
    } else {
        Fetch {
            url: String::from_str(url),
            filename: name,
            mime_type: String::from_str("image/jpeg"),
            kind: MediaKind::Photo,
            title: None,
            description: None,
        }
    }
}

// ---------------------------------------------------------------- CapCut

/// The nested part of the CapCut service's answer.
pub struct CapCutData {
    pub url: Option<String>,
}

/// The CapCut service's answer.
pub struct CapCutAnswer {
    pub url: Option<String>,
    pub download_url: Option<String>,
    pub data: Option<CapCutData>,
}

/// The address of the video: `download_url`, else `url`, else `data.url`.
pub open spec fn capcut_url_spec(a: CapCutAnswer) -> Option<Seq<char>> {
    first_of3(
        a.download_url.deep_view(),
        a.url.deep_view(),
        match a.data {
            Some(d) => d.url.deep_view(),
            None => None,
        },
    )
}

/// The address of a CapCut video (see `capcut_url_spec`).
pub fn capcut_download_url(a: &CapCutAnswer) -> (r: Option<String>)
    ensures
        r.deep_view() == capcut_url_spec(*a),
{
    let none: Option<String> = None;
    match &a.data {
        Some(d) => pick3(&a.download_url, &a.url, &d.url),
        None => pick3(&a.download_url, &a.url, &none),
    }
}

/// The CapCut video: `capcut_<last 16 bytes of the address>.mp4`.
pub fn capcut_fetch(url: &str) -> (r: Fetch)
    requires
        tail_ok(url@, 16),
    ensures
        fetch_view(r) == plain_video(url@, tail_name("capcut_"@, url@, 16, "mp4"@)),
{
    let name = tail_name_of("capcut_", url, 16, "mp4");
    Fetch {
        url: String::from_str(url),
        filename: name,
        mime_type: String::from_str("video/mp4"),
        kind: MediaKind::Video,
        title: None,
        description: None,
    }
}

// ---------------------------------------------------------------- LinkedIn

/// The LinkedIn video: `linkedin_<title>.mp4` (`video` when untitled), with
/// the page's title and description.
pub open spec fn linkedin_spec(url: Seq<char>, title: Option<Seq<char>>, description: Option<Seq<char>>) -> FetchView {
    (
        url,
        "linkedin_"@ + (match title {
            Some(t) => t,
            None => "video"@,
        }) + ".mp4"@,
        "video/mp4"@,
        MediaKind::Video,
        title,
        description,
    )
}

/// The file of a LinkedIn post (see `linkedin_spec`).
pub fn linkedin_fetch(url: &str, title: &Option<String>, description: &Option<String>) -> (r: Fetch)
    ensures
        fetch_view(r) == linkedin_spec(url@, title.deep_view(), description.deep_view()),
{
    let mut name = String::from_str("linkedin_");
    match title {
        Some(t) => name.append(t.as_str()),
        None => name.append("video"),
    }
    name.append(".mp4");
    Fetch {
        url: String::from_str(url),
        filename: name,
        mime_type: String::from_str("video/mp4"),
        kind: MediaKind::Video,
        title: clone_opt(title),
        description: clone_opt(description),
    }
}

// ---------------------------------------------------------------- SoundCloud and Spotify

/// An audio track: `<title>.mp3` (`track` when untitled), with its title.
pub open spec fn audio_spec(url: Seq<char>, title: Option<Seq<char>>) -> FetchView {
    (
        url,
        (match title {
            Some(t) => t,
            None => "track"@,
        }) + ".mp3"@,
        "audio/mpeg"@,
        MediaKind::Audio,
        title,
        None,
    )
}

/// The file of a SoundCloud or Spotify track (see `audio_spec`).
pub fn audio_fetch(url: &str, title: &Option<String>) -> (r: Fetch)
    ensures
        fetch_view(r) == audio_spec(url@, title.deep_view()),
{
    let mut name = match title {
        Some(t) => t.clone(),
        None => String::from_str("track"),
    };
    name.append(".mp3");
    Fetch {
        url: String::from_str(url),
        filename: name,
        mime_type: String::from_str("audio/mpeg"),
        kind: MediaKind::Audio,
        title: clone_opt(title),
        description: None,
    }
}

/// The first source address of a SoundCloud answer.
pub open spec fn first_source(srcs: Seq<Option<Seq<char>>>) -> Option<Seq<char>>
    decreases srcs.len(),
{
    if srcs.len() == 0 {
        None
    } else {
        match first_source(srcs.drop_last()) {
            Some(u) => Some(u),
            None => srcs.last(),
        }
    }
}

/// The address of the first source of a SoundCloud answer that has one.
pub fn soundcloud_source(sources: &Option<Vec<Option<String>>>) -> (r: Option<String>)
    ensures
        r.deep_view() == (match sources.deep_view() {
            Some(s) => first_source(s),
            None => None,
        }),
{
    match sources {
        None => None,
        Some(v) => {
            assert(sources.deep_view() == Some(v.deep_view()));
            let mut i: usize = 0;
            while i < v.len()
                invariant
                    i <= v@.len(),
                    sources.deep_view() == Some(v.deep_view()),
                    first_source(v.deep_view().take(i as int)) is None,
                decreases v@.len() - i,
            {
                let ghost pre = v.deep_view().take(i + 1);
                assert(pre.drop_last() =~= v.deep_view().take(i as int));
                assert(pre.last() == v.deep_view()[i as int]);
                if v[i].is_some() {
                    let found = clone_opt(&v[i]);
                    proof {
                        assert(v.deep_view()[i as int] == v@[i as int].deep_view());
                        assert(first_source(pre) == pre.last());
                        lemma_first_source_prefix(v.deep_view(), i + 1);
                    }
                    return found;
                }
                i = i + 1;
            }
            assert(v.deep_view().take(v@.len() as int) =~= v.deep_view());
            None
        },
    }
}

proof fn lemma_first_source_prefix(s: Seq<Option<Seq<char>>>, k: int)
    requires
        0 <= k <= s.len(),
        first_source(s.take(k)) is Some,
    ensures
        first_source(s) == first_source(s.take(k)),
    decreases s.len() - k,
{
    if k < s.len() {
        assert(s.take(k + 1).drop_last() =~= s.take(k));
        lemma_first_source_prefix(s, k + 1);
    } else {
        assert(s.take(k) =~= s);
    }
}

// ---------------------------------------------------------------- TikTok

/// The TikTok service's description of a post.
pub struct TikTokPost {
    pub id: Option<String>,
    pub video_id: Option<String>,
    pub title: Option<String>,
    pub play: Option<String>,
    pub wmplay: Option<String>,
    pub hdplay: Option<String>,
    pub images: Option<Vec<String>>,
}

/// The name files of a post start with: its id, else its video id, else
/// `post`.
pub open spec fn tiktok_prefix(p: TikTokPost) -> Seq<char> {
    match first_of3(p.id.deep_view(), p.video_id.deep_view(), Some("post"@)) {
        Some(x) => x,
        None => "post"@,
    }
}

/// The pictures of a slideshow, empty addresses skipped, each named
/// `tiktok_<prefix>_<n>.jpg` by its place in the list; the title goes with
/// the first place only.
pub open spec fn slides(imgs: Seq<Seq<char>>, prefix: Seq<char>, title: Option<Seq<char>>) -> Seq<FetchView>
    decreases imgs.len(),
{
    if imgs.len() == 0 {
        Seq::empty()
    } else {
        let r = slides(imgs.drop_last(), prefix, title);
        let i = imgs.len() - 1;
        if imgs.last().len() > 0 {
            r.push(
                (
                    imgs.last(),
                    "tiktok_"@ + prefix + "_"@ + decimal((i + 1) as nat) + ".jpg"@,
                    "image/jpeg"@,
                    MediaKind::Photo,
                    first_only(i, title),
                    None,
                ),
            )
        } else {
            r
        }
    }
}

/// The files of a TikTok post: the slideshow's pictures when there are any,
/// else the video (HD, else plain, else watermarked) as
/// `tiktok_<prefix>.mp4`; nothing when there is no video either.
pub open spec fn tiktok_plan_spec(p: TikTokPost) -> Option<Seq<FetchView>> {
    let prefix = tiktok_prefix(p);
    let title = p.title.deep_view();
    let s = match p.images.deep_view() {
        Some(imgs) => slides(imgs, prefix, title),
        None => Seq::empty(),
    };
    if s.len() > 0 {
        Some(s)
    } else {
        match first_of3(p.hdplay.deep_view(), p.play.deep_view(), p.wmplay.deep_view()) {
            Some(u) => Some(seq![(u, "tiktok_"@ + prefix + ".mp4"@, "video/mp4"@, MediaKind::Video, title, None)]),
            None => None,
        }
    }
}

fn slide_fetches(imgs: &Vec<String>, prefix: &str, title: &Option<String>) -> (r: Vec<Fetch>)
    ensures
        fetches_view(r@) == slides(imgs.deep_view(), prefix@, title.deep_view()),
{
    let mut fs: Vec<Fetch> = Vec::new();
    let mut i: usize = 0;
    while i < imgs.len()
        invariant
            i <= imgs@.len(),
            fetches_view(fs@) == slides(imgs.deep_view().take(i as int), prefix@, title.deep_view()),
        decreases imgs@.len() - i,
    {
        let ghost pre = imgs.deep_view().take(i + 1);
        assert(pre.drop_last() =~= imgs.deep_view().take(i as int));
        assert(pre.last() == imgs@[i as int]@);
        if !imgs[i].as_str().is_empty() {
            let mut name = String::from_str("tiktok_");
            name.append(prefix);
            name.append("_");
            let n = decimal_string((i + 1) as u64);
            name.append(n.as_str());
            name.append(".jpg");
            let f = Fetch {
                url: imgs[i].clone(),
                filename: name,
                mime_type: String::from_str("image/jpeg"),
                kind: MediaKind::Photo,
                title: if i == 0 {
                    clone_opt(title)
                } else {
                    None
                },
                description: None,
            };
            let ghost before = fetches_view(fs@);
            fs.push(f);
            assert(fetches_view(fs@) =~= before.push(fetch_view(f)));
        }
        i = i + 1;
    }
    assert(imgs.deep_view().take(imgs@.len() as int) =~= imgs.deep_view());
    fs
}

/// Plans the files of a TikTok post (see `tiktok_plan_spec`).
pub fn tiktok_plan(p: &TikTokPost) -> (r: Option<Vec<Fetch>>)
    ensures
        match r {
            Some(fs) => tiktok_plan_spec(*p) == Some(fetches_view(fs@)),
            None => tiktok_plan_spec(*p) is None,
        },
{
    let post = Some(String::from_str("post"));
    let prefix = match pick3(&p.id, &p.video_id, &post) {
        Some(x) => x,
        None => String::from_str("post"),
    };
    let s = match &p.images {
        Some(imgs) => slide_fetches(imgs, prefix.as_str(), &p.title),
        None => Vec::new(),
    };
    if s.len() > 0 {
        return Some(s);
    }
    match pick3(&p.hdplay, &p.play, &p.wmplay) {
        Some(u) => {
            let mut name = String::from_str("tiktok_");
            name.append(prefix.as_str());
            name.append(".mp4");
            let f = Fetch {
                url: u,
                filename: name,
                mime_type: String::from_str("video/mp4"),
                kind: MediaKind::Video,
                title: clone_opt(&p.title),
                description: None,
            };
            let mut fs: Vec<Fetch> = Vec::new();
            fs.push(f);
            assert(fetches_view(fs@) =~= seq![fetch_view(f)]);
            Some(fs)
        },
        None => None,
    }
}

// ---------------------------------------------------------------- Pinterest

/// The Pinterest downloader's page for a pin's link.
pub open spec fn pinterest_page_spec(url: Seq<char>) -> Seq<char> {
    "https://www.savepin.app/download.php?url="@ + url + "&lang=en&type=redirect"@
}

/// The Pinterest downloader's page for a pin's link (the link goes in as it
/// is).
pub fn pinterest_page_url(url: &str) -> (r: String)
    ensures
        r@ == pinterest_page_spec(url@),
{
    let mut s = String::from_str("https://www.savepin.app/download.php?url=");
    s.append(url);
    s.append("&lang=en&type=redirect");
    s
}

/// The selector of the Pinterest downloader's result rows.
pub open spec fn pin_rows_sel() -> Seq<char> {
    "tbody tr a"@
}

/// The selector of the Pinterest downloader's media links.
pub open spec fn pin_media_sel() -> Seq<char> {
    "a[href*='pinimg.com'], a[href*='.mp4'], a[href*='.jpg']"@
}

/// The address of a pin's media on the downloader's page: the target of the
/// first result row that is a "force download" link, else the first media
/// link on `pinimg.com` or to an `.mp4` (when that selector parses).
pub open spec fn pinterest_url_spec(html: Seq<char>) -> Result<Option<Seq<char>>, BadSelector> {
    if !selector_parses(pin_rows_sel()) {
        Err(BadSelector)
    } else {
        match first_mapped(selected_attrs(html, pin_rows_sel(), "href"@, "href"@), pick_fn(Pick::ForceTarget)) {
            Some(u) => Ok(Some(u)),
            None => if selector_parses(pin_media_sel()) {
                Ok(first_mapped(selected_attrs(html, pin_media_sel(), "href"@, "href"@), pick_fn(Pick::PinterestMedia)))
            } else {
                Ok(None)
            },
        }
    }
}

/// Finds the address of a pin's media (see `pinterest_url_spec`).
pub fn pinterest_download_url(html: &str) -> (r: Result<Option<String>, BadSelector>)
    ensures
        match r {
            Ok(u) => pinterest_url_spec(html@) == Ok::<Option<Seq<char>>, BadSelector>(u.deep_view()),
            Err(e) => pinterest_url_spec(html@) == Err::<Option<Seq<char>>, BadSelector>(e),
        },
{
    let rows = match select_attrs(html, "tbody tr a", "href", "href") {
        Some(els) => els,
        None => return Err(BadSelector),
    };
    match first_by(&rows, Pick::ForceTarget) {
        Some(u) => Ok(Some(u)),
        None => match select_attrs(html, "a[href*='pinimg.com'], a[href*='.mp4'], a[href*='.jpg']", "href", "href") {
            Some(els) => Ok(first_by(&els, Pick::PinterestMedia)),
            None => Ok(None),
        },
    }
}

/// A pin's file: a video when its address holds `.mp4`, else a picture,
/// named `pinterest_<last 16 bytes of the address>.<mp4|jpg>`.
pub open spec fn pinterest_spec(url: Seq<char>) -> FetchView {
    let v = has_seq(url, ".mp4"@);
    video_or_photo(
        url,
        tail_name(
            "pinterest_"@,
            url,
            16,
            if v {
                "mp4"@
            } else {
                "jpg"@
            },
        ),
        v,
    )
}

/// The file of a pin (see `pinterest_spec`).
pub fn pinterest_fetch(url: &str) -> (r: Fetch)
    requires
        tail_ok(url@, 16),
    ensures
        fetch_view(r) == pinterest_spec(url@),
{
    let v = has_str(url, ".mp4");
    let name = tail_name_of(
        "pinterest_",
        url,
        16,
        if v {
            "mp4"
        } else {
            "jpg"
        },
    );
    video_or_photo_fetch(url, name, v)
}

// ---------------------------------------------------------------- Terabox

/// The selector of the Terabox downloader's nonce.
pub open spec fn nonce_sel() -> Seq<char> {
    "input[name='nonce'], input#nonce, [data-nonce]"@
}

/// The nonce on the Terabox downloader's page: the `value` (else
/// `data-nonce`) of the first element that has either.
pub open spec fn terabox_nonce_spec(html: Seq<char>) -> Result<Option<Seq<char>>, BadSelector> {
    if !selector_parses(nonce_sel()) {
        Err(BadSelector)
    } else {
        Ok(first_mapped(selected_attrs(html, nonce_sel(), "value"@, "data-nonce"@), pick_fn(Pick::Either)))
    }
}

/// Finds the nonce on the Terabox downloader's page.
pub fn terabox_nonce(html: &str) -> (r: Result<Option<String>, BadSelector>)
    ensures
        match r {
            Ok(u) => terabox_nonce_spec(html@) == Ok::<Option<Seq<char>>, BadSelector>(u.deep_view()),
            Err(e) => terabox_nonce_spec(html@) == Err::<Option<Seq<char>>, BadSelector>(e),
        },
{
    match select_attrs(html, "input[name='nonce'], input#nonce, [data-nonce]", "value", "data-nonce") {
        Some(els) => Ok(first_by(&els, Pick::Either)),
        None => Err(BadSelector),
    }
}

/// A field of a JSON object: absent, a string, or another kind of value.
pub enum JsonField {
    Missing,
    Text(String),
    Other,
}

/// The fields of the Terabox downloader's answer that hold the address:
/// `download_url`, `url`, and `url` inside `data` (absent when `data` is).
pub struct TeraboxBody {
    pub download_url: JsonField,
    pub url: JsonField,
    pub data_url: JsonField,
}

/// The string of a field that is present and a string.
pub open spec fn field_text(f: JsonField) -> Option<Seq<char>> {
    match f {
        JsonField::Text(s) => Some(s@),
        _ => None,
    }
}

/// The address in the answer: the first of the three fields that is
/// present, when it is a string.
pub open spec fn terabox_url_spec(b: TeraboxBody) -> Option<Seq<char>> {
    if !(b.download_url is Missing) {
        field_text(b.download_url)
    } else if !(b.url is Missing) {
        field_text(b.url)
    } else {
        field_text(b.data_url)
    }
}

fn text_of(f: &JsonField) -> (r: Option<String>)
    ensures
        r.deep_view() == field_text(*f),
{
    match f {
        JsonField::Text(s) => Some(s.clone()),
        _ => None,
    }
}

/// The address in the Terabox downloader's answer (see `terabox_url_spec`).
pub fn terabox_download_url(b: &TeraboxBody) -> (r: Option<String>)
    ensures
        r.deep_view() == terabox_url_spec(*b),
{
    match &b.download_url {
        JsonField::Missing => match &b.url {
            JsonField::Missing => text_of(&b.data_url),
            f => text_of(f),
        },
        f => text_of(f),
    }
}

/// The Terabox file: a video named `terabox_<last 16 bytes>.mp4`.
pub fn terabox_fetch(url: &str) -> (r: Fetch)
    requires
        tail_ok(url@, 16),
    ensures
        fetch_view(r) == plain_video(url@, tail_name("terabox_"@, url@, 16, "mp4"@)),
{
    let name = tail_name_of("terabox_", url, 16, "mp4");
    video_or_photo_fetch(url, name, true)
}

// ---------------------------------------------------------------- Threads

/// The selector of the videos on the Threads downloader's page.
pub open spec fn threads_video_sel() -> Seq<char> {
    "video source[src], video[src], a[href*='cdn']"@
}

/// The selector of the pictures on the Threads downloader's page.
pub open spec fn threads_img_sel() -> Seq<char> {
    "img[src*='cdn'], .post-media img"@
}

/// The address of a post's media: the `src` of the first video element that
/// has one, else of the first picture; both selectors must parse.
pub open spec fn threads_url_spec(html: Seq<char>) -> Result<Option<Seq<char>>, BadSelector> {
    if !selector_parses(threads_video_sel()) || !selector_parses(threads_img_sel()) {
        Err(BadSelector)
    } else {
        match first_mapped(selected_attrs(html, threads_video_sel(), "src"@, "src"@), pick_fn(Pick::First)) {
            Some(u) => Ok(Some(u)),
            None => Ok(first_mapped(selected_attrs(html, threads_img_sel(), "src"@, "src"@), pick_fn(Pick::First))),
        }
    }
}

/// Finds the address of a Threads post's media (see `threads_url_spec`).
pub fn threads_download_url(html: &str) -> (r: Result<Option<String>, BadSelector>)
    ensures
        match r {
            Ok(u) => threads_url_spec(html@) == Ok::<Option<Seq<char>>, BadSelector>(u.deep_view()),
            Err(e) => threads_url_spec(html@) == Err::<Option<Seq<char>>, BadSelector>(e),
        },
{
    let videos = match select_attrs(html, "video source[src], video[src], a[href*='cdn']", "src", "src") {
        Some(els) => els,
        None => return Err(BadSelector),
    };
    let imgs = match select_attrs(html, "img[src*='cdn'], .post-media img", "src", "src") {
        Some(els) => els,
        None => return Err(BadSelector),
    };
    match first_by(&videos, Pick::First) {
        Some(u) => Ok(Some(u)),
        None => Ok(first_by(&imgs, Pick::First)),
    }
}

/// A Threads file: a video when its address holds `.mp4` or `.mov`, else a
/// picture, named `threads_<last 12 bytes>.<mp4|jpg>`.
pub open spec fn threads_spec(url: Seq<char>) -> FetchView {
    let v = has_seq(url, ".mp4"@) || has_seq(url, ".mov"@);
    video_or_photo(
        url,
        tail_name(
            "threads_"@,
            url,
            12,
            if v {
                "mp4"@
            } else {
                "jpg"@
            },
        ),
        v,
    )
}

/// The file of a Threads post (see `threads_spec`).
pub fn threads_fetch(url: &str) -> (r: Fetch)
    requires
        tail_ok(url@, 12),
    ensures
        fetch_view(r) == threads_spec(url@),
{
    let v = has_str(url, ".mp4") || has_str(url, ".mov");
    let name = tail_name_of(
        "threads_",
        url,
        12,
        if v {
            "mp4"
        } else {
            "jpg"
        },
    );
    video_or_photo_fetch(url, name, v)
}

// ---------------------------------------------------------------- Twitter

/// The selector of the Twitter downloader's links.
pub open spec fn twitter_dl_sel() -> Seq<char> {
    "a.downloadbtn, .download-items a, a[href*='snapcdn']"@
}

/// What the Twitter downloader's page offers: the title (the first `h3`'s
/// text, trimmed) and the first link on `snapcdn.app`. The link selector
/// must parse; the title's may not.
pub open spec fn twitter_page_spec(html: Seq<char>) -> Result<(Option<Seq<char>>, Option<Seq<char>>), BadSelector> {
    let title = if selector_parses("h3"@) {
        match first_selected_text(html, "h3"@) {
            Some(t) => Some(trim_spec(t)),
            None => None,
        }
    } else {
        None
    };
    if !selector_parses(twitter_dl_sel()) {
        Err(BadSelector)
    } else {
        Ok((first_mapped(selected_attrs(html, twitter_dl_sel(), "href"@, "href"@), pick_fn(Pick::Snapcdn)), title))
    }
}

/// Reads the Twitter downloader's page (see `twitter_page_spec`).
pub fn twitter_page(html: &str) -> (r: Result<(Option<String>, Option<String>), BadSelector>)
    ensures
        match r {
            Ok((u, t)) => twitter_page_spec(html@) == Ok::<(Option<Seq<char>>, Option<Seq<char>>), BadSelector>(
                (u.deep_view(), t.deep_view()),
            ),
            Err(e) => twitter_page_spec(html@) == Err::<(Option<Seq<char>>, Option<Seq<char>>), BadSelector>(e),
        },
{
    let title = match select_first_text(html, "h3") {
        Some(Some(t)) => Some(trim(t.as_str())),
        _ => None,
    };
    match select_attrs(html, "a.downloadbtn, .download-items a, a[href*='snapcdn']", "href", "href") {
        Some(els) => Ok((first_by(&els, Pick::Snapcdn), title)),
        None => Err(BadSelector),
    }
}

/// The Twitter video: `twitter_<last 16 bytes>.mp4`, with the page's title.
pub open spec fn twitter_spec(url: Seq<char>, title: Option<Seq<char>>) -> FetchView {
    (url, tail_name("twitter_"@, url, 16, "mp4"@), "video/mp4"@, MediaKind::Video, title, None)
}

/// The file of a Twitter post (see `twitter_spec`).
pub fn twitter_fetch(url: &str, title: &Option<String>) -> (r: Fetch)
    requires
        tail_ok(url@, 16),
    ensures
        fetch_view(r) == twitter_spec(url@, title.deep_view()),
{
    let name = tail_name_of("twitter_", url, 16, "mp4");
    Fetch {
        url: String::from_str(url),
        filename: name,
        mime_type: String::from_str("video/mp4"),
        kind: MediaKind::Video,
        title: clone_opt(title),
        description: None,
    }
}

} // verus!
