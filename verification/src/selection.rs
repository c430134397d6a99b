//! Which of the backend's downloads a request gets, and under what names.

use vstd::prelude::*;

use crate::astra::{
    clone_opt, parse_quality, parse_quality_spec, photo_url_spec, sanitize_filename, sanitize_filename_spec,
    text_has, AstraData, AstraDownloadItem, AstraMediaType, AstraPhotoItem, AstraResponse,
};
use crate::endpoint::AstraEndpoint;
use crate::media::{MediaKind, MediaMeta, MediaMetadataInfo, MetaView};
use crate::text::{contains_str, decimal, decimal_string, str_eq, str_lowercase, to_lowercase};

verus! {

/// The entries of `is` that satisfy `f`, in order.
pub open spec fn keep(is: Seq<usize>, f: spec_fn(usize) -> bool) -> Seq<usize>
    decreases is.len(),
{
    if is.len() == 0 {
        is
    } else {
        let r = keep(is.drop_last(), f);
        if f(is.last()) {
            r.push(is.last())
        } else {
            r
        }
    }
}

/// The positions `0..n`.
pub open spec fn all_indices(n: nat) -> Seq<usize> {
    Seq::new(n, |i: int| i as usize)
}

/// The text of an optional text, empty when absent.
pub open spec fn opt_text(o: Option<String>) -> Seq<char> {
    match o {
        Some(s) => s@,
        None => Seq::empty(),
    }
}

/// The ranking key of a download.
pub open spec fn rank(d: AstraDownloadItem) -> u32 {
    parse_quality_spec(opt_text(d.quality), opt_text(d.label))
}

/// The position, among `is`, of the best-ranked download; of several equally
/// ranked ones, the last.
pub open spec fn last_max(ds: Seq<AstraDownloadItem>, is: Seq<usize>) -> usize
    decreases is.len(),
{
    if is.len() <= 1 {
        is[0]
    } else {
        let b = last_max(ds, is.drop_last());
        if rank(ds[is.last() as int]) >= rank(ds[b as int]) {
            is.last()
        } else {
            b
        }
    }
}

pub open spec fn is_video(ds: Seq<AstraDownloadItem>, i: usize) -> bool {
    ds[i as int].media_type == AstraMediaType::Video
}

pub open spec fn is_still(ds: Seq<AstraDownloadItem>, i: usize) -> bool {
    ds[i as int].media_type == AstraMediaType::Image || ds[i as int].media_type == AstraMediaType::Slide
}

pub open spec fn is_audio(ds: Seq<AstraDownloadItem>, i: usize) -> bool {
    ds[i as int].media_type == AstraMediaType::Audio
}

/// A download whose label says that it carries no sound.
pub open spec fn is_mute(ds: Seq<AstraDownloadItem>, i: usize) -> bool {
    text_has(str_lowercase(opt_text(ds[i as int].label)), "no audio")
}

/// A download with exactly the label `lit`.
pub open spec fn labelled(ds: Seq<AstraDownloadItem>, i: usize, lit: Seq<char>) -> bool {
    ds[i as int].label.deep_view() == Some(lit)
}

/// The TikTok preference: no watermark, then HD, then original, then with
/// watermark, then the first video.
pub open spec fn tiktok_pick(ds: Seq<AstraDownloadItem>, vs: Seq<usize>) -> usize {
    let a = keep(vs, |i: usize| labelled(ds, i, "No Watermark"@));
    let b = keep(vs, |i: usize| labelled(ds, i, "HD"@));
    let c = keep(vs, |i: usize| labelled(ds, i, "Original"@));
    let d = keep(vs, |i: usize| labelled(ds, i, "With Watermark"@));
    if a.len() > 0 {
        a[0]
    } else if b.len() > 0 {
        b[0]
    } else if c.len() > 0 {
        c[0]
    } else if d.len() > 0 {
        d[0]
    } else {
        vs[0]
    }
}

/// The video that a request gets: on YouTube the best one with sound (the
/// best of all when none has sound), on TikTok by label, elsewhere the best.
pub open spec fn video_pick(ds: Seq<AstraDownloadItem>, vs: Seq<usize>, e: AstraEndpoint) -> usize {
    match e {
        AstraEndpoint::YoutubeDownload => {
            let c = keep(vs, |i: usize| !is_mute(ds, i));
            if c.len() > 0 {
                last_max(ds, c)
            } else {
                last_max(ds, vs)
            }
        },
        AstraEndpoint::TiktokDownload => tiktok_pick(ds, vs),
        _ => last_max(ds, vs),
    }
}

/// What the request asks for.
#[derive(Debug, Clone, Copy, PartialEq, Eq, Structural)]
pub enum Want {
    Video,
    Photo,
    Audio,
    Nothing,
}

/// The view of an optional format text.
pub open spec fn format_view(f: Option<&str>) -> Option<Seq<char>> {
    match f {
        Some(s) => Some(s@),
        None => None,
    }
}

/// The kind of media to take: the one named by the format, or when no format
/// is given the first kind that the list offers (video, photo, audio).
pub open spec fn want_spec(f: Option<Seq<char>>, has_v: bool, has_p: bool, has_a: bool) -> Want {
    match f {
        Some(s) => if s == "video"@ {
            Want::Video
        } else if s == "photo"@ {
            Want::Photo
        } else if s == "audio"@ {
            Want::Audio
        } else {
            Want::Nothing
        },
        None => if has_v {
            Want::Video
        } else if has_p {
            Want::Photo
        } else if has_a {
            Want::Audio
        } else {
            Want::Nothing
        },
    }
}

/// A download that has been chosen: where to fetch it and how to describe it.
#[derive(Debug)]
pub struct AstraPick {
    pub url: String,
    pub meta: MediaMeta,
}

/// The mathematical value of a chosen download.
pub struct PickView {
    pub url: Seq<char>,
    pub meta: MetaView,
}

impl View for AstraPick {
    type V = PickView;

    open spec fn view(&self) -> PickView {
        PickView { url: self.url@, meta: self.meta@ }
    }
}

/// The description of a chosen download before its size is known.
pub open spec fn pick_view(
    url: Seq<char>,
    kind: MediaKind,
    mime: Seq<char>,
    filename: Seq<char>,
    title: Option<Seq<char>>,
    description: Option<Seq<char>>,
) -> PickView {
    PickView {
        url,
        meta: MetaView {
            filename,
            mime_type: mime,
            size: 0,
            duration_secs: None,
            dims: None,
            kind,
            title,
            description,
        },
    }
}

/// The base of a file name: the sanitized title, or `default`.
pub open spec fn file_base(title: Option<Seq<char>>, default: Seq<char>) -> Seq<char> {
    match title {
        Some(t) => sanitize_filename_spec(t, default),
        None => sanitize_filename_spec(default, default),
    }
}

/// The title of a post: its title, else its caption.
pub open spec fn post_title(d: AstraData) -> Option<Seq<char>> {
    match d.title {
        Some(t) => Some(t@),
        None => d.caption.deep_view(),
    }
}

/// The description of a post: its caption, when it also has a title.
pub open spec fn post_description(d: AstraData) -> Option<Seq<char>> {
    if d.title is Some {
        d.caption.deep_view()
    } else {
        None
    }
}

/// The downloads that the request takes from the backend's download list.
pub open spec fn from_downloads(
    ds: Seq<AstraDownloadItem>,
    f: Option<Seq<char>>,
    e: AstraEndpoint,
    title: Option<Seq<char>>,
    desc: Option<Seq<char>>,
) -> Seq<PickView> {
    let all = all_indices(ds.len());
    let vs = keep(all, |i: usize| is_video(ds, i));
    let ss = keep(all, |i: usize| is_still(ds, i));
    let au = keep(all, |i: usize| is_audio(ds, i));
    match want_spec(f, vs.len() > 0, ss.len() > 0, au.len() > 0) {
        Want::Video => if vs.len() > 0 {
            seq![
                pick_view(
                    ds[video_pick(ds, vs, e) as int].url@,
                    MediaKind::Video,
                    "video/mp4"@,
                    file_base(title, "video"@) + ".mp4"@,
                    title,
                    desc,
                ),
            ]
        } else {
            Seq::empty()
        },
        Want::Photo => if ss.len() > 0 {
            Seq::new(
                ss.len(),
                |j: int|
                    pick_view(
                        ds[ss[j] as int].url@,
                        MediaKind::Photo,
                        "image/jpeg"@,
                        file_base(title, "image"@) + "_"@ + decimal(j as nat) + ".jpg"@,
                        title,
                        desc,
                    ),
            )
        } else {
            Seq::empty()
        },
        Want::Audio => if au.len() > 0 {
            seq![
                pick_view(
                    ds[au[0] as int].url@,
                    MediaKind::Audio,
                    "audio/mpeg"@,
                    file_base(title, "audio"@) + ".mp3"@,
                    title,
                    desc,
                ),
            ]
        } else {
            Seq::empty()
        },
        Want::Nothing => Seq::empty(),
    }
}

} // verus!

verus! {

/// The photo addresses of a carousel, each with its position among the photos.
pub open spec fn photo_entries(ps: Seq<AstraPhotoItem>) -> Seq<(Seq<char>, nat)>
    decreases ps.len(),
{
    if ps.len() == 0 {
        Seq::empty()
    } else {
        let r = photo_entries(ps.drop_last());
        match photo_url_spec(ps.last()) {
            Some(u) => r.push((u, (ps.len() - 1) as nat)),
            None => r,
        }
    }
}

/// The carousel media that the request takes: photos (unless another format
/// than "photo" is asked for), then videos (unless another format than
/// "video" is asked for), each with its position in its own list.
pub open spec fn carousel_entries(d: AstraData, f: Option<Seq<char>>) -> Seq<(Seq<char>, MediaKind, nat)> {
    let wants_photo = f is None || f == Some("photo"@);
    let wants_video = f is None || f == Some("video"@);
    let ps = match d.photos {
        Some(p) => photo_entries(p@).map_values(|e: (Seq<char>, nat)| (e.0, MediaKind::Photo, e.1)),
        None => Seq::empty(),
    };
    let vs = match d.videos {
        Some(v) => Seq::new(v@.len(), |i: int| (v@[i].url@, MediaKind::Video, i as nat)),
        None => Seq::empty(),
    };
    (if wants_photo {
        ps
    } else {
        Seq::empty()
    }) + (if wants_video {
        vs
    } else {
        Seq::empty()
    })
}

/// The description of the `k`-th carousel medium; only the first carries the
/// post's title and description.
pub open spec fn carousel_pick(
    e: (Seq<char>, MediaKind, nat),
    k: int,
    title: Option<Seq<char>>,
    desc: Option<Seq<char>>,
) -> PickView {
    let is_vid = e.1 == MediaKind::Video;
    let ext = if is_vid { "mp4"@ } else { "jpg"@ };
    let mime = if is_vid { "video/mp4"@ } else { "image/jpeg"@ };
    let base = if is_vid { "video"@ } else { "image"@ };
    pick_view(
        e.0,
        e.1,
        mime,
        file_base(title, base) + "_"@ + decimal(e.2) + "."@ + ext,
        if k == 0 { title } else { None },
        if k == 0 { desc } else { None },
    )
}

/// The carousel media of a post, when the download list gave nothing.
pub open spec fn from_carousel(
    d: AstraData,
    f: Option<Seq<char>>,
    title: Option<Seq<char>>,
    desc: Option<Seq<char>>,
) -> Seq<PickView> {
    let ex = carousel_entries(d, f);
    Seq::new(ex.len(), |k: int| carousel_pick(ex[k], k, title, desc))
}

/// Everything that a request takes from a post: from its download list, else
/// from its carousel.
pub open spec fn plan_spec(d: AstraData, f: Option<Seq<char>>, e: AstraEndpoint) -> Seq<PickView> {
    let dl = match d.downloads {
        Some(ds) => from_downloads(ds@, f, e, post_title(d), post_description(d)),
        None => Seq::empty(),
    };
    if dl.len() > 0 {
        dl
    } else {
        from_carousel(d, f, post_title(d), post_description(d))
    }
}

fn all_indices_exec(n: usize) -> (r: Vec<usize>)
    ensures
        r@ == all_indices(n as nat),
{
    let mut r: Vec<usize> = Vec::new();
    let mut i: usize = 0;
    while i < n
        invariant
            i <= n,
            r@ == all_indices(i as nat),
        decreases n - i,
    {
        r.push(i);
        i = i + 1;
        assert(r@ =~= all_indices(i as nat));
    }
    r
}

fn keep_marked(is: &Vec<usize>, marks: &Vec<bool>, Ghost(f): Ghost<spec_fn(usize) -> bool>) -> (r: Vec<usize>)
    requires
        is@.len() == marks@.len(),
        forall|j: int| 0 <= j < is@.len() ==> marks@[j] == f(is@[j]),
    ensures
        r@ == keep(is@, f),
{
    let mut r: Vec<usize> = Vec::new();
    let mut j: usize = 0;
    while j < is.len()
        invariant
            is@.len() == marks@.len(),
            forall|k: int| 0 <= k < is@.len() ==> marks@[k] == f(is@[k]),
            j <= is@.len(),
            r@ == keep(is@.take(j as int), f),
        decreases is@.len() - j,
    {
        assert(is@.take(j + 1).drop_last() =~= is@.take(j as int));
        if marks[j] {
            r.push(is[j]);
        }
        j = j + 1;
    }
    assert(is@.take(is@.len() as int) =~= is@);
    r
}

fn opt_str(o: &Option<String>) -> (r: &str)
    ensures
        r@ == opt_text(*o),
{
    match o {
        Some(s) => s.as_str(),
        None => {
            proof {
                reveal_strlit("");
            }
            ""
        },
    }
}

fn rank_of(d: &AstraDownloadItem) -> (r: u32)
    ensures
        r == rank(*d),
{
    parse_quality(opt_str(&d.quality), opt_str(&d.label))
}

fn last_max_exec(ds: &Vec<AstraDownloadItem>, is: &Vec<usize>) -> (r: usize)
    requires
        is@.len() > 0,
        forall|j: int| 0 <= j < is@.len() ==> is@[j] < ds@.len(),
    ensures
        r == last_max(ds@, is@),
{
    let mut best = is[0];
    let mut best_rank = rank_of(&ds[best]);
    assert(is@.take(1).len() == 1);
    let mut j: usize = 1;
    while j < is.len()
        invariant
            is@.len() > 0,
            forall|k: int| 0 <= k < is@.len() ==> is@[k] < ds@.len(),
            1 <= j <= is@.len(),
            best < ds@.len(),
            best == last_max(ds@, is@.take(j as int)),
            best_rank == rank(ds@[best as int]),
        decreases is@.len() - j,
    {
        assert(is@.take(j + 1).drop_last() =~= is@.take(j as int));
        let r = rank_of(&ds[is[j]]);
        if r >= best_rank {
            best = is[j];
            best_rank = r;
        }
        j = j + 1;
    }
    assert(is@.take(is@.len() as int) =~= is@);
    best
}

} // verus!

verus! {

/// Every position that `keep` returns comes from its input.
pub proof fn lemma_keep_bounded(is: Seq<usize>, f: spec_fn(usize) -> bool, n: nat)
    requires
        forall|j: int| 0 <= j < is.len() ==> is[j] < n,
    ensures
        forall|j: int| 0 <= j < keep(is, f).len() ==> #[trigger] keep(is, f)[j] < n,
    decreases is.len(),
{
    if is.len() > 0 {
        lemma_keep_bounded(is.drop_last(), f, n);
        let r = keep(is.drop_last(), f);
        assert(is.last() == is[is.len() - 1]);
        assert forall|j: int| 0 <= j < keep(is, f).len() implies #[trigger] keep(is, f)[j] < n by {
            if j < r.len() {
                assert(keep(is, f)[j] == r[j]);
            }
        }
    }
}

fn type_marks(ds: &Vec<AstraDownloadItem>, is: &Vec<usize>, a: AstraMediaType, b: AstraMediaType) -> (r: Vec<bool>)
    requires
        forall|j: int| 0 <= j < is@.len() ==> is@[j] < ds@.len(),
    ensures
        r@.len() == is@.len(),
        forall|j: int| 0 <= j < is@.len() ==> r@[j] == (ds@[is@[j] as int].media_type == a || ds@[is@[j] as int].media_type == b),
{
    let mut r: Vec<bool> = Vec::new();
    let mut j: usize = 0;
    while j < is.len()
        invariant
            forall|k: int| 0 <= k < is@.len() ==> is@[k] < ds@.len(),
            j <= is@.len(),
            r@.len() == j,
            forall|k: int| 0 <= k < j ==> r@[k] == (ds@[is@[k] as int].media_type == a || ds@[is@[k] as int].media_type == b),
        decreases is@.len() - j,
    {
        let t = ds[is[j]].media_type;
        r.push(t == a || t == b);
        j = j + 1;
    }
    r
}

fn label_marks(ds: &Vec<AstraDownloadItem>, is: &Vec<usize>, lit: &str) -> (r: Vec<bool>)
    requires
        forall|j: int| 0 <= j < is@.len() ==> is@[j] < ds@.len(),
    ensures
        r@.len() == is@.len(),
        forall|j: int| 0 <= j < is@.len() ==> r@[j] == labelled(ds@, is@[j], lit@),
{
    let mut r: Vec<bool> = Vec::new();
    let mut j: usize = 0;
    while j < is.len()
        invariant
            forall|k: int| 0 <= k < is@.len() ==> is@[k] < ds@.len(),
            j <= is@.len(),
            r@.len() == j,
            forall|k: int| 0 <= k < j ==> r@[k] == labelled(ds@, is@[k], lit@),
        decreases is@.len() - j,
    {
        let m = match &ds[is[j]].label {
            Some(l) => str_eq(l.as_str(), lit),
            None => false,
        };
        r.push(m);
        j = j + 1;
    }
    r
}

fn sound_marks(ds: &Vec<AstraDownloadItem>, is: &Vec<usize>) -> (r: Vec<bool>)
    requires
        forall|j: int| 0 <= j < is@.len() ==> is@[j] < ds@.len(),
    ensures
        r@.len() == is@.len(),
        forall|j: int| 0 <= j < is@.len() ==> r@[j] == !is_mute(ds@, is@[j]),
{
    let mut r: Vec<bool> = Vec::new();
    let mut j: usize = 0;
    while j < is.len()
        invariant
            forall|k: int| 0 <= k < is@.len() ==> is@[k] < ds@.len(),
            j <= is@.len(),
            r@.len() == j,
            forall|k: int| 0 <= k < j ==> r@[k] == !is_mute(ds@, is@[k]),
        decreases is@.len() - j,
    {
        let lower = to_lowercase(opt_str(&ds[is[j]].label));
        r.push(!contains_str(lower.as_str(), "no audio"));
        j = j + 1;
    }
    r
}

fn first_labelled(ds: &Vec<AstraDownloadItem>, vs: &Vec<usize>, lit: &str) -> (r: Vec<usize>)
    requires
        forall|j: int| 0 <= j < vs@.len() ==> vs@[j] < ds@.len(),
    ensures
        r@ == keep(vs@, |i: usize| labelled(ds@, i, lit@)),
        forall|j: int| 0 <= j < r@.len() ==> #[trigger] r@[j] < ds@.len(),
{
    let marks = label_marks(ds, vs, lit);
    let r = keep_marked(vs, &marks, Ghost(|i: usize| labelled(ds@, i, lit@)));
    proof {
        lemma_keep_bounded(vs@, |i: usize| labelled(ds@, i, lit@), ds@.len());
    }
    r
}

fn video_pick_exec(ds: &Vec<AstraDownloadItem>, vs: &Vec<usize>, e: AstraEndpoint) -> (r: usize)
    requires
        vs@.len() > 0,
        forall|j: int| 0 <= j < vs@.len() ==> vs@[j] < ds@.len(),
    ensures
        r == video_pick(ds@, vs@, e),
        r < ds@.len(),
{
    proof {
        lemma_last_max_member(ds@, vs@);
    }
    match e {
        AstraEndpoint::YoutubeDownload => {
            let marks = sound_marks(ds, vs);
            let c = keep_marked(vs, &marks, Ghost(|i: usize| !is_mute(ds@, i)));
            proof {
                lemma_keep_bounded(vs@, |i: usize| !is_mute(ds@, i), ds@.len());
                lemma_last_max_member(ds@, c@);
            }
            if c.len() > 0 {
                last_max_exec(ds, &c)
            } else {
                last_max_exec(ds, vs)
            }
        },
        AstraEndpoint::TiktokDownload => {
            let a = first_labelled(ds, vs, "No Watermark");
            if a.len() > 0 {
                return a[0];
            }
            let b = first_labelled(ds, vs, "HD");
            if b.len() > 0 {
                return b[0];
            }
            let c = first_labelled(ds, vs, "Original");
            if c.len() > 0 {
                return c[0];
            }
            let d = first_labelled(ds, vs, "With Watermark");
            if d.len() > 0 {
                return d[0];
            }
            vs[0]
        },
        _ => last_max_exec(ds, vs),
    }
}

/// The best-ranked position is one of the candidates.
pub proof fn lemma_last_max_member(ds: Seq<AstraDownloadItem>, is: Seq<usize>)
    ensures
        is.len() > 0 ==> is.contains(last_max(ds, is)),
    decreases is.len(),
{
    if is.len() > 1 {
        lemma_last_max_member(ds, is.drop_last());
        let b = last_max(ds, is.drop_last());
        let k = choose|k: int| 0 <= k < is.drop_last().len() && is.drop_last()[k] == b;
        assert(is[k] == b);
        assert(is[is.len() - 1] == is.last());
    } else if is.len() == 1 {
        assert(is[0] == is[0]);
    }
}

} // verus!

verus! {

fn want_of(format: Option<&str>, has_v: bool, has_p: bool, has_a: bool) -> (r: Want)
    ensures
        r == want_spec(format_view(format), has_v, has_p, has_a),
{
    match format {
        Some(f) => if str_eq(f, "video") {
            Want::Video
        } else if str_eq(f, "photo") {
            Want::Photo
        } else if str_eq(f, "audio") {
            Want::Audio
        } else {
            Want::Nothing
        },
        None => if has_v {
            Want::Video
        } else if has_p {
            Want::Photo
        } else if has_a {
            Want::Audio
        } else {
            Want::Nothing
        },
    }
}

fn file_base_exec(title: &Option<String>, default: &str) -> (r: String)
    ensures
        r@ == file_base(title.deep_view(), default@),
{
    match title {
        Some(t) => sanitize_filename(t.as_str(), default),
        None => sanitize_filename(default, default),
    }
}

fn make_pick(
    url: String,
    kind: MediaKind,
    mime: &str,
    filename: String,
    title: Option<String>,
    description: Option<String>,
) -> (r: AstraPick)
    ensures
        r@ == pick_view(url@, kind, mime@, filename@, title.deep_view(), description.deep_view()),
{
    AstraPick {
        url,
        meta: MediaMeta {
            filename,
            mime_type: mime.to_owned(),
            size: 0,
            duration_secs: None,
            dims: None,
            kind,
            title,
            description,
        },
    }
}

/// The views of a list of chosen downloads.
pub open spec fn picks_view(ps: Seq<AstraPick>) -> Seq<PickView> {
    ps.map_values(|p: AstraPick| p@)
}

fn numbered_name(base: &String, n: usize, ext: &str) -> (r: String)
    ensures
        r@ == base@ + "_"@ + decimal(n as nat) + ext@,
{
    let mut f = base.clone();
    f.append("_");
    let d = decimal_string(n as u64);
    f.append(d.as_str());
    f.append(ext);
    f
}

fn from_downloads_exec(
    ds: &Vec<AstraDownloadItem>,
    format: Option<&str>,
    e: AstraEndpoint,
    title: &Option<String>,
    desc: &Option<String>,
) -> (r: Vec<AstraPick>)
    ensures
        picks_view(r@) == from_downloads(ds@, format_view(format), e, title.deep_view(), desc.deep_view()),
{
    let all = all_indices_exec(ds.len());
    let m1 = type_marks(ds, &all, AstraMediaType::Video, AstraMediaType::Video);
    let vs = keep_marked(&all, &m1, Ghost(|i: usize| is_video(ds@, i)));
    let m2 = type_marks(ds, &all, AstraMediaType::Image, AstraMediaType::Slide);
    let ss = keep_marked(&all, &m2, Ghost(|i: usize| is_still(ds@, i)));
    let m3 = type_marks(ds, &all, AstraMediaType::Audio, AstraMediaType::Audio);
    let au = keep_marked(&all, &m3, Ghost(|i: usize| is_audio(ds@, i)));
    proof {
        lemma_keep_bounded(all@, |i: usize| is_video(ds@, i), ds@.len());
        lemma_keep_bounded(all@, |i: usize| is_still(ds@, i), ds@.len());
        lemma_keep_bounded(all@, |i: usize| is_audio(ds@, i), ds@.len());
    }
    let mut out: Vec<AstraPick> = Vec::new();
    match want_of(format, vs.len() > 0, ss.len() > 0, au.len() > 0) {
        Want::Video => {
            if vs.len() > 0 {
                let k = video_pick_exec(ds, &vs, e);
                let mut name = file_base_exec(title, "video");
                name.append(".mp4");
                out.push(make_pick(ds[k].url.clone(), MediaKind::Video, "video/mp4", name, clone_opt(title), clone_opt(desc)));
                assert(picks_view(out@) =~= from_downloads(ds@, format_view(format), e, title.deep_view(), desc.deep_view()));
            }
        },
        Want::Photo => {
            if ss.len() > 0 {
                let base = file_base_exec(title, "image");
                let mut j: usize = 0;
                while j < ss.len()
                    invariant
                        forall|k: int| 0 <= k < ss@.len() ==> #[trigger] ss@[k] < ds@.len(),
                        base@ == file_base(title.deep_view(), "image"@),
                        j <= ss@.len(),
                        out@.len() == j,
                        forall|k: int| 0 <= k < j ==> #[trigger] out@[k]@ == pick_view(
                            ds@[ss@[k] as int].url@,
                            MediaKind::Photo,
                            "image/jpeg"@,
                            file_base(title.deep_view(), "image"@) + "_"@ + decimal(k as nat) + ".jpg"@,
                            title.deep_view(),
                            desc.deep_view(),
                        ),
                    decreases ss@.len() - j,
                {
                    let name = numbered_name(&base, j, ".jpg");
                    out.push(make_pick(ds[ss[j]].url.clone(), MediaKind::Photo, "image/jpeg", name, clone_opt(title), clone_opt(desc)));
                    j = j + 1;
                }
                assert(picks_view(out@) =~= from_downloads(ds@, format_view(format), e, title.deep_view(), desc.deep_view()));
            }
        },
        Want::Audio => {
            if au.len() > 0 {
                let mut name = file_base_exec(title, "audio");
                name.append(".mp3");
                out.push(make_pick(ds[au[0]].url.clone(), MediaKind::Audio, "audio/mpeg", name, clone_opt(title), clone_opt(desc)));
                assert(picks_view(out@) =~= from_downloads(ds@, format_view(format), e, title.deep_view(), desc.deep_view()));
            }
        },
        Want::Nothing => {},
    }
    proof {
        if out@.len() == 0 {
            assert(picks_view(out@) =~= from_downloads(ds@, format_view(format), e, title.deep_view(), desc.deep_view()));
        }
    }
    out
}

} // verus!

verus! {

/// The view of one carousel entry.
pub open spec fn entry_view(e: (String, MediaKind, usize)) -> (Seq<char>, MediaKind, nat) {
    (e.0@, e.1, e.2 as nat)
}

fn photo_entries_exec(ps: &Vec<AstraPhotoItem>) -> (r: Vec<(String, MediaKind, usize)>)
    ensures
        r@.map_values(|e: (String, MediaKind, usize)| entry_view(e)) == photo_entries(ps@).map_values(
            |e: (Seq<char>, nat)| (e.0, MediaKind::Photo, e.1),
        ),
{
    let mut r: Vec<(String, MediaKind, usize)> = Vec::new();
    let mut i: usize = 0;
    while i < ps.len()
        invariant
            i <= ps@.len(),
            r@.map_values(|e: (String, MediaKind, usize)| entry_view(e)) == photo_entries(ps@.take(i as int)).map_values(
                |e: (Seq<char>, nat)| (e.0, MediaKind::Photo, e.1),
            ),
        decreases ps@.len() - i,
    {
        assert(ps@.take(i + 1).drop_last() =~= ps@.take(i as int));
        let ghost before = r@;
        if let Some(u) = ps[i].get_url() {
            r.push((u, MediaKind::Photo, i));
            assert(r@.map_values(|e: (String, MediaKind, usize)| entry_view(e)) =~= before.map_values(
                |e: (String, MediaKind, usize)| entry_view(e),
            ).push(entry_view(r@.last())));
        }
        i = i + 1;
        assert(r@.map_values(|e: (String, MediaKind, usize)| entry_view(e)) =~= photo_entries(ps@.take(i as int)).map_values(
            |e: (Seq<char>, nat)| (e.0, MediaKind::Photo, e.1),
        ));
    }
    assert(ps@.take(ps@.len() as int) =~= ps@);
    r
}

fn carousel_entries_exec(d: &AstraData, format: Option<&str>) -> (r: Vec<(String, MediaKind, usize)>)
    ensures
        r@.map_values(|e: (String, MediaKind, usize)| entry_view(e)) == carousel_entries(*d, format_view(format)),
{
    let (wants_photo, wants_video) = match format {
        None => (true, true),
        Some(f) => (str_eq(f, "photo"), str_eq(f, "video")),
    };
    let mut r: Vec<(String, MediaKind, usize)> = Vec::new();
    if wants_photo {
        if let Some(ps) = &d.photos {
            r = photo_entries_exec(ps);
        }
    }
    let ghost photos_part = r@.map_values(|e: (String, MediaKind, usize)| entry_view(e));
    let ghost start = r@.len();
    if wants_video {
        if let Some(vs) = &d.videos {
            let mut i: usize = 0;
            while i < vs.len()
                invariant
                    i <= vs@.len(),
                    r@.len() == start + i,
                    r@.map_values(|e: (String, MediaKind, usize)| entry_view(e)) =~= photos_part + Seq::new(
                        i as nat,
                        |k: int| (vs@[k].url@, MediaKind::Video, k as nat),
                    ),
                decreases vs@.len() - i,
            {
                let ghost before = r@;
                let u = vs[i].url.clone();
                r.push((u, MediaKind::Video, i));
                assert(r@.map_values(|e: (String, MediaKind, usize)| entry_view(e)) =~= before.map_values(
                    |e: (String, MediaKind, usize)| entry_view(e),
                ).push((vs@[i as int].url@, MediaKind::Video, i as nat)));
                i = i + 1;
            }
        }
    }
    proof {
        let f = format_view(format);
        assert(wants_photo == (f is None || f == Some("photo"@)));
        assert(wants_video == (f is None || f == Some("video"@)));
    }
    assert(r@.map_values(|e: (String, MediaKind, usize)| entry_view(e)) =~= carousel_entries(*d, format_view(format)));
    r
}

fn from_carousel_exec(d: &AstraData, format: Option<&str>, title: &Option<String>, desc: &Option<String>) -> (r: Vec<AstraPick>)
    ensures
        picks_view(r@) == from_carousel(*d, format_view(format), title.deep_view(), desc.deep_view()),
{
    let ex = carousel_entries_exec(d, format);
    let ghost exv = carousel_entries(*d, format_view(format));
    let mut out: Vec<AstraPick> = Vec::new();
    let mut k: usize = 0;
    while k < ex.len()
        invariant
            ex@.map_values(|e: (String, MediaKind, usize)| entry_view(e)) == exv,
            k <= ex@.len(),
            out@.len() == k,
            forall|j: int| 0 <= j < k ==> #[trigger] out@[j]@ == carousel_pick(exv[j], j, title.deep_view(), desc.deep_view()),
        decreases ex@.len() - k,
    {
        let (url, kind, seg) = (&ex[k].0, ex[k].1, ex[k].2);
        assert(exv[k as int] == entry_view(ex@[k as int]));
        let is_vid = kind == MediaKind::Video;
        let ext = if is_vid { "mp4" } else { "jpg" };
        let mime = if is_vid { "video/mp4" } else { "image/jpeg" };
        let base_name = if is_vid { "video" } else { "image" };
        let base = file_base_exec(title, base_name);
        let mut name = numbered_name(&base, seg, ".");
        name.append(ext);
        let (t, dd) = if k == 0 {
            (clone_opt(title), clone_opt(desc))
        } else {
            (None, None)
        };
        out.push(make_pick(url.clone(), kind, mime, name, t, dd));
        k = k + 1;
    }
    assert(picks_view(out@) =~= from_carousel(*d, format_view(format), title.deep_view(), desc.deep_view()));
    out
}

/// Chooses what a request takes from a post (see `plan_spec`): from the
/// download list, else from the carousel; each pick has size 0 until it is
/// fetched.
pub fn plan_downloads(d: &AstraData, format: Option<&str>, endpoint: AstraEndpoint) -> (r: Vec<AstraPick>)
    ensures
        picks_view(r@) == plan_spec(*d, format_view(format), endpoint),
{
    let title = match &d.title {
        Some(t) => Some(t.clone()),
        None => clone_opt(&d.caption),
    };
    let desc = if d.title.is_some() {
        clone_opt(&d.caption)
    } else {
        None
    };
    let dl = match &d.downloads {
        Some(ds) => from_downloads_exec(ds, format, endpoint, &title, &desc),
        None => Vec::new(),
    };
    proof {
        if d.downloads is None {
            assert(picks_view(dl@) =~= Seq::empty());
        }
    }
    if dl.len() > 0 {
        dl
    } else {
        from_carousel_exec(d, format, &title, &desc)
    }
}

/// Why a backend answer yields nothing to download.
#[derive(Debug, PartialEq, Eq)]
pub enum AstraError {
    /// The backend reported a failure, with its message.
    Api(String),
    /// The backend reported success without data.
    NoData,
    /// Nothing in the answer matches the request.
    NoMedia,
}

/// Turns a backend answer into the downloads that a request takes: the
/// backend's failure message when it failed, `NoData` when it sent no data,
/// `NoMedia` when nothing matches, else the picks of `plan_spec`.
pub fn plan_response(resp: &AstraResponse, format: Option<&str>, endpoint: AstraEndpoint) -> (r: Result<Vec<AstraPick>, AstraError>)
    ensures
        !resp.success ==> (r matches Err(AstraError::Api(m)) && m@ == resp.message@),
        resp.success && resp.data is None ==> r == Err::<Vec<AstraPick>, AstraError>(AstraError::NoData),
        resp.success && resp.data is Some ==> ({
            let p = plan_spec(resp.data->0, format_view(format), endpoint);
            if p.len() == 0 {
                r == Err::<Vec<AstraPick>, AstraError>(AstraError::NoMedia)
            } else {
                r matches Ok(v) && picks_view(v@) == p
            }
        }),
{
    if !resp.success {
        return Err(AstraError::Api(resp.message.clone()));
    }
    match &resp.data {
        None => Err(AstraError::NoData),
        Some(d) => {
            let picks = plan_downloads(d, format, endpoint);
            if picks.len() == 0 {
                Err(AstraError::NoMedia)
            } else {
                Ok(picks)
            }
        },
    }
}

/// The kinds of media that a post offers: those of its download list, plus
/// photos and videos when its carousel has any.
pub open spec fn media_info_spec(d: AstraData) -> MediaMetadataInfo {
    let (v, p, a) = match d.downloads {
        Some(ds) => (
            exists|i: int| 0 <= i < ds@.len() && ds@[i].media_type == AstraMediaType::Video,
            exists|i: int| 0 <= i < ds@.len() && (ds@[i].media_type == AstraMediaType::Image || ds@[i].media_type == AstraMediaType::Slide),
            exists|i: int| 0 <= i < ds@.len() && ds@[i].media_type == AstraMediaType::Audio,
        ),
        None => (false, false, false),
    };
    let p2 = p || (d.photos is Some && d.photos->0@.len() > 0);
    let v2 = v || (d.videos is Some && d.videos->0@.len() > 0);
    MediaMetadataInfo { has_video: v2, has_audio: a, has_photo: p2 }
}

/// Which kinds of media a post offers (see `media_info_spec`).
pub fn media_info(d: &AstraData) -> (r: MediaMetadataInfo)
    ensures
        r == media_info_spec(*d),
{
    let mut has_video = false;
    let mut has_photo = false;
    let mut has_audio = false;
    if let Some(ds) = &d.downloads {
        let mut i: usize = 0;
        while i < ds.len()
            invariant
                i <= ds@.len(),
                has_video == exists|k: int| 0 <= k < i && ds@[k].media_type == AstraMediaType::Video,
                has_photo == exists|k: int| 0 <= k < i && (ds@[k].media_type == AstraMediaType::Image || ds@[k].media_type == AstraMediaType::Slide),
                has_audio == exists|k: int| 0 <= k < i && ds@[k].media_type == AstraMediaType::Audio,
            decreases ds@.len() - i,
        {
            let t = ds[i].media_type;
            if t == AstraMediaType::Video {
                has_video = true;
            }
            if t == AstraMediaType::Image || t == AstraMediaType::Slide {
                has_photo = true;
            }
            if t == AstraMediaType::Audio {
                has_audio = true;
            }
            i = i + 1;
        }
    }
    if let Some(ps) = &d.photos {
        if ps.len() > 0 {
            has_photo = true;
        }
    }
    if let Some(vs) = &d.videos {
        if vs.len() > 0 {
            has_video = true;
        }
    }
    MediaMetadataInfo { has_video, has_audio, has_photo }
}

} // verus!

verus! {

/// `keep` returns no more entries than it is given.
pub proof fn lemma_keep_len(is: Seq<usize>, f: spec_fn(usize) -> bool)
    ensures
        keep(is, f).len() <= is.len(),
    decreases is.len(),
{
    if is.len() > 0 {
        lemma_keep_len(is.drop_last(), f);
    }
}

} // verus!

verus! {

/// A predicate and its negation split the entries between them.
pub proof fn lemma_keep_split_len(is: Seq<usize>, f: spec_fn(usize) -> bool, g: spec_fn(usize) -> bool)
    requires
        forall|x: usize| #[trigger] g(x) == !f(x),
    ensures
        keep(is, f).len() + keep(is, g).len() == is.len(),
    decreases is.len(),
{
    if is.len() > 0 {
        lemma_keep_split_len(is.drop_last(), f, g);
        assert(g(is.last()) == !f(is.last()));
    }
}

} // verus!

verus! {

proof fn lemma_keep_keep(is: Seq<usize>, f: spec_fn(usize) -> bool, g: spec_fn(usize) -> bool)
    ensures
        keep(keep(is, f), g) == keep(is, |i: usize| f(i) && g(i)),
    decreases is.len(),
{
    if is.len() > 0 {
        lemma_keep_keep(is.drop_last(), f, g);
        let r = keep(is.drop_last(), f);
        if f(is.last()) {
            assert(r.push(is.last()).drop_last() =~= r);
        }
    }
}

proof fn lemma_keep_none(m: nat, f: spec_fn(usize) -> bool)
    requires
        forall|j: int| 0 <= j < m ==> !#[trigger] f(j as usize),
    ensures
        keep(all_indices(m), f).len() == 0,
    decreases m,
{
    if m > 0 {
        assert(all_indices(m).drop_last() =~= all_indices((m - 1) as nat));
        lemma_keep_none((m - 1) as nat, f);
        assert(!f((m - 1) as usize));
    }
}

proof fn lemma_keep_all_first(n: nat, f: spec_fn(usize) -> bool, k: int)
    requires
        0 <= k < n,
        f(k as usize),
        forall|j: int| 0 <= j < k ==> !#[trigger] f(j as usize),
    ensures
        keep(all_indices(n), f).len() > 0,
        keep(all_indices(n), f)[0] == k as usize,
    decreases n,
{
    assert(all_indices(n).drop_last() =~= all_indices((n - 1) as nat));
    assert(all_indices(n).last() == (n - 1) as usize);
    if n - 1 == k {
        lemma_keep_none((n - 1) as nat, f);
    } else {
        lemma_keep_all_first((n - 1) as nat, f, k);
    }
}

/// On TikTok, a video request (no format, or `video`) for a post whose
/// download list has a video labelled `No Watermark` gets one download: the
/// first such video, as a video.
pub proof fn law_tiktok_prefers_no_watermark(d: AstraData, f: Option<Seq<char>>, k: int)
    requires
        f is None || f == Some("video"@),
        d.downloads is Some,
        0 <= k < d.downloads->0@.len(),
        d.downloads->0@[k].media_type == AstraMediaType::Video,
        d.downloads->0@[k].label.deep_view() == Some("No Watermark"@),
        forall|j: int|
            0 <= j < k ==> !(#[trigger] d.downloads->0@[j].media_type == AstraMediaType::Video
                && d.downloads->0@[j].label.deep_view() == Some("No Watermark"@)),
    ensures
        plan_spec(d, f, AstraEndpoint::TiktokDownload).len() == 1,
        plan_spec(d, f, AstraEndpoint::TiktokDownload)[0].url == d.downloads->0@[k].url@,
        plan_spec(d, f, AstraEndpoint::TiktokDownload)[0].meta.kind == MediaKind::Video,
{
    let ds = d.downloads->0@;
    let n = ds.len();
    assert(d.downloads->0.len() == n);
    let all = all_indices(n);
    let fv = |i: usize| is_video(ds, i);
    let fl = |i: usize| labelled(ds, i, "No Watermark"@);
    let h = |i: usize| fv(i) && fl(i);
    let vs = keep(all, fv);
    lemma_keep_keep(all, fv, fl);
    assert forall|j: int| 0 <= j < k implies !#[trigger] h(j as usize) by {
        assert(!(ds[j].media_type == AstraMediaType::Video && ds[j].label.deep_view() == Some("No Watermark"@)));
    }
    lemma_keep_all_first(n, h, k);
    lemma_keep_len(vs, fl);
    assert(vs.len() > 0);
    assert(tiktok_pick(ds, vs) == k as usize);
}

/// The TikTok labels, most preferred first.
pub open spec fn tiktok_label(i: int) -> Seq<char> {
    if i == 0 {
        "No Watermark"@
    } else if i == 1 {
        "HD"@
    } else if i == 2 {
        "Original"@
    } else {
        "With Watermark"@
    }
}

/// The TikTok preference among a post's videos, by label: `No Watermark`,
/// then `HD`, then `Original`, then `With Watermark`. A video request (no
/// format, or `video`) gets one download: the first video with the most
/// preferred label that any video has, or the first video when none has any
/// of these labels.
pub proof fn law_tiktok_label_order(d: AstraData, f: Option<Seq<char>>, m: int, k: int)
    requires
        f is None || f == Some("video"@),
        d.downloads is Some,
        0 <= m <= 4,
        0 <= k < d.downloads->0@.len(),
        d.downloads->0@[k].media_type == AstraMediaType::Video,
        m < 4 ==> d.downloads->0@[k].label.deep_view() == Some(
            tiktok_label(m),
        ),
        forall|j: int|
            0 <= j < k ==> !(#[trigger] d.downloads->0@[j].media_type == AstraMediaType::Video && (m == 4
                || d.downloads->0@[j].label.deep_view() == Some(
                tiktok_label(m),
            ))),
        forall|j: int, i: int|
            0 <= j < d.downloads->0@.len() && 0 <= i < m ==> !(#[trigger] d.downloads->0@[j].media_type
                == AstraMediaType::Video && d.downloads->0@[j].label.deep_view() == Some(
                #[trigger] tiktok_label(i),
            )),
    ensures
        plan_spec(d, f, AstraEndpoint::TiktokDownload).len() == 1,
        plan_spec(d, f, AstraEndpoint::TiktokDownload)[0].url == d.downloads->0@[k].url@,
        plan_spec(d, f, AstraEndpoint::TiktokDownload)[0].meta.kind == MediaKind::Video,
{
    let ds = d.downloads->0@;
    let n = ds.len();
    assert(d.downloads->0.len() == n);
    let all = all_indices(n);
    let fv = |i: usize| is_video(ds, i);
    let vs = keep(all, fv);
    assert forall|i: int| 0 <= i < m implies keep(vs, |x: usize| labelled(ds, x, #[trigger] tiktok_label(i))).len() == 0 by {
        let fl = |x: usize| labelled(ds, x, tiktok_label(i));
        lemma_keep_keep(all, fv, fl);
        let h = |x: usize| fv(x) && fl(x);
        assert forall|j: int| 0 <= j < n implies !#[trigger] h(j as usize) by {
            assert(!(ds[j].media_type == AstraMediaType::Video && ds[j].label.deep_view() == Some(tiktok_label(i))));
        }
        lemma_keep_none(n, h);
    }
    let g = |x: usize| fv(x) && (m == 4 || labelled(ds, x, tiktok_label(m)));
    assert forall|j: int| 0 <= j < k implies !#[trigger] g(j as usize) by {
        assert(!(ds[j].media_type == AstraMediaType::Video && (m == 4 || ds[j].label.deep_view() == Some(tiktok_label(m)))));
    }
    lemma_keep_all_first(n, g, k);
    if m < 4 {
        let fl = |x: usize| labelled(ds, x, tiktok_label(m));
        lemma_keep_keep(all, fv, fl);
        assert(keep(all, |x: usize| fv(x) && fl(x)) == keep(all, g)) by {
            assert((|x: usize| fv(x) && fl(x)) =~= g);
        }
        lemma_keep_len(vs, fl);
    } else {
        assert(keep(all, fv) == keep(all, g)) by {
            assert(fv =~= g);
        }
    }
    assert(vs.len() > 0);
    assert(tiktok_label(0) == "No Watermark"@ && tiktok_label(1) == "HD"@ && tiktok_label(2) == "Original"@
        && tiktok_label(3) == "With Watermark"@);
    assert(tiktok_pick(ds, vs) == k as usize);
}

} // verus!
