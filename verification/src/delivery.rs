//! How a finished download is presented and sent: its caption, its cache key
//! and the order of the messages that carry it.

use vstd::prelude::*;

use crate::links::{get_source_link, html_escape, html_escape_spec, source_link_spec};
use crate::media::MediaKind;
use crate::selection::{all_indices, keep};
use crate::text::{decimal, decimal_string, trim, trim_spec};

verus! {

/// The key under which sent media is remembered: the link, with `#format`
/// when a format was asked for.
pub open spec fn cache_key_spec(url: Seq<char>, format: Option<Seq<char>>) -> Seq<char> {
    match format {
        Some(f) => url + "#"@ + f,
        None => url,
    }
}

/// The cache key of a request (see `cache_key_spec`).
pub fn cache_key(url: &str, format: Option<&str>) -> (r: String)
    ensures
        r@ == cache_key_spec(url@, match format { Some(f) => Some(f@), None => None }),
{
    let mut k = url.to_owned();
    if let Some(f) = format {
        k.append("#");
        k.append(f);
    }
    k
}

/// The name of a media kind in captions.
pub open spec fn kind_name(k: MediaKind) -> Seq<char> {
    match k {
        MediaKind::Video => "Video"@,
        MediaKind::Photo => "Photo"@,
        MediaKind::Audio => "Audio"@,
        MediaKind::File => "File"@,
    }
}

/// The quoted part of a caption: the bold escaped title on its own line, then
/// the escaped description, trimmed.
pub open spec fn quote_spec(title: Option<Seq<char>>, desc: Option<Seq<char>>) -> Seq<char> {
    let t = match title {
        Some(t) => "<b>"@ + html_escape_spec(t) + "</b>\n"@,
        None => Seq::empty(),
    };
    let d = match desc {
        Some(d) => html_escape_spec(d),
        None => Seq::empty(),
    };
    trim_spec(t + d)
}

/// What a caption says about a download. A fresh upload and a resend from
/// the cache word it differently.
pub open spec fn caption_spec(
    cached: bool,
    title: Option<Seq<char>>,
    desc: Option<Seq<char>>,
    url: Seq<char>,
    kind: MediaKind,
    size_text: Seq<char>,
    sender: Option<Seq<char>>,
) -> Seq<char> {
    let by = match sender {
        Some(n) => (if cached { "👤 Oleh: "@ } else { "👤 By: "@ }) + n + "\n"@,
        None => Seq::empty(),
    };
    quote_block_spec(title, desc) + (if cached { "🔗 Sumber: "@ } else { "🖇️ Source: "@ }) + source_link_spec(url) + "\n"@
        + (if cached { "🏷 Tipe: "@ } else { "📄 Type: "@ }) + kind_name(kind) + "\n"@
        + (if cached { "💾 Ukuran: "@ } else { "📁 Size: "@ }) + size_text + " MB\n"@ + by
        + (if cached {
        "\n😼 Powered by <a href=\"https://github.com/pavelc4/astra.git\">Astra</a>"@
    } else {
        "\n💫 Powered by <a href=\"https://github.com/pavelc4/astra.git\">Astra</a>"@
    })
}

/// The quote block of a caption: the quote in `<blockquote>` tags, or
/// nothing when the quote is empty.
pub open spec fn quote_block_spec(title: Option<Seq<char>>, desc: Option<Seq<char>>) -> Seq<char> {
    let q = quote_spec(title, desc);
    if q.len() > 0 {
        "<blockquote>"@ + q + "</blockquote>\n\n"@
    } else {
        Seq::empty()
    }
}

fn quote_block(title: Option<&str>, description: Option<&str>) -> (r: String)
    ensures
        r@ == quote_block_spec(
            match title { Some(s) => Some(s@), None => None },
            match description { Some(s) => Some(s@), None => None },
        ),
{
    let mut raw = String::new();
    if let Some(t) = title {
        raw.append("<b>");
        let e = html_escape(t);
        raw.append(e.as_str());
        raw.append("</b>\n");
    }
    if let Some(d) = description {
        let e = html_escape(d);
        raw.append(e.as_str());
    }
    let q = trim(raw.as_str());
    let mut c = String::new();
    if !q.as_str().is_empty() {
        c.append("<blockquote>");
        c.append(q.as_str());
        c.append("</blockquote>\n\n");
    }
    c
}

fn caption_tail(cached: bool, size_text: &str, sender: Option<&str>) -> (r: String)
    ensures
        r@ == (if cached { "💾 Ukuran: "@ } else { "📁 Size: "@ }) + size_text@ + " MB\n"@ + match sender {
            Some(n) => (if cached { "👤 Oleh: "@ } else { "👤 By: "@ }) + n@ + "\n"@,
            None => Seq::<char>::empty(),
        } + (if cached {
            "\n😼 Powered by <a href=\"https://github.com/pavelc4/astra.git\">Astra</a>"@
        } else {
            "\n💫 Powered by <a href=\"https://github.com/pavelc4/astra.git\">Astra</a>"@
        }),
{
    let mut c = (if cached { "💾 Ukuran: " } else { "📁 Size: " }).to_owned();
    c.append(size_text);
    c.append(" MB\n");
    if let Some(n) = sender {
        c.append(if cached { "👤 Oleh: " } else { "👤 By: " });
        c.append(n);
        c.append("\n");
    }
    c.append(
        if cached {
            "\n😼 Powered by <a href=\"https://github.com/pavelc4/astra.git\">Astra</a>"
        } else {
            "\n💫 Powered by <a href=\"https://github.com/pavelc4/astra.git\">Astra</a>"
        },
    );
    c
}

/// Writes the caption of a download (see `caption_spec`); `size_text` is the
/// size in megabytes as it is to be shown.
pub fn build_caption(
    cached: bool,
    title: Option<&str>,
    description: Option<&str>,
    url: &str,
    kind: MediaKind,
    size_text: &str,
    sender: Option<&str>,
) -> (r: String)
    ensures
        r@ == caption_spec(
            cached,
            match title { Some(s) => Some(s@), None => None },
            match description { Some(s) => Some(s@), None => None },
            url@,
            kind,
            size_text@,
            match sender { Some(s) => Some(s@), None => None },
        ),
{
    let mut c = quote_block(title, description);
    c.append(if cached { "🔗 Sumber: " } else { "🖇️ Source: " });
    let link = get_source_link(url);
    c.append(link.as_str());
    c.append("\n");
    c.append(if cached { "🏷 Tipe: " } else { "📄 Type: " });
    c.append(match kind {
        MediaKind::Video => "Video",
        MediaKind::Photo => "Photo",
        MediaKind::Audio => "Audio",
        MediaKind::File => "File",
    });
    c.append("\n");
    let tail = caption_tail(cached, size_text, sender);
    c.append(tail.as_str());
    c
}

} // verus!

verus! {

/// The progress line shown while item `i` (from zero) of `total` uploads.
pub open spec fn upload_status_spec(i: nat, total: nat, filename: Seq<char>, size: u64) -> Seq<char> {
    if total > 1 {
        "Uploading "@ + decimal(i + 1) + "/"@ + decimal(total) + ": "@ + filename + " ("@ + decimal(size as nat)
            + " bytes)"@
    } else {
        "Uploading: "@ + filename + " ("@ + decimal(size as nat) + " bytes)"@
    }
}

/// The progress line of one upload (see `upload_status_spec`).
pub fn upload_status(i: usize, total: usize, filename: &str, size: u64) -> (r: String)
    requires
        i < usize::MAX,
    ensures
        r@ == upload_status_spec(i as nat, total as nat, filename@, size),
{
    let sz = decimal_string(size);
    if total > 1 {
        let mut s = String::from_str("Uploading ");
        let a = decimal_string((i + 1) as u64);
        s.append(a.as_str());
        s.append("/");
        let b = decimal_string(total as u64);
        s.append(b.as_str());
        s.append(": ");
        s.append(filename);
        s.append(" (");
        s.append(sz.as_str());
        s.append(" bytes)");
        s
    } else {
        let mut s = String::from_str("Uploading: ");
        s.append(filename);
        s.append(" (");
        s.append(sz.as_str());
        s.append(" bytes)");
        s
    }
}

/// The first item larger than the upload limit, if any.
pub fn first_oversized(sizes: &Vec<u64>, max: u64) -> (r: Option<usize>)
    ensures
        match r {
            Some(i) => i < sizes@.len() && sizes@[i as int] > max && forall|j: int| 0 <= j < i ==> sizes@[j] <= max,
            None => forall|j: int| 0 <= j < sizes@.len() ==> sizes@[j] <= max,
        },
{
    let mut i: usize = 0;
    while i < sizes.len()
        invariant
            i <= sizes@.len(),
            forall|j: int| 0 <= j < i ==> sizes@[j] <= max,
        decreases sizes@.len() - i,
    {
        if sizes[i] > max {
            return Some(i);
        }
        i = i + 1;
    }
    None
}

/// The most photos that one album message holds.
pub const ALBUM_MAX: usize = 10;

/// One message of a delivery: a single medium or an album of photos, and
/// whether it carries the caption.
#[derive(Debug, PartialEq, Eq)]
pub struct SendStep {
    pub album: bool,
    pub items: Vec<usize>,
    pub caption: bool,
}

/// The view of a step.
pub open spec fn step_view(s: SendStep) -> (bool, Seq<usize>, bool) {
    (s.album, s.items@, s.caption)
}

/// The number of albums that `n` photos fill.
pub open spec fn album_count(n: nat) -> nat {
    ((n + 9) / 10) as nat
}

/// The messages that deliver `n` uploaded media of the given kinds: one
/// medium alone goes out by itself; otherwise the photos go first, in albums
/// of up to ten in order, then every other medium by itself. Only the last
/// message carries the caption.
pub open spec fn send_plan_spec(kinds: Seq<MediaKind>) -> Seq<(bool, Seq<usize>, bool)> {
    if kinds.len() == 1 {
        seq![(false, seq![0usize], true)]
    } else {
        let all = all_indices(kinds.len());
        let ph = keep(all, |i: usize| kinds[i as int] == MediaKind::Photo);
        let ot = keep(all, |i: usize| kinds[i as int] != MediaKind::Photo);
        let nb = album_count(ph.len());
        let total = nb + ot.len();
        Seq::new(
            total,
            |s: int|
                if s < nb {
                    (true, ph.subrange(10 * s, if 10 * s + 10 <= ph.len() { 10 * s + 10 } else { ph.len() as int }), s + 1 == total)
                } else {
                    (false, seq![ot[s - nb]], s + 1 == total)
                },
        )
    }
}

fn kind_indices(kinds: &Vec<MediaKind>, photos: bool) -> (r: Vec<usize>)
    ensures
        photos ==> r@ == keep(all_indices(kinds@.len()), |i: usize| kinds@[i as int] == MediaKind::Photo),
        !photos ==> r@ == keep(all_indices(kinds@.len()), |i: usize| kinds@[i as int] != MediaKind::Photo),
{
    let ghost f = if photos {
        |i: usize| kinds@[i as int] == MediaKind::Photo
    } else {
        |i: usize| kinds@[i as int] != MediaKind::Photo
    };
    let mut r: Vec<usize> = Vec::new();
    let mut i: usize = 0;
    while i < kinds.len()
        invariant
            i <= kinds@.len(),
            f == (if photos {
                |i: usize| kinds@[i as int] == MediaKind::Photo
            } else {
                |i: usize| kinds@[i as int] != MediaKind::Photo
            }),
            r@ == keep(all_indices(i as nat), f),
        decreases kinds@.len() - i,
    {
        assert(all_indices((i + 1) as nat).drop_last() =~= all_indices(i as nat));
        assert(all_indices((i + 1) as nat).last() == i);
        if (kinds[i] == MediaKind::Photo) == photos {
            r.push(i);
        }
        i = i + 1;
    }
    r
}

/// Plans the messages that deliver uploaded media (see `send_plan_spec`).
pub fn plan_sends(kinds: &Vec<MediaKind>) -> (r: Vec<SendStep>)
    requires
        kinds@.len() >= 1,
    ensures
        r@.map_values(|s: SendStep| step_view(s)) == send_plan_spec(kinds@),
{
    let mut out: Vec<SendStep> = Vec::new();
    if kinds.len() == 1 {
        let mut items: Vec<usize> = Vec::new();
        items.push(0);
        out.push(SendStep { album: false, items, caption: true });
        assert(out@.map_values(|s: SendStep| step_view(s)) =~= send_plan_spec(kinds@));
        return out;
    }
    let ph = kind_indices(kinds, true);
    let ot = kind_indices(kinds, false);
    let ghost spec = send_plan_spec(kinds@);
    proof {
        crate::selection::lemma_keep_split_len(
            all_indices(kinds@.len()),
            |i: usize| kinds@[i as int] == MediaKind::Photo,
            |i: usize| kinds@[i as int] != MediaKind::Photo,
        );
    }
    let nb = ph.len() / 10 + if ph.len() % 10 != 0 { 1 } else { 0 };
    assert(nb == album_count(ph@.len()));
    assert(nb <= ph@.len());
    let total = nb + ot.len();
    assert(spec.len() == total);
    let mut b: usize = 0;
    while b < nb
        invariant
            nb == album_count(ph@.len()),
            total == nb + ot@.len(),
            spec == send_plan_spec(kinds@),
            spec.len() == total,
            kinds@.len() != 1,
            ph@ == keep(all_indices(kinds@.len()), |i: usize| kinds@[i as int] == MediaKind::Photo),
            ot@ == keep(all_indices(kinds@.len()), |i: usize| kinds@[i as int] != MediaKind::Photo),
            b <= nb,
            out@.len() == b,
            forall|k: int| 0 <= k < b ==> step_view(#[trigger] out@[k]) == spec[k],
        decreases nb - b,
    {
        let phl = ph.len();
        assert(10 * b < phl) by (nonlinear_arith)
            requires
                b < nb,
                nb == (phl + 9) / 10,
        ;
        let start = 10 * b;
        let end = if ph.len() - start >= 10 { start + 10 } else { ph.len() };
        let mut items: Vec<usize> = Vec::new();
        let mut j: usize = start;
        while j < end
            invariant
                start <= j <= end <= ph@.len(),
                items@ == ph@.subrange(start as int, j as int),
            decreases end - j,
        {
            items.push(ph[j]);
            j = j + 1;
            assert(items@ =~= ph@.subrange(start as int, j as int));
        }
        out.push(SendStep { album: true, items, caption: b + 1 == total });
        b = b + 1;
    }
    let mut o: usize = 0;
    while o < ot.len()
        invariant
            nb == album_count(ph@.len()),
            total == nb + ot@.len(),
            spec == send_plan_spec(kinds@),
            spec.len() == total,
            kinds@.len() != 1,
            ph@ == keep(all_indices(kinds@.len()), |i: usize| kinds@[i as int] == MediaKind::Photo),
            ot@ == keep(all_indices(kinds@.len()), |i: usize| kinds@[i as int] != MediaKind::Photo),
            o <= ot@.len(),
            out@.len() == nb + o,
            forall|k: int| 0 <= k < nb + o ==> step_view(#[trigger] out@[k]) == spec[k],
        decreases ot@.len() - o,
    {
        let mut items: Vec<usize> = Vec::new();
        items.push(ot[o]);
        assert(items@ =~= seq![ot@[o as int]]);
        out.push(SendStep { album: false, items, caption: nb + o + 1 == total });
        o = o + 1;
    }
    assert(out@.map_values(|s: SendStep| step_view(s)) =~= spec);
    out
}

/// Every index kept by `keep` passes the test.
proof fn lemma_keep_passes(is: Seq<usize>, f: spec_fn(usize) -> bool)
    ensures
        forall|j: int| 0 <= j < keep(is, f).len() ==> f(#[trigger] keep(is, f)[j]),
    decreases is.len(),
{
    if is.len() > 0 {
        lemma_keep_passes(is.drop_last(), f);
        let r = keep(is.drop_last(), f);
        assert forall|j: int| 0 <= j < keep(is, f).len() implies f(#[trigger] keep(is, f)[j]) by {
            if j < r.len() {
                assert(keep(is, f)[j] == r[j]);
            }
        }
    }
}

/// The shape of every delivery: at least one message; only the last one
/// carries the caption; each holds one to ten media, all of them among the
/// uploaded ones; and when there are several media, albums hold only photos
/// and single messages hold none.
pub proof fn law_send_plan_shape(kinds: Seq<MediaKind>)
    requires
        kinds.len() >= 1,
    ensures
        send_plan_spec(kinds).len() >= 1,
        forall|s: int|
            0 <= s < send_plan_spec(kinds).len() ==> ((#[trigger] send_plan_spec(kinds)[s]).2 <==> s
                == send_plan_spec(kinds).len() - 1),
        forall|s: int|
            0 <= s < send_plan_spec(kinds).len() ==> 1 <= (#[trigger] send_plan_spec(kinds)[s]).1.len() <= 10,
        forall|s: int, j: int|
            0 <= s < send_plan_spec(kinds).len() && 0 <= j < send_plan_spec(kinds)[s].1.len() ==> (
            #[trigger] send_plan_spec(kinds)[s].1[j]) < kinds.len(),
        kinds.len() > 1 ==> forall|s: int, j: int|
            0 <= s < send_plan_spec(kinds).len() && 0 <= j < send_plan_spec(kinds)[s].1.len() ==> (
            send_plan_spec(kinds)[s].0 <==> kinds[(#[trigger] send_plan_spec(kinds)[s].1[j]) as int]
                == MediaKind::Photo),
{
    let p = send_plan_spec(kinds);
    if kinds.len() > 1 {
        let all = all_indices(kinds.len());
        let f = |i: usize| kinds[i as int] == MediaKind::Photo;
        let g = |i: usize| kinds[i as int] != MediaKind::Photo;
        let ph = keep(all, f);
        let ot = keep(all, g);
        crate::selection::lemma_keep_split_len(all, f, g);
        crate::selection::lemma_keep_bounded(all, f, kinds.len());
        crate::selection::lemma_keep_bounded(all, g, kinds.len());
        lemma_keep_passes(all, f);
        lemma_keep_passes(all, g);
        let nb = album_count(ph.len());
        let total = nb + ot.len();
        assert(ph.len() > 0 ==> nb >= 1);
        assert(p.len() == total);
        assert forall|s: int| 0 <= s < p.len() implies 1 <= (#[trigger] p[s]).1.len() <= 10 by {
            if s < nb {
                let pl = ph.len() as int;
                assert(10 * s < pl) by (nonlinear_arith)
                    requires
                        s < nb,
                        nb == (pl + 9) / 10,
                ;
            }
        }
        assert forall|s: int, j: int| 0 <= s < p.len() && 0 <= j < p[s].1.len() implies (#[trigger] p[s].1[j])
            < kinds.len() && (p[s].0 <==> kinds[p[s].1[j] as int] == MediaKind::Photo) by {
            if s < nb {
                let pl = ph.len() as int;
                assert(10 * s < pl) by (nonlinear_arith)
                    requires
                        s < nb,
                        nb == (pl + 9) / 10,
                ;
                let end = if 10 * s + 10 <= ph.len() { 10 * s + 10 } else { ph.len() as int };
                assert(p[s].1[j] == ph[10 * s + j]);
                assert(f(ph[10 * s + j]));
            } else {
                assert(p[s].1[j] == ot[s - nb]);
                assert(g(ot[s - nb]));
            }
        }
    }
}

} // verus!

verus! {

/// `part` occurs in `s` as a contiguous run.
pub open spec fn occurs(s: Seq<char>, part: Seq<char>) -> bool {
    exists|i: int| 0 <= i && i + part.len() <= s.len() && #[trigger] s.subrange(i, i + part.len()) == part
}

/// The caption up to and including its type label.
spec fn caption_head(cached: bool, title: Option<Seq<char>>, desc: Option<Seq<char>>, url: Seq<char>) -> Seq<
    char,
> {
    quote_block_spec(title, desc) + (if cached { "🔗 Sumber: "@ } else { "🖇️ Source: "@ }) + source_link_spec(url)
        + "\n"@ + (if cached { "🏷 Tipe: "@ } else { "📄 Type: "@ })
}

/// The caption after the kind's name.
spec fn caption_rest(cached: bool, size_text: Seq<char>, sender: Option<Seq<char>>) -> Seq<char> {
    let by = match sender {
        Some(n) => (if cached { "👤 Oleh: "@ } else { "👤 By: "@ }) + n + "\n"@,
        None => Seq::empty(),
    };
    "\n"@ + (if cached { "💾 Ukuran: "@ } else { "📁 Size: "@ }) + size_text + " MB\n"@ + by + (if cached {
        "\n😼 Powered by <a href=\"https://github.com/pavelc4/astra.git\">Astra</a>"@
    } else {
        "\n💫 Powered by <a href=\"https://github.com/pavelc4/astra.git\">Astra</a>"@
    })
}

proof fn lemma_caption_split(
    cached: bool,
    title: Option<Seq<char>>,
    desc: Option<Seq<char>>,
    url: Seq<char>,
    kind: MediaKind,
    size_text: Seq<char>,
    sender: Option<Seq<char>>,
)
    ensures
        caption_spec(cached, title, desc, url, kind, size_text, sender) == caption_head(cached, title, desc, url)
            + kind_name(kind) + caption_rest(cached, size_text, sender),
{
    assert(caption_spec(cached, title, desc, url, kind, size_text, sender) =~= caption_head(cached, title, desc, url)
        + kind_name(kind) + caption_rest(cached, size_text, sender));
}

/// A caption has a type line that names the medium's own kind: `Video`,
/// `Photo`, `Audio` or `File`, after `📄 Type: ` (or `🏷 Tipe: ` for a
/// resend from the cache).
pub proof fn law_caption_type_line(
    cached: bool,
    title: Option<Seq<char>>,
    desc: Option<Seq<char>>,
    url: Seq<char>,
    kind: MediaKind,
    size_text: Seq<char>,
    sender: Option<Seq<char>>,
)
    ensures
        occurs(
            caption_spec(cached, title, desc, url, kind, size_text, sender),
            (if cached { "🏷 Tipe: "@ } else { "📄 Type: "@ }) + match kind {
                MediaKind::Video => "Video"@,
                MediaKind::Photo => "Photo"@,
                MediaKind::Audio => "Audio"@,
                MediaKind::File => "File"@,
            } + "\n"@,
        ),
{
    lemma_caption_split(cached, title, desc, url, kind, size_text, sender);
    let label = if cached { "🏷 Tipe: "@ } else { "📄 Type: "@ };
    let head = caption_head(cached, title, desc, url);
    let pre = quote_block_spec(title, desc) + (if cached { "🔗 Sumber: "@ } else { "🖇️ Source: "@ })
        + source_link_spec(url) + "\n"@;
    assert(head =~= pre + label);
    let rest = caption_rest(cached, size_text, sender);
    reveal_strlit("\n");
    let nl = "\n"@;
    let rest2 = (if cached { "💾 Ukuran: "@ } else { "📁 Size: "@ }) + size_text + " MB\n"@ + match sender {
        Some(n) => (if cached { "👤 Oleh: "@ } else { "👤 By: "@ }) + n + "\n"@,
        None => Seq::empty(),
    } + (if cached {
        "\n😼 Powered by <a href=\"https://github.com/pavelc4/astra.git\">Astra</a>"@
    } else {
        "\n💫 Powered by <a href=\"https://github.com/pavelc4/astra.git\">Astra</a>"@
    });
    assert(rest =~= nl + rest2);
    let line = label + kind_name(kind) + nl;
    let c = caption_spec(cached, title, desc, url, kind, size_text, sender);
    assert(c =~= pre + line + rest2);
    let i = pre.len() as int;
    assert(c.subrange(i, i + line.len()) =~= line);
}

/// Two captions that differ only in the medium's kind differ: each kind has
/// a name of its own.
pub proof fn law_caption_kinds_distinct(
    cached: bool,
    title: Option<Seq<char>>,
    desc: Option<Seq<char>>,
    url: Seq<char>,
    k1: MediaKind,
    k2: MediaKind,
    size_text: Seq<char>,
    sender: Option<Seq<char>>,
)
    requires
        k1 != k2,
    ensures
        caption_spec(cached, title, desc, url, k1, size_text, sender) != caption_spec(
            cached,
            title,
            desc,
            url,
            k2,
            size_text,
            sender,
        ),
        kind_name(k1) != kind_name(k2),
{
    reveal_strlit("Video");
    reveal_strlit("Photo");
    reveal_strlit("Audio");
    reveal_strlit("File");
    lemma_caption_split(cached, title, desc, url, k1, size_text, sender);
    lemma_caption_split(cached, title, desc, url, k2, size_text, sender);
    let head = caption_head(cached, title, desc, url);
    let c1 = caption_spec(cached, title, desc, url, k1, size_text, sender);
    let c2 = caption_spec(cached, title, desc, url, k2, size_text, sender);
    assert(kind_name(k1).len() > 0 && kind_name(k2).len() > 0);
    assert(kind_name(k1)[0] != kind_name(k2)[0]);
    assert(c1[head.len() as int] == kind_name(k1)[0]);
    assert(c2[head.len() as int] == kind_name(k2)[0]);
}

} // verus!
