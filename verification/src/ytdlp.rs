//! The `yt-dlp` provider: which links it takes, the arguments it runs the
//! program with, and how it reads the program's answer to a probe.

use vstd::prelude::*;

use crate::media::{mime_for_ext, mime_for_ext_spec, MediaKind, MediaMeta, MetaView};
use crate::text::{
    contains_str, lines, parse_int, parse_int_gen, parse_int_spec, parse_uint, split_lines, str_contains,
    trim, trim_spec,
};

verus! {

/// Downloads through the `yt-dlp` program.
pub struct YtDlpProvider {
    pub cookies: Option<String>,
}

/// The arguments that name the cookie file, when there is one.
pub open spec fn cookie_args(cookies: Option<Seq<char>>) -> Seq<Seq<char>> {
    match cookies {
        Some(c) => seq!["--cookies"@, c],
        None => Seq::empty(),
    }
}

/// The arguments of the probe: print size, extension, duration, width,
/// height and id of `url`, download nothing; then the cookie file.
pub open spec fn probe_args_spec(url: Seq<char>, cookies: Option<Seq<char>>) -> Seq<Seq<char>> {
    seq![
        "--print"@,
        "%(filesize,filesize_approx)s"@,
        "--print"@,
        "%(ext)s"@,
        "--print"@,
        "%(duration)s"@,
        "--print"@,
        "%(width)s"@,
        "--print"@,
        "%(height)s"@,
        "--print"@,
        "%(display_id)s"@,
        "--no-download"@,
        "--no-warnings"@,
        url,
    ] + cookie_args(cookies)
}

/// The arguments of the download: write `url` to standard output; then the
/// cookie file.
pub open spec fn stream_args_spec(url: Seq<char>, cookies: Option<Seq<char>>) -> Seq<Seq<char>> {
    seq!["-o"@, "-"@, "--no-warnings"@, url] + cookie_args(cookies)
}

fn push_str(v: &mut Vec<String>, s: &str)
    ensures
        final(v).deep_view() == old(v).deep_view().push(s@),
{
    let ghost before = v.deep_view();
    v.push(String::from_str(s));
    assert(v.deep_view() =~= before.push(s@));
}

/// The line `i` of the program's answer, or `default` when it has fewer.
pub open spec fn line_or(ls: Seq<Seq<char>>, i: int, default: Seq<char>) -> Seq<char> {
    if i < ls.len() {
        ls[i]
    } else {
        default
    }
}

/// A number that `str::parse` reads from the trimmed text, or zero.
pub open spec fn int_or_zero(t: Seq<char>, min: int, max: int) -> int {
    match parse_int_spec(trim_spec(t), min, max) {
        Some(v) => v,
        None => 0,
    }
}

/// What a probe's answer says of the video: its lines are the size, the
/// extension (`mp4` when missing), the duration, the width, the height and
/// the id. A size or dimension that does not parse counts as zero; the
/// dimensions are known only when both are positive; the file is named
/// `<id>.<ext>` (`video.<ext>` without an id).
pub open spec fn probe_meta_spec(out: Seq<char>) -> MetaView {
    let ls = lines(out);
    let ext = line_or(ls, 1, "mp4"@);
    let id = line_or(ls, 5, Seq::empty());
    let w = int_or_zero(line_or(ls, 3, Seq::empty()), i32::MIN as int, i32::MAX as int);
    let h = int_or_zero(line_or(ls, 4, Seq::empty()), i32::MIN as int, i32::MAX as int);
    MetaView {
        filename: (if id.len() == 0 {
            "video"@
        } else {
            id
        }) + "."@ + ext,
        mime_type: mime_for_ext_spec(ext),
        size: (match parse_int_gen(trim_spec(line_or(ls, 0, Seq::empty())), false, 0, u64::MAX as int) {
            Some(v) => v,
            None => 0,
        }) as u64,
        duration_secs: match parse_int_spec(trim_spec(line_or(ls, 2, Seq::empty())), 0, u32::MAX as int) {
            Some(v) => Some(v as u32),
            None => None,
        },
        dims: if w > 0 && h > 0 {
            Some((w as i32, h as i32))
        } else {
            None
        },
        kind: MediaKind::Video,
        title: None,
        description: None,
    }
}

fn line_at(ls: &Vec<String>, i: usize, default: &str) -> (r: String)
    ensures
        r@ == line_or(ls.deep_view(), i as int, default@),
{
    if i < ls.len() {
        assert(ls.deep_view()[i as int] == ls@[i as int]@);
        ls[i].clone()
    } else {
        String::from_str(default)
    }
}

impl YtDlpProvider {
    /// A provider that passes this cookie file to the program.
    pub fn new(cookies: Option<String>) -> (r: YtDlpProvider)
        ensures
            r.cookies == cookies,
    {
        YtDlpProvider { cookies }
    }

    /// YouTube links and those of its mirrors `yewtu.be` and
    /// `inv.nadeko.net`.
    pub fn can_handle(&self, url: &str) -> (r: bool)
        ensures
            r == (str_contains(url, "youtube.com") || str_contains(url, "youtu.be") || str_contains(url, "yewtu.be")
                || str_contains(url, "inv.nadeko.net")),
    {
        contains_str(url, "youtube.com") || contains_str(url, "youtu.be") || contains_str(url, "yewtu.be")
            || contains_str(url, "inv.nadeko.net")
    }

    fn push_cookies(&self, v: &mut Vec<String>)
        ensures
            final(v).deep_view() == old(v).deep_view() + cookie_args(self.cookies.deep_view()),
    {
        match &self.cookies {
            Some(c) => {
                let ghost before = v.deep_view();
                push_str(v, "--cookies");
                push_str(v, c.as_str());
                assert(v.deep_view() =~= before + seq!["--cookies"@, c@]);
            },
            None => {
                assert(v.deep_view() =~= old(v).deep_view() + Seq::<Seq<char>>::empty());
            },
        }
    }

    /// The arguments of the probe (see `probe_args_spec`).
    pub fn probe_args(&self, url: &str) -> (r: Vec<String>)
        ensures
            r.deep_view() == probe_args_spec(url@, self.cookies.deep_view()),
    {
        let mut v: Vec<String> = Vec::new();
        push_str(&mut v, "--print");
        push_str(&mut v, "%(filesize,filesize_approx)s");
        push_str(&mut v, "--print");
        push_str(&mut v, "%(ext)s");
        push_str(&mut v, "--print");
        push_str(&mut v, "%(duration)s");
        push_str(&mut v, "--print");
        push_str(&mut v, "%(width)s");
        push_str(&mut v, "--print");
        push_str(&mut v, "%(height)s");
        push_str(&mut v, "--print");
        push_str(&mut v, "%(display_id)s");
        push_str(&mut v, "--no-download");
        push_str(&mut v, "--no-warnings");
        push_str(&mut v, url);
        self.push_cookies(&mut v);
        v
    }

    /// The arguments of the download (see `stream_args_spec`).
    pub fn stream_args(&self, url: &str) -> (r: Vec<String>)
        ensures
            r.deep_view() == stream_args_spec(url@, self.cookies.deep_view()),
    {
        let mut v: Vec<String> = Vec::new();
        push_str(&mut v, "-o");
        push_str(&mut v, "-");
        push_str(&mut v, "--no-warnings");
        push_str(&mut v, url);
        self.push_cookies(&mut v);
        v
    }

    /// What the probe's answer says of the video (see `probe_meta_spec`).
    pub fn probe_meta(&self, out: &str) -> (r: MediaMeta)
        ensures
            r@ == probe_meta_spec(out@),
    {
        proof {
            reveal_strlit("");
        }
        let ls = split_lines(out);
        let size_line = trim(line_at(&ls, 0, "").as_str());
        let ext = line_at(&ls, 1, "mp4");
        let dur_line = trim(line_at(&ls, 2, "").as_str());
        let w_line = trim(line_at(&ls, 3, "").as_str());
        let h_line = trim(line_at(&ls, 4, "").as_str());
        let id = line_at(&ls, 5, "");
        let size: u64 = match parse_uint(size_line.as_str(), u64::MAX) {
            Some(v) => v,
            None => 0,
        };
        let duration_secs: Option<u32> = match parse_int(dur_line.as_str(), 0, 4294967295) {
            Some(v) => Some(v as u32),
            None => None,
        };
        let w: i64 = match parse_int(w_line.as_str(), -2147483648, 2147483647) {
            Some(v) => v,
            None => 0,
        };
        let h: i64 = match parse_int(h_line.as_str(), -2147483648, 2147483647) {
            Some(v) => v,
            None => 0,
        };
        let mut filename = if id.as_str().is_empty() {
            String::from_str("video")
        } else {
            id
        };
        filename.append(".");
        filename.append(ext.as_str());
        let dims = if w > 0 && h > 0 {
            Some((w as i32, h as i32))
        } else {
            None
        };
        let ghost spec = probe_meta_spec(out@);
        assert(filename@ == spec.filename);
        assert(size == spec.size);
        assert(duration_secs == spec.duration_secs);
        assert(dims == spec.dims);
        MediaMeta {
            filename,
            mime_type: mime_for_ext(ext.as_str()),
            size,
            duration_secs,
            dims,
            kind: MediaKind::Video,
            title: None,
            description: None,
        }
    }
}

} // verus!
