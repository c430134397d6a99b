//! The Astra backend's answer, and the choice of what to download from it.

use vstd::prelude::*;
use vstd::string::StringSliceAdditionalSpecFns;

use crate::text::{
    char_alphanumeric, chars_of, contains_str, digits_in, digits_of, digits_value, is_alphanumeric, is_digit,
    parse_digits, seq_contains, str_lowercase, string_of, substring, to_lowercase,
};

verus! {

/// The text `lit` occurs in the UTF-8 bytes of `s`.
pub open spec fn text_has(s: Seq<char>, lit: &str) -> bool {
    seq_contains(vstd::utf8::encode_utf8(s), lit.spec_bytes())
}

/// The score that one quality text gives: its digits as a number when they
/// form one that fits in `u32`, else a score from quality words.
pub open spec fn score_spec(s: Seq<char>) -> Option<u32> {
    let ds = digits_of(s);
    let lower = str_lowercase(s);
    if ds.len() > 0 && digits_value(ds) <= u32::MAX {
        Some(digits_value(ds) as u32)
    } else if text_has(lower, "hd") || text_has(lower, "high") || text_has(lower, "original") {
        Some(1080u32)
    } else if text_has(lower, "medium") {
        Some(720u32)
    } else if text_has(lower, "sd") || text_has(lower, "low") {
        Some(360u32)
    } else {
        None
    }
}

/// The score of a download: that of its quality text, else that of its label,
/// else 0.
pub open spec fn parse_quality_spec(quality: Seq<char>, label: Seq<char>) -> u32 {
    match score_spec(quality) {
        Some(n) => n,
        None => match score_spec(label) {
            Some(n) => n,
            None => 0,
        },
    }
}

fn has_text(s: &String, lit: &str) -> (r: bool)
    ensures
        r == text_has(s@, lit),
{
    contains_str(s.as_str(), lit)
}

fn score(s: &str) -> (r: Option<u32>)
    ensures
        r == score_spec(s@),
{
    let ds = digits_in(s);
    proof {
        assert forall|i: int| 0 <= i < ds@.len() implies is_digit(#[trigger] ds@[i]) by {
            assert(digits_of(s@).contains(ds@[i]));
        }
    }
    if ds.len() > 0 {
        if let Some(n) = parse_digits(&ds, 0xffff_ffff) {
            return Some(n as u32);
        }
    }
    let lower = to_lowercase(s);
    if has_text(&lower, "hd") || has_text(&lower, "high") || has_text(&lower, "original") {
        Some(1080)
    } else if has_text(&lower, "medium") {
        Some(720)
    } else if has_text(&lower, "sd") || has_text(&lower, "low") {
        Some(360)
    } else {
        None
    }
}

/// Ranks a download by its quality text, falling back to its label: a number
/// in the text (its digits), else 1080 for "hd"/"high"/"original", 720 for
/// "medium", 360 for "sd"/"low"; 0 when neither text gives a score.
pub fn parse_quality(quality: &str, label: &str) -> (r: u32)
    ensures
        r == parse_quality_spec(quality@, label@),
{
    match score(quality) {
        Some(n) => n,
        None => match score(label) {
            Some(n) => n,
            None => 0,
        },
    }
}

/// The character that stands for `c` in a file name.
pub open spec fn filename_char(c: char) -> char {
    if char_alphanumeric(c) || c == '_' || c == '-' {
        c
    } else {
        '_'
    }
}

/// `s` without its leading underscores.
pub open spec fn trim_start_underscores(s: Seq<char>) -> Seq<char>
    decreases s.len(),
{
    if s.len() > 0 && s[0] == '_' {
        trim_start_underscores(s.drop_first())
    } else {
        s
    }
}

/// `s` without its trailing underscores.
pub open spec fn trim_end_underscores(s: Seq<char>) -> Seq<char>
    decreases s.len(),
{
    if s.len() > 0 && s.last() == '_' {
        trim_end_underscores(s.drop_last())
    } else {
        s
    }
}

/// A file name made from a title: every character that is not alphanumeric,
/// `_` or `-` becomes `_`, underscores are trimmed from both ends, and an
/// empty result gives way to `default`.
pub open spec fn sanitize_filename_spec(title: Seq<char>, default: Seq<char>) -> Seq<char> {
    let clean = trim_end_underscores(trim_start_underscores(title.map_values(|c: char| filename_char(c))));
    if clean.len() == 0 {
        default
    } else {
        clean
    }
}

/// A character that may stand in a file name made from a title.
pub open spec fn name_safe(c: char) -> bool {
    char_alphanumeric(c) || c == '_' || c == '-'
}

proof fn lemma_trim_start_underscores(s: Seq<char>)
    ensures
        exists|k: int| 0 <= k <= s.len() && trim_start_underscores(s) == #[trigger] s.skip(k),
        trim_start_underscores(s).len() > 0 ==> trim_start_underscores(s)[0] != '_',
    decreases s.len(),
{
    if s.len() > 0 && s[0] == '_' {
        lemma_trim_start_underscores(s.drop_first());
        let k = choose|k: int| 0 <= k <= s.drop_first().len() && trim_start_underscores(s.drop_first()) == #[trigger] s.drop_first().skip(k);
        assert(s.drop_first().skip(k) =~= s.skip(k + 1));
    } else {
        assert(s.skip(0) =~= s);
    }
}

proof fn lemma_trim_end_underscores(s: Seq<char>)
    ensures
        exists|k: int| 0 <= k <= s.len() && trim_end_underscores(s) == #[trigger] s.take(k),
        trim_end_underscores(s).len() > 0 ==> trim_end_underscores(s).last() != '_',
    decreases s.len(),
{
    if s.len() > 0 && s.last() == '_' {
        lemma_trim_end_underscores(s.drop_last());
        let k = choose|k: int| 0 <= k <= s.drop_last().len() && trim_end_underscores(s.drop_last()) == #[trigger] s.drop_last().take(k);
        assert(s.drop_last().take(k) =~= s.take(k));
    } else {
        assert(s.take(s.len() as int) =~= s);
    }
}

/// A file name made from a title is the fallback, or a non-empty run of
/// letters, digits, `_` and `-` that neither starts nor ends with `_`.
pub proof fn law_sanitized_name(title: Seq<char>, default: Seq<char>)
    ensures
        sanitize_filename_spec(title, default) == default || {
            let r = sanitize_filename_spec(title, default);
            &&& r.len() > 0
            &&& r[0] != '_'
            &&& r.last() != '_'
            &&& forall|i: int| 0 <= i < r.len() ==> name_safe(#[trigger] r[i])
        },
{
    let m = title.map_values(|c: char| filename_char(c));
    let a = trim_start_underscores(m);
    let clean = trim_end_underscores(a);
    if clean.len() > 0 {
        lemma_trim_start_underscores(m);
        lemma_trim_end_underscores(a);
        let k1 = choose|k: int| 0 <= k <= m.len() && a == #[trigger] m.skip(k);
        let k2 = choose|k: int| 0 <= k <= a.len() && clean == #[trigger] a.take(k);
        assert(clean[0] == a[0]);
        assert forall|i: int| 0 <= i < clean.len() implies name_safe(#[trigger] clean[i]) by {
            assert(clean[i] == m[k1 + i]);
            assert(m[k1 + i] == filename_char(title[k1 + i]));
        }
    }
}

/// Turns a title into a safe file name (see `sanitize_filename_spec`).
pub fn sanitize_filename(title: &str, default: &str) -> (r: String)
    ensures
        r@ == sanitize_filename_spec(title@, default@),
{
    let cs = chars_of(title);
    let mut mapped: Vec<char> = Vec::new();
    let mut i: usize = 0;
    while i < cs.len()
        invariant
            cs@ == title@,
            i <= cs@.len(),
            mapped@ == cs@.take(i as int).map_values(|c: char| filename_char(c)),
        decreases cs@.len() - i,
    {
        let c = cs[i];
        let keep = is_alphanumeric(c) || c == '_' || c == '-';
        mapped.push(if keep { c } else { '_' });
        i = i + 1;
        assert(mapped@ =~= cs@.take(i as int).map_values(|c: char| filename_char(c)));
    }
    assert(cs@.take(cs@.len() as int) =~= cs@);
    let ghost m = mapped@;
    let n = mapped.len();
    let mut a: usize = 0;
    assert(m.skip(0) =~= m);
    while a < n && mapped[a] == '_'
        invariant
            n == m.len(),
            mapped@ == m,
            a <= n,
            trim_start_underscores(m) == trim_start_underscores(m.skip(a as int)),
        decreases n - a,
    {
        assert(m.skip(a as int).drop_first() =~= m.skip(a + 1));
        a = a + 1;
    }
    assert(trim_start_underscores(m) == m.skip(a as int));
    let mut b: usize = n;
    while b > a && mapped[b - 1] == '_'
        invariant
            n == m.len(),
            mapped@ == m,
            a <= b <= n,
            trim_end_underscores(m.skip(a as int)) == trim_end_underscores(m.subrange(a as int, b as int)),
        decreases b,
    {
        assert(m.subrange(a as int, b as int).drop_last() =~= m.subrange(a as int, b - 1));
        b = b - 1;
    }
    assert(m.skip(a as int) =~= m.subrange(a as int, n as int));
    let mut out: Vec<char> = Vec::new();
    let mut k: usize = a;
    while k < b
        invariant
            mapped@ == m,
            a <= k <= b <= n == m.len(),
            out@ == m.subrange(a as int, k as int),
        decreases b - k,
    {
        out.push(mapped[k]);
        k = k + 1;
        assert(out@ =~= m.subrange(a as int, k as int));
    }
    if out.len() == 0 {
        default.to_owned()
    } else {
        string_of(&out)
    }
}

} // verus!

verus! {

/// A character that separates width from height.
pub open spec fn is_dim_sep(c: char) -> bool {
    c == 'x' || c == 'X' || c == '*'
}

/// `k` is the only separator position of `s`.
pub open spec fn single_sep_at(s: Seq<char>, k: int) -> bool {
    &&& 0 <= k < s.len()
    &&& is_dim_sep(s[k])
    &&& forall|j: int| 0 <= j < s.len() && j != k ==> !is_dim_sep(#[trigger] s[j])
}

/// The digits of `s` read as `str::parse::<i32>` reads them.
pub open spec fn parse_i32_spec(s: Seq<char>) -> Option<i32> {
    let ds = digits_of(s);
    if ds.len() > 0 && digits_value(ds) <= i32::MAX {
        Some(digits_value(ds) as i32)
    } else {
        None
    }
}

/// "W x H": the text splits into exactly two parts at its separators and both
/// parts hold a number.
pub open spec fn width_height_spec(s: Seq<char>) -> Option<(i32, i32)> {
    if exists|k: int| single_sep_at(s, k) {
        let k = choose|k: int| single_sep_at(s, k);
        match (parse_i32_spec(s.take(k)), parse_i32_spec(s.skip(k + 1))) {
            (Some(w), Some(h)) => Some((w, h)),
            _ => None,
        }
    } else {
        None
    }
}

/// The frame size of a standard resolution, in portrait or landscape.
pub open spec fn standard_dims(n: int, vertical: bool) -> Option<(i32, i32)> {
    let (a, b) = if n == 1080 {
        (1080i32, 1920i32)
    } else if n == 720 {
        (720i32, 1280i32)
    } else if n == 480 {
        (480i32, 854i32)
    } else if n == 360 {
        (360i32, 640i32)
    } else if n == 240 {
        (240i32, 426i32)
    } else {
        (144i32, 256i32)
    };
    if n == 1080 || n == 720 || n == 480 || n == 360 || n == 240 || n == 144 {
        if vertical {
            Some((a, b))
        } else {
            Some((b, a))
        }
    } else {
        None
    }
}

/// A single resolution number in the text.
pub open spec fn single_dims_spec(s: Seq<char>, vertical: bool) -> Option<(i32, i32)> {
    match parse_i32_spec(s) {
        Some(n) => standard_dims(n as int, vertical),
        None => None,
    }
}

/// The frame size that the quality text or the label states: "W x H" in the
/// quality, then in the label, then a standard resolution number in either.
pub open spec fn parse_dimensions_spec(quality: Seq<char>, label: Seq<char>, vertical: bool) -> Option<(i32, i32)> {
    if width_height_spec(quality) is Some {
        width_height_spec(quality)
    } else if width_height_spec(label) is Some {
        width_height_spec(label)
    } else if single_dims_spec(quality, vertical) is Some {
        single_dims_spec(quality, vertical)
    } else {
        single_dims_spec(label, vertical)
    }
}

fn parse_i32_text(s: &str) -> (r: Option<i32>)
    ensures
        r == parse_i32_spec(s@),
{
    let ds = digits_in(s);
    proof {
        assert forall|i: int| 0 <= i < ds@.len() implies is_digit(#[trigger] ds@[i]) by {
            assert(digits_of(s@).contains(ds@[i]));
        }
    }
    match parse_digits(&ds, 0x7fff_ffff) {
        Some(n) => Some(n as i32),
        None => None,
    }
}

fn width_height(s: &str) -> (r: Option<(i32, i32)>)
    ensures
        r == width_height_spec(s@),
{
    let cs = chars_of(s);
    let mut count: usize = 0;
    let mut first: usize = 0;
    let mut i: usize = 0;
    while i < cs.len()
        invariant
            cs@ == s@,
            i <= cs@.len(),
            count <= i,
            count == 0 ==> forall|j: int| 0 <= j < i ==> !is_dim_sep(#[trigger] cs@[j]),
            count >= 1 ==> first < i && is_dim_sep(cs@[first as int]),
            count == 1 ==> forall|j: int| 0 <= j < i && j != first ==> !is_dim_sep(#[trigger] cs@[j]),
            count >= 2 ==> exists|j: int| 0 <= j < i && j != first && is_dim_sep(#[trigger] cs@[j]),
        decreases cs@.len() - i,
    {
        let c = cs[i];
        if c == 'x' || c == 'X' || c == '*' {
            if count == 0 {
                first = i;
            }
            count = count + 1;
        }
        i = i + 1;
    }
    if count != 1 {
        proof {
            if exists|k: int| single_sep_at(s@, k) {
                let k = choose|k: int| single_sep_at(s@, k);
                if count >= 2 {
                    let j = choose|j: int| 0 <= j < cs@.len() && j != first && is_dim_sep(#[trigger] cs@[j]);
                    assert(j == k || first == k);
                }
            }
        }
        return None;
    }
    proof {
        assert(single_sep_at(s@, first as int));
        let k = choose|k: int| single_sep_at(s@, k);
        assert(k == first);
    }
    let left = substring(&cs, 0, first);
    let right = substring(&cs, first + 1, cs.len());
    assert(cs@.subrange(0, first as int) =~= s@.take(first as int));
    assert(cs@.subrange(first + 1, cs@.len() as int) =~= s@.skip(first + 1));
    match (parse_i32_text(left.as_str()), parse_i32_text(right.as_str())) {
        (Some(w), Some(h)) => Some((w, h)),
        _ => None,
    }
}

fn single_dims(s: &str, vertical: bool) -> (r: Option<(i32, i32)>)
    ensures
        r == single_dims_spec(s@, vertical),
{
    match parse_i32_text(s) {
        None => None,
        Some(n) => {
            let (a, b): (i32, i32) = if n == 1080 {
                (1080, 1920)
            } else if n == 720 {
                (720, 1280)
            } else if n == 480 {
                (480, 854)
            } else if n == 360 {
                (360, 640)
            } else if n == 240 {
                (240, 426)
            } else if n == 144 {
                (144, 256)
            } else {
                return None;
            };
            if vertical {
                Some((a, b))
            } else {
                Some((b, a))
            }
        },
    }
}

/// Reads a frame size from a download's quality text or label (see
/// `parse_dimensions_spec`).
pub fn parse_dimensions(quality: &str, label: &str, is_vertical: bool) -> (r: Option<(i32, i32)>)
    ensures
        r == parse_dimensions_spec(quality@, label@, is_vertical),
{
    if let Some(d) = width_height(quality) {
        return Some(d);
    }
    if let Some(d) = width_height(label) {
        return Some(d);
    }
    match single_dims(quality, is_vertical) {
        Some(d) => Some(d),
        None => single_dims(label, is_vertical),
    }
}

} // verus!

verus! {

/// The kind of one entry of the backend's download list.
#[derive(Debug, Clone, Copy, PartialEq, Eq, Structural)]
pub enum AstraMediaType {
    Video,
    Audio,
    Image,
    Slide,
}

/// One entry of the backend's download list.
#[derive(Debug)]
pub struct AstraDownloadItem {
    pub label: Option<String>,
    pub url: String,
    pub media_type: AstraMediaType,
    pub quality: Option<String>,
}

/// One alternative rendition of a photo.
#[derive(Debug)]
pub struct AstraPhotoVariant {
    pub url: String,
}

/// One photo of a carousel.
#[derive(Debug)]
pub struct AstraPhotoItem {
    pub url: Option<String>,
    pub variants: Option<Vec<AstraPhotoVariant>>,
}

/// One video of a carousel.
#[derive(Debug)]
pub struct AstraVideoItem {
    pub url: String,
}

/// The payload of a successful backend answer.
#[derive(Debug)]
pub struct AstraData {
    pub title: Option<String>,
    pub caption: Option<String>,
    pub downloads: Option<Vec<AstraDownloadItem>>,
    pub photos: Option<Vec<AstraPhotoItem>>,
    pub videos: Option<Vec<AstraVideoItem>>,
}

/// A backend answer.
#[derive(Debug)]
pub struct AstraResponse {
    pub success: bool,
    pub message: String,
    pub data: Option<AstraData>,
}

/// The address of a photo: its own, else that of its first variant.
pub open spec fn photo_url_spec(p: AstraPhotoItem) -> Option<Seq<char>> {
    match p.url {
        Some(u) => Some(u@),
        None => match p.variants {
            Some(vs) => if vs@.len() > 0 {
                Some(vs@[0].url@)
            } else {
                None
            },
            None => None,
        },
    }
}

/// A copy of an optional text.
pub fn clone_opt(o: &Option<String>) -> (r: Option<String>)
    ensures
        r.deep_view() == o.deep_view(),
{
    match o {
        Some(s) => Some(s.clone()),
        None => None,
    }
}

impl AstraPhotoItem {
    /// The address of this photo: its own, else that of its first variant.
    pub fn get_url(&self) -> (r: Option<String>)
        ensures
            r.deep_view() == photo_url_spec(*self),
    {
        if let Some(u) = &self.url {
            return Some(u.clone());
        }
        match &self.variants {
            Some(vs) => if vs.len() > 0 {
                Some(vs[0].url.clone())
            } else {
                None
            },
            None => None,
        }
    }
}

} // verus!
