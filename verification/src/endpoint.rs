//! Routing of a media link to the Astra backend endpoint that serves it.

use vstd::prelude::*;
use vstd::string::StringSliceAdditionalSpecFns;

use crate::text::{
    contains_ci, contains_ci_bytes, ends_with_ci, ends_with_ci_bytes, eq_ci_bytes, eq_ignore_ascii_case,
};
use crate::weburl::{parse_url, url_host, url_parses, url_path, url_with_path_and_pair, url_with_path_param};

verus! {

/// One download endpoint of the Astra backend.
#[derive(Debug, Clone, Copy, PartialEq, Eq, Structural)]
pub enum AstraEndpoint {
    YoutubeDownload,
    TiktokDownload,
    TiktokMusic,
    TiktokProfile,
    TwitterDownload,
    InstagramDownload,
    InstagramStories,
    InstagramProfile,
    FacebookDownload,
    ThreadsDownload,
    RedditDownload,
    PinterestDownload,
    TeraboxDownload,
    SpotifyDownload,
    SoundcloudDownload,
    CapcutDownload,
    LinkedinDownload,
}

/// Why a link could not be routed to an endpoint.
#[derive(Debug, PartialEq, Eq)]
pub enum RouteError {
    /// The text is not a URL.
    InvalidUrl,
    /// The URL has no host.
    NoHost,
    /// The host is not served by any endpoint; the host is kept.
    UnsupportedDomain(String),
}

/// The API path of each endpoint.
pub open spec fn endpoint_path(e: AstraEndpoint) -> Seq<char> {
    match e {
        AstraEndpoint::YoutubeDownload => "/api/youtube/download"@,
        AstraEndpoint::TiktokDownload => "/api/tiktok/download"@,
        AstraEndpoint::TiktokMusic => "/api/tiktok/music"@,
        AstraEndpoint::TiktokProfile => "/api/tiktok/profile"@,
        AstraEndpoint::TwitterDownload => "/api/twitter/download"@,
        AstraEndpoint::InstagramDownload => "/api/meta/instagram/download"@,
        AstraEndpoint::InstagramStories => "/api/meta/instagram/stories"@,
        AstraEndpoint::InstagramProfile => "/api/meta/instagram/profile"@,
        AstraEndpoint::FacebookDownload => "/api/meta/facebook/download"@,
        AstraEndpoint::ThreadsDownload => "/api/meta/threads/download"@,
        AstraEndpoint::RedditDownload => "/api/reddit/download"@,
        AstraEndpoint::PinterestDownload => "/api/pinterest/download"@,
        AstraEndpoint::TeraboxDownload => "/api/terabox/download"@,
        AstraEndpoint::SpotifyDownload => "/api/spotify/download"@,
        AstraEndpoint::SoundcloudDownload => "/api/soundcloud/download"@,
        AstraEndpoint::CapcutDownload => "/api/capcut/download"@,
        AstraEndpoint::LinkedinDownload => "/api/linkedin/download"@,
    }
}

/// The platform name of each endpoint.
pub open spec fn endpoint_platform(e: AstraEndpoint) -> Seq<char> {
    match e {
        AstraEndpoint::YoutubeDownload => "youtube"@,
        AstraEndpoint::TiktokDownload => "tiktok"@,
        AstraEndpoint::TiktokMusic => "tiktok_music"@,
        AstraEndpoint::TiktokProfile => "tiktok_profile"@,
        AstraEndpoint::TwitterDownload => "twitter"@,
        AstraEndpoint::InstagramDownload => "instagram"@,
        AstraEndpoint::InstagramStories => "instagram_stories"@,
        AstraEndpoint::InstagramProfile => "instagram_profile"@,
        AstraEndpoint::FacebookDownload => "facebook"@,
        AstraEndpoint::ThreadsDownload => "threads"@,
        AstraEndpoint::RedditDownload => "reddit"@,
        AstraEndpoint::PinterestDownload => "pinterest"@,
        AstraEndpoint::TeraboxDownload => "terabox"@,
        AstraEndpoint::SpotifyDownload => "spotify"@,
        AstraEndpoint::SoundcloudDownload => "soundcloud"@,
        AstraEndpoint::CapcutDownload => "capcut"@,
        AstraEndpoint::LinkedinDownload => "linkedin"@,
    }
}

impl AstraEndpoint {
    /// The API path that serves this endpoint.
    pub fn path(&self) -> (r: &'static str)
        ensures
            r@ == endpoint_path(*self),
    {
        match self {
            AstraEndpoint::YoutubeDownload => "/api/youtube/download",
            AstraEndpoint::TiktokDownload => "/api/tiktok/download",
            AstraEndpoint::TiktokMusic => "/api/tiktok/music",
            AstraEndpoint::TiktokProfile => "/api/tiktok/profile",
            AstraEndpoint::TwitterDownload => "/api/twitter/download",
            AstraEndpoint::InstagramDownload => "/api/meta/instagram/download",
            AstraEndpoint::InstagramStories => "/api/meta/instagram/stories",
            AstraEndpoint::InstagramProfile => "/api/meta/instagram/profile",
            AstraEndpoint::FacebookDownload => "/api/meta/facebook/download",
            AstraEndpoint::ThreadsDownload => "/api/meta/threads/download",
            AstraEndpoint::RedditDownload => "/api/reddit/download",
            AstraEndpoint::PinterestDownload => "/api/pinterest/download",
            AstraEndpoint::TeraboxDownload => "/api/terabox/download",
            AstraEndpoint::SpotifyDownload => "/api/spotify/download",
            AstraEndpoint::SoundcloudDownload => "/api/soundcloud/download",
            AstraEndpoint::CapcutDownload => "/api/capcut/download",
            AstraEndpoint::LinkedinDownload => "/api/linkedin/download",
        }
    }

    /// The platform name of this endpoint.
    pub fn platform(&self) -> (r: &'static str)
        ensures
            r@ == endpoint_platform(*self),
    {
        match self {
            AstraEndpoint::YoutubeDownload => "youtube",
            AstraEndpoint::TiktokDownload => "tiktok",
            AstraEndpoint::TiktokMusic => "tiktok_music",
            AstraEndpoint::TiktokProfile => "tiktok_profile",
            AstraEndpoint::TwitterDownload => "twitter",
            AstraEndpoint::InstagramDownload => "instagram",
            AstraEndpoint::InstagramStories => "instagram_stories",
            AstraEndpoint::InstagramProfile => "instagram_profile",
            AstraEndpoint::FacebookDownload => "facebook",
            AstraEndpoint::ThreadsDownload => "threads",
            AstraEndpoint::RedditDownload => "reddit",
            AstraEndpoint::PinterestDownload => "pinterest",
            AstraEndpoint::TeraboxDownload => "terabox",
            AstraEndpoint::SpotifyDownload => "spotify",
            AstraEndpoint::SoundcloudDownload => "soundcloud",
            AstraEndpoint::CapcutDownload => "capcut",
            AstraEndpoint::LinkedinDownload => "linkedin",
        }
    }
}

/// `h` holds the ASCII text `lit`, ignoring case.
pub open spec fn has_ci(h: Seq<u8>, lit: &str) -> bool {
    contains_ci_bytes(h, lit.spec_bytes())
}

/// `h` ends with the ASCII text `lit`, ignoring case.
pub open spec fn ends_ci(h: Seq<u8>, lit: &str) -> bool {
    ends_with_ci_bytes(h, lit.spec_bytes())
}

/// `h` is the ASCII text `lit`, ignoring case.
pub open spec fn is_ci(h: Seq<u8>, lit: &str) -> bool {
    eq_ci_bytes(h, lit.spec_bytes())
}

/// The bytes of a path after its leading `/`, when it has one.
pub open spec fn is_profile_segment(seg: Seq<u8>) -> bool {
    &&& seg.len() > 0
    &&& seg != "p".spec_bytes()
    &&& seg != "reel".spec_bytes()
    &&& seg != "reels".spec_bytes()
    &&& seg != "tv".spec_bytes()
    &&& seg != "stories".spec_bytes()
}

/// An Instagram path that names a profile: exactly one path segment, which is
/// not one of the reserved post kinds.
pub open spec fn instagram_profile_path(path: Seq<u8>) -> bool {
    &&& path.len() >= 1
    &&& path[0] == 47u8
    &&& !path.skip(1).contains(47u8)
    &&& is_profile_segment(path.skip(1))
}

pub open spec fn is_youtube_host(h: Seq<u8>) -> bool {
    has_ci(h, "youtube.com") || has_ci(h, "youtu.be") || has_ci(h, "yewtu.be") || has_ci(h, "inv.nadeko.net")
}

pub open spec fn is_twitter_host(h: Seq<u8>) -> bool {
    is_ci(h, "twitter.com") || ends_ci(h, ".twitter.com") || is_ci(h, "x.com") || ends_ci(h, ".x.com")
        || is_ci(h, "t.co") || ends_ci(h, ".t.co")
}

pub open spec fn is_instagram_host(h: Seq<u8>) -> bool {
    has_ci(h, "instagram.com") || has_ci(h, "instagr.am")
}

pub open spec fn is_terabox_host(h: Seq<u8>) -> bool {
    has_ci(h, "terabox.com") || has_ci(h, "nephobox.com") || has_ci(h, "dubox.com") || has_ci(h, "teraboxapp.com")
        || has_ci(h, "1024terabox.com") || has_ci(h, "terabox.app") || has_ci(h, "terabox.link")
}

/// The endpoint that serves a URL with the given host and path bytes; the
/// first rule that applies wins.
pub open spec fn route_spec(h: Seq<u8>, p: Seq<u8>) -> Option<AstraEndpoint> {
    if is_youtube_host(h) {
        Some(AstraEndpoint::YoutubeDownload)
    } else if has_ci(h, "tiktok.com") && has_ci(p, "/music/") {
        Some(AstraEndpoint::TiktokMusic)
    } else if has_ci(h, "tiktok.com") && has_ci(p, "/@") && !has_ci(p, "/video/") && !has_ci(p, "/photo/") {
        Some(AstraEndpoint::TiktokProfile)
    } else if has_ci(h, "tiktok.com") {
        Some(AstraEndpoint::TiktokDownload)
    } else if is_twitter_host(h) {
        Some(AstraEndpoint::TwitterDownload)
    } else if is_instagram_host(h) && (has_ci(p, "/stories/") || has_ci(p, "/story/")) {
        Some(AstraEndpoint::InstagramStories)
    } else if is_instagram_host(h) && instagram_profile_path(p) {
        Some(AstraEndpoint::InstagramProfile)
    } else if is_instagram_host(h) {
        Some(AstraEndpoint::InstagramDownload)
    } else if has_ci(h, "facebook.com") || has_ci(h, "fb.watch") || has_ci(h, "fb.com") {
        Some(AstraEndpoint::FacebookDownload)
    } else if has_ci(h, "threads.net") {
        Some(AstraEndpoint::ThreadsDownload)
    } else if has_ci(h, "reddit.com") || has_ci(h, "redd.it") {
        Some(AstraEndpoint::RedditDownload)
    } else if has_ci(h, "pinterest.com") || has_ci(h, "pin.it") {
        Some(AstraEndpoint::PinterestDownload)
    } else if is_terabox_host(h) {
        Some(AstraEndpoint::TeraboxDownload)
    } else if has_ci(h, "spotify.com") {
        Some(AstraEndpoint::SpotifyDownload)
    } else if has_ci(h, "soundcloud.com") {
        Some(AstraEndpoint::SoundcloudDownload)
    } else if has_ci(h, "capcut.com") {
        Some(AstraEndpoint::CapcutDownload)
    } else if has_ci(h, "linkedin.com") {
        Some(AstraEndpoint::LinkedinDownload)
    } else {
        None
    }
}

fn bytes_eq(a: &[u8], b: &str) -> (r: bool)
    ensures
        r == (a@ == b.spec_bytes()),
{
    let bb = b.as_bytes();
    if a.len() != bb.len() {
        return false;
    }
    let mut i: usize = 0;
    while i < a.len()
        invariant
            bb@ == b.spec_bytes(),
            a@.len() == bb@.len(),
            i <= a@.len(),
            forall|k: int| 0 <= k < i ==> a@[k] == bb@[k],
        decreases a@.len() - i,
    {
        if a[i] != bb[i] {
            return false;
        }
        i = i + 1;
    }
    assert(a@ =~= bb@);
    true
}

/// Whether an Instagram URL path names a profile (one segment that is not a
/// post, reel, TV or stories segment).
pub fn instagram_is_profile_path(path: &str) -> (r: bool)
    ensures
        r == instagram_profile_path(path.spec_bytes()),
{
    let pb = path.as_bytes();
    if pb.len() == 0 || pb[0] != 47u8 {
        return false;
    }
    let mut seg: Vec<u8> = Vec::new();
    let mut i: usize = 1;
    while i < pb.len()
        invariant
            pb@ == path.spec_bytes(),
            1 <= i <= pb@.len(),
            pb@[0] == 47u8,
            seg@ == pb@.subrange(1, i as int),
            !seg@.contains(47u8),
        decreases pb@.len() - i,
    {
        if pb[i] == 47u8 {
            assert(pb@.skip(1)[i - 1] == 47u8);
            return false;
        }
        seg.push(pb[i]);
        i = i + 1;
    }
    assert(seg@ =~= pb@.skip(1));
    let s = seg.as_slice();
    s.len() > 0 && !bytes_eq(s, "p") && !bytes_eq(s, "reel") && !bytes_eq(s, "reels")
        && !bytes_eq(s, "tv") && !bytes_eq(s, "stories")
}

/// Routes a URL, given by its host and path, to the endpoint that serves it.
pub fn route_host_path(h: &str, p: &str) -> (r: Option<AstraEndpoint>)
    ensures
        r == route_spec(h.spec_bytes(), p.spec_bytes()),
{
    if contains_ci(h, "youtube.com") || contains_ci(h, "youtu.be") || contains_ci(h, "yewtu.be")
        || contains_ci(h, "inv.nadeko.net") {
        Some(AstraEndpoint::YoutubeDownload)
    } else if contains_ci(h, "tiktok.com") && contains_ci(p, "/music/") {
        Some(AstraEndpoint::TiktokMusic)
    } else if contains_ci(h, "tiktok.com") && contains_ci(p, "/@") && !contains_ci(p, "/video/")
        && !contains_ci(p, "/photo/") {
        Some(AstraEndpoint::TiktokProfile)
    } else if contains_ci(h, "tiktok.com") {
        Some(AstraEndpoint::TiktokDownload)
    } else if eq_ignore_ascii_case(h, "twitter.com") || ends_with_ci(h, ".twitter.com")
        || eq_ignore_ascii_case(h, "x.com") || ends_with_ci(h, ".x.com")
        || eq_ignore_ascii_case(h, "t.co") || ends_with_ci(h, ".t.co") {
        Some(AstraEndpoint::TwitterDownload)
    } else if (contains_ci(h, "instagram.com") || contains_ci(h, "instagr.am")) && (contains_ci(
        p,
        "/stories/",
    ) || contains_ci(p, "/story/")) {
        Some(AstraEndpoint::InstagramStories)
    } else if (contains_ci(h, "instagram.com") || contains_ci(h, "instagr.am"))
        && instagram_is_profile_path(p) {
        Some(AstraEndpoint::InstagramProfile)
    } else if contains_ci(h, "instagram.com") || contains_ci(h, "instagr.am") {
        Some(AstraEndpoint::InstagramDownload)
    } else if contains_ci(h, "facebook.com") || contains_ci(h, "fb.watch") || contains_ci(
        h,
        "fb.com",
    ) {
        Some(AstraEndpoint::FacebookDownload)
    } else if contains_ci(h, "threads.net") {
        Some(AstraEndpoint::ThreadsDownload)
    } else if contains_ci(h, "reddit.com") || contains_ci(h, "redd.it") {
        Some(AstraEndpoint::RedditDownload)
    } else if contains_ci(h, "pinterest.com") || contains_ci(h, "pin.it") {
        Some(AstraEndpoint::PinterestDownload)
    } else if contains_ci(h, "terabox.com") || contains_ci(h, "nephobox.com") || contains_ci(
        h,
        "dubox.com",
    ) || contains_ci(h, "teraboxapp.com") || contains_ci(h, "1024terabox.com") || contains_ci(
        h,
        "terabox.app",
    ) || contains_ci(h, "terabox.link") {
        Some(AstraEndpoint::TeraboxDownload)
    } else if contains_ci(h, "spotify.com") {
        Some(AstraEndpoint::SpotifyDownload)
    } else if contains_ci(h, "soundcloud.com") {
        Some(AstraEndpoint::SoundcloudDownload)
    } else if contains_ci(h, "capcut.com") {
        Some(AstraEndpoint::CapcutDownload)
    } else if contains_ci(h, "linkedin.com") {
        Some(AstraEndpoint::LinkedinDownload)
    } else {
        None
    }
}

impl AstraEndpoint {
    /// Routes a link to the endpoint that serves it, by the host and path that
    /// the URL parser finds in it.
    pub fn try_from_url(url: &str) -> (r: Result<AstraEndpoint, RouteError>)
        ensures
            !url_parses(url@) <==> r == Err::<AstraEndpoint, RouteError>(RouteError::InvalidUrl),
            url_parses(url@) ==> match url_host(url@) {
                None => r == Err::<AstraEndpoint, RouteError>(RouteError::NoHost),
                Some(h) => match route_spec(vstd::utf8::encode_utf8(h), vstd::utf8::encode_utf8(url_path(url@))) {
                    Some(e) => r == Ok::<AstraEndpoint, RouteError>(e),
                    None => r matches Err(RouteError::UnsupportedDomain(d)) && d@ == h,
                },
            },
    {
        match parse_url(url) {
            None => Err(RouteError::InvalidUrl),
            Some(parsed) => match parsed.host {
                None => Err(RouteError::NoHost),
                Some(host) => match route_host_path(host.as_str(), parsed.path.as_str()) {
                    Some(e) => Ok(e),
                    None => Err(RouteError::UnsupportedDomain(host)),
                },
            },
        }
    }

    /// Some endpoint serves the link.
    pub open spec fn can_handle_spec(url: Seq<char>) -> bool {
        url_parses(url) && url_host(url) is Some && route_spec(
            vstd::utf8::encode_utf8(url_host(url)->0),
            vstd::utf8::encode_utf8(url_path(url)),
        ) is Some
    }

    /// Whether some endpoint serves the link.
    pub fn can_handle(url: &str) -> (r: bool)
        ensures
            r == Self::can_handle_spec(url@),
    {
        Self::try_from_url(url).is_ok()
    }
}

/// The address of the backend request for a link: the backend's address
/// with the endpoint's path and the link as its `url` query parameter;
/// nothing when the backend's address does not parse.
pub fn request_url(api_url: &str, endpoint: AstraEndpoint, link: &str) -> (r: Option<String>)
    ensures
        r is Some <==> url_parses(api_url@),
        r matches Some(u) ==> u@ == url_with_path_and_pair(api_url@, endpoint_path(endpoint), "url"@, link@),
{
    url_with_path_param(api_url, endpoint.path(), "url", link)
}

/// A Reddit host (`reddit.com` or `redd.it` anywhere in it, in any case)
/// that no earlier platform claims (YouTube, TikTok, Twitter, Instagram,
/// Facebook, Threads) is served by the Reddit endpoint, whatever the path;
/// and only such hosts are.
pub proof fn law_reddit_hosts(h: Seq<u8>, p: Seq<u8>)
    ensures
        (contains_ci_bytes(h, "reddit.com".spec_bytes()) || contains_ci_bytes(h, "redd.it".spec_bytes()))
            && !is_youtube_host(h) && !has_ci(h, "tiktok.com") && !is_twitter_host(h) && !is_instagram_host(h)
            && !has_ci(h, "facebook.com") && !has_ci(h, "fb.watch") && !has_ci(h, "fb.com") && !has_ci(
            h,
            "threads.net",
        ) ==> route_spec(h, p) == Some(AstraEndpoint::RedditDownload),
        route_spec(h, p) == Some(AstraEndpoint::RedditDownload) ==> contains_ci_bytes(h, "reddit.com".spec_bytes())
            || contains_ci_bytes(h, "redd.it".spec_bytes()),
{
}

} // verus!
