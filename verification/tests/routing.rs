use nautilus::endpoint::{AstraEndpoint, RouteError};

#[test]
fn test_youtube_routing() {
    let urls = [
        "https://youtube.com/watch?v=123",
        "https://www.youtube.com/watch?v=123",
        "https://youtu.be/123",
        "https://yewtu.be/watch?v=123",
        "https://inv.nadeko.net/watch?v=123",
    ];
    for u in urls {
        assert_eq!(AstraEndpoint::try_from_url(u).unwrap(), AstraEndpoint::YoutubeDownload);
    }
}

#[test]
fn test_tiktok_routing() {
    assert_eq!(
        AstraEndpoint::try_from_url("https://www.tiktok.com/@user/video/123").unwrap(),
        AstraEndpoint::TiktokDownload
    );
    assert_eq!(
        AstraEndpoint::try_from_url("https://www.tiktok.com/music/some-track-123").unwrap(),
        AstraEndpoint::TiktokMusic
    );
    assert_eq!(
        AstraEndpoint::try_from_url("https://www.tiktok.com/@username").unwrap(),
        AstraEndpoint::TiktokProfile
    );
}

#[test]
fn test_twitter_x_routing() {
    let urls = [
        "https://twitter.com/status/123",
        "https://x.com/status/123",
        "https://t.co/status/123",
        "https://sub.x.com/status/123",
    ];
    for u in urls {
        assert_eq!(AstraEndpoint::try_from_url(u).unwrap(), AstraEndpoint::TwitterDownload);
    }
    assert_eq!(
        AstraEndpoint::try_from_url("https://reddit.com/r/something").unwrap(),
        AstraEndpoint::RedditDownload
    );
}

#[test]
fn test_instagram_routing() {
    assert_eq!(
        AstraEndpoint::try_from_url("https://www.instagram.com/p/123").unwrap(),
        AstraEndpoint::InstagramDownload
    );
    assert_eq!(
        AstraEndpoint::try_from_url("https://www.instagram.com/stories/user/123").unwrap(),
        AstraEndpoint::InstagramStories
    );
    assert_eq!(
        AstraEndpoint::try_from_url("https://www.instagram.com/username").unwrap(),
        AstraEndpoint::InstagramProfile
    );
}

#[test]
fn routing_errors() {
    assert_eq!(AstraEndpoint::try_from_url("not a url"), Err(RouteError::InvalidUrl));
    assert_eq!(
        AstraEndpoint::try_from_url("https://example.org/video"),
        Err(RouteError::UnsupportedDomain("example.org".to_string()))
    );
    assert_eq!(AstraEndpoint::try_from_url("mailto:someone"), Err(RouteError::NoHost));
}

#[test]
fn routing_is_case_blind_on_hosts() {
    assert_eq!(
        AstraEndpoint::try_from_url("https://WWW.YouTube.COM/watch?v=1").unwrap(),
        AstraEndpoint::YoutubeDownload
    );
    assert!(AstraEndpoint::can_handle("https://vm.tiktok.com/abc"));
    assert!(!AstraEndpoint::can_handle("https://example.org/"));
}

#[test]
fn endpoint_paths_and_platforms() {
    assert_eq!(AstraEndpoint::YoutubeDownload.path(), "/api/youtube/download");
    assert_eq!(AstraEndpoint::YoutubeDownload.platform(), "youtube");
    assert_eq!(AstraEndpoint::InstagramStories.path(), "/api/meta/instagram/stories");
}

#[test]
fn request_url_carries_link_as_parameter() {
    let u = nautilus::endpoint::request_url("http://localhost:3000", AstraEndpoint::YoutubeDownload, "https://youtu.be/x")
        .unwrap();
    assert_eq!(u, "http://localhost:3000/api/youtube/download?url=https%3A%2F%2Fyoutu.be%2Fx");
    assert_eq!(nautilus::endpoint::request_url("no base", AstraEndpoint::YoutubeDownload, "x"), None);
}
