use nautilus::extractors::{
    CapCutExtractor, LinkedInExtractor, PinterestExtractor, RedditExtractor, SoundCloudExtractor, SpotifyExtractor,
    TeraboxExtractor, ThreadsExtractor, TikTokExtractor, TwitterExtractor,
};
use nautilus::instagram::{
    csrf_token, extract_shortcode, ig_filename, ig_mime_kind, plan_post, shortcode_to_media_id, IgError, IgMedia,
    IgPost, InstagramExtractor, ShortcodeError,
};
use nautilus::media::MediaKind;
use nautilus::patterns::{replace_str, split_str};
use nautilus::reddit::{
    parse_download_link, parse_old_reddit_images, parse_rapidsave_html, post_id_from_url, title_from_url,
};
use nautilus::scrape::{extract_url_from_force, percent_decode, resolve_url, to_old_reddit_url};
use nautilus::sites::{
    audio_fetch, capcut_download_url, capcut_fetch, linkedin_fetch, old_reddit_plan, pinterest_download_url,
    pinterest_fetch, rapidsave_plan, soundcloud_source, terabox_download_url, terabox_fetch, terabox_nonce,
    threads_download_url, threads_fetch, tiktok_plan, twitter_fetch, twitter_page, CapCutAnswer, CapCutData,
    JsonField, RedditPlan, TeraboxBody, TikTokPost,
};
use nautilus::ytdlp::YtDlpProvider;

fn s(x: &str) -> String {
    x.to_string()
}

#[test]
fn resolve_url_cases() {
    assert_eq!(resolve_url("https://a.com/x", "https://b.com"), "https://a.com/x");
    assert_eq!(resolve_url("http://a.com/x", "https://b.com"), "http://a.com/x");
    assert_eq!(resolve_url("//cdn.b.com/i.jpg", "https://b.com"), "https://cdn.b.com/i.jpg");
    assert_eq!(resolve_url("/i.jpg", "https://b.com//"), "https://b.com/i.jpg");
    assert_eq!(resolve_url("cdn.b.com/i.jpg", "https://b.com"), "https://cdn.b.com/i.jpg");
    assert_eq!(resolve_url("not a.link", "https://b.com"), "not a.link");
    assert_eq!(resolve_url("plain", "https://b.com"), "plain");
}

#[test]
fn percent_decode_cases() {
    assert_eq!(percent_decode("a%20b"), "a b");
    assert_eq!(percent_decode("%2Fx%2f"), "/x/");
    assert_eq!(percent_decode("no escapes"), "no escapes");
    assert_eq!(percent_decode("%4"), "@");
    assert_eq!(percent_decode("%zz!"), "\u{0}!");
    assert_eq!(percent_decode("%"), "\u{0}");
    assert_eq!(percent_decode("%C3"), "\u{c3}");
}

#[test]
fn force_download_links() {
    assert_eq!(
        extract_url_from_force("https://savepin.app/force-save.php?url=https%3A%2F%2Fi.pinimg.com%2Fa.jpg#top"),
        Some(s("https://i.pinimg.com/a.jpg"))
    );
    assert_eq!(extract_url_from_force("https://x/?u=1"), None);
    assert_eq!(extract_url_from_force("a?url=one&url=two"), Some(s("one&url=two")));
}

#[test]
fn pattern_split_and_replace() {
    assert_eq!(split_str("a--b--", "--"), vec![s("a"), s("b"), s("")]);
    assert_eq!(split_str("abc", "--"), vec![s("abc")]);
    assert_eq!(replace_str("aaa", "aa", "b"), "ba");
    assert_eq!(
        to_old_reddit_url("https://www.reddit.com/r/x/comments/1/"),
        "https://old.reddit.com/r/x/comments/1/"
    );
    assert_eq!(to_old_reddit_url("https://reddit.com/r/x"), "https://old.reddit.com/r/x");
}

#[test]
fn extractor_link_tests() {
    assert!(CapCutExtractor.can_handle("https://www.capcut.com/t/abc"));
    assert!(CapCutExtractor.can_handle("https://capcut.net/x"));
    assert!(!CapCutExtractor.can_handle("https://capcut.org/x"));
    assert!(LinkedInExtractor.can_handle("https://www.linkedin.com/posts/x"));
    assert!(PinterestExtractor.can_handle("https://pin.it/abc"));
    assert!(RedditExtractor.can_handle("https://www.reddit.com/r/x"));
    assert!(SoundCloudExtractor.can_handle("https://soundcloud.com/a/b"));
    assert!(SpotifyExtractor.can_handle("https://open.spotify.com/track/1"));
    assert!(!SpotifyExtractor.can_handle("https://spotify.com/track/1"));
    assert!(TeraboxExtractor.can_handle("https://1024tera.com/s/1"));
    assert!(ThreadsExtractor.can_handle("https://www.threads.net/@a/post/1"));
    assert!(TikTokExtractor.can_handle("https://vt.tiktok.com/x"));
    assert!(TwitterExtractor.can_handle("https://x.com/a/status/1"));
    assert!(!TwitterExtractor.can_handle("https://x.co/a"));
    let ig = InstagramExtractor::new(Some(s("csrftoken=abc")));
    assert_eq!(ig.cookies, Some(s("csrftoken=abc")));
    assert!(ig.can_handle("https://www.instagram.com/p/x/"));
    assert!(!ig.can_handle("https://instagram.org/p/x/"));
}

#[test]
fn shortcodes_and_media_ids() {
    assert_eq!(shortcode_to_media_id("B"), Ok(s("1")));
    assert_eq!(shortcode_to_media_id("BA"), Ok(s("64")));
    assert_eq!(shortcode_to_media_id("DF"), Ok(s("197")));
    assert_eq!(shortcode_to_media_id("CuXRoLZl5tj"), Ok(s("3141056792924494691")));
    assert_eq!(shortcode_to_media_id(""), Ok(s("0")));
    assert_eq!(shortcode_to_media_id("ab!c"), Err(ShortcodeError::InvalidChar('!')));
    assert_eq!(shortcode_to_media_id("___________"), Err(ShortcodeError::Overflow));
    assert_eq!(shortcode_to_media_id("___________!"), Err(ShortcodeError::Overflow));
}

#[test]
fn shortcode_extraction() {
    assert_eq!(extract_shortcode("https://www.instagram.com/p/ABC123/?igsh=x"), Some(s("ABC123")));
    assert_eq!(extract_shortcode("https://www.instagram.com/reel/XyZ/"), Some(s("XyZ")));
    assert_eq!(extract_shortcode("https://www.instagram.com/reels/Q1?x=1"), Some(s("Q1")));
    assert_eq!(extract_shortcode("https://www.instagram.com/tv/T9"), Some(s("T9")));
    assert_eq!(extract_shortcode("https://www.instagram.com/someone/"), None);
}

#[test]
fn csrf_tokens() {
    assert_eq!(csrf_token("sessionid=1; csrftoken=abc; x=y"), Some(s("abc")));
    assert_eq!(csrf_token("csrftoken=a;  csrftoken=b "), Some(s("b")));
    assert_eq!(csrf_token("sessionid=1"), None);
}

fn media(t: i32, videos: Option<Vec<&str>>, images: Option<Vec<&str>>) -> IgMedia {
    IgMedia {
        media_type: t,
        video_urls: videos.map(|v| v.into_iter().map(s).collect()),
        image_urls: images.map(|v| v.into_iter().map(s).collect()),
    }
}

#[test]
fn instagram_plans() {
    assert_eq!(plan_post(&vec![]).err(), Some(IgError::MediaNotFound));

    let single = IgPost {
        media: media(2, Some(vec!["https://v/1.mp4", "https://v/2.mp4"]), None),
        carousel: None,
        caption: Some(s("  First line \nsecond")),
    };
    let ds = plan_post(&vec![single]).unwrap();
    assert_eq!(ds.len(), 1);
    assert_eq!(ds[0].url, "https://v/1.mp4");
    assert!(ds[0].is_video);
    assert_eq!(ds[0].index, 0);
    assert_eq!(ds[0].title, Some(s("First line")));
    assert_eq!(ds[0].description, Some(s("  First line \nsecond")));

    let no_image = IgPost { media: media(1, None, Some(vec![])), carousel: None, caption: None };
    assert_eq!(plan_post(&vec![no_image]).err(), Some(IgError::NoImage));
    let no_video = IgPost { media: media(2, None, Some(vec!["x"])), carousel: None, caption: None };
    assert_eq!(plan_post(&vec![no_video]).err(), Some(IgError::NoVideo));

    let carousel = IgPost {
        media: media(8, None, None),
        carousel: Some(vec![media(1, None, Some(vec!["https://i/a.jpg"])), media(2, Some(vec!["https://v/b.mp4"]), None)]),
        caption: Some(s("cap")),
    };
    let ds = plan_post(&vec![carousel]).unwrap();
    assert_eq!(ds.len(), 2);
    assert_eq!((ds[0].url.as_str(), ds[0].is_video, ds[0].index), ("https://i/a.jpg", false, 0));
    assert_eq!((ds[1].url.as_str(), ds[1].is_video, ds[1].index), ("https://v/b.mp4", true, 1));
    assert_eq!(ds[0].title, Some(s("cap")));
    assert_eq!(ds[1].title, None);
    assert_eq!(ds[1].description, None);

    let broken = IgPost {
        media: media(8, None, None),
        carousel: Some(vec![media(1, None, Some(vec!["a"])), media(2, None, None)]),
        caption: None,
    };
    assert_eq!(plan_post(&vec![broken]).err(), Some(IgError::NoCarouselVideo));
    let missing = IgPost { media: media(8, None, None), carousel: None, caption: None };
    assert_eq!(plan_post(&vec![missing]).err(), Some(IgError::CarouselMissing));
}

#[test]
fn instagram_file_names() {
    let single = IgPost {
        media: media(2, Some(vec!["https://cdn.example.com/video/abcdef0123456789xyz.mp4"]), None),
        carousel: None,
        caption: None,
    };
    let ds = plan_post(&vec![single]).unwrap();
    assert_eq!(ig_filename(&ds[0]), "instagram_0_123456789xyz.mp4.mp4");
    assert_eq!(ig_mime_kind(true), ("video/mp4", MediaKind::Video));
    assert_eq!(ig_mime_kind(false), ("image/jpeg", MediaKind::Photo));
}

#[test]
fn reddit_links() {
    let u = "https://www.reddit.com/r/pics/comments/abc123/my_cool-post/";
    assert_eq!(post_id_from_url(u), "abc123");
    assert_eq!(title_from_url(u), Some(s("My cool post")));
    assert_eq!(post_id_from_url("https://www.reddit.com/r/pics/"), "unknown");
    assert_eq!(title_from_url("https://www.reddit.com/r/pics/comments/abc123/"), None);
}

#[test]
fn old_reddit_pictures() {
    let html = "<a href=\"https://preview.redd.it/abc_1.png?width=640\">x</a>\
                <img src=\"https://preview.redd.it/abc_1.png?w=1\">\
                <img src=\"https://preview.redd.it/photo-2.JPG\">\
                <img src=\"https://preview.redd.it/d.jpeg\">\
                <img src=\"https://preview.redd.it/notes.txt\">";
    assert_eq!(parse_old_reddit_images(html), vec![s("abc_1.png"), s("d.jpeg")]);
    assert_eq!(parse_old_reddit_images("lead.gif then text"), Vec::<String>::new());
    assert_eq!(parse_old_reddit_images("a.png preview.redd.it/b.gif"), vec![s("b.gif")]);
}

#[test]
fn rapidsave_download_links() {
    let href = "https://sd.rapidsave.com/download.php?permalink=x&video_url=https%3A%2F%2Fv.redd.it%2Fa%2FDASH_720.mp4&audio_url=https%3A%2F%2Fv.redd.it%2Fa%2FDASH_audio.mp4";
    assert_eq!(
        parse_download_link(href),
        Some((s("https://v.redd.it/a/DASH_720.mp4"), Some(s("https://v.redd.it/a/DASH_audio.mp4"))))
    );
    assert_eq!(parse_download_link("https://x/download.php?video_url=v1&video_url=v2"), Some((s("v2"), None)));
    assert_eq!(parse_download_link("https://x/download.php?audio_url=a"), None);
    assert_eq!(parse_download_link("not a url"), None);
}

#[test]
fn rapidsave_pages() {
    let html = r#"<html><body>
        <a class="downloadbutton" href="https://x/other">x</a>
        <a class="downloadbutton" href="https://sd.rapidsave.com/download.php?video_url=https%3A%2F%2Fv%2Fv.mp4">dl</a>
        <a href="https://i.redd.it/p1.png">p</a>
        <img src="//i.redd.it/p2.gif">
    </body></html>"#;
    let p = parse_rapidsave_html(html);
    assert_eq!(p.video, Some((s("https://v/v.mp4"), None)));
    assert_eq!(p.images, vec![s("https://i.redd.it/p1.png"), s("https://i.redd.it/p2.gif")]);

    match rapidsave_plan(&p, "abc", &Some(s("T"))) {
        RedditPlan::Files(fs) => {
            assert_eq!(fs.len(), 1);
            assert_eq!(fs[0].url, "https://v/v.mp4");
            assert_eq!(fs[0].filename, "reddit_abc.mp4");
            assert_eq!(fs[0].mime_type, "video/mp4");
            assert_eq!(fs[0].kind, MediaKind::Video);
            assert_eq!(fs[0].title, Some(s("T")));
        },
        _ => panic!("expected one video"),
    }

    let images_only = nautilus::reddit::ParsedReddit { video: None, images: p.images };
    match rapidsave_plan(&images_only, "abc", &Some(s("T"))) {
        RedditPlan::Files(fs) => {
            assert_eq!(fs.len(), 2);
            assert_eq!(fs[0].filename, "reddit_abc_1.png");
            assert_eq!(fs[0].mime_type, "image/png");
            assert_eq!(fs[1].filename, "reddit_abc_2.gif");
            assert_eq!(fs[1].mime_type, "image/gif");
            assert_eq!(fs[0].title, Some(s("T")));
            assert_eq!(fs[1].title, None);
        },
        _ => panic!("expected pictures"),
    }

    let with_audio = nautilus::reddit::ParsedReddit { video: Some((s("v"), Some(s("a")))), images: vec![] };
    match rapidsave_plan(&with_audio, "id", &None) {
        RedditPlan::Merge { video_url, audio_url, filename, title } => {
            assert_eq!((video_url.as_str(), audio_url.as_str(), filename.as_str()), ("v", "a", "reddit_id.mp4"));
            assert_eq!(title, None);
        },
        _ => panic!("expected a merge"),
    }
    let nothing = nautilus::reddit::ParsedReddit { video: None, images: vec![] };
    assert!(matches!(rapidsave_plan(&nothing, "id", &None), RedditPlan::NoMedia));
}

#[test]
fn old_reddit_files() {
    let fs = old_reddit_plan(&vec![s("a.png"), s("b.webp"), s("c.jpeg")], "p1", &Some(s("T")));
    assert_eq!(fs.len(), 3);
    assert_eq!(fs[0].url, "https://i.redd.it/a.png");
    assert_eq!(fs[0].filename, "reddit_p1_1.png");
    assert_eq!(fs[0].mime_type, "image/png");
    assert_eq!(fs[1].mime_type, "image/webp");
    assert_eq!(fs[2].filename, "reddit_p1_3.jpeg");
    assert_eq!(fs[2].mime_type, "image/jpeg");
    assert_eq!(fs[0].title, Some(s("T")));
    assert_eq!(fs[2].title, None);
}

#[test]
fn tiktok_plans() {
    let post = TikTokPost {
        id: None,
        video_id: Some(s("77")),
        title: Some(s("t")),
        play: Some(s("https://play")),
        wmplay: None,
        hdplay: None,
        images: Some(vec![s(""), s("https://img/2"), s("https://img/3")]),
    };
    let fs = tiktok_plan(&post).unwrap();
    assert_eq!(fs.len(), 2);
    assert_eq!(fs[0].filename, "tiktok_77_2.jpg");
    assert_eq!(fs[1].filename, "tiktok_77_3.jpg");
    assert_eq!(fs[0].title, None);

    let video = TikTokPost { images: Some(vec![]), hdplay: Some(s("https://hd")), ..post };
    let fs = tiktok_plan(&video).unwrap();
    assert_eq!(fs.len(), 1);
    assert_eq!(fs[0].url, "https://hd");
    assert_eq!(fs[0].filename, "tiktok_77.mp4");
    assert_eq!(fs[0].kind, MediaKind::Video);

    let empty = TikTokPost {
        id: None,
        video_id: None,
        title: None,
        play: None,
        wmplay: None,
        hdplay: None,
        images: None,
    };
    assert!(tiktok_plan(&empty).is_none());
    let named = TikTokPost { wmplay: Some(s("w")), ..empty };
    assert_eq!(tiktok_plan(&named).unwrap()[0].filename, "tiktok_post.mp4");
}

#[test]
fn simple_sites() {
    let a = CapCutAnswer { url: Some(s("u")), download_url: None, data: Some(CapCutData { url: Some(s("d")) }) };
    assert_eq!(capcut_download_url(&a), Some(s("u")));
    let b = CapCutAnswer { url: None, download_url: None, data: Some(CapCutData { url: Some(s("d")) }) };
    assert_eq!(capcut_download_url(&b), Some(s("d")));
    let c = CapCutAnswer { url: None, download_url: None, data: None };
    assert_eq!(capcut_download_url(&c), None);

    let f = capcut_fetch("https://cdn.example.com/video/abcdef0123456789xyz.mp4");
    assert_eq!(f.filename, "capcut_123456789xyz.mp4.mp4");
    let f = capcut_fetch("short");
    assert_eq!(f.filename, "capcut_short.mp4");

    let f = linkedin_fetch("https://v", &None, &Some(s("d")));
    assert_eq!(f.filename, "linkedin_video.mp4");
    assert_eq!(f.description, Some(s("d")));
    let f = audio_fetch("https://a", &Some(s("Song")));
    assert_eq!((f.filename.as_str(), f.mime_type.as_str(), f.kind), ("Song.mp3", "audio/mpeg", MediaKind::Audio));
    assert_eq!(audio_fetch("https://a", &None).filename, "track.mp3");

    assert_eq!(soundcloud_source(&Some(vec![None, Some(s("x")), Some(s("y"))])), Some(s("x")));
    assert_eq!(soundcloud_source(&Some(vec![None])), None);
    assert_eq!(soundcloud_source(&None), None);
}

#[test]
fn page_scrapers() {
    let pin = r#"<table><tbody><tr><td><a href="https://savepin.app/force-save.php?url=https%3A%2F%2Fv.pinimg.com%2Fa.mp4">v</a></td></tr></tbody></table>"#;
    assert_eq!(pinterest_download_url(pin), Ok(Some(s("https://v.pinimg.com/a.mp4"))));
    let pin2 = r#"<a href="/dl/i.pinimg.com/b.jpg">x</a>"#;
    assert_eq!(pinterest_download_url(pin2), Ok(Some(s("https://www.savepin.app/dl/i.pinimg.com/b.jpg"))));
    assert_eq!(pinterest_download_url("<p>none</p>"), Ok(None));
    let f = pinterest_fetch("https://v.pinimg.com/a.mp4");
    assert_eq!((f.filename.as_str(), f.kind), ("pinterest_pinimg.com/a.mp4.mp4", MediaKind::Video));

    let tb = r#"<input name="nonce" value="n1"><div data-nonce="n2"></div>"#;
    assert_eq!(terabox_nonce(tb), Ok(Some(s("n1"))));
    assert_eq!(terabox_nonce(r#"<div data-nonce="n2"></div>"#), Ok(Some(s("n2"))));
    let body = TeraboxBody { download_url: JsonField::Other, url: JsonField::Text(s("u")), data_url: JsonField::Missing };
    assert_eq!(terabox_download_url(&body), None);
    let body = TeraboxBody { download_url: JsonField::Missing, url: JsonField::Missing, data_url: JsonField::Text(s("d")) };
    assert_eq!(terabox_download_url(&body), Some(s("d")));
    assert_eq!(terabox_fetch("x").filename, "terabox_x.mp4");

    let th = r#"<video src="https://cdn.t/v.mp4"></video><img src="https://cdn.t/i.jpg">"#;
    assert_eq!(threads_download_url(th), Ok(Some(s("https://cdn.t/v.mp4"))));
    assert_eq!(threads_download_url(r#"<img src="https://cdn.t/i.jpg">"#), Ok(Some(s("https://cdn.t/i.jpg"))));
    let f = threads_fetch("https://cdn.t/abc/clip.mov");
    assert_eq!((f.filename.as_str(), f.kind), ("threads_abc/clip.mov.mp4", MediaKind::Video));

    let tw = r#"<h3>  A <b>title</b> </h3><a class="downloadbtn" href="https://other/x">o</a><a href="https://dl.snapcdn.app/get?x=1">d</a>"#;
    assert_eq!(twitter_page(tw), Ok((Some(s("https://dl.snapcdn.app/get?x=1")), Some(s("A title")))));
    assert_eq!(twitter_page("<p></p>"), Ok((None, None)));
    let f = twitter_fetch("https://dl.snapcdn.app/get?x=1", &Some(s("A title")));
    assert_eq!(f.filename, "twitter_pcdn.app/get?x=1.mp4");
    assert_eq!(f.title, Some(s("A title")));
}

#[test]
fn ytdlp_provider() {
    let p = YtDlpProvider::new(Some(s("/c.txt")));
    assert!(p.can_handle("https://youtu.be/x"));
    assert!(p.can_handle("https://inv.nadeko.net/watch?v=1"));
    assert!(!p.can_handle("https://vimeo.com/1"));
    let a = p.stream_args("U");
    assert_eq!(a, vec![s("-o"), s("-"), s("--no-warnings"), s("U"), s("--cookies"), s("/c.txt")]);
    let q = YtDlpProvider::new(None).probe_args("U");
    assert_eq!(q.len(), 15);
    assert_eq!(q[1], "%(filesize,filesize_approx)s");
    assert_eq!(q[14], "U");

    let m = p.probe_meta("12345\nwebm\n61\n1920\n1080\nabc\n");
    assert_eq!(m.filename, "abc.webm");
    assert_eq!(m.mime_type, "video/webm");
    assert_eq!(m.size, 12345);
    assert_eq!(m.duration_secs, Some(61));
    assert_eq!(m.dims, Some((1920, 1080)));
    assert_eq!(m.kind, MediaKind::Video);

    let m = p.probe_meta("NA\r\nmp4\r\n61.5\n0\n720\n\n");
    assert_eq!(m.filename, "video.mp4");
    assert_eq!(m.size, 0);
    assert_eq!(m.duration_secs, None);
    assert_eq!(m.dims, None);

    let m = p.probe_meta("");
    assert_eq!(m.filename, "video.mp4");
    assert_eq!(m.mime_type, "video/mp4");
}

#[test]
fn service_addresses() {
    assert_eq!(nautilus::instagram::info_url("197"), "https://i.instagram.com/api/v1/media/197/info/");
    assert_eq!(
        nautilus::sites::pinterest_page_url("https://pin.it/x"),
        "https://www.savepin.app/download.php?url=https://pin.it/x&lang=en&type=redirect"
    );
    assert_eq!(
        nautilus::sites::rapidsave_page_url("https://redd.it/a"),
        "https://rapidsave.com/info?url=https://redd.it/a"
    );
}
