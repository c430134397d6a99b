use nautilus::astra::{
    parse_dimensions, parse_quality, sanitize_filename, AstraData, AstraDownloadItem, AstraMediaType, AstraPhotoItem,
    AstraPhotoVariant, AstraResponse, AstraVideoItem,
};
use nautilus::commands::{
    decide_command, download_keyboard, first_supported_link, parse_callback, parse_command, parse_topic_command,
    sender_mention, BotCommand, CallbackAction, CommandAction, ParsedCommand, TopicCommand,
};
use nautilus::config::Config;
use nautilus::delivery::{build_caption, cache_key, plan_sends};
use nautilus::diagnostics::{check_report, health_url, speedtest_report, HealthData, HealthProbe};
use nautilus::endpoint::AstraEndpoint;
use nautilus::links::{detect_platform, get_source_link, html_escape, normalize_url};
use nautilus::media::{mime_for_ext, MediaKind};
use nautilus::ratelimit::RateLimiter;
use nautilus::selection::{media_info, plan_downloads, plan_response, AstraError};
use nautilus::settings::{SettingsMap, UserSettings};
use nautilus::stats::{
    clean_go_duration, parse_cpu_ticks, parse_proc_val, parse_self_stat_ticks, uptime_text, BotStats,
};
use nautilus::topics::{topic_id_of, ReplyHeader, TopicSettings};

fn s(x: &str) -> String {
    x.to_string()
}

fn config(mb: Option<u64>, secs: Option<u64>) -> Config {
    Config {
        telegram_app_id: 1,
        telegram_app_hash: s("h"),
        bot_token: s("t"),
        owner_id: 7,
        astra_api_url: None,
        ytdlp_cookies: None,
        instagram_cookies: None,
        max_file_size_mb: mb,
        progress_edit_secs: secs,
    }
}

#[test]
fn config_defaults() {
    let c = config(None, None);
    assert_eq!(c.max_file_size_bytes(), 2000 * 1024 * 1024);
    assert_eq!(c.progress_edit_secs(), 3);
    let c = config(Some(10), Some(9));
    assert_eq!(c.max_file_size_bytes(), 10_485_760);
    assert_eq!(c.progress_edit_secs(), 9);
}

#[test]
fn rate_limiter_buckets() {
    let mut l = RateLimiter::new(2, 60);
    assert!(l.check_at(1, 0));
    assert!(l.check_at(1, 0));
    assert!(!l.check_at(1, 0));
    assert!(!l.check_at(1, 29_999_999_999));
    assert!(l.check_at(1, 30_000_000_000));
    assert!(!l.check_at(1, 30_000_000_000));
    assert!(l.check_at(2, 30_000_000_000));
    assert!(l.check_at(1, 1_000_000_000_000));
    assert!(l.check_at(1, 1_000_000_000_000));
    assert!(!l.check_at(1, 1_000_000_000_000));
    let mut none = RateLimiter::new(0, 0);
    assert!(!none.check_at(5, 10));
    let mut live = RateLimiter::new(3, 60);
    assert!(live.check(9));
}

#[test]
fn settings_and_topics() {
    let mut m = SettingsMap::new();
    assert!(m.get(1).auto_mode);
    m.set_auto(1, false);
    assert!(!m.get(1).auto_mode);
    assert!(m.get(2).auto_mode);
    m.set(2, UserSettings { auto_mode: false });
    assert!(!m.get(2).auto_mode);
    assert!(UserSettings::default().auto_mode);

    let mut t = TopicSettings::default();
    assert!(t.is_topic_allowed(-100, None));
    t.set_allowed_topics(-100, vec![3, 5]);
    assert!(t.is_topic_allowed(-100, Some(5)));
    assert!(!t.is_topic_allowed(-100, Some(4)));
    assert!(!t.is_topic_allowed(-100, None));
    assert!(t.is_topic_allowed(-200, Some(4)));
    t.set_allowed_topics(-100, vec![]);
    assert!(t.is_topic_allowed(-100, Some(4)));

    let h = ReplyHeader { forum_topic: true, reply_to_top_id: Some(12), reply_to_msg_id: Some(40) };
    assert_eq!(topic_id_of(Some(h)), Some(12));
    let h = ReplyHeader { forum_topic: true, reply_to_top_id: None, reply_to_msg_id: Some(40) };
    assert_eq!(topic_id_of(Some(h)), Some(40));
    let h = ReplyHeader { forum_topic: false, reply_to_top_id: Some(12), reply_to_msg_id: Some(40) };
    assert_eq!(topic_id_of(Some(h)), None);
    assert_eq!(topic_id_of(None), None);
}

#[test]
fn bot_counters() {
    let mut b = BotStats::new(s("navbot"), 42);
    assert_eq!(b.bot_username(), "navbot");
    assert_eq!(b.bot_id(), 42);
    b.record_success();
    b.record_success();
    b.record_failure();
    assert_eq!((b.processed_total(), b.processed_ok(), b.processed_fail()), (3, 2, 1));
    assert!(b.uptime().as_secs() < 3600);
}

#[test]
fn system_readings() {
    assert_eq!(clean_go_duration("1h2m3.456789s"), "1h 2m 3s");
    assert_eq!(clean_go_duration("45.5ms"), "45ms");
    assert_eq!(parse_cpu_ticks("cpu  1 2 3 4 5 6\ncpu0 1 1 1 1 1"), Some((21, 4)));
    assert_eq!(parse_cpu_ticks("cpu 1 2 3 4"), None);
    assert_eq!(parse_cpu_ticks(""), None);
    let stat = "1234 (my prog) S 1 2 3 4 5 6 7 8 9 10 11 12 13 14";
    assert_eq!(parse_self_stat_ticks(stat), Some(11 + 12));
    assert_eq!(parse_self_stat_ticks("no paren"), None);
    let mem = "MemTotal:       16000 kB\nMemAvailable:    8000 kB\n";
    assert_eq!(parse_proc_val(mem, "MemAvailable:"), Some(8000));
    assert_eq!(parse_proc_val(mem, "Swap:"), None);
    assert_eq!(uptime_text(90061), "1 days 1 hours 1 mins");
    assert_eq!(uptime_text(7260), "2 hours 1 mins");
    assert_eq!(uptime_text(59), "0 hours 0 mins");
}

#[test]
fn commands() {
    let p = parse_command("/dl https://x.com/a", "mybot").unwrap();
    assert_eq!(p.command, BotCommand::Download);
    assert_eq!(p.args, "https://x.com/a");
    let p = parse_command("/dl@MyBot  link ", "mybot").unwrap();
    assert_eq!(p.args, "link");
    assert!(parse_command("/dl@otherbot x", "mybot").is_none());
    assert!(parse_command("hello", "mybot").is_none());
    assert!(parse_command("/unknown", "mybot").is_none());
    assert_eq!(parse_command("/mp x", "b").unwrap().command, BotCommand::Audio);

    assert_eq!(parse_topic_command(""), TopicCommand::Show);
    assert_eq!(parse_topic_command("CLEAR"), TopicCommand::Clear);
    assert_eq!(parse_topic_command("1 2  -3"), TopicCommand::Allow(vec![1, 2, -3]));
    assert_eq!(parse_topic_command("1 x"), TopicCommand::Invalid);

    let dl = ParsedCommand { command: BotCommand::Download, args: s("https://x.com/a") };
    assert_eq!(decide_command(&dl, 1, 7, false), CommandAction::Download { url: s("https://x.com/a"), audio: false });
    let usage = ParsedCommand { command: BotCommand::Audio, args: s("") };
    assert_eq!(decide_command(&usage, 1, 7, false), CommandAction::DownloadUsage { audio: true });
    let stats = ParsedCommand { command: BotCommand::Stats, args: s("") };
    assert_eq!(decide_command(&stats, 1, 7, false), CommandAction::PermissionDenied);
    assert_eq!(decide_command(&stats, 7, 7, false), CommandAction::Stats);
    let topics = ParsedCommand { command: BotCommand::SettingsId, args: s("5") };
    assert_eq!(decide_command(&topics, 7, 7, false), CommandAction::GroupOnly);
    assert_eq!(decide_command(&topics, 7, 7, true), CommandAction::Topics(TopicCommand::Allow(vec![5])));
    assert_eq!(decide_command(&topics, 8, 7, true), CommandAction::PermissionDenied);
}

#[test]
fn callbacks_and_keyboards() {
    assert_eq!(parse_callback("dl:video:abc"), CallbackAction::Download { format: s("video"), id: s("abc") });
    assert_eq!(parse_callback("dl:cancel:abc"), CallbackAction::Cancel { id: s("abc") });
    assert_eq!(parse_callback("dl:a:b:c"), CallbackAction::Ignore);
    assert_eq!(parse_callback("cmd:help"), CallbackAction::ShowHelp);
    assert_eq!(parse_callback("cmd:start"), CallbackAction::ShowStart);
    assert_eq!(parse_callback("x"), CallbackAction::Ignore);

    let k = download_keyboard(true, true, true, "id").unwrap();
    let rows: Vec<Vec<(String, String)>> =
        k.iter().map(|r| r.iter().map(|b| (b.label.clone(), b.data.clone())).collect()).collect();
    assert_eq!(
        rows,
        vec![
            vec![(s("Video"), s("dl:video:id")), (s("Photo"), s("dl:photo:id"))],
            vec![(s("Download All"), s("dl:both:id")), (s("Audio"), s("dl:audio:id"))],
            vec![(s("Cancel"), s("dl:cancel:id"))],
        ]
    );
    assert!(download_keyboard(false, false, false, "id").is_none());
    let k = download_keyboard(false, false, true, "z").unwrap();
    assert_eq!(k.len(), 2);
    assert_eq!(k[0][0].data, "dl:audio:z");
    for row in download_keyboard(true, false, true, "q").unwrap() {
        for b in row {
            let back = parse_callback(&b.data);
            match back {
                CallbackAction::Download { id, .. } | CallbackAction::Cancel { id } => assert_eq!(id, "q"),
                _ => panic!("button data must read back"),
            }
        }
    }
}

#[test]
fn links_and_mentions() {
    assert_eq!(first_supported_link("look https://youtu.be/x and"), Some(s("https://youtu.be/x")));
    assert_eq!(first_supported_link("nothing https://example.org/a here"), None);
    assert_eq!(first_supported_link("ftp://youtube.com/x"), None);
    assert_eq!(sender_mention(Some("bob"), None, 1), "@bob");
    assert_eq!(sender_mention(None, Some("A<b"), 42), "<a href=\"tg://user?id=42\">A&lt;b</a>");
    assert_eq!(sender_mention(None, None, -5), "<a href=\"tg://user?id=-5\">User</a>");

    assert_eq!(html_escape("<a href='x'>&\""), "&lt;a href=&#x27;x&#x27;&gt;&amp;&quot;");
    assert_eq!(detect_platform("https://WWW.Instagram.com/p/1"), Some("Instagram"));
    assert_eq!(detect_platform("https://x.com/a"), Some("Twitter"));
    assert_eq!(detect_platform("https://example.com"), None);
    assert_eq!(get_source_link("https://youtu.be/x"), "<a href=\"https://youtu.be/x\">YouTube</a>");
    assert_eq!(
        get_source_link("https://example.com/a?b=1&c=2"),
        "<a href=\"https://example.com/a?b=1&amp;c=2\">example.com</a>"
    );
    assert_eq!(normalize_url("https://x.com/a?utm_source=t&id=5"), "https://x.com/a?id=5");
    assert_eq!(normalize_url("https://x.com/a?igsh=1"), "https://x.com/a");
    assert_eq!(normalize_url("https://x.com/a"), "https://x.com/a");
    assert_eq!(normalize_url("not url"), "not url");
}

#[test]
fn quality_names_and_sizes() {
    assert_eq!(parse_quality("1080p", ""), 1080);
    assert_eq!(parse_quality("HD", ""), 1080);
    assert_eq!(parse_quality("", "Medium"), 720);
    assert_eq!(parse_quality("", ""), 0);
    assert_eq!(parse_quality("99999999999", "SD"), 360);
    assert_eq!(sanitize_filename("Hello, World!", "video"), "Hello__World");
    assert_eq!(sanitize_filename("!!!", "video"), "video");
    assert_eq!(sanitize_filename("_a-b_", "x"), "a-b");
    assert_eq!(parse_dimensions("1920x1080", "", false), Some((1920, 1080)));
    assert_eq!(parse_dimensions("720p", "", false), Some((1280, 720)));
    assert_eq!(parse_dimensions("720p", "", true), Some((720, 1280)));
    assert_eq!(parse_dimensions("", "640*360", false), Some((640, 360)));
    assert_eq!(parse_dimensions("", "", false), None);
    assert_eq!(mime_for_ext("mkv"), "video/x-matroska");
    assert_eq!(mime_for_ext("xyz"), "application/octet-stream");

    let p = AstraPhotoItem { url: None, variants: Some(vec![AstraPhotoVariant { url: s("v1") }]) };
    assert_eq!(p.get_url(), Some(s("v1")));
    let p = AstraPhotoItem { url: Some(s("u")), variants: None };
    assert_eq!(p.get_url(), Some(s("u")));
    let p = AstraPhotoItem { url: None, variants: Some(vec![]) };
    assert_eq!(p.get_url(), None);
}

fn item(t: AstraMediaType, url: &str, quality: Option<&str>, label: Option<&str>) -> AstraDownloadItem {
    AstraDownloadItem { label: label.map(s), url: s(url), media_type: t, quality: quality.map(s) }
}

fn data(downloads: Option<Vec<AstraDownloadItem>>) -> AstraData {
    AstraData { title: Some(s("My Clip!")), caption: Some(s("desc")), downloads, photos: None, videos: None }
}

#[test]
fn download_choice() {
    let d = data(Some(vec![
        item(AstraMediaType::Video, "v720", Some("720p"), None),
        item(AstraMediaType::Video, "v1080", Some("1080p"), None),
        item(AstraMediaType::Audio, "a", None, None),
    ]));
    let picks = plan_downloads(&d, None, AstraEndpoint::FacebookDownload);
    assert_eq!(picks.len(), 1);
    assert_eq!(picks[0].url, "v1080");
    assert_eq!(picks[0].meta.filename, "My_Clip.mp4");
    assert_eq!(picks[0].meta.mime_type, "video/mp4");
    assert_eq!(picks[0].meta.title, Some(s("My Clip!")));
    assert_eq!(picks[0].meta.description, Some(s("desc")));

    let picks = plan_downloads(&d, Some("audio"), AstraEndpoint::FacebookDownload);
    assert_eq!((picks[0].url.as_str(), picks[0].meta.filename.as_str()), ("a", "My_Clip.mp3"));

    let tiktok = data(Some(vec![
        item(AstraMediaType::Video, "wm", None, Some("With Watermark")),
        item(AstraMediaType::Video, "hd", None, Some("HD")),
    ]));
    let picks = plan_downloads(&tiktok, None, AstraEndpoint::TiktokDownload);
    assert_eq!(picks[0].url, "hd");

    let yt = data(Some(vec![
        item(AstraMediaType::Video, "mute", Some("2160p"), Some("Video (no audio)")),
        item(AstraMediaType::Video, "both", Some("720p"), Some("Video")),
    ]));
    let picks = plan_downloads(&yt, None, AstraEndpoint::YoutubeDownload);
    assert_eq!(picks[0].url, "both");

    let slides = data(Some(vec![
        item(AstraMediaType::Image, "i0", None, None),
        item(AstraMediaType::Slide, "i1", None, None),
    ]));
    let picks = plan_downloads(&slides, None, AstraEndpoint::TiktokDownload);
    assert_eq!(picks.len(), 2);
    assert_eq!(picks[1].meta.filename, "My_Clip_1.jpg");

    let carousel = AstraData {
        title: None,
        caption: Some(s("cap")),
        downloads: None,
        photos: Some(vec![AstraPhotoItem { url: Some(s("p0")), variants: None }]),
        videos: Some(vec![AstraVideoItem { url: s("v0") }]),
    };
    let picks = plan_downloads(&carousel, None, AstraEndpoint::InstagramDownload);
    assert_eq!(picks.len(), 2);
    assert_eq!(picks[0].meta.filename, "cap_0.jpg");
    assert_eq!(picks[1].meta.filename, "cap_0.mp4");
    assert_eq!(picks[0].meta.title, Some(s("cap")));
    assert_eq!(picks[0].meta.description, None);
    assert_eq!(picks[1].meta.title, None);
    let info = media_info(&carousel);
    assert!(info.has_photo && info.has_video && !info.has_audio);

    let failed = AstraResponse { success: false, message: s("boom"), data: None };
    assert_eq!(plan_response(&failed, None, AstraEndpoint::YoutubeDownload).err(), Some(AstraError::Api(s("boom"))));
    let empty = AstraResponse { success: true, message: s(""), data: None };
    assert_eq!(plan_response(&empty, None, AstraEndpoint::YoutubeDownload).err(), Some(AstraError::NoData));
    let nothing = AstraResponse { success: true, message: s(""), data: Some(data(Some(vec![]))) };
    assert_eq!(plan_response(&nothing, None, AstraEndpoint::YoutubeDownload).err(), Some(AstraError::NoMedia));
}

#[test]
fn delivery() {
    assert_eq!(cache_key("u", Some("video")), "u#video");
    assert_eq!(cache_key("u", None), "u");
    let c = build_caption(false, Some("T<1>"), Some("d"), "https://youtu.be/x", MediaKind::Video, "1.50", Some("@bob"));
    assert_eq!(
        c,
        "<blockquote><b>T&lt;1&gt;</b>\nd</blockquote>\n\n🖇️ Source: <a href=\"https://youtu.be/x\">YouTube</a>\n📄 Type: Video\n📁 Size: 1.50 MB\n👤 By: @bob\n\n💫 Powered by <a href=\"https://github.com/pavelc4/astra.git\">Astra</a>"
    );
    let c = build_caption(true, None, None, "https://youtu.be/x", MediaKind::Photo, "0.10", None);
    assert_eq!(
        c,
        "🔗 Sumber: <a href=\"https://youtu.be/x\">YouTube</a>\n🏷 Tipe: Photo\n💾 Ukuran: 0.10 MB\n\n😼 Powered by <a href=\"https://github.com/pavelc4/astra.git\">Astra</a>"
    );

    let one = plan_sends(&vec![MediaKind::Photo]);
    assert_eq!(one.len(), 1);
    assert_eq!((one[0].album, one[0].items.clone(), one[0].caption), (false, vec![0], true));

    let mut kinds = vec![MediaKind::Photo; 12];
    kinds.insert(3, MediaKind::Video);
    let plan = plan_sends(&kinds);
    assert_eq!(plan.len(), 3);
    assert!(plan[0].album && plan[0].items.len() == 10 && !plan[0].caption);
    assert_eq!(plan[0].items, vec![0, 1, 2, 4, 5, 6, 7, 8, 9, 10]);
    assert_eq!(plan[1].items, vec![11, 12]);
    assert!(!plan[2].album && plan[2].items == vec![3] && plan[2].caption);
}

#[test]
fn diagnostics() {
    assert_eq!(health_url(&None), "http://localhost:3000/health");
    assert_eq!(health_url(&Some(s("http://astra:8080"))), "http://astra:8080/health");
    let off = check_report(&HealthProbe::Offline);
    assert!(off.starts_with("Nautilus Diagnostics & Platform Status\n\nAstra Backend API:\n├ Status: Offline (Connection error)\n├ Uptime: offline\n"));
    assert!(off.contains("│  ├ Instagram: Offline\n"));
    assert!(off.contains("├ Instagram: Limited (No Cookies)\n"));
    assert!(off.ends_with("└ TeraBox: Offline"));
    let on = check_report(&HealthProbe::Data(HealthData {
        version: s("1.22"),
        uptime: s("5m"),
        instagram_cookies: true,
        facebook_cookies: false,
    }));
    assert!(on.contains("├ Status: Online (Go 1.22)\n├ Uptime: 5m\n└ Cookies State:\n│  ├ Instagram: Loaded\n│  └ Facebook: Missing / Expired\n"));
    assert!(on.contains("├ Instagram: Operational\n├ Facebook: Limited (No Cookies)\n├ YouTube: Operational\n"));
    let nodata = check_report(&HealthProbe::NoData);
    assert!(nodata.contains("├ Status: Online (Go unknown)\n├ Uptime: unknown\n"));

    assert_eq!(
        speedtest_report(&Some(s("12.00 ms")), &None, &Some(s("8.00 Mbps (1.00 MB/s)"))),
        "Nautilus Network Speedtest\n\nCloudflare Edge:\n├ Latency: 12.00 ms\n├ Download: Error\n└ Upload: 8.00 Mbps (1.00 MB/s)"
    );
}
