//! The text of the `/check` and `/speedtest` reports.

use vstd::prelude::*;

verus! {

/// What the Astra backend reported about itself.
pub struct HealthData {
    pub version: String,
    pub uptime: String,
    pub instagram_cookies: bool,
    pub facebook_cookies: bool,
}

/// The outcome of asking the Astra backend for its health.
pub enum HealthProbe {
    /// No answer, or an answer that was not a success.
    Offline,
    /// A success whose body could not be read or held no data.
    NoData,
    /// A success with the backend's report.
    Data(HealthData),
}

/// The address the backend is asked at: the configured base (by default
/// `http://localhost:3000`) followed by `/health`.
pub open spec fn health_url_spec(api_url: Option<Seq<char>>) -> Seq<char> {
    match api_url {
        Some(u) => u + "/health"@,
        None => "http://localhost:3000"@ + "/health"@,
    }
}

/// The address of the backend's health report.
pub fn health_url(api_url: &Option<String>) -> (r: String)
    ensures
        r@ == health_url_spec(api_url.deep_view()),
{
    let mut s = match api_url {
        Some(u) => u.clone(),
        None => String::from_str("http://localhost:3000"),
    };
    s.append("/health");
    s
}

/// The facts the report is made of: whether the backend answered, whether
/// each cookie set is loaded, its uptime and its version.
pub open spec fn probe_facts(p: HealthProbe) -> (bool, bool, bool, Seq<char>, Seq<char>) {
    match p {
        HealthProbe::Offline => (false, false, false, "offline"@, "offline"@),
        HealthProbe::NoData => (true, false, false, "unknown"@, "unknown"@),
        HealthProbe::Data(d) => (true, d.instagram_cookies, d.facebook_cookies, d.uptime@, d.version@),
    }
}

/// The status line of a cookie set.
pub open spec fn cookie_status(online: bool, loaded: bool) -> Seq<char> {
    if !online {
        "Offline"@
    } else if loaded {
        "Loaded"@
    } else {
        "Missing / Expired"@
    }
}

/// The status of a platform that needs no cookies.
pub open spec fn platform_status(online: bool) -> Seq<char> {
    if online {
        "Operational"@
    } else {
        "Offline"@
    }
}

/// The status of a platform that needs cookies.
pub open spec fn cookie_platform_status(loaded: bool) -> Seq<char> {
    if loaded {
        "Operational"@
    } else {
        "Limited (No Cookies)"@
    }
}

/// The status line of the backend itself.
pub open spec fn api_status(online: bool, version: Seq<char>) -> Seq<char> {
    if online {
        "Online (Go "@ + version + ")"@
    } else {
        "Offline (Connection error)"@
    }
}

/// The `/check` report for the facts of a probe.
pub open spec fn check_text(online: bool, ig: bool, fb: bool, uptime: Seq<char>, version: Seq<char>) -> Seq<char> {
    let p = platform_status(online);
    "Nautilus Diagnostics & Platform Status\n\nAstra Backend API:\n├ Status: "@ + api_status(online, version)
        + "\n├ Uptime: "@ + uptime + "\n└ Cookies State:\n│  ├ Instagram: "@ + cookie_status(online, ig)
        + "\n│  └ Facebook: "@ + cookie_status(online, fb) + "\n\nPlatforms Operational Status:\n├ TikTok: "@ + p
        + "\n├ Instagram: "@ + cookie_platform_status(ig) + "\n├ Facebook: "@ + cookie_platform_status(fb)
        + "\n├ YouTube: "@ + p + "\n├ Twitter/X: "@ + p + "\n├ Threads: "@ + p + "\n├ SoundCloud: "@ + p
        + "\n├ Spotify: "@ + p + "\n├ Pinterest: "@ + p + "\n├ LinkedIn: "@ + p + "\n└ TeraBox: "@ + p
}

/// The `/check` report for a probe's outcome.
pub open spec fn check_report_spec(p: HealthProbe) -> Seq<char> {
    let (online, ig, fb, uptime, version) = probe_facts(p);
    check_text(online, ig, fb, uptime, version)
}

fn cookie_status_str(online: bool, loaded: bool) -> (r: &'static str)
    ensures
        r@ == cookie_status(online, loaded),
{
    if !online {
        "Offline"
    } else if loaded {
        "Loaded"
    } else {
        "Missing / Expired"
    }
}

fn platform_status_str(online: bool) -> (r: &'static str)
    ensures
        r@ == platform_status(online),
{
    if online {
        "Operational"
    } else {
        "Offline"
    }
}

fn cookie_platform_status_str(loaded: bool) -> (r: &'static str)
    ensures
        r@ == cookie_platform_status(loaded),
{
    if loaded {
        "Operational"
    } else {
        "Limited (No Cookies)"
    }
}

fn api_status_string(online: bool, version: &str) -> (r: String)
    ensures
        r@ == api_status(online, version@),
{
    if online {
        let mut s = String::from_str("Online (Go ");
        s.append(version);
        s.append(")");
        s
    } else {
        String::from_str("Offline (Connection error)")
    }
}

fn check_text_string(online: bool, ig: bool, fb: bool, uptime: &str, version: &str) -> (r: String)
    ensures
        r@ == check_text(online, ig, fb, uptime@, version@),
{
    let p = platform_status_str(online);
    let status = api_status_string(online, version);
    let mut s = String::from_str("Nautilus Diagnostics & Platform Status\n\nAstra Backend API:\n├ Status: ");
    s.append(status.as_str());
    s.append("\n├ Uptime: ");
    s.append(uptime);
    s.append("\n└ Cookies State:\n│  ├ Instagram: ");
    s.append(cookie_status_str(online, ig));
    s.append("\n│  └ Facebook: ");
    s.append(cookie_status_str(online, fb));
    s.append("\n\nPlatforms Operational Status:\n├ TikTok: ");
    s.append(p);
    s.append("\n├ Instagram: ");
    s.append(cookie_platform_status_str(ig));
    s.append("\n├ Facebook: ");
    s.append(cookie_platform_status_str(fb));
    s.append("\n├ YouTube: ");
    s.append(p);
    s.append("\n├ Twitter/X: ");
    s.append(p);
    s.append("\n├ Threads: ");
    s.append(p);
    s.append("\n├ SoundCloud: ");
    s.append(p);
    s.append("\n├ Spotify: ");
    s.append(p);
    s.append("\n├ Pinterest: ");
    s.append(p);
    s.append("\n├ LinkedIn: ");
    s.append(p);
    s.append("\n└ TeraBox: ");
    s.append(p);
    s
}

/// The `/check` report: the backend's status, uptime and cookie state, and
/// the status of every platform, as the probe found them.
pub fn check_report(probe: &HealthProbe) -> (r: String)
    ensures
        r@ == check_report_spec(*probe),
{
    match probe {
        HealthProbe::Offline => check_text_string(false, false, false, "offline", "offline"),
        HealthProbe::NoData => check_text_string(true, false, false, "unknown", "unknown"),
        HealthProbe::Data(d) => check_text_string(
            true,
            d.instagram_cookies,
            d.facebook_cookies,
            d.uptime.as_str(),
            d.version.as_str(),
        ),
    }
}

/// A measured value of the speed test, or `Error` when it failed.
pub open spec fn measured(v: Option<Seq<char>>) -> Seq<char> {
    match v {
        Some(t) => t,
        None => "Error"@,
    }
}

/// The `/speedtest` report for the formatted latency, download and upload
/// figures.
pub open spec fn speedtest_spec(latency: Option<Seq<char>>, down: Option<Seq<char>>, up: Option<Seq<char>>) -> Seq<
    char,
> {
    "Nautilus Network Speedtest\n\nCloudflare Edge:\n├ Latency: "@ + measured(latency) + "\n├ Download: "@
        + measured(down) + "\n└ Upload: "@ + measured(up)
}

fn append_measured(s: &mut String, v: &Option<String>)
    ensures
        final(s)@ == old(s)@ + measured(v.deep_view()),
{
    match v {
        Some(t) => s.append(t.as_str()),
        None => s.append("Error"),
    }
}

/// The `/speedtest` report: each figure as measured, or `Error`.
pub fn speedtest_report(latency: &Option<String>, down: &Option<String>, up: &Option<String>) -> (r: String)
    ensures
        r@ == speedtest_spec(latency.deep_view(), down.deep_view(), up.deep_view()),
{
    let mut s = String::from_str("Nautilus Network Speedtest\n\nCloudflare Edge:\n├ Latency: ");
    append_measured(&mut s, latency);
    s.append("\n├ Download: ");
    append_measured(&mut s, down);
    s.append("\n└ Upload: ");
    append_measured(&mut s, up);
    s
}

} // verus!
