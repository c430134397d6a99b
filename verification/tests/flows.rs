use nautilus::commands::{button_effect, callback_pending_id, parse_callback, ButtonEffect, CallbackAction};
use nautilus::delivery::upload_status;
use nautilus::flow::{dl_step, DlAction, DlEvent, DlPhase, DlStep};
use nautilus::links::html_escape;
use nautilus::ratelimit::RateLimiter;
use nautilus::stats::BotStats;

fn s(x: &str) -> String {
    x.to_string()
}

fn step(phase: DlPhase, action: DlAction, record: Option<bool>, cache_hit: bool) -> DlStep {
    DlStep { phase, action, record, cache_hit }
}

#[test]
fn cache_hit_sends_cached_and_counts_success() {
    let r = dl_step(DlPhase::Start, &DlEvent::CacheChecked { cached: 2 }, 100);
    assert_eq!(r, step(DlPhase::Done, DlAction::SendCached, Some(true), true));
    let r = dl_step(DlPhase::Start, &DlEvent::CacheChecked { cached: 0 }, 100);
    assert_eq!(r, step(DlPhase::Resolving, DlAction::Resolve, None, false));
}

#[test]
fn resolve_outcomes() {
    let r = dl_step(DlPhase::Resolving, &DlEvent::ResolveFailed, 100);
    assert_eq!(r, step(DlPhase::Done, DlAction::ReportResolveError, Some(false), false));
    let r = dl_step(DlPhase::Resolving, &DlEvent::Resolved { sizes: vec![] }, 100);
    assert_eq!(r, step(DlPhase::Done, DlAction::ReportNoMedia, None, false));
    let r = dl_step(DlPhase::Resolving, &DlEvent::Resolved { sizes: vec![10, 200, 300] }, 100);
    assert_eq!(r, step(DlPhase::Done, DlAction::ReportTooLarge { index: 1 }, Some(false), false));
    let r = dl_step(DlPhase::Resolving, &DlEvent::Resolved { sizes: vec![10, 100] }, 100);
    assert_eq!(r, step(DlPhase::Uploading { next: 0, total: 2 }, DlAction::Upload { index: 0 }, None, false));
}

#[test]
fn uploads_go_in_order_and_failures_end_the_request() {
    let up = DlPhase::Uploading { next: 0, total: 2 };
    let r = dl_step(up, &DlEvent::Uploaded, 100);
    assert_eq!(r, step(DlPhase::Uploading { next: 1, total: 2 }, DlAction::Upload { index: 1 }, None, false));
    let r = dl_step(DlPhase::Uploading { next: 1, total: 2 }, &DlEvent::Uploaded, 100);
    assert_eq!(r, step(DlPhase::Sending, DlAction::SendAll, None, false));
    let r = dl_step(DlPhase::Uploading { next: 1, total: 2 }, &DlEvent::UploadFailed, 100);
    assert_eq!(r, step(DlPhase::Done, DlAction::ReportUploadFailed { index: 1 }, Some(false), false));
}

#[test]
fn finishing_remembers_only_what_was_delivered() {
    let r = dl_step(DlPhase::Sending, &DlEvent::Sent { delivered: 3 }, 100);
    assert_eq!(r, step(DlPhase::Done, DlAction::Finish { remember: true }, Some(true), false));
    let r = dl_step(DlPhase::Sending, &DlEvent::Sent { delivered: 0 }, 100);
    assert_eq!(r, step(DlPhase::Done, DlAction::Finish { remember: false }, Some(true), false));
}

#[test]
fn ended_or_mismatched_steps_do_nothing() {
    let r = dl_step(DlPhase::Done, &DlEvent::Sent { delivered: 3 }, 100);
    assert_eq!(r, step(DlPhase::Done, DlAction::Ignore, None, false));
    let r = dl_step(DlPhase::Start, &DlEvent::Uploaded, 100);
    assert_eq!(r, step(DlPhase::Start, DlAction::Ignore, None, false));
}

#[test]
fn a_whole_request_is_counted_once() {
    let events = vec![
        DlEvent::CacheChecked { cached: 0 },
        DlEvent::Resolved { sizes: vec![5] },
        DlEvent::Uploaded,
        DlEvent::Sent { delivered: 1 },
        DlEvent::Sent { delivered: 1 },
    ];
    let mut phase = DlPhase::Start;
    let mut counted = 0;
    for e in &events {
        let r = dl_step(phase, e, 10);
        if r.record.is_some() {
            counted += 1;
        }
        phase = r.phase;
    }
    assert_eq!(counted, 1);
    assert_eq!(phase, DlPhase::Done);
}

#[test]
fn buttons_use_up_pending_links() {
    let dl = parse_callback("dl:720p:abc");
    assert_eq!(callback_pending_id(&dl), Some(s("abc")));
    assert_eq!(
        button_effect(&dl, Some(s("https://x.com/a"))),
        ButtonEffect::StartDownload { id: s("abc"), url: s("https://x.com/a"), format: s("720p") }
    );
    assert_eq!(button_effect(&dl, None), ButtonEffect::Alert { text: s("Download request expired or invalid.") });
    let cancel = parse_callback("dl:cancel:abc");
    assert_eq!(button_effect(&cancel, Some(s("u"))), ButtonEffect::Dismiss { id: s("abc") });
    assert_eq!(button_effect(&cancel, None), ButtonEffect::Alert { text: s("Download request expired or invalid.") });
    assert_eq!(callback_pending_id(&CallbackAction::ShowHelp), None);
    assert_eq!(button_effect(&CallbackAction::ShowHelp, None), ButtonEffect::ShowHelp);
    assert_eq!(button_effect(&CallbackAction::Ignore, Some(s("u"))), ButtonEffect::Nothing);
}

#[test]
fn counters_count_exactly() {
    let mut b = BotStats::new(s("bot"), 1);
    for k in 0..10 {
        if k % 3 == 0 {
            b.record_failure();
        } else {
            b.record_success();
        }
    }
    assert_eq!(b.processed_total(), 10);
    assert_eq!(b.processed_ok(), 6);
    assert_eq!(b.processed_fail(), 4);
    assert_eq!(b.processed_total(), b.processed_ok() + b.processed_fail());
}

#[test]
fn escaping_twice_escapes_the_ampersands_again() {
    assert_eq!(html_escape("&amp;"), "&amp;amp;");
    assert_eq!(html_escape("plain text"), "plain text");
    assert_eq!(html_escape("'\""), "&#x27;&quot;");
}

#[test]
fn burst_within_one_refill_period() {
    let mut l = RateLimiter::new(3, 60);
    let t0 = 5_000_000_000u64;
    let answers: Vec<bool> = [0u64, 1, 2, 3, 19_999_999_999].iter().map(|d| l.check_at(7, t0 + d)).collect();
    assert_eq!(answers, vec![true, true, true, false, false]);
    assert!(l.check_at(8, t0 + 1));
    assert!(l.check_at(7, t0 + 20_000_000_000));
}

#[test]
fn progress_line_past_the_count() {
    assert_eq!(upload_status(4, 3, "c.mp4", 1), "Uploading 5/3: c.mp4 (1 bytes)");
}
