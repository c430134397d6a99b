//! The decisions of a download request: which step follows each outcome,
//! which outcome is counted, and when what was sent is remembered.

use vstd::prelude::*;

use crate::delivery::first_oversized;

verus! {

/// Where a download request stands.
#[derive(Debug, Clone, Copy, PartialEq, Eq)]
pub enum DlPhase {
    /// The status message is out; the cache is to be asked.
    Start,
    /// The link is being resolved.
    Resolving,
    /// Item `next` of `total` is being uploaded.
    Uploading { next: usize, total: usize },
    /// Every item is uploaded and the messages are going out.
    Sending,
    /// The request is over.
    Done,
}

/// What came back from the last action.
#[derive(Debug)]
pub enum DlEvent {
    /// The cache holds this many media for the request (zero when none).
    CacheChecked { cached: usize },
    /// The link could not be resolved.
    ResolveFailed,
    /// The link resolved to items of these sizes in bytes.
    Resolved { sizes: Vec<u64> },
    /// The item being uploaded is uploaded.
    Uploaded,
    /// The upload of the item being uploaded failed.
    UploadFailed,
    /// The messages went out; this many media were delivered.
    Sent { delivered: usize },
}

/// What to do next.
#[derive(Debug, Clone, Copy, PartialEq, Eq)]
pub enum DlAction {
    /// Send the cached media again and delete the status message.
    SendCached,
    /// Resolve the link.
    Resolve,
    /// Show the resolver's error.
    ReportResolveError,
    /// Show that the link holds no media.
    ReportNoMedia,
    /// Show that item `index` is over the upload limit.
    ReportTooLarge { index: usize },
    /// Upload item `index`, showing its progress line.
    Upload { index: usize },
    /// Show that the upload of item `index` failed.
    ReportUploadFailed { index: usize },
    /// Send the uploaded items as `plan_sends` groups them.
    SendAll,
    /// Delete the status message; remember the delivered media for the
    /// request when `remember`.
    Finish { remember: bool },
    /// Nothing: the event does not belong to the phase.
    Ignore,
}

/// One step of a request: the next phase, the action, the outcome to count
/// (`Some(true)` a success, `Some(false)` a failure, `None` nothing) and
/// whether a cache hit is counted.
#[derive(Debug, Clone, Copy, PartialEq, Eq)]
pub struct DlStep {
    pub phase: DlPhase,
    pub action: DlAction,
    pub record: Option<bool>,
    pub cache_hit: bool,
}

pub open spec fn step_of(phase: DlPhase, action: DlAction, record: Option<bool>, cache_hit: bool) -> DlStep {
    DlStep { phase, action, record, cache_hit }
}

/// The step that leaves everything as it is.
pub open spec fn ignored(phase: DlPhase) -> DlStep {
    step_of(phase, DlAction::Ignore, None, false)
}

/// `i` is the first item over the limit.
pub open spec fn is_first_over(sizes: Seq<u64>, max: u64, i: int) -> bool {
    0 <= i < sizes.len() && sizes[i] > max && forall|j: int| 0 <= j < i ==> sizes[j] <= max
}

/// The first item over the limit, if any.
pub open spec fn first_over(sizes: Seq<u64>, max: u64) -> Option<int> {
    if exists|i: int| is_first_over(sizes, max, i) {
        Some(choose|i: int| is_first_over(sizes, max, i))
    } else {
        None
    }
}

/// The step that follows `event` in `phase`, with uploads limited to `max`
/// bytes an item.
pub open spec fn dl_next(phase: DlPhase, event: DlEvent, max: u64) -> DlStep {
    match phase {
        DlPhase::Start => match event {
            DlEvent::CacheChecked { cached } => if cached > 0 {
                step_of(DlPhase::Done, DlAction::SendCached, Some(true), true)
            } else {
                step_of(DlPhase::Resolving, DlAction::Resolve, None, false)
            },
            _ => ignored(phase),
        },
        DlPhase::Resolving => match event {
            DlEvent::ResolveFailed => step_of(DlPhase::Done, DlAction::ReportResolveError, Some(false), false),
            DlEvent::Resolved { sizes } => if sizes@.len() == 0 {
                step_of(DlPhase::Done, DlAction::ReportNoMedia, None, false)
            } else {
                match first_over(sizes@, max) {
                    Some(i) => step_of(
                        DlPhase::Done,
                        DlAction::ReportTooLarge { index: i as usize },
                        Some(false),
                        false,
                    ),
                    None => step_of(
                        DlPhase::Uploading { next: 0, total: sizes@.len() as usize },
                        DlAction::Upload { index: 0 },
                        None,
                        false,
                    ),
                }
            },
            _ => ignored(phase),
        },
        DlPhase::Uploading { next, total } => match event {
            DlEvent::Uploaded => if next + 1 < total {
                step_of(
                    DlPhase::Uploading { next: (next + 1) as usize, total },
                    DlAction::Upload { index: (next + 1) as usize },
                    None,
                    false,
                )
            } else if next < total {
                step_of(DlPhase::Sending, DlAction::SendAll, None, false)
            } else {
                ignored(phase)
            },
            DlEvent::UploadFailed => if next < total {
                step_of(DlPhase::Done, DlAction::ReportUploadFailed { index: next }, Some(false), false)
            } else {
                ignored(phase)
            },
            _ => ignored(phase),
        },
        DlPhase::Sending => match event {
            DlEvent::Sent { delivered } => step_of(
                DlPhase::Done,
                DlAction::Finish { remember: delivered > 0 },
                Some(true),
                false,
            ),
            _ => ignored(phase),
        },
        DlPhase::Done => ignored(phase),
    }
}

fn first_over_of(sizes: &Vec<u64>, max: u64) -> (r: Option<usize>)
    ensures
        match r {
            Some(i) => first_over(sizes@, max) == Some(i as int),
            None => first_over(sizes@, max) is None,
        },
{
    let r = first_oversized(sizes, max);
    match r {
        Some(i) => {
            proof {
                assert(is_first_over(sizes@, max, i as int));
                let j = choose|j: int| is_first_over(sizes@, max, j);
                assert(j == i as int) by {
                    if j < i {
                        assert(sizes@[j] <= max);
                    } else if j > i {
                        assert(sizes@[i as int] <= max);
                    }
                }
            }
        },
        None => {
            assert(!exists|i: int| is_first_over(sizes@, max, i));
        },
    }
    r
}

/// The step that follows `event` in `phase` (see `dl_next`).
pub fn dl_step(phase: DlPhase, event: &DlEvent, max: u64) -> (r: DlStep)
    ensures
        r == dl_next(phase, *event, max),
{
    let ignore = DlStep { phase, action: DlAction::Ignore, record: None, cache_hit: false };
    match phase {
        DlPhase::Start => match event {
            DlEvent::CacheChecked { cached } => if *cached > 0 {
                DlStep { phase: DlPhase::Done, action: DlAction::SendCached, record: Some(true), cache_hit: true }
            } else {
                DlStep { phase: DlPhase::Resolving, action: DlAction::Resolve, record: None, cache_hit: false }
            },
            _ => ignore,
        },
        DlPhase::Resolving => match event {
            DlEvent::ResolveFailed => DlStep {
                phase: DlPhase::Done,
                action: DlAction::ReportResolveError,
                record: Some(false),
                cache_hit: false,
            },
            DlEvent::Resolved { sizes } => if sizes.len() == 0 {
                DlStep { phase: DlPhase::Done, action: DlAction::ReportNoMedia, record: None, cache_hit: false }
            } else {
                match first_over_of(sizes, max) {
                    Some(i) => DlStep {
                        phase: DlPhase::Done,
                        action: DlAction::ReportTooLarge { index: i },
                        record: Some(false),
                        cache_hit: false,
                    },
                    None => DlStep {
                        phase: DlPhase::Uploading { next: 0, total: sizes.len() },
                        action: DlAction::Upload { index: 0 },
                        record: None,
                        cache_hit: false,
                    },
                }
            },
            _ => ignore,
        },
        DlPhase::Uploading { next, total } => match event {
            DlEvent::Uploaded => if next < total && total - next > 1 {
                DlStep {
                    phase: DlPhase::Uploading { next: next + 1, total },
                    action: DlAction::Upload { index: next + 1 },
                    record: None,
                    cache_hit: false,
                }
            } else if next < total {
                DlStep { phase: DlPhase::Sending, action: DlAction::SendAll, record: None, cache_hit: false }
            } else {
                ignore
            },
            DlEvent::UploadFailed => if next < total {
                DlStep {
                    phase: DlPhase::Done,
                    action: DlAction::ReportUploadFailed { index: next },
                    record: Some(false),
                    cache_hit: false,
                }
            } else {
                ignore
            },
            _ => ignore,
        },
        DlPhase::Sending => match event {
            DlEvent::Sent { delivered } => DlStep {
                phase: DlPhase::Done,
                action: DlAction::Finish { remember: *delivered > 0 },
                record: Some(true),
                cache_hit: false,
            },
            _ => ignore,
        },
        DlPhase::Done => ignore,
    }
}

/// What every step keeps: an outcome is counted only by a step that ends the
/// request; a request ends counted, except when its link holds no media; a
/// cache hit is counted only with the success of sending the cached media;
/// what was sent is remembered exactly when something was delivered; and an
/// ended request takes no more steps.
pub proof fn law_dl_step_outcomes(phase: DlPhase, event: DlEvent, max: u64)
    ensures
        dl_next(phase, event, max).record is Some ==> dl_next(phase, event, max).phase == DlPhase::Done,
        phase != DlPhase::Done && dl_next(phase, event, max).phase == DlPhase::Done ==> (dl_next(
            phase,
            event,
            max,
        ).record is Some || dl_next(phase, event, max).action == DlAction::ReportNoMedia),
        dl_next(phase, event, max).cache_hit ==> dl_next(phase, event, max).record == Some(true)
            && dl_next(phase, event, max).action == DlAction::SendCached,
        forall|remember: bool|
            dl_next(phase, event, max).action == (DlAction::Finish { remember }) ==> (event matches DlEvent::Sent {
                delivered,
            } && remember == (delivered > 0)),
        phase == DlPhase::Done ==> dl_next(phase, event, max) == ignored(phase),
{
}

/// Step `k` of a run: `events[k]` takes `phases[k]` to `phases[k + 1]`.
pub open spec fn dl_run_step(phases: Seq<DlPhase>, events: Seq<DlEvent>, max: u64, k: int) -> bool {
    phases[k + 1] == dl_next(phases[k], events[k], max).phase
}

proof fn lemma_done_stays(phases: Seq<DlPhase>, events: Seq<DlEvent>, max: u64, m: int, n: int)
    requires
        phases.len() == events.len() + 1,
        forall|k: int| 0 <= k < events.len() ==> #[trigger] dl_run_step(phases, events, max, k),
        0 <= m <= n <= events.len(),
        phases[m] == DlPhase::Done,
    ensures
        phases[n] == DlPhase::Done,
    decreases n - m,
{
    if n > m {
        lemma_done_stays(phases, events, max, m, n - 1);
        assert(dl_run_step(phases, events, max, n - 1));
    }
}

/// A request is counted at most once: in any run of steps, at most one step
/// counts a success or a failure.
pub proof fn law_dl_counted_at_most_once(phases: Seq<DlPhase>, events: Seq<DlEvent>, max: u64)
    requires
        phases.len() == events.len() + 1,
        forall|k: int| 0 <= k < events.len() ==> #[trigger] dl_run_step(phases, events, max, k),
    ensures
        forall|i: int, j: int|
            0 <= i < j < events.len() && (#[trigger] dl_next(phases[i], events[i], max)).record is Some
                ==> (#[trigger] dl_next(phases[j], events[j], max)).record is None,
{
    assert forall|i: int, j: int|
        0 <= i < j < events.len() && (#[trigger] dl_next(phases[i], events[i], max)).record is Some implies (
    #[trigger] dl_next(phases[j], events[j], max)).record is None by {
        assert(dl_run_step(phases, events, max, i));
        lemma_done_stays(phases, events, max, i + 1, j);
    }
}

} // verus!
